//! Requests to the synchronisation engine and its responses.

use vstd::prelude::*;

verus! {

/// The message shown when the player must sign in again.
pub const RELOGIN_MESSAGE: &'static str = "Your session has expired; please sign in again.";

/// Failure of a remote repository operation.
#[derive(Clone, Debug, PartialEq, Eq)]
pub enum AtRepoSyncError {
    /// The session expired or is invalid: the player must sign in again.
    AuthErrorNeedToReLogin,
    /// Any other remote failure, with its message.
    Error(String),
}

/// Failure of the engine's own work or of the local store.
#[derive(Clone, Debug, PartialEq, Eq)]
pub enum StorageError {
    /// The recording does not parse or does not replay.
    InvalidRecording(String),
    /// No game is stored under the requested record key.
    RecordNotFound,
    /// The record key chosen for a new game is already in use.
    KeyInUse,
    /// No statistics record exists to merge a game into.
    MissingStats,
    /// A statistics counter would leave its range.
    CounterOverflow,
    /// The local store could not be opened, read or written.
    LocalStoreError(String),
}

/// A request to the engine. The account identifier is present when the player
/// is signed in.
#[derive(Clone, Debug, PartialEq, Eq)]
pub enum StorageRequest {
    /// A game ended: its seeded recording, and the account if signed in.
    GameCompleted(String, Option<String>),
    /// Push the stored game under this record key to the remote repository.
    TryToSyncRemotely(String, Option<String>),
}

/// The engine's answer to a request.
#[derive(Clone, Debug, PartialEq, Eq)]
pub enum StorageResponse {
    Success,
    AlreadySynced,
    Error(StorageError),
    RepoError(AtRepoSyncError),
}

impl AtRepoSyncError {
    /// Whether the player has to sign in again.
    pub fn needs_relogin(&self) -> (r: bool)
        ensures
            r == (*self is AuthErrorNeedToReLogin),
    {
        match self {
            AtRepoSyncError::AuthErrorNeedToReLogin => true,
            AtRepoSyncError::Error(_) => false,
        }
    }

    /// A message for the player.
    pub fn message(&self) -> (r: String)
        ensures
            *self is Error ==> r@ == self->Error_0@,
            *self is AuthErrorNeedToReLogin ==> r@ == RELOGIN_MESSAGE@,
    {
        match self {
            AtRepoSyncError::AuthErrorNeedToReLogin => RELOGIN_MESSAGE.to_owned(),
            AtRepoSyncError::Error(m) => m.clone(),
        }
    }
}

/// How the player learns the outcome of a sync request.
#[derive(Clone, Debug, PartialEq, Eq)]
pub enum SyncNotice {
    /// Nothing to show.
    Quiet,
    /// The game list changed: reload it.
    Reload,
    /// Ask the player to sign in again.
    PromptRelogin,
    /// Show this message beside the game, without blocking.
    ShowMessage(String),
    /// The game could not be saved: apologise in a blocking alert.
    Apologise,
}

/// The notice for the answer to a sync request: a reload after success, a
/// sign-in prompt when the session expired, the message of another remote
/// failure, and an apology for a local failure.
pub fn sync_notice(response: StorageResponse) -> (r: SyncNotice)
    ensures
        response is Success ==> r == SyncNotice::Reload,
        response is AlreadySynced ==> r == SyncNotice::Quiet,
        response is Error ==> r == SyncNotice::Apologise,
        response is RepoError && response->RepoError_0 is AuthErrorNeedToReLogin ==> r
            == SyncNotice::PromptRelogin,
        response is RepoError && response->RepoError_0 is Error ==> r == SyncNotice::ShowMessage(
            response->RepoError_0->Error_0,
        ),
{
    match response {
        StorageResponse::Success => SyncNotice::Reload,
        StorageResponse::AlreadySynced => SyncNotice::Quiet,
        StorageResponse::Error(_) => SyncNotice::Apologise,
        StorageResponse::RepoError(AtRepoSyncError::AuthErrorNeedToReLogin) => SyncNotice::PromptRelogin,
        StorageResponse::RepoError(AtRepoSyncError::Error(m)) => SyncNotice::ShowMessage(m),
    }
}

} // verus!
