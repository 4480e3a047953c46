//! The synchronisation orchestrator.
//!
//! Completing a game and re-syncing a stored game are each a short sequence
//! of remote calls with decisions in between. Each request starts with a
//! verified function that consults the local store; when remote work is
//! needed it returns a [`RemoteCall`] and a [`SyncFlow`]. The caller performs
//! the call and hands the outcome to [`SyncFlow::resume`], until the flow
//! answers with a [`StorageResponse`].

use crate::messages::{AtRepoSyncError, StorageError, StorageResponse};
use crate::replay::{
    board_history_of, boards_view, final_state_of, game_hash_of, recording_valid, replay_recording,
    Tile,
};
use crate::stats::{merge_fits, merge_game_into_stats, merged_stats, PlayerStats, StatsError};
use crate::store::{
    count_with_hash, has_hash, has_key, keys_unique, lemma_put_new_hash, put_entry, GameRecord, LocalStore, StoredGame,
    SyncStatusData,
};
use crate::messages::StorageRequest;
use atrium_api::types::string::{Datetime, Tid};
use atrium_api::types::LimitedU32;
use vstd::prelude::*;

verus! {

/// A remote repository operation the engine asks for.
pub enum RemoteCall {
    /// Refresh the player's statistics from the remote repository.
    RefreshStats,
    /// Write these statistics to the remote repository.
    PushStats(PlayerStats),
    /// Create this game record remotely, under its record key.
    CreateGame(StoredGame),
}

/// What the caller does next.
pub enum Progress {
    /// Perform this remote call and resume the flow with its outcome.
    Call(RemoteCall),
    /// The request is answered.
    Finished(StorageResponse),
}

/// The outcome of a remote call.
pub enum RemoteOutcome {
    Done,
    /// The record already exists remotely; counts as success.
    AlreadyExists,
    Failed(AtRepoSyncError),
}

/// Which request a flow serves.
#[derive(Clone, Copy, Debug, PartialEq, Eq, Structural)]
pub enum FlowKind {
    Completion,
    Resync,
}

/// The remote outcome a flow waits for.
#[derive(Clone, Copy, Debug, PartialEq, Eq, Structural)]
pub enum Stage {
    AwaitRefresh,
    AwaitPush,
    AwaitCreate,
    Finished,
}

/// A request in progress.
pub struct SyncFlow {
    pub kind: FlowKind,
    pub stage: Stage,
    /// The game record, with its record key, that the request is about.
    pub game: StoredGame,
    /// End score of the replayed game.
    pub score: u64,
    /// Boards of the replayed game.
    pub history: Vec<Vec<Option<Tile>>>,
    /// Message of a failed statistics write, reported once the game is stored.
    pub push_failure: Option<String>,
}

/// `g` with its synchronised flag set to `b`.
pub open spec fn with_synced(g: StoredGame, b: bool) -> StoredGame {
    StoredGame {
        rkey: g.rkey,
        record: GameRecord {
            sync_status: SyncStatusData { synced_with_at_repo: b, ..g.record.sync_status },
            ..g.record
        },
    }
}

fn set_synced(g: StoredGame, b: bool) -> (r: StoredGame)
    ensures
        r == with_synced(g, b),
{
    let mut g = g;
    g.record.sync_status.synced_with_at_repo = b;
    g
}

/// Response of a completed game whose record was created remotely.
pub open spec fn completion_response(push_failure: Option<String>) -> StorageResponse {
    match push_failure {
        Some(m) => StorageResponse::RepoError(AtRepoSyncError::Error(m)),
        None => StorageResponse::Success,
    }
}

/// The result of resuming a flow: the next step, the flow's new stage and
/// remembered failure, and the store's entries and statistics afterwards.
pub type ResumeResult = (Progress, Stage, Option<String>, Seq<StoredGame>, Option<PlayerStats>);

/// Merging the flow's game into the statistics `s0`, after the refresh step.
pub open spec fn merge_step(f: SyncFlow, g0: Seq<StoredGame>, s0: Option<PlayerStats>) -> ResumeResult {
    match s0 {
        None => (
            Progress::Finished(StorageResponse::Error(StorageError::MissingStats)),
            Stage::Finished,
            f.push_failure,
            g0,
            s0,
        ),
        Some(s) => if merge_fits(s, f.score, boards_view(f.history@)) {
            let m = merged_stats(s, f.score, boards_view(f.history@));
            (Progress::Call(RemoteCall::PushStats(m)), Stage::AwaitPush, f.push_failure, g0, Some(m))
        } else {
            (
                Progress::Finished(StorageResponse::Error(StorageError::CounterOverflow)),
                Stage::Finished,
                f.push_failure,
                g0,
                s0,
            )
        },
    }
}

/// Stopping because the player must sign in again. A completed game is kept
/// locally, marked as not synchronised.
pub open spec fn relogin_step(f: SyncFlow, g0: Seq<StoredGame>, s0: Option<PlayerStats>) -> ResumeResult {
    (
        Progress::Finished(StorageResponse::RepoError(AtRepoSyncError::AuthErrorNeedToReLogin)),
        Stage::Finished,
        f.push_failure,
        if f.kind == FlowKind::Completion {
            put_entry(g0, with_synced(f.game, false))
        } else {
            g0
        },
        s0,
    )
}

/// What resuming flow `f` with `outcome` does, given the store's entries `g0`
/// and statistics `s0`.
pub open spec fn resume_spec(
    f: SyncFlow,
    g0: Seq<StoredGame>,
    s0: Option<PlayerStats>,
    outcome: RemoteOutcome,
) -> ResumeResult {
    let pf = f.push_failure;
    let completion = f.kind == FlowKind::Completion;
    match f.stage {
        Stage::AwaitRefresh => match outcome {
            RemoteOutcome::Failed(AtRepoSyncError::AuthErrorNeedToReLogin) => relogin_step(f, g0, s0),
            _ => merge_step(f, g0, s0),
        },
        Stage::AwaitPush => match outcome {
            RemoteOutcome::Failed(AtRepoSyncError::AuthErrorNeedToReLogin) => relogin_step(f, g0, s0),
            RemoteOutcome::Failed(AtRepoSyncError::Error(m)) => if completion {
                (
                    Progress::Call(RemoteCall::CreateGame(with_synced(f.game, true))),
                    Stage::AwaitCreate,
                    Some(m),
                    g0,
                    s0,
                )
            } else {
                (
                    Progress::Finished(StorageResponse::RepoError(AtRepoSyncError::Error(m))),
                    Stage::Finished,
                    pf,
                    g0,
                    s0,
                )
            },
            _ => if completion {
                (
                    Progress::Call(RemoteCall::CreateGame(with_synced(f.game, true))),
                    Stage::AwaitCreate,
                    pf,
                    g0,
                    s0,
                )
            } else {
                (Progress::Finished(StorageResponse::Success), Stage::Finished, pf, g0, s0)
            },
        },
        Stage::AwaitCreate => match outcome {
            RemoteOutcome::Failed(e) => (
                Progress::Finished(StorageResponse::RepoError(e)),
                Stage::Finished,
                pf,
                if completion {
                    put_entry(g0, with_synced(f.game, false))
                } else {
                    g0
                },
                s0,
            ),
            _ => if completion {
                (
                    Progress::Finished(completion_response(pf)),
                    Stage::Finished,
                    pf,
                    put_entry(g0, with_synced(f.game, true)),
                    s0,
                )
            } else {
                (
                    Progress::Call(RemoteCall::RefreshStats),
                    Stage::AwaitRefresh,
                    pf,
                    put_entry(g0, with_synced(f.game, true)),
                    s0,
                )
            },
        },
        Stage::Finished => (Progress::Finished(StorageResponse::AlreadySynced), Stage::Finished, pf, g0, s0),
    }
}

impl SyncFlow {
    /// Whether the flow still waits for a remote outcome.
    pub fn is_waiting(&self) -> (r: bool)
        ensures
            r == (self.stage != Stage::Finished),
    {
        self.stage != Stage::Finished
    }

    fn stop_for_relogin(&mut self, store: &mut LocalStore) -> (r: Progress)
        requires
            old(store).wf(),
        ensures
            final(store).wf(),
            final(self).kind == old(self).kind,
            final(self).game == old(self).game,
            final(self).score == old(self).score,
            final(self).history == old(self).history,
            (r, final(self).stage, final(self).push_failure, final(store).entries(), final(store).spec_stats()) == relogin_step(*old(self), old(store).entries(), old(store).spec_stats()),
    {
        if self.kind == FlowKind::Completion {
            store.put(set_synced(self.game.duplicate(), false));
        }
        self.stage = Stage::Finished;
        Progress::Finished(StorageResponse::RepoError(AtRepoSyncError::AuthErrorNeedToReLogin))
    }

    fn merge_into(&mut self, store: &mut LocalStore) -> (r: Progress)
        requires
            old(store).wf(),
        ensures
            final(store).wf(),
            final(self).kind == old(self).kind,
            final(self).game == old(self).game,
            final(self).score == old(self).score,
            final(self).history == old(self).history,
            (r, final(self).stage, final(self).push_failure, final(store).entries(), final(store).spec_stats()) == merge_step(*old(self), old(store).entries(), old(store).spec_stats()),
    {
        match merge_game_into_stats(store.stats(), self.score, &self.history) {
            Ok(m) => {
                store.put_stats(m);
                self.stage = Stage::AwaitPush;
                Progress::Call(RemoteCall::PushStats(m))
            },
            Err(StatsError::MissingStats) => {
                self.stage = Stage::Finished;
                Progress::Finished(StorageResponse::Error(StorageError::MissingStats))
            },
            Err(StatsError::CounterOverflow) => {
                self.stage = Stage::Finished;
                Progress::Finished(StorageResponse::Error(StorageError::CounterOverflow))
            },
        }
    }

    fn finish_created(&self) -> (r: StorageResponse)
        ensures
            r == completion_response(self.push_failure),
    {
        match &self.push_failure {
            Some(m) => StorageResponse::RepoError(AtRepoSyncError::Error(m.clone())),
            None => StorageResponse::Success,
        }
    }

    /// Continues the flow with the outcome of the remote call it asked for.
    ///
    /// A failed statistics refresh is ignored unless the player must sign in
    /// again; that failure stops every later remote write. A completed game
    /// is always stored locally unless a local error stops the request; once
    /// a remote write was tried it is marked as synchronised only if its
    /// remote creation is confirmed, where "already exists" counts as
    /// confirmation. A re-sync goes on to the statistics after either.
    pub fn resume(&mut self, store: &mut LocalStore, outcome: RemoteOutcome) -> (r: Progress)
        requires
            old(self).stage != Stage::Finished,
            old(store).wf(),
        ensures
            final(store).wf(),
            final(self).kind == old(self).kind,
            final(self).game == old(self).game,
            final(self).score == old(self).score,
            final(self).history == old(self).history,
            (r, final(self).stage, final(self).push_failure, final(store).entries(), final(store).spec_stats()) == resume_spec(
                *old(self),
                old(store).entries(),
                old(store).spec_stats(),
                outcome,
            ),
    {
        match self.stage {
            Stage::AwaitRefresh => match outcome {
                RemoteOutcome::Failed(AtRepoSyncError::AuthErrorNeedToReLogin) => self.stop_for_relogin(
                    store,
                ),
                _ => self.merge_into(store),
            },
            Stage::AwaitPush => match outcome {
                RemoteOutcome::Failed(AtRepoSyncError::AuthErrorNeedToReLogin) => self.stop_for_relogin(
                    store,
                ),
                RemoteOutcome::Failed(AtRepoSyncError::Error(m)) => {
                    if self.kind == FlowKind::Completion {
                        self.push_failure = Some(m);
                        self.stage = Stage::AwaitCreate;
                        Progress::Call(RemoteCall::CreateGame(set_synced(self.game.duplicate(), true)))
                    } else {
                        self.stage = Stage::Finished;
                        Progress::Finished(StorageResponse::RepoError(AtRepoSyncError::Error(m)))
                    }
                },
                _ => {
                    if self.kind == FlowKind::Completion {
                        self.stage = Stage::AwaitCreate;
                        Progress::Call(RemoteCall::CreateGame(set_synced(self.game.duplicate(), true)))
                    } else {
                        self.stage = Stage::Finished;
                        Progress::Finished(StorageResponse::Success)
                    }
                },
            },
            Stage::AwaitCreate => match outcome {
                RemoteOutcome::Failed(e) => {
                    if self.kind == FlowKind::Completion {
                        store.put(set_synced(self.game.duplicate(), false));
                    }
                    self.stage = Stage::Finished;
                    Progress::Finished(StorageResponse::RepoError(e))
                },
                _ => {
                    store.put(set_synced(self.game.duplicate(), true));
                    if self.kind == FlowKind::Completion {
                        self.stage = Stage::Finished;
                        Progress::Finished(self.finish_created())
                    } else {
                        self.stage = Stage::AwaitRefresh;
                        Progress::Call(RemoteCall::RefreshStats)
                    }
                },
            },
            Stage::Finished => Progress::Finished(StorageResponse::AlreadySynced),
        }
    }
}

/// The record a completed game is stored as, under key `rkey`, at time `now`.
/// It is marked as synchronised until a remote write is tried and fails.
pub open spec fn completion_entry(e: StoredGame, rkey: Seq<char>, s: Seq<char>, now: Seq<char>) -> bool {
    let o = final_state_of(s)->0;
    &&& e.rkey@ == rkey
    &&& e.record.seeded_recording@ == s
    &&& e.record.completed == o.over
    &&& e.record.won == o.won
    &&& e.record.current_score == o.score
    &&& e.record.created_at@ == now
    &&& e.record.sync_status.created_at@ == now
    &&& e.record.sync_status.updated_at@ == now
    &&& e.record.has_hash(game_hash_of(s))
    &&& e.record.sync_status.synced_with_at_repo
}

/// The flow that completing the game with recording `s` starts.
pub open spec fn completion_flow(
    f: SyncFlow,
    rkey: Seq<char>,
    s: Seq<char>,
    now: Seq<char>,
    signed_in: bool,
) -> bool {
    &&& f.kind == FlowKind::Completion
    &&& f.stage == (if signed_in {
        Stage::AwaitRefresh
    } else {
        Stage::Finished
    })
    &&& completion_entry(f.game, rkey, s, now)
    &&& f.score == final_state_of(s)->0.score
    &&& Some(boards_view(f.history@)) == board_history_of(s)
    &&& f.push_failure is None
}

/// Starting the completion of the game with recording `s`, on a store with
/// entries `g0` and statistics `s0`, answers `r` and leaves entries `g1` and
/// statistics `s1`.
pub open spec fn completion_post(
    g0: Seq<StoredGame>,
    s0: Option<PlayerStats>,
    s: Seq<char>,
    signed_in: bool,
    rkey: Seq<char>,
    now: Seq<char>,
    r: (Progress, Option<SyncFlow>),
    g1: Seq<StoredGame>,
    s1: Option<PlayerStats>,
) -> bool {
    if !recording_valid(s) {
        &&& r.0 is Finished
        &&& r.0->Finished_0 is Error
        &&& r.0->Finished_0->Error_0 is InvalidRecording
        &&& r.1 is None
        &&& g1 == g0
        &&& s1 == s0
    } else if has_hash(g0, game_hash_of(s)) {
        &&& r.0 == Progress::Finished(StorageResponse::AlreadySynced)
        &&& r.1 is None
        &&& g1 == g0
        &&& s1 == s0
    } else if has_key(g0, rkey) {
        &&& r.0 == Progress::Finished(StorageResponse::Error(StorageError::KeyInUse))
        &&& r.1 is None
        &&& g1 == g0
        &&& s1 == s0
    } else {
        &&& r.1 is Some
        &&& completion_flow(r.1->0, rkey, s, now, signed_in)
        &&& if signed_in {
            &&& r.0 == Progress::Call(RemoteCall::RefreshStats)
            &&& g1 == g0
            &&& s1 == s0
        } else {
            let score = final_state_of(s)->0.score;
            let h = board_history_of(s)->0;
            match s0 {
                None => {
                    &&& r.0 == Progress::Finished(StorageResponse::Error(StorageError::MissingStats))
                    &&& g1 == g0
                    &&& s1 == s0
                },
                Some(st) => if merge_fits(st, score, h) {
                    &&& r.0 == Progress::Finished(StorageResponse::Success)
                    &&& s1 == Some(merged_stats(st, score, h))
                    &&& g1 == g0.push(r.1->0.game)
                } else {
                    &&& r.0 == Progress::Finished(
                        StorageResponse::Error(StorageError::CounterOverflow),
                    )
                    &&& g1 == g0
                    &&& s1 == s0
                },
            }
        }
    }
}

/// Starts completing the game with recording `recording`, to be stored under
/// `rkey` with timestamps `now`.
///
/// A recording that does not parse or replay is rejected with no write. A
/// game whose content hash is already stored is answered `AlreadySynced`
/// with no write, and a record key already in use is refused with no write.
/// When signed in, the flow asks to refresh the remote statistics next.
/// Otherwise the game is merged into the local statistics and appended to the
/// store.
///
/// When signed in, the checks here and the write of the game at the end of
/// the flow are separate steps: two flows that run at the same time for the
/// same recording, or with the same key, can both write.
pub fn handle_game_completed(
    store: &mut LocalStore,
    recording: String,
    signed_in: bool,
    rkey: String,
    now: String,
) -> (r: (Progress, Option<SyncFlow>))
    requires
        old(store).wf(),
    ensures
        final(store).wf(),
        completion_post(
            old(store).entries(),
            old(store).spec_stats(),
            recording@,
            signed_in,
            rkey@,
            now@,
            r,
            final(store).entries(),
            final(store).spec_stats(),
        ),
{
    let replay = match replay_recording(&recording) {
        Ok(r) => r,
        Err(e) => {
            return (Progress::Finished(StorageResponse::Error(StorageError::InvalidRecording(e))), None);
        },
    };
    if store.get_by_hash(&replay.hash).is_some() {
        return (Progress::Finished(StorageResponse::AlreadySynced), None);
    }
    if store.contains_key(&rkey) {
        return (Progress::Finished(StorageResponse::Error(StorageError::KeyInUse)), None);
    }
    let record = GameRecord {
        seeded_recording: recording,
        completed: replay.outcome.over,
        won: replay.outcome.won,
        current_score: replay.outcome.score,
        created_at: now.clone(),
        sync_status: SyncStatusData {
            created_at: now.clone(),
            hash: replay.hash,
            synced_with_at_repo: true,
            updated_at: now,
        },
    };
    let mut flow = SyncFlow {
        kind: FlowKind::Completion,
        stage: Stage::AwaitRefresh,
        game: StoredGame { rkey, record },
        score: replay.outcome.score,
        history: replay.history,
        push_failure: None,
    };
    if signed_in {
        return (Progress::Call(RemoteCall::RefreshStats), Some(flow));
    }
    match flow.merge_into(store) {
        Progress::Call(_) => {
            store.put(flow.game.duplicate());
            flow.stage = Stage::Finished;
            (Progress::Finished(StorageResponse::Success), Some(flow))
        },
        Progress::Finished(response) => (Progress::Finished(response), Some(flow)),
    }
}

/// The entry stored under key `k`.
pub open spec fn entry_with_key(g: Seq<StoredGame>, k: Seq<char>) -> StoredGame {
    g[choose|i: int| 0 <= i < g.len() && #[trigger] g[i].rkey@ == k]
}

/// `n` is the stored game `e` rebuilt from the replay of its recording: the
/// same key, recording and timestamps, the replay's results and hash, not
/// yet marked as synchronised.
pub open spec fn resync_entry(n: StoredGame, e: StoredGame) -> bool {
    let s = e.record.seeded_recording@;
    let o = final_state_of(s)->0;
    &&& n.rkey == e.rkey
    &&& n.record.seeded_recording == e.record.seeded_recording
    &&& n.record.completed == o.over
    &&& n.record.won == o.won
    &&& n.record.current_score == o.score
    &&& n.record.created_at == e.record.created_at
    &&& n.record.sync_status.created_at == e.record.sync_status.created_at
    &&& n.record.sync_status.updated_at == e.record.sync_status.updated_at
    &&& n.record.has_hash(game_hash_of(s))
    &&& !n.record.sync_status.synced_with_at_repo
}

/// Starting the re-sync of the game stored under `rkey`, on a store with
/// entries `g0`, answers `r`.
pub open spec fn resync_post(g0: Seq<StoredGame>, rkey: Seq<char>, r: (Progress, Option<SyncFlow>)) -> bool {
    if !has_key(g0, rkey) {
        &&& r.0 == Progress::Finished(StorageResponse::Error(StorageError::RecordNotFound))
        &&& r.1 is None
    } else {
        let e = entry_with_key(g0, rkey);
        let s = e.record.seeded_recording@;
        if !recording_valid(s) {
            &&& r.0 is Finished
            &&& r.0->Finished_0 is Error
            &&& r.0->Finished_0->Error_0 is InvalidRecording
            &&& r.1 is None
        } else {
            &&& r.1 is Some
            &&& r.0 == Progress::Call(RemoteCall::CreateGame(with_synced(r.1->0.game, true)))
            &&& r.1->0.kind == FlowKind::Resync
            &&& r.1->0.stage == Stage::AwaitCreate
            &&& resync_entry(r.1->0.game, e)
            &&& r.1->0.score == final_state_of(s)->0.score
            &&& Some(boards_view(r.1->0.history@)) == board_history_of(s)
            &&& r.1->0.push_failure is None
        }
    }
}

/// Starts re-syncing the game stored under `rkey`: its recording is replayed
/// again, and the record rebuilt from the replay is created remotely under
/// the same key first; the statistics are refreshed and pushed after.
///
/// A missing game and a recording that no longer replays are errors, and
/// neither asks for any remote call.
pub fn remote_sync_game(store: &LocalStore, rkey: &String) -> (r: (Progress, Option<SyncFlow>))
    requires
        store.wf(),
    ensures
        resync_post(store.entries(), rkey@, r),
{
    let e = match store.get(rkey) {
        Some(e) => e,
        None => {
            return (Progress::Finished(StorageResponse::Error(StorageError::RecordNotFound)), None);
        },
    };
    proof {
        let g = store.entries();
        let i = choose|i: int|
            0 <= i < g.len() && g[i] == e && #[trigger] g[i].rkey@ == rkey@ && forall|m: int|
                0 <= m < i ==> g[m].rkey@ != rkey@;
        let j = choose|j: int| 0 <= j < g.len() && #[trigger] g[j].rkey@ == rkey@;
        assert(g[i].rkey@ == g[j].rkey@);
        assert(i == j);
    }
    let replay = match replay_recording(&e.record.seeded_recording) {
        Ok(r) => r,
        Err(m) => {
            return (Progress::Finished(StorageResponse::Error(StorageError::InvalidRecording(m))), None);
        },
    };
    let game = StoredGame {
        rkey: e.rkey,
        record: GameRecord {
            seeded_recording: e.record.seeded_recording,
            completed: replay.outcome.over,
            won: replay.outcome.won,
            current_score: replay.outcome.score,
            created_at: e.record.created_at,
            sync_status: SyncStatusData {
                created_at: e.record.sync_status.created_at,
                hash: replay.hash,
                synced_with_at_repo: false,
                updated_at: e.record.sync_status.updated_at,
            },
        },
    };
    let call = RemoteCall::CreateGame(set_synced(game.duplicate(), true));
    let flow = SyncFlow {
        kind: FlowKind::Resync,
        stage: Stage::AwaitCreate,
        game,
        score: replay.outcome.score,
        history: replay.history,
        push_failure: None,
    };
    (Progress::Call(call), Some(flow))
}

/// Relies on atrium_api's `Tid::now`: a timestamp identifier of the current
/// time, used as a fresh record key. Two calls may return the same key.
#[verifier::external_body]
fn fresh_record_key() -> (r: String) {
    Tid::now(LimitedU32::MIN).as_str().to_string()
}

/// Relies on atrium_api's `Datetime::now`: the current time, serialised.
#[verifier::external_body]
fn current_timestamp() -> (r: String) {
    Datetime::now().as_str().to_string()
}

/// Attempts at drawing a record key that is not in use yet.
pub const KEY_ATTEMPTS: u32 = 4;

/// A fresh record key, drawn again while it is in use, a bounded number of
/// times.
fn unused_record_key(store: &LocalStore) -> (r: String) {
    let mut rkey = fresh_record_key();
    let mut tries: u32 = 1;
    while tries < KEY_ATTEMPTS && store.contains_key(&rkey)
        invariant
            1 <= tries <= KEY_ATTEMPTS,
        decreases KEY_ATTEMPTS - tries,
    {
        rkey = fresh_record_key();
        tries += 1;
    }
    rkey
}

/// What answering `request` does, for some fresh record key and time.
pub open spec fn request_post(
    g0: Seq<StoredGame>,
    s0: Option<PlayerStats>,
    request: StorageRequest,
    r: (Progress, Option<SyncFlow>),
    g1: Seq<StoredGame>,
    s1: Option<PlayerStats>,
) -> bool {
    match request {
        StorageRequest::GameCompleted(s, account) => exists|k: Seq<char>, t: Seq<char>|
            #[trigger] completion_post(g0, s0, s@, account is Some, k, t, r, g1, s1),
        StorageRequest::TryToSyncRemotely(key, account) => {
            &&& g1 == g0
            &&& s1 == s0
            &&& account is None ==> {
                &&& r.0 is Finished
                &&& r.0->Finished_0 is RepoError
                &&& r.0->Finished_0->RepoError_0 is Error
                &&& r.1 is None
            }
            &&& account is Some ==> resync_post(g0, key@, r)
        },
    }
}

/// Starts answering a request. The record key of a completed game is a
/// fresh timestamp identifier; re-syncing needs a signed-in account.
#[allow(non_snake_case)]
pub fn StorageTask(store: &mut LocalStore, request: StorageRequest) -> (r: (Progress, Option<SyncFlow>))
    requires
        old(store).wf(),
    ensures
        final(store).wf(),
        request_post(
            old(store).entries(),
            old(store).spec_stats(),
            request,
            r,
            final(store).entries(),
            final(store).spec_stats(),
        ),
{
    match request {
        StorageRequest::GameCompleted(recording, account) => {
            let rkey = unused_record_key(store);
            let now = current_timestamp();
            let ghost k = rkey@;
            let ghost t = now@;
            let r = handle_game_completed(store, recording, account.is_some(), rkey, now);
            r
        },
        StorageRequest::TryToSyncRemotely(rkey, account) => match account {
            None => (
                Progress::Finished(
                    StorageResponse::RepoError(
                        AtRepoSyncError::Error("signing in is needed to sync a game".to_owned()),
                    ),
                ),
                None,
            ),
            Some(_) => remote_sync_game(store, &rkey),
        },
    }
}

/// The flow `f` after a resume that produced `res`.
pub open spec fn advance(f: SyncFlow, res: ResumeResult) -> SyncFlow {
    SyncFlow { stage: res.1, push_failure: res.2, ..f }
}

/// Writing to entries that hold no game of content hash `h` nor of key
/// `e.rkey` a game `e` of that hash leaves exactly one game of that hash.
proof fn lemma_write_new_game(g: Seq<StoredGame>, e: StoredGame, h: Seq<char>)
    requires
        !has_hash(g, h),
        e.record.has_hash(h),
    ensures
        count_with_hash(put_entry(g, e), h) == 1,
        has_hash(put_entry(g, e), h),
        !has_key(g, e.rkey@) ==> put_entry(g, e) == g.push(e),
{
    lemma_put_new_hash(g, e, h);
    let i = choose|i: int| 0 <= i < put_entry(g, e).len() && #[trigger] put_entry(g, e)[i] == e;
    assert(put_entry(g, e)[i].record.has_hash(h));
}

/// Completing the same valid game twice without an account answers
/// `Success` and then `AlreadySynced`: the first call appends the game, the
/// second changes nothing, and exactly one stored game has the recording's
/// content hash afterwards. Left out are the inputs on which the first call
/// fails: no statistics record, a counter that would overflow, or a record
/// key already in use.
pub proof fn lemma_complete_twice(
    g0: Seq<StoredGame>,
    s0: Option<PlayerStats>,
    s: Seq<char>,
    k1: Seq<char>,
    t1: Seq<char>,
    r1: (Progress, Option<SyncFlow>),
    g1: Seq<StoredGame>,
    s1: Option<PlayerStats>,
    k2: Seq<char>,
    t2: Seq<char>,
    r2: (Progress, Option<SyncFlow>),
    g2: Seq<StoredGame>,
    s2: Option<PlayerStats>,
)
    requires
        recording_valid(s),
        !has_hash(g0, game_hash_of(s)),
        !has_key(g0, k1),
        s0 is Some,
        merge_fits(s0->0, final_state_of(s)->0.score, board_history_of(s)->0),
        completion_post(g0, s0, s, false, k1, t1, r1, g1, s1),
        completion_post(g1, s1, s, false, k2, t2, r2, g2, s2),
    ensures
        r1.0 == Progress::Finished(StorageResponse::Success),
        g1 == g0.push(r1.1->0.game),
        r2.0 == Progress::Finished(StorageResponse::AlreadySynced),
        r2.1 is None,
        g2 == g1,
        s2 == s1,
        count_with_hash(g2, game_hash_of(s)) == 1,
{
    lemma_write_new_game(g0, r1.1->0.game, game_hash_of(s));
}

/// Completing the same valid game twice while signed in, where every remote
/// write succeeds (a failed statistics refresh that does not ask to sign in
/// again is ignored), answers `Success` at the end of the first flow; the
/// second call then answers `AlreadySynced` at once, asks for no remote call
/// and changes nothing, and exactly one stored game has the recording's
/// content hash. Left out are the inputs on which the first flow fails: no
/// statistics record, a counter that would overflow, or a record key already
/// in use.
pub proof fn lemma_complete_twice_signed_in(
    g0: Seq<StoredGame>,
    s0: Option<PlayerStats>,
    s: Seq<char>,
    k: Seq<char>,
    t: Seq<char>,
    r: (Progress, Option<SyncFlow>),
    g1: Seq<StoredGame>,
    s1: Option<PlayerStats>,
    o1: RemoteOutcome,
    o2: RemoteOutcome,
    o3: RemoteOutcome,
    x1: ResumeResult,
    x2: ResumeResult,
    x3: ResumeResult,
    k2: Seq<char>,
    t2: Seq<char>,
    signed_in2: bool,
    r2: (Progress, Option<SyncFlow>),
    g2: Seq<StoredGame>,
    s2: Option<PlayerStats>,
)
    requires
        recording_valid(s),
        !has_hash(g0, game_hash_of(s)),
        !has_key(g0, k),
        s0 is Some,
        merge_fits(s0->0, final_state_of(s)->0.score, board_history_of(s)->0),
        completion_post(g0, s0, s, true, k, t, r, g1, s1),
        !(o1 is Failed && o1->Failed_0 is AuthErrorNeedToReLogin),
        !(o2 is Failed),
        !(o3 is Failed),
        x1 == resume_spec(r.1->0, g1, s1, o1),
        x2 == resume_spec(advance(r.1->0, x1), x1.3, x1.4, o2),
        x3 == resume_spec(advance(advance(r.1->0, x1), x2), x2.3, x2.4, o3),
        completion_post(x3.3, x3.4, s, signed_in2, k2, t2, r2, g2, s2),
    ensures
        r.0 == Progress::Call(RemoteCall::RefreshStats),
        x3.0 == Progress::Finished(StorageResponse::Success),
        x3.3 == g0.push(with_synced(r.1->0.game, true)),
        count_with_hash(x3.3, game_hash_of(s)) == 1,
        r2.0 == Progress::Finished(StorageResponse::AlreadySynced),
        r2.1 is None,
        g2 == x3.3,
        s2 == x3.4,
{
    let e = with_synced(r.1->0.game, true);
    lemma_write_new_game(g0, e, game_hash_of(s));
}

/// When the statistics refresh of a signed-in completion answers that the
/// player must sign in again, the request answers so, and the game is stored
/// locally anyway, not marked as synchronised, as the only stored game with
/// its content hash.
pub proof fn lemma_relogin_keeps_game(
    g0: Seq<StoredGame>,
    s0: Option<PlayerStats>,
    s: Seq<char>,
    k: Seq<char>,
    t: Seq<char>,
    r: (Progress, Option<SyncFlow>),
    g1: Seq<StoredGame>,
    s1: Option<PlayerStats>,
)
    requires
        recording_valid(s),
        !has_hash(g0, game_hash_of(s)),
        !has_key(g0, k),
        completion_post(g0, s0, s, true, k, t, r, g1, s1),
    ensures
        r.0 == Progress::Call(RemoteCall::RefreshStats),
        r.1 is Some,
        ({
            let next = resume_spec(
                r.1->0,
                g1,
                s1,
                RemoteOutcome::Failed(AtRepoSyncError::AuthErrorNeedToReLogin),
            );
            &&& next.0 == Progress::Finished(
                StorageResponse::RepoError(AtRepoSyncError::AuthErrorNeedToReLogin),
            )
            &&& next.4 == s0
            &&& count_with_hash(next.3, game_hash_of(s)) == 1
            &&& next.3 == g0.push(with_synced(r.1->0.game, false))
            &&& !with_synced(r.1->0.game, false).record.sync_status.synced_with_at_repo
            &&& with_synced(r.1->0.game, false).record.has_hash(game_hash_of(s))
            &&& with_synced(r.1->0.game, false).record.seeded_recording@ == s
        }),
{
    lemma_write_new_game(g1, with_synced(r.1->0.game, false), game_hash_of(s));
}

/// Re-syncing a stored game whose remote creation answers that it already
/// exists is no failure: the stored game is marked as synchronised and the
/// flow goes on to refresh the statistics. Where the refresh does not ask to
/// sign in again and the statistics push succeeds, the request answers
/// `Success`. Left out are the inputs on which the statistics merge fails: no
/// statistics record, or a counter that would overflow.
pub proof fn lemma_resync_already_exists(
    g0: Seq<StoredGame>,
    s0: Option<PlayerStats>,
    rkey: Seq<char>,
    r: (Progress, Option<SyncFlow>),
    o2: RemoteOutcome,
    o3: RemoteOutcome,
    x1: ResumeResult,
    x2: ResumeResult,
    x3: ResumeResult,
)
    requires
        keys_unique(g0),
        resync_post(g0, rkey, r),
        r.1 is Some,
        s0 is Some,
        merge_fits(s0->0, r.1->0.score, boards_view(r.1->0.history@)),
        !(o2 is Failed && o2->Failed_0 is AuthErrorNeedToReLogin),
        !(o3 is Failed),
        x1 == resume_spec(r.1->0, g0, s0, RemoteOutcome::AlreadyExists),
        x2 == resume_spec(advance(r.1->0, x1), x1.3, x1.4, o2),
        x3 == resume_spec(advance(advance(r.1->0, x1), x2), x2.3, x2.4, o3),
    ensures
        x1.0 == Progress::Call(RemoteCall::RefreshStats),
        has_key(x1.3, rkey),
        entry_with_key(x1.3, rkey) == with_synced(r.1->0.game, true),
        x3.0 == Progress::Finished(StorageResponse::Success),
        x3.3 == x1.3,
{
    let w = with_synced(r.1->0.game, true);
    let i = choose|i: int| 0 <= i < g0.len() && #[trigger] g0[i].rkey@ == rkey;
    assert(w.rkey@ == rkey);
    assert(has_key(g0, w.rkey@));
    let g1 = x1.3;
    assert(g1 == g0.update(i, w));
    assert(g1[i].rkey@ == rkey);
    let j = choose|j: int| 0 <= j < g1.len() && #[trigger] g1[j].rkey@ == rkey;
    if j != i {
        assert(g0[j].rkey@ == g1[j].rkey@);
        assert(g0[i].rkey@ != g0[j].rkey@);
    }
}

/// Re-syncing a record key with no stored game is an error and asks for no
/// remote call.
pub proof fn lemma_resync_missing_game(g0: Seq<StoredGame>, rkey: Seq<char>, r: (Progress, Option<SyncFlow>))
    requires
        !has_key(g0, rkey),
        resync_post(g0, rkey, r),
    ensures
        r.0 == Progress::Finished(StorageResponse::Error(StorageError::RecordNotFound)),
        r.1 is None,
{
}

/// Resuming a flow writes at most its own game, and a re-sync only ever
/// marks that game as synchronised: once confirmed, a record is never marked
/// unsynchronised again.
pub proof fn lemma_resume_writes_own_game(
    f: SyncFlow,
    g0: Seq<StoredGame>,
    s0: Option<PlayerStats>,
    outcome: RemoteOutcome,
)
    ensures
        ({
            let g1 = resume_spec(f, g0, s0, outcome).3;
            ||| g1 == g0
            ||| g1 == put_entry(g0, with_synced(f.game, true))
            ||| (f.kind == FlowKind::Completion && g1 == put_entry(g0, with_synced(f.game, false)))
        }),
{
}

} // verus!
