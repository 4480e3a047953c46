//! Paging through stored games, locally or in the remote repository.

use crate::messages::AtRepoSyncError;
use crate::store::{page_end, page_start, LocalStore, StoredGame};
use vstd::prelude::*;

verus! {

/// Number of games on one page of the history.
pub const PAGE_SIZE: u32 = 10;

/// Which store the history shows.
#[derive(Clone, Copy, Debug, PartialEq, Eq, Structural)]
pub enum TabState {
    Local,
    Remote,
    Both,
}

impl Default for TabState {
    fn default() -> (r: TabState)
        ensures
            r == TabState::Local,
    {
        TabState::Local
    }
}

impl TabState {
    /// The tab's label.
    pub fn label(&self) -> (r: String)
        ensures
            r@ == tab_label(*self)@,
    {
        match self {
            TabState::Local => "Local".to_owned(),
            TabState::Remote => "Remote".to_owned(),
            TabState::Both => "Both".to_owned(),
        }
    }

    /// The tab with label `s`; an unknown label selects the local tab.
    pub fn from_label(s: &str) -> (r: TabState)
        ensures
            s@ == tab_label(TabState::Remote)@ ==> r == TabState::Remote,
            s@ == tab_label(TabState::Both)@ ==> r == TabState::Both,
            s@ != tab_label(TabState::Remote)@ && s@ != tab_label(TabState::Both)@ ==> r
                == TabState::Local,
    {
        proof {
            reveal_strlit("Remote");
            reveal_strlit("Both");
            assert("Both"@.len() != "Remote"@.len());
        }
        let owned = s.to_owned();
        if owned == "Remote".to_owned() {
            TabState::Remote
        } else if owned == "Both".to_owned() {
            TabState::Both
        } else {
            TabState::Local
        }
    }
}

/// The label of a tab.
pub open spec fn tab_label(t: TabState) -> &'static str {
    match t {
        TabState::Local => "Local",
        TabState::Remote => "Remote",
        TabState::Both => "Both",
    }
}

/// Where the history stands in the list of games.
#[derive(Clone, Debug, PartialEq, Eq)]
pub struct PaginationOptions {
    /// Games per page.
    pub count: u32,
    /// Games already shown.
    pub skip: u32,
    /// Opaque cursor of the remote repository for the next page.
    pub at_proto_cursor: Option<String>,
    /// No more games to load.
    pub fully_loaded: bool,
}

impl Default for PaginationOptions {
    fn default() -> (r: PaginationOptions)
        ensures
            r.count == PAGE_SIZE,
            r.skip == 0,
            r.at_proto_cursor is None,
            !r.fully_loaded,
    {
        PaginationOptions { count: PAGE_SIZE, skip: 0, at_proto_cursor: None, fully_loaded: false }
    }
}

impl PaginationOptions {
    /// The options that load the page after this one, keeping the remote cursor.
    pub fn next_page(&self) -> (r: PaginationOptions)
        requires
            self.skip + PAGE_SIZE <= u32::MAX,
        ensures
            r.count == PAGE_SIZE,
            r.skip == self.skip + PAGE_SIZE,
            r.at_proto_cursor == self.at_proto_cursor,
            !r.fully_loaded,
    {
        PaginationOptions {
            count: PAGE_SIZE,
            skip: self.skip + PAGE_SIZE,
            at_proto_cursor: self.at_proto_cursor.clone(),
            fully_loaded: false,
        }
    }

    /// These options after a page of `loaded` games came back with the remote
    /// cursor `cursor`: fully loaded when the page was short.
    pub fn after_load(self, loaded: usize, cursor: Option<String>) -> (r: PaginationOptions)
        ensures
            r.count == self.count,
            r.skip == self.skip,
            r.at_proto_cursor == cursor,
            r.fully_loaded == (loaded < self.count),
    {
        PaginationOptions {
            count: self.count,
            skip: self.skip,
            at_proto_cursor: cursor,
            fully_loaded: (loaded as u64) < (self.count as u64),
        }
    }
}

/// Where the games of a history page come from.
#[derive(Clone, Debug, PartialEq, Eq)]
pub enum GameSource {
    /// A page of the local store.
    Local { count: u32, skip: u32 },
    /// A page of the account's remote repository.
    Remote { account: String, cursor: Option<String>, limit: u32 },
}

/// Decides where the games of `tab` come from. The remote tab needs a
/// signed-in account. The combined tab is never offered, so it is not asked for.
pub fn game_source(tab: TabState, options: &PaginationOptions, account: Option<String>) -> (r: Result<
    GameSource,
    AtRepoSyncError,
>)
    requires
        tab != TabState::Both,
    ensures
        tab == TabState::Local ==> r == Ok::<GameSource, AtRepoSyncError>(
            GameSource::Local { count: options.count, skip: options.skip },
        ),
        tab == TabState::Remote && account is Some ==> r == Ok::<GameSource, AtRepoSyncError>(
            GameSource::Remote {
                account: account->0,
                cursor: options.at_proto_cursor,
                limit: options.count,
            },
        ),
        tab == TabState::Remote && account is None ==> r == Err::<GameSource, AtRepoSyncError>(
            AtRepoSyncError::AuthErrorNeedToReLogin,
        ),
{
    match tab {
        TabState::Local => Ok(GameSource::Local { count: options.count, skip: options.skip }),
        TabState::Remote => match account {
            Some(a) => Ok(
                GameSource::Remote {
                    account: a,
                    cursor: options.at_proto_cursor.clone(),
                    limit: options.count,
                },
            ),
            None => Err(AtRepoSyncError::AuthErrorNeedToReLogin),
        },
        TabState::Both => Err(AtRepoSyncError::Error("the combined history is not available".to_owned())),
    }
}

/// The page of local games that `options` asks for, in insertion order.
pub fn get_local_games(store: &LocalStore, options: &PaginationOptions) -> (r: Vec<StoredGame>)
    ensures
        r@ == store.entries().subrange(
            page_start(store.entries().len(), options.skip as usize),
            page_end(store.entries().len(), options.count as usize, options.skip as usize),
        ),
{
    store.page(options.count as usize, options.skip as usize)
}

} // verus!
