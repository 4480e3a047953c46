//! Game records and the local record store.
//!
//! The store holds game records under their record keys, in insertion order,
//! and the one statistics record of this installation. It answers lookups by
//! key and by content hash, and pages of records in insertion order.

use crate::stats::{fresh_stats, PlayerStats};
use vstd::prelude::*;

verus! {

/// Synchronisation bookkeeping of one game record.
#[derive(Clone, Debug, PartialEq, Eq)]
pub struct SyncStatusData {
    pub created_at: String,
    /// Content hash of the recording, used to find duplicates.
    pub hash: String,
    /// Whether the remote copy of the record is confirmed to exist.
    pub synced_with_at_repo: bool,
    pub updated_at: String,
}

/// One completed game.
#[derive(Clone, Debug, PartialEq, Eq)]
pub struct GameRecord {
    /// Seed and moves of the game, the source of every other field.
    pub seeded_recording: String,
    pub completed: bool,
    pub won: bool,
    pub current_score: u64,
    pub created_at: String,
    pub sync_status: SyncStatusData,
}

/// A game record under its record key.
#[derive(Clone, Debug, PartialEq, Eq)]
pub struct StoredGame {
    pub rkey: String,
    pub record: GameRecord,
}

impl SyncStatusData {
    /// A field-by-field copy.
    pub fn duplicate(&self) -> (r: SyncStatusData)
        ensures
            r == *self,
    {
        SyncStatusData {
            created_at: self.created_at.clone(),
            hash: self.hash.clone(),
            synced_with_at_repo: self.synced_with_at_repo,
            updated_at: self.updated_at.clone(),
        }
    }
}

impl GameRecord {
    /// A field-by-field copy.
    pub fn duplicate(&self) -> (r: GameRecord)
        ensures
            r == *self,
    {
        GameRecord {
            seeded_recording: self.seeded_recording.clone(),
            completed: self.completed,
            won: self.won,
            current_score: self.current_score,
            created_at: self.created_at.clone(),
            sync_status: self.sync_status.duplicate(),
        }
    }

    pub open spec fn has_hash(&self, h: Seq<char>) -> bool {
        self.sync_status.hash@ == h
    }
}

impl StoredGame {
    /// A field-by-field copy.
    pub fn duplicate(&self) -> (r: StoredGame)
        ensures
            r == *self,
    {
        StoredGame { rkey: self.rkey.clone(), record: self.record.duplicate() }
    }
}

/// No two entries share a record key.
pub open spec fn keys_unique(g: Seq<StoredGame>) -> bool {
    forall|a: int, b: int|
        0 <= a < g.len() && 0 <= b < g.len() && a != b ==> #[trigger] g[a].rkey@ != #[trigger] g[b].rkey@
}

/// Whether some entry has record key `k`.
pub open spec fn has_key(g: Seq<StoredGame>, k: Seq<char>) -> bool {
    exists|i: int| 0 <= i < g.len() && #[trigger] g[i].rkey@ == k
}

/// The entries after writing `e`: it replaces the entry with the same key, or
/// is appended when there is none.
pub open spec fn put_entry(g: Seq<StoredGame>, e: StoredGame) -> Seq<StoredGame> {
    if has_key(g, e.rkey@) {
        let i = choose|i: int| 0 <= i < g.len() && #[trigger] g[i].rkey@ == e.rkey@;
        g.update(i, e)
    } else {
        g.push(e)
    }
}

/// Number of entries whose record has content hash `h`.
pub open spec fn count_with_hash(g: Seq<StoredGame>, h: Seq<char>) -> nat
    decreases g.len(),
{
    if g.len() == 0 {
        0
    } else {
        count_with_hash(g.drop_last(), h) + if g.last().record.has_hash(h) {
            1nat
        } else {
            0nat
        }
    }
}

/// Whether some entry's record has content hash `h`.
pub open spec fn has_hash(g: Seq<StoredGame>, h: Seq<char>) -> bool {
    exists|i: int| 0 <= i < g.len() && #[trigger] g[i].record.has_hash(h)
}

/// `r` is the first entry with record key `k`, or `None` when there is none.
pub open spec fn is_first_with_key(g: Seq<StoredGame>, k: Seq<char>, r: Option<StoredGame>) -> bool {
    match r {
        Some(e) => exists|i: int|
            0 <= i < g.len() && g[i] == e && #[trigger] g[i].rkey@ == k && forall|m: int|
                0 <= m < i ==> g[m].rkey@ != k,
        None => !has_key(g, k),
    }
}

/// `r` is the first entry whose record has content hash `h`, or `None` when
/// there is none.
pub open spec fn is_first_with_hash(g: Seq<StoredGame>, h: Seq<char>, r: Option<StoredGame>) -> bool {
    match r {
        Some(e) => exists|i: int|
            0 <= i < g.len() && g[i] == e && #[trigger] g[i].record.has_hash(h) && forall|m: int|
                0 <= m < i ==> !g[m].record.has_hash(h),
        None => !has_hash(g, h),
    }
}

/// The local record store.
pub struct LocalStore {
    games: Vec<StoredGame>,
    stats: Option<PlayerStats>,
}

impl LocalStore {
    /// The stored entries, in insertion order.
    pub closed spec fn entries(&self) -> Seq<StoredGame> {
        self.games@
    }

    /// The statistics record, if one exists.
    pub closed spec fn spec_stats(&self) -> Option<PlayerStats> {
        self.stats
    }

    /// Record keys are unique.
    pub open spec fn wf(&self) -> bool {
        keys_unique(self.entries())
    }

    /// A new store: no games, and statistics before any game.
    pub fn new() -> (r: LocalStore)
        ensures
            r.wf(),
            r.entries() == Seq::<StoredGame>::empty(),
            r.spec_stats() == Some(fresh_stats()),
    {
        LocalStore { games: Vec::new(), stats: Some(PlayerStats::new()) }
    }

    /// A store holding `games` and `stats`, or `None` when two games share a
    /// record key.
    pub fn from_parts(games: Vec<StoredGame>, stats: Option<PlayerStats>) -> (r: Option<LocalStore>)
        ensures
            r is Some <==> keys_unique(games@),
            r is Some ==> r->0.entries() == games@ && r->0.spec_stats() == stats && r->0.wf(),
    {
        let mut a: usize = 0;
        while a < games.len()
            invariant
                0 <= a <= games.len(),
                forall|x: int, y: int|
                    0 <= x < a && 0 <= y < games@.len() && x != y ==> #[trigger] games@[x].rkey@
                        != #[trigger] games@[y].rkey@,
            decreases games.len() - a,
        {
            let mut b: usize = 0;
            while b < games.len()
                invariant
                    0 <= a < games.len(),
                    0 <= b <= games.len(),
                    forall|x: int, y: int|
                        0 <= x < a && 0 <= y < games@.len() && x != y ==> #[trigger] games@[x].rkey@
                            != #[trigger] games@[y].rkey@,
                    forall|y: int| 0 <= y < b && y != a ==> games@[a as int].rkey@ != #[trigger] games@[y].rkey@,
                decreases games.len() - b,
            {
                if b != a && games[a].rkey == games[b].rkey {
                    return None;
                }
                b += 1;
            }
            a += 1;
        }
        Some(LocalStore { games, stats })
    }

    /// The stored entries, in insertion order.
    pub fn games(&self) -> (r: &Vec<StoredGame>)
        ensures
            r@ == self.entries(),
    {
        &self.games
    }

    /// Number of stored games.
    pub fn len(&self) -> (r: usize)
        ensures
            r == self.entries().len(),
    {
        self.games.len()
    }

    /// The statistics record, if one exists.
    pub fn stats(&self) -> (r: Option<PlayerStats>)
        ensures
            r == self.spec_stats(),
    {
        self.stats
    }

    /// Replaces the statistics record.
    pub fn put_stats(&mut self, s: PlayerStats)
        ensures
            final(self).spec_stats() == Some(s),
            final(self).entries() == old(self).entries(),
    {
        self.stats = Some(s);
    }

    fn index_of_key(&self, key: &String) -> (r: Option<usize>)
        ensures
            match r {
                Some(i) => i < self.entries().len() && self.entries()[i as int].rkey@ == key@
                    && forall|m: int| 0 <= m < i ==> self.entries()[m].rkey@ != key@,
                None => !has_key(self.entries(), key@),
            },
    {
        let mut i: usize = 0;
        while i < self.games.len()
            invariant
                0 <= i <= self.games@.len(),
                forall|m: int| 0 <= m < i ==> self.games@[m].rkey@ != key@,
            decreases self.games@.len() - i,
        {
            if self.games[i].rkey == *key {
                return Some(i);
            }
            i += 1;
        }
        None
    }

    /// Whether a game is stored under `key`.
    pub fn contains_key(&self, key: &String) -> (r: bool)
        ensures
            r == has_key(self.entries(), key@),
    {
        self.index_of_key(key).is_some()
    }

    /// The game stored under `key`.
    pub fn get(&self, key: &String) -> (r: Option<StoredGame>)
        ensures
            is_first_with_key(self.entries(), key@, r),
    {
        match self.index_of_key(key) {
            Some(i) => Some(self.games[i].duplicate()),
            None => None,
        }
    }

    /// The first stored game whose record has content hash `hash`.
    pub fn get_by_hash(&self, hash: &String) -> (r: Option<StoredGame>)
        ensures
            is_first_with_hash(self.entries(), hash@, r),
    {
        let mut i: usize = 0;
        while i < self.games.len()
            invariant
                0 <= i <= self.games@.len(),
                forall|m: int| 0 <= m < i ==> !(#[trigger] self.games@[m].record.has_hash(hash@)),
            decreases self.games@.len() - i,
        {
            if self.games[i].record.sync_status.hash == *hash {
                assert(self.entries()[i as int].record.has_hash(hash@));
                return Some(self.games[i].duplicate());
            }
            i += 1;
        }
        None
    }

    /// Writes `entry`: it replaces the game with the same record key, or is
    /// appended when there is none.
    pub fn put(&mut self, entry: StoredGame)
        requires
            old(self).wf(),
        ensures
            final(self).wf(),
            final(self).entries() == put_entry(old(self).entries(), entry),
            final(self).spec_stats() == old(self).spec_stats(),
    {
        let ghost g = self.games@;
        match self.index_of_key(&entry.rkey) {
            Some(i) => {
                self.games.set(i, entry);
            },
            None => {
                self.games.push(entry);
            },
        }
    }

    /// Up to `count` games in insertion order, after skipping the first `skip`.
    pub fn page(&self, count: usize, skip: usize) -> (r: Vec<StoredGame>)
        ensures
            r@ == self.entries().subrange(
                page_start(self.entries().len(), skip),
                page_end(self.entries().len(), count, skip),
            ),
    {
        let n = self.games.len();
        let start = if skip < n {
            skip
        } else {
            n
        };
        let end = if count < n - start {
            start + count
        } else {
            n
        };
        let mut out: Vec<StoredGame> = Vec::new();
        let mut i = start;
        while i < end
            invariant
                start <= i <= end <= n,
                n == self.games@.len(),
                out@ == self.games@.subrange(start as int, i as int),
            decreases end - i,
        {
            out.push(self.games[i].duplicate());
            i += 1;
        }
        out
    }
}

/// First index of a page.
pub open spec fn page_start(len: nat, skip: usize) -> int {
    if skip < len {
        skip as int
    } else {
        len as int
    }
}

/// End index of a page.
pub open spec fn page_end(len: nat, count: usize, skip: usize) -> int {
    let start = page_start(len, skip);
    if count < len - start {
        start + count
    } else {
        len as int
    }
}

/// With no entry of content hash `h`, the count of such entries is 0.
pub proof fn lemma_count_without_hash(g: Seq<StoredGame>, h: Seq<char>)
    requires
        !has_hash(g, h),
    ensures
        count_with_hash(g, h) == 0,
    decreases g.len(),
{
    if g.len() > 0 {
        assert(!g[g.len() - 1].record.has_hash(h));
        assert forall|i: int| 0 <= i < g.drop_last().len() implies !(#[trigger] g.drop_last()[i].record.has_hash(h)) by {
            assert(g.drop_last()[i] == g[i]);
        }
        lemma_count_without_hash(g.drop_last(), h);
    }
}

/// With exactly one entry, at index `i`, of content hash `h`, the count of
/// such entries is 1.
pub proof fn lemma_count_single_hash(g: Seq<StoredGame>, h: Seq<char>, i: int)
    requires
        0 <= i < g.len(),
        g[i].record.has_hash(h),
        forall|m: int| 0 <= m < g.len() && m != i ==> !(#[trigger] g[m].record.has_hash(h)),
    ensures
        count_with_hash(g, h) == 1,
    decreases g.len(),
{
    let d = g.drop_last();
    if i == g.len() - 1 {
        assert forall|m: int| 0 <= m < d.len() implies !(#[trigger] d[m].record.has_hash(h)) by {
            assert(d[m] == g[m]);
        }
        lemma_count_without_hash(d, h);
    } else {
        assert forall|m: int| 0 <= m < d.len() && m != i implies !(#[trigger] d[m].record.has_hash(h)) by {
            assert(d[m] == g[m]);
        }
        assert(d[i] == g[i]);
        lemma_count_single_hash(d, h, i);
    }
}

/// Writing an entry of content hash `h` to entries that hold none leaves
/// exactly one entry of that hash, the written one.
pub proof fn lemma_put_new_hash(g: Seq<StoredGame>, e: StoredGame, h: Seq<char>)
    requires
        !has_hash(g, h),
        e.record.has_hash(h),
    ensures
        count_with_hash(put_entry(g, e), h) == 1,
        exists|i: int|
            0 <= i < put_entry(g, e).len() && #[trigger] put_entry(g, e)[i] == e,
{
    let p = put_entry(g, e);
    if has_key(g, e.rkey@) {
        let i = choose|i: int| 0 <= i < g.len() && #[trigger] g[i].rkey@ == e.rkey@;
        assert(p[i] == e);
        assert forall|m: int| 0 <= m < p.len() && m != i implies !(#[trigger] p[m].record.has_hash(h)) by {
            assert(p[m] == g[m]);
        }
        lemma_count_single_hash(p, h, i);
    } else {
        let i = g.len() as int;
        assert(p[i] == e);
        assert forall|m: int| 0 <= m < p.len() && m != i implies !(#[trigger] p[m].record.has_hash(h)) by {
            assert(p[m] == g[m]);
        }
        lemma_count_single_hash(p, h, i);
    }
}

} // verus!
