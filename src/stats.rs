//! The statistics aggregator: merges one replayed game into lifetime statistics.

use crate::replay::{boards_view, Tile, MILESTONE_VALUE};
use vstd::prelude::*;

verus! {

/// Lifetime statistics of one player.
#[derive(Clone, Copy, Debug, PartialEq, Eq, Structural)]
pub struct PlayerStats {
    pub games_played: u64,
    pub total_score: u64,
    /// `total_score / games_played`, truncated; 0 before the first game.
    pub average_score: u64,
    pub highest_score: u64,
    pub highest_number_block: u64,
    pub times_twenty_forty_eight_been_found: u64,
    /// Fewest boards replayed up to the first milestone tile of a game;
    /// `u64::MAX` while no milestone tile was ever found.
    pub least_moves_to_find_twenty_forty_eight: u64,
}

/// Why a game could not be merged into the statistics.
#[derive(Clone, Copy, Debug, PartialEq, Eq, Structural)]
pub enum StatsError {
    /// No statistics record exists to merge into.
    MissingStats,
    /// A counter would exceed its range.
    CounterOverflow,
}

/// Statistics before any game.
pub open spec fn fresh_stats() -> PlayerStats {
    PlayerStats {
        games_played: 0,
        total_score: 0,
        average_score: 0,
        highest_score: 0,
        highest_number_block: 0,
        times_twenty_forty_eight_been_found: 0,
        least_moves_to_find_twenty_forty_eight: u64::MAX,
    }
}

impl PlayerStats {
    /// Statistics before any game.
    pub fn new() -> (r: PlayerStats)
        ensures
            r == fresh_stats(),
    {
        PlayerStats {
            games_played: 0,
            total_score: 0,
            average_score: 0,
            highest_score: 0,
            highest_number_block: 0,
            times_twenty_forty_eight_been_found: 0,
            least_moves_to_find_twenty_forty_eight: u64::MAX,
        }
    }

    /// The average agrees with the totals.
    pub open spec fn consistent(&self) -> bool {
        &&& self.games_played == 0 ==> self.average_score == 0
        &&& self.games_played > 0 ==> self.average_score == self.total_score / self.games_played
    }
}

pub open spec fn max_u64(a: u64, b: u64) -> u64 {
    if a >= b {
        a
    } else {
        b
    }
}

/// Value of the largest tile among the cells of one board (0 for none).
pub open spec fn board_max(b: Seq<Option<Tile>>) -> u64
    decreases b.len(),
{
    if b.len() == 0 {
        0
    } else {
        let rest = board_max(b.drop_last());
        match b.last() {
            Some(t) => max_u64(t.value, rest),
            None => rest,
        }
    }
}

/// Value of the largest tile on any board of a history (0 for none).
pub open spec fn history_max(h: Seq<Seq<Option<Tile>>>) -> u64
    decreases h.len(),
{
    if h.len() == 0 {
        0
    } else {
        max_u64(board_max(h.last()), history_max(h.drop_last()))
    }
}

/// Whether a cell holds the milestone tile with identity `id`.
pub open spec fn is_milestone(c: Option<Tile>, id: u64) -> bool {
    c == Some(Tile { id, value: MILESTONE_VALUE })
}

/// Identities of the tiles that reach the milestone value on some board.
pub open spec fn milestone_ids(h: Seq<Seq<Option<Tile>>>) -> Set<u64> {
    Set::new(
        |id: u64|
            exists|i: int, j: int|
                0 <= i < h.len() && 0 <= j < h[i].len() && #[trigger] is_milestone(h[i][j], id),
    )
}

/// Whether some cell of a board holds a milestone tile.
pub open spec fn board_has_milestone(b: Seq<Option<Tile>>) -> bool {
    exists|j: int, id: u64| 0 <= j < b.len() && #[trigger] is_milestone(b[j], id)
}

/// Index of the first board of a history that holds a milestone tile.
pub open spec fn first_milestone_board(h: Seq<Seq<Option<Tile>>>) -> Option<int>
    decreases h.len(),
{
    if h.len() == 0 {
        None
    } else {
        match first_milestone_board(h.drop_last()) {
            Some(i) => Some(i),
            None => if board_has_milestone(h.last()) {
                Some(h.len() - 1)
            } else {
                None
            },
        }
    }
}

/// The fewest-boards record after a game whose first milestone stood on board
/// `first` (counted from 0): the smaller of the record and that board's count.
pub open spec fn least_moves_after(least: u64, first: Option<int>) -> u64 {
    match first {
        None => least,
        Some(i) => if i + 1 < least {
            (i + 1) as u64
        } else {
            least
        },
    }
}

/// The counters fit their range after merging a game.
pub open spec fn merge_fits(s: PlayerStats, score: u64, h: Seq<Seq<Option<Tile>>>) -> bool {
    &&& s.games_played < u64::MAX
    &&& s.total_score + score <= u64::MAX
    &&& s.times_twenty_forty_eight_been_found + milestone_ids(h).len() <= u64::MAX
}

/// The statistics after merging a game with final `score` and board history `h`.
pub open spec fn merged_stats(s: PlayerStats, score: u64, h: Seq<Seq<Option<Tile>>>) -> PlayerStats {
    let games = (s.games_played + 1) as u64;
    let total = (s.total_score + score) as u64;
    PlayerStats {
        games_played: games,
        total_score: total,
        average_score: (total / games) as u64,
        highest_score: max_u64(s.highest_score, score),
        highest_number_block: max_u64(s.highest_number_block, history_max(h)),
        times_twenty_forty_eight_been_found: (s.times_twenty_forty_eight_been_found
            + milestone_ids(h).len()) as u64,
        least_moves_to_find_twenty_forty_eight: least_moves_after(
            s.least_moves_to_find_twenty_forty_eight,
            first_milestone_board(h),
        ),
    }
}

pub open spec fn opt_index(o: Option<usize>) -> Option<int> {
    match o {
        Some(k) => Some(k as int),
        None => None,
    }
}

/// Value of the largest tile on any board of `history`.
pub fn highest_tile(history: &Vec<Vec<Option<Tile>>>) -> (r: u64)
    ensures
        r == history_max(boards_view(history@)),
{
    let ghost hv = boards_view(history@);
    let mut best: u64 = 0;
    let mut i: usize = 0;
    while i < history.len()
        invariant
            0 <= i <= history.len(),
            hv == boards_view(history@),
            best == history_max(hv.take(i as int)),
        decreases history.len() - i,
    {
        let board = &history[i];
        let mut board_best: u64 = 0;
        let mut j: usize = 0;
        while j < board.len()
            invariant
                0 <= j <= board.len(),
                board@ == hv[i as int],
                board_best == board_max(board@.take(j as int)),
            decreases board.len() - j,
        {
            assert(board@.take(j + 1).drop_last() =~= board@.take(j as int));
            match board[j] {
                Some(t) => {
                    if t.value > board_best {
                        board_best = t.value;
                    }
                },
                None => {},
            }
            j += 1;
        }
        assert(board@.take(j as int) =~= board@);
        assert(hv.take(i + 1).drop_last() =~= hv.take(i as int));
        if board_best > best {
            best = board_best;
        }
        i += 1;
    }
    assert(hv.take(i as int) =~= hv);
    best
}

fn contains_id(v: &Vec<u64>, x: u64) -> (r: bool)
    ensures
        r == v@.contains(x),
{
    let mut k: usize = 0;
    while k < v.len()
        invariant
            0 <= k <= v.len(),
            forall|m: int| 0 <= m < k ==> v@[m] != x,
        decreases v.len() - k,
    {
        if v[k] == x {
            return true;
        }
        k += 1;
    }
    false
}

/// Milestone tiles seen in the cells `b[..j]` of board `i`, or on a board before it.
spec fn milestone_seen(h: Seq<Seq<Option<Tile>>>, i: int, j: int, id: u64) -> bool {
    exists|a: int, b: int|
        0 <= a <= i && a < h.len() && 0 <= b < h[a].len() && (a < i || b < j) && #[trigger] is_milestone(
            h[a][b],
            id,
        )
}

/// The distinct identities of milestone tiles of `history`, in the order they
/// first appear, and the index of the first board that holds one.
pub fn scan_milestones(history: &Vec<Vec<Option<Tile>>>) -> (r: (Vec<u64>, Option<usize>))
    ensures
        r.0@.no_duplicates(),
        r.0@.to_set() == milestone_ids(boards_view(history@)),
        r.0@.len() == milestone_ids(boards_view(history@)).len(),
        opt_index(r.1) == first_milestone_board(boards_view(history@)),
        r.1 is Some ==> r.1->0 < history@.len(),
{
    let ghost hv = boards_view(history@);
    let mut ids: Vec<u64> = Vec::new();
    let mut first: Option<usize> = None;
    let mut i: usize = 0;
    while i < history.len()
        invariant
            0 <= i <= history.len(),
            hv == boards_view(history@),
            ids@.no_duplicates(),
            forall|id: u64| ids@.contains(id) <==> milestone_seen(hv, i as int, 0, id),
            opt_index(first) == first_milestone_board(hv.take(i as int)),
            first is Some ==> first->0 < i,
        decreases history.len() - i,
    {
        let board = &history[i];
        let ghost before = first;
        let mut j: usize = 0;
        while j < board.len()
            invariant
                0 <= i < history.len(),
                0 <= j <= board.len(),
                hv == boards_view(history@),
                board@ == hv[i as int],
                ids@.no_duplicates(),
                forall|id: u64| ids@.contains(id) <==> milestone_seen(hv, i as int, j as int, id),
                before is Some ==> first == before,
                before is None ==> (first is Some <==> board_has_milestone(board@.take(j as int))),
                first is Some ==> first->0 <= i,
                before is None && first is Some ==> first->0 == i,
            decreases board.len() - j,
        {
            let cell = board[j];
            proof {
                assert forall|id: u64|
                    milestone_seen(hv, i as int, j + 1, id) <==> (milestone_seen(
                        hv,
                        i as int,
                        j as int,
                        id,
                    ) || is_milestone(cell, id)) by {
                    if milestone_seen(hv, i as int, j + 1, id) {
                        let (a, b) = choose|a: int, b: int|
                            0 <= a <= i && a < hv.len() && 0 <= b < hv[a].len() && (a < i || b < j + 1)
                                && #[trigger] is_milestone(hv[a][b], id);
                        if !(a == i && b == j) {
                            assert(is_milestone(hv[a][b], id));
                        }
                    }
                    if milestone_seen(hv, i as int, j as int, id) {
                        let (a, b) = choose|a: int, b: int|
                            0 <= a <= i && a < hv.len() && 0 <= b < hv[a].len() && (a < i || b < j)
                                && #[trigger] is_milestone(hv[a][b], id);
                        assert(is_milestone(hv[a][b], id));
                    }
                    if is_milestone(cell, id) {
                        assert(is_milestone(hv[i as int][j as int], id));
                    }
                }
                let tj = board@.take(j as int);
                let tj1 = board@.take(j + 1);
                assert(board_has_milestone(tj1) <==> (board_has_milestone(tj) || exists|id: u64|
                    is_milestone(cell, id))) by {
                    if board_has_milestone(tj1) {
                        let (k, id) = choose|k: int, id: u64|
                            0 <= k < tj1.len() && #[trigger] is_milestone(tj1[k], id);
                        if k < j {
                            assert(is_milestone(tj[k], id));
                        }
                    }
                    if board_has_milestone(tj) {
                        let (k, id) = choose|k: int, id: u64|
                            0 <= k < tj.len() && #[trigger] is_milestone(tj[k], id);
                        assert(is_milestone(tj1[k], id));
                    }
                    if exists|id: u64| is_milestone(cell, id) {
                        let id = choose|id: u64| is_milestone(cell, id);
                        assert(is_milestone(tj1[j as int], id));
                    }
                }
            }
            let ghost ids0 = ids@;
            match cell {
                Some(t) => {
                    if t.value == MILESTONE_VALUE {
                        assert(is_milestone(cell, t.id));
                        if first.is_none() {
                            first = Some(i);
                        }
                        if !contains_id(&ids, t.id) {
                            let ghost prev = ids@;
                            ids.push(t.id);
                            assert forall|id: u64| ids@.contains(id) <==> (prev.contains(id) || id == t.id) by {
                                if ids@.contains(id) {
                                    let k = choose|k: int| 0 <= k < ids@.len() && ids@[k] == id;
                                    if k < prev.len() {
                                        assert(prev[k] == id);
                                    }
                                }
                                if prev.contains(id) {
                                    let k = choose|k: int| 0 <= k < prev.len() && prev[k] == id;
                                    assert(ids@[k] == id);
                                }
                                assert(ids@[prev.len() as int] == t.id);
                            }
                        }
                    }
                },
                None => {},
            }
            assert forall|id: u64| ids@.contains(id) <==> (ids0.contains(id) || is_milestone(cell, id)) by {
                if is_milestone(cell, id) {
                    assert(cell->0.id == id);
                }
            }
            assert forall|id: u64| ids@.contains(id) <==> milestone_seen(hv, i as int, j + 1, id) by {
                assert(ids0.contains(id) <==> milestone_seen(hv, i as int, j as int, id));
                assert(milestone_seen(hv, i as int, j + 1, id) <==> (milestone_seen(hv, i as int, j as int, id) || is_milestone(cell, id)));
            }
            j += 1;
        }
        proof {
            assert(board@.take(j as int) =~= board@);
            assert(hv.take(i + 1).drop_last() =~= hv.take(i as int));
            assert forall|id: u64|
                milestone_seen(hv, i as int, j as int, id) <==> milestone_seen(
                    hv,
                    i + 1,
                    0,
                    id,
                ) by {
                if milestone_seen(hv, i + 1, 0, id) {
                    let (a, b) = choose|a: int, b: int|
                        0 <= a <= i + 1 && a < hv.len() && 0 <= b < hv[a].len() && (a < i + 1 || b < 0)
                            && #[trigger] is_milestone(hv[a][b], id);
                    assert(is_milestone(hv[a][b], id));
                }
                if milestone_seen(hv, i as int, j as int, id) {
                    let (a, b) = choose|a: int, b: int|
                        0 <= a <= i && a < hv.len() && 0 <= b < hv[a].len() && (a < i || b < j)
                            && #[trigger] is_milestone(hv[a][b], id);
                    assert(is_milestone(hv[a][b], id));
                }
            }
        }
        i += 1;
    }
    proof {
        assert(hv.take(i as int) =~= hv);
        assert forall|id: u64| ids@.contains(id) <==> milestone_ids(hv).contains(id) by {
            if milestone_seen(hv, i as int, 0, id) {
                let (a, b) = choose|a: int, b: int|
                    0 <= a <= i && a < hv.len() && 0 <= b < hv[a].len() && (a < i || b < 0)
                        && #[trigger] is_milestone(hv[a][b], id);
                assert(is_milestone(hv[a][b], id));
            }
            if milestone_ids(hv).contains(id) {
                let (a, b) = choose|a: int, b: int|
                    0 <= a < hv.len() && 0 <= b < hv[a].len() && #[trigger] is_milestone(
                        hv[a][b],
                        id,
                    );
                assert(is_milestone(hv[a][b], id));
            }
        }
        assert(ids@.to_set() =~= milestone_ids(hv));
        ids@.unique_seq_to_set();
    }
    (ids, first)
}

/// Merges one replayed game, with end `score` and board `history`, into the
/// lifetime statistics `existing`.
///
/// Fails with `MissingStats` when there are no statistics to merge into, and
/// with `CounterOverflow` when a counter would leave its range.
pub fn merge_game_into_stats(
    existing: Option<PlayerStats>,
    score: u64,
    history: &Vec<Vec<Option<Tile>>>,
) -> (r: Result<PlayerStats, StatsError>)
    ensures
        existing is None ==> r == Err::<PlayerStats, StatsError>(StatsError::MissingStats),
        existing is Some && !merge_fits(existing->0, score, boards_view(history@)) ==> r == Err::<
            PlayerStats,
            StatsError,
        >(StatsError::CounterOverflow),
        existing is Some && merge_fits(existing->0, score, boards_view(history@)) ==> r == Ok::<
            PlayerStats,
            StatsError,
        >(merged_stats(existing->0, score, boards_view(history@))),
{
    let stats = match existing {
        Some(s) => s,
        None => {
            return Err(StatsError::MissingStats);
        },
    };
    let highest = highest_tile(history);
    let boards = history.len();
    let (ids, first) = scan_milestones(history);
    let found = ids.len() as u64;
    if stats.games_played == u64::MAX || stats.total_score > u64::MAX - score
        || stats.times_twenty_forty_eight_been_found > u64::MAX - found {
        return Err(StatsError::CounterOverflow);
    }
    let games = stats.games_played + 1;
    let total = stats.total_score + score;
    let least = match first {
        Some(k) => {
            assert(k < boards);
            let moves = (k + 1) as u64;
            if moves < stats.least_moves_to_find_twenty_forty_eight {
                moves
            } else {
                stats.least_moves_to_find_twenty_forty_eight
            }
        },
        None => stats.least_moves_to_find_twenty_forty_eight,
    };
    Ok(
        PlayerStats {
            games_played: games,
            total_score: total,
            average_score: total / games,
            highest_score: if score > stats.highest_score {
                score
            } else {
                stats.highest_score
            },
            highest_number_block: if highest > stats.highest_number_block {
                highest
            } else {
                stats.highest_number_block
            },
            times_twenty_forty_eight_been_found: stats.times_twenty_forty_eight_been_found + found,
            least_moves_to_find_twenty_forty_eight: least,
        },
    )
}

/// One finished game as the aggregator sees it: its end score and its boards.
pub type GameSummary = (u64, Seq<Seq<Option<Tile>>>);

/// The statistics after merging `games` in order into `s`.
pub open spec fn merge_all(s: PlayerStats, games: Seq<GameSummary>) -> PlayerStats
    decreases games.len(),
{
    if games.len() == 0 {
        s
    } else {
        merged_stats(merge_all(s, games.drop_last()), games.last().0, games.last().1)
    }
}

/// Highest end score among `games` (0 for none).
pub open spec fn best_score(games: Seq<GameSummary>) -> u64
    decreases games.len(),
{
    if games.len() == 0 {
        0
    } else {
        max_u64(best_score(games.drop_last()), games.last().0)
    }
}

/// Largest tile on any board of any of `games` (0 for none).
pub open spec fn best_tile(games: Seq<GameSummary>) -> u64
    decreases games.len(),
{
    if games.len() == 0 {
        0
    } else {
        max_u64(best_tile(games.drop_last()), history_max(games.last().1))
    }
}

/// After merging any sequence of games into any statistics, the highest score
/// and the highest tile are the larger of their earlier value and the best
/// single-game value among the merged games.
pub proof fn lemma_highest_after_merges(s: PlayerStats, games: Seq<GameSummary>)
    ensures
        merge_all(s, games).highest_score == max_u64(s.highest_score, best_score(games)),
        merge_all(s, games).highest_number_block == max_u64(
            s.highest_number_block,
            best_tile(games),
        ),
    decreases games.len(),
{
    if games.len() > 0 {
        lemma_highest_after_merges(s, games.drop_last());
    }
}

/// Starting from fresh statistics, after merging any sequence of games the
/// highest score and the highest tile equal the best single-game values.
pub proof fn lemma_highest_from_fresh(games: Seq<GameSummary>)
    ensures
        merge_all(fresh_stats(), games).highest_score == best_score(games),
        merge_all(fresh_stats(), games).highest_number_block == best_tile(games),
{
    lemma_highest_after_merges(fresh_stats(), games);
}

/// Merging a game never lowers the highest score or the highest tile.
pub proof fn lemma_merge_never_lowers_highest(s: PlayerStats, score: u64, h: Seq<Seq<Option<Tile>>>)
    ensures
        merged_stats(s, score, h).highest_score >= s.highest_score,
        merged_stats(s, score, h).highest_number_block >= s.highest_number_block,
{
}

/// Where the counters fit, merging a game keeps the average equal to the
/// truncated quotient of the total score by the number of games.
pub proof fn lemma_merge_keeps_average(s: PlayerStats, score: u64, h: Seq<Seq<Option<Tile>>>)
    requires
        merge_fits(s, score, h),
    ensures
        merged_stats(s, score, h).consistent(),
        merged_stats(s, score, h).games_played == s.games_played + 1,
        merged_stats(s, score, h).total_score == s.total_score + score,
{
}

/// A game in which exactly two distinct tiles reach the milestone value adds
/// exactly two to the milestone counter, and the fewest-boards record is
/// compared with the first board that holds either of them.
pub proof fn lemma_two_milestone_tiles(
    s: PlayerStats,
    score: u64,
    h: Seq<Seq<Option<Tile>>>,
    a: u64,
    b: u64,
)
    requires
        a != b,
        milestone_ids(h) == set![a, b],
        merge_fits(s, score, h),
    ensures
        merged_stats(s, score, h).times_twenty_forty_eight_been_found
            == s.times_twenty_forty_eight_been_found + 2,
        merged_stats(s, score, h).least_moves_to_find_twenty_forty_eight == least_moves_after(
            s.least_moves_to_find_twenty_forty_eight,
            first_milestone_board(h),
        ),
        first_milestone_board(h) is Some,
{
    assert(set![a, b].len() == 2) by {
        assert(set![a].len() == 1);
    }
    assert(milestone_ids(h).contains(a));
    let (i, j) = choose|i: int, j: int|
        0 <= i < h.len() && 0 <= j < h[i].len() && #[trigger] is_milestone(h[i][j], a);
    lemma_first_milestone_exists(h, i, j, a);
}

/// A history with a milestone tile on board `i` has a first such board, no later than `i`.
pub proof fn lemma_first_milestone_exists(h: Seq<Seq<Option<Tile>>>, i: int, j: int, id: u64)
    requires
        0 <= i < h.len(),
        0 <= j < h[i].len(),
        is_milestone(h[i][j], id),
    ensures
        first_milestone_board(h) is Some,
        first_milestone_board(h)->0 <= i,
    decreases h.len(),
{
    if i < h.len() - 1 {
        assert(h.drop_last()[i] == h[i]);
        lemma_first_milestone_exists(h.drop_last(), i, j, id);
    } else {
        assert(board_has_milestone(h.last()) || first_milestone_board(h.drop_last()) is Some) by {
            assert(is_milestone(h.last()[j], id));
        }
        if first_milestone_board(h.drop_last()) is Some {
            lemma_first_milestone_bound(h.drop_last());
        }
    }
}

/// The first milestone board lies within the history.
pub proof fn lemma_first_milestone_bound(h: Seq<Seq<Option<Tile>>>)
    ensures
        first_milestone_board(h) is Some ==> 0 <= first_milestone_board(h)->0 < h.len(),
    decreases h.len(),
{
    if h.len() > 0 {
        lemma_first_milestone_bound(h.drop_last());
    }
}

} // verus!
