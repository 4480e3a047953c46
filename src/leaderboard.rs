//! Scoring public game records for a leaderboard.

use crate::replay::{
    parse_recording, recording_board_size, validate_score, validated_score_of, MAX_BOARD_SIDE,
};
use vstd::prelude::*;

verus! {

/// Records requested per page of a remote listing.
pub const LIST_PAGE_SIZE: usize = 100;

/// Why a recording earns no place on the leaderboard.
#[derive(Clone, Debug, PartialEq, Eq)]
pub enum LeaderboardError {
    /// The recording does not parse; the parser's message.
    Unparsable(String),
    /// The recording does not validate, or scores nothing.
    Invalid,
}

/// The validated score a recording earns on the leaderboard: it parses, its
/// board fits the engine, it validates, and it scores more than 0.
pub open spec fn leaderboard_score(s: Seq<char>) -> Option<nat> {
    match recording_board_size(s) {
        Some(size) => if size.0 <= MAX_BOARD_SIDE && size.1 <= MAX_BOARD_SIDE {
            match validated_score_of(s) {
                Some(v) => if v > 0 {
                    Some(v)
                } else {
                    None
                },
                None => None,
            }
        } else {
            None
        },
        None => None,
    }
}

/// The validated score of a recording, when it earns one.
pub fn parse_game_and_validate(game: &String) -> (r: Result<u64, LeaderboardError>)
    ensures
        r is Ok <==> leaderboard_score(game@) is Some,
        r is Ok ==> leaderboard_score(game@) == Some(r->Ok_0 as nat),
        recording_board_size(game@) is None ==> r is Err && r->Err_0 is Unparsable,
        recording_board_size(game@) is Some && r is Err ==> r == Err::<u64, LeaderboardError>(
            LeaderboardError::Invalid,
        ),
{
    let parsed = match parse_recording(game) {
        Ok(p) => p,
        Err(e) => {
            return Err(LeaderboardError::Unparsable(e));
        },
    };
    if parsed.width() > MAX_BOARD_SIDE || parsed.height() > MAX_BOARD_SIDE {
        return Err(LeaderboardError::Invalid);
    }
    match validate_score(&parsed) {
        Some(score) => {
            if score > 0 {
                Ok(score)
            } else {
                Err(LeaderboardError::Invalid)
            }
        },
        None => Err(LeaderboardError::Invalid),
    }
}

/// A public game record: its address and its recording.
#[derive(Clone, Debug, PartialEq, Eq)]
pub struct PublicGame {
    pub uri: String,
    pub seeded_recording: String,
}

/// The best game of a player found so far.
#[derive(Clone, Debug, PartialEq, Eq)]
pub struct TopGame {
    pub score: u64,
    pub uri: Option<String>,
}

/// The best game after also considering `games` in order; a later game
/// replaces the best one only with a strictly higher score.
pub open spec fn top_after(t: TopGame, games: Seq<PublicGame>) -> TopGame
    decreases games.len(),
{
    if games.len() == 0 {
        t
    } else {
        let prev = top_after(t, games.drop_last());
        match leaderboard_score(games.last().seeded_recording@) {
            Some(v) => if v > prev.score {
                TopGame { score: v as u64, uri: Some(games.last().uri) }
            } else {
                prev
            },
            None => prev,
        }
    }
}

/// Considers one page of a player's public games for their best game.
pub fn top_game_of_page(top: TopGame, games: &Vec<PublicGame>) -> (r: TopGame)
    ensures
        r == top_after(top, games@),
{
    let mut best = top;
    let mut i: usize = 0;
    while i < games.len()
        invariant
            0 <= i <= games@.len(),
            best == top_after(top, games@.take(i as int)),
        decreases games@.len() - i,
    {
        assert(games@.take(i + 1).drop_last() =~= games@.take(i as int));
        let g = &games[i];
        match parse_game_and_validate(&g.seeded_recording) {
            Ok(score) => {
                if score > best.score {
                    best = TopGame { score, uri: Some(g.uri.clone()) };
                }
            },
            Err(_) => {},
        }
        i += 1;
    }
    assert(games@.take(i as int) =~= games@);
    best
}

/// The cursor for the next page of a listing that returned `page_len`
/// records and `cursor`: listing goes on only after a full page that came
/// with a cursor.
pub fn next_page_cursor(page_len: usize, cursor: Option<String>) -> (r: Option<String>)
    ensures
        page_len == LIST_PAGE_SIZE ==> r == cursor,
        page_len != LIST_PAGE_SIZE ==> r is None,
{
    if page_len == LIST_PAGE_SIZE {
        cursor
    } else {
        None
    }
}

/// A player's place on the leaderboard.
#[derive(Clone, Debug, PartialEq, Eq)]
pub struct LeaderboardPlace {
    pub did: String,
    pub handle: Option<String>,
    pub pds_url: String,
    pub top_score: Option<u64>,
    pub top_score_uri: Option<String>,
}

/// The ranking key of a place: places without a score rank below all others.
pub open spec fn place_rank(p: LeaderboardPlace) -> int {
    match p.top_score {
        Some(s) => s + 1,
        None => 0,
    }
}

/// Places in order of descending rank.
pub open spec fn ranked(s: Seq<LeaderboardPlace>) -> bool {
    forall|i: int, j: int| 0 <= i < j < s.len() ==> place_rank(#[trigger] s[i]) >= place_rank(#[trigger] s[j])
}

fn ranks_above(a: &LeaderboardPlace, b: &LeaderboardPlace) -> (r: bool)
    ensures
        r == (place_rank(*a) > place_rank(*b)),
{
    match (a.top_score, b.top_score) {
        (Some(x), Some(y)) => x > y,
        (Some(_), None) => true,
        (None, _) => false,
    }
}

/// `p` maps each position of `r` to the position in `given` of the same
/// place, one to one, keeping the order of places of equal rank.
pub open spec fn stable_witness(given: Seq<LeaderboardPlace>, r: Seq<LeaderboardPlace>, p: Seq<int>) -> bool {
    &&& p.len() == r.len()
    &&& r.len() == given.len()
    &&& forall|k: int| 0 <= k < p.len() ==> 0 <= #[trigger] p[k] < given.len() && r[k] == given[p[k]]
    &&& forall|i: int, j: int| 0 <= i < j < p.len() ==> #[trigger] p[i] != #[trigger] p[j]
    &&& forall|i: int, j: int|
        0 <= i < j < p.len() && place_rank(r[i]) == place_rank(r[j]) ==> #[trigger] p[i] < #[trigger] p[j]
}

/// Orders places by descending top score, places without a score last;
/// places of equal score keep their order.
pub fn rank_places(places: Vec<LeaderboardPlace>) -> (r: Vec<LeaderboardPlace>)
    ensures
        ranked(r@),
        r@.to_multiset() == places@.to_multiset(),
        exists|p: Seq<int>| stable_witness(places@, r@, p),
{
    broadcast use vstd::seq_lib::group_to_multiset_ensures;

    let ghost given = places@;
    let mut rest = places;
    let mut out: Vec<LeaderboardPlace> = Vec::new();
    let ghost mut perm: Seq<int> = Seq::empty();
    while rest.len() > 0
        invariant
            ranked(out@),
            rest@.to_multiset().add(out@.to_multiset()) == given.to_multiset(),
            rest@ == given.take(rest@.len() as int),
            rest@.len() + out@.len() == given.len(),
            perm.len() == out@.len(),
            forall|k: int|
                0 <= k < perm.len() ==> rest@.len() <= #[trigger] perm[k] < given.len() && out@[k]
                    == given[perm[k]],
            forall|i: int, j: int| 0 <= i < j < perm.len() ==> #[trigger] perm[i] != #[trigger] perm[j],
            forall|i: int, j: int|
                0 <= i < j < perm.len() && place_rank(out@[i]) == place_rank(out@[j]) ==> #[trigger] perm[i]
                    < #[trigger] perm[j],
        decreases rest@.len(),
    {
        let ghost before = rest@;
        let p = rest.pop().unwrap();
        proof {
            assert(before =~= rest@.push(p));
            assert(p == before[before.len() - 1]);
        }
        let mut k: usize = 0;
        while k < out.len()
            invariant
                0 <= k <= out@.len(),
                forall|m: int| 0 <= m < k ==> place_rank(#[trigger] out@[m]) > place_rank(p),
            ensures
                0 <= k <= out@.len(),
                forall|m: int| 0 <= m < k ==> place_rank(#[trigger] out@[m]) > place_rank(p),
                k < out@.len() ==> place_rank(out@[k as int]) <= place_rank(p),
            decreases out@.len() - k,
        {
            if !ranks_above(&out[k], &p) {
                break;
            }
            k += 1;
        }
        let ghost prev = out@;
        let ghost prev_perm = perm;
        let ghost n = rest@.len() as int;
        out.insert(k, p);
        proof {
            perm = prev_perm.insert(k as int, n);
            assert(rest@ =~= given.take(n));
            assert(p == given[n]);
            assert forall|q: int| 0 <= q < perm.len() implies n <= #[trigger] perm[q] < given.len()
                && out@[q] == given[perm[q]] by {
                if q < k {
                    assert(perm[q] == prev_perm[q] && out@[q] == prev[q]);
                } else if q > k {
                    assert(perm[q] == prev_perm[q - 1] && out@[q] == prev[q - 1]);
                }
            }
            assert forall|i: int, j: int| 0 <= i < j < perm.len() implies #[trigger] perm[i] != #[trigger] perm[j] by {
                if i < k && j < k {
                    assert(perm[i] == prev_perm[i] && perm[j] == prev_perm[j]);
                } else if i < k && j > k {
                    assert(perm[i] == prev_perm[i] && perm[j] == prev_perm[j - 1]);
                } else if i > k {
                    assert(perm[i] == prev_perm[i - 1] && perm[j] == prev_perm[j - 1]);
                } else if i == k {
                    assert(perm[j] == prev_perm[j - 1]);
                } else {
                    assert(perm[i] == prev_perm[i]);
                }
            }
            assert forall|i: int, j: int|
                0 <= i < j < perm.len() && place_rank(out@[i]) == place_rank(out@[j]) implies #[trigger] perm[i]
                    < #[trigger] perm[j] by {
                if i < k && j < k {
                    assert(perm[i] == prev_perm[i] && perm[j] == prev_perm[j]);
                    assert(out@[i] == prev[i] && out@[j] == prev[j]);
                } else if i < k && j > k {
                    assert(perm[i] == prev_perm[i] && perm[j] == prev_perm[j - 1]);
                    assert(out@[i] == prev[i] && out@[j] == prev[j - 1]);
                } else if i > k {
                    assert(perm[i] == prev_perm[i - 1] && perm[j] == prev_perm[j - 1]);
                    assert(out@[i] == prev[i - 1] && out@[j] == prev[j - 1]);
                } else if i == k {
                    assert(perm[j] == prev_perm[j - 1]);
                } else {
                    assert(out@[i] == prev[i]);
                }
            }
            assert forall|i: int, j: int| 0 <= i < j < out@.len() implies place_rank(#[trigger] out@[i])
                >= place_rank(#[trigger] out@[j]) by {
                if j < k {
                    assert(out@[i] == prev[i] && out@[j] == prev[j]);
                } else if j == k {
                    assert(out@[i] == prev[i]);
                } else if i == k {
                    assert(out@[j] == prev[j - 1]);
                    assert(place_rank(prev[k as int]) <= place_rank(p));
                    if j - 1 > k {
                        assert(place_rank(prev[k as int]) >= place_rank(prev[j - 1]));
                    }
                } else if i < k {
                    assert(out@[i] == prev[i] && out@[j] == prev[j - 1]);
                } else {
                    assert(out@[i] == prev[i - 1] && out@[j] == prev[j - 1]);
                }
            }
            vstd::seq_lib::to_multiset_insert(prev, k as int, p);
            vstd::seq_lib::to_multiset_build(rest@, p);
            assert(before.to_multiset() == rest@.to_multiset().insert(p));
            assert(rest@.to_multiset().add(out@.to_multiset()) =~= before.to_multiset().add(
                prev.to_multiset(),
            ));
        }
    }
    proof {
        assert(rest@.to_multiset() =~= vstd::multiset::Multiset::empty());
        assert(stable_witness(given, out@, perm));
    }
    out
}

} // verus!
