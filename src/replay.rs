//! The replay oracle: parsing, hashing and replaying seeded recordings.
//!
//! Everything here that a recording determines is computed by the
//! `twothousand_forty_eight` crate. Its results are given names, functions of
//! the recording text alone, so that the rest of the library can state exact
//! contracts over them.

use twothousand_forty_eight::unified::game::GameState;
use twothousand_forty_eight::unified::hash::Hashable;
use twothousand_forty_eight::unified::reconstruction::Reconstructable;
use twothousand_forty_eight::unified::validation::Validatable;
use twothousand_forty_eight::v2::recording::SeededRecording;
use vstd::prelude::*;

verus! {

/// Largest board side that the replay engine supports; it panics on larger boards.
pub const MAX_BOARD_SIDE: usize = 6;

/// The value of the milestone tile.
pub const MILESTONE_VALUE: u64 = 2048;

/// One tile of a replayed board: its identity and its value (0 for an empty cell).
#[derive(Clone, Copy, Debug, PartialEq, Eq, Structural)]
pub struct Tile {
    pub id: u64,
    pub value: u64,
}

/// What a replay yields about the end of a game.
#[derive(Clone, Copy, Debug, PartialEq, Eq, Structural)]
pub struct GameOutcome {
    /// Score at the end of the game.
    pub score: u64,
    /// No move is left.
    pub over: bool,
    /// The winning tile was reached.
    pub won: bool,
}

#[verifier::external_type_specification]
#[verifier::external_body]
pub struct ExSeededRecording(SeededRecording);

/// Board size of the recording that `s` parses to, or `None` when it does not parse.
pub uninterp spec fn recording_board_size(s: Seq<char>) -> Option<(nat, nat)>;

/// The content hash of the recording that `s` parses to.
pub uninterp spec fn game_hash_of(s: Seq<char>) -> Seq<char>;

/// The end state of the replayed game, or `None` when the replay is rejected.
pub uninterp spec fn final_state_of(s: Seq<char>) -> Option<GameOutcome>;

/// Every board of the replayed game in order, starting with the initial one, as
/// the cells of each board; `None` when the replay is rejected.
pub uninterp spec fn board_history_of(s: Seq<char>) -> Option<Seq<Seq<Option<Tile>>>>;

/// The validated maximum score of the recording, or `None` when it is rejected.
pub uninterp spec fn validated_score_of(s: Seq<char>) -> Option<nat>;

/// A recording that parsed, together with the text it was parsed from.
pub struct ParsedRecording {
    source: String,
    width: usize,
    height: usize,
    inner: SeededRecording,
}

impl ParsedRecording {
    /// The text this recording was parsed from.
    pub closed spec fn text(&self) -> Seq<char> {
        self.source@
    }

    pub closed spec fn spec_width(&self) -> nat {
        self.width as nat
    }

    pub closed spec fn spec_height(&self) -> nat {
        self.height as nat
    }

    pub fn width(&self) -> (r: usize)
        ensures
            r == self.spec_width(),
    {
        self.width
    }

    pub fn height(&self) -> (r: usize)
        ensures
            r == self.spec_height(),
    {
        self.height
    }

    /// Whether the replay engine can handle this board size.
    pub open spec fn fits_engine(&self) -> bool {
        self.spec_width() <= MAX_BOARD_SIDE && self.spec_height() <= MAX_BOARD_SIDE
    }
}

/// Relies on `SeededRecording`'s `FromStr`: parsing depends on the text alone;
/// the width and height are copied from the parsed recording.
#[verifier::external_body]
pub(crate) fn parse_recording(s: &String) -> (r: Result<ParsedRecording, String>)
    ensures
        r is Ok <==> recording_board_size(s@) is Some,
        r is Ok ==> r->Ok_0.text() == s@,
        r is Ok ==> recording_board_size(s@) == Some(
            (r->Ok_0.spec_width(), r->Ok_0.spec_height()),
        ),
{
    match s.parse::<SeededRecording>() {
        Ok(inner) => Ok(ParsedRecording { source: s.clone(), width: inner.width, height: inner.height, inner }),
        Err(e) => Err(e.to_string()),
    }
}

/// Relies on `Hashable::game_hash` of `SeededRecording`: a digest of the parsed
/// recording, hence of the text alone.
#[verifier::external_body]
pub(crate) fn recording_hash(p: &ParsedRecording) -> (r: String)
    ensures
        r@ == game_hash_of(p.text()),
{
    p.inner.game_hash()
}

/// Relies on `GameState::from_reconstructable_ruleset`: replays the recording
/// and reports its end score (`score_current`), `over` and `won`, or the
/// replay error's message. It panics on boards larger than the engine supports.
#[verifier::external_body]
pub(crate) fn replay_final_state(p: &ParsedRecording) -> (r: Result<GameOutcome, String>)
    requires
        p.fits_engine(),
    ensures
        r is Ok <==> final_state_of(p.text()) is Some,
        r is Ok ==> final_state_of(p.text()) == Some(r->Ok_0),
{
    match GameState::from_reconstructable_ruleset(&p.inner) {
        Ok(g) => Ok(GameOutcome { score: g.score_current as u64, over: g.over, won: g.won }),
        Err(e) => Err(e.to_string()),
    }
}

/// Relies on `Reconstructable::reconstruct` of `SeededRecording`: the boards of
/// the replayed game, each flattened row by row into its cells, or the replay
/// error's message. It panics on boards larger than the engine supports.
#[verifier::external_body]
pub(crate) fn replay_history(p: &ParsedRecording) -> (r: Result<Vec<Vec<Option<Tile>>>, String>)
    requires
        p.fits_engine(),
    ensures
        r is Ok <==> board_history_of(p.text()) is Some,
        r is Ok ==> board_history_of(p.text()) == Some(boards_view(r->Ok_0@)),
{
    match p.inner.reconstruct() {
        Ok(rec) => Ok(
            rec.history.iter().map(|b| {
                b.tiles.iter().flatten().map(|c| c.map(|t| Tile { id: t.id as u64, value: t.value as u64 })).collect()
            }).collect(),
        ),
        Err(e) => Err(e.to_string()),
    }
}

/// Relies on `Validatable::validate` of `SeededRecording`: the validated maximum
/// score of the run. It panics on boards larger than the engine supports.
#[verifier::external_body]
pub(crate) fn validate_score(p: &ParsedRecording) -> (r: Option<u64>)
    requires
        p.fits_engine(),
    ensures
        r is Some <==> validated_score_of(p.text()) is Some,
        r is Some ==> validated_score_of(p.text()) == Some(r->0 as nat),
{
    match p.inner.validate() {
        Ok(v) => Some(v.score as u64),
        Err(_) => None,
    }
}

/// The cells of each board of a history.
pub open spec fn boards_view(h: Seq<Vec<Option<Tile>>>) -> Seq<Seq<Option<Tile>>> {
    h.map_values(|b: Vec<Option<Tile>>| b@)
}

/// The recording parses, its board fits the engine, and it replays.
pub open spec fn recording_valid(s: Seq<char>) -> bool {
    match recording_board_size(s) {
        Some(size) => size.0 <= MAX_BOARD_SIDE && size.1 <= MAX_BOARD_SIDE && final_state_of(s) is Some
            && board_history_of(s) is Some,
        None => false,
    }
}

/// A validated replay of a recording.
pub struct Replay {
    pub outcome: GameOutcome,
    pub history: Vec<Vec<Option<Tile>>>,
    /// Content hash of the recording.
    pub hash: String,
}

/// Parses and replays a recording; the error carries the reason it was rejected.
pub fn replay_recording(s: &String) -> (r: Result<Replay, String>)
    ensures
        r is Ok <==> recording_valid(s@),
        r is Ok ==> Some(r->Ok_0.outcome) == final_state_of(s@),
        r is Ok ==> Some(boards_view(r->Ok_0.history@)) == board_history_of(s@),
        r is Ok ==> r->Ok_0.hash@ == game_hash_of(s@),
{
    let parsed = match parse_recording(s) {
        Ok(p) => p,
        Err(e) => {
            return Err(e);
        },
    };
    if parsed.width() > MAX_BOARD_SIDE || parsed.height() > MAX_BOARD_SIDE {
        return Err("board size too big".to_owned());
    }
    let outcome = match replay_final_state(&parsed) {
        Ok(o) => o,
        Err(e) => {
            return Err(e);
        },
    };
    let history = match replay_history(&parsed) {
        Ok(h) => h,
        Err(e) => {
            return Err(e);
        },
    };
    let hash = recording_hash(&parsed);
    Ok(Replay { outcome, history, hash })
}

} // verus!
