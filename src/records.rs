//! The three kinds of rows the extractor emits.
use vstd::prelude::*;

verus! {

/// Metadata of one game, filled in header by header.
#[derive(Debug, Clone)]
pub struct GameHeaders {
    pub event: String,
    pub game_link: String,
    pub white_player: String,
    pub black_player: String,
    pub result: String,
    pub date_played: String,
    pub time_played: String,
    pub white_elo: String,
    pub black_elo: String,
    pub white_rating_diff: String,
    pub black_rating_diff: String,
    pub eco: String,
    pub opening_name: String,
    pub time_control: String,
    pub initial_time: usize,
    pub increment: usize,
    pub termination: String,
}

/// The contents of a game record: its text fields in declaration order,
/// then the two counts of the time control.
pub struct HeaderFields {
    pub texts: Seq<Seq<char>>,
    pub initial_time: nat,
    pub increment: nat,
}

/// The contents of a blank game record.
pub open spec fn blank_fields() -> HeaderFields {
    HeaderFields { texts: Seq::new(15, |i: int| Seq::<char>::empty()), initial_time: 0, increment: 0 }
}

impl GameHeaders {
    pub open spec fn fields(&self) -> HeaderFields {
        HeaderFields {
            texts: seq![
            self.event@,
            self.game_link@,
            self.white_player@,
            self.black_player@,
            self.result@,
            self.date_played@,
            self.time_played@,
            self.white_elo@,
            self.black_elo@,
            self.white_rating_diff@,
            self.black_rating_diff@,
            self.eco@,
            self.opening_name@,
            self.time_control@,
            self.termination@,
            ],
            initial_time: self.initial_time as nat,
            increment: self.increment as nat,
        }
    }

    /// Every text field empty, both numbers zero.
    pub open spec fn is_blank(&self) -> bool {
        &&& self.event@.len() == 0
        &&& self.game_link@.len() == 0
        &&& self.white_player@.len() == 0
        &&& self.black_player@.len() == 0
        &&& self.result@.len() == 0
        &&& self.date_played@.len() == 0
        &&& self.time_played@.len() == 0
        &&& self.white_elo@.len() == 0
        &&& self.black_elo@.len() == 0
        &&& self.white_rating_diff@.len() == 0
        &&& self.black_rating_diff@.len() == 0
        &&& self.eco@.len() == 0
        &&& self.opening_name@.len() == 0
        &&& self.time_control@.len() == 0
        &&& self.initial_time == 0
        &&& self.increment == 0
        &&& self.termination@.len() == 0
    }

    pub fn new() -> (r: GameHeaders)
        ensures
            r.is_blank(),
            r.fields() == blank_fields(),
    {
        let r = GameHeaders {
            event: String::new(),
            game_link: String::new(),
            white_player: String::new(),
            black_player: String::new(),
            result: String::new(),
            date_played: String::new(),
            time_played: String::new(),
            white_elo: String::new(),
            black_elo: String::new(),
            white_rating_diff: String::new(),
            black_rating_diff: String::new(),
            eco: String::new(),
            opening_name: String::new(),
            time_control: String::new(),
            initial_time: 0,
            increment: 0,
            termination: String::new(),
        };
        assert(r.fields().texts =~= blank_fields().texts);
        r
    }
}

/// One annotation row: evaluation and clock read from a comment.
#[derive(Debug, Clone)]
pub struct GameComments {
    pub game_id: String,
    pub half_move: usize,
    pub clock: String,
    pub eval: String,
}

impl GameComments {
    pub fn new() -> (r: GameComments)
        ensures
            r.game_id@.len() == 0,
            r.half_move == 0,
            r.clock@.len() == 0,
            r.eval@.len() == 0,
    {
        GameComments { game_id: String::new(), half_move: 0, clock: String::new(), eval: String::new() }
    }
}

/// One position row: the board after a ply.
#[derive(Debug, Clone)]
pub struct GamePositions {
    pub game_id: String,
    pub half_move: usize,
    pub fen: String,
}

impl GamePositions {
    pub fn new() -> (r: GamePositions)
        ensures
            r.game_id@.len() == 0,
            r.half_move == 0,
            r.fen@.len() == 0,
    {
        GamePositions { game_id: String::new(), half_move: 0, fen: String::new() }
    }
}

} // verus!
