//! The live chess position of the game being read, advanced move by move.
use vstd::prelude::*;

verus! {

#[verifier::external_type_specification]
#[verifier::external_body]
pub struct ExChess(shakmaty::Chess);

#[verifier::external_type_specification]
#[verifier::external_body]
pub struct ExSan(shakmaty::san::San);

/// The FEN text of a position, as `Fen::from_position` with the legal en
/// passant mode writes it.
pub uninterp spec fn fen_of(pos: shakmaty::Chess) -> Seq<char>;

/// The position after `san` is played in `pos`, where it resolves to a
/// unique legal move.
pub uninterp spec fn played(pos: shakmaty::Chess, san: shakmaty::san::San) -> Option<shakmaty::Chess>;

/// The FEN of the standard starting position.
pub open spec fn start_fen() -> Seq<char> {
    "rnbqkbnr/pppppppp/8/8/8/8/PPPPPPPP/RNBQKBNR w KQkq - 0 1"@
}

/// Relies on `Chess::default`: the standard starting position.
#[verifier::external_body]
fn start_position() -> (r: shakmaty::Chess)
    ensures
        fen_of(r) == start_fen(),
{
    shakmaty::Chess::default()
}

/// Relies on `San::to_move` and `Position::play_unchecked`: a SAN that does
/// not resolve to a unique legal move is refused and the position is left as
/// it was; one that resolves is played.
#[verifier::external_body]
fn play_san(pos: &mut shakmaty::Chess, san: &shakmaty::san::San) -> (r: bool)
    ensures
        r <==> played(*old(pos), *san) is Some,
        r ==> Some(*final(pos)) == played(*old(pos), *san),
        !r ==> *final(pos) == *old(pos),
{
    match san.to_move(&*pos) {
        Ok(m) => {
            shakmaty::Position::play_unchecked(pos, &m);
            true
        },
        Err(_) => false,
    }
}

/// Relies on `Fen::from_position` and its `Display`: the FEN of the position,
/// with an en passant square only where a capture there is legal.
#[verifier::external_body]
fn fen_text(pos: &shakmaty::Chess) -> (r: String)
    ensures
        r@ == fen_of(*pos),
{
    shakmaty::fen::Fen::from_position(pos.clone(), shakmaty::EnPassantMode::Legal).to_string()
}

/// Relies on the derived `Clone` of `Chess`: the copy equals the original.
pub assume_specification[ <shakmaty::Chess as Clone>::clone ](c: &shakmaty::Chess) -> (r: shakmaty::Chess)
    ensures
        r == *c,
;

/// Owns the position of the current game, and the starting position that a
/// reset goes back to.
pub struct Replayer {
    pub pos: shakmaty::Chess,
    pub start: shakmaty::Chess,
}

impl Replayer {
    /// A replayer at the standard starting position.
    pub fn new() -> (r: Replayer)
        ensures
            fen_of(r.start) == start_fen(),
            r.pos == r.start,
    {
        let start = start_position();
        Replayer { pos: start.clone(), start }
    }

    /// Plays `san` where it resolves against the position; otherwise the
    /// position stays as it was and `false` is returned.
    pub fn apply(&mut self, san: &shakmaty::san::San) -> (r: bool)
        ensures
            r <==> played(old(self).pos, *san) is Some,
            r ==> Some(final(self).pos) == played(old(self).pos, *san),
            final(self).start == old(self).start,
            !r ==> *final(self) == *old(self),
    {
        play_san(&mut self.pos, san)
    }

    /// The FEN text of the current position.
    pub fn serialize(&self) -> (r: String)
        ensures
            r@ == fen_of(self.pos),
    {
        fen_text(&self.pos)
    }

    /// Back to the standard starting position.
    pub fn reset(&mut self)
        ensures
            final(self).pos == old(self).start,
            final(self).start == old(self).start,
    {
        self.pos = self.start.clone();
    }
}

} // verus!
