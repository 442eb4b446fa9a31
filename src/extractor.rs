//! The traversal visitor: reacts to the events of a PGN traversal in file
//! order and produces the header, position and annotation rows.
use crate::annotation::{extract_annotation, tag_value};
use crate::fields::{apply_header, fields_applied, header_applied, lemma_fields_applied, key_of, time_control_of, HeaderError, HeaderKey};
use crate::records::{blank_fields, GameComments, GameHeaders, GamePositions, HeaderFields};
use crate::replay::{fen_of, played, start_fen, Replayer};
use vstd::prelude::*;

verus! {

/// Why a comment gave no annotation row.
#[derive(Debug, Clone, Copy, PartialEq, Eq, Structural)]
pub enum AnnotationError {
    /// The comment holds no `[%eval ...]`.
    MissingEval,
    /// The comment holds an evaluation but no `[%clk ...]`.
    MissingClock,
}

/// One callback of a PGN traversal.
pub enum Event {
    BeginGame,
    Header(String, String),
    EndHeaders,
    Move(shakmaty::san::San),
    Comment(String),
    BeginVariation,
    EndGame,
}

/// A row for one of the three outputs.
pub enum Row {
    Header(GameHeaders),
    Position(GamePositions),
    Annotation(GameComments),
}

/// The counters of an extractor.
pub struct Tally {
    pub games: nat,
    pub moves: nat,
    pub ply: nat,
}

/// A row seen by its kind and, for the per-ply kinds, its ply index.
pub enum RowShape {
    Header,
    Position(nat),
    Annotation(nat),
}

pub open spec fn shape_of(r: Row) -> RowShape {
    match r {
        Row::Header(_) => RowShape::Header,
        Row::Position(p) => RowShape::Position(p.half_move as nat),
        Row::Annotation(c) => RowShape::Annotation(c.half_move as nat),
    }
}

pub open spec fn shapes_of(rows: Seq<Row>) -> Seq<RowShape> {
    rows.map_values(|r: Row| shape_of(r))
}

/// A comment yields a row where it holds both an evaluation and a clock.
pub open spec fn is_annotation(text: Seq<char>) -> bool {
    tag_value("eval"@, text) is Some && tag_value("clk"@, text) is Some
}

/// The counters after one event.
pub open spec fn step(t: Tally, ev: Event) -> Tally {
    match ev {
        Event::BeginGame => Tally { games: t.games + 1, ply: 0, ..t },
        Event::Move(_) => Tally { moves: t.moves + 1, ply: t.ply + 1, ..t },
        _ => t,
    }
}

/// The row, if any, that an event yields when it meets counters `t`.
pub open spec fn emitted(t: Tally, ev: Event) -> Seq<RowShape> {
    match ev {
        Event::EndHeaders => seq![RowShape::Header],
        Event::Move(_) => seq![RowShape::Position(t.ply + 1)],
        Event::Comment(text) => if is_annotation(text@) {
            seq![RowShape::Annotation(t.ply)]
        } else {
            Seq::empty()
        },
        _ => Seq::empty(),
    }
}

/// The counters after a sequence of events.
pub open spec fn run_tally(t: Tally, evs: Seq<Event>) -> Tally
    decreases evs.len(),
{
    if evs.len() == 0 {
        t
    } else {
        step(run_tally(t, evs.drop_last()), evs.last())
    }
}

/// The rows that a sequence of events yields, in order.
pub open spec fn run_shapes(t: Tally, evs: Seq<Event>) -> Seq<RowShape>
    decreases evs.len(),
{
    if evs.len() == 0 {
        Seq::empty()
    } else {
        run_shapes(t, evs.drop_last()) + emitted(run_tally(t, evs.drop_last()), evs.last())
    }
}

/// The traversal visitor with its counters and the templates of the rows.
pub struct PgnExtractor {
    pub pos: Replayer,
    pub moves: usize,
    pub games: usize,
    pub half_moves: usize,
    pub game_headers: GameHeaders,
    pub game_positions: GamePositions,
    pub game_comments: GameComments,
    /// Whether the last move resolved against the position; where it did
    /// not, the last position row repeats the position before it.
    pub last_move_resolved: bool,
}

impl PgnExtractor {
    pub open spec fn tally(&self) -> Tally {
        Tally { games: self.games as nat, moves: self.moves as nat, ply: self.half_moves as nat }
    }

    /// The ply counter never passes the move counter, and both row templates
    /// carry the same game.
    pub open spec fn wf(&self) -> bool {
        &&& self.half_moves <= self.moves
        &&& self.game_positions.game_id@ == self.game_comments.game_id@
        &&& fen_of(self.pos.start) == start_fen()
    }

    /// All that decides the rows to come.
    pub open spec fn model(&self) -> Model {
        Model {
            pos: self.pos.pos,
            start: self.pos.start,
            tally: self.tally(),
            headers: self.game_headers.fields(),
            game_id: self.game_positions.game_id@,
        }
    }

    pub fn new() -> (r: PgnExtractor)
        ensures
            r.wf(),
            r.moves == 0,
            r.games == 0,
            r.half_moves == 0,
            r.game_headers.is_blank(),
            r.game_positions.game_id@.len() == 0,
            r.game_positions.half_move == 0,
            r.game_positions.fen@.len() == 0,
            r.game_comments.game_id@.len() == 0,
            r.game_comments.half_move == 0,
            r.game_comments.eval@.len() == 0,
            r.game_comments.clock@.len() == 0,
            fen_of(r.pos.pos) == start_fen(),
            r.pos.pos == r.pos.start,
            !r.last_move_resolved,
    {
        let game_positions = GamePositions::new();
        let game_comments = GameComments::new();
        assert(game_positions.game_id@ =~= game_comments.game_id@);
        PgnExtractor {
            pos: Replayer::new(),
            moves: 0,
            games: 0,
            half_moves: 0,
            game_headers: GameHeaders::new(),
            game_positions,
            game_comments,
            last_move_resolved: false,
        }
    }

    /// A game starts: one more game, and the ply counter back to zero. The
    /// position is left as the previous game's end left it.
    pub fn begin_game(&mut self)
        requires
            old(self).games < usize::MAX,
            old(self).wf(),
        ensures
            final(self).wf(),
            final(self).games == old(self).games + 1,
            final(self).half_moves == 0,
            final(self).moves == old(self).moves,
            final(self).pos == old(self).pos,
            final(self).game_headers == old(self).game_headers,
            final(self).game_positions == old(self).game_positions,
            final(self).game_comments == old(self).game_comments,
    {
        self.games = self.games + 1;
        self.half_moves = 0;
    }

    /// A header: its value goes to the slot of its key; unknown keys are
    /// ignored. A malformed time control is reported and the rest goes on.
    pub fn header(&mut self, key: &str, value: String) -> (r: Result<(), HeaderError>)
        ensures
            final(self).game_headers == header_applied(old(self).game_headers, key@, value),
            r is Err <==> (key_of(key@) == HeaderKey::TimeControl && time_control_of(value@) is None),
            final(self).pos == old(self).pos,
            final(self).tally() == old(self).tally(),
            final(self).moves == old(self).moves,
            final(self).half_moves == old(self).half_moves,
            final(self).game_positions == old(self).game_positions,
            final(self).game_comments == old(self).game_comments,
    {
        apply_header(&mut self.game_headers, key, value)
    }

    /// The headers are complete: the game record is handed out for writing,
    /// its source link becomes the game identifier of the position and
    /// annotation rows, and the record starts blank again.
    pub fn end_headers(&mut self) -> (r: GameHeaders)
        ensures
            r == old(self).game_headers,
            final(self).game_headers.is_blank(),
            final(self).game_headers.fields() == blank_fields(),
            final(self).game_positions.game_id@ == old(self).game_headers.game_link@,
            final(self).game_comments.game_id@ == old(self).game_headers.game_link@,
            final(self).game_positions.half_move == old(self).game_positions.half_move,
            final(self).game_positions.fen == old(self).game_positions.fen,
            final(self).game_comments.half_move == old(self).game_comments.half_move,
            final(self).game_comments.eval == old(self).game_comments.eval,
            final(self).game_comments.clock == old(self).game_comments.clock,
            final(self).pos == old(self).pos,
            final(self).moves == old(self).moves,
            final(self).games == old(self).games,
            final(self).half_moves == old(self).half_moves,
    {
        self.game_comments.game_id = self.game_headers.game_link.clone();
        self.game_positions.game_id = self.game_headers.game_link.clone();
        let mut done = GameHeaders::new();
        std::mem::swap(&mut done, &mut self.game_headers);
        done
    }

    /// A comment: where it holds both an evaluation and a clock, they are
    /// stamped with the current game and ply and returned as the annotation
    /// row; otherwise nothing changes and the missing part is reported.
    pub fn comment(&mut self, text: &str) -> (r: Result<GameComments, AnnotationError>)
        ensures
            match r {
                Ok(row) => {
                    &&& is_annotation(text@)
                    &&& row.game_id == old(self).game_comments.game_id
                    &&& row.half_move == old(self).half_moves
                    &&& tag_value("eval"@, text@) == Some(row.eval@)
                    &&& tag_value("clk"@, text@) == Some(row.clock@)
                    &&& final(self).game_comments == row
                },
                Err(e) => {
                    &&& !is_annotation(text@)
                    &&& e == if tag_value("eval"@, text@) is None {
                        AnnotationError::MissingEval
                    } else {
                        AnnotationError::MissingClock
                    }
                    &&& final(self).game_comments == old(self).game_comments
                },
            },
            final(self).pos == old(self).pos,
            final(self).moves == old(self).moves,
            final(self).games == old(self).games,
            final(self).half_moves == old(self).half_moves,
            final(self).game_headers == old(self).game_headers,
            final(self).game_positions == old(self).game_positions,
    {
        let found = extract_annotation(text);
        match found.eval {
            None => Err(AnnotationError::MissingEval),
            Some(eval) => match found.clock {
                None => Err(AnnotationError::MissingClock),
                Some(clock) => {
                    let row = GameComments {
                        game_id: self.game_comments.game_id.clone(),
                        half_move: self.half_moves,
                        clock: clock.clone(),
                        eval: eval.clone(),
                    };
                    self.game_comments = GameComments {
                        game_id: self.game_comments.game_id.clone(),
                        half_move: self.half_moves,
                        clock,
                        eval,
                    };
                    Ok(row)
                },
            },
        }
    }

    /// A move of the mainline: both counters advance, the move is played
    /// where it resolves (else the position stays, and `last_move_resolved`
    /// says so), and the position row of this ply is returned, whether the
    /// move resolved or not.
    pub fn san(&mut self, san: &shakmaty::san::San) -> (r: GamePositions)
        requires
            old(self).moves < usize::MAX,
            old(self).wf(),
        ensures
            final(self).wf(),
            final(self).moves == old(self).moves + 1,
            final(self).half_moves == old(self).half_moves + 1,
            final(self).games == old(self).games,
            r.half_move == final(self).half_moves,
            r.game_id == old(self).game_positions.game_id,
            r.fen@ == fen_of(final(self).pos.pos),
            final(self).last_move_resolved == (played(old(self).pos.pos, *san) is Some),
            final(self).pos.start == old(self).pos.start,
            match played(old(self).pos.pos, *san) {
                Some(p) => final(self).pos.pos == p,
                None => final(self).pos == old(self).pos,
            },
            final(self).game_positions == r,
            final(self).game_headers == old(self).game_headers,
            final(self).game_comments == old(self).game_comments,
    {
        self.moves = self.moves + 1;
        self.half_moves = self.half_moves + 1;
        self.last_move_resolved = self.pos.apply(san);
        let fen = self.pos.serialize();
        let row = GamePositions {
            game_id: self.game_positions.game_id.clone(),
            half_move: self.half_moves,
            fen: fen.clone(),
        };
        self.game_positions = GamePositions {
            game_id: self.game_positions.game_id.clone(),
            half_move: self.half_moves,
            fen,
        };
        row
    }

    /// A variation begins: it is always skipped, so only the mainline
    /// reaches the extractor.
    pub fn begin_variation(&self) -> (skip: bool)
        ensures
            skip,
    {
        true
    }

    /// The game ends: the position goes back to the start for the next game,
    /// and the number of moves read so far is returned.
    pub fn end_game(&mut self) -> (r: usize)
        requires
            old(self).wf(),
        ensures
            final(self).wf(),
            r == old(self).moves,
            fen_of(final(self).pos.pos) == start_fen(),
            final(self).pos.pos == old(self).pos.start,
            final(self).pos.start == old(self).pos.start,
            final(self).moves == old(self).moves,
            final(self).games == old(self).games,
            final(self).half_moves == old(self).half_moves,
            final(self).game_headers == old(self).game_headers,
            final(self).game_positions == old(self).game_positions,
            final(self).game_comments == old(self).game_comments,
    {
        self.pos.reset();
        self.moves
    }

    /// Feeds one event; returns the row it yields, if any.
    pub fn process(&mut self, ev: &Event) -> (r: Option<Row>)
        requires
            old(self).wf(),
            old(self).moves < usize::MAX,
            old(self).games < usize::MAX,
        ensures
            final(self).wf(),
            final(self).tally() == step(old(self).tally(), *ev),
            row_shapes(r) == emitted(old(self).tally(), *ev),
            final(self).model() == model_step(old(self).model(), *ev),
            row_views(r) == model_rows(old(self).model(), *ev),
            match *ev {
                Event::Header(key, value) => final(self).game_headers == header_applied(
                    old(self).game_headers,
                    key@,
                    value,
                ),
                Event::EndHeaders => r == Some(Row::Header(old(self).game_headers)),
                Event::Move(san) => match r {
                    Some(Row::Position(p)) => {
                        &&& p.game_id == old(self).game_positions.game_id
                        &&& p.fen@ == fen_of(final(self).pos.pos)
                        &&& match played(old(self).pos.pos, san) {
                            Some(q) => final(self).pos.pos == q,
                            None => final(self).pos == old(self).pos,
                        }
                    },
                    _ => false,
                },
                Event::Comment(text) => match r {
                    Some(Row::Annotation(c)) => {
                        &&& c.game_id == old(self).game_comments.game_id
                        &&& tag_value("eval"@, text@) == Some(c.eval@)
                        &&& tag_value("clk"@, text@) == Some(c.clock@)
                    },
                    Some(_) => false,
                    None => true,
                },
                Event::EndGame => fen_of(final(self).pos.pos) == start_fen(),
                _ => final(self).pos == old(self).pos,
            },
    {
        match ev {
            Event::BeginGame => {
                self.begin_game();
                None
            },
            Event::Header(key, value) => {
                proof {
                    lemma_fields_applied(self.game_headers, key@, *value);
                }
                let _ = self.header(key.as_str(), value.clone());
                None
            },
            Event::EndHeaders => {
                assert(self.game_headers.fields().texts[1] == self.game_headers.game_link@);
                let h = self.end_headers();
                Some(Row::Header(h))
            },
            Event::Move(san) => {
                let p = self.san(san);
                Some(Row::Position(p))
            },
            Event::Comment(text) => match self.comment(text.as_str()) {
                Ok(row) => Some(Row::Annotation(row)),
                Err(_) => None,
            },
            Event::BeginVariation => {
                let _ = self.begin_variation();
                None
            },
            Event::EndGame => {
                let _ = self.end_game();
                None
            },
        }
    }

    /// Feeds a sequence of events in order; returns the rows they yield, in
    /// order.
    pub fn run(&mut self, events: &Vec<Event>) -> (rows: Vec<Row>)
        requires
            old(self).wf(),
            old(self).moves + events@.len() <= usize::MAX,
            old(self).games + events@.len() <= usize::MAX,
        ensures
            final(self).wf(),
            final(self).tally() == run_tally(old(self).tally(), events@),
            shapes_of(rows@) == run_shapes(old(self).tally(), events@),
            final(self).model() == run_model(old(self).model(), events@),
            rows@.map_values(|r: Row| row_view(r)) == run_rows(old(self).model(), events@),
    {
        let ghost t0 = self.tally();
        let ghost m0 = self.model();
        let mut rows: Vec<Row> = Vec::new();
        let mut i: usize = 0;
        while i < events.len()
            invariant
                i <= events@.len(),
                self.wf(),
                self.tally() == run_tally(t0, events@.take(i as int)),
                shapes_of(rows@) == run_shapes(t0, events@.take(i as int)),
                self.model() == run_model(m0, events@.take(i as int)),
                rows@.map_values(|r: Row| row_view(r)) == run_rows(m0, events@.take(i as int)),
                self.moves <= t0.moves + i,
                self.games <= t0.games + i,
                t0.moves + events@.len() <= usize::MAX,
                t0.games + events@.len() <= usize::MAX,
            decreases events@.len() - i,
        {
            proof {
                assert(events@.take(i + 1).drop_last() =~= events@.take(i as int));
            }
            let r = self.process(&events[i]);
            match r {
                Some(row) => {
                    let ghost before = rows@;
                    rows.push(row);
                    assert(shapes_of(rows@) =~= shapes_of(before) + seq![shape_of(row)]);
                    assert(rows@.map_values(|r: Row| row_view(r)) =~= before.map_values(
                        |r: Row| row_view(r),
                    ) + seq![row_view(row)]);
                },
                None => {
                    assert(run_rows(m0, events@.take(i + 1)) =~= run_rows(m0, events@.take(i as int)));
                },
            }
            i = i + 1;
        }
        assert(events@.take(events@.len() as int) =~= events@);
        rows
    }
}

/// The state of an extractor as far as it decides the rows to come.
pub struct Model {
    pub pos: shakmaty::Chess,
    pub start: shakmaty::Chess,
    pub tally: Tally,
    pub headers: HeaderFields,
    pub game_id: Seq<char>,
}

/// The contents of a row.
pub enum RowView {
    Header(HeaderFields),
    /// Game identifier, ply and FEN.
    Position(Seq<char>, nat, Seq<char>),
    /// Game identifier, ply, evaluation and clock.
    Annotation(Seq<char>, nat, Seq<char>, Seq<char>),
}

pub open spec fn row_view(r: Row) -> RowView {
    match r {
        Row::Header(h) => RowView::Header(h.fields()),
        Row::Position(p) => RowView::Position(p.game_id@, p.half_move as nat, p.fen@),
        Row::Annotation(c) => RowView::Annotation(c.game_id@, c.half_move as nat, c.eval@, c.clock@),
    }
}

pub open spec fn row_views(r: Option<Row>) -> Seq<RowView> {
    match r {
        Some(row) => seq![row_view(row)],
        None => Seq::empty(),
    }
}

/// The position after a move: played where it resolves, else unchanged.
pub open spec fn after_move(pos: shakmaty::Chess, san: shakmaty::san::San) -> shakmaty::Chess {
    match played(pos, san) {
        Some(q) => q,
        None => pos,
    }
}

/// The state after one event.
pub open spec fn model_step(m: Model, ev: Event) -> Model {
    match ev {
        Event::BeginGame => Model { tally: step(m.tally, ev), ..m },
        Event::Header(key, value) => Model { headers: fields_applied(m.headers, key@, value@), ..m },
        Event::EndHeaders => Model { headers: blank_fields(), game_id: m.headers.texts[1], ..m },
        Event::Move(san) => Model { pos: after_move(m.pos, san), tally: step(m.tally, ev), ..m },
        Event::EndGame => Model { pos: m.start, ..m },
        _ => m,
    }
}

/// The row contents that one event yields.
pub open spec fn model_rows(m: Model, ev: Event) -> Seq<RowView> {
    match ev {
        Event::EndHeaders => seq![RowView::Header(m.headers)],
        Event::Move(san) => seq![RowView::Position(m.game_id, m.tally.ply + 1, fen_of(after_move(m.pos, san)))],
        Event::Comment(text) => if is_annotation(text@) {
            seq![RowView::Annotation(
                m.game_id,
                m.tally.ply,
                tag_value("eval"@, text@)->Some_0,
                tag_value("clk"@, text@)->Some_0,
            )]
        } else {
            Seq::empty()
        },
        _ => Seq::empty(),
    }
}

pub open spec fn run_model(m: Model, evs: Seq<Event>) -> Model
    decreases evs.len(),
{
    if evs.len() == 0 {
        m
    } else {
        model_step(run_model(m, evs.drop_last()), evs.last())
    }
}

/// The contents of the rows that a sequence of events yields, in order.
pub open spec fn run_rows(m: Model, evs: Seq<Event>) -> Seq<RowView>
    decreases evs.len(),
{
    if evs.len() == 0 {
        Seq::empty()
    } else {
        run_rows(m, evs.drop_last()) + model_rows(run_model(m, evs.drop_last()), evs.last())
    }
}

pub open spec fn row_shapes(r: Option<Row>) -> Seq<RowShape> {
    match r {
        Some(row) => seq![shape_of(row)],
        None => Seq::empty(),
    }
}

} // verus!
