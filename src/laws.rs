//! What holds of whole sequences of traversal events.
use crate::extractor::{
    emitted, model_rows, model_step, run_model, run_rows, run_shapes, run_tally, step, Event, Model,
    RowShape, RowView, Tally,
};
use vstd::prelude::*;

verus! {

/// How many moves a sequence of events holds.
pub open spec fn count_moves(evs: Seq<Event>) -> nat
    decreases evs.len(),
{
    if evs.len() == 0 {
        0
    } else {
        count_moves(evs.drop_last()) + if evs.last() is Move { 1nat } else { 0nat }
    }
}

/// How many end-of-headers events a sequence holds.
pub open spec fn count_end_headers(evs: Seq<Event>) -> nat
    decreases evs.len(),
{
    if evs.len() == 0 {
        0
    } else {
        count_end_headers(evs.drop_last()) + if evs.last() is EndHeaders { 1nat } else { 0nat }
    }
}

/// The ply indices of the position rows, in order.
pub open spec fn position_plies(rows: Seq<RowShape>) -> Seq<nat>
    decreases rows.len(),
{
    if rows.len() == 0 {
        Seq::empty()
    } else {
        position_plies(rows.drop_last()) + match rows.last() {
            RowShape::Position(p) => seq![p],
            _ => Seq::empty(),
        }
    }
}

/// How many header rows there are.
pub open spec fn header_count(rows: Seq<RowShape>) -> nat
    decreases rows.len(),
{
    if rows.len() == 0 {
        0
    } else {
        header_count(rows.drop_last()) + if rows.last() is Header { 1nat } else { 0nat }
    }
}

/// The events of one game: a game start and no other.
pub open spec fn one_game(evs: Seq<Event>) -> bool {
    &&& evs.len() > 0
    &&& evs[0] is BeginGame
    &&& forall|i: int| 1 <= i < evs.len() ==> !(#[trigger] evs[i] is BeginGame)
}

proof fn lemma_single(x: RowShape)
    ensures
        position_plies(seq![x]) == match x {
            RowShape::Position(p) => seq![p],
            _ => Seq::<nat>::empty(),
        },
        header_count(seq![x]) == if x is Header { 1nat } else { 0nat },
{
    assert(seq![x].drop_last() =~= Seq::<RowShape>::empty());
    assert(position_plies(Seq::<RowShape>::empty()) =~= Seq::<nat>::empty());
    assert(header_count(Seq::<RowShape>::empty()) == 0);
    assert(Seq::<nat>::empty() + position_plies(seq![x]) =~= position_plies(seq![x]));
    match x {
        RowShape::Position(p) => assert(Seq::<nat>::empty() + seq![p] =~= seq![p]),
        _ => assert(Seq::<nat>::empty() + Seq::<nat>::empty() =~= Seq::<nat>::empty()),
    }
}

proof fn lemma_plies_append(rows: Seq<RowShape>, more: Seq<RowShape>)
    requires
        more.len() <= 1,
    ensures
        position_plies(rows + more) == position_plies(rows) + position_plies(more),
        header_count(rows + more) == header_count(rows) + header_count(more),
{
    if more.len() == 0 {
        assert(rows + more =~= rows);
        assert(position_plies(more) =~= Seq::<nat>::empty());
        assert(header_count(more) == 0);
        assert(position_plies(rows) + position_plies(more) =~= position_plies(rows));
    } else {
        let x = more[0];
        assert(more =~= seq![x]);
        lemma_single(x);
        assert((rows + more).drop_last() =~= rows);
        assert((rows + more).last() == x);
    }
}

/// Within one game, the position rows carry the plies 1, 2, ..., n in order,
/// where n is the number of move events: one row per move, whether the move
/// resolved or not, and the ply counter ends at n.
pub proof fn lemma_one_position_per_move(t: Tally, evs: Seq<Event>)
    requires
        one_game(evs),
    ensures
        position_plies(run_shapes(t, evs)) == Seq::new(count_moves(evs), |i: int| (i + 1) as nat),
        run_tally(t, evs).ply == count_moves(evs),
    decreases evs.len(),
{
    let pre = evs.drop_last();
    let ev = evs.last();
    if evs.len() == 1 {
        assert(pre =~= Seq::<Event>::empty());
        assert(position_plies(Seq::<RowShape>::empty() + Seq::<RowShape>::empty()) =~= Seq::<nat>::empty());
        assert(Seq::new(0, |i: int| (i + 1) as nat) =~= Seq::<nat>::empty());
    } else {
        assert forall|i: int| 1 <= i < pre.len() implies !(#[trigger] pre[i] is BeginGame) by {
            assert(pre[i] == evs[i]);
        }
        lemma_one_position_per_move(t, pre);
        let tp = run_tally(t, pre);
        lemma_plies_append(run_shapes(t, pre), emitted(tp, ev));
        assert(!(evs[evs.len() - 1] is BeginGame));
        let n = count_moves(pre);
        if ev is Move {
            lemma_single(RowShape::Position(n + 1));
            assert(Seq::new(n, |i: int| (i + 1) as nat) + seq![n + 1] =~= Seq::new(n + 1, |i: int| (i + 1) as nat));
        } else {
            if emitted(tp, ev).len() == 1 {
                lemma_single(emitted(tp, ev)[0]);
                assert(emitted(tp, ev) =~= seq![emitted(tp, ev)[0]]);
            } else {
                assert(emitted(tp, ev) =~= Seq::<RowShape>::empty());
            }
            assert(position_plies(emitted(tp, ev)) =~= Seq::<nat>::empty());
            assert(Seq::new(n, |i: int| (i + 1) as nat) + Seq::<nat>::empty() =~= Seq::new(n, |i: int| (i + 1) as nat));
        }
    }
}

/// Header rows come from end-of-headers events alone, exactly one from each:
/// a game whose headers end once yields one header row.
pub proof fn lemma_one_header_row_per_end_of_headers(t: Tally, evs: Seq<Event>)
    ensures
        header_count(run_shapes(t, evs)) == count_end_headers(evs),
    decreases evs.len(),
{
    if evs.len() > 0 {
        let pre = evs.drop_last();
        let ev = evs.last();
        let tp = run_tally(t, pre);
        lemma_one_header_row_per_end_of_headers(t, pre);
        lemma_plies_append(run_shapes(t, pre), emitted(tp, ev));
        if emitted(tp, ev).len() == 1 {
            lemma_single(emitted(tp, ev)[0]);
            assert(emitted(tp, ev) =~= seq![emitted(tp, ev)[0]]);
        } else {
            assert(emitted(tp, ev) =~= Seq::<RowShape>::empty());
        }
    }
}

/// Input that starts with a game start yields the same rows, and ends at the
/// same ply, whatever came before it: reading it a second time repeats the
/// rows of the first.
pub proof fn lemma_replay_repeats_rows(t1: Tally, t2: Tally, evs: Seq<Event>)
    requires
        evs.len() > 0,
        evs[0] is BeginGame,
    ensures
        run_shapes(t1, evs) == run_shapes(t2, evs),
        run_tally(t1, evs).ply == run_tally(t2, evs).ply,
    decreases evs.len(),
{
    let pre = evs.drop_last();
    if evs.len() == 1 {
        assert(pre =~= Seq::<Event>::empty());
        assert(run_shapes(t1, pre) == Seq::<RowShape>::empty());
        assert(run_shapes(t2, pre) == Seq::<RowShape>::empty());
        assert(emitted(t1, evs.last()) =~= emitted(t2, evs.last()));
    } else {
        assert(pre[0] == evs[0]);
        lemma_replay_repeats_rows(t1, t2, pre);
        let a = run_tally(t1, pre);
        let b = run_tally(t2, pre);
        assert(emitted(a, evs.last()) == emitted(b, evs.last()));
        assert(step(a, evs.last()).ply == step(b, evs.last()).ply);
    }
}

/// Two states that agree on all but the game and move counters.
pub open spec fn same_but_counts(a: Model, b: Model) -> bool {
    &&& a.pos == b.pos
    &&& a.start == b.start
    &&& a.headers == b.headers
    &&& a.game_id == b.game_id
}

/// Input that starts with a game start yields rows of the same contents,
/// board strings included, from any two states that differ only in their
/// game and move counters: reading the same input again, from the position
/// and records where it started, repeats its rows exactly.
pub proof fn lemma_replay_repeats_row_contents(m1: Model, m2: Model, evs: Seq<Event>)
    requires
        evs.len() > 0,
        evs[0] is BeginGame,
        same_but_counts(m1, m2),
    ensures
        run_rows(m1, evs) == run_rows(m2, evs),
        same_but_counts(run_model(m1, evs), run_model(m2, evs)),
        run_model(m1, evs).tally.ply == run_model(m2, evs).tally.ply,
    decreases evs.len(),
{
    let pre = evs.drop_last();
    if evs.len() == 1 {
        assert(pre =~= Seq::<Event>::empty());
        assert(run_rows(m1, pre) == Seq::<RowView>::empty());
        assert(run_rows(m2, pre) == Seq::<RowView>::empty());
        assert(model_rows(m1, evs.last()) =~= model_rows(m2, evs.last()));
    } else {
        assert(pre[0] == evs[0]);
        lemma_replay_repeats_row_contents(m1, m2, pre);
        let a = run_model(m1, pre);
        let b = run_model(m2, pre);
        assert(model_rows(a, evs.last()) == model_rows(b, evs.last()));
        assert(model_step(a, evs.last()).tally.ply == model_step(b, evs.last()).tally.ply);
    }
}

/// A variation start leaves neither rows nor counters behind.
pub proof fn lemma_variation_leaves_no_trace(t: Tally, evs: Seq<Event>)
    ensures
        run_shapes(t, evs.push(Event::BeginVariation)) == run_shapes(t, evs),
        run_tally(t, evs.push(Event::BeginVariation)) == run_tally(t, evs),
{
    assert(evs.push(Event::BeginVariation).drop_last() =~= evs);
    assert(run_shapes(t, evs) + Seq::<RowShape>::empty() =~= run_shapes(t, evs));
}

} // verus!
