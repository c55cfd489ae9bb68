//! What happens while tokens are parsed.

use crate::parser::kind::SyntaxKind;
use crate::parser::source::LexemeView;
use vstd::prelude::*;

verus! {

/// A step on the way to a syntax tree.
#[derive(Debug)]
#[allow(inconsistent_fields)]
pub enum Event {
    /// A node begins.
    StartNode(SyntaxKind),
    /// A node began at an earlier event.
    StartNodeAt { kind: SyntaxKind, checkpoint: usize },
    /// A token is added to the current node.
    AddToken { kind: SyntaxKind, lexeme: String },
    /// The current node ends.
    FinishNode,
}

/// A step as contracts speak of it.
#[allow(inconsistent_fields)]
pub ghost enum EventView {
    StartNode(SyntaxKind),
    StartNodeAt { kind: SyntaxKind, checkpoint: nat },
    AddToken { kind: SyntaxKind, lexeme: Seq<char> },
    FinishNode,
}

impl Event {
    pub open spec fn view(&self) -> EventView {
        match *self {
            Event::StartNode(kind) => EventView::StartNode(kind),
            Event::StartNodeAt { kind, checkpoint } => EventView::StartNodeAt {
                kind,
                checkpoint: checkpoint as nat,
            },
            Event::AddToken { kind, lexeme } => EventView::AddToken { kind, lexeme: lexeme@ },
            Event::FinishNode => EventView::FinishNode,
        }
    }
}

/// The views of a row of events.
pub open spec fn event_views(events: Seq<Event>) -> Seq<EventView> {
    events.map_values(|e: Event| e@)
}

/// How many nodes an event opens.
pub open spec fn delta(event: EventView) -> int {
    match event {
        EventView::StartNode(_) => 1,
        EventView::StartNodeAt { .. } => 1,
        EventView::AddToken { .. } => 0,
        EventView::FinishNode => -1,
    }
}

/// How many nodes are open behind events in a row.
pub open spec fn depth(events: Seq<EventView>) -> int
    decreases events.len(),
{
    if events.len() == 0 {
        0
    } else {
        depth(events.drop_last()) + delta(events.last())
    }
}

/// The tokens that are added by events in a row.
pub open spec fn tokens(events: Seq<EventView>) -> Seq<LexemeView>
    decreases events.len(),
{
    if events.len() == 0 {
        Seq::empty()
    } else {
        match events.last() {
            EventView::AddToken { kind, lexeme } => tokens(events.drop_last()).push(
                LexemeView { kind, text: lexeme },
            ),
            _ => tokens(events.drop_last()),
        }
    }
}

/// Does every node that begins at an earlier event begin at one that exists?
pub open spec fn checkpoints_valid(events: Seq<EventView>) -> bool {
    forall|i: int|
        0 <= i < events.len() ==> (#[trigger] events[i] matches EventView::StartNodeAt {
            checkpoint,
            ..
        } ==> checkpoint <= i)
}

/// Is there an open node behind each of the first `n` events?
pub open spec fn open_until(events: Seq<EventView>, n: nat) -> bool {
    forall|i: int| 1 <= i <= n ==> depth(#[trigger] events.take(i)) >= 1
}

/// Do the events make one tree, with the first event as its beginning and the
/// last as its end?
pub open spec fn complete(events: Seq<EventView>) -> bool {
    &&& events.len() > 1
    &&& checkpoints_valid(events)
    &&& open_until(events, (events.len() - 1) as nat)
    &&& depth(events) == 0
}

pub proof fn lemma_depth_add(a: Seq<EventView>, b: Seq<EventView>)
    ensures
        depth(a + b) == depth(a) + depth(b),
    decreases b.len(),
{
    if b.len() == 0 {
        assert(a + b =~= a);
    } else {
        assert((a + b).drop_last() =~= a + b.drop_last());
        lemma_depth_add(a, b.drop_last());
    }
}

pub proof fn lemma_depth_one(event: EventView)
    ensures
        depth(seq![event]) == delta(event),
{
    reveal_with_fuel(depth, 2);
    assert(seq![event].drop_last() =~= Seq::empty());
}

pub proof fn lemma_tokens_add(a: Seq<EventView>, b: Seq<EventView>)
    ensures
        tokens(a + b) == tokens(a) + tokens(b),
    decreases b.len(),
{
    if b.len() == 0 {
        assert(a + b =~= a);
        assert(tokens(a) + tokens(b) =~= tokens(a));
    } else {
        assert((a + b).drop_last() =~= a + b.drop_last());
        assert((a + b).last() == b.last());
        lemma_tokens_add(a, b.drop_last());
        match b.last() {
            EventView::AddToken { kind, lexeme } => {
                let token = LexemeView { kind, text: lexeme };
                assert(tokens(a) + tokens(b.drop_last()).push(token) =~= (tokens(a) + tokens(
                    b.drop_last(),
                )).push(token));
            },
            _ => {},
        }
    }
}

pub proof fn lemma_tokens_one(event: EventView)
    requires
        !(event is AddToken),
    ensures
        tokens(seq![event]) == Seq::<LexemeView>::empty(),
{
    reveal_with_fuel(tokens, 2);
    assert(seq![event].drop_last() =~= Seq::empty());
}

/// The events with the nodes among the first `n` that begin at earlier events
/// moved there.
pub open spec fn reorder(events: Seq<EventView>, n: nat) -> Seq<EventView>
    decreases n,
{
    if n == 0 {
        events
    } else {
        let moved = reorder(events, (n - 1) as nat);
        match events[n - 1] {
            EventView::StartNodeAt { kind, checkpoint } => moved.remove(n - 1).insert(
                checkpoint as int,
                EventView::StartNode(kind),
            ),
            _ => moved,
        }
    }
}

/// What moving the beginnings of nodes keeps: the tokens, and that there are
/// open nodes.
pub proof fn lemma_reorder(events: Seq<EventView>, n: nat)
    requires
        n <= events.len(),
        checkpoints_valid(events),
    ensures
        reorder(events, n).len() == events.len(),
        forall|i: int| n <= i < events.len() ==> #[trigger] reorder(events, n)[i] == events[i],
        forall|i: int| 0 <= i < n ==> !(#[trigger] reorder(events, n)[i] is StartNodeAt),
        forall|m: int|
            0 <= m <= events.len() ==> depth(#[trigger] reorder(events, n).take(m)) >= depth(
                events.take(m),
            ),
        depth(reorder(events, n)) == depth(events),
        tokens(reorder(events, n)) == tokens(events),
    decreases n,
{
    if n > 0 {
        let before = reorder(events, (n - 1) as nat);
        let after = reorder(events, n);
        lemma_reorder(events, (n - 1) as nat);
        assert(before[n - 1] == events[n - 1]);
        match events[n - 1] {
            EventView::StartNodeAt { kind, checkpoint } => {
                lemma_move(before, n - 1, checkpoint as int, EventView::StartNode(kind));
                assert forall|m: int| 0 <= m <= events.len() implies depth(
                    #[trigger] after.take(m),
                ) >= depth(events.take(m)) by {
                    assert(depth(before.take(m)) >= depth(events.take(m)));
                }
                assert forall|i: int| n <= i < events.len() implies #[trigger] after[i]
                    == events[i] by {
                    assert(before[i] == events[i]);
                }
                assert forall|i: int| 0 <= i < n implies !(#[trigger] after[i]
                    is StartNodeAt) by {
                    if i < checkpoint {
                        assert(after[i] == before[i]);
                    } else if i > checkpoint {
                        assert(after[i] == before[i - 1]);
                    }
                }
            },
            _ => {},
        }
    }
}

/// The beginning of a node is moved to an earlier place.
proof fn lemma_move(events: Seq<EventView>, from: int, to: int, start: EventView)
    requires
        0 <= to <= from < events.len(),
        events[from] is StartNodeAt,
        start is StartNode,
    ensures
        events.remove(from).insert(to, start).len() == events.len(),
        forall|m: int|
            0 <= m <= events.len() ==> depth(
                #[trigger] events.remove(from).insert(to, start).take(m),
            ) >= depth(events.take(m)),
        depth(events.remove(from).insert(to, start)) == depth(events),
        tokens(events.remove(from).insert(to, start)) == tokens(events),
{
    let after = events.remove(from).insert(to, start);
    assert forall|m: int| 0 <= m <= events.len() implies depth(#[trigger] after.take(m)) >= depth(
        events.take(m),
    ) && (m > from ==> depth(after.take(m)) == depth(events.take(m))) by {
        if m <= to {
            assert(after.take(m) =~= events.take(m));
        } else if m <= from {
            let front = events.take(to);
            let middle = events.subrange(to, m - 1);
            assert(after.take(m) =~= (front + seq![start]) + middle);
            assert(events.take(m) =~= (front + middle) + seq![events[m - 1]]);
            lemma_depth_add(front + seq![start], middle);
            lemma_depth_add(front, seq![start]);
            lemma_depth_add(front + middle, seq![events[m - 1]]);
            lemma_depth_add(front, middle);
            lemma_depth_one(start);
            lemma_depth_one(events[m - 1]);
        } else {
            lemma_move_all(events, from, to, start, m);
        }
    }
    assert(after.take(events.len() as int) =~= after);
    assert(events.take(events.len() as int) =~= events);
    lemma_move_all(events, from, to, start, events.len() as int);
}

proof fn lemma_move_all(events: Seq<EventView>, from: int, to: int, start: EventView, m: int)
    requires
        0 <= to <= from < m <= events.len(),
        events[from] is StartNodeAt,
        start is StartNode,
    ensures
        depth(events.remove(from).insert(to, start).take(m)) == depth(events.take(m)),
        tokens(events.remove(from).insert(to, start).take(m)) == tokens(events.take(m)),
{
    let after = events.remove(from).insert(to, start);
    let front = events.take(to);
    let middle = events.subrange(to, from);
    let back = events.subrange(from + 1, m);
    let moved = seq![events[from]];
    assert(after.take(m) =~= ((front + seq![start]) + middle) + back);
    assert(events.take(m) =~= ((front + middle) + moved) + back);
    lemma_depth_add((front + seq![start]) + middle, back);
    lemma_depth_add(front + seq![start], middle);
    lemma_depth_add(front, seq![start]);
    lemma_depth_add((front + middle) + moved, back);
    lemma_depth_add(front + middle, moved);
    lemma_depth_add(front, middle);
    lemma_depth_one(start);
    lemma_depth_one(events[from]);
    lemma_tokens_add((front + seq![start]) + middle, back);
    lemma_tokens_add(front + seq![start], middle);
    lemma_tokens_add(front, seq![start]);
    lemma_tokens_add((front + middle) + moved, back);
    lemma_tokens_add(front + middle, moved);
    lemma_tokens_add(front, middle);
    lemma_tokens_one(start);
    lemma_tokens_one(events[from]);
    assert(tokens(front) + tokens(seq![start]) =~= tokens(front));
    assert((tokens(front) + tokens(middle)) + tokens(moved) =~= tokens(front) + tokens(middle));
}

} // verus!
