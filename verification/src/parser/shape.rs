//! What shape the syntax tree has: the nodes that the events describe, around all
//! tokens of the source.

use crate::parser::event::{complete, lemma_reorder, reorder, tokens, EventView};
use crate::parser::green::{BuilderView, Tree};
use crate::parser::kind::{raw_kind, SyntaxKind};
use crate::parser::sink::{
    built_tree, lemma_next_token, lemma_replay, lemma_replay_last, lemma_replay_step,
    lemma_replayable, parents_valid, replay, replayable, source_size, SinkView,
};
use crate::parser::source::{significant, LexemeView};
use vstd::prelude::*;

verus! {

/// What is met on a walk through a tree.
pub ghost enum Mark {
    /// A node begins.
    Open(u16),
    /// A token.
    Leaf(u16, Seq<char>),
    /// The innermost node ends.
    Close,
}

/// A walk through a tree, from the left to the right.
pub open spec fn walk(tree: Tree) -> Seq<Mark>
    decreases tree,
{
    match tree {
        Tree::Token(kind, text) => seq![Mark::Leaf(kind, text)],
        Tree::Node(kind, children) => seq![Mark::Open(kind)] + walk_all(children, children.len())
            + seq![Mark::Close],
    }
}

/// A walk through the first `n` trees.
pub open spec fn walk_all(trees: Seq<Tree>, n: nat) -> Seq<Mark>
    decreases trees, n,
{
    if n == 0 || n > trees.len() {
        Seq::empty()
    } else {
        walk_all(trees, (n - 1) as nat) + walk(trees[n - 1])
    }
}

/// A walk through trees of which the last ones belong to nodes that are still open.
pub open spec fn walk_open(children: Seq<Tree>, parents: Seq<(u16, nat)>) -> Seq<Mark>
    decreases parents.len(),
{
    if parents.len() == 0 {
        walk_all(children, children.len())
    } else {
        let (kind, first) = parents.last();
        let own = children.skip(first as int);
        walk_open(children.take(first as int), parents.drop_last()) + seq![Mark::Open(kind)]
            + walk_all(own, own.len())
    }
}

/// What a walk meets of an event.
pub open spec fn mark(event: EventView) -> Mark {
    match event {
        EventView::StartNode(kind) => Mark::Open(raw_kind(kind)),
        EventView::StartNodeAt { kind, .. } => Mark::Open(raw_kind(kind)),
        EventView::AddToken { kind, lexeme } => Mark::Leaf(raw_kind(kind), lexeme),
        EventView::FinishNode => Mark::Close,
    }
}

/// What a walk meets of a token of the source.
pub open spec fn leaf(lexeme: LexemeView) -> Mark {
    Mark::Leaf(raw_kind(lexeme.kind), lexeme.text)
}

/// Is this the mark of a space or a comment?
pub open spec fn blank(m: Mark) -> bool {
    m matches Mark::Leaf(kind, _) && (kind == raw_kind(SyntaxKind::Whitespace) || kind == raw_kind(
        SyntaxKind::Comment,
    ))
}

/// The marks that are no spaces and comments.
pub open spec fn without_blanks(marks: Seq<Mark>) -> Seq<Mark>
    decreases marks.len(),
{
    if marks.len() == 0 {
        Seq::empty()
    } else if blank(marks.last()) {
        without_blanks(marks.drop_last())
    } else {
        without_blanks(marks.drop_last()).push(marks.last())
    }
}

/// The marks of tokens.
pub open spec fn leaves(marks: Seq<Mark>) -> Seq<Mark>
    decreases marks.len(),
{
    if marks.len() == 0 {
        Seq::empty()
    } else if marks.last() is Leaf {
        leaves(marks.drop_last()).push(marks.last())
    } else {
        leaves(marks.drop_last())
    }
}

proof fn lemma_walk_take(trees: Seq<Tree>, n: nat)
    requires
        n <= trees.len(),
    ensures
        walk_all(trees, n) == walk_all(trees.take(n as int), n),
    decreases n,
{
    if n > 0 {
        let m = (n - 1) as nat;
        lemma_walk_take(trees, m);
        lemma_walk_take(trees.take(n as int), m);
        assert(trees.take(n as int).take(m as int) =~= trees.take(m as int));
    }
}

proof fn lemma_walk_push(trees: Seq<Tree>, tree: Tree)
    ensures
        walk_all(trees.push(tree), trees.len() + 1) == walk_all(trees, trees.len()) + walk(tree),
{
    lemma_walk_take(trees.push(tree), trees.len());
    assert(trees.push(tree).take(trees.len() as int) =~= trees);
}

/// One more tree is met behind all others.
proof fn lemma_open_push(children: Seq<Tree>, parents: Seq<(u16, nat)>, tree: Tree)
    requires
        parents.len() > 0 ==> parents.last().1 <= children.len(),
    ensures
        walk_open(children.push(tree), parents) == walk_open(children, parents) + walk(tree),
{
    if parents.len() == 0 {
        lemma_walk_push(children, tree);
    } else {
        let (kind, first) = parents.last();
        let own = children.skip(first as int);
        assert(children.push(tree).take(first as int) =~= children.take(first as int));
        assert(children.push(tree).skip(first as int) =~= own.push(tree));
        lemma_walk_push(own, tree);
        let front = walk_open(children.take(first as int), parents.drop_last()) + seq![
            Mark::Open(kind),
        ];
        assert(front + (walk_all(own, own.len()) + walk(tree)) =~= (front + walk_all(
            own,
            own.len(),
        )) + walk(tree));
    }
}

/// The end of a node is met behind everything.
proof fn lemma_open_finish(b: BuilderView)
    requires
        parents_valid(b),
        b.parents.len() > 0,
    ensures
        walk_open(b.finish_node().children, b.finish_node().parents) == walk_open(
            b.children,
            b.parents,
        ).push(Mark::Close),
{
    let (kind, first) = b.parents.last();
    let own = b.children.skip(first as int);
    let node = Tree::Node(kind, own);
    let rest = b.parents.drop_last();
    if rest.len() > 0 {
        assert(rest.last() == b.parents[b.parents.len() - 2]);
    }
    lemma_open_push(b.children.take(first as int), rest, node);
    let front = walk_open(b.children.take(first as int), rest);
    assert(front + (seq![Mark::Open(kind)] + walk_all(own, own.len()) + seq![Mark::Close])
        =~= (front + seq![Mark::Open(kind)] + walk_all(own, own.len())).push(Mark::Close));
}

/// A new node is met behind everything.
proof fn lemma_open_start(b: BuilderView, kind: u16)
    ensures
        walk_open(b.start_node(kind).children, b.start_node(kind).parents) == walk_open(
            b.children,
            b.parents,
        ).push(Mark::Open(kind)),
{
    let parents = b.start_node(kind).parents;
    assert(parents.drop_last() =~= b.parents);
    assert(b.children.take(b.children.len() as int) =~= b.children);
    let front = walk_open(b.children, b.parents);
    assert(front + seq![Mark::Open(kind)] + Seq::<Mark>::empty() =~= front.push(Mark::Open(kind)));
    assert(walk_all(b.children.skip(b.children.len() as int), 0) =~= Seq::empty());
}

/// A new token is met behind everything.
proof fn lemma_open_token(b: BuilderView, kind: u16, text: Seq<char>)
    requires
        parents_valid(b),
    ensures
        walk_open(b.token(kind, text).children, b.parents) == walk_open(b.children, b.parents).push(
            Mark::Leaf(kind, text),
        ),
{
    lemma_open_push(b.children, b.parents, Tree::Token(kind, text));
    let front = walk_open(b.children, b.parents);
    assert(front + seq![Mark::Leaf(kind, text)] =~= front.push(Mark::Leaf(kind, text)));
}

/// The walk through what a sink has built.
pub open spec fn walk_sink(s: SinkView) -> Seq<Mark> {
    walk_open(s.builder.children, s.builder.parents)
}

/// The marks of tokens of the source.
pub open spec fn source_leaves(lexemes: Seq<LexemeView>) -> Seq<Mark> {
    lexemes.map_values(|l: LexemeView| leaf(l))
}

proof fn lemma_blank(lexeme: LexemeView)
    ensures
        blank(leaf(lexeme)) <==> lexeme.kind.skipped(),
{
}

proof fn lemma_source_push(lexemes: Seq<LexemeView>, position: nat)
    requires
        position < lexemes.len(),
    ensures
        source_leaves(lexemes.take(position as int + 1)) == source_leaves(
            lexemes.take(position as int),
        ).push(leaf(lexemes[position as int])),
{
    assert(source_leaves(lexemes.take(position as int + 1)) =~= source_leaves(
        lexemes.take(position as int),
    ).push(leaf(lexemes[position as int])));
}

proof fn lemma_walk_trivia(s: SinkView, lexemes: Seq<LexemeView>)
    requires
        s.position <= lexemes.len(),
        parents_valid(s.builder),
        s.builder.parents.len() > 0,
        leaves(walk_sink(s)) == source_leaves(lexemes.take(s.position as int)),
    ensures
        without_blanks(walk_sink(s.trivia(lexemes))) == without_blanks(walk_sink(s)),
        leaves(walk_sink(s.trivia(lexemes))) == source_leaves(
            lexemes.take(s.trivia(lexemes).position as int),
        ),
    decreases lexemes.len() - s.position,
{
    if s.position < lexemes.len() && lexemes[s.position as int].kind.skipped() {
        let lexeme = lexemes[s.position as int];
        let t = s.token(lexeme.kind, lexeme.text);
        lemma_open_token(s.builder, raw_kind(lexeme.kind), lexeme.text);
        lemma_blank(lexeme);
        assert(walk_sink(t).drop_last() =~= walk_sink(s));
        lemma_source_push(lexemes, s.position);
        lemma_walk_trivia(t, lexemes);
    }
}

/// The marks of events.
pub open spec fn marks(events: Seq<EventView>) -> Seq<Mark> {
    events.map_values(|e: EventView| mark(e))
}

/// What is built behind some events is what they describe.
proof fn lemma_walk_replay(lexemes: Seq<LexemeView>, events: Seq<EventView>, n: nat)
    requires
        replayable(lexemes, events),
        n <= events.len(),
    ensures
        without_blanks(walk_sink(replay(lexemes, events, n))) == marks(events.take(n as int)),
        leaves(walk_sink(replay(lexemes, events, n))) == source_leaves(
            lexemes.take(replay(lexemes, events, n).position as int),
        ),
    decreases n,
{
    if n == 0 {
        assert(walk_sink(replay(lexemes, events, 0)) =~= Seq::empty());
        assert(marks(events.take(0)) =~= Seq::empty());
        assert(source_leaves(lexemes.take(0)) =~= Seq::empty());
    } else {
        let m = (n - 1) as nat;
        let s = replay(lexemes, events, m);
        let event = events[m as int];
        let applied = s.apply(event);
        lemma_walk_replay(lexemes, events, m);
        lemma_replay(lexemes, events, m);
        assert(marks(events.take(n as int)) =~= marks(events.take(m as int)).push(mark(event)));
        if m + 1 < events.len() {
            lemma_replay_step(lexemes, events, m);
        } else {
            lemma_replay_last(lexemes, events);
        }
        match event {
            EventView::StartNode(kind) => {
                lemma_open_start(s.builder, raw_kind(kind));
            },
            EventView::StartNodeAt { .. } => {},
            EventView::AddToken { kind, lexeme } => {
                lemma_next_token(lexemes, events, m);
                lemma_open_token(s.builder, raw_kind(kind), lexeme);
                lemma_blank(lexemes[s.position as int]);
                lemma_source_push(lexemes, s.position);
            },
            EventView::FinishNode => {
                lemma_open_finish(s.builder);
            },
        }
        assert(walk_sink(applied) =~= walk_sink(s).push(mark(event)));
        assert(walk_sink(applied).drop_last() =~= walk_sink(s));
        assert(!blank(mark(event)));
        if m + 1 < events.len() {
            assert(parents_valid(applied.builder));
            lemma_walk_trivia(applied, lexemes);
        } else {
            assert(applied.trivia(lexemes) == applied);
        }
    }
}

/// A walk through the tree meets just what the events describe, in their order, when
/// spaces and comments are left out: every node with its kind around what comes
/// between its beginning and its end, and every token with its kind and text.
pub proof fn law_tree_has_the_shape_of_the_events(lexemes: Seq<LexemeView>, events: Seq<EventView>)
    requires
        complete(events),
        tokens(events) == significant(lexemes),
        source_size(lexemes) <= u32::MAX,
    ensures
        without_blanks(walk(built_tree(lexemes, events))) == marks(reorder(events, events.len())),
{
    let ordered = reorder(events, events.len());
    lemma_replayable(lexemes, events);
    lemma_walk_whole(lexemes, ordered);
    lemma_walk_replay(lexemes, ordered, ordered.len());
    assert(ordered.take(ordered.len() as int) =~= ordered);
}

/// The tokens of the tree are those of the source, each with its kind and text, in
/// their order; none is missing, spaces and comments neither.
pub proof fn law_tree_has_the_tokens_of_the_source(
    lexemes: Seq<LexemeView>,
    events: Seq<EventView>,
)
    requires
        complete(events),
        tokens(events) == significant(lexemes),
        source_size(lexemes) <= u32::MAX,
    ensures
        leaves(walk(built_tree(lexemes, events))) == source_leaves(lexemes),
{
    let ordered = reorder(events, events.len());
    lemma_replayable(lexemes, events);
    lemma_walk_whole(lexemes, ordered);
    lemma_walk_replay(lexemes, ordered, ordered.len());
    assert(lexemes.take(lexemes.len() as int) =~= lexemes);
}

proof fn lemma_walk_whole(lexemes: Seq<LexemeView>, events: Seq<EventView>)
    requires
        replayable(lexemes, events),
    ensures
        walk_sink(replay(lexemes, events, events.len())) == walk(
            replay(lexemes, events, events.len()).builder.children[0],
        ),
        replay(lexemes, events, events.len()).position == lexemes.len(),
{
    let n = (events.len() - 1) as nat;
    lemma_replay(lexemes, events, n);
    lemma_replay_last(lexemes, events);
    let s = replay(lexemes, events, n);
    let t = replay(lexemes, events, events.len());
    assert(events.take(n as int) =~= events.drop_last());
    assert(s.builder.parents.len() == 1);
    assert(t.builder.parents.len() == 0);
    let children = t.builder.children;
    assert(walk_all(children, 0) =~= Seq::empty());
    assert(walk_all(children, 1) == walk_all(children, 0) + walk(children[0]));
    assert(walk_all(children, 1) =~= walk(children[0]));
}

/// The beginning of a node that is moved stands at its checkpoint. What stood in
/// front of it stays, what stood from there on up to the old place goes one place
/// further, and what comes behind stays.
pub proof fn law_nodes_begin_at_their_checkpoint(events: Seq<EventView>, n: nat)
    requires
        n < events.len(),
        complete(events),
        events[n as int] is StartNodeAt,
    ensures
        ({
            let before = reorder(events, n);
            let now = reorder(events, n + 1);
            let to = events[n as int]->checkpoint as int;
            &&& now.len() == before.len()
            &&& to <= n
            &&& now[to] == EventView::StartNode(events[n as int]->StartNodeAt_kind)
            &&& forall|i: int| 0 <= i < to ==> #[trigger] now[i] == before[i]
            &&& forall|i: int| to < i <= n ==> #[trigger] now[i] == before[i - 1]
            &&& forall|i: int| n < i < events.len() ==> #[trigger] now[i] == events[i]
        }),
{
    lemma_reorder(events, n);
    lemma_reorder(events, n + 1);
}

/// Events that begin their nodes in place stay in their order.
pub proof fn law_events_in_place_stay(events: Seq<EventView>, n: nat)
    requires
        n <= events.len(),
        forall|i: int| 0 <= i < n ==> !(#[trigger] events[i] is StartNodeAt),
    ensures
        reorder(events, n) == events,
    decreases n,
{
    if n > 0 {
        law_events_in_place_stay(events, (n - 1) as nat);
    }
}

} // verus!
