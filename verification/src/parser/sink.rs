//! Builds the syntax tree out of events.

use crate::parser::event::{
    complete, depth, event_views, lemma_reorder, open_until, reorder, tokens, Event, EventView,
};
use crate::parser::green::{
    self, builder_view, green_tree, lemma_finish_node, lemma_tree_push, tree_size, tree_text,
    BuilderView, Tree,
};
use crate::parser::kind::{raw_kind, SyntaxKind};
use crate::parser::source::{lemma_significant_step, significant, source_text, LexemeView, Source};
use rowan::{GreenNode, GreenNodeBuilder};
use vstd::prelude::*;
use vstd::utf8::encode_utf8;

verus! {

/// A tree that is being built, and the place in the source up to which it goes.
pub ghost struct SinkView {
    pub builder: BuilderView,
    pub position: nat,
}

impl SinkView {
    /// One more token, which is the current one of the source.
    pub open spec fn token(self, kind: SyntaxKind, text: Seq<char>) -> SinkView {
        SinkView {
            builder: self.builder.token(raw_kind(kind), text),
            position: self.position + 1,
        }
    }

    /// All tokens from the current one on that the grammar knows nothing of.
    pub open spec fn trivia(self, lexemes: Seq<LexemeView>) -> SinkView
        decreases lexemes.len() - self.position,
    {
        if self.position < lexemes.len() && lexemes[self.position as int].kind.skipped() {
            let lexeme = lexemes[self.position as int];
            self.token(lexeme.kind, lexeme.text).trivia(lexemes)
        } else {
            self
        }
    }

    /// What an event does to the tree.
    pub open spec fn apply(self, event: EventView) -> SinkView {
        match event {
            EventView::StartNode(kind) => SinkView {
                builder: self.builder.start_node(raw_kind(kind)),
                ..self
            },
            EventView::StartNodeAt { .. } => self,
            EventView::AddToken { kind, lexeme } => self.token(kind, lexeme),
            EventView::FinishNode => SinkView { builder: self.builder.finish_node(), ..self },
        }
    }
}

/// The tree behind the first `n` events. Behind every event, tokens that the
/// grammar knows nothing of are added.
pub open spec fn replay(lexemes: Seq<LexemeView>, events: Seq<EventView>, n: nat) -> SinkView
    decreases n,
{
    if n == 0 {
        SinkView {
            builder: BuilderView { children: Seq::empty(), parents: Seq::empty() },
            position: 0,
        }
    } else {
        replay(lexemes, events, (n - 1) as nat).apply(events[n - 1]).trivia(lexemes)
    }
}

/// The tree that events make out of a source.
pub open spec fn built_tree(lexemes: Seq<LexemeView>, events: Seq<EventView>) -> Tree {
    replay(lexemes, reorder(events, events.len()), events.len()).builder.children[0]
}

/// The number of bytes of the text of tokens in a row.
pub open spec fn source_size(lexemes: Seq<LexemeView>) -> nat
    decreases lexemes.len(),
{
    if lexemes.len() == 0 {
        0
    } else {
        source_size(lexemes.drop_last()) + encode_utf8(lexemes.last().text).len()
    }
}

/// The invariant of a tree that is being built: it holds all of the source up to
/// the place.
pub open spec fn holds_source(s: SinkView, lexemes: Seq<LexemeView>) -> bool {
    &&& s.position <= lexemes.len()
    &&& tree_text(s.builder.children, s.builder.children.len()) == source_text(
        lexemes.take(s.position as int),
    )
    &&& tree_size(s.builder.children, s.builder.children.len()) == source_size(
        lexemes.take(s.position as int),
    )
}

/// The invariant of open nodes: each begins at a tree that exists, or behind all
/// trees.
pub open spec fn parents_valid(b: BuilderView) -> bool {
    &&& forall|i: int|
        0 <= i < b.parents.len() ==> (#[trigger] b.parents[i]).1 <= b.children.len()
    &&& forall|i: int, j: int|
        0 <= i <= j < b.parents.len() ==> (#[trigger] b.parents[i]).1 <= (
        #[trigger] b.parents[j]).1
    &&& b.parents.len() > 0 ==> b.parents[0].1 == 0
    &&& b.parents.len() == 0 ==> b.children.len() <= 1
}

proof fn lemma_source_step(lexemes: Seq<LexemeView>, position: nat)
    requires
        position < lexemes.len(),
    ensures
        source_size(lexemes.take(position as int + 1)) == source_size(
            lexemes.take(position as int),
        ) + encode_utf8(lexemes[position as int].text).len(),
{
    assert(lexemes.take(position as int + 1).drop_last() =~= lexemes.take(position as int));
}

proof fn lemma_source_size(lexemes: Seq<LexemeView>, position: nat)
    requires
        position <= lexemes.len(),
    ensures
        source_size(lexemes.take(position as int)) <= source_size(lexemes),
    decreases lexemes.len() - position,
{
    if position < lexemes.len() {
        lemma_source_step(lexemes, position);
        lemma_source_size(lexemes, position + 1);
    } else {
        assert(lexemes.take(position as int) =~= lexemes);
    }
}

/// A token of the source goes to the tree.
proof fn lemma_token(s: SinkView, lexemes: Seq<LexemeView>)
    requires
        s.position < lexemes.len(),
        holds_source(s, lexemes),
        parents_valid(s.builder),
        s.builder.parents.len() > 0,
    ensures
        ({
            let lexeme = lexemes[s.position as int];
            let after = s.token(lexeme.kind, lexeme.text);
            &&& holds_source(after, lexemes)
            &&& parents_valid(after.builder)
            &&& after.builder.parents == s.builder.parents
            &&& after.builder.children.len() == s.builder.children.len() + 1
        }),
{
    let lexeme = lexemes[s.position as int];
    lemma_tree_push(s.builder.children, Tree::Token(raw_kind(lexeme.kind), lexeme.text));
    lemma_significant_step(lexemes, s.position);
    lemma_source_step(lexemes, s.position);
}

/// Tokens that the grammar knows nothing of go to the tree.
proof fn lemma_trivia(s: SinkView, lexemes: Seq<LexemeView>)
    requires
        holds_source(s, lexemes),
        parents_valid(s.builder),
        s.builder.parents.len() > 0,
    ensures
        holds_source(s.trivia(lexemes), lexemes),
        parents_valid(s.trivia(lexemes).builder),
        s.trivia(lexemes).builder.parents == s.builder.parents,
        s.trivia(lexemes).position < lexemes.len() ==> !lexemes[s.trivia(
            lexemes,
        ).position as int].kind.skipped(),
        significant(lexemes.take(s.trivia(lexemes).position as int)) == significant(
            lexemes.take(s.position as int),
        ),
        s.position == lexemes.len() ==> s.trivia(lexemes) == s,
    decreases lexemes.len() - s.position,
{
    if s.position < lexemes.len() && lexemes[s.position as int].kind.skipped() {
        let lexeme = lexemes[s.position as int];
        lemma_token(s, lexemes);
        lemma_significant_step(lexemes, s.position);
        lemma_trivia(s.token(lexeme.kind, lexeme.text), lexemes);
    }
}

/// What holds behind each of the events but the last.
pub open spec fn replay_inv(lexemes: Seq<LexemeView>, events: Seq<EventView>, n: nat) -> bool {
    let s = replay(lexemes, events, n);
    &&& holds_source(s, lexemes)
    &&& parents_valid(s.builder)
    &&& s.builder.parents.len() == depth(events.take(n as int))
    &&& significant(lexemes.take(s.position as int)) == tokens(events.take(n as int))
    &&& n > 0 && s.position < lexemes.len() ==> !lexemes[s.position as int].kind.skipped()
    &&& n == 0 ==> s.builder.children.len() == 0
}

/// Can the events be replayed on the source? They make one tree, and add the
/// tokens of the source that the grammar knows of.
pub open spec fn replayable(lexemes: Seq<LexemeView>, events: Seq<EventView>) -> bool {
    &&& events.len() > 1
    &&& forall|i: int| 0 <= i < events.len() ==> !(#[trigger] events[i] is StartNodeAt)
    &&& open_until(events, (events.len() - 1) as nat)
    &&& depth(events) == 0
    &&& tokens(events) == significant(lexemes)
    &&& source_size(lexemes) <= u32::MAX
}

/// The tokens of more events go on where those of fewer end.
proof fn lemma_tokens_prefix(events: Seq<EventView>, n: nat)
    requires
        n <= events.len(),
    ensures
        tokens(events.take(n as int)).len() <= tokens(events).len(),
        tokens(events).take(tokens(events.take(n as int)).len() as int) == tokens(
            events.take(n as int),
        ),
    decreases events.len() - n,
{
    if n < events.len() {
        lemma_tokens_prefix(events, n + 1);
        let shorter = tokens(events.take(n as int));
        let longer = tokens(events.take(n as int + 1));
        assert(events.take(n as int + 1).drop_last() =~= events.take(n as int));
        assert(longer.take(shorter.len() as int) =~= shorter);
        assert(tokens(events).take(shorter.len() as int) =~= tokens(events).take(
            longer.len() as int,
        ).take(shorter.len() as int));
    } else {
        assert(events.take(n as int) =~= events);
        assert(tokens(events).take(tokens(events).len() as int) =~= tokens(events));
    }
}

/// The tokens of the source that the grammar knows of, up to a place, are the
/// first of all of them.
proof fn lemma_significant_prefix(lexemes: Seq<LexemeView>, position: nat)
    requires
        position <= lexemes.len(),
    ensures
        significant(lexemes.take(position as int)).len() <= significant(lexemes).len(),
        position < lexemes.len() && !lexemes[position as int].kind.skipped() ==> {
            let k = significant(lexemes.take(position as int)).len();
            k < significant(lexemes).len() && significant(lexemes)[k as int]
                == lexemes[position as int]
        },
        significant(lexemes).take(
            significant(lexemes.take(position as int)).len() as int,
        ) == significant(lexemes.take(position as int)),
    decreases lexemes.len() - position,
{
    let shorter = significant(lexemes.take(position as int));
    if position < lexemes.len() {
        lemma_significant_step(lexemes, position);
        lemma_significant_prefix(lexemes, position + 1);
        let longer = significant(lexemes.take(position as int + 1));
        assert(longer.take(shorter.len() as int) =~= shorter);
        assert(significant(lexemes).take(shorter.len() as int) =~= significant(lexemes).take(
            longer.len() as int,
        ).take(shorter.len() as int));
        if !lexemes[position as int].kind.skipped() {
            assert(significant(lexemes).take(longer.len() as int)[shorter.len() as int]
                == longer[shorter.len() as int]);
        }
    } else {
        assert(lexemes.take(position as int) =~= lexemes);
        assert(significant(lexemes).take(shorter.len() as int) =~= shorter);
    }
}

/// A step of the replay, but for the last one.
pub proof fn lemma_replay_step(lexemes: Seq<LexemeView>, events: Seq<EventView>, n: nat)
    requires
        replayable(lexemes, events),
        n + 1 < events.len(),
        replay_inv(lexemes, events, n),
    ensures
        replay_inv(lexemes, events, n + 1),
        ({
            let s = replay(lexemes, events, n);
            &&& events[n as int] is FinishNode ==> s.builder.can_finish_node()
            &&& s.apply(events[n as int]).builder.parents.len() > 0
        }),
        events[n as int] is AddToken ==> replay(lexemes, events, n).position < lexemes.len(),
{
    let s = replay(lexemes, events, n);
    let event = events[n as int];
    let applied = s.apply(event);
    assert(events.take(n as int + 1).drop_last() =~= events.take(n as int));
    assert(depth(events.take(n as int + 1)) >= 1);
    lemma_source_size(lexemes, s.position);
    match event {
        EventView::StartNode(kind) => {},
        EventView::StartNodeAt { .. } => {},
        EventView::AddToken { kind, lexeme } => {
            lemma_next_token(lexemes, events, n);
            lemma_token(s, lexemes);
            lemma_significant_step(lexemes, s.position);
        },
        EventView::FinishNode => {
            lemma_finish_node(s.builder);
            assert(s.builder.parents.len() >= 2);
            let first = s.builder.parents.last().1;
            assert forall|i: int| 0 <= i < applied.builder.parents.len() implies (
            #[trigger] applied.builder.parents[i]).1 <= applied.builder.children.len() by {
                assert(s.builder.parents[i].1 <= first);
            }
        },
    }
    assert(holds_source(applied, lexemes));
    assert(parents_valid(applied.builder));
    assert(applied.builder.parents.len() == depth(events.take(n as int + 1)));
    assert(significant(lexemes.take(applied.position as int)) == tokens(
        events.take(n as int + 1),
    ));
    lemma_trivia(applied, lexemes);
}

/// The token that an event adds is the next one of the source.
pub proof fn lemma_next_token(lexemes: Seq<LexemeView>, events: Seq<EventView>, n: nat)
    requires
        replayable(lexemes, events),
        n < events.len(),
        replay_inv(lexemes, events, n),
        events[n as int] is AddToken,
    ensures
        n > 0,
        replay(lexemes, events, n).position < lexemes.len(),
        lexemes[replay(lexemes, events, n).position as int].kind == events[n as int]->AddToken_kind,
        lexemes[replay(lexemes, events, n).position as int].text
            == events[n as int]->AddToken_lexeme,
        !lexemes[replay(lexemes, events, n).position as int].kind.skipped(),
{
    let s = replay(lexemes, events, n);
    let before = tokens(events.take(n as int));
    assert(events.take(n as int + 1).drop_last() =~= events.take(n as int));
    if n == 0 {
        assert(depth(events.take(1)) == 0) by {
            reveal_with_fuel(depth, 2);
        }
    }
    lemma_tokens_prefix(events, n + 1);
    let token = LexemeView {
        kind: events[n as int]->AddToken_kind,
        text: events[n as int]->AddToken_lexeme,
    };
    assert(tokens(events.take(n as int + 1)) == before.push(token));
    assert(tokens(events)[before.len() as int] == token) by {
        assert(tokens(events).take(before.len() as int + 1)[before.len() as int] == token);
    }
    lemma_significant_prefix(lexemes, s.position);
    if s.position >= lexemes.len() {
        assert(lexemes.take(s.position as int) =~= lexemes);
    }
}

/// The last step of the replay: the whole source is in one tree.
pub proof fn lemma_replay_last(lexemes: Seq<LexemeView>, events: Seq<EventView>)
    requires
        replayable(lexemes, events),
        replay_inv(lexemes, events, (events.len() - 1) as nat),
    ensures
        events.last() is FinishNode,
        replay(lexemes, events, (events.len() - 1) as nat).builder.can_finish_node(),
        replay(lexemes, events, (events.len() - 1) as nat).position == lexemes.len(),
        replay(lexemes, events, events.len()).builder.children.len() == 1,
        replay(lexemes, events, events.len()).builder.children[0] is Node,
        replay(lexemes, events, events.len()).builder.children[0].text() == source_text(lexemes),
{
    let n = (events.len() - 1) as nat;
    let s = replay(lexemes, events, n);
    assert(events.take(n as int) =~= events.drop_last());
    assert(depth(events.take(n as int)) >= 1);
    assert(events.last() is FinishNode);
    assert(tokens(events.take(n as int)) == tokens(events));
    lemma_significant_prefix(lexemes, s.position);
    assert(s.position == lexemes.len());
    assert(lexemes.take(s.position as int) =~= lexemes);
    lemma_finish_node(s.builder);
    let applied = s.apply(events.last());
    assert(applied.trivia(lexemes) == applied);
    assert(s.builder.parents[0].1 == 0);
    let children = applied.builder.children;
    assert(children.len() == 1);
    assert(tree_text(children, 1) == children[0].text()) by {
        reveal_with_fuel(tree_text, 2);
        assert(Seq::<char>::empty() + children[0].text() =~= children[0].text());
    }
}

/// The text of the tree that events make out of a source is the text of the
/// source, whatever nodes the events make.
pub proof fn law_tree_keeps_the_text(lexemes: Seq<LexemeView>, events: Seq<EventView>)
    requires
        complete(events),
        tokens(events) == significant(lexemes),
        source_size(lexemes) <= u32::MAX,
    ensures
        built_tree(lexemes, events).text() == source_text(lexemes),
{
    let ordered = reorder(events, events.len());
    lemma_replayable(lexemes, events);
    lemma_replay(lexemes, ordered, (ordered.len() - 1) as nat);
    lemma_replay_last(lexemes, ordered);
}

/// Events in their order can be replayed.
pub proof fn lemma_replayable(lexemes: Seq<LexemeView>, events: Seq<EventView>)
    requires
        complete(events),
        tokens(events) == significant(lexemes),
        source_size(lexemes) <= u32::MAX,
    ensures
        replayable(lexemes, reorder(events, events.len())),
        reorder(events, events.len()).len() == events.len(),
{
    let ordered = reorder(events, events.len());
    lemma_reorder(events, events.len());
    assert forall|i: int| 1 <= i <= ordered.len() - 1 implies depth(
        #[trigger] ordered.take(i),
    ) >= 1 by {
        assert(depth(events.take(i)) >= 1);
    }
}

pub proof fn lemma_replay(lexemes: Seq<LexemeView>, events: Seq<EventView>, n: nat)
    requires
        replayable(lexemes, events),
        n < events.len(),
    ensures
        replay_inv(lexemes, events, n),
    decreases n,
{
    if n == 0 {
        lemma_replay_start(lexemes, events);
    } else {
        lemma_replay(lexemes, events, (n - 1) as nat);
        lemma_replay_step(lexemes, events, (n - 1) as nat);
    }
}

pub proof fn lemma_replay_start(lexemes: Seq<LexemeView>, events: Seq<EventView>)
    ensures
        replay_inv(lexemes, events, 0),
{
    assert(lexemes.take(0) =~= Seq::empty());
    assert(events.take(0) =~= Seq::empty());
}

/// Builds a syntax tree.
pub struct Sink<'t> {
    pub builder: GreenNodeBuilder<'static>,
    pub source: Source<'t>,
    pub events: Vec<Event>,
}

impl<'t> Sink<'t> {
    pub open spec fn view(&self) -> SinkView {
        SinkView { builder: builder_view(self.builder), position: self.source@.position }
    }

    /// A sink for the events of a source.
    pub fn new(source: Source<'t>, events: Vec<Event>) -> (r: Sink<'t>)
        ensures
            r@ == (SinkView {
                builder: BuilderView { children: Seq::empty(), parents: Seq::empty() },
                position: 0,
            }),
            r.source@.lexemes == source@.lexemes,
            r.events == events,
    {
        Sink { builder: green::new_builder(), source: Source::new(source.lexemes), events }
    }

    /// Moves the beginnings of nodes to the events that they begin at.
    fn reorder(&mut self)
        requires
            complete(event_views(old(self).events@)),
        ensures
            event_views(final(self).events@) == reorder(
                event_views(old(self).events@),
                old(self).events@.len(),
            ),
            final(self).events@.len() == old(self).events@.len(),
            final(self)@ == old(self)@,
            final(self).source == old(self).source,
    {
        let ghost events = event_views(self.events@);
        let mut i: usize = 0;
        while i < self.events.len()
            invariant
                i <= self.events@.len(),
                self.events@.len() == events.len(),
                complete(events),
                event_views(self.events@) == reorder(events, i as nat),
                self@ == old(self)@,
                self.source == old(self).source,
            decreases self.events.len() - i,
        {
            proof {
                lemma_reorder(events, i as nat);
            }
            assert(event_views(self.events@)[i as int] == events[i as int]);
            let ghost before = self.events@;
            let at = match &self.events[i] {
                Event::StartNodeAt { kind, checkpoint } => Some((*kind, *checkpoint)),
                _ => None,
            };
            match at {
                Some((kind, checkpoint)) => {
                    assert(events[i as int] == (EventView::StartNodeAt {
                        kind,
                        checkpoint: checkpoint as nat,
                    }));
                    self.events.remove(i);
                    assert(event_views(self.events@) =~= event_views(before).remove(i as int));
                    let ghost removed = self.events@;
                    self.events.insert(checkpoint, Event::StartNode(kind));
                    assert(event_views(self.events@) =~= event_views(removed).insert(
                        checkpoint as int,
                        EventView::StartNode(kind),
                    ));
                },
                None => {},
            }
            i = i + 1;
        }
    }

    /// Adds the current token of the source.
    fn token(&mut self, kind: SyntaxKind, lexeme: &str)
        requires
            old(self).source@.current() is Some,
        ensures
            final(self)@ == old(self)@.token(kind, lexeme@),
            final(self).source@ == old(self).source@.at(old(self).source@.position + 1),
            final(self).events == old(self).events,
    {
        green::token(&mut self.builder, kind.to_raw(), lexeme);
        self.source.next();
    }

    /// Adds all tokens from the current one on that the grammar knows nothing of.
    fn skip_whitespace(&mut self)
        ensures
            final(self)@ == old(self)@.trivia(old(self).source@.lexemes),
            final(self).source@.lexemes == old(self).source@.lexemes,
            final(self).events == old(self).events,
    {
        loop
            invariant
                self.source@.lexemes == old(self).source@.lexemes,
                self.events == old(self).events,
                old(self)@.trivia(self.source@.lexemes) == self@.trivia(self.source@.lexemes),
            ensures
                self@.trivia(self.source@.lexemes) == self@,
            decreases self.source@.lexemes.len() - self.source@.position,
        {
            match self.source.get_current() {
                Some(lexeme) => {
                    if !lexeme.kind.should_skip() {
                        break;
                    }
                    self.token(lexeme.kind, lexeme.lexeme);
                },
                None => {
                    break;
                },
            }
        }
    }

    /// Replays an event.
    fn apply(&mut self, i: usize)
        requires
            i < old(self).events@.len(),
            old(self).events@[i as int] is AddToken ==> old(self).source@.current() is Some,
            old(self).events@[i as int] is FinishNode ==> old(self)@.builder.can_finish_node(),
        ensures
            final(self)@ == old(self)@.apply(old(self).events@[i as int]@),
            final(self).source@.lexemes == old(self).source@.lexemes,
            final(self).events == old(self).events,
    {
        match &self.events[i] {
            Event::StartNode(kind) => {
                green::start_node(&mut self.builder, kind.to_raw());
            },
            Event::StartNodeAt { .. } => {},
            Event::AddToken { kind, lexeme } => {
                green::token(&mut self.builder, kind.to_raw(), lexeme.as_str());
                self.source.next();
            },
            Event::FinishNode => {
                green::finish_node(&mut self.builder);
            },
        }
    }

    /// Builds the tree. It holds the whole text of the source.
    pub fn finish(self) -> (r: GreenNode)
        requires
            self@.position == 0,
            self@.builder == (BuilderView { children: Seq::empty(), parents: Seq::empty() }),
            complete(event_views(self.events@)),
            tokens(event_views(self.events@)) == significant(self.source@.lexemes),
            source_size(self.source@.lexemes) <= u32::MAX,
        ensures
            green_tree(r) == built_tree(self.source@.lexemes, event_views(self.events@)),
            green_tree(r).text() == source_text(self.source@.lexemes),
    {
        let ghost lexemes = self.source@.lexemes;
        let ghost given = event_views(self.events@);
        let mut this = self;
        this.reorder();
        let ghost events = event_views(this.events@);
        proof {
            lemma_replayable(lexemes, given);
            law_tree_keeps_the_text(lexemes, given);
        }
        let mut i: usize = 0;
        while i < this.events.len()
            invariant
                i <= this.events@.len(),
                events == event_views(this.events@),
                events.len() == this.events@.len(),
                replayable(lexemes, events),
                this.source@.lexemes == lexemes,
                this@ == replay(lexemes, events, i as nat),
            decreases this.events.len() - i,
        {
            proof {
                assert(events[i as int] == this.events@[i as int]@);
                lemma_replay(lexemes, events, i as nat);
                if i + 1 < events.len() {
                    lemma_replay_step(lexemes, events, i as nat);
                } else {
                    lemma_replay_last(lexemes, events);
                }
            }
            this.apply(i);
            this.skip_whitespace();
            i = i + 1;
        }
        proof {
            lemma_replay(lexemes, events, (events.len() - 1) as nat);
            lemma_replay_last(lexemes, events);
        }
        green::finish(this.builder)
    }
}

} // verus!
