//! The parser.

use crate::parser::event::{
    checkpoints_valid, complete, depth, event_views, open_until, tokens, Event, EventView,
};
use crate::parser::green::{green_tree, Tree};
use crate::parser::kind::SyntaxKind;
use crate::parser::sink::{built_tree, source_size, Sink};
use crate::parser::source::{
    lemma_significant_step, lemma_skip_from, lexeme_views, newline_before, significant, skip_from,
    source_text, Lexeme, LexemeView, Source, SourceView,
};
use rowan::GreenNode;
use vstd::prelude::*;

verus! {

/// Turns tokens into events.
pub struct Parser<'p> {
    /// The source that is being parsed.
    pub source: Source<'p>,
    /// A list of events that are later translated into a rowan syntax tree.
    pub events: Vec<Event>,
    /// A list of all errors encountered during parsing.
    pub errors: Vec<(usize, String)>,
    /// Stores the modifiers of the current global declaration.
    pub modifiers: Vec<SyntaxKind>,
}

/// A parser as contracts speak of it.
pub ghost struct ParserView {
    pub source: SourceView,
    pub events: Seq<EventView>,
    pub errors: Seq<(nat, Seq<char>)>,
    pub modifiers: Seq<SyntaxKind>,
}

/// A parser at the first token.
pub open spec fn at_start(lexemes: Seq<LexemeView>) -> ParserView {
    ParserView {
        source: SourceView { lexemes, position: 0, saved: 0 },
        events: Seq::empty(),
        errors: Seq::empty(),
        modifiers: Seq::empty(),
    }
}

/// The views of errors.
pub open spec fn error_views(errors: Seq<(usize, String)>) -> Seq<(nat, Seq<char>)> {
    errors.map_values(|e: (usize, String)| (e.0 as nat, e.1@))
}

impl ParserView {
    /// The parser behind tokens that the grammar knows nothing of.
    pub open spec fn skip(self) -> ParserView {
        ParserView { source: self.source.skip(), ..self }
    }

    /// The token that comes next, if there is one.
    pub open spec fn upcoming(self) -> Option<LexemeView> {
        self.source.skip().current()
    }

    /// The kind of the token that comes next.
    pub open spec fn peek(self) -> SyntaxKind {
        match self.upcoming() {
            Some(lexeme) => lexeme.kind,
            None => SyntaxKind::EndOfFile,
        }
    }

    /// The parser with one more event.
    pub open spec fn with_event(self, event: EventView) -> ParserView {
        ParserView { events: self.events.push(event), ..self }
    }

    /// The parser with an error at the current place.
    pub open spec fn with_error(self, msg: Seq<char>) -> ParserView {
        ParserView { errors: self.errors.push((self.source.position, msg)), ..self }
    }

    /// The parser behind the token that comes next.
    pub open spec fn advance(self) -> ParserView {
        let skipped = self.skip();
        let lexeme = self.upcoming()->0;
        ParserView {
            source: skipped.source.at(skipped.source.position + 1),
            ..skipped
        }.with_event(EventView::AddToken { kind: lexeme.kind, lexeme: lexeme.text })
    }

    /// Is the place one of the source's, or its end?
    pub open spec fn wf(self) -> bool {
        self.source.wf()
    }

    /// Do the events add the tokens in front of the current place, each once?
    pub open spec fn faithful(self) -> bool {
        tokens(self.events) == significant(
            self.source.lexemes.take(self.source.position as int),
        )
    }

    /// Can a declaration be parsed? There are tokens left, and the root is open.
    pub open spec fn ready(self) -> bool {
        &&& self.wf()
        &&& self.source.current() is Some
        &&& self.faithful()
        &&& self.events.len() > 0
        &&& checkpoints_valid(self.events)
        &&& open_until(self.events, self.events.len())
        &&& depth(self.events) == 1
    }

    /// What a routine that parses a declaration has to leave: it goes forward, adds
    /// the tokens that it passes, and ends the nodes that it begins.
    pub open spec fn follows(self, before: ParserView) -> bool {
        &&& self.wf()
        &&& self.source.lexemes == before.source.lexemes
        &&& self.source.position > before.source.position
        &&& self.faithful()
        &&& self.events.len() > 0
        &&& checkpoints_valid(self.events)
        &&& open_until(self.events, self.events.len())
        &&& depth(self.events) == depth(before.events)
    }
}

/// The root is open behind its beginning.
proof fn lemma_start_root(p: ParserView)
    requires
        p.source.position == 0,
        p.events.len() == 1,
        p.events[0] is StartNode,
    ensures
        p.faithful(),
        checkpoints_valid(p.events),
        open_until(p.events, p.events.len()),
        depth(p.events) == 1,
{
    reveal_with_fuel(depth, 2);
    reveal_with_fuel(tokens, 2);
    assert(p.source.lexemes.take(0) =~= Seq::empty());
    assert forall|i: int| 1 <= i <= p.events.len() implies depth(#[trigger] p.events.take(i))
        >= 1 by {
        assert(p.events.take(i) =~= p.events);
    }
}

/// The end of the root completes the tree.
proof fn lemma_end_root(events: Seq<EventView>)
    requires
        events.len() > 0,
        checkpoints_valid(events),
        open_until(events, events.len()),
        depth(events) == 1,
    ensures
        complete(events.push(EventView::FinishNode)),
        tokens(events.push(EventView::FinishNode)) == tokens(events),
{
    let all = events.push(EventView::FinishNode);
    assert(all.drop_last() =~= events);
    assert forall|i: int| 1 <= i <= events.len() implies depth(#[trigger] all.take(i)) >= 1 by {
        assert(all.take(i) =~= events.take(i));
    }
}

/// A token that is consumed is added, once: a parser that was faithful stays so.
pub proof fn law_advance_is_faithful(p: ParserView)
    requires
        p.wf(),
        p.faithful(),
        p.upcoming() is Some,
    ensures
        p.advance().faithful(),
        p.skip().faithful(),
{
    lemma_skip_from(p.source.lexemes, p.source.position);
    let skipped = p.skip();
    lemma_significant_step(p.source.lexemes, skipped.source.position);
    let lexeme = p.upcoming()->0;
    let event = EventView::AddToken { kind: lexeme.kind, lexeme: lexeme.text };
    assert(p.events.push(event).drop_last() =~= p.events);
}

/// Can these be the states between declarations? The first is behind the beginning
/// of the root, there are tokens left in all but the last.
pub open spec fn reaches_end(start: ParserView, states: Seq<ParserView>) -> bool {
    &&& states.len() > 0
    &&& states[0] == start.with_event(EventView::StartNode(SyntaxKind::Root))
    &&& forall|i: int|
        0 <= i < states.len() - 1 ==> (#[trigger] states[i]).source.current() is Some
    &&& states.last().source.current() is None
}

/// The tree that the states of a parser describe: the root is ended behind the
/// last.
pub open spec fn tree_of(lexemes: Seq<LexemeView>, states: Seq<ParserView>) -> Tree {
    built_tree(lexemes, states.last().events.push(EventView::FinishNode))
}

/// The result of the parser.
pub struct ParseResult {
    pub green_node: GreenNode,
}

impl<'p> Parser<'p> {
    /// Parses all declarations, by a routine of the grammar for one. The tree is the
    /// one that the events of the routine describe; whatever the routine does, it
    /// holds the whole text.
    pub fn parse<D: Fn(&mut Parser<'p>)>(self, declaration: D) -> (r: ParseResult)
        requires
            self@.source.position == 0,
            self@.events.len() == 0,
            source_size(self@.source.lexemes) <= u32::MAX,
            forall|parser: &mut Parser<'p>|
                parser@.ready() && parser@.source.lexemes == self@.source.lexemes
                    ==> call_requires(declaration, (parser,)),
            forall|parser: &mut Parser<'p>|
                parser@.ready() && #[trigger] call_ensures(declaration, (parser,), ())
                    ==> final(parser)@.follows(parser@),
        ensures
            green_tree(r.green_node).text() == source_text(self@.source.lexemes),
            exists|states: Seq<ParserView>|
                {
                    let events = states.last().events.push(EventView::FinishNode);
                    &&& #[trigger] reaches_end(self@, states)
                    &&& forall|i: int|
                        0 <= i < states.len() - 1 ==> exists|parser: &mut Parser<'p>|
                            parser@ == #[trigger] states[i] && call_ensures(declaration, (parser,), ())
                                && final(parser)@ == states[i + 1]
                    &&& complete(events)
                    &&& tokens(events) == significant(self@.source.lexemes)
                    &&& green_tree(r.green_node) == tree_of(self@.source.lexemes, states)
                },
    {
        let ghost lexemes = self@.source.lexemes;
        let mut this = self;
        this.start_node(SyntaxKind::Root);
        proof {
            lemma_start_root(this@);
        }
        let ghost mut states = seq![this@];
        while this.source.has_next()
            invariant
                this@.wf(),
                this@.source.lexemes == lexemes,
                lexemes == self@.source.lexemes,
                this@.faithful(),
                this@.events.len() > 0,
                checkpoints_valid(this@.events),
                open_until(this@.events, this@.events.len()),
                depth(this@.events) == 1,
                states.len() > 0,
                states[0] == self@.with_event(EventView::StartNode(SyntaxKind::Root)),
                states.last() == this@,
                forall|i: int|
                    0 <= i < states.len() - 1 ==> (
                    #[trigger] states[i]).source.current() is Some,
                forall|i: int|
                    0 <= i < states.len() - 1 ==> exists|parser: &mut Parser<'p>|
                        parser@ == #[trigger] states[i] && call_ensures(declaration, (parser,), ())
                            && final(parser)@ == states[i + 1],
                forall|parser: &mut Parser<'p>|
                    parser@.ready() && parser@.source.lexemes == self@.source.lexemes
                        ==> call_requires(declaration, (parser,)),
                forall|parser: &mut Parser<'p>|
                    parser@.ready() && #[trigger] call_ensures(declaration, (parser,), ())
                        ==> final(parser)@.follows(parser@),
            decreases lexemes.len() - this@.source.position,
        {
            assert(this@.ready());
            let ghost before = this@;
            declaration(&mut this);
            let ghost earlier = states;
            proof {
                states = states.push(this@);
            }
            assert forall|i: int| 0 <= i < states.len() - 1 implies (
            #[trigger] states[i]).source.current() is Some by {
                assert(states[i] == earlier[i]);
            }
            assert forall|i: int| 0 <= i < states.len() - 1 implies exists|
                parser: &mut Parser<'p>,
            |
                parser@ == #[trigger] states[i] && call_ensures(declaration, (parser,), ())
                    && final(parser)@ == states[i + 1] by {
                assert(states[i] == earlier[i]);
                if i + 1 < earlier.len() {
                    assert(states[i + 1] == earlier[i + 1]);
                }
            }
        }
        assert(lexemes.take(this@.source.position as int) =~= lexemes);
        proof {
            lemma_end_root(this@.events);
        }
        this.end_node();
        let ghost events = this@.events;
        let sink = Sink::new(this.source, this.events);
        let green_node = sink.finish();
        assert(reaches_end(self@, states));
        assert(events == states.last().events.push(EventView::FinishNode));
        assert(green_tree(green_node) == tree_of(lexemes, states));
        ParseResult { green_node }
    }

    pub open spec fn view(&self) -> ParserView {
        ParserView {
            source: self.source@,
            events: event_views(self.events@),
            errors: error_views(self.errors@),
            modifiers: self.modifiers@,
        }
    }

    /// Checks if the current token is the given kind. If yes, it consumes it.
    pub fn matches(&mut self, kind: SyntaxKind) -> (r: bool)
        requires
            old(self)@.wf(),
            kind == SyntaxKind::EndOfFile ==> old(self)@.upcoming() is Some,
        ensures
            r == (old(self)@.peek() == kind),
            final(self)@ == (if r {
                old(self)@.advance()
            } else {
                old(self)@.skip()
            }),
            final(self)@.wf(),
    {
        let matches = self.check(kind);
        if matches {
            self.advance();
        }
        matches
    }

    /// Consumes the current token if it is the given kind, or else notes an error.
    pub fn consume(&mut self, kind: SyntaxKind, msg: &str)
        requires
            old(self)@.wf(),
            kind == SyntaxKind::EndOfFile ==> old(self)@.upcoming() is Some,
        ensures
            final(self)@ == (if old(self)@.peek() == kind {
                old(self)@.advance()
            } else {
                old(self)@.skip().with_error(msg@)
            }),
            final(self)@.wf(),
    {
        if self.peek() != kind {
            self.error_at_current(msg);
        } else {
            self.advance();
        }
    }

    /// Consumes the current token if it is one of the given kinds, or else notes an
    /// error.
    pub fn consume_either(&mut self, kind1: SyntaxKind, kind2: SyntaxKind, msg: &str)
        requires
            old(self)@.wf(),
            kind1 == SyntaxKind::EndOfFile || kind2 == SyntaxKind::EndOfFile ==> old(
                self,
            )@.upcoming() is Some,
        ensures
            final(self)@ == (if old(self)@.peek() == kind1 || old(self)@.peek() == kind2 {
                old(self)@.advance()
            } else {
                old(self)@.skip().with_error(msg@)
            }),
            final(self)@.wf(),
    {
        if self.peek() != kind1 && self.peek() != kind2 {
            self.error_at_current(msg);
        } else {
            self.advance();
        }
    }

    /// Notes an error at the current place.
    pub fn error_at_current(&mut self, msg: &str)
        ensures
            final(self)@ == old(self)@.with_error(msg@),
    {
        self.errors.push((self.source.position(), msg.to_owned()));
        assert(self@.errors =~= old(self)@.with_error(msg@).errors);
    }

    /// Is the current token the given kind?
    pub fn check(&mut self, kind: SyntaxKind) -> (r: bool)
        requires
            old(self)@.wf(),
        ensures
            r == (old(self)@.peek() == kind),
            final(self)@ == old(self)@.skip(),
            final(self)@.wf(),
            final(self)@.skip() == final(self)@,
    {
        self.peek() == kind
    }

    /// Same as check, but checks for separators between expressions (`;` or newline)
    pub fn check_separator(&mut self) -> (r: bool)
        requires
            old(self)@.wf(),
        ensures
            r == (old(self)@.peek() is Semicolon || newline_before(
                old(self)@.source.lexemes,
                old(self)@.skip().source.position,
            )),
            final(self)@ == old(self)@.skip(),
            final(self)@.wf(),
    {
        self.check(SyntaxKind::Semicolon) || self.source.newline_before()
    }

    /// Is the next token the given kind? Nothing is consumed.
    pub fn check_next(&mut self, kind: SyntaxKind) -> (r: bool)
        requires
            old(self)@.wf(),
            old(self)@.upcoming() is Some,
        ensures
            r == (old(self)@.advance().peek() == kind),
            final(self)@ == (ParserView {
                source: (SourceView {
                    saved: old(self)@.source.position,
                    ..old(self)@.source
                }),
                ..old(self)@
            }),
            final(self)@.wf(),
    {
        self.source.save();
        self.advance();
        let res = self.check(kind);
        self.source.restore();
        // the token was not consumed
        let ghost events = self.events@;
        self.events.pop();
        assert(self@.events =~= event_views(events).drop_last());
        assert(event_views(events).drop_last() =~= old(self)@.events);
        res
    }

    /// Consumes the current token.
    pub fn advance(&mut self) -> (r: Lexeme<'p>)
        requires
            old(self)@.wf(),
            old(self)@.upcoming() is Some,
        ensures
            Some(r@) == old(self)@.upcoming(),
            final(self)@ == old(self)@.advance(),
            final(self)@.wf(),
    {
        self.skip_whitespace();
        let lexeme = match self.source.get_current() {
            Some(lexeme) => lexeme,
            None => vstd::pervasive::unreached(),
        };
        self.source.next();
        self.events.push(
            Event::AddToken { kind: lexeme.kind, lexeme: lexeme.lexeme.to_owned() },
        );
        assert(self@.events =~= old(self)@.advance().events);
        lexeme
    }

    /// Consumes the current token, if there is one, and gives its kind.
    pub fn advance_checked(&mut self) -> (r: SyntaxKind)
        requires
            old(self)@.wf(),
            old(self)@.source.current() is Some ==> old(self)@.upcoming() is Some,
        ensures
            if old(self)@.source.current() is None {
                r == SyntaxKind::EndOfFile && final(self)@ == old(self)@
            } else {
                r == old(self)@.upcoming()->0.kind && final(self)@ == old(self)@.advance()
            },
            final(self)@.wf(),
    {
        if self.is_at_end() {
            SyntaxKind::EndOfFile
        } else {
            self.advance().kind
        }
    }

    /// The kind of the current token.
    pub fn peek(&mut self) -> (r: SyntaxKind)
        requires
            old(self)@.wf(),
        ensures
            r == old(self)@.peek(),
            final(self)@ == old(self)@.skip(),
            final(self)@.wf(),
            final(self)@.peek() == old(self)@.peek(),
            final(self)@.skip() == final(self)@,
    {
        self.skip_whitespace();
        match self.peek_raw() {
            Some(kind) => kind,
            None => SyntaxKind::EndOfFile,
        }
    }

    /// The kind of the current token.
    pub fn peek_next(&mut self) -> (r: SyntaxKind)
        requires
            old(self)@.wf(),
        ensures
            r == old(self)@.peek(),
            final(self)@ == old(self)@.skip(),
            final(self)@.wf(),
    {
        self.skip_whitespace();
        match self.peek_raw() {
            Some(kind) => kind,
            None => SyntaxKind::EndOfFile,
        }
    }

    /// The kind of the token at the current place, be it one that the grammar
    /// knows of or not.
    pub fn peek_raw(&self) -> (r: Option<SyntaxKind>)
        ensures
            r == (match self@.source.current() {
                Some(lexeme) => Some(lexeme.kind),
                None => None,
            }),
    {
        match self.source.get_current() {
            Some(lexeme) => Some(lexeme.kind),
            None => None,
        }
    }

    /// Skips tokens that the grammar knows nothing of.
    pub fn skip_whitespace(&mut self)
        requires
            old(self)@.wf(),
        ensures
            final(self)@ == old(self)@.skip(),
            final(self)@.wf(),
            final(self)@.skip() == final(self)@,
    {
        let ghost end = skip_from(self@.source.lexemes, self@.source.position);
        loop
            invariant
                self@.wf(),
                self@ == (ParserView {
                    source: old(self)@.source.at(self@.source.position),
                    ..old(self)@
                }),
                end == skip_from(old(self)@.source.lexemes, old(self)@.source.position),
                end == skip_from(self@.source.lexemes, self@.source.position),
            ensures
                end == self@.source.position,
            decreases self@.source.lexemes.len() - self@.source.position,
        {
            let skip = match self.peek_raw() {
                Some(kind) => kind.should_skip(),
                None => false,
            };
            if !skip {
                break;
            }
            self.source.next();
        }
    }

    /// Are there no tokens left?
    pub fn is_at_end(&self) -> (r: bool)
        ensures
            r == (self@.source.current() is None),
    {
        !self.source.has_next()
    }

    /// Makes a node around what a routine of the grammar parses.
    pub fn node_with<T: FnOnce(&mut Self)>(&mut self, kind: SyntaxKind, content: T)
        requires
            forall|parser: &mut Parser<'p>|
                parser@ == old(self)@.with_event(EventView::StartNode(kind)) ==> call_requires(
                    content,
                    (parser,),
                ),
        ensures
            exists|parser: &mut Parser<'p>|
                parser@ == old(self)@.with_event(EventView::StartNode(kind)) && call_ensures(
                    content,
                    (parser,),
                    (),
                ) && final(self)@ == final(parser)@.with_event(EventView::FinishNode),
    {
        self.start_node(kind);
        content(self);
        self.end_node();
    }

    /// Begins a node.
    pub fn start_node(&mut self, kind: SyntaxKind)
        ensures
            final(self)@ == old(self)@.with_event(EventView::StartNode(kind)),
    {
        self.events.push(Event::StartNode(kind));
        assert(self@.events =~= old(self)@.events.push(EventView::StartNode(kind)));
    }

    /// Begins a node at an earlier event.
    pub fn start_node_at(&mut self, checkpoint: usize, kind: SyntaxKind)
        ensures
            final(self)@ == old(self)@.with_event(
                EventView::StartNodeAt { kind, checkpoint: checkpoint as nat },
            ),
    {
        self.events.push(Event::StartNodeAt { kind, checkpoint });
        assert(self@.events =~= old(self)@.events.push(
            EventView::StartNodeAt { kind, checkpoint: checkpoint as nat },
        ));
    }

    /// Ends the current node.
    pub fn end_node(&mut self)
        ensures
            final(self)@ == old(self)@.with_event(EventView::FinishNode),
    {
        self.events.push(Event::FinishNode);
        assert(self@.events =~= old(self)@.events.push(EventView::FinishNode));
    }

    /// The place of the next event.
    pub fn checkpoint(&self) -> (r: usize)
        ensures
            r == self@.events.len(),
    {
        self.events.len()
    }

    /// A parser at the first token.
    pub fn new(lexemes: &'p Vec<Lexeme<'p>>) -> (r: Parser<'p>)
        ensures
            r@ == at_start(lexeme_views(lexemes@)),
            r@.wf(),
    {
        let r = Parser {
            source: Source::new(lexemes),
            events: Vec::with_capacity(100),
            errors: Vec::new(),
            modifiers: Vec::with_capacity(4),
        };
        assert(r@.events =~= Seq::empty());
        assert(r@.errors =~= Seq::empty());
        r
    }
}

} // verus!
