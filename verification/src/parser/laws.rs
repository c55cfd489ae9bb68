//! What the steps of the parser do.

use crate::lexer::token::TType;
use crate::parser::event::EventView;
use crate::parser::kind::{raw_kind, token_kind, SyntaxKind};
use crate::parser::parser::ParserView;
use crate::parser::source::{
    is_previous, lemma_skip_from, newline_before, significant, skip_from, LexemeView,
};
use vstd::prelude::*;

verus! {

/// Skipping passes spaces and comments only, and stops at the first token that is
/// neither, or at the end.
pub proof fn law_only_spaces_and_comments_are_skipped(lexemes: Seq<LexemeView>, position: nat)
    requires
        position <= lexemes.len(),
    ensures
        ({
            let end = skip_from(lexemes, position);
            &&& position <= end <= lexemes.len()
            &&& forall|i: int|
                position <= i < end ==> (#[trigger] lexemes[i]).kind is Whitespace
                    || lexemes[i].kind is Comment
            &&& end < lexemes.len() ==> !(lexemes[end as int].kind is Whitespace) && !(
            lexemes[end as int].kind is Comment)
        }),
    decreases lexemes.len() - position,
{
    if position < lexemes.len() && lexemes[position as int].kind.skipped() {
        law_only_spaces_and_comments_are_skipped(lexemes, position + 1);
    }
}

/// The parser sees all tokens but spaces and comments, in their order.
pub proof fn law_grammar_sees_all_other_tokens(lexemes: Seq<LexemeView>)
    ensures
        significant(lexemes) == lexemes.filter(
            |l: LexemeView| !(l.kind is Whitespace) && !(l.kind is Comment),
        ),
    decreases lexemes.len(),
{
    reveal(Seq::filter);
    if lexemes.len() > 0 {
        law_grammar_sees_all_other_tokens(lexemes.drop_last());
    }
}

/// The parser skips to the token that comes next, and changes nothing else. To skip
/// once more changes nothing.
pub proof fn law_skipping_changes_the_place_only(p: ParserView)
    requires
        p.wf(),
    ensures
        ({
            let q = p.skip();
            &&& q.wf()
            &&& q.source.position == skip_from(p.source.lexemes, p.source.position)
            &&& q.source.lexemes == p.source.lexemes
            &&& q.source.saved == p.source.saved
            &&& q.events == p.events
            &&& q.errors == p.errors
            &&& q.modifiers == p.modifiers
            &&& q.skip() == q
            &&& q.peek() == p.peek()
        }),
{
    lemma_skip_from(p.source.lexemes, p.source.position);
}

/// The parser consumes the next token that is no space or comment: it goes behind
/// that token and adds just it. That token has the kind that was seen before.
pub proof fn law_the_next_token_is_consumed(p: ParserView)
    requires
        p.wf(),
        p.upcoming() is Some,
    ensures
        ({
            let q = p.advance();
            let place = q.source.position - 1;
            let lexeme = p.source.lexemes[place];
            &&& p.source.position <= place < p.source.lexemes.len()
            &&& !(lexeme.kind is Whitespace) && !(lexeme.kind is Comment)
            &&& forall|i: int|
                p.source.position <= i < place ==> (#[trigger] p.source.lexemes[i]).kind
                    is Whitespace || p.source.lexemes[i].kind is Comment
            &&& q.events == p.events.push(
                EventView::AddToken { kind: lexeme.kind, lexeme: lexeme.text },
            )
            &&& p.upcoming() == Some(lexeme)
            &&& p.peek() == lexeme.kind
            &&& q.source.lexemes == p.source.lexemes
            &&& q.source.saved == p.source.saved
            &&& q.errors == p.errors
            &&& q.modifiers == p.modifiers
            &&& q.wf()
        }),
{
    law_only_spaces_and_comments_are_skipped(p.source.lexemes, p.source.position);
}

/// Behind the last token that is no space or comment, the parser sees the end.
pub proof fn law_the_end_is_seen_behind_all_tokens(p: ParserView)
    requires
        p.wf(),
    ensures
        p.upcoming() is None <==> forall|i: int|
            p.source.position <= i < p.source.lexemes.len() ==> (
            #[trigger] p.source.lexemes[i]).kind is Whitespace || p.source.lexemes[i].kind
                is Comment,
        p.upcoming() is None ==> p.peek() is EndOfFile,
{
    law_only_spaces_and_comments_are_skipped(p.source.lexemes, p.source.position);
    let end = skip_from(p.source.lexemes, p.source.position);
    if end < p.source.lexemes.len() {
        assert(!p.source.lexemes[end as int].kind.skipped());
    }
}

/// An error is noted behind all others, with the place of the parser and the
/// message; nothing else changes.
pub proof fn law_errors_are_noted_at_their_place(p: ParserView, msg: Seq<char>)
    ensures
        ({
            let q = p.with_error(msg);
            &&& q.errors.len() == p.errors.len() + 1
            &&& q.errors.drop_last() =~= p.errors
            &&& q.errors.last().0 == p.source.position
            &&& q.errors.last().1 == msg
            &&& q.events == p.events
            &&& q.source == p.source
            &&& q.modifiers == p.modifiers
        }),
{
}

/// An event goes behind all others; nothing else changes.
pub proof fn law_events_go_behind_the_others(p: ParserView, event: EventView)
    ensures
        ({
            let q = p.with_event(event);
            &&& q.events.len() == p.events.len() + 1
            &&& q.events.drop_last() =~= p.events
            &&& q.events.last() == event
            &&& q.source == p.source
            &&& q.errors == p.errors
            &&& q.modifiers == p.modifiers
        }),
{
}

/// There is a newline in front of a place only if it is in one of the spaces and
/// comments between the token before and that place; what comes from the place on
/// has no part in it.
pub proof fn law_newlines_stand_between_tokens(
    lexemes: Seq<LexemeView>,
    others: Seq<LexemeView>,
    position: nat,
)
    requires
        position <= lexemes.len(),
        position <= others.len(),
        lexemes.take(position as int) == others.take(position as int),
        newline_before(lexemes, position),
    ensures
        newline_before(others, position),
        exists|i: int|
            0 < i < position && (#[trigger] lexemes[i]).kind.skipped() && lexemes[i].text.contains(
                '\n',
            ) && forall|j: int| i < j < position ==> (#[trigger] lexemes[j]).kind.skipped(),
{
    let (previous, i) = choose|previous: int, i: int|
        #![trigger is_previous(lexemes, previous, position), lexemes[i]]
        is_previous(lexemes, previous, position) && previous < i < position
            && lexemes[i].text.contains('\n');
    assert forall|j: int| 0 <= j < position implies #[trigger] others[j] == lexemes[j] by {
        assert(lexemes.take(position as int)[j] == lexemes[j]);
        assert(others.take(position as int)[j] == others[j]);
    }
    assert(is_previous(others, previous, position));
    assert(others[i].text.contains('\n'));
}

/// A newline in one of the spaces and comments behind a token is in front of the
/// place behind them. In front of the first token there is none.
pub proof fn law_newlines_behind_a_token_are_seen(
    lexemes: Seq<LexemeView>,
    previous: int,
    position: nat,
)
    requires
        -1 <= previous < position <= lexemes.len(),
        previous >= 0 ==> !lexemes[previous].kind.skipped(),
        forall|j: int| previous < j < position ==> (#[trigger] lexemes[j]).kind.skipped(),
    ensures
        newline_before(lexemes, position) <==> previous >= 0 && exists|i: int|
            previous < i < position && (#[trigger] lexemes[i]).text.contains('\n'),
{
    if previous >= 0 {
        assert(is_previous(lexemes, previous, position));
    }
    if newline_before(lexemes, position) {
        let (found, i) = choose|found: int, i: int|
            #![trigger is_previous(lexemes, found, position), lexemes[i]]
            is_previous(lexemes, found, position) && found < i < position
                && lexemes[i].text.contains('\n');
        assert(!lexemes[found].kind.skipped());
        assert(found <= previous);
        if found < previous {
            assert(lexemes[previous].kind.skipped());
        }
    }
}

/// The type of the tokens that have a kind; nodes are no tokens.
pub open spec fn token_type(kind: SyntaxKind) -> Option<TType> {
    match kind {
        SyntaxKind::LeftParen => Some(TType::LeftParen),
        SyntaxKind::RightParen => Some(TType::RightParen),
        SyntaxKind::LeftBracket => Some(TType::LeftBracket),
        SyntaxKind::RightBracket => Some(TType::RightBracket),
        SyntaxKind::LeftBrace => Some(TType::LeftBrace),
        SyntaxKind::RightBrace => Some(TType::RightBrace),
        SyntaxKind::Comma => Some(TType::Comma),
        SyntaxKind::Dot => Some(TType::Dot),
        SyntaxKind::Colon => Some(TType::Colon),
        SyntaxKind::ColonColon => Some(TType::ColonColon),
        SyntaxKind::Semicolon => Some(TType::Semicolon),
        SyntaxKind::Arrow => Some(TType::Arrow),
        SyntaxKind::Plus => Some(TType::Plus),
        SyntaxKind::Minus => Some(TType::Minus),
        SyntaxKind::Star => Some(TType::Star),
        SyntaxKind::Slash => Some(TType::Slash),
        SyntaxKind::Bang => Some(TType::Bang),
        SyntaxKind::BangEqual => Some(TType::BangEqual),
        SyntaxKind::Equal => Some(TType::Equal),
        SyntaxKind::EqualEqual => Some(TType::EqualEqual),
        SyntaxKind::Greater => Some(TType::Greater),
        SyntaxKind::GreaterEqual => Some(TType::GreaterEqual),
        SyntaxKind::Less => Some(TType::Less),
        SyntaxKind::LessEqual => Some(TType::LessEqual),
        SyntaxKind::And => Some(TType::And),
        SyntaxKind::Or => Some(TType::Or),
        SyntaxKind::Is => Some(TType::Is),
        SyntaxKind::Identifier => Some(TType::Identifier),
        SyntaxKind::StringLiteral => Some(TType::StringLiteral),
        SyntaxKind::IntLiteral => Some(TType::IntLiteral),
        SyntaxKind::FloatLiteral => Some(TType::FloatLiteral),
        SyntaxKind::Break => Some(TType::Break),
        SyntaxKind::Class => Some(TType::Class),
        SyntaxKind::Construct => Some(TType::Construct),
        SyntaxKind::Else => Some(TType::Else),
        SyntaxKind::Enum => Some(TType::Enum),
        SyntaxKind::Export => Some(TType::Export),
        SyntaxKind::External => Some(TType::External),
        SyntaxKind::False => Some(TType::False),
        SyntaxKind::For => Some(TType::For),
        SyntaxKind::Func => Some(TType::Func),
        SyntaxKind::If => Some(TType::If),
        SyntaxKind::Impl => Some(TType::Impl),
        SyntaxKind::Import => Some(TType::Import),
        SyntaxKind::In => Some(TType::In),
        SyntaxKind::Interface => Some(TType::Interface),
        SyntaxKind::NoneLiteral => Some(TType::NoneLiteral),
        SyntaxKind::Private => Some(TType::Private),
        SyntaxKind::Public => Some(TType::Public),
        SyntaxKind::Return => Some(TType::Return),
        SyntaxKind::This => Some(TType::This),
        SyntaxKind::True => Some(TType::True),
        SyntaxKind::Val => Some(TType::Val),
        SyntaxKind::Var => Some(TType::Var),
        SyntaxKind::When => Some(TType::When),
        SyntaxKind::Whitespace => Some(TType::Whitespace),
        SyntaxKind::Comment => Some(TType::Comment),
        SyntaxKind::Error => Some(TType::Error),
        SyntaxKind::EndOfFile => Some(TType::EndOfFile),
        _ => None,
    }
}

/// The type of a token can be told from its kind.
pub proof fn law_kinds_tell_the_type_of_their_tokens(t_type: TType)
    ensures
        token_type(token_kind(t_type)) == Some(t_type),
{
}

/// Tokens of different types have different kinds, and no token has the kind of a
/// node.
pub proof fn law_token_kinds_are_told_apart(a: TType, b: TType)
    ensures
        token_kind(a) == token_kind(b) ==> a == b,
        raw_kind(token_kind(a)) < raw_kind(SyntaxKind::Root),
        token_kind(a) is Whitespace <==> a is Whitespace,
        token_kind(a) is Comment <==> a is Comment,
        token_kind(a) is EndOfFile <==> a is EndOfFile,
{
    assert(token_kind(a) == token_kind(b) ==> raw_kind(token_kind(a)) == raw_kind(token_kind(b)));
}

} // verus!
