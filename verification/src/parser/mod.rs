//! The parser, which turns tokens into a syntax tree that keeps the whole text.

pub mod event;
pub mod green;
pub mod kind;
pub mod laws;
pub mod parser;
pub mod shape;
pub mod sink;
pub mod source;

pub use parser::{ParseResult, Parser};

use crate::lexer::token::TType;
use crate::parser::event::{complete, tokens, EventView};
use crate::parser::green::green_tree;
use crate::parser::kind::{token_kind, SyntaxKind};
use crate::parser::parser::{at_start, reaches_end, tree_of, ParserView};
use crate::parser::sink::source_size;
use crate::parser::source::{lexeme_views, significant, source_text, Lexeme, LexemeView};
use vstd::prelude::*;

verus! {

/// The tokens of a lexer, as the parser sees them.
pub open spec fn input_views(input: Seq<(TType, String)>) -> Seq<LexemeView> {
    input.map_values(|t: (TType, String)| LexemeView { kind: token_kind(t.0), text: t.1@ })
}

/// Parses the tokens of a lexer, by a routine of the grammar for a declaration. The
/// tree is the one that the events of the routine describe, and holds the whole
/// text.
pub fn parse<D: for <'p>Fn(&mut Parser<'p>)>(input: &Vec<(TType, String)>, declaration: D) -> (r:
    ParseResult)
    requires
        source_size(input_views(input@)) <= u32::MAX,
        forall|parser: &mut Parser|
            parser@.ready() && parser@.source.lexemes == input_views(input@) ==> call_requires(
                declaration,
                (parser,),
            ),
        forall|parser: &mut Parser|
            parser@.ready() && #[trigger] call_ensures(declaration, (parser,), ())
                ==> final(parser)@.follows(parser@),
    ensures
        green_tree(r.green_node).text() == source_text(input_views(input@)),
        exists|states: Seq<ParserView>|
            {
                let events = states.last().events.push(EventView::FinishNode);
                &&& #[trigger] reaches_end(at_start(input_views(input@)), states)
                &&& forall|i: int|
                    0 <= i < states.len() - 1 ==> exists|parser: &mut Parser|
                        parser@ == #[trigger] states[i] && call_ensures(declaration, (parser,), ())
                            && final(parser)@ == states[i + 1]
                &&& complete(events)
                &&& tokens(events) == significant(input_views(input@))
                &&& green_tree(r.green_node) == tree_of(input_views(input@), states)
            },
{
    let mut lexemes: Vec<Lexeme> = Vec::new();
    let mut i: usize = 0;
    while i < input.len()
        invariant
            i <= input@.len(),
            lexeme_views(lexemes@) == input_views(input@.take(i as int)),
        decreases input.len() - i,
    {
        let lexeme = Lexeme {
            kind: SyntaxKind::from_token(input[i].0),
            lexeme: input[i].1.as_str(),
        };
        let ghost before = lexemes@;
        lexemes.push(lexeme);
        assert(lexeme_views(lexemes@) =~= lexeme_views(before).push(lexeme@));
        assert(input_views(input@.take(i + 1)) =~= input_views(input@.take(i as int)).push(
            lexeme@,
        ));
        i = i + 1;
    }
    assert(input@.take(i as int) =~= input@);
    let parser = Parser::new(&lexemes);
    assert(parser@ == at_start(input_views(input@)));
    parser.parse(declaration)
}

} // verus!
