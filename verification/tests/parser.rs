//! Parsing into syntax trees.

use gelix::lexer::token::TType;
use gelix::parser::event::Event;
use gelix::parser::kind::SyntaxKind;
use gelix::parser::parse;
use gelix::parser::parser::Parser;
use gelix::parser::sink::Sink;
use gelix::parser::source::{Lexeme, Source};

fn lexeme(kind: SyntaxKind, lexeme: &str) -> Lexeme<'_> {
    Lexeme { kind, lexeme }
}

/// ` func  name;`
fn sample() -> Vec<Lexeme<'static>> {
    vec![
        lexeme(SyntaxKind::Whitespace, " "),
        lexeme(SyntaxKind::Func, "func"),
        lexeme(SyntaxKind::Whitespace, "  "),
        lexeme(SyntaxKind::Identifier, "name"),
        lexeme(SyntaxKind::Semicolon, ";"),
    ]
}

fn show(events: &Vec<Event>) -> String {
    format!("{:?}", events)
}

/// A declaration is everything up to a semicolon.
fn declaration(parser: &mut Parser) {
    parser.start_node(SyntaxKind::FunctionDecl);
    while parser.peek() != SyntaxKind::EndOfFile {
        if parser.matches(SyntaxKind::Semicolon) {
            break;
        }
        parser.advance();
    }
    parser.end_node();
}

fn input(tokens: &[(TType, &str)]) -> Vec<(TType, String)> {
    tokens.iter().map(|(t, s)| (*t, s.to_string())).collect()
}

#[test]
fn tree_keeps_the_whole_text() {
    let tokens = input(&[
        (TType::Whitespace, "\n "),
        (TType::Func, "func"),
        (TType::Whitespace, " "),
        (TType::Identifier, "größe"),
        (TType::Comment, "// text"),
        (TType::Semicolon, ";"),
        (TType::Identifier, "b"),
        (TType::Semicolon, ";"),
        (TType::Whitespace, "\n"),
    ]);
    let result = parse(&tokens, declaration);
    assert_eq!(result.green_node.to_string(), "\n func größe// text;b;\n");
    assert_eq!(result.green_node.kind().0, SyntaxKind::Root.to_raw());
    assert_eq!(usize::from(result.green_node.text_len()), "\n func größe// text;b;\n".len());
}

#[test]
fn tree_has_the_nodes_of_the_grammar() {
    let tokens = input(&[
        (TType::Identifier, "a"),
        (TType::Semicolon, ";"),
        (TType::Whitespace, " "),
        (TType::Identifier, "b"),
        (TType::Semicolon, ";"),
    ]);
    let result = parse(&tokens, declaration);
    let children: Vec<_> = result.green_node.children().collect();
    assert_eq!(children.len(), 2);
    let texts: Vec<String> = children.iter().map(|c| c.to_string()).collect();
    // what the grammar knows nothing of stays behind the token in front of it
    assert_eq!(texts, vec!["a; ", "b;"]);
    for child in result.green_node.children() {
        assert_eq!(child.kind().0, SyntaxKind::FunctionDecl.to_raw());
    }
}

#[test]
fn no_tokens_make_an_empty_root() {
    let result = parse(&vec![], declaration);
    assert_eq!(result.green_node.to_string(), "");
    assert_eq!(result.green_node.children().len(), 0);
}

#[test]
fn whitespace_alone_goes_into_the_root() {
    let tokens = input(&[(TType::Whitespace, "  ")]);
    let result = parse(&tokens, |parser: &mut Parser| {
        parser.peek();
    });
    assert_eq!(result.green_node.to_string(), "  ");
    assert_eq!(result.green_node.children().len(), 1);
}

#[test]
fn peek_skips_what_the_grammar_does_not_know() {
    let lexemes = sample();
    let mut parser = Parser::new(&lexemes);
    assert_eq!(parser.peek_raw(), Some(SyntaxKind::Whitespace));
    assert_eq!(parser.peek(), SyntaxKind::Func);
    assert_eq!(parser.source.position(), 1);
    assert_eq!(parser.peek_next(), SyntaxKind::Func);
    assert!(parser.events.is_empty());
}

#[test]
fn advance_adds_the_token() {
    let lexemes = sample();
    let mut parser = Parser::new(&lexemes);
    let token = parser.advance();
    assert_eq!(token.kind, SyntaxKind::Func);
    assert_eq!(token.lexeme, "func");
    assert_eq!(parser.source.position(), 2);
    assert_eq!(
        show(&parser.events),
        show(&vec![Event::AddToken { kind: SyntaxKind::Func, lexeme: "func".to_string() }])
    );
}

#[test]
fn end_is_no_token() {
    let lexemes = sample();
    let mut parser = Parser::new(&lexemes);
    assert_eq!(parser.advance_checked(), SyntaxKind::Func);
    assert_eq!(parser.advance_checked(), SyntaxKind::Identifier);
    assert!(!parser.is_at_end());
    assert!(parser.check_separator());
    assert_eq!(parser.advance_checked(), SyntaxKind::Semicolon);
    assert!(parser.is_at_end());
    assert_eq!(parser.advance_checked(), SyntaxKind::EndOfFile);
    assert_eq!(parser.peek(), SyntaxKind::EndOfFile);
    assert_eq!(parser.peek_raw(), None);
    assert_eq!(parser.events.len(), 3);
}

#[test]
fn matches_consumes_only_its_kind() {
    let lexemes = sample();
    let mut parser = Parser::new(&lexemes);
    assert!(!parser.matches(SyntaxKind::Class));
    assert!(parser.events.is_empty());
    assert!(parser.matches(SyntaxKind::Func));
    assert_eq!(parser.events.len(), 1);
    assert!(!parser.check(SyntaxKind::Func));
    assert!(parser.check(SyntaxKind::Identifier));
}

#[test]
fn consume_notes_errors() {
    let lexemes = sample();
    let mut parser = Parser::new(&lexemes);
    parser.consume(SyntaxKind::Class, "Expected class.");
    assert_eq!(parser.errors, vec![(1, "Expected class.".to_string())]);
    parser.consume(SyntaxKind::Func, "Expected function.");
    assert_eq!(parser.errors.len(), 1);
    parser.consume_either(SyntaxKind::IntLiteral, SyntaxKind::Identifier, "Expected name.");
    assert_eq!(parser.errors.len(), 1);
    parser.consume_either(SyntaxKind::IntLiteral, SyntaxKind::Identifier, "Expected name.");
    assert_eq!(parser.errors.len(), 2);
    assert_eq!(parser.errors[1], (4, "Expected name.".to_string()));
    assert_eq!(parser.events.len(), 2);
}

#[test]
fn check_next_consumes_nothing() {
    let lexemes = sample();
    let mut parser = Parser::new(&lexemes);
    assert!(parser.check_next(SyntaxKind::Identifier));
    assert_eq!(parser.source.position(), 0);
    assert!(parser.events.is_empty());
    assert!(!parser.check_next(SyntaxKind::Semicolon));
    assert_eq!(parser.peek(), SyntaxKind::Func);
}

#[test]
fn newlines_separate_expressions() {
    let lexemes = vec![
        lexeme(SyntaxKind::Whitespace, "\n"),
        lexeme(SyntaxKind::IntLiteral, "1"),
        lexeme(SyntaxKind::Whitespace, " "),
        lexeme(SyntaxKind::Plus, "+"),
        lexeme(SyntaxKind::Whitespace, "  \n "),
        lexeme(SyntaxKind::Comment, "// c"),
        lexeme(SyntaxKind::IntLiteral, "2"),
    ];
    let mut parser = Parser::new(&lexemes);
    // nothing stands in front of the first token
    assert!(!parser.check_separator());
    parser.advance();
    assert!(!parser.check_separator());
    parser.advance();
    assert!(parser.check_separator());
    // also when the place is already behind the newline
    assert!(parser.check_separator());
    assert_eq!(parser.peek(), SyntaxKind::IntLiteral);
    assert_eq!(parser.events.len(), 2);
    parser.advance();
    assert!(!parser.check_separator());
}

#[test]
fn nodes_are_events() {
    let lexemes = sample();
    let mut parser = Parser::new(&lexemes);
    let checkpoint = parser.checkpoint();
    assert_eq!(checkpoint, 0);
    parser.node_with(SyntaxKind::Block, |p: &mut Parser| {
        p.advance();
    });
    parser.start_node_at(checkpoint, SyntaxKind::ExpressionNode);
    parser.end_node();
    assert_eq!(parser.checkpoint(), 5);
    assert_eq!(
        show(&parser.events),
        show(&vec![
            Event::StartNode(SyntaxKind::Block),
            Event::AddToken { kind: SyntaxKind::Func, lexeme: "func".to_string() },
            Event::FinishNode,
            Event::StartNodeAt { kind: SyntaxKind::ExpressionNode, checkpoint: 0 },
            Event::FinishNode,
        ])
    );
}

#[test]
fn node_at_checkpoint_wraps_earlier_tokens() {
    let lexemes = vec![
        lexeme(SyntaxKind::IntLiteral, "1"),
        lexeme(SyntaxKind::Plus, "+"),
        lexeme(SyntaxKind::IntLiteral, "2"),
    ];
    let add = |kind: SyntaxKind, text: &str| Event::AddToken { kind, lexeme: text.to_string() };
    let events = vec![
        Event::StartNode(SyntaxKind::Root),
        add(SyntaxKind::IntLiteral, "1"),
        Event::StartNodeAt { kind: SyntaxKind::ExpressionNode, checkpoint: 1 },
        add(SyntaxKind::Plus, "+"),
        add(SyntaxKind::IntLiteral, "2"),
        Event::FinishNode,
        Event::FinishNode,
    ];
    let tree = Sink::new(Source::new(&lexemes), events).finish();
    assert_eq!(tree.to_string(), "1+2");
    let children: Vec<_> = tree.children().collect();
    assert_eq!(children.len(), 1);
    assert_eq!(children[0].kind().0, SyntaxKind::ExpressionNode.to_raw());
    assert_eq!(children[0].into_node().unwrap().children().len(), 3);
}

#[test]
fn source_can_be_restored() {
    let lexemes = sample();
    let mut source = Source::new(&lexemes);
    source.next();
    source.save();
    source.next();
    source.next();
    assert_eq!(source.get_current().unwrap().lexeme, "name");
    source.restore();
    assert_eq!(source.get_current().unwrap().lexeme, "func");
    assert!(source.has_next());
}

#[test]
fn kinds_have_numbers() {
    for raw in 0..74u16 {
        let kind = SyntaxKind::from_raw(raw).unwrap();
        assert_eq!(kind.to_raw(), raw);
    }
    assert_eq!(SyntaxKind::from_raw(74), None);
    assert_eq!(SyntaxKind::from_token(TType::Class), SyntaxKind::Class);
    assert!(SyntaxKind::Comment.should_skip());
    assert!(!SyntaxKind::Class.should_skip());
}
