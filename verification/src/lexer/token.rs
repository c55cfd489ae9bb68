//! Tokens of Gelix source code.

use vstd::prelude::*;

verus! {

/// The kind of a token.
#[derive(Debug, Clone, Copy, PartialEq, Eq, Structural)]
pub enum TType {
    // Punctuation
    LeftParen,
    RightParen,
    LeftBracket,
    RightBracket,
    LeftBrace,
    RightBrace,
    Comma,
    Dot,
    Colon,
    ColonColon,
    Semicolon,
    Arrow,
    // Operators
    Plus,
    Minus,
    Star,
    Slash,
    Bang,
    BangEqual,
    Equal,
    EqualEqual,
    Greater,
    GreaterEqual,
    Less,
    LessEqual,
    And,
    Or,
    Is,
    // Literals and names
    Identifier,
    StringLiteral,
    IntLiteral,
    FloatLiteral,
    // Keywords
    Break,
    Class,
    Construct,
    Else,
    Enum,
    Export,
    External,
    False,
    For,
    Func,
    If,
    Impl,
    Import,
    In,
    Interface,
    NoneLiteral,
    Private,
    Public,
    Return,
    This,
    True,
    Val,
    Var,
    When,
    // Everything else
    Whitespace,
    Comment,
    Error,
    EndOfFile,
}

impl TType {
    /// Does a binary operation with this operator always produce a boolean?
    pub open spec fn logical(self) -> bool {
        ||| self is And
        ||| self is Or
        ||| self is Is
        ||| self is Greater
        ||| self is GreaterEqual
        ||| self is Less
        ||| self is LessEqual
        ||| self is EqualEqual
        ||| self is BangEqual
    }

    /// Does a binary operation with this operator always produce a boolean?
    pub fn is_logical(&self) -> (r: bool)
        ensures
            r == self.logical(),
    {
        matches!(
            *self,
            TType::And | TType::Or | TType::Is | TType::Greater | TType::GreaterEqual
                | TType::Less | TType::LessEqual | TType::EqualEqual | TType::BangEqual
        )
    }
}

/// A token, with its place in the source.
#[derive(Debug)]
pub struct Token {
    /// The kind of the token.
    pub t_type: TType,
    /// The text of the token.
    pub lexeme: String,
    /// The line the token is on.
    pub line: usize,
    /// The position of the token on its line.
    pub index: usize,
}

/// A token as contracts speak of it.
pub ghost struct TokenView {
    pub t_type: TType,
    pub lexeme: Seq<char>,
    pub line: usize,
    pub index: usize,
}

/// A token that stands nowhere in the source.
pub open spec fn generated(t_type: TType, lexeme: Seq<char>) -> TokenView {
    TokenView { t_type, lexeme, line: 0, index: 0 }
}

impl Token {
    pub open spec fn view(&self) -> TokenView {
        TokenView { t_type: self.t_type, lexeme: self.lexeme@, line: self.line, index: self.index }
    }

    /// A second token that is equal to this one.
    pub fn copy(&self) -> (r: Token)
        ensures
            r == *self,
    {
        Token {
            t_type: self.t_type,
            lexeme: self.lexeme.clone(),
            line: self.line,
            index: self.index,
        }
    }

    /// An identifier made by the compiler.
    pub fn generic_identifier(lexeme: String) -> (r: Token)
        ensures
            r@ == generated(TType::Identifier, lexeme@),
    {
        Token { t_type: TType::Identifier, lexeme, line: 0, index: 0 }
    }

    /// A token made by the compiler that has no text.
    pub fn generic_token(t_type: TType) -> (r: Token)
        ensures
            r@ == generated(t_type, Seq::empty()),
    {
        Token { t_type, lexeme: String::new(), line: 0, index: 0 }
    }
}

} // verus!
