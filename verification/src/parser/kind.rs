//! Kinds of tokens and nodes of the syntax tree.

use crate::lexer::token::TType;
use vstd::prelude::*;

verus! {

/// The kind of a token or node.
#[derive(Debug, Clone, Copy, PartialEq, Eq, Structural)]
pub enum SyntaxKind {
    // Tokens
    LeftParen,
    RightParen,
    LeftBracket,
    RightBracket,
    LeftBrace,
    RightBrace,
    Comma,
    Dot,
    Colon,
    ColonColon,
    Semicolon,
    Arrow,
    Plus,
    Minus,
    Star,
    Slash,
    Bang,
    BangEqual,
    Equal,
    EqualEqual,
    Greater,
    GreaterEqual,
    Less,
    LessEqual,
    And,
    Or,
    Is,
    Identifier,
    StringLiteral,
    IntLiteral,
    FloatLiteral,
    Break,
    Class,
    Construct,
    Else,
    Enum,
    Export,
    External,
    False,
    For,
    Func,
    If,
    Impl,
    Import,
    In,
    Interface,
    NoneLiteral,
    Private,
    Public,
    Return,
    This,
    True,
    Val,
    Var,
    When,
    Whitespace,
    Comment,
    Error,
    EndOfFile,
    // Nodes
    Root,
    Modifiers,
    ImportDecl,
    ExportDecl,
    FunctionDecl,
    FunctionSignature,
    Parameter,
    ClassDecl,
    InterfaceDecl,
    EnumDecl,
    ImplDecl,
    Block,
    ExpressionNode,
    TypeNode,
    ErrorNode,
}

/// The kind of a token.
pub open spec fn token_kind(t_type: TType) -> SyntaxKind {
    match t_type {
        TType::LeftParen => SyntaxKind::LeftParen,
        TType::RightParen => SyntaxKind::RightParen,
        TType::LeftBracket => SyntaxKind::LeftBracket,
        TType::RightBracket => SyntaxKind::RightBracket,
        TType::LeftBrace => SyntaxKind::LeftBrace,
        TType::RightBrace => SyntaxKind::RightBrace,
        TType::Comma => SyntaxKind::Comma,
        TType::Dot => SyntaxKind::Dot,
        TType::Colon => SyntaxKind::Colon,
        TType::ColonColon => SyntaxKind::ColonColon,
        TType::Semicolon => SyntaxKind::Semicolon,
        TType::Arrow => SyntaxKind::Arrow,
        TType::Plus => SyntaxKind::Plus,
        TType::Minus => SyntaxKind::Minus,
        TType::Star => SyntaxKind::Star,
        TType::Slash => SyntaxKind::Slash,
        TType::Bang => SyntaxKind::Bang,
        TType::BangEqual => SyntaxKind::BangEqual,
        TType::Equal => SyntaxKind::Equal,
        TType::EqualEqual => SyntaxKind::EqualEqual,
        TType::Greater => SyntaxKind::Greater,
        TType::GreaterEqual => SyntaxKind::GreaterEqual,
        TType::Less => SyntaxKind::Less,
        TType::LessEqual => SyntaxKind::LessEqual,
        TType::And => SyntaxKind::And,
        TType::Or => SyntaxKind::Or,
        TType::Is => SyntaxKind::Is,
        TType::Identifier => SyntaxKind::Identifier,
        TType::StringLiteral => SyntaxKind::StringLiteral,
        TType::IntLiteral => SyntaxKind::IntLiteral,
        TType::FloatLiteral => SyntaxKind::FloatLiteral,
        TType::Break => SyntaxKind::Break,
        TType::Class => SyntaxKind::Class,
        TType::Construct => SyntaxKind::Construct,
        TType::Else => SyntaxKind::Else,
        TType::Enum => SyntaxKind::Enum,
        TType::Export => SyntaxKind::Export,
        TType::External => SyntaxKind::External,
        TType::False => SyntaxKind::False,
        TType::For => SyntaxKind::For,
        TType::Func => SyntaxKind::Func,
        TType::If => SyntaxKind::If,
        TType::Impl => SyntaxKind::Impl,
        TType::Import => SyntaxKind::Import,
        TType::In => SyntaxKind::In,
        TType::Interface => SyntaxKind::Interface,
        TType::NoneLiteral => SyntaxKind::NoneLiteral,
        TType::Private => SyntaxKind::Private,
        TType::Public => SyntaxKind::Public,
        TType::Return => SyntaxKind::Return,
        TType::This => SyntaxKind::This,
        TType::True => SyntaxKind::True,
        TType::Val => SyntaxKind::Val,
        TType::Var => SyntaxKind::Var,
        TType::When => SyntaxKind::When,
        TType::Whitespace => SyntaxKind::Whitespace,
        TType::Comment => SyntaxKind::Comment,
        TType::Error => SyntaxKind::Error,
        TType::EndOfFile => SyntaxKind::EndOfFile,
    }
}

/// The number of a kind in the syntax tree.
pub open spec fn raw_kind(kind: SyntaxKind) -> u16 {
    match kind {
        SyntaxKind::LeftParen => 0,
        SyntaxKind::RightParen => 1,
        SyntaxKind::LeftBracket => 2,
        SyntaxKind::RightBracket => 3,
        SyntaxKind::LeftBrace => 4,
        SyntaxKind::RightBrace => 5,
        SyntaxKind::Comma => 6,
        SyntaxKind::Dot => 7,
        SyntaxKind::Colon => 8,
        SyntaxKind::ColonColon => 9,
        SyntaxKind::Semicolon => 10,
        SyntaxKind::Arrow => 11,
        SyntaxKind::Plus => 12,
        SyntaxKind::Minus => 13,
        SyntaxKind::Star => 14,
        SyntaxKind::Slash => 15,
        SyntaxKind::Bang => 16,
        SyntaxKind::BangEqual => 17,
        SyntaxKind::Equal => 18,
        SyntaxKind::EqualEqual => 19,
        SyntaxKind::Greater => 20,
        SyntaxKind::GreaterEqual => 21,
        SyntaxKind::Less => 22,
        SyntaxKind::LessEqual => 23,
        SyntaxKind::And => 24,
        SyntaxKind::Or => 25,
        SyntaxKind::Is => 26,
        SyntaxKind::Identifier => 27,
        SyntaxKind::StringLiteral => 28,
        SyntaxKind::IntLiteral => 29,
        SyntaxKind::FloatLiteral => 30,
        SyntaxKind::Break => 31,
        SyntaxKind::Class => 32,
        SyntaxKind::Construct => 33,
        SyntaxKind::Else => 34,
        SyntaxKind::Enum => 35,
        SyntaxKind::Export => 36,
        SyntaxKind::External => 37,
        SyntaxKind::False => 38,
        SyntaxKind::For => 39,
        SyntaxKind::Func => 40,
        SyntaxKind::If => 41,
        SyntaxKind::Impl => 42,
        SyntaxKind::Import => 43,
        SyntaxKind::In => 44,
        SyntaxKind::Interface => 45,
        SyntaxKind::NoneLiteral => 46,
        SyntaxKind::Private => 47,
        SyntaxKind::Public => 48,
        SyntaxKind::Return => 49,
        SyntaxKind::This => 50,
        SyntaxKind::True => 51,
        SyntaxKind::Val => 52,
        SyntaxKind::Var => 53,
        SyntaxKind::When => 54,
        SyntaxKind::Whitespace => 55,
        SyntaxKind::Comment => 56,
        SyntaxKind::Error => 57,
        SyntaxKind::EndOfFile => 58,
        SyntaxKind::Root => 59,
        SyntaxKind::Modifiers => 60,
        SyntaxKind::ImportDecl => 61,
        SyntaxKind::ExportDecl => 62,
        SyntaxKind::FunctionDecl => 63,
        SyntaxKind::FunctionSignature => 64,
        SyntaxKind::Parameter => 65,
        SyntaxKind::ClassDecl => 66,
        SyntaxKind::InterfaceDecl => 67,
        SyntaxKind::EnumDecl => 68,
        SyntaxKind::ImplDecl => 69,
        SyntaxKind::Block => 70,
        SyntaxKind::ExpressionNode => 71,
        SyntaxKind::TypeNode => 72,
        SyntaxKind::ErrorNode => 73,
    }
}

/// The kind that has a number in the syntax tree.
pub open spec fn kind_of_raw(raw: u16) -> Option<SyntaxKind> {
    match raw {
        0 => Some(SyntaxKind::LeftParen),
        1 => Some(SyntaxKind::RightParen),
        2 => Some(SyntaxKind::LeftBracket),
        3 => Some(SyntaxKind::RightBracket),
        4 => Some(SyntaxKind::LeftBrace),
        5 => Some(SyntaxKind::RightBrace),
        6 => Some(SyntaxKind::Comma),
        7 => Some(SyntaxKind::Dot),
        8 => Some(SyntaxKind::Colon),
        9 => Some(SyntaxKind::ColonColon),
        10 => Some(SyntaxKind::Semicolon),
        11 => Some(SyntaxKind::Arrow),
        12 => Some(SyntaxKind::Plus),
        13 => Some(SyntaxKind::Minus),
        14 => Some(SyntaxKind::Star),
        15 => Some(SyntaxKind::Slash),
        16 => Some(SyntaxKind::Bang),
        17 => Some(SyntaxKind::BangEqual),
        18 => Some(SyntaxKind::Equal),
        19 => Some(SyntaxKind::EqualEqual),
        20 => Some(SyntaxKind::Greater),
        21 => Some(SyntaxKind::GreaterEqual),
        22 => Some(SyntaxKind::Less),
        23 => Some(SyntaxKind::LessEqual),
        24 => Some(SyntaxKind::And),
        25 => Some(SyntaxKind::Or),
        26 => Some(SyntaxKind::Is),
        27 => Some(SyntaxKind::Identifier),
        28 => Some(SyntaxKind::StringLiteral),
        29 => Some(SyntaxKind::IntLiteral),
        30 => Some(SyntaxKind::FloatLiteral),
        31 => Some(SyntaxKind::Break),
        32 => Some(SyntaxKind::Class),
        33 => Some(SyntaxKind::Construct),
        34 => Some(SyntaxKind::Else),
        35 => Some(SyntaxKind::Enum),
        36 => Some(SyntaxKind::Export),
        37 => Some(SyntaxKind::External),
        38 => Some(SyntaxKind::False),
        39 => Some(SyntaxKind::For),
        40 => Some(SyntaxKind::Func),
        41 => Some(SyntaxKind::If),
        42 => Some(SyntaxKind::Impl),
        43 => Some(SyntaxKind::Import),
        44 => Some(SyntaxKind::In),
        45 => Some(SyntaxKind::Interface),
        46 => Some(SyntaxKind::NoneLiteral),
        47 => Some(SyntaxKind::Private),
        48 => Some(SyntaxKind::Public),
        49 => Some(SyntaxKind::Return),
        50 => Some(SyntaxKind::This),
        51 => Some(SyntaxKind::True),
        52 => Some(SyntaxKind::Val),
        53 => Some(SyntaxKind::Var),
        54 => Some(SyntaxKind::When),
        55 => Some(SyntaxKind::Whitespace),
        56 => Some(SyntaxKind::Comment),
        57 => Some(SyntaxKind::Error),
        58 => Some(SyntaxKind::EndOfFile),
        59 => Some(SyntaxKind::Root),
        60 => Some(SyntaxKind::Modifiers),
        61 => Some(SyntaxKind::ImportDecl),
        62 => Some(SyntaxKind::ExportDecl),
        63 => Some(SyntaxKind::FunctionDecl),
        64 => Some(SyntaxKind::FunctionSignature),
        65 => Some(SyntaxKind::Parameter),
        66 => Some(SyntaxKind::ClassDecl),
        67 => Some(SyntaxKind::InterfaceDecl),
        68 => Some(SyntaxKind::EnumDecl),
        69 => Some(SyntaxKind::ImplDecl),
        70 => Some(SyntaxKind::Block),
        71 => Some(SyntaxKind::ExpressionNode),
        72 => Some(SyntaxKind::TypeNode),
        73 => Some(SyntaxKind::ErrorNode),
        _ => None,
    }
}

/// Every kind has a number of its own.
pub proof fn law_raw_kind(kind: SyntaxKind)
    ensures
        kind_of_raw(raw_kind(kind)) == Some(kind),
{
}

/// Numbers stand for the kinds that have them, and for no others.
pub proof fn law_kind_of_raw(raw: u16)
    ensures
        kind_of_raw(raw) matches Some(kind) ==> raw_kind(kind) == raw,
{
}

impl SyntaxKind {
    /// Is this the kind of tokens that the grammar knows nothing of?
    pub open spec fn skipped(self) -> bool {
        self is Whitespace || self is Comment
    }

    /// Is this the kind of tokens that the grammar knows nothing of?
    pub fn should_skip(&self) -> (r: bool)
        ensures
            r == self.skipped(),
    {
        matches!(*self, SyntaxKind::Whitespace | SyntaxKind::Comment)
    }

    /// The kind of a token.
    pub fn from_token(t_type: TType) -> (r: SyntaxKind)
        ensures
            r == token_kind(t_type),
    {
        match t_type {
            TType::LeftParen => SyntaxKind::LeftParen,
            TType::RightParen => SyntaxKind::RightParen,
            TType::LeftBracket => SyntaxKind::LeftBracket,
            TType::RightBracket => SyntaxKind::RightBracket,
            TType::LeftBrace => SyntaxKind::LeftBrace,
            TType::RightBrace => SyntaxKind::RightBrace,
            TType::Comma => SyntaxKind::Comma,
            TType::Dot => SyntaxKind::Dot,
            TType::Colon => SyntaxKind::Colon,
            TType::ColonColon => SyntaxKind::ColonColon,
            TType::Semicolon => SyntaxKind::Semicolon,
            TType::Arrow => SyntaxKind::Arrow,
            TType::Plus => SyntaxKind::Plus,
            TType::Minus => SyntaxKind::Minus,
            TType::Star => SyntaxKind::Star,
            TType::Slash => SyntaxKind::Slash,
            TType::Bang => SyntaxKind::Bang,
            TType::BangEqual => SyntaxKind::BangEqual,
            TType::Equal => SyntaxKind::Equal,
            TType::EqualEqual => SyntaxKind::EqualEqual,
            TType::Greater => SyntaxKind::Greater,
            TType::GreaterEqual => SyntaxKind::GreaterEqual,
            TType::Less => SyntaxKind::Less,
            TType::LessEqual => SyntaxKind::LessEqual,
            TType::And => SyntaxKind::And,
            TType::Or => SyntaxKind::Or,
            TType::Is => SyntaxKind::Is,
            TType::Identifier => SyntaxKind::Identifier,
            TType::StringLiteral => SyntaxKind::StringLiteral,
            TType::IntLiteral => SyntaxKind::IntLiteral,
            TType::FloatLiteral => SyntaxKind::FloatLiteral,
            TType::Break => SyntaxKind::Break,
            TType::Class => SyntaxKind::Class,
            TType::Construct => SyntaxKind::Construct,
            TType::Else => SyntaxKind::Else,
            TType::Enum => SyntaxKind::Enum,
            TType::Export => SyntaxKind::Export,
            TType::External => SyntaxKind::External,
            TType::False => SyntaxKind::False,
            TType::For => SyntaxKind::For,
            TType::Func => SyntaxKind::Func,
            TType::If => SyntaxKind::If,
            TType::Impl => SyntaxKind::Impl,
            TType::Import => SyntaxKind::Import,
            TType::In => SyntaxKind::In,
            TType::Interface => SyntaxKind::Interface,
            TType::NoneLiteral => SyntaxKind::NoneLiteral,
            TType::Private => SyntaxKind::Private,
            TType::Public => SyntaxKind::Public,
            TType::Return => SyntaxKind::Return,
            TType::This => SyntaxKind::This,
            TType::True => SyntaxKind::True,
            TType::Val => SyntaxKind::Val,
            TType::Var => SyntaxKind::Var,
            TType::When => SyntaxKind::When,
            TType::Whitespace => SyntaxKind::Whitespace,
            TType::Comment => SyntaxKind::Comment,
            TType::Error => SyntaxKind::Error,
            TType::EndOfFile => SyntaxKind::EndOfFile,
        }
    }

    /// The number of the kind in the syntax tree.
    pub fn to_raw(&self) -> (r: u16)
        ensures
            r == raw_kind(*self),
    {
        match *self {
            SyntaxKind::LeftParen => 0,
            SyntaxKind::RightParen => 1,
            SyntaxKind::LeftBracket => 2,
            SyntaxKind::RightBracket => 3,
            SyntaxKind::LeftBrace => 4,
            SyntaxKind::RightBrace => 5,
            SyntaxKind::Comma => 6,
            SyntaxKind::Dot => 7,
            SyntaxKind::Colon => 8,
            SyntaxKind::ColonColon => 9,
            SyntaxKind::Semicolon => 10,
            SyntaxKind::Arrow => 11,
            SyntaxKind::Plus => 12,
            SyntaxKind::Minus => 13,
            SyntaxKind::Star => 14,
            SyntaxKind::Slash => 15,
            SyntaxKind::Bang => 16,
            SyntaxKind::BangEqual => 17,
            SyntaxKind::Equal => 18,
            SyntaxKind::EqualEqual => 19,
            SyntaxKind::Greater => 20,
            SyntaxKind::GreaterEqual => 21,
            SyntaxKind::Less => 22,
            SyntaxKind::LessEqual => 23,
            SyntaxKind::And => 24,
            SyntaxKind::Or => 25,
            SyntaxKind::Is => 26,
            SyntaxKind::Identifier => 27,
            SyntaxKind::StringLiteral => 28,
            SyntaxKind::IntLiteral => 29,
            SyntaxKind::FloatLiteral => 30,
            SyntaxKind::Break => 31,
            SyntaxKind::Class => 32,
            SyntaxKind::Construct => 33,
            SyntaxKind::Else => 34,
            SyntaxKind::Enum => 35,
            SyntaxKind::Export => 36,
            SyntaxKind::External => 37,
            SyntaxKind::False => 38,
            SyntaxKind::For => 39,
            SyntaxKind::Func => 40,
            SyntaxKind::If => 41,
            SyntaxKind::Impl => 42,
            SyntaxKind::Import => 43,
            SyntaxKind::In => 44,
            SyntaxKind::Interface => 45,
            SyntaxKind::NoneLiteral => 46,
            SyntaxKind::Private => 47,
            SyntaxKind::Public => 48,
            SyntaxKind::Return => 49,
            SyntaxKind::This => 50,
            SyntaxKind::True => 51,
            SyntaxKind::Val => 52,
            SyntaxKind::Var => 53,
            SyntaxKind::When => 54,
            SyntaxKind::Whitespace => 55,
            SyntaxKind::Comment => 56,
            SyntaxKind::Error => 57,
            SyntaxKind::EndOfFile => 58,
            SyntaxKind::Root => 59,
            SyntaxKind::Modifiers => 60,
            SyntaxKind::ImportDecl => 61,
            SyntaxKind::ExportDecl => 62,
            SyntaxKind::FunctionDecl => 63,
            SyntaxKind::FunctionSignature => 64,
            SyntaxKind::Parameter => 65,
            SyntaxKind::ClassDecl => 66,
            SyntaxKind::InterfaceDecl => 67,
            SyntaxKind::EnumDecl => 68,
            SyntaxKind::ImplDecl => 69,
            SyntaxKind::Block => 70,
            SyntaxKind::ExpressionNode => 71,
            SyntaxKind::TypeNode => 72,
            SyntaxKind::ErrorNode => 73,
        }
    }

    /// The kind that has a number in the syntax tree.
    pub fn from_raw(raw: u16) -> (r: Option<SyntaxKind>)
        ensures
            r == kind_of_raw(raw),
    {
        match raw {
            0 => Some(SyntaxKind::LeftParen),
            1 => Some(SyntaxKind::RightParen),
            2 => Some(SyntaxKind::LeftBracket),
            3 => Some(SyntaxKind::RightBracket),
            4 => Some(SyntaxKind::LeftBrace),
            5 => Some(SyntaxKind::RightBrace),
            6 => Some(SyntaxKind::Comma),
            7 => Some(SyntaxKind::Dot),
            8 => Some(SyntaxKind::Colon),
            9 => Some(SyntaxKind::ColonColon),
            10 => Some(SyntaxKind::Semicolon),
            11 => Some(SyntaxKind::Arrow),
            12 => Some(SyntaxKind::Plus),
            13 => Some(SyntaxKind::Minus),
            14 => Some(SyntaxKind::Star),
            15 => Some(SyntaxKind::Slash),
            16 => Some(SyntaxKind::Bang),
            17 => Some(SyntaxKind::BangEqual),
            18 => Some(SyntaxKind::Equal),
            19 => Some(SyntaxKind::EqualEqual),
            20 => Some(SyntaxKind::Greater),
            21 => Some(SyntaxKind::GreaterEqual),
            22 => Some(SyntaxKind::Less),
            23 => Some(SyntaxKind::LessEqual),
            24 => Some(SyntaxKind::And),
            25 => Some(SyntaxKind::Or),
            26 => Some(SyntaxKind::Is),
            27 => Some(SyntaxKind::Identifier),
            28 => Some(SyntaxKind::StringLiteral),
            29 => Some(SyntaxKind::IntLiteral),
            30 => Some(SyntaxKind::FloatLiteral),
            31 => Some(SyntaxKind::Break),
            32 => Some(SyntaxKind::Class),
            33 => Some(SyntaxKind::Construct),
            34 => Some(SyntaxKind::Else),
            35 => Some(SyntaxKind::Enum),
            36 => Some(SyntaxKind::Export),
            37 => Some(SyntaxKind::External),
            38 => Some(SyntaxKind::False),
            39 => Some(SyntaxKind::For),
            40 => Some(SyntaxKind::Func),
            41 => Some(SyntaxKind::If),
            42 => Some(SyntaxKind::Impl),
            43 => Some(SyntaxKind::Import),
            44 => Some(SyntaxKind::In),
            45 => Some(SyntaxKind::Interface),
            46 => Some(SyntaxKind::NoneLiteral),
            47 => Some(SyntaxKind::Private),
            48 => Some(SyntaxKind::Public),
            49 => Some(SyntaxKind::Return),
            50 => Some(SyntaxKind::This),
            51 => Some(SyntaxKind::True),
            52 => Some(SyntaxKind::Val),
            53 => Some(SyntaxKind::Var),
            54 => Some(SyntaxKind::When),
            55 => Some(SyntaxKind::Whitespace),
            56 => Some(SyntaxKind::Comment),
            57 => Some(SyntaxKind::Error),
            58 => Some(SyntaxKind::EndOfFile),
            59 => Some(SyntaxKind::Root),
            60 => Some(SyntaxKind::Modifiers),
            61 => Some(SyntaxKind::ImportDecl),
            62 => Some(SyntaxKind::ExportDecl),
            63 => Some(SyntaxKind::FunctionDecl),
            64 => Some(SyntaxKind::FunctionSignature),
            65 => Some(SyntaxKind::Parameter),
            66 => Some(SyntaxKind::ClassDecl),
            67 => Some(SyntaxKind::InterfaceDecl),
            68 => Some(SyntaxKind::EnumDecl),
            69 => Some(SyntaxKind::ImplDecl),
            70 => Some(SyntaxKind::Block),
            71 => Some(SyntaxKind::ExpressionNode),
            72 => Some(SyntaxKind::TypeNode),
            73 => Some(SyntaxKind::ErrorNode),
            _ => None,
        }
    }
}

} // verus!
