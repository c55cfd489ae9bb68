//! Errors in the source that is compiled.

use crate::lexer::token::{Token, TokenView};
use vstd::prelude::*;

verus! {

/// An error, with the place where it occurred.
#[derive(Debug)]
pub struct Error {
    /// The file.
    pub path: String,
    /// The token that the error is reported at.
    pub token: Token,
    /// What is wrong.
    pub msg: String,
}

/// An error as contracts speak of it.
pub ghost struct ErrorView {
    pub path: Seq<char>,
    pub token: TokenView,
    pub msg: Seq<char>,
}

impl Error {
    pub open spec fn view(&self) -> ErrorView {
        ErrorView { path: self.path@, token: self.token@, msg: self.msg@ }
    }

    /// An error at a token.
    pub fn new(path: &str, token: &Token, msg: &str) -> (r: Error)
        ensures
            r@ == (ErrorView { path: path@, token: token@, msg: msg@ }),
    {
        Error { path: path.to_owned(), token: token.copy(), msg: msg.to_owned() }
    }
}

/// The result of a step that can fail.
pub type Res<T> = Result<T, Error>;

} // verus!
