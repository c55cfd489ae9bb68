//! Errors in the declarations of a file.

use crate::ast::declaration::FuncSignature;
use crate::text::concat3;
use vstd::prelude::*;

verus! {

/// An error, with the code that it is about.
#[derive(Debug)]
pub struct Error {
    /// The line of the code, if it is known.
    pub line: Option<usize>,
    /// What is wrong.
    pub message: String,
    /// The code in short.
    pub code: String,
}

/// An error as contracts speak of it.
pub ghost struct ErrorView {
    pub line: Option<usize>,
    pub message: Seq<char>,
    pub code: Seq<char>,
}

/// The error about a function.
pub open spec fn fn_error(message: Seq<char>, line: usize, name: Seq<char>) -> ErrorView {
    ErrorView { line: Some(line), message, code: "func "@ + name + "(...)"@ }
}

impl Error {
    pub open spec fn view(&self) -> ErrorView {
        ErrorView { line: self.line, message: self.message@, code: self.code@ }
    }

    /// An error about a piece of code.
    pub fn new(line: Option<usize>, message: &str, code: String) -> (r: Error)
        ensures
            r@ == (ErrorView { line, message: message@, code: code@ }),
    {
        Error { line, message: message.to_owned(), code }
    }

    /// An error about a function.
    pub fn new_fn(message: &str, func_sig: &FuncSignature) -> (r: Error)
        ensures
            r@ == fn_error(message@, func_sig.name.line, func_sig.name.lexeme@),
    {
        let code = concat3("func ", func_sig.name.lexeme.as_str(), "(...)");
        Error::new(Some(func_sig.name.line), message, code)
    }
}

/// The result of a step that can fail.
pub type Res<T> = Result<T, Error>;

} // verus!
