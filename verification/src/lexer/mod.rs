//! What the lexer hands to the rest of the compiler.

pub mod token;
