//! The middle and the back of a compiler for Gelix, a small object-oriented
//! language.
//!
//! - [`lexer`] and [`ast`] hold tokens and the syntax tree that the other parts
//!   work on.
//! - [`parser`] turns tokens into a lossless syntax tree.
//! - [`gir`] holds the intermediate representation: types, declarations,
//!   expressions, and the module that they belong to.
//! - [`mir`] generates that representation: [`mir::generator`] for expressions,
//!   [`mir::generator::passes`] for declarations.
//! - [`ir`] lowers expressions of the intermediate representation to operations
//!   of the backend.
//! - [`codegen`] lowers the statements of a script to instructions.
//!
//! What each part does is stated by rules: spec functions from the state before
//! to the state after and the result. Contracts say that the code follows the
//! rules, modules called `laws` say what holds of them.

pub mod ast;
pub mod codegen;
pub mod error;
pub mod gir;
pub mod hashing;
pub mod index;
pub mod ir;
pub mod lexer;
pub mod mir;
pub mod names;
pub mod parser;
pub mod table;
pub mod text;
