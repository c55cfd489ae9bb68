//! The syntax tree.

pub mod declaration;
pub mod expression;
pub mod laws;
pub mod parts;
pub mod statement;

pub use expression::{ASTType, Closure, ClosureParameter, Constant, Expression, Literal, VariableDef};
