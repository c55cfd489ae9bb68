//! The typed intermediate representation.

pub mod declaration;
pub mod expression;
pub mod laws;
pub mod module;
pub mod types;
pub mod values;
