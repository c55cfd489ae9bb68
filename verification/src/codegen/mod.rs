//! Lowers the statements of a script to instructions.

pub mod generator;
pub mod laws;
pub mod module;
pub mod rules;

pub use generator::{Action, Event, IRGenerator};
