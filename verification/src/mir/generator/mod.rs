//! The generator, which turns the syntax tree into the intermediate
//! representation.

pub mod branches;
pub mod calls;
pub mod closures;
pub mod code;
pub mod error;
pub mod faults;
pub mod fields;
pub mod frame;
pub mod gen_expr;
pub mod laws;
pub mod model;
pub mod passes;
pub mod rules;
pub mod state;
pub mod vars;

pub use error::{Error, Res};
pub use state::{ForLoop, Frame, MIRGenerator};
