//! The backend: lowers the intermediate representation to operations.

pub mod counts;
pub mod expr;
pub mod laws;
pub mod lowering;
pub mod ops;
pub mod order;
pub mod rules;

pub use expr::IRGenerator;
