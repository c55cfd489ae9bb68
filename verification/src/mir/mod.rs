//! The middle representation and its generator.

pub mod builder;
pub mod generator;
pub mod laws;
pub mod nodes;
