//! Code generation from serde-style container formats: the data model, the
//! generator configuration and the Rust emitter.

pub mod config;
pub mod emit;
pub mod format;
