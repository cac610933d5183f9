//! Structured filtering of messages: criteria values and the engine that
//! evaluates them over a file.

pub mod criteria;
pub mod engine;
