//! Regular-expression search over messages: the engine compiles a
//! pattern with a case-sensitivity mode and evaluates it against the
//! textual projections of each message.

pub mod engine;
