//! Verified core of a DLT (Diagnostic Log and Trace) log-file viewer.
//!
//! The crate parses the binary DLT record format, builds a message-offset
//! index over a file image, maintains secondary indices over structured
//! fields, and evaluates filter criteria and regular-expression searches
//! over the indexed messages.  A session type ties the pieces together and
//! carries the user-visible view state.

pub mod app_state;
pub mod codec;
pub mod dlt_file;
pub mod error;
pub mod filter;
pub mod index;
pub mod pattern;
pub mod search;
pub mod settings;
pub mod text;
