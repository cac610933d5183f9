//! Error model of the library.

use vstd::prelude::*;

verus! {

/// The error kinds the library can report.
///
/// `Io` carries the operating-system message of a failed open or mapping,
/// which only the unverified rim of an application produces.  `Format` and
/// `NotFound` carry the message position they complain about.
#[derive(Debug, Clone, PartialEq, Eq)]
pub enum Error {
    /// Reading or mapping the file failed; the payload is the OS message.
    Io(String),
    /// The bytes at the given message position are not a well-formed record.
    Format { index: usize },
    /// The given message position is out of bounds.
    NotFound { index: usize },
    /// The user-supplied search or filter pattern is not a valid regex.
    RegexCompile,
}

} // verus!
