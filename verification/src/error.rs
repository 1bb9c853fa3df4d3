//! Errors.

use vstd::prelude::*;

verus! {

/// What can go wrong.
#[derive(Debug)]
pub enum FoxgloveError {
    /// A value is not acceptable.
    ValueError(String),
    /// A text is not UTF-8.
    Utf8Error(String),
    /// The sink has been closed.
    SinkClosed,
    /// Something else.
    Unspecified(String),
}

} // verus!
