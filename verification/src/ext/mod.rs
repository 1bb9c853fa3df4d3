//! Declarations of the items of other crates that the library calls.
//!
//! Everything below this module is believed without proof; each item says what it claims of
//! the function that it stands for.

pub mod buffer;
pub mod json;
pub mod pairs;
pub mod pattern;
pub mod queue;
pub mod signal;
pub mod text;
pub mod zstd;
