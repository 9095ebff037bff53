//! Language ids of `languages.yml` as named constants.
pub use crate::data::LanguageId;

use vstd::prelude::*;

verus! {

/// C#.
pub const C_SHARP: LanguageId = 42;

/// Protocol Buffers.
pub const PROTOCOL_BUFFERS: LanguageId = 297;

/// Python.
pub const PYTHON: LanguageId = 303;

/// Ruby.
pub const RUBY: LanguageId = 326;

/// Rust.
pub const RUST: LanguageId = 327;

} // verus!
