//! The errors that the store reports.

use vstd::prelude::*;

verus! {

/// Why a path could not be resolved.
#[derive(Clone, Debug, PartialEq, Eq)]
pub enum Errors {
    /// The path does not exist; the field is the segment that designates nothing.
    NotFound(String),
}

/// Why a document could not be loaded. A store that cannot load cannot serve
/// data: the caller is to stop, or to load again, before anything else.
#[derive(Clone, Copy, Debug, PartialEq, Eq, Structural)]
pub enum LoadError {
    /// The backing file could not be opened or read.
    Unreadable,
    /// The backing file holds no bytes.
    Empty,
    /// The contents are not one well-formed document.
    Malformed,
}

} // verus!
