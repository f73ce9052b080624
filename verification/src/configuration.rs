//! Where the store keeps its document.

use vstd::prelude::*;

verus! {

/// The configuration of a store.
#[derive(Clone, Debug, PartialEq, Eq)]
pub struct Database {
    /// The path of the backing file.
    pub path: String,
}

} // verus!
