//! Errors of the toolkit.

use vstd::prelude::*;

verus! {

/// Why a toolkit operation failed.
#[derive(Copy, Clone, Eq, PartialEq, Structural, Debug)]
pub enum Error {
    /// A native call failed with this error code.
    Windows(u32),
    /// The item addressed was already deleted.
    ItemDeleted,
}

} // verus!
