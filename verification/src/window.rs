//! A raw window handle.

use vstd::prelude::*;

verus! {

/// Owns one native window handle.
pub struct WindowHandle {
    handle: isize,
}

impl WindowHandle {
    /// The raw handle value this wraps.
    pub closed spec fn spec_handle(&self) -> isize {
        self.handle
    }

    /// The raw handle value.
    pub fn handle(&self) -> (r: isize)
        ensures
            r == self.spec_handle(),
    {
        self.handle
    }

    /// Wrap a raw handle. The caller is responsible for the handle's
    /// validity and for destroying the window it names.
    pub fn from_handle(handle: isize) -> (r: Self)
        ensures
            r.spec_handle() == handle,
    {
        Self { handle }
    }
}

} // verus!
