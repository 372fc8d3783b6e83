//! Sketch of a thread-owning GUI facade.

use vstd::prelude::*;

verus! {

/// Initializes a new GUI thread.
pub fn new_gui() -> Gui {
    Gui {  }
}

/// A handle to one GUI thread.
pub struct Gui {}

impl Gui {
    /// Open a new window on this thread.
    pub fn new_window(&self) -> Window {
        Window {  }
    }

    /// Ask the thread's event loop to quit.
    pub fn quit(&self) {
    }
}

/// A window owned by a [`Gui`] thread.
pub struct Window {}

/// A list view owned by a [`Gui`] thread.
pub struct ListView {}

impl ListView {
    /// Append an item.
    pub fn add_item(&self) {
    }
}

} // verus!
