//! Notifications a control sends to its parent window.

use crate::list_view::ItemActivated;
use vstd::prelude::*;

verus! {

/// A decoded control notification.
pub enum Notify {
    /// A list-view item was activated.
    ListViewItemActivate(ItemActivated),
    /// A list-view column header was clicked; carries the column index.
    ListViewColumnClick(i32),
    /// A notification this crate does not decode.
    Unknown,
}

} // verus!
