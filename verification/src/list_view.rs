//! List-view presentation modes and notifications.

use vstd::prelude::*;

verus! {

/// Native view-mode word: large icons.
pub const LV_VIEW_ICON: u32 = 0;

/// Native view-mode word: details (report) view.
pub const LV_VIEW_DETAILS: u32 = 1;

/// Native view-mode word: small icons.
pub const LV_VIEW_SMALLICON: u32 = 2;

/// Native view-mode word: list view.
pub const LV_VIEW_LIST: u32 = 3;

/// Native view-mode word: tile view.
pub const LV_VIEW_TILE: u32 = 4;

/// How a list view presents its items.
#[derive(Copy, Clone, Eq, PartialEq, Structural, Debug)]
pub enum Mode {
    /// One row per item with columns.
    Details,
    /// Large icons.
    Icon,
    /// A plain list.
    List,
    /// Small icons.
    SmallIcon,
    /// Tiles.
    Tile,
}

impl Mode {
    /// Encode as the native view-mode word.
    pub fn to_native(self) -> (r: u32)
        ensures
            r == (match self {
                Mode::Details => LV_VIEW_DETAILS,
                Mode::Icon => LV_VIEW_ICON,
                Mode::List => LV_VIEW_LIST,
                Mode::SmallIcon => LV_VIEW_SMALLICON,
                Mode::Tile => LV_VIEW_TILE,
            }),
    {
        match self {
            Mode::Details => LV_VIEW_DETAILS,
            Mode::Icon => LV_VIEW_ICON,
            Mode::List => LV_VIEW_LIST,
            Mode::SmallIcon => LV_VIEW_SMALLICON,
            Mode::Tile => LV_VIEW_TILE,
        }
    }
}

/// The user activated (double-clicked) an item.
#[derive(Copy, Clone, Eq, PartialEq, Structural, Debug)]
pub struct ItemActivated {
    /// Index of the activated item.
    pub item: usize,
}

/// The set of selected items has changed.
#[derive(Copy, Clone, Eq, PartialEq, Structural, Debug)]
pub struct SelectionChanged {
    /// How many items are selected now.
    pub num_items_selected: usize,
    /// The first selected item, if any.
    pub first_item_selected: Option<usize>,
    /// The item with the focus, if any.
    pub focus_item: Option<usize>,
}

} // verus!
