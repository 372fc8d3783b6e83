//! Identifiers and placement options shared by all controls.

use vstd::prelude::*;

verus! {

/// Placement of a new control within its parent, in pixels.
#[derive(Copy, Clone, Eq, PartialEq, Structural, Debug)]
pub struct CreateControlOptions {
    /// Horizontal position of the left edge.
    pub x: i32,
    /// Vertical position of the top edge.
    pub y: i32,
    /// Width of the control.
    pub width: i32,
    /// Height of the control.
    pub height: i32,
}

impl Default for CreateControlOptions {
    /// All zero: position and size are assigned by layout later.
    fn default() -> (r: Self)
        ensures
            r.x == 0 && r.y == 0 && r.width == 0 && r.height == 0,
    {
        CreateControlOptions { x: 0, y: 0, width: 0, height: 0 }
    }
}

/// Application-chosen identifier of one control within its window.
#[derive(Copy, Clone, Eq, PartialEq, Structural, Debug, Hash, Ord, PartialOrd)]
pub struct ControlId(pub u16);

/// A notification code a control sends to its parent.
#[derive(Copy, Clone, Eq, PartialEq, Structural, Debug, Hash, Ord, PartialOrd)]
pub struct Command(pub u32);

} // verus!
