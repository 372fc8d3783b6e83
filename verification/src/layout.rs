//! Alignment and orientation words used by the layout engines.

use vstd::prelude::*;

verus! {

/// Horizontal placement of a control within its cell.
#[derive(Copy, Clone, Eq, PartialEq, Structural, Debug)]
pub enum HorizontalAlignment {
    /// Flush with the left edge.
    Left,
    /// Centred.
    Center,
    /// Flush with the right edge.
    Right,
}

/// Vertical placement of a control within its cell.
#[derive(Copy, Clone, Eq, PartialEq, Structural, Debug)]
pub enum VerticalAlignment {
    /// Flush with the top edge.
    Top,
    /// Centred.
    Center,
    /// Flush with the bottom edge.
    Bottom,
    /// Aligned on the text baseline.
    Baseline,
}

/// Direction in which a stack layout lays its items out.
#[derive(Copy, Clone, Eq, PartialEq, Structural, Debug)]
pub enum Orientation {
    /// Top to bottom.
    Vertical,
    /// Left to right.
    Horizontal,
}

} // verus!
