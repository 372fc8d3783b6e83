//! Colour choices for styling.

use crate::brush::SysColor;
use crate::color::ColorRef;
use vstd::prelude::*;

verus! {

/// A colour named either directly or through the system palette.
#[derive(Copy, Clone, Eq, PartialEq, Structural, Debug)]
pub enum StyleColor {
    /// A colour value.
    ColorRef(ColorRef),
    /// A colour of the system palette.
    SysColor(SysColor),
}

} // verus!
