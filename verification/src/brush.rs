//! Brushes and the system colour palette.
//!
//! The native brush handle lives outside this crate; a brush is modelled
//! by what it was made from: a system colour, or a raw handle obtained
//! elsewhere.

use vstd::prelude::*;

verus! {

/// A colour of the system palette. [`SysColor::to_index`] gives the
/// native colour index the palette is queried with.
#[derive(Copy, Clone, Eq, PartialEq, Structural, Debug)]
pub enum SysColor {
    /// Border of the active window.
    ActiveBorder,
    /// Caption of the active window.
    ActiveCaption,
    /// Text of disabled items.
    GrayText,
    /// Background of selected items.
    Highlight,
    /// Text of selected items.
    HighlightText,
    /// Hot-tracked items and hyperlinks.
    HotLight,
    /// Menu background.
    Menu,
    /// Window frame.
    WindowFrame,
    /// Window background.
    Window,
}

impl SysColor {
    /// The native index of this colour in the system palette.
    pub fn to_index(self) -> (r: i32)
        ensures
            r == (match self {
                SysColor::ActiveBorder => 10int,
                SysColor::ActiveCaption => 2int,
                SysColor::GrayText => 17int,
                SysColor::Highlight => 13int,
                SysColor::HighlightText => 14int,
                SysColor::HotLight => 26int,
                SysColor::Menu => 4int,
                SysColor::WindowFrame => 6int,
                SysColor::Window => 5int,
            }),
    {
        match self {
            SysColor::ActiveBorder => 10,
            SysColor::ActiveCaption => 2,
            SysColor::GrayText => 17,
            SysColor::Highlight => 13,
            SysColor::HighlightText => 14,
            SysColor::HotLight => 26,
            SysColor::Menu => 4,
            SysColor::WindowFrame => 6,
            SysColor::Window => 5,
        }
    }
}

/// A brush owned by the application; it carries the raw native handle it
/// was created with.
#[derive(Copy, Clone, Eq, PartialEq, Structural, Debug)]
pub struct OwnedBrush {
    /// The raw native brush handle.
    pub hbrush: isize,
}

/// A brush of the shared system palette, identified by its colour.
#[derive(Copy, Clone, Eq, PartialEq, Structural, Debug)]
pub struct SystemBrush(pub SysColor);

impl SystemBrush {
    /// The system brush for `color`. The system palette has a brush for
    /// every colour it defines, so this always succeeds.
    pub fn from_sys_color(color: SysColor) -> (r: Result<SystemBrush, crate::error::Error>)
        ensures
            r == Ok::<SystemBrush, crate::error::Error>(SystemBrush(color)),
    {
        Ok(SystemBrush(color))
    }
}

/// A brush: either shared from the system palette or owned.
#[derive(Copy, Clone, Eq, PartialEq, Structural, Debug)]
pub enum Brush {
    /// A shared brush of the system palette.
    System(SystemBrush),
    /// A brush the application owns.
    Owned(OwnedBrush),
}

impl Brush {
    /// The brush for a system colour; always succeeds.
    pub fn from_sys_color(color: SysColor) -> (r: Result<Brush, crate::error::Error>)
        ensures
            r == Ok::<Brush, crate::error::Error>(Brush::System(SystemBrush(color))),
    {
        let system_brush = match SystemBrush::from_sys_color(color) {
            Ok(b) => b,
            Err(e) => {
                return Err(e);
            },
        };
        Ok(Brush::System(system_brush))
    }
}

} // verus!
