//! Decoding of packed native message words.

use vstd::prelude::*;

verus! {

/// Native modifier bit: a mouse button or key held during the message.
pub const MK_LBUTTON: u16 = 0x1;

/// Native modifier bit: the right mouse button is held.
pub const MK_RBUTTON: u16 = 0x2;

/// Native modifier bit: the Shift key is held.
pub const MK_SHIFT: u16 = 0x4;

/// Native modifier bit: the Control key is held.
pub const MK_CONTROL: u16 = 0x8;

/// Native modifier bit: the middle mouse button is held.
pub const MK_MBUTTON: u16 = 0x10;

/// The low 16 bits of a message's first parameter word.
pub fn wparam_loword(wp: usize) -> (r: u16)
    ensures
        r == wp % 0x10000,
{
    let r = (wp & 0xffff) as u16;
    proof {
        assert(r == wp % 0x10000) by (bit_vector)
            requires
                r == (wp & 0xffff) as u16,
        ;
    }
    r
}

/// Bits 16..31 of a message's first parameter word.
pub fn wparam_hiword(wp: usize) -> (r: u16)
    ensures
        r == (wp / 0x10000) % 0x10000,
{
    let r = ((wp >> 16) & 0xffff) as u16;
    proof {
        assert(r == (wp / 0x10000) % 0x10000) by (bit_vector)
            requires
                r == ((wp >> 16) & 0xffff) as u16,
        ;
    }
    r
}

/// Which modifier keys and mouse buttons were held when a mouse message
/// was generated, as the packed native word.
#[derive(Copy, Clone, Eq, PartialEq, Structural)]
pub struct ModifierKeys(pub u16);

impl ModifierKeys {
    /// The Control key was held.
    pub fn control(&self) -> (r: bool)
        ensures
            r == (self.0 & MK_CONTROL != 0),
    {
        self.0 & MK_CONTROL != 0
    }

    /// The Shift key was held.
    pub fn shift(&self) -> (r: bool)
        ensures
            r == (self.0 & MK_SHIFT != 0),
    {
        self.0 & MK_SHIFT != 0
    }

    /// The left mouse button was held.
    pub fn lbutton(&self) -> (r: bool)
        ensures
            r == (self.0 & MK_LBUTTON != 0),
    {
        self.0 & MK_LBUTTON != 0
    }

    /// The middle mouse button was held.
    pub fn mbutton(&self) -> (r: bool)
        ensures
            r == (self.0 & MK_MBUTTON != 0),
    {
        self.0 & MK_MBUTTON != 0
    }

    /// The right mouse button was held.
    pub fn rbutton(&self) -> (r: bool)
        ensures
            r == (self.0 & MK_RBUTTON != 0),
    {
        self.0 & MK_RBUTTON != 0
    }

    /// Decode the modifier word from a message's first parameter.
    pub fn from_wparam(wparam: usize) -> (r: Self)
        ensures
            r.0 == wparam % 0x10000,
    {
        Self(wparam_loword(wparam))
    }
}

} // verus!
