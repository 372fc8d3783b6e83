//! 24-bit colours in the native `0x00BBGGRR` layout.

use vstd::prelude::*;

verus! {

/// A colour reference: red in the low byte, green in the middle byte,
/// blue above that. Bits 24..31 carry no colour information.
#[derive(Copy, Clone, Eq, PartialEq, Structural, Debug)]
pub struct ColorRef(u32);

impl ColorRef {
    /// Black.
    pub fn black() -> (c: ColorRef)
        ensures
            c.value() == 0x00_00_00,
    {
        ColorRef(0x00_00_00)
    }

    /// White.
    pub fn white() -> (c: ColorRef)
        ensures
            c.value() == 0xff_ff_ff,
    {
        ColorRef(0xff_ff_ff)
    }

    /// Pure red: the low byte of the stored word.
    pub fn red_color() -> (c: ColorRef)
        ensures
            c.value() == 0x00_00_ff,
    {
        ColorRef(0x00_00_ff)
    }

    /// Pure green: the middle byte of the stored word.
    pub fn green_color() -> (c: ColorRef)
        ensures
            c.value() == 0x00_ff_00,
    {
        ColorRef(0x00_ff_00)
    }

    /// Pure blue: the high colour byte of the stored word.
    pub fn blue_color() -> (c: ColorRef)
        ensures
            c.value() == 0xff_00_00,
    {
        ColorRef(0xff_00_00)
    }

    /// The raw `0x00BBGGRR` word.
    pub closed spec fn value(self) -> u32 {
        self.0
    }

    /// The red channel, `0..=255`.
    pub open spec fn red(self) -> u32 {
        self.value() % 0x100
    }

    /// The green channel, `0..=255`.
    pub open spec fn green(self) -> u32 {
        (self.value() / 0x100) % 0x100
    }

    /// The blue channel, `0..=255`.
    pub open spec fn blue(self) -> u32 {
        (self.value() / 0x10000) % 0x100
    }

    pub fn from_rgb(r: u8, b: u8, g: u8) -> (c: ColorRef)
        ensures
            c.red() == r,
            c.green() == g,
            c.blue() == b,
            c.value() < 0x1000000,
    {
        let u = (r as u32) | ((g as u32) << 8) | ((b as u32) << 16);
        proof {
            assert(u % 0x100 == r && (u / 0x100) % 0x100 == g && (u / 0x10000) % 0x100 == b
                && u < 0x1000000) by (bit_vector)
                requires
                    u == (r as u32) | ((g as u32) << 8) | ((b as u32) << 16),
                    r < 0x100,
                    g < 0x100,
                    b < 0x100,
            ;
        }
        ColorRef(u)
    }

    pub fn as_u32(self) -> (r: u32)
        ensures
            r == self.value(),
    {
        self.0
    }

    /// Red is in the low byte of `u`, as in the stored layout.
    pub fn from_u32_bgr(u: u32) -> (c: Self)
        ensures
            c.value() == u,
    {
        Self(u)
    }

    /// Bits 24..31 of `u` are ignored.
    /// Bits 16..23 are red, bits 8..15 are green, bits 0..7 are blue.
    pub fn from_u32_rgb(u: u32) -> (c: Self)
        ensures
            c.red() == (u / 0x10000) % 0x100,
            c.green() == (u / 0x100) % 0x100,
            c.blue() == u % 0x100,
            c.value() < 0x1000000,
    {
        let v = ((u >> 16) & 0xff) // red
        | (u & 0xff00) // green
        | ((u & 0xff) << 16);
        proof {
            assert(v % 0x100 == (u >> 16) & 0xff && (v / 0x100) % 0x100 == (u >> 8) & 0xff
                && (v / 0x10000) % 0x100 == u & 0xff && v < 0x1000000) by (bit_vector)
                requires
                    v == ((u >> 16) & 0xff) | (u & 0xff00) | ((u & 0xff) << 16),
            ;
            assert((u >> 16) & 0xff == (u / 0x10000) % 0x100 && (u >> 8) & 0xff == (u / 0x100)
                % 0x100 && u & 0xff == u % 0x100) by (bit_vector);
        }
        Self(v)
    }
}

} // verus!
