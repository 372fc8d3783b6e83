//! Font selection: quality words and a builder.

use vstd::prelude::*;

verus! {

/// Native font-quality word: antialiased output.
pub const ANTIALIASED_QUALITY: u32 = 4;

/// Native font-quality word: subpixel-smoothed output.
pub const CLEARTYPE_QUALITY: u32 = 5;

/// Native font-quality word: whatever the system prefers.
pub const DEFAULT_QUALITY: u32 = 0;

/// Native font-quality word: fastest rendering.
pub const DRAFT_QUALITY: u32 = 1;

/// Native font-quality word: no antialiasing.
pub const NONANTIALIASED_QUALITY: u32 = 3;

/// Native font-quality word: highest fidelity to the typeface.
pub const PROOF_QUALITY: u32 = 2;

/// How the rasterizer should render a font.
#[derive(Copy, Clone, Eq, PartialEq, Structural, Debug)]
pub enum FontQuality {
    /// Antialiased output.
    AntiAliased,
    /// Subpixel-smoothed output.
    ClearType,
    /// Whatever the system prefers.
    Default,
    /// Fastest rendering.
    Draft,
    /// No antialiasing.
    NonAntiAliased,
    /// Highest fidelity to the typeface.
    Proof,
}

impl FontQuality {
    /// Encode as the native font-quality word.
    pub fn to_native(self) -> (r: u32)
        ensures
            r == (match self {
                FontQuality::AntiAliased => ANTIALIASED_QUALITY,
                FontQuality::ClearType => CLEARTYPE_QUALITY,
                FontQuality::Default => DEFAULT_QUALITY,
                FontQuality::Draft => DRAFT_QUALITY,
                FontQuality::NonAntiAliased => NONANTIALIASED_QUALITY,
                FontQuality::Proof => PROOF_QUALITY,
            }),
    {
        match self {
            FontQuality::AntiAliased => ANTIALIASED_QUALITY,
            FontQuality::ClearType => CLEARTYPE_QUALITY,
            FontQuality::Default => DEFAULT_QUALITY,
            FontQuality::Draft => DRAFT_QUALITY,
            FontQuality::NonAntiAliased => NONANTIALIASED_QUALITY,
            FontQuality::Proof => PROOF_QUALITY,
        }
    }
}

/// Collects the description a font is created from. The native font
/// object itself is created outside this crate, from these fields.
#[derive(Copy, Clone, Eq, PartialEq, Debug)]
pub struct FontBuilder<'a> {
    /// Character height, in logical units.
    pub height: i32,
    /// Average character width; zero picks a matching width.
    pub width: i32,
    /// Name of the typeface.
    pub face_name: &'a str,
    /// Slant the glyphs.
    pub italic: bool,
    /// Underline the glyphs.
    pub underline: bool,
    /// Strike the glyphs through.
    pub strikeout: bool,
    /// How to rasterize.
    pub quality: FontQuality,
}

impl<'a> FontBuilder<'a> {
    /// Start describing a font of the given typeface and height: upright,
    /// with no underline or strikeout, rendered with subpixel smoothing.
    pub fn new(face_name: &'a str, height: i32) -> (r: Self)
        ensures
            r.height == height,
            r.width == 0,
            r.face_name@ == face_name@,
            !r.italic,
            !r.underline,
            !r.strikeout,
            r.quality == FontQuality::ClearType,
    {
        FontBuilder {
            height,
            width: 0,
            face_name,
            italic: false,
            underline: false,
            strikeout: false,
            quality: FontQuality::ClearType,
        }
    }

    /// Slant the glyphs.
    pub fn italic(&mut self) -> (r: &mut Self)
        ensures
            *r == (FontBuilder { italic: true, ..*old(self) }),
            *final(self) == *final(r),
    {
        self.italic = true;
        self
    }

    /// Underline the glyphs.
    pub fn underline(&mut self) -> (r: &mut Self)
        ensures
            *r == (FontBuilder { underline: true, ..*old(self) }),
            *final(self) == *final(r),
    {
        self.underline = true;
        self
    }
}

} // verus!
