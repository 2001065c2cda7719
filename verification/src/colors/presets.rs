use vstd::prelude::*;

use crate::colors::color::Color;

verus! {

/// The named colours of the palette.
#[derive(Clone, Copy, PartialEq, Eq, Structural)]
pub enum GrapesColors {
    Black,
    White,
    GrapesBlack,
    GrapesWhite,
    LightGray,
    Gray,
    DarkGray,
    Red,
    GrapesRed,
    Green,
    GrapesGreen,
    DBlue,
    GrapesBlue,
    Purple,
    Teal,
    Maroon,
    Orange,
    Yellow,
    Transparent,
}

impl GrapesColors {
    /// The colour's word, `0xRRGGBBAA`.
    pub open spec fn word(self) -> u32 {
        match self {
            GrapesColors::Black => 0x000000FF,
            GrapesColors::White => 0xFFFFFFFF,
            GrapesColors::GrapesBlack => 0x222222FF,
            GrapesColors::GrapesWhite => 0xFFFFEEFF,
            GrapesColors::LightGray => 0x6D6D6DFF,
            GrapesColors::Gray => 0x999999FF,
            GrapesColors::DarkGray => 0x5E5E5EFF,
            GrapesColors::Red => 0xFF0000FF,
            GrapesColors::GrapesRed => 0x8C0707FF,
            GrapesColors::Green => 0x00FF00FF,
            GrapesColors::GrapesGreen => 0x319939FF,
            GrapesColors::DBlue => 0x0000FFFF,
            GrapesColors::GrapesBlue => 0x272FA3FF,
            GrapesColors::Purple => 0x5F1D99FF,
            GrapesColors::Teal => 0x008080FF,
            GrapesColors::Maroon => 0x550000FF,
            GrapesColors::Orange => 0xCF8608FF,
            GrapesColors::Yellow => 0xD4C222FF,
            GrapesColors::Transparent => 0,
        }
    }

    /// The colour's word, `0xRRGGBBAA`.
    pub fn code(self) -> (v: u32)
        ensures
            v == self.word(),
    {
        match self {
            GrapesColors::Black => 0x000000FF,
            GrapesColors::White => 0xFFFFFFFF,
            GrapesColors::GrapesBlack => 0x222222FF,
            GrapesColors::GrapesWhite => 0xFFFFEEFF,
            GrapesColors::LightGray => 0x6D6D6DFF,
            GrapesColors::Gray => 0x999999FF,
            GrapesColors::DarkGray => 0x5E5E5EFF,
            GrapesColors::Red => 0xFF0000FF,
            GrapesColors::GrapesRed => 0x8C0707FF,
            GrapesColors::Green => 0x00FF00FF,
            GrapesColors::GrapesGreen => 0x319939FF,
            GrapesColors::DBlue => 0x0000FFFF,
            GrapesColors::GrapesBlue => 0x272FA3FF,
            GrapesColors::Purple => 0x5F1D99FF,
            GrapesColors::Teal => 0x008080FF,
            GrapesColors::Maroon => 0x550000FF,
            GrapesColors::Orange => 0xCF8608FF,
            GrapesColors::Yellow => 0xD4C222FF,
            GrapesColors::Transparent => 0,
        }
    }
}

impl From<GrapesColors> for Color {
    fn from(value: GrapesColors) -> (c: Self)
        ensures
            Color::reads_rgba(value.word(), c),
    {
        Self::from_rgba(value.code())
    }
}

impl vstd::std_specs::convert::FromSpecImpl<GrapesColors> for Color {
    /// The result depends on the target's byte order, so no one value is promised.
    open spec fn obeys_from_spec() -> bool {
        false
    }

    open spec fn from_spec(v: GrapesColors) -> Color {
        Color::of_rgba(v.word())
    }
}

/// A named colour becomes a word in X11 order, `0xAARRGGBB`.
impl From<GrapesColors> for u32 {
    fn from(value: GrapesColors) -> (v: u32)
        ensures
            exists|c: Color| Color::reads_rgba(value.word(), c) && v == c.argb_word(),
    {
        let clr = Color::from(value);
        clr.to_argb()
    }
}

impl vstd::std_specs::convert::FromSpecImpl<GrapesColors> for u32 {
    /// The result depends on the target's byte order, so no one value is promised.
    open spec fn obeys_from_spec() -> bool {
        false
    }

    open spec fn from_spec(v: GrapesColors) -> u32 {
        Color::of_rgba(v.word()).argb_word()
    }
}

} // verus!
