use vstd::prelude::*;

verus! {

/// A packed 32-bit pixel, tagged with its channel order.
#[derive(Debug, PartialEq, Eq)]
pub enum ColorU32 {
    /// `0xRRGGBBAA`
    Rgba(u32),
    /// `0xAARRGGBB`, the order X11 expects
    Argb(u32),
}

/// Four 8-bit channels.
#[derive(Debug, PartialEq, Eq, Structural, Clone, Copy)]
pub struct Color {
    r: u8,
    g: u8,
    b: u8,
    a: u8,
}

/// Byte `i` of `v`, counted from the least significant one.
pub open spec fn byte_at(v: u32, i: nat) -> u8 {
    if i == 0 {
        (v % 0x100) as u8
    } else if i == 1 {
        ((v / 0x100) % 0x100) as u8
    } else if i == 2 {
        ((v / 0x1_0000) % 0x100) as u8
    } else {
        ((v / 0x100_0000) % 0x100) as u8
    }
}

/// The 32-bit value whose bytes are, from the most significant down, `b3 b2 b1 b0`.
pub open spec fn word_of(b3: u8, b2: u8, b1: u8, b0: u8) -> u32 {
    (b3 * 0x100_0000 + b2 * 0x1_0000 + b1 * 0x100 + b0) as u32
}

/// `v` with its four bytes in reverse order.
pub open spec fn byte_swapped(v: u32) -> u32 {
    word_of(byte_at(v, 0), byte_at(v, 1), byte_at(v, 2), byte_at(v, 3))
}

/// A word made of four bytes has those bytes.
pub proof fn lemma_bytes_of_word(b3: u8, b2: u8, b1: u8, b0: u8)
    ensures
        byte_at(word_of(b3, b2, b1, b0), 3) == b3,
        byte_at(word_of(b3, b2, b1, b0), 2) == b2,
        byte_at(word_of(b3, b2, b1, b0), 1) == b1,
        byte_at(word_of(b3, b2, b1, b0), 0) == b0,
{
    let (w3, w2, w1, w0) = (b3 as u32, b2 as u32, b1 as u32, b0 as u32);
    let w: u32 = word_of(b3, b2, b1, b0);
    assert(w == w3 * 0x100_0000 + w2 * 0x1_0000 + w1 * 0x100 + w0);
    assert((w / 0x100_0000) % 0x100 == w3 && (w / 0x1_0000) % 0x100 == w2 && (w / 0x100) % 0x100
        == w1 && w % 0x100 == w0) by (bit_vector)
        requires
            w3 < 0x100,
            w2 < 0x100,
            w1 < 0x100,
            w0 < 0x100,
            w == w3 * 0x100_0000 + w2 * 0x1_0000 + w1 * 0x100 + w0,
    ;
}

/// A word is made of its four bytes.
pub proof fn lemma_word_of_bytes(v: u32)
    ensures
        word_of(byte_at(v, 3), byte_at(v, 2), byte_at(v, 1), byte_at(v, 0)) == v,
{
    assert(((v / 0x100_0000) % 0x100) * 0x100_0000 + ((v / 0x1_0000) % 0x100) * 0x1_0000 + ((v
        / 0x100) % 0x100) * 0x100 + v % 0x100 == v) by (bit_vector);
}

/// `u32::to_le`: the argument itself on a little-endian target, the argument
/// with its bytes reversed on a big-endian one.
#[verifier::external_body]
fn to_le(v: u32) -> (r: u32)
    ensures
        r == v || r == byte_swapped(v),
{
    v.to_le()
}

/// The bytes of a word are what its shifts and masks extract.
proof fn lemma_bytes_by_shift(v: u32)
    ensures
        (v >> 24u32) & 0xFF == byte_at(v, 3),
        (v >> 16u32) & 0xFF == byte_at(v, 2),
        (v >> 8u32) & 0xFF == byte_at(v, 1),
        (v >> 0u32) & 0xFF == byte_at(v, 0),
{
    assert((v >> 24u32) & 0xFF == (v / 0x100_0000) % 0x100) by (bit_vector);
    assert((v >> 16u32) & 0xFF == (v / 0x1_0000) % 0x100) by (bit_vector);
    assert((v >> 8u32) & 0xFF == (v / 0x100) % 0x100) by (bit_vector);
    assert((v >> 0u32) & 0xFF == v % 0x100) by (bit_vector);
}

/// Or-ing four bytes into their lanes adds them up.
proof fn lemma_word_by_or(b3: u32, b2: u32, b1: u32, b0: u32)
    requires
        b3 < 0x100,
        b2 < 0x100,
        b1 < 0x100,
        b0 < 0x100,
    ensures
        b0 | b1 << 8u32 | b2 << 16u32 | b3 << 24u32 == word_of(
            b3 as u8,
            b2 as u8,
            b1 as u8,
            b0 as u8,
        ),
{
    assert(b0 | b1 << 8u32 | b2 << 16u32 | b3 << 24u32 == b3 * 0x100_0000 + b2 * 0x1_0000 + b1
        * 0x100 + b0) by (bit_vector)
        requires
            b3 < 0x100,
            b2 < 0x100,
            b1 < 0x100,
            b0 < 0x100,
    ;
}

impl Color {
    /// The colour with the given channels.
    pub closed spec fn rgba(r: u8, g: u8, b: u8, a: u8) -> Color {
        Color { r, g, b, a }
    }

    /// The red channel.
    pub closed spec fn red(self) -> u8 {
        self.r
    }

    /// The green channel.
    pub closed spec fn green(self) -> u8 {
        self.g
    }

    /// The blue channel.
    pub closed spec fn blue(self) -> u8 {
        self.b
    }

    /// The alpha channel.
    pub closed spec fn alpha(self) -> u8 {
        self.a
    }

    /// The colour that the word `0xRRGGBBAA` spells.
    pub open spec fn of_rgba(v: u32) -> Color {
        Self::rgba(byte_at(v, 3), byte_at(v, 2), byte_at(v, 1), byte_at(v, 0))
    }

    /// The colour that the word `0xAARRGGBB` spells.
    pub open spec fn of_argb(v: u32) -> Color {
        Self::rgba(byte_at(v, 2), byte_at(v, 1), byte_at(v, 0), byte_at(v, 3))
    }

    /// The word `0xAARRGGBB` that spells this colour.
    pub open spec fn argb_word(self) -> u32 {
        word_of(self.alpha(), self.red(), self.green(), self.blue())
    }

    /// A colour is `rgba` of its channels, and `rgba` has the channels it was given.
    pub proof fn lemma_channels(self, r: u8, g: u8, b: u8, a: u8)
        ensures
            self == Self::rgba(self.red(), self.green(), self.blue(), self.alpha()),
            Self::rgba(r, g, b, a).red() == r,
            Self::rgba(r, g, b, a).green() == g,
            Self::rgba(r, g, b, a).blue() == b,
            Self::rgba(r, g, b, a).alpha() == a,
    {
    }

    /// Packing a colour as `0xAARRGGBB` and reading the word back gives the
    /// colour again, and reading a word and packing the colour gives the
    /// word again.
    pub proof fn lemma_argb_round_trip(self, v: u32)
        ensures
            Self::of_argb(self.argb_word()) == self,
            Self::of_argb(v).argb_word() == v,
    {
        lemma_bytes_of_word(self.a, self.r, self.g, self.b);
        lemma_word_of_bytes(v);
    }

    pub fn new(r: u8, g: u8, b: u8, a: u8) -> (c: Self)
        ensures
            c == Self::rgba(r, g, b, a),
    {
        Self { r, g, b, a }
    }

    pub fn r(&self) -> (v: u8)
        ensures
            v == self.red(),
    {
        self.r
    }

    pub fn g(&self) -> (v: u8)
        ensures
            v == self.green(),
    {
        self.g
    }

    pub fn b(&self) -> (v: u8)
        ensures
            v == self.blue(),
    {
        self.b
    }

    pub fn a(&self) -> (v: u8)
        ensures
            v == self.alpha(),
    {
        self.a
    }

    pub fn set_r(&mut self, r: u8)
        ensures
            *final(self) == Self::rgba(r, old(self).green(), old(self).blue(), old(self).alpha()),
    {
        self.r = r;
    }

    pub fn set_g(&mut self, g: u8)
        ensures
            *final(self) == Self::rgba(old(self).red(), g, old(self).blue(), old(self).alpha()),
    {
        self.g = g;
    }

    pub fn set_b(&mut self, b: u8)
        ensures
            *final(self) == Self::rgba(old(self).red(), old(self).green(), b, old(self).alpha()),
    {
        self.b = b;
    }

    pub fn set_alpha(&mut self, a: u8)
        ensures
            *final(self) == Self::rgba(old(self).red(), old(self).green(), old(self).blue(), a),
    {
        self.a = a;
    }

    /// The channels, each widened to 32 bits: red, green, blue, alpha.
    fn unpack(&self) -> (t: (u32, u32, u32, u32))
        ensures
            t.0 == self.red(),
            t.1 == self.green(),
            t.2 == self.blue(),
            t.3 == self.alpha(),
    {
        (self.r as u32, self.g as u32, self.b as u32, self.a as u32)
    }

    /// Reads `v` as `0xRRGGBBAA`, whatever the target's byte order.
    pub fn decode_rgba(v: u32) -> (c: Self)
        ensures
            c == Self::of_rgba(v),
    {
        proof {
            lemma_bytes_by_shift(v);
        }
        Self {
            r: (v >> (8 * 3) & 0xFF) as u8,
            g: (v >> (8 * 2) & 0xFF) as u8,
            b: (v >> (8 * 1) & 0xFF) as u8,
            a: (v >> (8 * 0) & 0xFF) as u8,
        }
    }

    /// Reads `v` as `0xAARRGGBB`, whatever the target's byte order.
    pub fn decode_argb(v: u32) -> (c: Self)
        ensures
            c == Self::of_argb(v),
    {
        proof {
            lemma_bytes_by_shift(v);
        }
        Self {
            a: (v >> (8 * 3) & 0xFF) as u8,
            r: (v >> (8 * 2) & 0xFF) as u8,
            g: (v >> (8 * 1) & 0xFF) as u8,
            b: (v >> (8 * 0) & 0xFF) as u8,
        }
    }

    /// Whether `c` is what `from_rgba` may make of `v`: `v` read as `0xRRGGBBAA`
    /// once it has been brought to little-endian order.
    pub open spec fn reads_rgba(v: u32, c: Color) -> bool {
        c == Self::of_rgba(v) || c == Self::of_rgba(byte_swapped(v))
    }

    /// Whether `c` is what `from_argb` may make of `v`: `v` read as `0xAARRGGBB`
    /// once it has been brought to little-endian order.
    pub open spec fn reads_argb(v: u32, c: Color) -> bool {
        c == Self::of_argb(v) || c == Self::of_argb(byte_swapped(v))
    }

    pub fn from_rgba(c: u32) -> (color: Self)
        ensures
            Self::reads_rgba(c, color),
    {
        let v: u32 = to_le(c);
        Self::decode_rgba(v)
    }

    pub fn from_argb(c: u32) -> (color: Self)
        ensures
            Self::reads_argb(c, color),
    {
        let v: u32 = to_le(c);
        Self::decode_argb(v)
    }

    /// Packs the channels as `0xAARRGGBB`.
    pub fn to_argb(self) -> (v: u32)
        ensures
            v == self.argb_word(),
    {
        let (r, g, b, a) = self.unpack();
        proof {
            lemma_word_by_or(a, r, g, b);
        }
        b | g << 8 | r << 16 | a << 24
    }
}

/// A bare word is read in X11 order, `0xAARRGGBB`.
impl From<u32> for Color {
    fn from(value: u32) -> (c: Self)
        ensures
            Color::reads_argb(value, c),
    {
        Self::from_argb(value)
    }
}

impl vstd::std_specs::convert::FromSpecImpl<u32> for Color {
    /// The result depends on the target's byte order, so no one value is promised.
    open spec fn obeys_from_spec() -> bool {
        false
    }

    open spec fn from_spec(v: u32) -> Color {
        Color::of_argb(v)
    }
}

/// Channels in the order red, green, blue, alpha.
impl From<[u8; 4]> for Color {
    fn from(value: [u8; 4]) -> (c: Self) {
        Self::new(value[0], value[1], value[2], value[3])
    }
}

impl vstd::std_specs::convert::FromSpecImpl<[u8; 4]> for Color {
    open spec fn obeys_from_spec() -> bool {
        true
    }

    open spec fn from_spec(v: [u8; 4]) -> Color {
        Color::rgba(v[0], v[1], v[2], v[3])
    }
}

impl From<ColorU32> for Color {
    fn from(value: ColorU32) -> (c: Self)
        ensures
            match value {
                ColorU32::Rgba(v) => Color::reads_rgba(v, c),
                ColorU32::Argb(v) => Color::reads_argb(v, c),
            },
    {
        match value {
            ColorU32::Rgba(v) => Self::from_rgba(v),
            ColorU32::Argb(v) => Self::from_argb(v),
        }
    }
}

impl vstd::std_specs::convert::FromSpecImpl<ColorU32> for Color {
    /// The result depends on the target's byte order, so no one value is promised.
    open spec fn obeys_from_spec() -> bool {
        false
    }

    open spec fn from_spec(v: ColorU32) -> Color {
        match v {
            ColorU32::Rgba(w) => Color::of_rgba(w),
            ColorU32::Argb(w) => Color::of_argb(w),
        }
    }
}

/// A colour becomes a word in X11 order, `0xAARRGGBB`.
impl From<Color> for u32 {
    fn from(value: Color) -> (v: u32) {
        value.to_argb()
    }
}

impl vstd::std_specs::convert::FromSpecImpl<Color> for u32 {
    open spec fn obeys_from_spec() -> bool {
        true
    }

    open spec fn from_spec(v: Color) -> u32 {
        v.argb_word()
    }
}

impl Default for Color {
    fn default() -> (c: Self)
        ensures
            c == Color::rgba(0, 0, 0, 0),
    {
        Color { r: 0, g: 0, b: 0, a: 0 }
    }
}

} // verus!
