//! The two color representations and their native storage words.

use embedded_graphics::pixelcolor::Bgr555;
use embedded_graphics::pixelcolor::IntoStorage;
use vstd::prelude::*;

verus! {

/// An index into a color palette.
///
/// Index 0 is reserved: a consumer that supports transparency reads it as
/// "nothing here". The surfaces write it like any other index.
#[derive(Debug, Copy, Clone, PartialEq, Eq, Structural)]
pub struct PaletteColor(pub u8);

impl PaletteColor {
    /// Palette index 0 is transparent.
    pub fn transparent() -> (c: Self)
        ensures
            c.0 == 0,
    {
        PaletteColor(0)
    }

    pub fn new(index: u8) -> (c: Self)
        ensures
            c.0 == index,
    {
        PaletteColor(index)
    }

    /// The storage word of a palette color is its index.
    pub open spec fn word(self) -> u8 {
        self.0
    }

    pub fn into_storage(self) -> (w: u8)
        ensures
            w == self.word(),
    {
        self.0
    }
}

impl From<u8> for PaletteColor {
    fn from(data: u8) -> (c: Self) {
        PaletteColor(data)
    }
}

impl vstd::std_specs::convert::FromSpecImpl<u8> for PaletteColor {
    open spec fn obeys_from_spec() -> bool {
        true
    }

    open spec fn from_spec(data: u8) -> Self {
        PaletteColor(data)
    }
}

impl From<PaletteColor> for u8 {
    fn from(value: PaletteColor) -> (w: Self) {
        value.0
    }
}

impl vstd::std_specs::convert::FromSpecImpl<PaletteColor> for u8 {
    open spec fn obeys_from_spec() -> bool {
        true
    }

    open spec fn from_spec(value: PaletteColor) -> Self {
        value.0
    }
}

/// The largest value of one channel of a direct color.
pub const CHANNEL_MAX: u8 = 31;

/// The 15-bit word that holds three 5-bit channels: red in bits 0 to 4,
/// green in bits 5 to 9, blue in bits 10 to 14. Bits of a channel above its
/// low five are dropped.
pub open spec fn pack_channels(r: u8, g: u8, b: u8) -> u16 {
    ((r & 31) as u16) | (((g & 31) as u16) << 5) | (((b & 31) as u16) << 10)
}

/// A direct color of three 5-bit channels.
#[derive(Debug, Copy, Clone, PartialEq, Eq, Structural)]
pub struct DirectColor {
    pub r: u8,
    pub g: u8,
    pub b: u8,
}

/// Calls `Bgr555::new` of embedded_graphics and then `into_storage` on the
/// color it made. The contract claims that the word holds the low five bits
/// of each channel, red lowest and blue highest, and nothing in bit 15.
#[verifier::external_body]
fn bgr555_storage(r: u8, g: u8, b: u8) -> (w: u16)
    ensures
        w == pack_channels(r, g, b),
{
    Bgr555::new(r, g, b).into_storage()
}

impl DirectColor {
    /// A color of the given channels, each cut to its low five bits.
    pub fn new(r: u8, g: u8, b: u8) -> (c: Self)
        ensures
            c.r == r & 31,
            c.g == g & 31,
            c.b == b & 31,
            c.in_range(),
    {
        assert(r & 31 <= 31 && g & 31 <= 31 && b & 31 <= 31) by (bit_vector);
        DirectColor { r: r & CHANNEL_MAX, g: g & CHANNEL_MAX, b: b & CHANNEL_MAX }
    }

    /// Every channel lies in the 5-bit domain.
    pub open spec fn in_range(self) -> bool {
        self.r <= 31 && self.g <= 31 && self.b <= 31
    }

    /// The native storage word of the color.
    pub open spec fn word(self) -> u16 {
        pack_channels(self.r, self.g, self.b)
    }

    pub fn into_storage(self) -> (w: u16)
        ensures
            w == self.word(),
            w < 0x8000,
    {
        let w: u16 = bgr555_storage(self.r, self.g, self.b);
        proof {
            lemma_word_is_15_bit(self.r, self.g, self.b);
        }
        w
    }

    /// The color that a storage word holds. Bit 15 is not part of any channel.
    pub open spec fn from_word(w: u16) -> DirectColor {
        DirectColor { r: (w & 31) as u8, g: ((w >> 5) & 31) as u8, b: ((w >> 10) & 31) as u8 }
    }

    pub fn from_storage(w: u16) -> (c: Self)
        ensures
            c == Self::from_word(w),
            c.in_range(),
    {
        assert(w & 31 <= 31 && (w >> 5) & 31 <= 31 && (w >> 10) & 31 <= 31) by (bit_vector);
        DirectColor {
            r: (w & 31) as u8,
            g: ((w >> 5) & 31) as u8,
            b: ((w >> 10) & 31) as u8,
        }
    }
}

/// A packed word never uses bit 15.
pub proof fn lemma_word_is_15_bit(r: u8, g: u8, b: u8)
    ensures
        pack_channels(r, g, b) < 0x8000,
{
    assert((((r & 31) as u16) | (((g & 31) as u16) << 5) | (((b & 31) as u16) << 10)) < 0x8000)
        by (bit_vector);
}

/// Within the 5-bit domain the conversion to the storage word loses nothing:
/// reading the word back gives the color that was packed.
pub proof fn lemma_storage_round_trip(c: DirectColor)
    requires
        c.in_range(),
    ensures
        DirectColor::from_word(c.word()) == c,
{
    let r: u8 = c.r;
    let g: u8 = c.g;
    let b: u8 = c.b;
    let w: u16 = pack_channels(r, g, b);
    assert(r <= 31 && g <= 31 && b <= 31 && w == (((r & 31) as u16) | (((g & 31) as u16) << 5) | (((b
        & 31) as u16) << 10)) ==> (w & 31) as u8 == r && ((w >> 5) & 31) as u8 == g && ((w >> 10)
        & 31) as u8 == b) by (bit_vector);
}

/// Every 15-bit word is the storage word of the color read from it.
pub proof fn lemma_word_round_trip(w: u16)
    requires
        w < 0x8000,
    ensures
        DirectColor::from_word(w).word() == w,
{
    assert(w < 0x8000 ==> ((((w & 31) as u8 & 31) as u16) | (((((w >> 5) & 31) as u8 & 31) as u16)
        << 5) | (((((w >> 10) & 31) as u8 & 31) as u16) << 10)) == w) by (bit_vector);
}

} // verus!
