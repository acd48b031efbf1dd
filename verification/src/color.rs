//! The panel's fixed color model: a 16-bit value packing 5 bits of red,
//! 6 bits of green and 5 bits of blue, transmitted big-endian on the wire.

use vstd::prelude::*;

verus! {

/// A 5-6-5 packed color: red in bits 11..16, green in bits 5..11, blue in
/// bits 0..5 of the 16-bit value.
#[derive(Clone, Copy, Debug, PartialEq, Eq, Structural)]
pub struct Rgb565 {
    pub raw: u16,
}

impl Rgb565 {
    /// The packed value of the three channels; channel values wider than
    /// their field are limited by dropping the excess most significant bits.
    pub open spec fn spec_pack(r: u8, g: u8, b: u8) -> u16 {
        ((((r & 0x1f) as u16) << 11) | (((g & 0x3f) as u16) << 5) | ((b & 0x1f) as u16)) as u16
    }

    pub fn new(r: u8, g: u8, b: u8) -> (c: Rgb565)
        ensures
            c.raw == Self::spec_pack(r, g, b),
    {
        Rgb565 { raw: (((r & 0x1f) as u16) << 11) | (((g & 0x3f) as u16) << 5) | ((b & 0x1f) as u16) }
    }

    pub fn from_raw(raw: u16) -> (c: Rgb565)
        ensures
            c == (Rgb565 { raw }),
    {
        Rgb565 { raw }
    }

    /// The two wire bytes of the color, most significant byte first.
    pub open spec fn spec_to_be_bytes(self) -> Seq<u8> {
        seq![(self.raw >> 8) as u8, (self.raw & 0xff) as u8]
    }

    pub fn to_be_bytes(self) -> (r: [u8; 2])
        ensures
            r@ == self.spec_to_be_bytes(),
    {
        let bytes: [u8; 2] = [(self.raw >> 8) as u8, (self.raw & 0xff) as u8];
        proof {
            assert(bytes@ =~= self.spec_to_be_bytes());
        }
        bytes
    }

    /// The color whose wire bytes are `hi` then `lo`.
    pub open spec fn spec_from_be_bytes(hi: u8, lo: u8) -> Rgb565 {
        Rgb565 { raw: (((hi as u16) << 8) | (lo as u16)) as u16 }
    }

    pub fn from_be_bytes(hi: u8, lo: u8) -> (c: Rgb565)
        ensures
            c == Self::spec_from_be_bytes(hi, lo),
    {
        Rgb565 { raw: ((hi as u16) << 8) | (lo as u16) }
    }
}

/// Law: decoding the two transmitted bytes of a color under the big-endian
/// 5-6-5 scheme reproduces the original 16-bit value exactly.
pub proof fn lemma_be_round_trip(c: Rgb565)
    ensures
        Rgb565::spec_from_be_bytes(c.spec_to_be_bytes()[0], c.spec_to_be_bytes()[1]) == c,
{
    let raw = c.raw;
    assert(((((raw >> 8) as u8 as u16) << 8) | ((raw & 0xff) as u8 as u16)) as u16 == raw)
        by (bit_vector);
}

/// The byte stream for a sequence of colors: two bytes per color, colors in
/// input order, never reordered.
pub open spec fn encoded_colors(colors: Seq<Rgb565>) -> Seq<u8>
    decreases colors.len(),
{
    if colors.len() == 0 {
        Seq::empty()
    } else {
        encoded_colors(colors.drop_last()) + colors.last().spec_to_be_bytes()
    }
}

/// The byte stream of `n` colors holds exactly `2 * n` bytes.
pub proof fn lemma_encoded_colors_len(colors: Seq<Rgb565>)
    ensures
        encoded_colors(colors).len() == 2 * colors.len(),
    decreases colors.len(),
{
    if colors.len() > 0 {
        lemma_encoded_colors_len(colors.drop_last());
    }
}

/// Extending a prefix of the color stream by one color appends exactly that
/// color's two bytes.
pub proof fn lemma_encoded_colors_take_step(colors: Seq<Rgb565>, i: int)
    requires
        0 <= i < colors.len(),
    ensures
        encoded_colors(colors.take(i + 1)) == encoded_colors(colors.take(i)) + colors[i].spec_to_be_bytes(),
{
    assert(colors.take(i + 1).drop_last() =~= colors.take(i));
    assert(colors.take(i + 1).last() == colors[i]);
}

} // verus!
