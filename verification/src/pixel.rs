//! One pixel of a 24-bit image.

use crate::codec::ToBytes;
use vstd::prelude::*;

verus! {

/// Bytes that one pixel takes in a file.
pub const PIXEL_SIZE: usize = 3;

/// A pixel, with its channels in the order in which a file stores them:
/// blue, green, red.
#[derive(Clone, Copy, Debug, PartialEq, Eq, Structural)]
pub struct RGBTRIPLE {
    pub rgbt_blue: u8,
    pub rgbt_green: u8,
    pub rgbt_red: u8,
}

impl RGBTRIPLE {
    /// The pixel stored in the three bytes of `s` that start at `at`.
    pub open spec fn parsed_at(s: Seq<u8>, at: int) -> RGBTRIPLE
        recommends
            0 <= at,
            at + 3 <= s.len(),
    {
        RGBTRIPLE { rgbt_blue: s[at], rgbt_green: s[at + 1], rgbt_red: s[at + 2] }
    }

    /// The pixel of the given color.
    pub open spec fn of_rgb(r: u8, g: u8, b: u8) -> RGBTRIPLE {
        RGBTRIPLE { rgbt_blue: b, rgbt_green: g, rgbt_red: r }
    }

    /// Reads a pixel from exactly three bytes; any other length gives `None`.
    pub fn from_bytes(bytes: &[u8]) -> (res: Option<RGBTRIPLE>)
        ensures
            bytes@.len() != 3 ==> res is None,
            bytes@.len() == 3 ==> res == Some(RGBTRIPLE::parsed_at(bytes@, 0)),
    {
        if bytes.len() != PIXEL_SIZE {
            return None;
        }
        Some(RGBTRIPLE::read(bytes, 0))
    }

    /// Reads the pixel at `bytes[at..at + 3]`.
    pub(crate) fn read(bytes: &[u8], at: usize) -> (px: RGBTRIPLE)
        requires
            at + 3 <= bytes.len(),
        ensures
            px == RGBTRIPLE::parsed_at(bytes@, at as int),
    {
        RGBTRIPLE { rgbt_blue: bytes[at], rgbt_green: bytes[at + 1], rgbt_red: bytes[at + 2] }
    }

    /// Appends the pixel's three bytes to `out`.
    pub(crate) fn write_to(&self, out: &mut Vec<u8>)
        ensures
            final(out)@ == old(out)@ + self.encoded(),
    {
        out.push(self.rgbt_blue);
        out.push(self.rgbt_green);
        out.push(self.rgbt_red);
        assert(out@ =~= old(out)@ + self.encoded());
    }

    /// The layout is three bytes long and reading it back gives the pixel.
    pub proof fn lemma_round_trip(px: RGBTRIPLE)
        ensures
            px.encoded().len() == 3,
            RGBTRIPLE::parsed_at(px.encoded(), 0) == px,
    {
    }

    /// The pixel read from three bytes is laid out as those three bytes.
    pub proof fn lemma_bytes_round_trip(s: Seq<u8>, at: int)
        requires
            0 <= at,
            at + 3 <= s.len(),
        ensures
            RGBTRIPLE::parsed_at(s, at).encoded() == s.subrange(at, at + 3),
    {
        assert(RGBTRIPLE::parsed_at(s, at).encoded() =~= s.subrange(at, at + 3));
    }
}

impl ToBytes for RGBTRIPLE {
    /// Blue, green, red: one byte each.
    open spec fn encoded(&self) -> Seq<u8> {
        seq![self.rgbt_blue, self.rgbt_green, self.rgbt_red]
    }

    fn to_bytes(&self) -> (out: Vec<u8>) {
        let mut out: Vec<u8> = Vec::new();
        self.write_to(&mut out);
        assert(out@ =~= self.encoded());
        out
    }
}

} // verus!
