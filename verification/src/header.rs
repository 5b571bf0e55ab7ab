//! The two fixed-size records at the start of a BMP file.
//!
//! Every field is stored little-endian, in declaration order, with no padding
//! between fields: 14 bytes for the file header, 40 for the info header.

use crate::codec::ToBytes;
use crate::endian::{
    get_i32, get_u16, get_u32, i32_at, i32_le, lemma_i32_bytes_round_trip, lemma_i32_round_trip,
    lemma_u16_bytes_round_trip, lemma_u16_round_trip, lemma_u32_bytes_round_trip,
    lemma_u32_round_trip, put_i32, put_u16, put_u32, u16_at, u16_le, u32_at, u32_le,
};
use vstd::prelude::*;

verus! {

/// Bytes that the file header takes.
pub const FILE_HEADER_SIZE: usize = 14;

/// Bytes that the info header takes.
pub const INFO_HEADER_SIZE: usize = 40;

/// Bytes that both headers take together; pixel data starts here.
pub const HEADERS_SIZE: usize = 54;

/// The signature "BM", read as a little-endian 16-bit value.
pub const BMP_MAGIC: u16 = 0x4D42;

/// The record that opens a BMP file.
#[derive(Clone, Copy, Debug, PartialEq, Eq, Structural)]
pub struct BITMAPFILEHEADER {
    /// Signature; `BMP_MAGIC` in every valid file.
    pub bf_type: u16,
    /// Declared size of the file.
    pub bf_size: u32,
    pub bf_reserved1: u16,
    pub bf_reserved2: u16,
    /// Declared offset of the pixel data from the start of the file.
    pub bf_off_bits: u32,
}

/// The record that describes the image: its dimensions and pixel format.
#[derive(Clone, Copy, Debug, PartialEq, Eq, Structural)]
pub struct BITMAPINFOHEADER {
    /// Size of this record.
    pub bi_size: u32,
    pub bi_width: i32,
    pub bi_height: i32,
    pub bi_planes: u16,
    /// Bits per pixel.
    pub bi_bit_count: u16,
    pub bi_compression: u32,
    /// Declared size of the pixel data.
    pub bi_size_image: u32,
    pub bi_x_pels_per_meter: i32,
    pub bi_y_pels_per_meter: i32,
    pub bi_clr_used: u32,
    pub bi_clr_important: u32,
}

impl BITMAPFILEHEADER {
    /// The header stored in the 14 bytes of `s` that start at `at`.
    pub open spec fn parsed_at(s: Seq<u8>, at: int) -> BITMAPFILEHEADER
        recommends
            0 <= at,
            at + 14 <= s.len(),
    {
        BITMAPFILEHEADER {
            bf_type: u16_at(s, at),
            bf_size: u32_at(s, at + 2),
            bf_reserved1: u16_at(s, at + 6),
            bf_reserved2: u16_at(s, at + 8),
            bf_off_bits: u32_at(s, at + 10),
        }
    }

    /// Reads a header from exactly 14 bytes; any other length gives `None`.
    /// No field is checked: the values are taken as they stand.
    pub fn from_bytes(bytes: &[u8]) -> (res: Option<BITMAPFILEHEADER>)
        ensures
            bytes@.len() != 14 ==> res is None,
            bytes@.len() == 14 ==> res == Some(BITMAPFILEHEADER::parsed_at(bytes@, 0)),
    {
        if bytes.len() != FILE_HEADER_SIZE {
            return None;
        }
        Some(BITMAPFILEHEADER::read(bytes, 0))
    }

    /// Reads the header at `bytes[at..at + 14]`.
    pub(crate) fn read(bytes: &[u8], at: usize) -> (h: BITMAPFILEHEADER)
        requires
            at + 14 <= bytes.len(),
        ensures
            h == BITMAPFILEHEADER::parsed_at(bytes@, at as int),
    {
        BITMAPFILEHEADER {
            bf_type: get_u16(bytes, at),
            bf_size: get_u32(bytes, at + 2),
            bf_reserved1: get_u16(bytes, at + 6),
            bf_reserved2: get_u16(bytes, at + 8),
            bf_off_bits: get_u32(bytes, at + 10),
        }
    }

    /// Appends the header's 14 bytes to `out`.
    pub(crate) fn write_to(&self, out: &mut Vec<u8>)
        ensures
            final(out)@ == old(out)@ + self.encoded(),
    {
        put_u16(out, self.bf_type);
        put_u32(out, self.bf_size);
        put_u16(out, self.bf_reserved1);
        put_u16(out, self.bf_reserved2);
        put_u32(out, self.bf_off_bits);
        assert(out@ =~= old(out)@ + self.encoded());
    }

    /// The layout is 14 bytes long and reading it back gives the header.
    pub proof fn lemma_round_trip(h: BITMAPFILEHEADER)
        ensures
            h.encoded().len() == 14,
            BITMAPFILEHEADER::parsed_at(h.encoded(), 0) == h,
    {
        let s = h.encoded();
        lemma_u16_round_trip(h.bf_type);
        lemma_u32_round_trip(h.bf_size);
        lemma_u16_round_trip(h.bf_reserved1);
        lemma_u16_round_trip(h.bf_reserved2);
        lemma_u32_round_trip(h.bf_off_bits);
        assert(u16_at(s, 0) == u16_at(u16_le(h.bf_type), 0));
        assert(u32_at(s, 2) == u32_at(u32_le(h.bf_size), 0));
        assert(u16_at(s, 6) == u16_at(u16_le(h.bf_reserved1), 0));
        assert(u16_at(s, 8) == u16_at(u16_le(h.bf_reserved2), 0));
        assert(u32_at(s, 10) == u32_at(u32_le(h.bf_off_bits), 0));
    }

    /// The header read from 14 bytes is laid out as those 14 bytes.
    pub proof fn lemma_bytes_round_trip(s: Seq<u8>, at: int)
        requires
            0 <= at,
            at + 14 <= s.len(),
        ensures
            BITMAPFILEHEADER::parsed_at(s, at).encoded() == s.subrange(at, at + 14),
    {
        lemma_u16_bytes_round_trip(s, at);
        lemma_u32_bytes_round_trip(s, at + 2);
        lemma_u16_bytes_round_trip(s, at + 6);
        lemma_u16_bytes_round_trip(s, at + 8);
        lemma_u32_bytes_round_trip(s, at + 10);
        assert(BITMAPFILEHEADER::parsed_at(s, at).encoded() =~= s.subrange(at, at + 14));
    }
}

impl ToBytes for BITMAPFILEHEADER {
    /// The five fields in declaration order, each little-endian.
    open spec fn encoded(&self) -> Seq<u8> {
        u16_le(self.bf_type) + u32_le(self.bf_size) + u16_le(self.bf_reserved1) + u16_le(
            self.bf_reserved2,
        ) + u32_le(self.bf_off_bits)
    }

    fn to_bytes(&self) -> (out: Vec<u8>) {
        let mut out: Vec<u8> = Vec::new();
        self.write_to(&mut out);
        assert(out@ =~= self.encoded());
        out
    }
}

/// Eleven consecutive pieces of `s`, of the info header's field widths, make
/// up the 40 bytes that they cover.
proof fn lemma_info_fields_join(
    s: Seq<u8>,
    at: int,
    f0: Seq<u8>,
    f1: Seq<u8>,
    f2: Seq<u8>,
    f3: Seq<u8>,
    f4: Seq<u8>,
    f5: Seq<u8>,
    f6: Seq<u8>,
    f7: Seq<u8>,
    f8: Seq<u8>,
    f9: Seq<u8>,
    f10: Seq<u8>,
)
    requires
        0 <= at,
        at + 40 <= s.len(),
        f0 == s.subrange(at, at + 4),
        f1 == s.subrange(at + 4, at + 8),
        f2 == s.subrange(at + 8, at + 12),
        f3 == s.subrange(at + 12, at + 14),
        f4 == s.subrange(at + 14, at + 16),
        f5 == s.subrange(at + 16, at + 20),
        f6 == s.subrange(at + 20, at + 24),
        f7 == s.subrange(at + 24, at + 28),
        f8 == s.subrange(at + 28, at + 32),
        f9 == s.subrange(at + 32, at + 36),
        f10 == s.subrange(at + 36, at + 40),
    ensures
        f0 + f1 + f2 + f3 + f4 + f5 + f6 + f7 + f8 + f9 + f10 == s.subrange(at, at + 40),
{
    assert(f0 + f1 + f2 + f3 + f4 + f5 + f6 + f7 + f8 + f9 + f10 =~= s.subrange(at, at + 40));
}

impl BITMAPINFOHEADER {
    /// The header stored in the 40 bytes of `s` that start at `at`.
    pub open spec fn parsed_at(s: Seq<u8>, at: int) -> BITMAPINFOHEADER
        recommends
            0 <= at,
            at + 40 <= s.len(),
    {
        BITMAPINFOHEADER {
            bi_size: u32_at(s, at),
            bi_width: i32_at(s, at + 4),
            bi_height: i32_at(s, at + 8),
            bi_planes: u16_at(s, at + 12),
            bi_bit_count: u16_at(s, at + 14),
            bi_compression: u32_at(s, at + 16),
            bi_size_image: u32_at(s, at + 20),
            bi_x_pels_per_meter: i32_at(s, at + 24),
            bi_y_pels_per_meter: i32_at(s, at + 28),
            bi_clr_used: u32_at(s, at + 32),
            bi_clr_important: u32_at(s, at + 36),
        }
    }

    /// Reads a header from exactly 40 bytes; any other length gives `None`.
    /// No field is checked: the values are taken as they stand.
    pub fn from_bytes(bytes: &[u8]) -> (res: Option<BITMAPINFOHEADER>)
        ensures
            bytes@.len() != 40 ==> res is None,
            bytes@.len() == 40 ==> res == Some(BITMAPINFOHEADER::parsed_at(bytes@, 0)),
    {
        if bytes.len() != INFO_HEADER_SIZE {
            return None;
        }
        Some(BITMAPINFOHEADER::read(bytes, 0))
    }

    /// Reads the header at `bytes[at..at + 40]`.
    pub(crate) fn read(bytes: &[u8], at: usize) -> (h: BITMAPINFOHEADER)
        requires
            at + 40 <= bytes.len(),
        ensures
            h == BITMAPINFOHEADER::parsed_at(bytes@, at as int),
    {
        BITMAPINFOHEADER {
            bi_size: get_u32(bytes, at),
            bi_width: get_i32(bytes, at + 4),
            bi_height: get_i32(bytes, at + 8),
            bi_planes: get_u16(bytes, at + 12),
            bi_bit_count: get_u16(bytes, at + 14),
            bi_compression: get_u32(bytes, at + 16),
            bi_size_image: get_u32(bytes, at + 20),
            bi_x_pels_per_meter: get_i32(bytes, at + 24),
            bi_y_pels_per_meter: get_i32(bytes, at + 28),
            bi_clr_used: get_u32(bytes, at + 32),
            bi_clr_important: get_u32(bytes, at + 36),
        }
    }

    /// Appends the header's 40 bytes to `out`.
    pub(crate) fn write_to(&self, out: &mut Vec<u8>)
        ensures
            final(out)@ == old(out)@ + self.encoded(),
    {
        put_u32(out, self.bi_size);
        put_i32(out, self.bi_width);
        put_i32(out, self.bi_height);
        put_u16(out, self.bi_planes);
        put_u16(out, self.bi_bit_count);
        put_u32(out, self.bi_compression);
        put_u32(out, self.bi_size_image);
        put_i32(out, self.bi_x_pels_per_meter);
        put_i32(out, self.bi_y_pels_per_meter);
        put_u32(out, self.bi_clr_used);
        put_u32(out, self.bi_clr_important);
        assert(out@ =~= old(out)@ + self.encoded());
    }

    /// The layout is 40 bytes long and reading it back gives the header.
    pub proof fn lemma_round_trip(h: BITMAPINFOHEADER)
        ensures
            h.encoded().len() == 40,
            BITMAPINFOHEADER::parsed_at(h.encoded(), 0) == h,
    {
        let s = h.encoded();
        lemma_u32_round_trip(h.bi_size);
        lemma_i32_round_trip(h.bi_width);
        lemma_i32_round_trip(h.bi_height);
        lemma_u16_round_trip(h.bi_planes);
        lemma_u16_round_trip(h.bi_bit_count);
        lemma_u32_round_trip(h.bi_compression);
        lemma_u32_round_trip(h.bi_size_image);
        lemma_i32_round_trip(h.bi_x_pels_per_meter);
        lemma_i32_round_trip(h.bi_y_pels_per_meter);
        lemma_u32_round_trip(h.bi_clr_used);
        lemma_u32_round_trip(h.bi_clr_important);
        assert(u32_at(s, 0) == u32_at(u32_le(h.bi_size), 0));
        assert(i32_at(s, 4) == i32_at(i32_le(h.bi_width), 0));
        assert(i32_at(s, 8) == i32_at(i32_le(h.bi_height), 0));
        assert(u16_at(s, 12) == u16_at(u16_le(h.bi_planes), 0));
        assert(u16_at(s, 14) == u16_at(u16_le(h.bi_bit_count), 0));
        assert(u32_at(s, 16) == u32_at(u32_le(h.bi_compression), 0));
        assert(u32_at(s, 20) == u32_at(u32_le(h.bi_size_image), 0));
        assert(i32_at(s, 24) == i32_at(i32_le(h.bi_x_pels_per_meter), 0));
        assert(i32_at(s, 28) == i32_at(i32_le(h.bi_y_pels_per_meter), 0));
        assert(u32_at(s, 32) == u32_at(u32_le(h.bi_clr_used), 0));
        assert(u32_at(s, 36) == u32_at(u32_le(h.bi_clr_important), 0));
    }

    /// The header read from 40 bytes is laid out as those 40 bytes.
    pub proof fn lemma_bytes_round_trip(s: Seq<u8>, at: int)
        requires
            0 <= at,
            at + 40 <= s.len(),
        ensures
            BITMAPINFOHEADER::parsed_at(s, at).encoded() == s.subrange(at, at + 40),
    {
        let h = BITMAPINFOHEADER::parsed_at(s, at);
        lemma_u32_bytes_round_trip(s, at);
        lemma_i32_bytes_round_trip(s, at + 4);
        lemma_i32_bytes_round_trip(s, at + 8);
        lemma_u16_bytes_round_trip(s, at + 12);
        lemma_u16_bytes_round_trip(s, at + 14);
        lemma_u32_bytes_round_trip(s, at + 16);
        lemma_u32_bytes_round_trip(s, at + 20);
        lemma_i32_bytes_round_trip(s, at + 24);
        lemma_i32_bytes_round_trip(s, at + 28);
        lemma_u32_bytes_round_trip(s, at + 32);
        lemma_u32_bytes_round_trip(s, at + 36);
        lemma_info_fields_join(
            s,
            at,
            u32_le(h.bi_size),
            i32_le(h.bi_width),
            i32_le(h.bi_height),
            u16_le(h.bi_planes),
            u16_le(h.bi_bit_count),
            u32_le(h.bi_compression),
            u32_le(h.bi_size_image),
            i32_le(h.bi_x_pels_per_meter),
            i32_le(h.bi_y_pels_per_meter),
            u32_le(h.bi_clr_used),
            u32_le(h.bi_clr_important),
        );
    }
}

impl ToBytes for BITMAPINFOHEADER {
    /// The eleven fields in declaration order, each little-endian, the signed
    /// ones in two's complement.
    open spec fn encoded(&self) -> Seq<u8> {
        u32_le(self.bi_size) + i32_le(self.bi_width) + i32_le(self.bi_height) + u16_le(
            self.bi_planes,
        ) + u16_le(self.bi_bit_count) + u32_le(self.bi_compression) + u32_le(self.bi_size_image)
            + i32_le(self.bi_x_pels_per_meter) + i32_le(self.bi_y_pels_per_meter) + u32_le(
            self.bi_clr_used,
        ) + u32_le(self.bi_clr_important)
    }

    fn to_bytes(&self) -> (out: Vec<u8>) {
        let mut out: Vec<u8> = Vec::new();
        self.write_to(&mut out);
        assert(out@ =~= self.encoded());
        out
    }
}

} // verus!
