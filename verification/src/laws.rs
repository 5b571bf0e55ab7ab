//! What holds of the layout as a whole: its length, and that encoding and
//! decoding undo each other.

use crate::codec::ToBytes;
use crate::error::BmpError;
use crate::header::{BITMAPFILEHEADER, BITMAPINFOHEADER};
use crate::image::{parsed_pixels, pixel_bytes, BmpView, SizeFields};
use crate::pixel::RGBTRIPLE;
use vstd::prelude::*;

verus! {

/// Appending one pixel to a run appends its three bytes to the run's bytes.
pub proof fn lemma_pixel_bytes_push(pixels: Seq<RGBTRIPLE>, px: RGBTRIPLE)
    ensures
        pixel_bytes(pixels.push(px)) == pixel_bytes(pixels) + px.encoded(),
{
    assert(pixel_bytes(pixels.push(px)) =~= pixel_bytes(pixels) + px.encoded());
}

/// Three bytes at a time, a run of bytes spells out pixels whose bytes are
/// that run.
pub proof fn lemma_parsed_pixels_encode_back(s: Seq<u8>, at: int)
    requires
        0 <= at <= s.len(),
        (s.len() - at) % 3 == 0,
    ensures
        pixel_bytes(parsed_pixels(s, at)) == s.subrange(at, s.len() as int),
{
    assert(pixel_bytes(parsed_pixels(s, at)) =~= s.subrange(at, s.len() as int));
}

/// Reading back the bytes of a run of pixels gives the run.
pub proof fn lemma_pixel_bytes_parse_back(head: Seq<u8>, pixels: Seq<RGBTRIPLE>)
    ensures
        pixel_bytes(pixels).len() == 3 * pixels.len(),
        parsed_pixels(head + pixel_bytes(pixels), head.len() as int) == pixels,
{
    let s = head + pixel_bytes(pixels);
    assert(parsed_pixels(s, head.len() as int) =~= pixels);
}

/// A file of 54 bytes and whole pixels is the layout of the image that it
/// spells out.
pub proof fn lemma_parsed_encodes_back(bytes: Seq<u8>)
    requires
        bytes.len() >= 54,
        (bytes.len() - 54) % 3 == 0,
    ensures
        BmpView::parsed(bytes).encoded() == bytes,
{
    BITMAPFILEHEADER::lemma_bytes_round_trip(bytes, 0);
    BITMAPINFOHEADER::lemma_bytes_round_trip(bytes, 14);
    lemma_parsed_pixels_encode_back(bytes, 54);
    assert(bytes.subrange(0, 14) + bytes.subrange(14, 54) + bytes.subrange(54, bytes.len() as int)
        =~= bytes);
}

/// A file is 54 bytes of headers and three bytes for each pixel.
pub proof fn lemma_encoded_len(v: BmpView)
    ensures
        v.encoded().len() == 54 + 3 * v.pixels.len(),
{
    BITMAPFILEHEADER::lemma_round_trip(v.fileheader);
    BITMAPINFOHEADER::lemma_round_trip(v.infoheader);
}

/// Reading back the layout of an image spells out that image.
pub proof fn lemma_encoded_parses_back(v: BmpView)
    ensures
        BmpView::parsed(v.encoded()) == v,
{
    let fh = v.fileheader.encoded();
    let ih = v.infoheader.encoded();
    let px = pixel_bytes(v.pixels);
    let s = v.encoded();
    BITMAPFILEHEADER::lemma_round_trip(v.fileheader);
    BITMAPINFOHEADER::lemma_round_trip(v.infoheader);
    lemma_pixel_bytes_parse_back(fh + ih, v.pixels);
    BITMAPFILEHEADER::lemma_bytes_round_trip(s, 0);
    BITMAPINFOHEADER::lemma_bytes_round_trip(s, 14);
    assert(s.subrange(0, 14) =~= fh);
    assert(s.subrange(14, 54) =~= ih);
    lemma_file_header_determined(BITMAPFILEHEADER::parsed_at(s, 0), v.fileheader);
    lemma_info_header_determined(BITMAPINFOHEADER::parsed_at(s, 14), v.infoheader);
}

/// Two file headers with the same layout are the same header.
pub proof fn lemma_file_header_determined(a: BITMAPFILEHEADER, b: BITMAPFILEHEADER)
    requires
        a.encoded() == b.encoded(),
    ensures
        a == b,
{
    BITMAPFILEHEADER::lemma_round_trip(a);
    BITMAPFILEHEADER::lemma_round_trip(b);
}

/// Two info headers with the same layout are the same header.
pub proof fn lemma_info_header_determined(a: BITMAPINFOHEADER, b: BITMAPINFOHEADER)
    requires
        a.encoded() == b.encoded(),
    ensures
        a == b,
{
    BITMAPINFOHEADER::lemma_round_trip(a);
    BITMAPINFOHEADER::lemma_round_trip(b);
}

/// Decoding the layout of a well-formed image gives that image back: the
/// same header fields and the same pixels.
pub proof fn lemma_decode_encode(v: BmpView)
    requires
        v.well_formed(),
    ensures
        BmpView::decoded(v.encoded()) == Ok::<BmpView, BmpError>(v),
{
    lemma_encoded_len(v);
    lemma_encoded_parses_back(v);
}

/// Whatever decodes is well formed, and its layout is the bytes that it was
/// decoded from.
pub proof fn lemma_encode_decode(bytes: Seq<u8>)
    ensures
        BmpView::decoded(bytes) matches Ok(v) ==> v.well_formed() && v.encoded() == bytes,
{
    if BmpView::decoded(bytes) is Ok {
        lemma_parsed_encodes_back(bytes);
    }
}

/// A black image whose dimensions have a product that is not negative is
/// well formed, and stays so when it is filled.
pub proof fn lemma_blank_well_formed(height: i32, width: i32, sizes: SizeFields, r: u8, g: u8, b: u8)
    requires
        0 <= height * width,
    ensures
        BmpView::blank(height, width, sizes).well_formed(),
        BmpView::blank(height, width, sizes).filled(r, g, b).well_formed(),
{
    assert(width * height == height * width) by (nonlinear_arith);
}

/// An image made black with given dimensions and then filled with a color
/// survives encoding and decoding unchanged.
pub proof fn lemma_filled_round_trip(
    height: i32,
    width: i32,
    sizes: SizeFields,
    r: u8,
    g: u8,
    b: u8,
)
    requires
        0 <= height * width,
    ensures
        BmpView::decoded(BmpView::blank(height, width, sizes).filled(r, g, b).encoded()) == Ok::<
            BmpView,
            BmpError,
        >(BmpView::blank(height, width, sizes).filled(r, g, b)),
{
    lemma_blank_well_formed(height, width, sizes, r, g, b);
    lemma_decode_encode(BmpView::blank(height, width, sizes).filled(r, g, b));
}

/// The file of a new image of `height` by `width` pixels is
/// `54 + 3 * height * width` bytes long, filled or not.
pub proof fn lemma_blank_encoded_len(
    height: i32,
    width: i32,
    sizes: SizeFields,
    r: u8,
    g: u8,
    b: u8,
)
    requires
        0 <= height * width,
    ensures
        BmpView::blank(height, width, sizes).encoded().len() == 54 + 3 * (height * width),
        BmpView::blank(height, width, sizes).filled(r, g, b).encoded().len() == 54 + 3 * (height
            * width),
{
    lemma_encoded_len(BmpView::blank(height, width, sizes));
    lemma_encoded_len(BmpView::blank(height, width, sizes).filled(r, g, b));
}

/// Whenever dimensions are accepted, the image made from them is well
/// formed, its file is `54 + 3 * height * width` bytes long, and, filled with
/// any color, it survives encoding and decoding unchanged.
pub proof fn lemma_created_round_trip(
    height: i32,
    width: i32,
    sizes: SizeFields,
    r: u8,
    g: u8,
    b: u8,
)
    ensures
        BmpView::created(height, width, sizes) matches Ok(v) ==> {
            &&& v.well_formed()
            &&& v.encoded().len() == 54 + 3 * (height * width)
            &&& v.filled(r, g, b).encoded().len() == 54 + 3 * (height * width)
            &&& BmpView::decoded(v.filled(r, g, b).encoded()) == Ok::<BmpView, BmpError>(
                v.filled(r, g, b),
            )
        },
{
    if BmpView::created(height, width, sizes) is Ok {
        assert(0 <= height * width) by (nonlinear_arith)
            requires
                0 <= height,
                0 <= width,
        ;
        lemma_blank_well_formed(height, width, sizes, r, g, b);
        lemma_blank_encoded_len(height, width, sizes, r, g, b);
        lemma_filled_round_trip(height, width, sizes, r, g, b);
    }
}

} // verus!
