//! The image: two headers and the pixels, and its layout in a file.

use crate::codec::ToBytes;
use crate::error::BmpError;
use crate::header::{
    BITMAPFILEHEADER, BITMAPINFOHEADER, BMP_MAGIC, FILE_HEADER_SIZE, HEADERS_SIZE,
};
use crate::laws::{
    lemma_decode_encode, lemma_encoded_len, lemma_parsed_encodes_back, lemma_pixel_bytes_push,
};
use crate::pixel::{PIXEL_SIZE, RGBTRIPLE};
use vstd::prelude::*;

verus! {

/// An image in memory. A file holds the file header first, then the info
/// header, then the pixels in the order in which `pixels` holds them.
#[derive(Debug, PartialEq, Eq)]
pub struct BmpImg {
    pub infoheader: BITMAPINFOHEADER,
    pub fileheader: BITMAPFILEHEADER,
    pub pixels: Vec<RGBTRIPLE>,
}

impl Clone for BmpImg {
    fn clone(&self) -> (res: BmpImg)
        ensures
            res@ == self@,
    {
        let res = BmpImg {
            infoheader: self.infoheader,
            fileheader: self.fileheader,
            pixels: self.pixels.clone(),
        };
        assert(res.pixels@ =~= self.pixels@);
        res
    }
}

/// What an image is, mathematically: the two headers and a sequence of
/// pixels.
pub struct BmpView {
    pub infoheader: BITMAPINFOHEADER,
    pub fileheader: BITMAPFILEHEADER,
    pub pixels: Seq<RGBTRIPLE>,
}

impl View for BmpImg {
    type V = BmpView;

    open spec fn view(&self) -> BmpView {
        BmpView {
            infoheader: self.infoheader,
            fileheader: self.fileheader,
            pixels: self.pixels@,
        }
    }
}

/// A result as contracts speak of it: the image, where there is one, taken
/// by its view.
pub open spec fn outcome(res: Result<BmpImg, BmpError>) -> Result<BmpView, BmpError> {
    match res {
        Ok(img) => Ok(img@),
        Err(e) => Err(e),
    }
}

/// What the two size fields of the headers hold in a newly made image.
#[derive(Clone, Copy, Debug, PartialEq, Eq, Structural)]
pub enum SizeFields {
    /// Both fields hold the number of pixels plus 54. This is not the
    /// length of the file unless the image is empty.
    PixelCount,
    /// The file header holds the length of the file in bytes, the info
    /// header the length of the pixel data in bytes.
    ByteCount,
}

impl SizeFields {
    /// The file header's size field for an image of `count` pixels.
    pub open spec fn file_size(self, count: int) -> int {
        match self {
            SizeFields::PixelCount => count + 54,
            SizeFields::ByteCount => 3 * count + 54,
        }
    }

    /// The info header's size field for an image of `count` pixels.
    pub open spec fn image_size(self, count: int) -> int {
        match self {
            SizeFields::PixelCount => count + 54,
            SizeFields::ByteCount => 3 * count,
        }
    }

    /// The largest number of pixels whose size fields can be computed.
    pub open spec fn max_count(self) -> int {
        match self {
            SizeFields::PixelCount => 0x7fff_ffff - 54,
            SizeFields::ByteCount => (0xffff_ffff - 54) / 3,
        }
    }
}

/// The bytes of a run of pixels: three per pixel, in order.
pub open spec fn pixel_bytes(pixels: Seq<RGBTRIPLE>) -> Seq<u8> {
    Seq::new(3 * pixels.len(), |k: int| pixels[k / 3].encoded()[k % 3])
}

/// The pixels stored in `s` from `at` to its end, three bytes each; a
/// remainder of one or two bytes is not looked at.
pub open spec fn parsed_pixels(s: Seq<u8>, at: int) -> Seq<RGBTRIPLE>
    recommends
        0 <= at <= s.len(),
{
    Seq::new(((s.len() - at) / 3) as nat, |i: int| RGBTRIPLE::parsed_at(s, at + 3 * i))
}

impl BmpView {
    /// The file's bytes: 14 of file header, 40 of info header, 3 per pixel.
    pub open spec fn encoded(self) -> Seq<u8> {
        self.fileheader.encoded() + self.infoheader.encoded() + pixel_bytes(self.pixels)
    }

    /// The black image of the given dimensions, with headers to match:
    /// signature "BM", pixel data at offset 54, info header of 40 bytes, one
    /// plane, 24 bits per pixel, no compression, 30 pixels per meter both
    /// ways, no palette.
    pub open spec fn blank(height: i32, width: i32, sizes: SizeFields) -> BmpView {
        BmpView {
            infoheader: BITMAPINFOHEADER {
                bi_size: 40,
                bi_width: width,
                bi_height: height,
                bi_planes: 1,
                bi_bit_count: 24,
                bi_compression: 0,
                bi_size_image: sizes.image_size(height * width) as u32,
                bi_x_pels_per_meter: 30,
                bi_y_pels_per_meter: 30,
                bi_clr_used: 0,
                bi_clr_important: 0,
            },
            fileheader: BITMAPFILEHEADER {
                bf_type: BMP_MAGIC,
                bf_size: sizes.file_size(height * width) as u32,
                bf_reserved1: 0,
                bf_reserved2: 0,
                bf_off_bits: 54,
            },
            pixels: Seq::new((height * width) as nat, |i: int| RGBTRIPLE::of_rgb(0, 0, 0)),
        }
    }

    /// What asking for a black image of the given dimensions gives: the
    /// image, unless a dimension is negative or the pixels are more than
    /// `sizes` can count.
    pub open spec fn created(height: i32, width: i32, sizes: SizeFields) -> Result<
        BmpView,
        BmpError,
    > {
        if height < 0 || width < 0 {
            Err(BmpError::NegativeDimension)
        } else if height * width > sizes.max_count() {
            Err(BmpError::TooLarge)
        } else {
            Ok(BmpView::blank(height, width, sizes))
        }
    }

    /// The same image with every pixel set to one color.
    pub open spec fn filled(self, r: u8, g: u8, b: u8) -> BmpView {
        BmpView {
            infoheader: self.infoheader,
            fileheader: self.fileheader,
            pixels: Seq::new(self.pixels.len(), |i: int| RGBTRIPLE::of_rgb(r, g, b)),
        }
    }

    /// The signature is "BM" and there are width times height pixels.
    pub open spec fn well_formed(self) -> bool {
        &&& self.fileheader.bf_type == BMP_MAGIC
        &&& self.infoheader.bi_width * self.infoheader.bi_height == self.pixels.len()
    }

    /// What is wrong with the image, if anything: the signature is looked at
    /// first, then the dimensions.
    pub open spec fn validated(self) -> Result<(), BmpError> {
        if self.fileheader.bf_type != BMP_MAGIC {
            Err(BmpError::BadMagic)
        } else if self.infoheader.bi_width * self.infoheader.bi_height != self.pixels.len() {
            Err(BmpError::DimensionMismatch)
        } else {
            Ok(())
        }
    }

    /// The image that the bytes of a file spell out, field by field, with
    /// nothing refused: the file header at offset 0, the info header at
    /// offset 14, the pixels from offset 54 on.
    pub open spec fn parsed(bytes: Seq<u8>) -> BmpView
        recommends
            bytes.len() >= 54,
    {
        BmpView {
            infoheader: BITMAPINFOHEADER::parsed_at(bytes, 14),
            fileheader: BITMAPFILEHEADER::parsed_at(bytes, 0),
            pixels: parsed_pixels(bytes, 54),
        }
    }

    /// The image that a file holds, or the reason for which the file is
    /// refused. The length is looked at first (both headers must be there,
    /// and then whole pixels only), then the content as in `validated`. The
    /// size fields and the declared offset of the pixel data are not looked
    /// at.
    pub open spec fn decoded(bytes: Seq<u8>) -> Result<BmpView, BmpError> {
        if bytes.len() < 54 {
            Err(BmpError::Truncated)
        } else if (bytes.len() - 54) % 3 != 0 {
            Err(BmpError::PartialPixel)
        } else {
            match BmpView::parsed(bytes).validated() {
                Ok(()) => Ok(BmpView::parsed(bytes)),
                Err(e) => Err(e),
            }
        }
    }
}

impl BmpImg {
    /// Creates a new [`BmpImg`]: black, with both size fields holding the
    /// number of pixels plus 54 (see [`SizeFields::PixelCount`]).
    ///
    /// The product of the dimensions must not be negative, and adding 54 to
    /// it must not overflow. [`BmpImg::create`] tests this instead of
    /// requiring it.
    pub fn new(height: i32, width: i32) -> (img: BmpImg)
        requires
            0 <= height * width <= i32::MAX - 54,
        ensures
            img@ == BmpView::blank(height, width, SizeFields::PixelCount),
            img@.well_formed(),
    {
        let count: i32 = height * width;
        let size: u32 = (count + 54) as u32;
        BmpImg::assemble(height, width, count as usize, size, size, Ghost(SizeFields::PixelCount))
    }

    /// Like [`BmpImg::new`], but refuses dimensions instead of requiring them
    /// to be in range: it fails with `NegativeDimension` if a dimension is
    /// negative, otherwise with `TooLarge` if the number of pixels plus 54
    /// is more than `i32::MAX`. A dimension of zero is in range and gives an
    /// image without pixels.
    pub fn create(height: i32, width: i32) -> (res: Result<BmpImg, BmpError>)
        ensures
            outcome(res) == BmpView::created(height, width, SizeFields::PixelCount),
            res matches Ok(img) ==> img@.well_formed(),
    {
        BmpImg::create_with(height, width, SizeFields::PixelCount)
    }

    /// Creates a black image whose size fields follow `sizes`.
    ///
    /// Fails with `NegativeDimension` if a dimension is negative, otherwise
    /// with `TooLarge` if the image has more than `sizes.max_count()` pixels.
    pub fn create_with(height: i32, width: i32, sizes: SizeFields) -> (res: Result<BmpImg, BmpError>)
        ensures
            outcome(res) == BmpView::created(height, width, sizes),
            res matches Ok(img) ==> img@.well_formed(),
    {
        if height < 0 || width < 0 {
            return Err(BmpError::NegativeDimension);
        }
        assert(0 <= height * width <= 0x7fff_ffff * 0x7fff_ffff) by (nonlinear_arith)
            requires
                0 <= height <= 0x7fff_ffff,
                0 <= width <= 0x7fff_ffff,
        ;
        let count: u64 = (height as u64) * (width as u64);
        match sizes {
            SizeFields::PixelCount => {
                if count > 0x7fff_ffff - 54 {
                    return Err(BmpError::TooLarge);
                }
                let size: u32 = (count + 54) as u32;
                Ok(BmpImg::assemble(height, width, count as usize, size, size, Ghost(sizes)))
            },
            SizeFields::ByteCount => {
                if count > (0xffff_ffff - 54) / 3 {
                    return Err(BmpError::TooLarge);
                }
                let image_size: u32 = (3 * count) as u32;
                let file_size: u32 = image_size + 54;
                Ok(
                    BmpImg::assemble(
                        height,
                        width,
                        count as usize,
                        file_size,
                        image_size,
                        Ghost(sizes),
                    ),
                )
            },
        }
    }

    /// Builds the black image of `count` pixels with the given size fields.
    fn assemble(
        height: i32,
        width: i32,
        count: usize,
        file_size: u32,
        image_size: u32,
        Ghost(sizes): Ghost<SizeFields>,
    ) -> (img: BmpImg)
        requires
            count == height * width,
            file_size == sizes.file_size(height * width),
            image_size == sizes.image_size(height * width),
        ensures
            img@ == BmpView::blank(height, width, sizes),
            img@.well_formed(),
    {
        let black = RGBTRIPLE { rgbt_blue: 0, rgbt_green: 0, rgbt_red: 0 };
        let img = BmpImg {
            infoheader: BITMAPINFOHEADER {
                bi_size: 40,
                bi_width: width,
                bi_height: height,
                bi_planes: 1,
                bi_bit_count: 24,
                bi_compression: 0,
                bi_size_image: image_size,
                bi_x_pels_per_meter: 30,
                bi_y_pels_per_meter: 30,
                bi_clr_used: 0,
                bi_clr_important: 0,
            },
            fileheader: BITMAPFILEHEADER {
                bf_type: BMP_MAGIC,
                bf_size: file_size,
                bf_reserved1: 0,
                bf_reserved2: 0,
                bf_off_bits: 54,
            },
            pixels: vec![black; count],
        };
        assert(img@.pixels =~= BmpView::blank(height, width, sizes).pixels);
        assert(width * height == height * width) by (nonlinear_arith);
        img
    }

    /// Reads an image from the bytes of a file.
    ///
    /// Fails with `Truncated` if there are fewer than 54 bytes; otherwise
    /// with `PartialPixel` if the bytes after the headers are not a multiple
    /// of three; otherwise with `BadMagic` or `DimensionMismatch` as
    /// [`BmpImg::validate`] does. On success every header field and every
    /// pixel is as the file has it.
    pub fn from_bytes(bytes: &[u8]) -> (res: Result<BmpImg, BmpError>)
        ensures
            outcome(res) == BmpView::decoded(bytes@),
            bytes@.len() < 54 ==> (res matches Err(BmpError::Truncated)),
            bytes@.len() >= 54 && (bytes@.len() - 54) % 3 != 0 ==> (res matches Err(
                BmpError::PartialPixel,
            )),
            res matches Ok(img) ==> img@.well_formed() && img@.encoded() == bytes@,
    {
        let len: usize = bytes.len();
        if len < HEADERS_SIZE {
            return Err(BmpError::Truncated);
        }
        if (len - HEADERS_SIZE) % PIXEL_SIZE != 0 {
            return Err(BmpError::PartialPixel);
        }
        let fileheader = BITMAPFILEHEADER::read(bytes, 0);
        let infoheader = BITMAPINFOHEADER::read(bytes, FILE_HEADER_SIZE);
        let n: usize = (len - HEADERS_SIZE) / PIXEL_SIZE;
        let mut pixels: Vec<RGBTRIPLE> = Vec::new();
        let mut i: usize = 0;
        while i < n
            invariant
                i <= n,
                len == bytes@.len(),
                len == 54 + 3 * n,
                pixels@.len() == i,
                forall|j: int|
                    0 <= j < i ==> pixels@[j] == RGBTRIPLE::parsed_at(bytes@, 54 + 3 * j),
            decreases n - i,
        {
            pixels.push(RGBTRIPLE::read(bytes, HEADERS_SIZE + PIXEL_SIZE * i));
            i += 1;
        }
        let img = BmpImg { infoheader, fileheader, pixels };
        assert(img@.pixels =~= parsed_pixels(bytes@, 54));
        match img.validate() {
            Ok(()) => {
                proof {
                    lemma_parsed_encodes_back(bytes@);
                }
                Ok(img)
            },
            Err(e) => Err(e),
        }
    }

    /// Tells whether the headers agree with the pixels held.
    ///
    /// Fails with `BadMagic` if the signature is not "BM"; otherwise with
    /// `DimensionMismatch` if width times height is not the number of pixels.
    pub fn validate(&self) -> (res: Result<(), BmpError>)
        ensures
            res == self@.validated(),
            res is Ok <==> self@.well_formed(),
    {
        if self.fileheader.bf_type != BMP_MAGIC {
            return Err(BmpError::BadMagic);
        }
        let width: i32 = self.infoheader.bi_width;
        let height: i32 = self.infoheader.bi_height;
        assert(-0x4000_0000_0000_0000 <= width * height <= 0x4000_0000_0000_0000)
            by (nonlinear_arith)
            requires
                -0x8000_0000 <= width < 0x8000_0000,
                -0x8000_0000 <= height < 0x8000_0000,
        ;
        let area: i64 = (width as i64) * (height as i64);
        if area < 0 || area as u64 != self.pixels.len() as u64 {
            return Err(BmpError::DimensionMismatch);
        }
        Ok(())
    }

    /// Fills the whole image with the desired RGB values. The headers and the
    /// number of pixels stay as they are.
    pub fn fill_image(&mut self, r: u8, g: u8, b: u8)
        ensures
            final(self).infoheader == old(self).infoheader,
            final(self).fileheader == old(self).fileheader,
            final(self).pixels@.len() == old(self).pixels@.len(),
            forall|i: int|
                0 <= i < final(self).pixels@.len() ==> final(self).pixels@[i] == RGBTRIPLE::of_rgb(
                    r,
                    g,
                    b,
                ),
            final(self)@ == old(self)@.filled(r, g, b),
    {
        let n: usize = self.pixels.len();
        let mut i: usize = 0;
        while i < n
            invariant
                i <= n,
                n == self.pixels@.len(),
                n == old(self).pixels@.len(),
                self.infoheader == old(self).infoheader,
                self.fileheader == old(self).fileheader,
                forall|j: int| 0 <= j < i ==> self.pixels@[j] == RGBTRIPLE::of_rgb(r, g, b),
            decreases n - i,
        {
            self.pixels[i] = RGBTRIPLE { rgbt_blue: b, rgbt_green: g, rgbt_red: r };
            i += 1;
        }
        assert(self@.pixels =~= old(self)@.filled(r, g, b).pixels);
    }
}

impl ToBytes for BmpImg {
    open spec fn encoded(&self) -> Seq<u8> {
        self@.encoded()
    }

    /// Lays the image out as a file: 54 bytes of headers, then three bytes
    /// for each pixel. Reading the bytes back gives the same image, provided
    /// that the image is well formed.
    fn to_bytes(&self) -> (out: Vec<u8>)
        ensures
            out@.len() == 54 + 3 * self.pixels@.len(),
            self@.well_formed() ==> BmpView::decoded(out@) == Ok::<BmpView, BmpError>(self@),
    {
        let mut out: Vec<u8> = Vec::new();
        self.fileheader.write_to(&mut out);
        self.infoheader.write_to(&mut out);
        let ghost head = self.fileheader.encoded() + self.infoheader.encoded();
        assert(out@ =~= head + pixel_bytes(self.pixels@.take(0)));
        let n: usize = self.pixels.len();
        let mut i: usize = 0;
        while i < n
            invariant
                i <= n,
                n == self.pixels@.len(),
                head == self.fileheader.encoded() + self.infoheader.encoded(),
                out@ == head + pixel_bytes(self.pixels@.take(i as int)),
            decreases n - i,
        {
            let px: RGBTRIPLE = self.pixels[i];
            px.write_to(&mut out);
            proof {
                lemma_pixel_bytes_push(self.pixels@.take(i as int), px);
                assert(self.pixels@.take(i as int).push(px) =~= self.pixels@.take(i + 1));
            }
            i += 1;
        }
        proof {
            assert(self.pixels@.take(n as int) =~= self.pixels@);
            lemma_encoded_len(self@);
            if self@.well_formed() {
                lemma_decode_encode(self@);
            }
        }
        out
    }
}

} // verus!
