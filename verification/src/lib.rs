//! Uncompressed 24-bit BMP images: an in-memory model, its byte layout, and
//! the verified functions that go from one to the other.

pub mod codec;
pub mod endian;
pub mod error;
pub mod header;
pub mod image;
pub mod laws;
pub mod pixel;

pub use codec::ToBytes;
pub use error::BmpError;
pub use header::{BITMAPFILEHEADER, BITMAPINFOHEADER};
pub use image::{BmpImg, BmpView, SizeFields};
pub use pixel::RGBTRIPLE;
