//! What can be wrong with the bytes of a file or with requested dimensions.

use vstd::prelude::*;

verus! {

/// The reasons for which an image is refused.
#[derive(Clone, Copy, Debug, PartialEq, Eq, Structural)]
pub enum BmpError {
    /// The input is shorter than the two headers together.
    Truncated,
    /// The bytes after the headers do not make up whole pixels.
    PartialPixel,
    /// The signature is not "BM".
    BadMagic,
    /// The header's width times its height is not the number of pixels held.
    DimensionMismatch,
    /// A requested width or height is negative.
    NegativeDimension,
    /// The image is too large for the header's size fields.
    TooLarge,
}

} // verus!
