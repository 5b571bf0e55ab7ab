//! The trait shared by everything that has a byte layout in a BMP file.

use vstd::prelude::*;

verus! {

/// A value with a fixed byte layout.
pub trait ToBytes {
    /// The bytes that stand for this value in a file.
    spec fn encoded(&self) -> Seq<u8>;

    /// Turns the value into its bytes.
    fn to_bytes(&self) -> (out: Vec<u8>)
        ensures
            out@ == self.encoded(),
    ;
}

} // verus!
