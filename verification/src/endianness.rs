//! The two policies fixed at buffer construction: endianness and padding.

use vstd::prelude::*;

verus! {

/// Policy governing how bits are addressed within a byte and how multi-byte
/// values are assembled.
///
/// Under [`Endianness::BigEndian`], bits are consumed most-significant-first
/// and earlier bytes contribute the more significant part of a value. Under
/// [`Endianness::LittleEndian`], bits are consumed least-significant-first
/// and earlier bytes contribute the less significant part.
#[derive(Clone, Copy, Debug, PartialEq, Eq, Structural)]
pub enum Endianness {
    BigEndian,
    LittleEndian,
}

/// Policy governing whether a buffer's reported bit length rounds up to the
/// next multiple of 8.
///
/// A [`Padding::Padded`] buffer always reports a whole number of bytes; an
/// [`Padding::Unpadded`] buffer tracks an exact, possibly non-byte-multiple
/// bit length (sub-buffers are unpadded).
#[derive(Clone, Copy, Debug, PartialEq, Eq, Structural)]
pub enum Padding {
    Padded,
    Unpadded,
}

} // verus!
