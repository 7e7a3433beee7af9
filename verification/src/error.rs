//! The error taxonomy of the decoding core.

use vstd::prelude::*;

verus! {

/// Everything that can go wrong while reading from a buffer or stream.
#[derive(Clone, Debug, PartialEq, Eq)]
pub enum ReadError {
    /// Fewer than `requested` bits remain; only `available` are left.
    NotEnoughData { requested: usize, available: usize },
    /// `requested` bits were asked for, but the destination integer type can
    /// hold at most `max`.
    TooManyBits { requested: usize, max: usize },
    /// An explicit reposition target `pos` lies outside the valid range
    /// `0 ..= size`.
    IndexOutOfBounds { pos: usize, size: usize },
    /// The bytes read for a string are not valid UTF-8; `bytes` holds the
    /// bytes that failed validation.
    Utf8Error { bytes: Vec<u8> },
}

impl ReadError {
    /// A short human-readable name for the error variant.
    pub fn kind_name(&self) -> (r: &'static str)
        ensures
            r@ == match self {
                ReadError::NotEnoughData { .. } => "not enough data"@,
                ReadError::TooManyBits { .. } => "too many bits"@,
                ReadError::IndexOutOfBounds { .. } => "index out of bounds"@,
                ReadError::Utf8Error { .. } => "utf8 error"@,
            },
    {
        match self {
            ReadError::NotEnoughData { .. } => "not enough data",
            ReadError::TooManyBits { .. } => "too many bits",
            ReadError::IndexOutOfBounds { .. } => "index out of bounds",
            ReadError::Utf8Error { .. } => "utf8 error",
        }
    }
}

} // verus!
