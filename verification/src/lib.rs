//! A bit-addressable binary decoding core.
//!
//! The crate reads booleans, arbitrary-width integers, byte runs and UTF-8
//! strings from an in-memory byte sequence at arbitrary, non-byte-aligned bit
//! positions, under a selectable endianness policy.
//!
//! [`BitBuffer`] is the stateless bit-assembly layer: every read takes an
//! absolute bit position and is bounds-checked against the buffer's declared
//! bit length. [`BitStream`] layers a cursor on top of a buffer and supports
//! zero-copy forking into independent sub-streams. The [`Read`] and
//! [`ReadSize`] traits map element types to the matching primitive read.

pub mod bits;
pub mod buffer;
pub mod endianness;
pub mod error;
pub mod read;
pub mod stream;

pub use buffer::BitBuffer;
pub use endianness::{Endianness, Padding};
pub use error::ReadError;
pub use read::{BitInteger, Read, ReadSize};
pub use stream::BitStream;
