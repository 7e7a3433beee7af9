//! The typed dispatch layer.
//!
//! [`BitInteger`] describes the primitive integer types an arbitrary-width
//! read can target: each carries its bit capacity and the interpretation of
//! a `count`-bit value as a value of the type (plain for the unsigned types,
//! two's-complement sign extension for the signed ones).
//!
//! [`Read`] and [`ReadSize`] map element types to the matching
//! [`crate::stream::BitStream`] primitive, in a fixed-width form and a
//! caller-supplied-width form.

use vstd::arithmetic::power2::{lemma_pow2_unfold, pow2};
use vstd::prelude::*;
use vstd::utf8::{decode_utf8, valid_utf8};

use crate::bits::{
    bit_at, bits_value, bytes_at, lemma_pow2_le, lemma_pow2_type_bounds, pow2_u128,
    scan_terminator, sign_extend, trim_trailing_zeros,
};
use crate::buffer::string_consumed;
use crate::error::ReadError;
use crate::stream::{BitStream, StreamView};

verus! {

/// A primitive integer type that an arbitrary-width bit read can target.
pub trait BitInteger: Sized + Copy {
    /// The type's capacity in bits.
    spec fn width_spec() -> nat;

    /// Whether `self` is the interpretation of the `count`-bit unsigned
    /// value `val` in this type.
    spec fn is_bits(self, val: nat, count: nat) -> bool;

    /// The type's capacity in bits, as a run-time value.
    fn width() -> (w: usize)
        ensures
            w == Self::width_spec(),
    ;

    /// Every capacity lies between 1 and 128 bits.
    proof fn width_bound()
        ensures
            1 <= Self::width_spec() <= 128,
    ;

    /// Interpret the `count`-bit unsigned value `val` in this type.
    fn from_bits(val: u128, count: usize) -> (r: Self)
        requires
            count <= Self::width_spec(),
            val < pow2(count as nat),
        ensures
            r.is_bits(val as nat, count as nat),
    ;
}

impl BitInteger for u8 {
    open spec fn width_spec() -> nat {
        8
    }

    open spec fn is_bits(self, val: nat, count: nat) -> bool {
        self == val
    }

    fn width() -> usize {
        8
    }

    proof fn width_bound() {
    }

    fn from_bits(val: u128, count: usize) -> u8 {
        proof {
            lemma_pow2_le(count as nat, 8);
            lemma_pow2_type_bounds();
        }
        val as u8
    }
}

impl BitInteger for u16 {
    open spec fn width_spec() -> nat {
        16
    }

    open spec fn is_bits(self, val: nat, count: nat) -> bool {
        self == val
    }

    fn width() -> usize {
        16
    }

    proof fn width_bound() {
    }

    fn from_bits(val: u128, count: usize) -> u16 {
        proof {
            lemma_pow2_le(count as nat, 16);
            lemma_pow2_type_bounds();
        }
        val as u16
    }
}

impl BitInteger for u32 {
    open spec fn width_spec() -> nat {
        32
    }

    open spec fn is_bits(self, val: nat, count: nat) -> bool {
        self == val
    }

    fn width() -> usize {
        32
    }

    proof fn width_bound() {
    }

    fn from_bits(val: u128, count: usize) -> u32 {
        proof {
            lemma_pow2_le(count as nat, 32);
            lemma_pow2_type_bounds();
        }
        val as u32
    }
}

impl BitInteger for u64 {
    open spec fn width_spec() -> nat {
        64
    }

    open spec fn is_bits(self, val: nat, count: nat) -> bool {
        self == val
    }

    fn width() -> usize {
        64
    }

    proof fn width_bound() {
    }

    fn from_bits(val: u128, count: usize) -> u64 {
        proof {
            lemma_pow2_le(count as nat, 64);
            lemma_pow2_type_bounds();
        }
        val as u64
    }
}

impl BitInteger for u128 {
    open spec fn width_spec() -> nat {
        128
    }

    open spec fn is_bits(self, val: nat, count: nat) -> bool {
        self == val
    }

    fn width() -> usize {
        128
    }

    proof fn width_bound() {
    }

    fn from_bits(val: u128, count: usize) -> u128 {
        val
    }
}

/// Shared body of the signed interpretations: `val` is a `count`-bit value
/// (with `count` at most 128 and `val < 2^count`); the result is
/// `val - 2^count` when the sign bit is set, `val` otherwise, offered as the
/// pair (magnitude-minus-one, is-negative).
///
/// A negative result is returned as `(m, true)` meaning `-(m + 1)`, so that
/// every intermediate fits in an unsigned machine word.
fn signed_parts(val: u128, count: usize) -> (r: (u128, bool))
    requires
        count <= 128,
        val < pow2(count as nat),
    ensures
        !r.1 ==> val < pow2((count - 1) as nat) || count == 0,
        !r.1 ==> r.0 == val,
        r.1 ==> count > 0 && val >= pow2((count - 1) as nat),
        r.1 ==> r.0 + 1 == pow2(count as nat) - val,
        r.1 ==> r.0 < pow2((count - 1) as nat),
{
    if count == 0 {
        return (val, false);
    }
    let half = pow2_u128(count - 1);
    proof {
        lemma_pow2_unfold(count as nat);
        lemma_pow2_type_bounds();
    }
    if val < half {
        (val, false)
    } else {
        let maxw: u128 = if count == 128 {
            u128::MAX
        } else {
            pow2_u128(count) - 1
        };
        (maxw - val, true)
    }
}

impl BitInteger for i8 {
    open spec fn width_spec() -> nat {
        8
    }

    open spec fn is_bits(self, val: nat, count: nat) -> bool {
        self as int == sign_extend(val, count)
    }

    fn width() -> usize {
        8
    }

    proof fn width_bound() {
    }

    fn from_bits(val: u128, count: usize) -> i8 {
        proof {
            lemma_pow2_le(count as nat, 8);
            if count > 0 {
                lemma_pow2_le((count - 1) as nat, 7);
            }
            lemma_pow2_type_bounds();
        }
        let (m, neg) = signed_parts(val, count);
        if neg {
            -(m as i8) - 1
        } else {
            m as i8
        }
    }
}

impl BitInteger for i16 {
    open spec fn width_spec() -> nat {
        16
    }

    open spec fn is_bits(self, val: nat, count: nat) -> bool {
        self as int == sign_extend(val, count)
    }

    fn width() -> usize {
        16
    }

    proof fn width_bound() {
    }

    fn from_bits(val: u128, count: usize) -> i16 {
        proof {
            lemma_pow2_le(count as nat, 16);
            if count > 0 {
                lemma_pow2_le((count - 1) as nat, 15);
            }
            lemma_pow2_type_bounds();
        }
        let (m, neg) = signed_parts(val, count);
        if neg {
            -(m as i16) - 1
        } else {
            m as i16
        }
    }
}

impl BitInteger for i32 {
    open spec fn width_spec() -> nat {
        32
    }

    open spec fn is_bits(self, val: nat, count: nat) -> bool {
        self as int == sign_extend(val, count)
    }

    fn width() -> usize {
        32
    }

    proof fn width_bound() {
    }

    fn from_bits(val: u128, count: usize) -> i32 {
        proof {
            lemma_pow2_le(count as nat, 32);
            if count > 0 {
                lemma_pow2_le((count - 1) as nat, 31);
            }
            lemma_pow2_type_bounds();
        }
        let (m, neg) = signed_parts(val, count);
        if neg {
            -(m as i32) - 1
        } else {
            m as i32
        }
    }
}

impl BitInteger for i64 {
    open spec fn width_spec() -> nat {
        64
    }

    open spec fn is_bits(self, val: nat, count: nat) -> bool {
        self as int == sign_extend(val, count)
    }

    fn width() -> usize {
        64
    }

    proof fn width_bound() {
    }

    fn from_bits(val: u128, count: usize) -> i64 {
        proof {
            lemma_pow2_le(count as nat, 64);
            if count > 0 {
                lemma_pow2_le((count - 1) as nat, 63);
            }
            lemma_pow2_type_bounds();
        }
        let (m, neg) = signed_parts(val, count);
        if neg {
            -(m as i64) - 1
        } else {
            m as i64
        }
    }
}

impl BitInteger for i128 {
    open spec fn width_spec() -> nat {
        128
    }

    open spec fn is_bits(self, val: nat, count: nat) -> bool {
        self as int == sign_extend(val, count)
    }

    fn width() -> usize {
        128
    }

    proof fn width_bound() {
    }

    fn from_bits(val: u128, count: usize) -> i128 {
        proof {
            if count > 0 {
                lemma_pow2_le((count - 1) as nat, 127);
            }
            lemma_pow2_type_bounds();
        }
        let (m, neg) = signed_parts(val, count);
        if neg {
            -(m as i128) - 1
        } else {
            m as i128
        }
    }
}


/// A type readable from a stream without a caller-supplied size: each type
/// fixes how many bits one value takes and what it means.
///
/// The contract is uniform: on the stream state `v` a read either succeeds
/// (`read_ok(v)`), returning the value `value_is(v, _)` describes and
/// advancing the cursor by `bits_consumed(v)`, or fails, advancing by
/// `bits_on_error(v)` — zero for every type except a string that fails
/// UTF-8 validation, which consumes the scanned region.
pub trait Read: Sized {
    /// Whether a read of `Self` succeeds on the stream state `v`.
    spec fn read_ok(v: StreamView) -> bool;

    /// Whether `x` is the value a read of `Self` returns on `v`.
    spec fn value_is(v: StreamView, x: Self) -> bool;

    /// The bits a successful read consumes on `v`.
    spec fn bits_consumed(v: StreamView) -> nat;

    /// The bits a failed read consumes on `v`.
    spec fn bits_on_error(v: StreamView) -> nat;

    /// Read one value of `Self` from the stream.
    fn read(stream: &mut BitStream) -> (r: Result<Self, ReadError>)
        requires
            old(stream).inv(),
        ensures
            final(stream).inv(),
            final(stream)@.buffer == old(stream)@.buffer,
            final(stream)@.start_pos == old(stream)@.start_pos,
            r matches Ok(x) ==> Self::read_ok(old(stream)@) && Self::value_is(old(stream)@, x)
                && final(stream)@ == old(stream)@.advanced(Self::bits_consumed(old(stream)@)),
            r is Err ==> !Self::read_ok(old(stream)@) && final(stream)@ == old(
                stream,
            )@.advanced(Self::bits_on_error(old(stream)@)),
    ;
}

/// A type readable from a stream with a caller-supplied size: integers take
/// the size as a width in bits, strings as a length in bytes.
///
/// The contract mirrors [`Read`], with the size threaded through;
/// `read_req` holds the machine-word bound a fixed-length string read
/// needs.
pub trait ReadSize: Sized {
    /// What a caller must guarantee about `size` before reading.
    spec fn read_req(v: StreamView, size: usize) -> bool;

    /// Whether a read of `Self` with `size` succeeds on the stream state `v`.
    spec fn read_ok(v: StreamView, size: usize) -> bool;

    /// Whether `x` is the value a read of `Self` with `size` returns on `v`.
    spec fn value_is(v: StreamView, size: usize, x: Self) -> bool;

    /// The bits a successful read with `size` consumes on `v`.
    spec fn bits_consumed(v: StreamView, size: usize) -> nat;

    /// The bits a failed read with `size` consumes on `v`.
    spec fn bits_on_error(v: StreamView, size: usize) -> nat;

    /// Read one value of `Self` of the given size from the stream.
    fn read(stream: &mut BitStream, size: usize) -> (r: Result<Self, ReadError>)
        requires
            old(stream).inv(),
            Self::read_req(old(stream)@, size),
        ensures
            final(stream).inv(),
            final(stream)@.buffer == old(stream)@.buffer,
            final(stream)@.start_pos == old(stream)@.start_pos,
            r matches Ok(x) ==> Self::read_ok(old(stream)@, size) && Self::value_is(
                old(stream)@,
                size,
                x,
            ) && final(stream)@ == old(stream)@.advanced(
                Self::bits_consumed(old(stream)@, size),
            ),
            r is Err ==> !Self::read_ok(old(stream)@, size) && final(stream)@ == old(
                stream,
            )@.advanced(Self::bits_on_error(old(stream)@, size)),
    ;
}

impl Read for u8 {
    open spec fn read_ok(v: StreamView) -> bool {
        v.can_read(8)
    }

    open spec fn value_is(v: StreamView, x: u8) -> bool {
        x.is_bits(bits_value(v.buffer.bytes, v.buffer.endianness, v.pos as int, 8), 8)
    }

    open spec fn bits_consumed(v: StreamView) -> nat {
        8
    }

    open spec fn bits_on_error(v: StreamView) -> nat {
        0
    }

    fn read(stream: &mut BitStream) -> Result<u8, ReadError> {
        stream.read_int::<u8>(8)
    }
}

impl ReadSize for u8 {
    open spec fn read_req(v: StreamView, size: usize) -> bool {
        true
    }

    open spec fn read_ok(v: StreamView, size: usize) -> bool {
        size <= 8 && v.can_read(size as nat)
    }

    open spec fn value_is(v: StreamView, size: usize, x: u8) -> bool {
        x.is_bits(
            bits_value(v.buffer.bytes, v.buffer.endianness, v.pos as int, size as nat),
            size as nat,
        )
    }

    open spec fn bits_consumed(v: StreamView, size: usize) -> nat {
        size as nat
    }

    open spec fn bits_on_error(v: StreamView, size: usize) -> nat {
        0
    }

    fn read(stream: &mut BitStream, size: usize) -> Result<u8, ReadError> {
        stream.read_int::<u8>(size)
    }
}

impl Read for u16 {
    open spec fn read_ok(v: StreamView) -> bool {
        v.can_read(16)
    }

    open spec fn value_is(v: StreamView, x: u16) -> bool {
        x.is_bits(bits_value(v.buffer.bytes, v.buffer.endianness, v.pos as int, 16), 16)
    }

    open spec fn bits_consumed(v: StreamView) -> nat {
        16
    }

    open spec fn bits_on_error(v: StreamView) -> nat {
        0
    }

    fn read(stream: &mut BitStream) -> Result<u16, ReadError> {
        stream.read_int::<u16>(16)
    }
}

impl ReadSize for u16 {
    open spec fn read_req(v: StreamView, size: usize) -> bool {
        true
    }

    open spec fn read_ok(v: StreamView, size: usize) -> bool {
        size <= 16 && v.can_read(size as nat)
    }

    open spec fn value_is(v: StreamView, size: usize, x: u16) -> bool {
        x.is_bits(
            bits_value(v.buffer.bytes, v.buffer.endianness, v.pos as int, size as nat),
            size as nat,
        )
    }

    open spec fn bits_consumed(v: StreamView, size: usize) -> nat {
        size as nat
    }

    open spec fn bits_on_error(v: StreamView, size: usize) -> nat {
        0
    }

    fn read(stream: &mut BitStream, size: usize) -> Result<u16, ReadError> {
        stream.read_int::<u16>(size)
    }
}

impl Read for u32 {
    open spec fn read_ok(v: StreamView) -> bool {
        v.can_read(32)
    }

    open spec fn value_is(v: StreamView, x: u32) -> bool {
        x.is_bits(bits_value(v.buffer.bytes, v.buffer.endianness, v.pos as int, 32), 32)
    }

    open spec fn bits_consumed(v: StreamView) -> nat {
        32
    }

    open spec fn bits_on_error(v: StreamView) -> nat {
        0
    }

    fn read(stream: &mut BitStream) -> Result<u32, ReadError> {
        stream.read_int::<u32>(32)
    }
}

impl ReadSize for u32 {
    open spec fn read_req(v: StreamView, size: usize) -> bool {
        true
    }

    open spec fn read_ok(v: StreamView, size: usize) -> bool {
        size <= 32 && v.can_read(size as nat)
    }

    open spec fn value_is(v: StreamView, size: usize, x: u32) -> bool {
        x.is_bits(
            bits_value(v.buffer.bytes, v.buffer.endianness, v.pos as int, size as nat),
            size as nat,
        )
    }

    open spec fn bits_consumed(v: StreamView, size: usize) -> nat {
        size as nat
    }

    open spec fn bits_on_error(v: StreamView, size: usize) -> nat {
        0
    }

    fn read(stream: &mut BitStream, size: usize) -> Result<u32, ReadError> {
        stream.read_int::<u32>(size)
    }
}

impl Read for u64 {
    open spec fn read_ok(v: StreamView) -> bool {
        v.can_read(64)
    }

    open spec fn value_is(v: StreamView, x: u64) -> bool {
        x.is_bits(bits_value(v.buffer.bytes, v.buffer.endianness, v.pos as int, 64), 64)
    }

    open spec fn bits_consumed(v: StreamView) -> nat {
        64
    }

    open spec fn bits_on_error(v: StreamView) -> nat {
        0
    }

    fn read(stream: &mut BitStream) -> Result<u64, ReadError> {
        stream.read_int::<u64>(64)
    }
}

impl ReadSize for u64 {
    open spec fn read_req(v: StreamView, size: usize) -> bool {
        true
    }

    open spec fn read_ok(v: StreamView, size: usize) -> bool {
        size <= 64 && v.can_read(size as nat)
    }

    open spec fn value_is(v: StreamView, size: usize, x: u64) -> bool {
        x.is_bits(
            bits_value(v.buffer.bytes, v.buffer.endianness, v.pos as int, size as nat),
            size as nat,
        )
    }

    open spec fn bits_consumed(v: StreamView, size: usize) -> nat {
        size as nat
    }

    open spec fn bits_on_error(v: StreamView, size: usize) -> nat {
        0
    }

    fn read(stream: &mut BitStream, size: usize) -> Result<u64, ReadError> {
        stream.read_int::<u64>(size)
    }
}

impl Read for u128 {
    open spec fn read_ok(v: StreamView) -> bool {
        v.can_read(128)
    }

    open spec fn value_is(v: StreamView, x: u128) -> bool {
        x.is_bits(bits_value(v.buffer.bytes, v.buffer.endianness, v.pos as int, 128), 128)
    }

    open spec fn bits_consumed(v: StreamView) -> nat {
        128
    }

    open spec fn bits_on_error(v: StreamView) -> nat {
        0
    }

    fn read(stream: &mut BitStream) -> Result<u128, ReadError> {
        stream.read_int::<u128>(128)
    }
}

impl ReadSize for u128 {
    open spec fn read_req(v: StreamView, size: usize) -> bool {
        true
    }

    open spec fn read_ok(v: StreamView, size: usize) -> bool {
        size <= 128 && v.can_read(size as nat)
    }

    open spec fn value_is(v: StreamView, size: usize, x: u128) -> bool {
        x.is_bits(
            bits_value(v.buffer.bytes, v.buffer.endianness, v.pos as int, size as nat),
            size as nat,
        )
    }

    open spec fn bits_consumed(v: StreamView, size: usize) -> nat {
        size as nat
    }

    open spec fn bits_on_error(v: StreamView, size: usize) -> nat {
        0
    }

    fn read(stream: &mut BitStream, size: usize) -> Result<u128, ReadError> {
        stream.read_int::<u128>(size)
    }
}

impl Read for i8 {
    open spec fn read_ok(v: StreamView) -> bool {
        v.can_read(8)
    }

    open spec fn value_is(v: StreamView, x: i8) -> bool {
        x.is_bits(bits_value(v.buffer.bytes, v.buffer.endianness, v.pos as int, 8), 8)
    }

    open spec fn bits_consumed(v: StreamView) -> nat {
        8
    }

    open spec fn bits_on_error(v: StreamView) -> nat {
        0
    }

    fn read(stream: &mut BitStream) -> Result<i8, ReadError> {
        stream.read_int::<i8>(8)
    }
}

impl ReadSize for i8 {
    open spec fn read_req(v: StreamView, size: usize) -> bool {
        true
    }

    open spec fn read_ok(v: StreamView, size: usize) -> bool {
        size <= 8 && v.can_read(size as nat)
    }

    open spec fn value_is(v: StreamView, size: usize, x: i8) -> bool {
        x.is_bits(
            bits_value(v.buffer.bytes, v.buffer.endianness, v.pos as int, size as nat),
            size as nat,
        )
    }

    open spec fn bits_consumed(v: StreamView, size: usize) -> nat {
        size as nat
    }

    open spec fn bits_on_error(v: StreamView, size: usize) -> nat {
        0
    }

    fn read(stream: &mut BitStream, size: usize) -> Result<i8, ReadError> {
        stream.read_int::<i8>(size)
    }
}

impl Read for i16 {
    open spec fn read_ok(v: StreamView) -> bool {
        v.can_read(16)
    }

    open spec fn value_is(v: StreamView, x: i16) -> bool {
        x.is_bits(bits_value(v.buffer.bytes, v.buffer.endianness, v.pos as int, 16), 16)
    }

    open spec fn bits_consumed(v: StreamView) -> nat {
        16
    }

    open spec fn bits_on_error(v: StreamView) -> nat {
        0
    }

    fn read(stream: &mut BitStream) -> Result<i16, ReadError> {
        stream.read_int::<i16>(16)
    }
}

impl ReadSize for i16 {
    open spec fn read_req(v: StreamView, size: usize) -> bool {
        true
    }

    open spec fn read_ok(v: StreamView, size: usize) -> bool {
        size <= 16 && v.can_read(size as nat)
    }

    open spec fn value_is(v: StreamView, size: usize, x: i16) -> bool {
        x.is_bits(
            bits_value(v.buffer.bytes, v.buffer.endianness, v.pos as int, size as nat),
            size as nat,
        )
    }

    open spec fn bits_consumed(v: StreamView, size: usize) -> nat {
        size as nat
    }

    open spec fn bits_on_error(v: StreamView, size: usize) -> nat {
        0
    }

    fn read(stream: &mut BitStream, size: usize) -> Result<i16, ReadError> {
        stream.read_int::<i16>(size)
    }
}

impl Read for i32 {
    open spec fn read_ok(v: StreamView) -> bool {
        v.can_read(32)
    }

    open spec fn value_is(v: StreamView, x: i32) -> bool {
        x.is_bits(bits_value(v.buffer.bytes, v.buffer.endianness, v.pos as int, 32), 32)
    }

    open spec fn bits_consumed(v: StreamView) -> nat {
        32
    }

    open spec fn bits_on_error(v: StreamView) -> nat {
        0
    }

    fn read(stream: &mut BitStream) -> Result<i32, ReadError> {
        stream.read_int::<i32>(32)
    }
}

impl ReadSize for i32 {
    open spec fn read_req(v: StreamView, size: usize) -> bool {
        true
    }

    open spec fn read_ok(v: StreamView, size: usize) -> bool {
        size <= 32 && v.can_read(size as nat)
    }

    open spec fn value_is(v: StreamView, size: usize, x: i32) -> bool {
        x.is_bits(
            bits_value(v.buffer.bytes, v.buffer.endianness, v.pos as int, size as nat),
            size as nat,
        )
    }

    open spec fn bits_consumed(v: StreamView, size: usize) -> nat {
        size as nat
    }

    open spec fn bits_on_error(v: StreamView, size: usize) -> nat {
        0
    }

    fn read(stream: &mut BitStream, size: usize) -> Result<i32, ReadError> {
        stream.read_int::<i32>(size)
    }
}

impl Read for i64 {
    open spec fn read_ok(v: StreamView) -> bool {
        v.can_read(64)
    }

    open spec fn value_is(v: StreamView, x: i64) -> bool {
        x.is_bits(bits_value(v.buffer.bytes, v.buffer.endianness, v.pos as int, 64), 64)
    }

    open spec fn bits_consumed(v: StreamView) -> nat {
        64
    }

    open spec fn bits_on_error(v: StreamView) -> nat {
        0
    }

    fn read(stream: &mut BitStream) -> Result<i64, ReadError> {
        stream.read_int::<i64>(64)
    }
}

impl ReadSize for i64 {
    open spec fn read_req(v: StreamView, size: usize) -> bool {
        true
    }

    open spec fn read_ok(v: StreamView, size: usize) -> bool {
        size <= 64 && v.can_read(size as nat)
    }

    open spec fn value_is(v: StreamView, size: usize, x: i64) -> bool {
        x.is_bits(
            bits_value(v.buffer.bytes, v.buffer.endianness, v.pos as int, size as nat),
            size as nat,
        )
    }

    open spec fn bits_consumed(v: StreamView, size: usize) -> nat {
        size as nat
    }

    open spec fn bits_on_error(v: StreamView, size: usize) -> nat {
        0
    }

    fn read(stream: &mut BitStream, size: usize) -> Result<i64, ReadError> {
        stream.read_int::<i64>(size)
    }
}

impl Read for i128 {
    open spec fn read_ok(v: StreamView) -> bool {
        v.can_read(128)
    }

    open spec fn value_is(v: StreamView, x: i128) -> bool {
        x.is_bits(bits_value(v.buffer.bytes, v.buffer.endianness, v.pos as int, 128), 128)
    }

    open spec fn bits_consumed(v: StreamView) -> nat {
        128
    }

    open spec fn bits_on_error(v: StreamView) -> nat {
        0
    }

    fn read(stream: &mut BitStream) -> Result<i128, ReadError> {
        stream.read_int::<i128>(128)
    }
}

impl ReadSize for i128 {
    open spec fn read_req(v: StreamView, size: usize) -> bool {
        true
    }

    open spec fn read_ok(v: StreamView, size: usize) -> bool {
        size <= 128 && v.can_read(size as nat)
    }

    open spec fn value_is(v: StreamView, size: usize, x: i128) -> bool {
        x.is_bits(
            bits_value(v.buffer.bytes, v.buffer.endianness, v.pos as int, size as nat),
            size as nat,
        )
    }

    open spec fn bits_consumed(v: StreamView, size: usize) -> nat {
        size as nat
    }

    open spec fn bits_on_error(v: StreamView, size: usize) -> nat {
        0
    }

    fn read(stream: &mut BitStream, size: usize) -> Result<i128, ReadError> {
        stream.read_int::<i128>(size)
    }
}

impl Read for bool {
    open spec fn read_ok(v: StreamView) -> bool {
        v.can_read(1)
    }

    open spec fn value_is(v: StreamView, x: bool) -> bool {
        x == bit_at(v.buffer.bytes, v.buffer.endianness, v.pos as int)
    }

    open spec fn bits_consumed(v: StreamView) -> nat {
        1
    }

    open spec fn bits_on_error(v: StreamView) -> nat {
        0
    }

    fn read(stream: &mut BitStream) -> Result<bool, ReadError> {
        stream.read_bool()
    }
}

impl Read for String {
    open spec fn read_ok(v: StreamView) -> bool {
        match scan_terminator(
            v.buffer.bytes,
            v.buffer.endianness,
            v.pos as int,
            v.buffer.bit_len as int,
        ) {
            Option::Some(k) => valid_utf8(
                bytes_at(v.buffer.bytes, v.buffer.endianness, v.pos as int, k as nat),
            ),
            Option::None => false,
        }
    }

    open spec fn value_is(v: StreamView, x: String) -> bool {
        match scan_terminator(
            v.buffer.bytes,
            v.buffer.endianness,
            v.pos as int,
            v.buffer.bit_len as int,
        ) {
            Option::Some(k) => x@ == decode_utf8(
                bytes_at(v.buffer.bytes, v.buffer.endianness, v.pos as int, k as nat),
            ),
            Option::None => false,
        }
    }

    open spec fn bits_consumed(v: StreamView) -> nat {
        string_consumed(v.buffer, v.pos as int, Option::None)
    }

    open spec fn bits_on_error(v: StreamView) -> nat {
        string_consumed(v.buffer, v.pos as int, Option::None)
    }

    fn read(stream: &mut BitStream) -> Result<String, ReadError> {
        stream.read_string(None)
    }
}

impl ReadSize for String {
    open spec fn read_req(v: StreamView, size: usize) -> bool {
        size * 8 <= usize::MAX
    }

    open spec fn read_ok(v: StreamView, size: usize) -> bool {
        &&& v.pos + 8 * size <= v.buffer.bit_len
        &&& valid_utf8(
            trim_trailing_zeros(
                bytes_at(v.buffer.bytes, v.buffer.endianness, v.pos as int, size as nat),
            ),
        )
    }

    open spec fn value_is(v: StreamView, size: usize, x: String) -> bool {
        x@ == decode_utf8(
            trim_trailing_zeros(
                bytes_at(v.buffer.bytes, v.buffer.endianness, v.pos as int, size as nat),
            ),
        )
    }

    open spec fn bits_consumed(v: StreamView, size: usize) -> nat {
        string_consumed(v.buffer, v.pos as int, Option::Some(size))
    }

    open spec fn bits_on_error(v: StreamView, size: usize) -> nat {
        string_consumed(v.buffer, v.pos as int, Option::Some(size))
    }

    fn read(stream: &mut BitStream, size: usize) -> Result<String, ReadError> {
        stream.read_string(Some(size))
    }
}

} // verus!
