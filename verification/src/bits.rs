//! The mathematical model of bit-level reads.
//!
//! A byte sequence is viewed as a sequence of addressable bits. Which bit of
//! a byte a given bit position denotes, and how consecutive bits assemble
//! into an integer, both depend on the [`Endianness`] policy:
//!
//! * [`Endianness::BigEndian`]: position `p` denotes bit `7 - p % 8` of byte
//!   `p / 8` (most-significant-first), and the first bit read is the most
//!   significant bit of the assembled value.
//! * [`Endianness::LittleEndian`]: position `p` denotes bit `p % 8` of byte
//!   `p / 8` (least-significant-first), and the first bit read is the least
//!   significant bit of the assembled value. Equivalently, the whole buffer
//!   is one large little-endian integer and a read extracts a bit range
//!   of it.

use vstd::arithmetic::power2::{
    lemma2_to64, lemma2_to64_rest, lemma_pow2_adds, lemma_pow2_strictly_increases,
    lemma_pow2_unfold, pow2,
};
use vstd::prelude::*;

use crate::endianness::Endianness;

verus! {

/// `2^e` is monotone in `e`.
pub proof fn lemma_pow2_le(e1: nat, e2: nat)
    requires
        e1 <= e2,
    ensures
        pow2(e1) <= pow2(e2),
{
    if e1 < e2 {
        lemma_pow2_strictly_increases(e1, e2);
    }
}

/// The concrete powers of two at the integer type boundaries, up to `2^128`.
pub proof fn lemma_pow2_type_bounds()
    ensures
        pow2(0) == 1,
        pow2(1) == 2,
        pow2(7) == 0x80,
        pow2(8) == 0x100,
        pow2(15) == 0x8000,
        pow2(16) == 0x1_0000,
        pow2(31) == 0x8000_0000,
        pow2(32) == 0x1_0000_0000,
        pow2(63) == 0x8000_0000_0000_0000,
        pow2(64) == 0x1_0000_0000_0000_0000,
        pow2(127) == 0x8000_0000_0000_0000_0000_0000_0000_0000,
        pow2(128) == 0x1_0000_0000_0000_0000_0000_0000_0000_0000,
{
    lemma2_to64();
    lemma2_to64_rest();
    lemma_pow2_adds(64, 63);
    lemma_pow2_adds(64, 64);
}

/// `2^e`, computed at run time by repeated doubling.
pub fn pow2_u128(e: usize) -> (r: u128)
    requires
        e <= 127,
    ensures
        r == pow2(e as nat),
{
    proof {
        lemma2_to64();
        lemma_pow2_type_bounds();
    }
    let mut r: u128 = 1;
    let mut k: usize = 0;
    while k < e
        invariant
            k <= e,
            e <= 127,
            r == pow2(k as nat),
        decreases e - k,
    {
        proof {
            lemma_pow2_unfold((k + 1) as nat);
            lemma_pow2_le((k + 1) as nat, 127);
            lemma_pow2_type_bounds();
        }
        r = 2 * r;
        k = k + 1;
    }
    r
}

/// How far byte `p / 8` must be shifted right so that the bit addressed by
/// position `p` lands in the least significant place.
pub open spec fn bit_shift(endianness: Endianness, p: int) -> int {
    match endianness {
        Endianness::BigEndian => 7 - p % 8,
        Endianness::LittleEndian => p % 8,
    }
}

/// The bit addressed by absolute position `p`, under the given endianness.
pub open spec fn bit_at(bytes: Seq<u8>, endianness: Endianness, p: int) -> bool
    recommends
        0 <= p < bytes.len() * 8,
{
    (bytes[p / 8] >> (bit_shift(endianness, p) as u8)) & 1 == 1
}

/// The unsigned value of the `width` bits starting at absolute position
/// `pos`, assembled under the given endianness.
///
/// Under `BigEndian` the bit at `pos` is the most significant of the result;
/// under `LittleEndian` it is the least significant.
pub open spec fn bits_value(bytes: Seq<u8>, endianness: Endianness, pos: int, width: nat) -> nat
    recommends
        0 <= pos,
        pos + width <= bytes.len() * 8,
    decreases width,
{
    if width == 0 {
        0
    } else {
        match endianness {
            Endianness::BigEndian => 2 * bits_value(bytes, endianness, pos, (width - 1) as nat)
                + (if bit_at(bytes, endianness, pos + width - 1) {
                    1nat
                } else {
                    0nat
                }),
            Endianness::LittleEndian => (if bit_at(bytes, endianness, pos) {
                1nat
            } else {
                0nat
            }) + 2 * bits_value(bytes, endianness, pos + 1, (width - 1) as nat),
        }
    }
}

/// A `width`-bit value is below `2^width`.
pub proof fn lemma_bits_value_bound(bytes: Seq<u8>, endianness: Endianness, pos: int, width: nat)
    ensures
        bits_value(bytes, endianness, pos, width) < pow2(width),
    decreases width,
{
    if width == 0 {
        assert(pow2(0) == 1) by {
            vstd::arithmetic::power2::lemma2_to64();
        }
    } else {
        lemma_pow2_unfold(width);
        match endianness {
            Endianness::BigEndian => {
                lemma_bits_value_bound(bytes, endianness, pos, (width - 1) as nat);
            },
            Endianness::LittleEndian => {
                lemma_bits_value_bound(bytes, endianness, pos + 1, (width - 1) as nat);
            },
        }
    }
}

/// The value of the `width` bits at `pos` reinterpreted as a two's-complement
/// signed integer of `width` bits: values at or above `2^(width-1)` wrap
/// around to negative numbers.
pub open spec fn sign_extend(val: nat, width: nat) -> int {
    if width > 0 && val >= pow2((width - 1) as nat) {
        val - pow2(width)
    } else {
        val as int
    }
}

/// The byte assembled from the 8 bits starting at absolute position `pos`,
/// under the given endianness.
pub open spec fn byte_at(bytes: Seq<u8>, endianness: Endianness, pos: int) -> u8 {
    bits_value(bytes, endianness, pos, 8) as u8
}

/// Splitting off the low bit of a right shift: the shifted value is twice
/// the next shift plus the bit shifted out.
proof fn lemma_u8_shr_split(x: u8, s: u8)
    by (bit_vector)
    requires
        s < 8,
    ensures
        x >> s == 2 * (x >> (s + 1) as u8) + ((x >> s) & 1),
{
}

/// Shifting a byte out entirely leaves nothing.
proof fn lemma_u8_shr_all(x: u8)
    by (bit_vector)
    ensures
        x >> 8u8 == 0,
{
}

/// The bit positions `8 * k` through `8 * k + 7` all address byte `k`, at
/// in-byte offset `0` through `7`.
proof fn lemma_bit_position_in_byte(k: int, j: int)
    requires
        0 <= k,
        0 <= j < 8,
    ensures
        (8 * k + j) / 8 == k,
        (8 * k + j) % 8 == j,
{
    vstd::arithmetic::div_mod::lemma_fundamental_div_mod_converse(8 * k + j, 8, k, j);
}

/// Under `LittleEndian`, the bits of byte `k` from in-byte offset `j`
/// upward assemble to the byte shifted right by `j`.
proof fn lemma_byte_bits_le(bytes: Seq<u8>, k: int, j: int)
    requires
        0 <= k < bytes.len(),
        0 <= j <= 8,
    ensures
        bits_value(bytes, Endianness::LittleEndian, 8 * k + j, (8 - j) as nat) == bytes[k] >> (
        j as u8),
    decreases 8 - j,
{
    let b = bytes[k];
    if j == 8 {
        lemma_u8_shr_all(b);
    } else {
        let sj: u8 = j as u8;
        lemma_bit_position_in_byte(k, j);
        assert(bit_at(bytes, Endianness::LittleEndian, 8 * k + j) == ((b >> sj) & 1 == 1));
        assert((b >> sj) & 1 == 0 || (b >> sj) & 1 == 1) by (bit_vector);
        lemma_byte_bits_le(bytes, k, j + 1);
        assert(8 * k + (j + 1) == (8 * k + j) + 1);
        lemma_u8_shr_split(b, j as u8);
    }
}

/// Under `BigEndian`, the first `w` bits of byte `k` assemble to the byte
/// shifted right by `8 - w`.
proof fn lemma_byte_bits_be(bytes: Seq<u8>, k: int, w: int)
    requires
        0 <= k < bytes.len(),
        0 <= w <= 8,
    ensures
        bits_value(bytes, Endianness::BigEndian, 8 * k, w as nat) == bytes[k] >> ((8 - w) as u8),
    decreases w,
{
    let b = bytes[k];
    if w == 0 {
        lemma_u8_shr_all(b);
    } else {
        let sw: u8 = (8 - w) as u8;
        lemma_bit_position_in_byte(k, w - 1);
        assert(bit_at(bytes, Endianness::BigEndian, 8 * k + w - 1) == ((b >> sw) & 1 == 1));
        assert((b >> sw) & 1 == 0 || (b >> sw) & 1 == 1) by (bit_vector);
        lemma_byte_bits_be(bytes, k, w - 1);
        lemma_u8_shr_split(b, (8 - w) as u8);
    }
}

/// Byte-aligned reads are transparent: under either endianness, the byte
/// assembled from the 8 bits at position `8 * k` is byte `k` of the source.
pub proof fn lemma_byte_at_aligned(bytes: Seq<u8>, endianness: Endianness, k: int)
    requires
        0 <= k < bytes.len(),
    ensures
        byte_at(bytes, endianness, 8 * k) == bytes[k],
{
    let b = bytes[k];
    assert(b >> 0u8 == b) by (bit_vector);
    match endianness {
        Endianness::BigEndian => {
            lemma_byte_bits_be(bytes, k, 8);
        },
        Endianness::LittleEndian => {
            lemma_byte_bits_le(bytes, k, 0);
        },
    }
}

/// The `count` bytes assembled from consecutive 8-bit groups starting at
/// absolute position `pos`.
pub open spec fn bytes_at(bytes: Seq<u8>, endianness: Endianness, pos: int, count: nat) -> Seq<u8> {
    Seq::new(count, |i: int| byte_at(bytes, endianness, pos + 8 * i))
}

/// Byte-aligned byte runs are transparent: under either endianness, the
/// `count` bytes assembled starting at bit `8 * k0` are bytes `k0` up to
/// `k0 + count` of the source, unchanged.
pub proof fn lemma_bytes_at_aligned(bytes: Seq<u8>, endianness: Endianness, k0: int, count: nat)
    requires
        0 <= k0,
        k0 + count <= bytes.len(),
    ensures
        bytes_at(bytes, endianness, 8 * k0, count) == bytes.subrange(k0, k0 + count),
{
    let sub = bytes.subrange(k0, k0 + count);
    assert forall|i: int| 0 <= i < count implies #[trigger] sub[i] == byte_at(
        bytes,
        endianness,
        8 * k0 + 8 * i,
    ) by {
        lemma_byte_at_aligned(bytes, endianness, k0 + i);
        assert(8 * k0 + 8 * i == 8 * (k0 + i));
        assert(sub[i] == bytes[k0 + i]);
    }
    assert(bytes_at(bytes, endianness, 8 * k0, count) =~= sub);
}

/// No zero byte occurs among the `n` whole bytes scanned from absolute bit
/// position `pos`.
pub open spec fn no_zero_bytes(bytes: Seq<u8>, endianness: Endianness, pos: int, n: nat) -> bool
    decreases n,
{
    n == 0 || (byte_at(bytes, endianness, pos) != 0 && no_zero_bytes(
        bytes,
        endianness,
        pos + 8,
        (n - 1) as nat,
    ))
}

/// One more non-zero byte extends a zero-free scan by one.
pub proof fn lemma_no_zero_bytes_extend(bytes: Seq<u8>, endianness: Endianness, pos: int, n: nat)
    requires
        no_zero_bytes(bytes, endianness, pos, n),
        byte_at(bytes, endianness, pos + 8 * n) != 0,
    ensures
        no_zero_bytes(bytes, endianness, pos, n + 1),
    decreases n,
{
    if n == 0 {
        assert(pos + 8 * n == pos);
        assert(byte_at(bytes, endianness, pos) != 0);
        assert(no_zero_bytes(bytes, endianness, pos + 8, 0nat));
    } else {
        assert(byte_at(bytes, endianness, (pos + 8) + 8 * (n - 1)) != 0);
        lemma_no_zero_bytes_extend(bytes, endianness, pos + 8, (n - 1) as nat);
    }
}

/// `bs` with every trailing zero byte removed.
pub open spec fn trim_trailing_zeros(bs: Seq<u8>) -> Seq<u8>
    decreases bs.len(),
{
    if bs.len() > 0 && bs.last() == 0 {
        trim_trailing_zeros(bs.drop_last())
    } else {
        bs
    }
}

/// Scan up to `remaining` whole bytes, starting at absolute bit position
/// `pos`, for a zero byte: the number of non-zero bytes before the first
/// zero byte, or `None` when no zero byte occurs within `remaining` bytes.
pub open spec fn scan_terminator_from(
    bytes: Seq<u8>,
    endianness: Endianness,
    pos: int,
    remaining: nat,
) -> Option<int>
    decreases remaining,
{
    if remaining == 0 {
        None
    } else if byte_at(bytes, endianness, pos) == 0 {
        Some(0int)
    } else {
        match scan_terminator_from(bytes, endianness, pos + 8, (remaining - 1) as nat) {
            Option::None => None,
            Option::Some(k) => Some(k + 1),
        }
    }
}

/// Scan forward from absolute bit position `pos` for a zero byte, within the
/// whole bytes that fit below `bit_len`.
pub open spec fn scan_terminator(
    bytes: Seq<u8>,
    endianness: Endianness,
    pos: int,
    bit_len: int,
) -> Option<int> {
    scan_terminator_from(bytes, endianness, pos, whole_bytes_from(pos, bit_len))
}

/// How many whole bytes fit between absolute bit position `pos` and `bit_len`.
pub open spec fn whole_bytes_from(pos: int, bit_len: int) -> nat {
    if pos <= bit_len {
        ((bit_len - pos) / 8) as nat
    } else {
        0
    }
}

/// The scan finds the zero byte at byte offset `k` when the `k` bytes before
/// it are zero-free.
pub proof fn lemma_scan_found(
    bytes: Seq<u8>,
    endianness: Endianness,
    pos: int,
    remaining: nat,
    k: int,
)
    requires
        0 <= k < remaining,
        byte_at(bytes, endianness, pos + 8 * k) == 0,
        no_zero_bytes(bytes, endianness, pos, k as nat),
    ensures
        scan_terminator_from(bytes, endianness, pos, remaining) == Some(k),
    decreases k,
{
    if k == 0 {
    } else {
        assert(byte_at(bytes, endianness, (pos + 8) + 8 * (k - 1)) == 0);
        lemma_scan_found(bytes, endianness, pos + 8, (remaining - 1) as nat, k - 1);
    }
}

/// The scan finds nothing when every byte within reach is non-zero.
pub proof fn lemma_scan_not_found(bytes: Seq<u8>, endianness: Endianness, pos: int, remaining: nat)
    requires
        no_zero_bytes(bytes, endianness, pos, remaining),
    ensures
        scan_terminator_from(bytes, endianness, pos, remaining) is None,
    decreases remaining,
{
    if remaining == 0 {
    } else {
        lemma_scan_not_found(bytes, endianness, pos + 8, (remaining - 1) as nat);
    }
}

} // verus!
