//! The stateless bit-assembly layer.
//!
//! A [`BitBuffer`] owns a shared, immutable byte source together with the
//! endianness and padding policies chosen at construction and a declared bit
//! length. It has no notion of a current position: every read takes an
//! absolute bit position and is validated against the bit length.

use std::rc::Rc;

use vstd::prelude::*;

use vstd::arithmetic::power2::{
    lemma2_to64, lemma_pow2_adds, lemma_pow2_strictly_increases, lemma_pow2_unfold, pow2,
};

use vstd::arithmetic::div_mod::lemma_fundamental_div_mod;
use vstd::utf8::{decode_utf8, valid_utf8};

use crate::bits::{
    bit_at, bits_value, byte_at, bytes_at, lemma_bits_value_bound, lemma_pow2_type_bounds,
    lemma_no_zero_bytes_extend, lemma_scan_found, lemma_scan_not_found, no_zero_bytes,
    scan_terminator, trim_trailing_zeros, whole_bytes_from,
};
use crate::endianness::{Endianness, Padding};
use crate::error::ReadError;
use crate::read::BitInteger;

verus! {

/// The abstract state of a [`BitBuffer`]: the shared bytes, the two policies
/// and the declared bit length.
pub ghost struct BufferView {
    pub bytes: Seq<u8>,
    pub endianness: Endianness,
    pub padding: Padding,
    pub bit_len: nat,
}

impl BufferView {
    /// Well-formedness: the declared bit length lies within the byte source,
    /// the source's bit size fits in `usize`, and a padded buffer reports a
    /// whole number of bytes.
    pub open spec fn wf(self) -> bool {
        &&& self.bit_len <= self.bytes.len() * 8
        &&& self.bytes.len() * 8 <= usize::MAX
        &&& (self.padding is Padded ==> self.bit_len % 8 == 0)
    }

    /// Bits remaining at absolute position `pos`; zero when `pos` lies at or
    /// past the end.
    pub open spec fn avail(self, pos: int) -> nat {
        if pos <= self.bit_len {
            (self.bit_len - pos) as nat
        } else {
            0
        }
    }
}

/// The complete outcome of a string read at absolute bit position `pos`:
/// which result comes back and how many bits the read consumes.
///
/// With `byte_len` given, exactly that many bytes are read; trailing zero
/// bytes are trimmed before UTF-8 validation, and the read consumes
/// `byte_len` bytes whether or not validation succeeds. Without `byte_len`,
/// whole bytes are scanned for a zero terminator; the terminator is excluded
/// from the text but included in the consumed length, and on invalid UTF-8
/// the whole scanned region (terminator included) counts as consumed, so a
/// caller that ignores the decode error stays correctly positioned. A read
/// that fails with [`ReadError::NotEnoughData`] consumes nothing.
pub open spec fn string_outcome(
    v: BufferView,
    pos: int,
    byte_len: Option<usize>,
    consumed: nat,
    r: Result<String, ReadError>,
) -> bool {
    match byte_len {
        Option::Some(l) => {
            if pos + 8 * l <= v.bit_len {
                let c = trim_trailing_zeros(bytes_at(v.bytes, v.endianness, pos, l as nat));
                &&& consumed == 8 * l
                &&& valid_utf8(c) ==> (r matches Ok(s) && s@ == decode_utf8(c))
                &&& !valid_utf8(c) ==> (r matches Err(ReadError::Utf8Error { bytes })
                    && bytes@ == c)
            } else {
                &&& consumed == 0
                &&& (r matches Err(e) && e == (ReadError::NotEnoughData {
                    requested: (8 * l) as usize,
                    available: v.avail(pos) as usize,
                }))
            }
        },
        Option::None => {
            match scan_terminator(v.bytes, v.endianness, pos, v.bit_len as int) {
                Option::Some(k) => {
                    let c = bytes_at(v.bytes, v.endianness, pos, k as nat);
                    &&& consumed == 8 * (k + 1)
                    &&& valid_utf8(c) ==> (r matches Ok(s) && s@ == decode_utf8(c))
                    &&& !valid_utf8(c) ==> (r matches Err(ReadError::Utf8Error { bytes })
                        && bytes@ == c)
                },
                Option::None => {
                    &&& consumed == 0
                    &&& (r matches Err(e) && e == (ReadError::NotEnoughData {
                        requested: 8,
                        available: (v.avail(pos) % 8) as usize,
                    }))
                },
            }
        },
    }
}

/// How many bits a string read at absolute position `pos` consumes, for
/// every outcome: the whole requested or scanned region on success and on
/// invalid UTF-8, and nothing when the data runs out first.
pub open spec fn string_consumed(v: BufferView, pos: int, byte_len: Option<usize>) -> nat {
    match byte_len {
        Option::Some(l) => if pos + 8 * l <= v.bit_len {
            (8 * l) as nat
        } else {
            0
        },
        Option::None => match scan_terminator(v.bytes, v.endianness, pos, v.bit_len as int) {
            Option::Some(k) => (8 * (k + 1)) as nat,
            Option::None => 0,
        },
    }
}

/// An immutable byte source plus an endianness policy, a padding policy and
/// a declared bit length, read at absolute bit positions.
#[derive(Debug)]
pub struct BitBuffer {
    bytes: Rc<Vec<u8>>,
    endianness: Endianness,
    padding: Padding,
    bit_len: usize,
}

impl View for BitBuffer {
    type V = BufferView;

    closed spec fn view(&self) -> BufferView {
        BufferView {
            bytes: self.bytes@,
            endianness: self.endianness,
            padding: self.padding,
            bit_len: self.bit_len as nat,
        }
    }
}

impl BitBuffer {
    /// Well-formedness of the buffer's view.
    pub open spec fn inv(&self) -> bool {
        self@.wf()
    }

    /// Wrap an owned byte sequence in a padded buffer covering all its bits.
    pub fn new(bytes: Vec<u8>, endianness: Endianness) -> (r: BitBuffer)
        requires
            bytes@.len() * 8 <= usize::MAX,
        ensures
            r.inv(),
            r@.bytes == bytes@,
            r@.endianness == endianness,
            r@.padding is Padded,
            r@.bit_len == bytes@.len() * 8,
    {
        let bit_len = bytes.len() * 8;
        BitBuffer { bytes: Rc::new(bytes), endianness, padding: Padding::Padded, bit_len }
    }

    /// The buffer's declared length in bits.
    pub fn bit_len(&self) -> (r: usize)
        ensures
            r == self@.bit_len,
    {
        self.bit_len
    }

    /// Read the single bit at absolute position `p`.
    fn read_bit(&self, p: usize) -> (r: bool)
        requires
            self.inv(),
            p < self@.bit_len,
        ensures
            r == bit_at(self@.bytes, self@.endianness, p as int),
    {
        proof {
            assert(p as int / 8 < self@.bytes.len()) by (nonlinear_arith)
                requires
                    p < self@.bytes.len() * 8,
            ;
        }
        let byte = self.bytes[p / 8];
        let shift: usize = match self.endianness {
            Endianness::BigEndian => 7 - p % 8,
            Endianness::LittleEndian => p % 8,
        };
        ((byte >> (shift as u8)) & 1) == 1
    }

    /// Assemble the `count` bits starting at absolute position `pos` into an
    /// unsigned value, per the buffer's endianness. All validation is the
    /// caller's burden.
    fn read_value(&self, pos: usize, count: usize) -> (r: u128)
        requires
            self.inv(),
            count <= 128,
            pos + count <= self@.bit_len,
        ensures
            r == bits_value(self@.bytes, self@.endianness, pos as int, count as nat),
    {
        proof {
            lemma2_to64();
        }
        match self.endianness {
            Endianness::BigEndian => {
                // Most-significant-first: each new bit shifts the accumulator up.
                let mut acc: u128 = 0;
                let mut k: usize = 0;
                while k < count
                    invariant
                        self.inv(),
                        count <= 128,
                        pos + count <= self@.bit_len,
                        k <= count,
                        self@.endianness is BigEndian,
                        acc == bits_value(self@.bytes, self@.endianness, pos as int, k as nat),
                        acc < pow2(k as nat),
                    decreases count - k,
                {
                    let b = self.read_bit(pos + k);
                    proof {
                        lemma_pow2_unfold((k + 1) as nat);
                        lemma_le_u128_max((k + 1) as nat);
                    }
                    acc = 2 * acc + (if b { 1 } else { 0 });
                    k = k + 1;
                }
                acc
            },
            Endianness::LittleEndian => {
                // Least-significant-first: walk backwards so each new bit is
                // the least significant so far.
                let mut acc: u128 = 0;
                let mut i: usize = count;
                while i > 0
                    invariant
                        self.inv(),
                        count <= 128,
                        pos + count <= self@.bit_len,
                        i <= count,
                        self@.endianness is LittleEndian,
                        acc == bits_value(
                            self@.bytes,
                            self@.endianness,
                            pos + i,
                            (count - i) as nat,
                        ),
                        acc < pow2((count - i) as nat),
                    decreases i,
                {
                    i = i - 1;
                    let b = self.read_bit(pos + i);
                    proof {
                        lemma_pow2_unfold((count - i) as nat);
                        lemma_le_u128_max((count - i) as nat);
                    }
                    acc = 2 * acc + (if b { 1 } else { 0 });
                }
                acc
            },
        }
    }

    /// The number of bits left at absolute position `pos`.
    fn bits_available(&self, pos: usize) -> (r: usize)
        ensures
            r == self@.avail(pos as int),
    {
        if pos <= self.bit_len {
            self.bit_len - pos
        } else {
            0
        }
    }

    /// Read the single bit at absolute position `pos` as a boolean.
    ///
    /// Fails with [`ReadError::NotEnoughData`] when `pos` lies at or past the
    /// end of the buffer.
    pub fn read_bool(&self, pos: usize) -> (r: Result<bool, ReadError>)
        requires
            self.inv(),
        ensures
            pos < self@.bit_len ==> (r matches Ok(b) && b == bit_at(
                self@.bytes,
                self@.endianness,
                pos as int,
            )),
            pos >= self@.bit_len ==> (r matches Err(e) && e == (ReadError::NotEnoughData {
                requested: 1,
                available: self@.avail(pos as int) as usize,
            })),
    {
        if pos >= self.bit_len {
            return Err(ReadError::NotEnoughData { requested: 1, available: 0 });
        }
        Ok(self.read_bit(pos))
    }

    /// Extract `count` bits starting at absolute position `pos` into an
    /// integer of type `T`.
    ///
    /// Fails with [`ReadError::TooManyBits`] when `count` exceeds `T`'s bit
    /// capacity, and with [`ReadError::NotEnoughData`] when fewer than
    /// `count` bits remain at `pos`; exactly otherwise it returns the
    /// `count`-bit value at `pos` interpreted in `T`.
    pub fn read_int<T: BitInteger>(&self, pos: usize, count: usize) -> (r: Result<T, ReadError>)
        requires
            self.inv(),
        ensures
            count > T::width_spec() ==> (r matches Err(e) && e == (ReadError::TooManyBits {
                requested: count,
                max: T::width_spec() as usize,
            })),
            count <= T::width_spec() && pos + count > self@.bit_len ==> (r matches Err(e) && e
                == (ReadError::NotEnoughData {
                requested: count,
                available: self@.avail(pos as int) as usize,
            })),
            count <= T::width_spec() && pos + count <= self@.bit_len ==> (r matches Ok(v)
                && v.is_bits(
                bits_value(self@.bytes, self@.endianness, pos as int, count as nat),
                count as nat,
            )),
    {
        let w = T::width();
        proof {
            T::width_bound();
        }
        if count > w {
            return Err(ReadError::TooManyBits { requested: count, max: w });
        }
        if pos > self.bit_len || count > self.bit_len - pos {
            return Err(
                ReadError::NotEnoughData { requested: count, available: self.bits_available(pos) },
            );
        }
        let val = self.read_value(pos, count);
        proof {
            lemma_bits_value_bound(self@.bytes, self@.endianness, pos as int, count as nat);
        }
        Ok(T::from_bits(val, count))
    }

    /// Extract `count` bits at `pos` into an integer of type `T`, with all
    /// validation done by the caller: the precondition demands, and Verus
    /// proves at every call site, what the checked twin tests at run time.
    pub fn read_int_unchecked<T: BitInteger>(&self, pos: usize, count: usize) -> (r: T)
        requires
            self.inv(),
            count <= T::width_spec(),
            pos + count <= self@.bit_len,
        ensures
            r.is_bits(
                bits_value(self@.bytes, self@.endianness, pos as int, count as nat),
                count as nat,
            ),
    {
        proof {
            T::width_bound();
            lemma_bits_value_bound(self@.bytes, self@.endianness, pos as int, count as nat);
        }
        let val = self.read_value(pos, count);
        T::from_bits(val, count)
    }

    /// Read `byte_count` bytes starting at absolute bit position `pos`,
    /// assembling each output byte from 8 consecutive bits, so `pos` need
    /// not be byte-aligned. For a byte-aligned `pos`,
    /// [`crate::bits::lemma_bytes_at_aligned`] shows the result is the
    /// untouched run of source bytes, under either endianness.
    ///
    /// Fails with [`ReadError::NotEnoughData`] when fewer than
    /// `byte_count * 8` bits remain at `pos`. The bound on `byte_count` only
    /// keeps the requested bit count within the machine word.
    pub fn read_bytes(&self, pos: usize, byte_count: usize) -> (r: Result<Vec<u8>, ReadError>)
        requires
            self.inv(),
            byte_count * 8 <= usize::MAX,
        ensures
            pos + byte_count * 8 <= self@.bit_len ==> (r matches Ok(v) && v@ == bytes_at(
                self@.bytes,
                self@.endianness,
                pos as int,
                byte_count as nat,
            )),
            pos + byte_count * 8 > self@.bit_len ==> (r matches Err(e) && e
                == (ReadError::NotEnoughData {
                requested: (byte_count * 8) as usize,
                available: self@.avail(pos as int) as usize,
            })),
    {
        let bit_count = byte_count * 8;
        if pos > self.bit_len || bit_count > self.bit_len - pos {
            return Err(
                ReadError::NotEnoughData {
                    requested: bit_count,
                    available: self.bits_available(pos),
                },
            );
        }
        let mut out: Vec<u8> = Vec::new();
        let mut k: usize = 0;
        while k < byte_count
            invariant
                self.inv(),
                pos + byte_count * 8 <= self@.bit_len,
                k <= byte_count,
                out@.len() == k,
                forall|j: int|
                    0 <= j < k ==> out@[j] == byte_at(
                        self@.bytes,
                        self@.endianness,
                        pos + 8 * j,
                    ),
            decreases byte_count - k,
        {
            proof {
                lemma_bits_value_bound(self@.bytes, self@.endianness, pos + 8 * k, 8);
                lemma_pow2_type_bounds();
            }
            let v = self.read_value(pos + 8 * k, 8);
            out.push(v as u8);
            k = k + 1;
        }
        proof {
            assert(out@ =~= bytes_at(self@.bytes, self@.endianness, pos as int, byte_count as nat));
        }
        Ok(out)
    }

    /// The unchecked twin of [`BitBuffer::read_bytes`]: the caller proves
    /// the bounds instead of having them tested at run time.
    pub fn read_bytes_unchecked(&self, pos: usize, byte_count: usize) -> (r: Vec<u8>)
        requires
            self.inv(),
            pos + byte_count * 8 <= self@.bit_len,
        ensures
            r@ == bytes_at(self@.bytes, self@.endianness, pos as int, byte_count as nat),
    {
        let mut out: Vec<u8> = Vec::new();
        let mut k: usize = 0;
        while k < byte_count
            invariant
                self.inv(),
                pos + byte_count * 8 <= self@.bit_len,
                k <= byte_count,
                out@.len() == k,
                forall|j: int|
                    0 <= j < k ==> out@[j] == byte_at(
                        self@.bytes,
                        self@.endianness,
                        pos + 8 * j,
                    ),
            decreases byte_count - k,
        {
            proof {
                lemma_bits_value_bound(self@.bytes, self@.endianness, pos + 8 * k, 8);
                lemma_pow2_type_bounds();
            }
            let v = self.read_value(pos + 8 * k, 8);
            out.push(v as u8);
            k = k + 1;
        }
        proof {
            assert(out@ =~= bytes_at(self@.bytes, self@.endianness, pos as int, byte_count as nat));
        }
        out
    }

    /// A new buffer over the same shared byte source, truncated to the given
    /// absolute bit length; no bytes are copied.
    ///
    /// Fails with [`ReadError::NotEnoughData`] when `bit_len` exceeds this
    /// buffer's bit length. The sub-buffer is unpadded: it reports exactly
    /// the requested length.
    pub fn get_sub_buffer(&self, bit_len: usize) -> (r: Result<BitBuffer, ReadError>)
        requires
            self.inv(),
        ensures
            bit_len <= self@.bit_len ==> (r matches Ok(b) && b.inv() && b@ == (BufferView {
                padding: Padding::Unpadded,
                bit_len: bit_len as nat,
                ..self@
            })),
            bit_len > self@.bit_len ==> (r matches Err(e) && e == (ReadError::NotEnoughData {
                requested: bit_len,
                available: self@.bit_len as usize,
            })),
    {
        if bit_len > self.bit_len {
            return Err(
                ReadError::NotEnoughData { requested: bit_len, available: self.bit_len },
            );
        }
        Ok(
            BitBuffer {
                bytes: Rc::clone(&self.bytes),
                endianness: self.endianness,
                padding: Padding::Unpadded,
                bit_len,
            },
        )
    }

    /// Read `byte_count` bytes at `pos` and drop every trailing zero byte.
    fn read_trimmed(&self, pos: usize, byte_count: usize) -> (r: Vec<u8>)
        requires
            self.inv(),
            pos + byte_count * 8 <= self@.bit_len,
        ensures
            r@ == trim_trailing_zeros(
                bytes_at(self@.bytes, self@.endianness, pos as int, byte_count as nat),
            ),
    {
        let ghost full = bytes_at(self@.bytes, self@.endianness, pos as int, byte_count as nat);
        let mut raw = self.read_bytes_unchecked(pos, byte_count);
        while raw.len() > 0 && raw[raw.len() - 1] == 0
            invariant
                trim_trailing_zeros(raw@) == trim_trailing_zeros(full),
            decreases raw@.len(),
        {
            raw.pop();
        }
        raw
    }

    /// The string read shared by the buffer's and the stream's public
    /// surface: the result together with the number of bits consumed.
    pub(crate) fn read_string_at(&self, pos: usize, byte_len: Option<usize>) -> (r: (
        usize,
        Result<String, ReadError>,
    ))
        requires
            self.inv(),
            byte_len matches Some(l) ==> l * 8 <= usize::MAX,
        ensures
            string_outcome(self@, pos as int, byte_len, r.0 as nat, r.1),
            r.0 == string_consumed(self@, pos as int, byte_len),
            pos + r.0 <= self@.bit_len || r.0 == 0,
    {
        match byte_len {
            Some(l) => {
                let bit_count = l * 8;
                if pos > self.bit_len || bit_count > self.bit_len - pos {
                    return (
                        0,
                        Err(
                            ReadError::NotEnoughData {
                                requested: bit_count,
                                available: self.bits_available(pos),
                            },
                        ),
                    );
                }
                let content = self.read_trimmed(pos, l);
                match string_from_utf8(content) {
                    Some(s) => (bit_count, Ok(s)),
                    None => (
                        bit_count,
                        Err(ReadError::Utf8Error { bytes: self.read_trimmed(pos, l) }),
                    ),
                }
            },
            None => {
                let nbytes: usize = if pos <= self.bit_len {
                    (self.bit_len - pos) / 8
                } else {
                    0
                };
                proof {
                    if pos <= self.bit_len {
                        lemma_fundamental_div_mod(self@.bit_len - pos, 8);
                    }
                    assert(nbytes == whole_bytes_from(pos as int, self@.bit_len as int));
                    assert(pos + 8 * nbytes <= self@.bit_len || nbytes == 0);
                }
                let mut k: usize = 0;
                let mut found: bool = false;
                while !found && k < nbytes
                    invariant
                        self.inv(),
                        k <= nbytes,
                        pos + 8 * nbytes <= self@.bit_len || nbytes == 0,
                        no_zero_bytes(self@.bytes, self@.endianness, pos as int, k as nat),
                        found ==> k < nbytes && byte_at(
                            self@.bytes,
                            self@.endianness,
                            pos + 8 * (k as int),
                        ) == 0,
                    decreases nbytes - k + (if found { 0int } else { 1int }),
                {
                    proof {
                        lemma_bits_value_bound(self@.bytes, self@.endianness, pos + 8 * k, 8);
                        lemma_pow2_type_bounds();
                    }
                    let b = self.read_value(pos + 8 * k, 8);
                    if b == 0 {
                        found = true;
                    } else {
                        proof {
                            lemma_no_zero_bytes_extend(
                                self@.bytes,
                                self@.endianness,
                                pos as int,
                                k as nat,
                            );
                        }
                        k = k + 1;
                    }
                }
                if !found {
                    proof {
                        lemma_scan_not_found(
                            self@.bytes,
                            self@.endianness,
                            pos as int,
                            nbytes as nat,
                        );
                    }
                    return (
                        0,
                        Err(
                            ReadError::NotEnoughData {
                                requested: 8,
                                available: self.bits_available(pos) % 8,
                            },
                        ),
                    );
                }
                proof {
                    lemma_scan_found(
                        self@.bytes,
                        self@.endianness,
                        pos as int,
                        nbytes as nat,
                        k as int,
                    );
                }
                let content = self.read_bytes_unchecked(pos, k);
                let consumed = 8 * k + 8;
                match string_from_utf8(content) {
                    Some(s) => (consumed, Ok(s)),
                    None => (
                        consumed,
                        Err(ReadError::Utf8Error { bytes: self.read_bytes_unchecked(pos, k) }),
                    ),
                }
            },
        }
    }

    /// Read a UTF-8 string starting at absolute bit position `pos`.
    ///
    /// With `byte_len` given, exactly that many bytes are read and trailing
    /// zero bytes are trimmed before validation; without it, bytes are
    /// scanned for a zero terminator, which is excluded from the text.
    /// [`string_outcome`] states the full contract, including how many bits
    /// a stream consumes for each outcome.
    pub fn read_string(&self, pos: usize, byte_len: Option<usize>) -> (r: Result<
        String,
        ReadError,
    >)
        requires
            self.inv(),
            byte_len matches Some(l) ==> l * 8 <= usize::MAX,
        ensures
            string_outcome(
                self@,
                pos as int,
                byte_len,
                string_consumed(self@, pos as int, byte_len),
                r,
            ),
    {
        let (_, result) = self.read_string_at(pos, byte_len);
        result
    }
}

impl Clone for BitBuffer {
    /// Cloning a buffer shares the same byte source; nothing is copied.
    fn clone(&self) -> (r: Self)
        ensures
            r@ == self@,
    {
        BitBuffer {
            bytes: Rc::clone(&self.bytes),
            endianness: self.endianness,
            padding: self.padding,
            bit_len: self.bit_len,
        }
    }
}

/// Relies on `String::from_utf8` from std: it returns `Ok` exactly when the
/// input is valid UTF-8, and then the string's characters are the UTF-8
/// decoding of the input bytes.
#[verifier::external_body]
fn string_from_utf8(bytes: Vec<u8>) -> (r: Option<String>)
    ensures
        valid_utf8(bytes@) <==> r is Some,
        r matches Some(s) ==> s@ == decode_utf8(bytes@),
{
    match String::from_utf8(bytes) {
        Ok(s) => Some(s),
        Err(_) => None,
    }
}

/// `2^e` fits in a `u128` for `e` up to 128.
proof fn lemma_le_u128_max(e: nat)
    requires
        e <= 128,
    ensures
        pow2(e) <= u128::MAX as nat + 1,
{
    lemma2_to64();
    lemma_pow2_adds(64, 64);
    if e < 128 {
        lemma_pow2_strictly_increases(e, 128);
    }
}

} // verus!
