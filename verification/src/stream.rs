//! The sequential, position-tracking view over a [`BitBuffer`].
//!
//! A [`BitStream`] holds a buffer, a window origin (`start_pos`) and a
//! cursor (`pos`), both absolute bit positions. Its public surface reports
//! logical positions relative to the window origin. Successful reads
//! advance the cursor by the bits consumed; failed reads leave it in place,
//! with one documented exception: a string read that fails UTF-8 validation
//! advances past the consumed region, so a caller that ignores the decode
//! error stays correctly positioned.
//!
//! [`BitStream::read_bits`] and [`Clone`] fork new streams sharing the same
//! byte source with fully independent cursors; no bytes are copied.

use vstd::prelude::*;

use crate::bits::{bit_at, bits_value, bytes_at};
use crate::buffer::{string_consumed, string_outcome, BitBuffer, BufferView};
use crate::endianness::Padding;
use crate::error::ReadError;
use crate::read::{BitInteger, Read, ReadSize};

verus! {

/// The abstract state of a [`BitStream`]: the buffer it reads, its window
/// origin and its cursor, both as absolute bit positions.
pub ghost struct StreamView {
    pub buffer: BufferView,
    pub start_pos: nat,
    pub pos: nat,
}

impl StreamView {
    /// Well-formedness: the buffer is well-formed, the window origin lies
    /// within it, and the cursor is at or after the origin. The cursor may
    /// point past the end of the buffer: skips are not bounds-checked, and
    /// only a later read turns that into an error.
    pub open spec fn wf(self) -> bool {
        &&& self.buffer.wf()
        &&& self.start_pos <= self.buffer.bit_len
        &&& self.start_pos <= self.pos
        &&& self.pos <= usize::MAX
    }

    /// The stream's logical length: the bits from the window origin to the
    /// end of the buffer.
    pub open spec fn logical_len(self) -> nat {
        (self.buffer.bit_len - self.start_pos) as nat
    }

    /// The cursor relative to the window origin.
    pub open spec fn logical_pos(self) -> nat {
        (self.pos - self.start_pos) as nat
    }

    /// The bits left to read: zero once the cursor is at or past the end.
    pub open spec fn remaining(self) -> nat {
        self.buffer.avail(self.pos as int)
    }

    /// Whether `count` more bits fit between the cursor and the end.
    pub open spec fn can_read(self, count: nat) -> bool {
        self.pos + count <= self.buffer.bit_len
    }

    /// The same stream with the cursor moved forward by `count` bits. Every
    /// read that consumes `count` bits leaves the stream in exactly this
    /// state, so forking, skipping and reading commute in the way the
    /// contracts spell out.
    pub open spec fn advanced(self, count: nat) -> StreamView {
        StreamView { pos: self.pos + count, ..self }
    }
}

/// A cursor over a [`BitBuffer`], advancing on successful reads and
/// supporting zero-copy forking into independent sub-streams.
#[derive(Debug)]
pub struct BitStream {
    buffer: BitBuffer,
    start_pos: usize,
    pos: usize,
}

impl View for BitStream {
    type V = StreamView;

    closed spec fn view(&self) -> StreamView {
        StreamView {
            buffer: self.buffer@,
            start_pos: self.start_pos as nat,
            pos: self.pos as nat,
        }
    }
}

impl BitStream {
    /// Well-formedness of the stream's view.
    pub open spec fn inv(&self) -> bool {
        self@.wf()
    }

    /// A stream over the whole of `buffer`, with the cursor at the start.
    pub fn new(buffer: BitBuffer) -> (r: BitStream)
        requires
            buffer.inv(),
        ensures
            r.inv(),
            r@.buffer == buffer@,
            r@.start_pos == 0,
            r@.pos == 0,
    {
        BitStream { buffer, start_pos: 0, pos: 0 }
    }

    /// Read a single bit as a boolean and advance by one bit.
    ///
    /// Fails with [`ReadError::NotEnoughData`] at the end of the stream,
    /// leaving the cursor unchanged.
    pub fn read_bool(&mut self) -> (r: Result<bool, ReadError>)
        requires
            old(self).inv(),
        ensures
            final(self).inv(),
            old(self)@.can_read(1) ==> (r matches Ok(b) && b == bit_at(
                old(self)@.buffer.bytes,
                old(self)@.buffer.endianness,
                old(self)@.pos as int,
            ) && final(self)@ == old(self)@.advanced(1)),
            !old(self)@.can_read(1) ==> (r matches Err(e) && e == (ReadError::NotEnoughData {
                requested: 1,
                available: old(self)@.remaining() as usize,
            }) && final(self)@ == old(self)@),
    {
        match self.buffer.read_bool(self.pos) {
            Ok(b) => {
                self.pos = self.pos + 1;
                Ok(b)
            },
            Err(e) => Err(e),
        }
    }

    /// Read `count` bits as an integer of type `T` and advance by `count`.
    ///
    /// Fails with [`ReadError::TooManyBits`] when `count` exceeds `T`'s bit
    /// capacity and with [`ReadError::NotEnoughData`] when fewer than
    /// `count` bits are left; either failure leaves the cursor unchanged.
    /// Exactly otherwise the result is the `count`-bit value at the cursor,
    /// decoded per the buffer's endianness and interpreted in `T`, and the
    /// cursor ends up `count` bits further.
    pub fn read_int<T: BitInteger>(&mut self, count: usize) -> (r: Result<T, ReadError>)
        requires
            old(self).inv(),
        ensures
            final(self).inv(),
            count > T::width_spec() ==> (r matches Err(e) && e == (ReadError::TooManyBits {
                requested: count,
                max: T::width_spec() as usize,
            }) && final(self)@ == old(self)@),
            count <= T::width_spec() && !old(self)@.can_read(count as nat) ==> (r matches Err(e)
                && e == (ReadError::NotEnoughData {
                requested: count,
                available: old(self)@.remaining() as usize,
            }) && final(self)@ == old(self)@),
            count <= T::width_spec() && old(self)@.can_read(count as nat) ==> (r matches Ok(v)
                && v.is_bits(
                bits_value(
                    old(self)@.buffer.bytes,
                    old(self)@.buffer.endianness,
                    old(self)@.pos as int,
                    count as nat,
                ),
                count as nat,
            ) && final(self)@ == old(self)@.advanced(count as nat)),
    {
        match self.buffer.read_int::<T>(self.pos, count) {
            Ok(v) => {
                self.pos = self.pos + count;
                Ok(v)
            },
            Err(e) => Err(e),
        }
    }

    /// The unchecked twin of [`BitStream::read_int`]: the caller proves the
    /// width and bounds conditions instead of having them tested at run
    /// time, and no error path exists.
    pub fn read_int_unchecked<T: BitInteger>(&mut self, count: usize) -> (r: T)
        requires
            old(self).inv(),
            count <= T::width_spec(),
            old(self)@.can_read(count as nat),
        ensures
            final(self).inv(),
            r.is_bits(
                bits_value(
                    old(self)@.buffer.bytes,
                    old(self)@.buffer.endianness,
                    old(self)@.pos as int,
                    count as nat,
                ),
                count as nat,
            ),
            final(self)@ == old(self)@.advanced(count as nat),
    {
        let v = self.buffer.read_int_unchecked::<T>(self.pos, count);
        self.pos = self.pos + count;
        v
    }

    /// Read `byte_count` bytes, assembling each from 8 consecutive bits, and
    /// advance by `byte_count * 8` bits.
    ///
    /// Fails with [`ReadError::NotEnoughData`] when fewer bits are left,
    /// leaving the cursor unchanged. The bound on `byte_count` only keeps
    /// the requested bit count within the machine word.
    pub fn read_bytes(&mut self, byte_count: usize) -> (r: Result<Vec<u8>, ReadError>)
        requires
            old(self).inv(),
            byte_count * 8 <= usize::MAX,
        ensures
            final(self).inv(),
            old(self)@.can_read((byte_count * 8) as nat) ==> (r matches Ok(v) && v@ == bytes_at(
                old(self)@.buffer.bytes,
                old(self)@.buffer.endianness,
                old(self)@.pos as int,
                byte_count as nat,
            ) && final(self)@ == old(self)@.advanced((byte_count * 8) as nat)),
            !old(self)@.can_read((byte_count * 8) as nat) ==> (r matches Err(e) && e
                == (ReadError::NotEnoughData {
                requested: (byte_count * 8) as usize,
                available: old(self)@.remaining() as usize,
            }) && final(self)@ == old(self)@),
    {
        match self.buffer.read_bytes(self.pos, byte_count) {
            Ok(v) => {
                self.pos = self.pos + byte_count * 8;
                Ok(v)
            },
            Err(e) => Err(e),
        }
    }

    /// The unchecked twin of [`BitStream::read_bytes`]: the caller proves
    /// the bounds instead of having them tested at run time.
    pub fn read_bytes_unchecked(&mut self, byte_count: usize) -> (r: Vec<u8>)
        requires
            old(self).inv(),
            old(self)@.can_read((byte_count * 8) as nat),
        ensures
            final(self).inv(),
            r@ == bytes_at(
                old(self)@.buffer.bytes,
                old(self)@.buffer.endianness,
                old(self)@.pos as int,
                byte_count as nat,
            ),
            final(self)@ == old(self)@.advanced((byte_count * 8) as nat),
    {
        let v = self.buffer.read_bytes_unchecked(self.pos, byte_count);
        self.pos = self.pos + byte_count * 8;
        v
    }

    /// Read a UTF-8 string and advance by the consumed bits.
    ///
    /// With `byte_len` given, exactly that many bytes are read and trailing
    /// zero bytes are trimmed before validation; without it, whole bytes are
    /// scanned for a zero terminator, which the returned text excludes. The
    /// cursor advances by [`string_consumed`] bits for every outcome — in
    /// particular it advances past the consumed region even when the read
    /// fails with [`ReadError::Utf8Error`], and stays in place when it fails
    /// with [`ReadError::NotEnoughData`]. [`string_outcome`] states the full
    /// contract.
    pub fn read_string(&mut self, byte_len: Option<usize>) -> (r: Result<String, ReadError>)
        requires
            old(self).inv(),
            byte_len matches Some(l) ==> l * 8 <= usize::MAX,
        ensures
            final(self).inv(),
            string_outcome(
                old(self)@.buffer,
                old(self)@.pos as int,
                byte_len,
                string_consumed(old(self)@.buffer, old(self)@.pos as int, byte_len),
                r,
            ),
            final(self)@ == old(self)@.advanced(
                string_consumed(old(self)@.buffer, old(self)@.pos as int, byte_len),
            ),
    {
        let (consumed, result) = self.buffer.read_string_at(self.pos, byte_len);
        self.pos = self.pos + consumed;
        result
    }

    /// Fork the next `count` bits as an independent sub-stream and advance
    /// this stream past them.
    ///
    /// The sub-stream shares the byte source without copying; it is
    /// windowed at the current cursor, its own position starts at zero and
    /// its length is exactly `count`. This stream's cursor advances by
    /// `count` however much of the sub-stream is later consumed, so its
    /// subsequent reads see exactly what they would have seen had the bits
    /// been read and discarded here. Fails with
    /// [`ReadError::NotEnoughData`] when fewer than `count` bits are left,
    /// leaving the cursor unchanged.
    pub fn read_bits(&mut self, count: usize) -> (r: Result<BitStream, ReadError>)
        requires
            old(self).inv(),
            old(self)@.pos + count <= usize::MAX,
        ensures
            final(self).inv(),
            old(self)@.can_read(count as nat) ==> (r matches Ok(sub) && sub.inv()
                && sub@.buffer == (BufferView {
                padding: Padding::Unpadded,
                bit_len: (old(self)@.pos + count) as nat,
                ..old(self)@.buffer
            }) && sub@.start_pos == old(self)@.pos && sub@.pos == old(self)@.pos && final(self)@ == old(
                self,
            )@.advanced(count as nat)),
            !old(self)@.can_read(count as nat) ==> (r matches Err(e) && e
                == (ReadError::NotEnoughData {
                requested: (old(self)@.pos + count) as usize,
                available: old(self)@.buffer.bit_len as usize,
            }) && final(self)@ == old(self)@),
    {
        match self.buffer.get_sub_buffer(self.pos + count) {
            Ok(buffer) => {
                let result = BitStream { buffer, start_pos: self.pos, pos: self.pos };
                self.pos = self.pos + count;
                Ok(result)
            },
            Err(e) => Err(e),
        }
    }

    /// Advance the cursor by `count` bits without any bounds check: a skip
    /// past the end only becomes an error when a later read tries to use
    /// the skipped-to position. Always succeeds; the bound on the new
    /// position only keeps it within the machine word.
    pub fn skip_bits(&mut self, count: usize) -> (r: Result<(), ReadError>)
        requires
            old(self).inv(),
            old(self)@.pos + count <= usize::MAX,
        ensures
            final(self).inv(),
            r is Ok,
            final(self)@ == old(self)@.advanced(count as nat),
    {
        self.pos = self.pos + count;
        Ok(())
    }

    /// Set the cursor to the logical position `pos`.
    ///
    /// Fails with [`ReadError::IndexOutOfBounds`] when `pos` exceeds the
    /// stream's logical length, leaving the cursor unchanged; a target
    /// exactly at the end is allowed and leaves nothing to read.
    pub fn set_pos(&mut self, pos: usize) -> (r: Result<(), ReadError>)
        requires
            old(self).inv(),
        ensures
            final(self).inv(),
            pos <= old(self)@.logical_len() ==> (r is Ok && final(self)@ == (StreamView {
                pos: (old(self)@.start_pos + pos) as nat,
                ..old(self)@
            })),
            pos > old(self)@.logical_len() ==> (r matches Err(e) && e
                == (ReadError::IndexOutOfBounds {
                pos: pos,
                size: old(self)@.logical_len() as usize,
            }) && final(self)@ == old(self)@),
    {
        let len = self.bit_len();
        if pos > len {
            return Err(ReadError::IndexOutOfBounds { pos, size: len });
        }
        self.pos = self.start_pos + pos;
        Ok(())
    }

    /// The stream's logical length in bits.
    pub fn bit_len(&self) -> (r: usize)
        requires
            self.inv(),
        ensures
            r == self@.logical_len(),
    {
        self.buffer.bit_len() - self.start_pos
    }

    /// The cursor's logical position.
    pub fn pos(&self) -> (r: usize)
        requires
            self.inv(),
        ensures
            r == self@.logical_pos(),
    {
        self.pos - self.start_pos
    }

    /// Read a value of the type the caller asks for, through its [`Read`]
    /// impl: integers at their full width, `bool` as one bit, `String` as a
    /// null-terminated string.
    pub fn read<T: Read>(&mut self) -> (r: Result<T, ReadError>)
        requires
            old(self).inv(),
        ensures
            final(self).inv(),
            final(self)@.buffer == old(self)@.buffer,
            final(self)@.start_pos == old(self)@.start_pos,
            r matches Ok(x) ==> T::read_ok(old(self)@) && T::value_is(old(self)@, x)
                && final(self)@ == old(self)@.advanced(T::bits_consumed(old(self)@)),
            r is Err ==> !T::read_ok(old(self)@) && final(self)@ == old(self)@.advanced(
                T::bits_on_error(old(self)@),
            ),
    {
        T::read(self)
    }

    /// Read a value of the type the caller asks for with an explicit size,
    /// through its [`ReadSize`] impl: integers take the size as a width in
    /// bits, `String` as a fixed length in bytes.
    pub fn read_sized<T: ReadSize>(&mut self, size: usize) -> (r: Result<T, ReadError>)
        requires
            old(self).inv(),
            T::read_req(old(self)@, size),
        ensures
            final(self).inv(),
            final(self)@.buffer == old(self)@.buffer,
            final(self)@.start_pos == old(self)@.start_pos,
            r matches Ok(x) ==> T::read_ok(old(self)@, size) && T::value_is(old(self)@, size, x)
                && final(self)@ == old(self)@.advanced(T::bits_consumed(old(self)@, size)),
            r is Err ==> !T::read_ok(old(self)@, size) && final(self)@ == old(self)@.advanced(
                T::bits_on_error(old(self)@, size),
            ),
    {
        T::read(self, size)
    }

    /// The bits left between the cursor and the end of the stream; zero
    /// once the cursor has been skipped past the end.
    pub fn bits_left(&self) -> (r: usize)
        requires
            self.inv(),
        ensures
            r == self@.remaining(),
    {
        let len = self.buffer.bit_len();
        if self.pos <= len {
            len - self.pos
        } else {
            0
        }
    }
}

impl Clone for BitStream {
    /// Fork the unread remainder as a fresh stream: the clone is windowed
    /// at this stream's cursor, so its own position starts at zero and its
    /// length is whatever was left to read; this stream is unaffected, and
    /// the byte source is shared, not copied.
    fn clone(&self) -> (r: Self)
        ensures
            r@.buffer == self@.buffer,
            r@.start_pos == self@.pos,
            r@.pos == self@.pos,
            self.inv() && self@.can_read(0) ==> r.inv() && r@.logical_pos() == 0
                && r@.logical_len() == self@.remaining(),
    {
        BitStream { buffer: self.buffer.clone(), start_pos: self.pos, pos: self.pos }
    }
}

} // verus!
