//! A bounds-checked, endian-aware reader over a borrowed byte buffer.
//!
//! Sequential reads consume bytes at the stream's position and advance it;
//! absolute accessors take an offset and leave the position alone. Every
//! access is checked against the buffer's length and fails with an
//! out-of-bounds error that reports how many bytes were asked for and how
//! many were there.

use vstd::prelude::*;
use crate::error::{Error, IoError};
use crate::io::endian::ByteOrder;

verus! {

/// A font data stream: a byte buffer borrowed from the caller, a read
/// position within it, and the byte order of multi-byte reads.
///
/// The position never exceeds the buffer's length.
#[derive(Debug)]
pub struct FontDataStream<'a> {
    /// The bytes of the font data.
    data: &'a [u8],
    /// The current read position.
    position: usize,
    /// The byte order of multi-byte reads.
    endianness: ByteOrder,
}

/// What a stream is, mathematically: the bytes it reads from, how far it
/// has read, and the order in which it assembles multi-byte values.
pub struct StreamView {
    pub data: Seq<u8>,
    pub position: nat,
    pub order: ByteOrder,
}

impl StreamView {
    /// The position lies within the buffer or at its end.
    pub open spec fn well_formed(self) -> bool {
        self.position <= self.data.len()
    }

    /// The number of bytes from the position to the end of the buffer.
    pub open spec fn remaining(self) -> nat {
        bytes_from(self.data, self.position)
    }

    /// The `n` bytes that start at the position.
    pub open spec fn window(self, n: nat) -> Seq<u8>
        recommends
            n <= self.remaining(),
    {
        self.data.subrange(self.position as int, (self.position + n) as int)
    }

    /// The same stream, `n` bytes further on.
    pub open spec fn advanced(self, n: nat) -> StreamView {
        StreamView { position: self.position + n, ..self }
    }

    /// The same stream with its position set to `position`, or to the end
    /// of the buffer if `position` lies beyond it.
    pub open spec fn sought(self, position: nat) -> StreamView {
        StreamView {
            position: if position <= self.data.len() {
                position
            } else {
                self.data.len()
            },
            ..self
        }
    }
}

/// The number of bytes of `data` from `offset` to its end: none if
/// `offset` lies at or beyond the end.
pub open spec fn bytes_from(data: Seq<u8>, offset: nat) -> nat {
    if offset < data.len() {
        (data.len() - offset) as nat
    } else {
        0
    }
}

/// The `length` bytes of `data` that start at `offset`, or the error that
/// reports how many bytes were asked for and how many `data` holds from
/// `offset` on.
pub open spec fn region(data: Seq<u8>, offset: nat, length: nat) -> Result<Seq<u8>, Error> {
    if offset + length <= data.len() {
        Ok(data.subrange(offset as int, (offset + length) as int))
    } else {
        Err(out_of_bounds(length, bytes_from(data, offset)))
    }
}

/// The bytes of `data` from `start` up to `end`: an invalid-offset error
/// if the start lies beyond the end, otherwise the region of `end - start`
/// bytes at `start`.
pub open spec fn span(data: Seq<u8>, start: nat, end: nat) -> Result<Seq<u8>, Error> {
    if start > end {
        Err(Error::Io(IoError::InvalidOffset { offset: start as usize }))
    } else {
        region(data, start, (end - start) as nat)
    }
}

/// How many bytes a read of at most `max` bytes takes from `stream`.
pub open spec fn chunk_len(stream: StreamView, max: nat) -> nat {
    if max < stream.remaining() {
        max
    } else {
        stream.remaining()
    }
}

/// A place in a stream, named from one of three origins.
#[derive(Debug, Clone, Copy, PartialEq, Eq)]
pub enum SeekTarget {
    /// So many bytes from the start of the buffer.
    Start(u64),
    /// So many bytes from the end of the buffer, backwards if negative.
    End(i64),
    /// So many bytes from the current position, backwards if negative.
    Current(i64),
}

/// Why a seek was refused.
#[derive(Debug, Clone, Copy, PartialEq, Eq)]
pub enum SeekFault {
    /// The offset from the start is more than a signed 64-bit number holds.
    OffsetOutOfRange,
    /// The place lies before the start of the buffer.
    BeforeStart,
}

/// The place that `target` names in `stream`, before it is clamped to the
/// end of the buffer, or the reason why there is none.
pub open spec fn seek_place(stream: StreamView, target: SeekTarget) -> Result<int, SeekFault> {
    let place: int = match target {
        SeekTarget::Start(offset) => offset as int,
        SeekTarget::End(offset) => stream.data.len() + offset,
        SeekTarget::Current(offset) => stream.position + offset,
    };
    if target is Start && place > i64::MAX {
        Err(SeekFault::OffsetOutOfRange)
    } else if place < 0 {
        Err(SeekFault::BeforeStart)
    } else {
        Ok(place)
    }
}

/// The error of a read that asked for `requested` bytes where `available`
/// were left.
pub open spec fn out_of_bounds(requested: nat, available: nat) -> Error {
    Error::Io(
        IoError::OutOfBounds { requested: requested as usize, available: available as usize },
    )
}

impl<'a> View for FontDataStream<'a> {
    type V = StreamView;

    closed spec fn view(&self) -> StreamView {
        StreamView {
            data: self.data@,
            position: self.position as nat,
            order: self.endianness,
        }
    }
}

impl<'a> FontDataStream<'a> {
    #[verifier::type_invariant]
    spec fn position_in_bounds(self) -> bool {
        self.position <= self.data@.len()
    }

    /// Creates a stream over `data`, positioned at its start.
    ///
    /// The byte order is big endian, the native order of font files; see
    /// `with_endianness` to change it.
    pub fn new(data: &'a [u8]) -> (stream: Self)
        ensures
            stream@ == (StreamView { data: data@, position: 0, order: ByteOrder::BigEndian }),
    {
        FontDataStream { data, position: 0, endianness: ByteOrder::BigEndian }
    }

    /// Sets the byte order of the stream.
    pub fn with_endianness(self, endianness: ByteOrder) -> (stream: Self)
        ensures
            stream@ == (StreamView { order: endianness, ..self@ }),
    {
        proof {
            use_type_invariant(&self);
        }
        FontDataStream { data: self.data, position: self.position, endianness }
    }

    /// Reads a single byte and advances the position by 1.
    pub fn read_u8(&mut self) -> (res: Result<u8, Error>)
        ensures
            (match res {
                Ok(value) => {
                    &&& old(self)@.remaining() >= 1
                    &&& value == old(self)@.data[old(self)@.position as int]
                    &&& final(self)@ == old(self)@.advanced(1)
                },
                Err(e) => {
                    &&& old(self)@.remaining() < 1
                    &&& e == out_of_bounds(1, old(self)@.remaining())
                    &&& final(self)@ == old(self)@
                },
            }),
    {
        proof {
            use_type_invariant(&*self);
        }
        let available: usize = self.data.len() - self.position;
        if available >= 1 {
            let value: u8 = self.data[self.position];
            self.position += 1;
            Ok(value)
        } else {
            Err(Error::Io(IoError::OutOfBounds { requested: 1, available }))
        }
    }

    /// Reads a 16-bit unsigned integer in the stream's byte order and
    /// advances the position by 2.
    pub fn read_u16(&mut self) -> (res: Result<u16, Error>)
        ensures
            (match res {
                Ok(value) => {
                    &&& old(self)@.remaining() >= 2
                    &&& value == old(self)@.order.u16_of(old(self)@.window(2))
                    &&& final(self)@ == old(self)@.advanced(2)
                },
                Err(e) => {
                    &&& old(self)@.remaining() < 2
                    &&& e == out_of_bounds(2, old(self)@.remaining())
                    &&& final(self)@ == old(self)@
                },
            }),
    {
        proof {
            use_type_invariant(&*self);
        }
        let available: usize = self.data.len() - self.position;
        if available >= 2 {
            let p: usize = self.position;
            let value: u16 = self.endianness.u16_from([self.data[p], self.data[p + 1]]);
            self.position += 2;
            Ok(value)
        } else {
            Err(Error::Io(IoError::OutOfBounds { requested: 2, available }))
        }
    }

    /// Reads a 32-bit unsigned integer in the stream's byte order and
    /// advances the position by 4.
    pub fn read_u32(&mut self) -> (res: Result<u32, Error>)
        ensures
            (match res {
                Ok(value) => {
                    &&& old(self)@.remaining() >= 4
                    &&& value == old(self)@.order.u32_of(old(self)@.window(4))
                    &&& final(self)@ == old(self)@.advanced(4)
                },
                Err(e) => {
                    &&& old(self)@.remaining() < 4
                    &&& e == out_of_bounds(4, old(self)@.remaining())
                    &&& final(self)@ == old(self)@
                },
            }),
    {
        proof {
            use_type_invariant(&*self);
        }
        let available: usize = self.data.len() - self.position;
        if available >= 4 {
            let p: usize = self.position;
            let value: u32 = self.endianness.u32_from(
                [self.data[p], self.data[p + 1], self.data[p + 2], self.data[p + 3]],
            );
            self.position += 4;
            Ok(value)
        } else {
            Err(Error::Io(IoError::OutOfBounds { requested: 4, available }))
        }
    }

    /// Reads a signed 8-bit integer and advances the position by 1.
    pub fn read_i8(&mut self) -> (res: Result<i8, Error>)
        ensures
            (match res {
                Ok(value) => {
                    &&& old(self)@.remaining() >= 1
                    &&& value == signed_8(old(self)@.data[old(self)@.position as int])
                    &&& final(self)@ == old(self)@.advanced(1)
                },
                Err(e) => {
                    &&& old(self)@.remaining() < 1
                    &&& e == out_of_bounds(1, old(self)@.remaining())
                    &&& final(self)@ == old(self)@
                },
            }),
    {
        match self.read_u8() {
            Ok(v) => {
                assert(v as i8 == signed_8(v)) by (bit_vector);
                Ok(
                    #[verifier::truncate]
                    (v as i8),
                )
            },
            Err(e) => Err(e),
        }
    }

    /// Reads a signed 16-bit integer and advances the position by 2.
    pub fn read_i16(&mut self) -> (res: Result<i16, Error>)
        ensures
            (match res {
                Ok(value) => {
                    &&& old(self)@.remaining() >= 2
                    &&& value == signed_16(old(self)@.order.u16_of(old(self)@.window(2)))
                    &&& final(self)@ == old(self)@.advanced(2)
                },
                Err(e) => {
                    &&& old(self)@.remaining() < 2
                    &&& e == out_of_bounds(2, old(self)@.remaining())
                    &&& final(self)@ == old(self)@
                },
            }),
    {
        match self.read_u16() {
            Ok(v) => {
                assert(v as i16 == signed_16(v)) by (bit_vector);
                Ok(
                    #[verifier::truncate]
                    (v as i16),
                )
            },
            Err(e) => Err(e),
        }
    }

    /// Reads a signed 32-bit integer and advances the position by 4.
    pub fn read_i32(&mut self) -> (res: Result<i32, Error>)
        ensures
            (match res {
                Ok(value) => {
                    &&& old(self)@.remaining() >= 4
                    &&& value == signed_32(old(self)@.order.u32_of(old(self)@.window(4)))
                    &&& final(self)@ == old(self)@.advanced(4)
                },
                Err(e) => {
                    &&& old(self)@.remaining() < 4
                    &&& e == out_of_bounds(4, old(self)@.remaining())
                    &&& final(self)@ == old(self)@
                },
            }),
    {
        match self.read_u32() {
            Ok(v) => {
                assert(v as i32 == signed_32(v)) by (bit_vector);
                Ok(
                    #[verifier::truncate]
                    (v as i32),
                )
            },
            Err(e) => Err(e),
        }
    }

    /// Skips `bytes` bytes, stopping at the end of the buffer.
    pub fn skip(&mut self, bytes: usize)
        ensures
            final(self)@ == old(self)@.sought(old(self)@.position + bytes as nat),
            old(self)@.well_formed(),
    {
        proof {
            use_type_invariant(&*self);
        }
        let available: usize = self.data.len() - self.position;
        if bytes >= available {
            self.position = self.data.len();
        } else {
            self.position += bytes;
        }
    }

    /// Resets the position to the start of the buffer.
    pub fn reset(&mut self)
        ensures
            final(self)@ == old(self)@.sought(0),
    {
        self.position = 0;
    }

    /// Returns the current position.
    pub fn position(&self) -> (position: usize)
        ensures
            position == self@.position,
            self@.well_formed(),
    {
        proof {
            use_type_invariant(self);
        }
        self.position
    }

    /// Returns the current position.
    pub fn tell(&self) -> (position: usize)
        ensures
            position == self@.position,
            self@.well_formed(),
    {
        proof {
            use_type_invariant(self);
        }
        self.position
    }

    /// Returns whether the position has reached the end of the buffer.
    pub fn is_eof(&self) -> (eof: bool)
        ensures
            eof <==> self@.remaining() == 0,
    {
        self.position >= self.data.len()
    }

    /// Returns the bytes from the position to the end of the buffer.
    pub fn remaining_bytes(&self) -> (bytes: &[u8])
        ensures
            bytes@ == self@.window(self@.remaining()),
            self@.well_formed(),
    {
        proof {
            use_type_invariant(self);
        }
        &self.data[self.position..self.data.len()]
    }

    /// Returns the total length of the buffer.
    pub fn len(&self) -> (len: usize)
        ensures
            len == self@.data.len(),
    {
        self.data.len()
    }

    /// Returns whether the buffer holds no bytes at all.
    pub fn is_empty(&self) -> (empty: bool)
        ensures
            empty <==> self@.data.len() == 0,
    {
        self.data.len() == 0
    }

    /// Sets the position to `position`.
    ///
    /// A position beyond the end of the buffer is no error: the stream is
    /// then positioned at the end.
    pub fn seek(&mut self, position: usize)
        ensures
            final(self)@ == old(self)@.sought(position as nat),
    {
        if position <= self.data.len() {
            self.position = position;
        } else {
            self.position = self.data.len();
        }
    }

    /// Reads `length` bytes and advances the position past them.
    pub fn read_bytes(&mut self, length: usize) -> (res: Result<&'a [u8], Error>)
        ensures
            (match res {
                Ok(bytes) => {
                    &&& old(self)@.remaining() >= length
                    &&& bytes@ == old(self)@.window(length as nat)
                    &&& final(self)@ == old(self)@.advanced(length as nat)
                },
                Err(e) => {
                    &&& old(self)@.remaining() < length
                    &&& e == out_of_bounds(length as nat, old(self)@.remaining())
                    &&& final(self)@ == old(self)@
                },
            }),
    {
        proof {
            use_type_invariant(&*self);
        }
        let available: usize = self.data.len() - self.position;
        if available >= length {
            let data: &'a [u8] = self.data;
            let bytes: &'a [u8] = &data[self.position..self.position + length];
            self.position += length;
            Ok(bytes)
        } else {
            Err(Error::Io(IoError::OutOfBounds { requested: length, available }))
        }
    }

    /// Returns the byte at the position without advancing.
    pub fn peek_u8(&self) -> (res: Result<u8, Error>)
        ensures
            (match res {
                Ok(value) => self@.remaining() >= 1 && value == self@.data[self@.position as int],
                Err(e) => self@.remaining() < 1 && e == out_of_bounds(1, self@.remaining()),
            }),
    {
        proof {
            use_type_invariant(self);
        }
        let available: usize = self.data.len() - self.position;
        if available >= 1 {
            Ok(self.data[self.position])
        } else {
            Err(Error::Io(IoError::OutOfBounds { requested: 1, available }))
        }
    }

    /// Returns the `length` bytes at the position without advancing.
    pub fn peek_bytes(&self, length: usize) -> (res: Result<&'a [u8], Error>)
        ensures
            (match res {
                Ok(bytes) => self@.remaining() >= length && bytes@ == self@.window(length as nat),
                Err(e) => self@.remaining() < length && e == out_of_bounds(
                    length as nat,
                    self@.remaining(),
                ),
            }),
    {
        proof {
            use_type_invariant(self);
        }
        let available: usize = self.data.len() - self.position;
        if available >= length {
            let data: &'a [u8] = self.data;
            Ok(&data[self.position..self.position + length])
        } else {
            Err(Error::Io(IoError::OutOfBounds { requested: length, available }))
        }
    }

    /// Reads the byte at the absolute offset `offset`; the position plays
    /// no part.
    pub fn read_at_u8(&self, offset: usize) -> (res: Result<u8, Error>)
        ensures
            (match res {
                Ok(value) => offset < self@.data.len() && value == self@.data[offset as int],
                Err(e) => offset >= self@.data.len() && e == out_of_bounds(1, 0),
            }),
    {
        let len: usize = self.data.len();
        if offset < len {
            Ok(self.data[offset])
        } else {
            Err(Error::Io(IoError::OutOfBounds { requested: 1, available: 0 }))
        }
    }

    /// Reads a 16-bit unsigned integer at the absolute offset `offset`, in
    /// the stream's byte order; the position plays no part.
    pub fn read_at_u16(&self, offset: usize) -> (res: Result<u16, Error>)
        ensures
            (match res {
                Ok(value) => {
                    &&& offset + 2 <= self@.data.len()
                    &&& value == self@.order.u16_of(
                        self@.data.subrange(offset as int, offset + 2),
                    )
                },
                Err(e) => {
                    &&& offset + 2 > self@.data.len()
                    &&& e == out_of_bounds(2, bytes_from(self@.data, offset as nat))
                },
            }),
    {
        let len: usize = self.data.len();
        let available: usize = if offset < len {
            len - offset
        } else {
            0
        };
        if available >= 2 {
            Ok(self.endianness.u16_from([self.data[offset], self.data[offset + 1]]))
        } else {
            Err(Error::Io(IoError::OutOfBounds { requested: 2, available }))
        }
    }

    /// Reads a 32-bit unsigned integer at the absolute offset `offset`, in
    /// the stream's byte order; the position plays no part.
    pub fn read_at_u32(&self, offset: usize) -> (res: Result<u32, Error>)
        ensures
            (match res {
                Ok(value) => {
                    &&& offset + 4 <= self@.data.len()
                    &&& value == self@.order.u32_of(
                        self@.data.subrange(offset as int, offset + 4),
                    )
                },
                Err(e) => {
                    &&& offset + 4 > self@.data.len()
                    &&& e == out_of_bounds(4, bytes_from(self@.data, offset as nat))
                },
            }),
    {
        let len: usize = self.data.len();
        let available: usize = if offset < len {
            len - offset
        } else {
            0
        };
        if available >= 4 {
            Ok(
                self.endianness.u32_from(
                    [
                        self.data[offset],
                        self.data[offset + 1],
                        self.data[offset + 2],
                        self.data[offset + 3],
                    ],
                ),
            )
        } else {
            Err(Error::Io(IoError::OutOfBounds { requested: 4, available }))
        }
    }

    /// Returns the `length` bytes at the absolute offset `offset`, without
    /// copying them; the position plays no part.
    pub fn slice_at(&self, offset: usize, length: usize) -> (res: Result<&'a [u8], Error>)
        ensures
            (match res {
                Ok(bytes) => region(self@.data, offset as nat, length as nat) == Ok::<
                    Seq<u8>,
                    Error,
                >(bytes@),
                Err(e) => region(self@.data, offset as nat, length as nat) == Err::<
                    Seq<u8>,
                    Error,
                >(e),
            }),
    {
        let len: usize = self.data.len();
        let available: usize = if offset < len {
            len - offset
        } else {
            0
        };
        if length <= available && offset <= len {
            let data: &'a [u8] = self.data;
            Ok(&data[offset..offset + length])
        } else {
            Err(Error::Io(IoError::OutOfBounds { requested: length, available }))
        }
    }

    /// Returns the bytes of the range `range.start..range.end` (end
    /// exclusive), without copying them; the position plays no part.
    ///
    /// A range whose start lies beyond its end is an invalid-offset error
    /// that carries the start. A range that runs past the end of the buffer
    /// is an out-of-bounds error. An empty range within the buffer gives an
    /// empty slice.
    pub fn slice_range(&self, range: core::ops::Range<usize>) -> (res: Result<&'a [u8], Error>)
        ensures
            (match res {
                Ok(bytes) => span(self@.data, range.start as nat, range.end as nat) == Ok::<
                    Seq<u8>,
                    Error,
                >(bytes@),
                Err(e) => span(self@.data, range.start as nat, range.end as nat) == Err::<
                    Seq<u8>,
                    Error,
                >(e),
            }),
    {
        let len: usize = self.data.len();
        let start: usize = range.start;
        let end: usize = range.end;

        if start > end {
            return Err(Error::Io(IoError::InvalidOffset { offset: start }));
        }
        if end <= len {
            let data: &'a [u8] = self.data;
            return Ok(&data[start..end]);
        }
        let available: usize = if start < len {
            len - start
        } else {
            0
        };
        let requested: usize = end - start;
        Err(Error::Io(IoError::OutOfBounds { requested, available }))
    }

    /// Reads a four-byte tag and advances the position past it.
    pub fn read_tag(&mut self) -> (res: Result<[u8; 4], Error>)
        ensures
            (match res {
                Ok(tag) => {
                    &&& old(self)@.remaining() >= 4
                    &&& tag@ == old(self)@.window(4)
                    &&& final(self)@ == old(self)@.advanced(4)
                },
                Err(e) => {
                    &&& old(self)@.remaining() < 4
                    &&& e == out_of_bounds(4, old(self)@.remaining())
                    &&& final(self)@ == old(self)@
                },
            }),
    {
        match self.read_bytes(4) {
            Ok(bytes) => {
                let tag: [u8; 4] = [bytes[0], bytes[1], bytes[2], bytes[3]];
                Ok(tag)
            },
            Err(e) => Err(e),
        }
    }

    /// Takes up to `max` bytes at the position, as many as the buffer still
    /// holds, and advances past them.
    pub fn read_chunk(&mut self, max: usize) -> (chunk: &'a [u8])
        ensures
            chunk@ == old(self)@.window(chunk_len(old(self)@, max as nat)),
            final(self)@ == old(self)@.advanced(chunk_len(old(self)@, max as nat)),
            old(self)@.well_formed(),
    {
        proof {
            use_type_invariant(&*self);
        }
        let available: usize = self.data.len() - self.position;
        let count: usize = if max < available {
            max
        } else {
            available
        };
        let data: &'a [u8] = self.data;
        let chunk: &'a [u8] = &data[self.position..self.position + count];
        self.position += count;
        chunk
    }

    /// Moves the position to the place that `target` names and returns the
    /// new position.
    ///
    /// A place beyond the end of the buffer puts the stream at the end. A
    /// place before the start is an error, as is an offset from the start
    /// that no signed 64-bit number can hold; the position then stays where
    /// it was.
    pub fn seek_to(&mut self, target: SeekTarget) -> (res: Result<u64, SeekFault>)
        ensures
            (match res {
                Ok(position) => {
                    &&& seek_place(old(self)@, target) is Ok
                    &&& final(self)@ == old(self)@.sought(
                        seek_place(old(self)@, target)->Ok_0 as nat,
                    )
                    &&& position == final(self)@.position
                },
                Err(fault) => {
                    &&& seek_place(old(self)@, target) == Err::<int, SeekFault>(fault)
                    &&& final(self)@ == old(self)@
                },
            }),
    {
        proof {
            use_type_invariant(&*self);
        }
        let len: usize = self.data.len();
        let place: i128 = match target {
            SeekTarget::Start(offset) => {
                if offset > 0x7FFF_FFFF_FFFF_FFFF {
                    return Err(SeekFault::OffsetOutOfRange);
                }
                offset as i128
            },
            SeekTarget::End(offset) => len as i128 + offset as i128,
            SeekTarget::Current(offset) => self.position as i128 + offset as i128,
        };
        if place < 0 {
            return Err(SeekFault::BeforeStart);
        }
        if place >= len as i128 {
            self.position = len;
        } else {
            self.position = place as usize;
        }
        Ok(self.position as u64)
    }
}

/// The signed 8-bit value with the same bits as `v`.
pub open spec fn signed_8(v: u8) -> i8 {
    if v < 0x80 {
        v as i8
    } else {
        (v as int - 0x100) as i8
    }
}

/// The signed 16-bit value with the same bits as `v`.
pub open spec fn signed_16(v: u16) -> i16 {
    if v < 0x8000 {
        v as i16
    } else {
        (v as int - 0x1_0000) as i16
    }
}

/// The signed 32-bit value with the same bits as `v`.
pub open spec fn signed_32(v: u32) -> i32 {
    if v < 0x8000_0000 {
        v as i32
    } else {
        (v as int - 0x1_0000_0000) as i32
    }
}

/// An empty range that lies within the buffer, its end counted, is no
/// error: it gives the empty slice.
pub proof fn lemma_empty_range_is_empty(data: Seq<u8>, at: usize)
    requires
        at <= data.len(),
    ensures
        span(data, at as nat, at as nat) == Ok::<Seq<u8>, Error>(Seq::<u8>::empty()),
{
    assert(data.subrange(at as int, at as int) =~= Seq::<u8>::empty());
}

/// A range whose start lies beyond its end is an invalid-offset error
/// that carries the start, wherever the range lies: it is never an
/// out-of-bounds error.
pub proof fn lemma_reversed_range_is_invalid(data: Seq<u8>, start: usize, end: usize)
    requires
        start > end,
    ensures
        span(data, start as nat, end as nat) == Err::<Seq<u8>, Error>(
            Error::Io(IoError::InvalidOffset { offset: start }),
        ),
{
}

} // verus!
