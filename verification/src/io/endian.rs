//! Byte order of multi-byte values and their reassembly from raw bytes.

use vstd::prelude::*;

verus! {

/// Order in which the bytes of a multi-byte value are stored.
#[derive(Debug, Clone, Copy, PartialEq, Eq, Hash, Structural)]
pub enum ByteOrder {
    /// Most significant byte first: the native order of font files.
    BigEndian,
    /// Least significant byte first.
    LittleEndian,
}

impl core::default::Default for ByteOrder {
    fn default() -> (order: ByteOrder)
        ensures
            order == ByteOrder::BigEndian,
    {
        ByteOrder::BigEndian
    }
}

/// The 16-bit value whose high byte is `hi` and whose low byte is `lo`.
pub open spec fn pack_u16(hi: u8, lo: u8) -> u16 {
    (hi as int * 0x100 + lo as int) as u16
}

/// The 32-bit value made of four bytes, most significant first.
pub open spec fn pack_u32(b3: u8, b2: u8, b1: u8, b0: u8) -> u32 {
    (b3 as int * 0x100_0000 + b2 as int * 0x1_0000 + b1 as int * 0x100 + b0 as int) as u32
}

impl ByteOrder {
    /// The 16-bit value that the first two bytes of `bytes` hold in this order.
    pub open spec fn u16_of(self, bytes: Seq<u8>) -> u16
        recommends
            bytes.len() >= 2,
    {
        match self {
            ByteOrder::BigEndian => pack_u16(bytes[0], bytes[1]),
            ByteOrder::LittleEndian => pack_u16(bytes[1], bytes[0]),
        }
    }

    /// The 32-bit value that the first four bytes of `bytes` hold in this order.
    pub open spec fn u32_of(self, bytes: Seq<u8>) -> u32
        recommends
            bytes.len() >= 4,
    {
        match self {
            ByteOrder::BigEndian => pack_u32(bytes[0], bytes[1], bytes[2], bytes[3]),
            ByteOrder::LittleEndian => pack_u32(bytes[3], bytes[2], bytes[1], bytes[0]),
        }
    }

    /// The guess that comparing a first byte `a` with a later byte `b` gives:
    /// a smaller first byte suggests little endian, a larger one big endian,
    /// equal bytes nothing.
    pub open spec fn guess_from_pair(a: u8, b: u8) -> Option<ByteOrder> {
        if a < b {
            Some(ByteOrder::LittleEndian)
        } else if a > b {
            Some(ByteOrder::BigEndian)
        } else {
            None
        }
    }

    /// The byte order that a byte-order mark announces, if `bom` is one of
    /// the UTF-16 or UTF-32 marks.
    pub open spec fn order_of_bom(bom: Seq<u8>) -> Option<ByteOrder> {
        if bom =~= seq![0xFEu8, 0xFFu8] {
            Some(ByteOrder::BigEndian)
        } else if bom =~= seq![0xFFu8, 0xFEu8] {
            Some(ByteOrder::LittleEndian)
        } else if bom =~= seq![0xFFu8, 0xFEu8, 0x00u8, 0x00u8] {
            Some(ByteOrder::LittleEndian)
        } else if bom =~= seq![0x00u8, 0x00u8, 0xFEu8, 0xFFu8] {
            Some(ByteOrder::BigEndian)
        } else {
            None
        }
    }

    pub fn is_big(self) -> (b: bool)
        ensures
            b <==> self == ByteOrder::BigEndian,
    {
        matches!(self, ByteOrder::BigEndian)
    }

    pub fn is_little(self) -> (b: bool)
        ensures
            b <==> self == ByteOrder::LittleEndian,
    {
        matches!(self, ByteOrder::LittleEndian)
    }

    /// The byte order for which the two bytes `0x00 0x01`, read as one
    /// 16-bit value in some order, give `probe`: big endian exactly when the
    /// value read is 1.
    pub fn order_reading(probe: u16) -> (order: ByteOrder)
        ensures
            order == (if probe == 1 {
                ByteOrder::BigEndian
            } else {
                ByteOrder::LittleEndian
            }),
    {
        if probe == 1 {
            ByteOrder::BigEndian
        } else {
            ByteOrder::LittleEndian
        }
    }

    /// Detect the native byte order of the machine the program runs on.
    ///
    /// The bytes `0x00 0x01` are read as one 16-bit value in the machine's
    /// own order, and `order_reading` decides from the value read. Which
    /// order a machine has is not known before the program runs on it, so
    /// nothing is promised of the result here.
    pub fn detect_native() -> (order: ByteOrder) {
        let probe: u16 = native_u16([0x00u8, 0x01u8]);
        ByteOrder::order_reading(probe)
    }

    /// Guess the byte order from a 2-byte sample.
    ///
    /// This is a weak heuristic for data that carries no format metadata:
    /// it compares the first two bytes.
    pub fn detect_from_u16_data(data: &[u8]) -> (guess: Option<ByteOrder>)
        ensures
            guess == (if data@.len() < 2 {
                None
            } else {
                ByteOrder::guess_from_pair(data@[0], data@[1])
            }),
    {
        if data.len() < 2 {
            return None;
        }
        let b0: u8 = data[0];
        let b1: u8 = data[1];
        if b0 < b1 {
            Some(ByteOrder::LittleEndian)
        } else if b0 > b1 {
            Some(ByteOrder::BigEndian)
        } else {
            None
        }
    }

    /// Guess the byte order from a 4-byte sample.
    ///
    /// This is a weak heuristic for data that carries no format metadata:
    /// it compares the first byte with the fourth.
    pub fn detect_from_u32_data(data: &[u8]) -> (guess: Option<ByteOrder>)
        ensures
            guess == (if data@.len() < 4 {
                None
            } else {
                ByteOrder::guess_from_pair(data@[0], data@[3])
            }),
    {
        if data.len() < 4 {
            return None;
        }
        let b0: u8 = data[0];
        let b3: u8 = data[3];
        if b0 < b3 {
            Some(ByteOrder::LittleEndian)
        } else if b0 > b3 {
            Some(ByteOrder::BigEndian)
        } else {
            None
        }
    }

    /// Detect the byte order from a byte-order mark.
    ///
    /// A UTF-8 mark says nothing of byte order and gives `None`, as does
    /// anything that is no mark at all.
    pub fn detect_from_bom(bom: &[u8]) -> (order: Option<ByteOrder>)
        ensures
            order == ByteOrder::order_of_bom(bom@),
    {
        if bom.len() == 2 {
            if bom[0] == 0xFE && bom[1] == 0xFF {
                Some(ByteOrder::BigEndian)
            } else if bom[0] == 0xFF && bom[1] == 0xFE {
                Some(ByteOrder::LittleEndian)
            } else {
                None
            }
        } else if bom.len() == 4 {
            if bom[0] == 0xFF && bom[1] == 0xFE && bom[2] == 0x00 && bom[3] == 0x00 {
                Some(ByteOrder::LittleEndian)
            } else if bom[0] == 0x00 && bom[1] == 0x00 && bom[2] == 0xFE && bom[3] == 0xFF {
                Some(ByteOrder::BigEndian)
            } else {
                None
            }
        } else {
            None
        }
    }

    /// Convert a 2-byte array to a `u16` in this byte order.
    #[inline]
    pub fn u16_from(self, b: [u8; 2]) -> (value: u16)
        ensures
            value == self.u16_of(b@),
    {
        match self {
            ByteOrder::BigEndian => (b[0] as u16) * 0x100 + (b[1] as u16),
            ByteOrder::LittleEndian => (b[1] as u16) * 0x100 + (b[0] as u16),
        }
    }

    /// Convert a 4-byte array to a `u32` in this byte order.
    #[inline]
    pub fn u32_from(self, b: [u8; 4]) -> (value: u32)
        ensures
            value == self.u32_of(b@),
    {
        match self {
            ByteOrder::BigEndian => (b[0] as u32) * 0x100_0000 + (b[1] as u32) * 0x1_0000 + (
            b[2] as u32) * 0x100 + (b[3] as u32),
            ByteOrder::LittleEndian => (b[3] as u32) * 0x100_0000 + (b[2] as u32) * 0x1_0000 + (
            b[1] as u32) * 0x100 + (b[0] as u32),
        }
    }

    /// Read a `u16` from the start of `s`, or `None` if `s` holds fewer
    /// than two bytes.
    #[inline]
    pub fn read_u16_from_slice(self, s: &[u8]) -> (value: Option<u16>)
        ensures
            value == (if s@.len() >= 2 {
                Some(self.u16_of(s@))
            } else {
                None
            }),
    {
        if s.len() >= 2 {
            Some(self.u16_from([s[0], s[1]]))
        } else {
            None
        }
    }

    /// Read a `u32` from the start of `s`, or `None` if `s` holds fewer
    /// than four bytes.
    #[inline]
    pub fn read_u32_from_slice(self, s: &[u8]) -> (value: Option<u32>)
        ensures
            value == (if s@.len() >= 4 {
                Some(self.u32_of(s@))
            } else {
                None
            }),
    {
        if s.len() >= 4 {
            Some(self.u32_from([s[0], s[1], s[2], s[3]]))
        } else {
            None
        }
    }
}

/// Calls `u16::from_ne_bytes`, which reads two bytes as one value in the
/// byte order of the machine. Which order that is cannot be known here, so
/// the contract only says that the value is the one or the other reading.
#[verifier::external_body]
fn native_u16(b: [u8; 2]) -> (value: u16)
    ensures
        value == pack_u16(b@[0], b@[1]) || value == pack_u16(b@[1], b@[0]),
{
    u16::from_ne_bytes(b)
}

} // verus!
