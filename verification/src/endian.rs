//! Fixed-width integers in either byte order, read one at a time or in bulk.

use vstd::prelude::*;
use crate::stream::ByteStream;
use crate::stream::ReadError;

verus! {

/// The probe word that a big-endian file starts with.
pub const BIG_ENDIAN_PROBE: i32 = 16;

/// The unsigned number that four bytes spell, most significant byte first.
pub open spec fn be_word(b: Seq<u8>) -> int
    recommends
        b.len() == 4,
{
    b[0] * 0x100_0000 + b[1] * 0x1_0000 + b[2] * 0x100 + b[3]
}

/// The unsigned number that four bytes spell, least significant byte first.
pub open spec fn le_word(b: Seq<u8>) -> int
    recommends
        b.len() == 4,
{
    b[3] * 0x100_0000 + b[2] * 0x1_0000 + b[1] * 0x100 + b[0]
}

/// The unsigned number that two bytes spell, most significant byte first.
pub open spec fn be_half(b: Seq<u8>) -> int
    recommends
        b.len() == 2,
{
    b[0] * 0x100 + b[1]
}

/// The unsigned number that two bytes spell, least significant byte first.
pub open spec fn le_half(b: Seq<u8>) -> int
    recommends
        b.len() == 2,
{
    b[1] * 0x100 + b[0]
}

/// A 32-bit pattern read as a two's-complement number.
pub open spec fn signed32(v: int) -> int {
    if v >= 0x8000_0000 {
        v - 0x1_0000_0000
    } else {
        v
    }
}

/// A 16-bit pattern read as a two's-complement number.
pub open spec fn signed16(v: int) -> int {
    if v >= 0x8000 {
        v - 0x1_0000
    } else {
        v
    }
}

/// The byte order of a stream.
#[derive(Debug, Copy, Clone, PartialEq, Eq, Structural)]
pub enum Endian {
    Little,
    Big,
}

impl Endian {
    /// The byte order that a file announces by its first word, read
    /// big-endian: big-endian if the word is 16, little-endian otherwise.
    pub open spec fn detect(word: int) -> Endian {
        if word == BIG_ENDIAN_PROBE {
            Endian::Big
        } else {
            Endian::Little
        }
    }

    /// The signed 32-bit integer that four bytes hold in this byte order.
    pub open spec fn decode_int32(self, b: Seq<u8>) -> i32
        recommends
            b.len() == 4,
    {
        match self {
            Endian::Big => signed32(be_word(b)) as i32,
            Endian::Little => signed32(le_word(b)) as i32,
        }
    }

    /// The signed 16-bit integer that two bytes hold in this byte order.
    pub open spec fn decode_int16(self, b: Seq<u8>) -> i16
        recommends
            b.len() == 2,
    {
        match self {
            Endian::Big => signed16(be_half(b)) as i16,
            Endian::Little => signed16(le_half(b)) as i16,
        }
    }

    /// The unsigned 8-bit integer that one byte holds; byte order does not
    /// matter for it.
    pub open spec fn decode_u8(self, b: Seq<u8>) -> u8
        recommends
            b.len() == 1,
    {
        b[0]
    }

    fn int32_from(&self, buf: [u8; 4]) -> (v: i32)
        ensures
            v == self.decode_int32(buf@),
            v as int == match *self {
                Endian::Big => signed32(be_word(buf@)),
                Endian::Little => signed32(le_word(buf@)),
            },
    {
        let (b0, b1, b2, b3): (u8, u8, u8, u8) = match self {
            Endian::Big => (buf[0], buf[1], buf[2], buf[3]),
            Endian::Little => (buf[3], buf[2], buf[1], buf[0]),
        };
        let word: i64 = b0 as i64 * 0x100_0000 + b1 as i64 * 0x1_0000 + b2 as i64 * 0x100
            + b3 as i64;
        if word >= 0x8000_0000 {
            (word - 0x1_0000_0000) as i32
        } else {
            word as i32
        }
    }

    fn int16_from(&self, buf: [u8; 2]) -> (v: i16)
        ensures
            v == self.decode_int16(buf@),
            v as int == match *self {
                Endian::Big => signed16(be_half(buf@)),
                Endian::Little => signed16(le_half(buf@)),
            },
    {
        let (b0, b1): (u8, u8) = match self {
            Endian::Big => (buf[0], buf[1]),
            Endian::Little => (buf[1], buf[0]),
        };
        let half: i32 = b0 as i32 * 0x100 + b1 as i32;
        if half >= 0x8000 {
            (half - 0x1_0000) as i16
        } else {
            half as i16
        }
    }

    /// Reads the next four bytes as a signed 32-bit integer in this byte
    /// order. Fails, having consumed what was left, if fewer than four bytes
    /// remain.
    pub fn read_int32(&self, reader: &mut ByteStream) -> (res: Result<i32, ReadError>)
        ensures
            final(reader).bytes() == old(reader).bytes(),
            final(reader).offset() == old(reader).offset_after_read(4),
            match res {
                Ok(v) => old(reader).holds(4) && v == self.decode_int32(old(reader).window(0, 4)),
                Err(e) => !old(reader).holds(4) && e == ReadError::UnexpectedEof,
            },
    {
        match reader.read_array::<4>() {
            Ok(buffer) => Ok(self.int32_from(buffer)),
            Err(e) => Err(e),
        }
    }

    /// Reads the next two bytes as a signed 16-bit integer in this byte
    /// order. Fails, having consumed what was left, if fewer than two bytes
    /// remain.
    pub fn read_int16(&self, reader: &mut ByteStream) -> (res: Result<i16, ReadError>)
        ensures
            final(reader).bytes() == old(reader).bytes(),
            final(reader).offset() == old(reader).offset_after_read(2),
            match res {
                Ok(v) => old(reader).holds(2) && v == self.decode_int16(old(reader).window(0, 2)),
                Err(e) => !old(reader).holds(2) && e == ReadError::UnexpectedEof,
            },
    {
        match reader.read_array::<2>() {
            Ok(buffer) => Ok(self.int16_from(buffer)),
            Err(e) => Err(e),
        }
    }

    /// Reads the next byte as an unsigned 8-bit integer. Fails if no byte
    /// remains.
    pub fn read_u8(&self, reader: &mut ByteStream) -> (res: Result<u8, ReadError>)
        ensures
            final(reader).bytes() == old(reader).bytes(),
            final(reader).offset() == old(reader).offset_after_read(1),
            match res {
                Ok(v) => old(reader).holds(1) && v == self.decode_u8(old(reader).window(0, 1)),
                Err(e) => !old(reader).holds(1) && e == ReadError::UnexpectedEof,
            },
    {
        match reader.read_array::<1>() {
            Ok(buffer) => Ok(buffer[0]),
            Err(e) => Err(e),
        }
    }
}

/// Reads the next four bytes as a big-endian signed 32-bit integer. Fails,
/// having consumed what was left, if fewer than four bytes remain.
pub fn read_b_int32(reader: &mut ByteStream) -> (res: Result<i32, ReadError>)
    ensures
        final(reader).bytes() == old(reader).bytes(),
        final(reader).offset() == old(reader).offset_after_read(4),
        match res {
            Ok(v) => old(reader).holds(4) && v == signed32(be_word(old(reader).window(0, 4))),
            Err(e) => !old(reader).holds(4) && e == ReadError::UnexpectedEof,
        },
{
    Endian::Big.read_int32(reader)
}

/// Finds the byte order of a file from its first word and steps over that
/// word. The word is read big-endian: if it is 16 the file is big-endian, and
/// any other word means little-endian.
pub fn get_endian(reader: &mut ByteStream) -> (res: Result<Endian, ReadError>)
    ensures
        final(reader).bytes() == old(reader).bytes(),
        final(reader).offset() == old(reader).offset_after_read(4),
        match res {
            Ok(endian) => old(reader).holds(4) && endian == Endian::detect(
                signed32(be_word(old(reader).window(0, 4))),
            ),
            Err(e) => !old(reader).holds(4) && e == ReadError::UnexpectedEof,
        },
{
    match read_b_int32(reader) {
        Ok(word) => {
            if word == BIG_ENDIAN_PROBE {
                Ok(Endian::Big)
            } else {
                Ok(Endian::Little)
            }
        },
        Err(e) => Err(e),
    }
}

} // verus!
