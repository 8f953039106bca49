//! Runs of consecutive integers of one width.

use vstd::prelude::*;
use crate::endian::Endian;
use crate::stream::ByteStream;
use crate::stream::ReadError;

verus! {

/// A request for `count` consecutive integers in one byte order.
#[derive(Debug, Copy, Clone)]
pub struct ReadBytes {
    count: i32,
    endian: Endian,
}

impl ReadBytes {
    /// How many integers the request asks for: its count, or none where the
    /// count is negative.
    pub closed spec fn items(self) -> nat {
        if self.count > 0 {
            self.count as nat
        } else {
            0
        }
    }

    /// The byte order in which the integers are read.
    pub closed spec fn byte_order(self) -> Endian {
        self.endian
    }

    /// A request for `count` integers in the byte order `endian`. A negative
    /// count asks for nothing.
    pub fn new(count: i32, endian: Endian) -> (request: Self)
        ensures
            request.items() == if count > 0 {
                count as int
            } else {
                0
            },
            request.byte_order() == endian,
    {
        Self { count, endian }
    }

    /// A run that hands out the 32-bit integers of this request one at a
    /// time, each read from the stream only when it is asked for.
    pub fn iter_int32s(self) -> (run: Int32s)
        ensures
            run.left() == self.items(),
            run.byte_order() == self.byte_order(),
    {
        Int32s { left: self.count, endian: self.endian }
    }

    /// A run that hands out the 16-bit integers of this request one at a
    /// time, each read from the stream only when it is asked for.
    pub fn iter_int16s(self) -> (run: Int16s)
        ensures
            run.left() == self.items(),
            run.byte_order() == self.byte_order(),
    {
        Int16s { left: self.count, endian: self.endian }
    }

    /// A run that hands out the bytes of this request one at a
    /// time, each read from the stream only when it is asked for.
    pub fn iter_u8s(self) -> (run: U8s)
        ensures
            run.left() == self.items(),
            run.byte_order() == self.byte_order(),
    {
        U8s { left: self.count, endian: self.endian }
    }

    /// Reads all the 32-bit integers, or fails at the first read that finds
    /// too few bytes left; the integers read before it are dropped.
    pub fn read_int32s(self, reader: &mut ByteStream) -> (res: Result<Vec<i32>, ReadError>)
        ensures
            final(reader).bytes() == old(reader).bytes(),
            final(reader).offset() == old(reader).offset_after_read(4 * (self.items() as int)),
            match res {
                Ok(values) => {
                    &&& old(reader).holds(4 * (self.items() as int))
                    &&& values@.len() == self.items()
                    &&& forall|i: int|
                        0 <= i < self.items() ==> values@[i] == self.byte_order().decode_int32(
                            old(reader).window(4 * i, 4),
                        )
                },
                Err(e) => !old(reader).holds(4 * (self.items() as int)) && e == ReadError::UnexpectedEof,
            },
    {
        let mut values: Vec<i32> = Vec::new();
        let mut run = self.iter_int32s();
        loop
            invariant
                run.left() + values@.len() == self.items(),
                run.byte_order() == self.byte_order(),
                reader.bytes() == old(reader).bytes(),
                old(reader).holds(4 * (values@.len() as int)),
                reader.offset() == old(reader).offset() + 4 * values@.len(),
                forall|j: int|
                    0 <= j < values@.len() ==> values@[j] == self.byte_order().decode_int32(
                        old(reader).window(4 * j, 4),
                    ),
            decreases run.left(),
        {
            match run.next(reader) {
                Some(Ok(value)) => {
                    values.push(value);
                },
                Some(Err(e)) => {
                    return Err(e);
                },
                None => {
                    return Ok(values);
                },
            }
        }
    }

    /// Reads all the 16-bit integers, or fails at the first read that finds
    /// too few bytes left; the integers read before it are dropped.
    pub fn read_int16s(self, reader: &mut ByteStream) -> (res: Result<Vec<i16>, ReadError>)
        ensures
            final(reader).bytes() == old(reader).bytes(),
            final(reader).offset() == old(reader).offset_after_read(2 * (self.items() as int)),
            match res {
                Ok(values) => {
                    &&& old(reader).holds(2 * (self.items() as int))
                    &&& values@.len() == self.items()
                    &&& forall|i: int|
                        0 <= i < self.items() ==> values@[i] == self.byte_order().decode_int16(
                            old(reader).window(2 * i, 2),
                        )
                },
                Err(e) => !old(reader).holds(2 * (self.items() as int)) && e == ReadError::UnexpectedEof,
            },
    {
        let mut values: Vec<i16> = Vec::new();
        let mut run = self.iter_int16s();
        loop
            invariant
                run.left() + values@.len() == self.items(),
                run.byte_order() == self.byte_order(),
                reader.bytes() == old(reader).bytes(),
                old(reader).holds(2 * (values@.len() as int)),
                reader.offset() == old(reader).offset() + 2 * values@.len(),
                forall|j: int|
                    0 <= j < values@.len() ==> values@[j] == self.byte_order().decode_int16(
                        old(reader).window(2 * j, 2),
                    ),
            decreases run.left(),
        {
            match run.next(reader) {
                Some(Ok(value)) => {
                    values.push(value);
                },
                Some(Err(e)) => {
                    return Err(e);
                },
                None => {
                    return Ok(values);
                },
            }
        }
    }

    /// Reads all the bytes, or fails at the first read that finds none left;
    /// the bytes read before it are dropped.
    pub fn read_u8s(self, reader: &mut ByteStream) -> (res: Result<Vec<u8>, ReadError>)
        ensures
            final(reader).bytes() == old(reader).bytes(),
            final(reader).offset() == old(reader).offset_after_read(self.items() as int),
            match res {
                Ok(values) => {
                    &&& old(reader).holds(self.items() as int)
                    &&& values@.len() == self.items()
                    &&& forall|i: int|
                        0 <= i < self.items() ==> values@[i] == self.byte_order().decode_u8(
                            old(reader).window(i, 1),
                        )
                },
                Err(e) => !old(reader).holds(self.items() as int) && e == ReadError::UnexpectedEof,
            },
    {
        let mut values: Vec<u8> = Vec::new();
        let mut run = self.iter_u8s();
        loop
            invariant
                run.left() + values@.len() == self.items(),
                run.byte_order() == self.byte_order(),
                reader.bytes() == old(reader).bytes(),
                old(reader).holds((values@.len() as int)),
                reader.offset() == old(reader).offset() + values@.len(),
                forall|j: int|
                    0 <= j < values@.len() ==> values@[j] == self.byte_order().decode_u8(
                        old(reader).window(j, 1),
                    ),
            decreases run.left(),
        {
            match run.next(reader) {
                Some(Ok(value)) => {
                    values.push(value);
                },
                Some(Err(e)) => {
                    return Err(e);
                },
                None => {
                    return Ok(values);
                },
            }
        }
    }
}

/// A run of 32-bit integers that is read one item at a time.
#[derive(Debug, Copy, Clone)]
pub struct Int32s {
    left: i32,
    endian: Endian,
}

impl Int32s {
    /// How many items are yet to be asked for.
    pub closed spec fn left(self) -> nat {
        if self.left > 0 {
            self.left as nat
        } else {
            0
        }
    }

    /// The byte order in which the items are read.
    pub closed spec fn byte_order(self) -> Endian {
        self.endian
    }

    /// Reads the next item and hands out how the read went, or returns
    /// `None` without touching the stream once every item has been asked
    /// for. Nothing is read ahead: a call reads one item and no more.
    pub fn next(&mut self, reader: &mut ByteStream) -> (item: Option<Result<i32, ReadError>>)
        ensures
            final(reader).bytes() == old(reader).bytes(),
            final(self).byte_order() == old(self).byte_order(),
            old(self).left() == 0 ==> {
                &&& item.is_none()
                &&& final(self).left() == 0
                &&& final(reader).offset() == old(reader).offset()
            },
            old(self).left() > 0 ==> {
                &&& final(self).left() == old(self).left() - 1
                &&& final(reader).offset() == old(reader).offset_after_read(4)
                &&& item == Some(
                    if old(reader).holds(4) {
                        Ok::<i32, ReadError>(old(self).byte_order().decode_int32(old(reader).window(0, 4)))
                    } else {
                        Err::<i32, ReadError>(ReadError::UnexpectedEof)
                    },
                )
            },
    {
        if self.left <= 0 {
            return None;
        }
        self.left = self.left - 1;
        Some(self.endian.read_int32(reader))
    }
}

/// A run of 16-bit integers that is read one item at a time.
#[derive(Debug, Copy, Clone)]
pub struct Int16s {
    left: i32,
    endian: Endian,
}

impl Int16s {
    /// How many items are yet to be asked for.
    pub closed spec fn left(self) -> nat {
        if self.left > 0 {
            self.left as nat
        } else {
            0
        }
    }

    /// The byte order in which the items are read.
    pub closed spec fn byte_order(self) -> Endian {
        self.endian
    }

    /// Reads the next item and hands out how the read went, or returns
    /// `None` without touching the stream once every item has been asked
    /// for. Nothing is read ahead: a call reads one item and no more.
    pub fn next(&mut self, reader: &mut ByteStream) -> (item: Option<Result<i16, ReadError>>)
        ensures
            final(reader).bytes() == old(reader).bytes(),
            final(self).byte_order() == old(self).byte_order(),
            old(self).left() == 0 ==> {
                &&& item.is_none()
                &&& final(self).left() == 0
                &&& final(reader).offset() == old(reader).offset()
            },
            old(self).left() > 0 ==> {
                &&& final(self).left() == old(self).left() - 1
                &&& final(reader).offset() == old(reader).offset_after_read(2)
                &&& item == Some(
                    if old(reader).holds(2) {
                        Ok::<i16, ReadError>(old(self).byte_order().decode_int16(old(reader).window(0, 2)))
                    } else {
                        Err::<i16, ReadError>(ReadError::UnexpectedEof)
                    },
                )
            },
    {
        if self.left <= 0 {
            return None;
        }
        self.left = self.left - 1;
        Some(self.endian.read_int16(reader))
    }
}

/// A run of bytes that is read one item at a time.
#[derive(Debug, Copy, Clone)]
pub struct U8s {
    left: i32,
    endian: Endian,
}

impl U8s {
    /// How many items are yet to be asked for.
    pub closed spec fn left(self) -> nat {
        if self.left > 0 {
            self.left as nat
        } else {
            0
        }
    }

    /// The byte order in which the items are read.
    pub closed spec fn byte_order(self) -> Endian {
        self.endian
    }

    /// Reads the next item and hands out how the read went, or returns
    /// `None` without touching the stream once every item has been asked
    /// for. Nothing is read ahead: a call reads one item and no more.
    pub fn next(&mut self, reader: &mut ByteStream) -> (item: Option<Result<u8, ReadError>>)
        ensures
            final(reader).bytes() == old(reader).bytes(),
            final(self).byte_order() == old(self).byte_order(),
            old(self).left() == 0 ==> {
                &&& item.is_none()
                &&& final(self).left() == 0
                &&& final(reader).offset() == old(reader).offset()
            },
            old(self).left() > 0 ==> {
                &&& final(self).left() == old(self).left() - 1
                &&& final(reader).offset() == old(reader).offset_after_read(1)
                &&& item == Some(
                    if old(reader).holds(1) {
                        Ok::<u8, ReadError>(old(self).byte_order().decode_u8(old(reader).window(0, 1)))
                    } else {
                        Err::<u8, ReadError>(ReadError::UnexpectedEof)
                    },
                )
            },
    {
        if self.left <= 0 {
            return None;
        }
        self.left = self.left - 1;
        Some(self.endian.read_u8(reader))
    }
}

} // verus!
