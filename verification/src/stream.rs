//! A seekable, readable cursor over the bytes of a file.

use vstd::prelude::*;

verus! {

/// Why a read or a seek on a [`ByteStream`] failed.
#[derive(Debug, Clone, Copy, PartialEq, Eq, Structural)]
pub enum ReadError {
    /// Fewer bytes were left than the read asked for.
    UnexpectedEof,
    /// The seek would have moved before the start of the stream or past the
    /// largest position a stream can have.
    InvalidSeek,
}

/// The bytes of a file together with a read position.
///
/// The position may lie beyond the last byte: seeking there is allowed, and
/// only a later read fails.
pub struct ByteStream {
    data: Vec<u8>,
    pos: u64,
}

impl ByteStream {
    /// The bytes the stream was made from.
    pub closed spec fn bytes(&self) -> Seq<u8> {
        self.data@
    }

    /// The read position, counted from the first byte.
    pub closed spec fn offset(&self) -> nat {
        self.pos as nat
    }

    /// Whether `n` more bytes can be read from the current position. No
    /// bytes at all can be read anywhere, even beyond the end of the data.
    pub open spec fn holds(&self, n: int) -> bool {
        n <= 0 || self.offset() + n <= self.bytes().len()
    }

    /// The `n` bytes that start `skip` bytes after the current position.
    pub open spec fn window(&self, skip: int, n: int) -> Seq<u8> {
        if n <= 0 {
            Seq::empty()
        } else {
            self.bytes().subrange(self.offset() + skip, self.offset() + skip + n)
        }
    }

    /// Where the position stands after an attempt to read `n` bytes: behind
    /// them if they were there, else at the end of the data (or where it was,
    /// if that is further on).
    pub open spec fn offset_after_read(&self, n: int) -> int {
        if self.holds(n) {
            self.offset() + n
        } else if self.offset() < self.bytes().len() {
            self.bytes().len() as int
        } else {
            self.offset() as int
        }
    }

    /// Whether moving the position by `by` bytes stays within `0..=u64::MAX`.
    pub open spec fn can_move(&self, by: int) -> bool {
        0 <= self.offset() + by <= u64::MAX
    }

    /// The data of a stream is no longer than a `usize` can count.
    pub proof fn lemma_len_fits(&self)
        ensures
            self.bytes().len() <= usize::MAX,
    {
        assert(self.data@.len() == self.data.len());
    }

    /// A stream over `data`, positioned at its first byte.
    pub fn new(data: Vec<u8>) -> (stream: Self)
        ensures
            stream.bytes() == data@,
            stream.offset() == 0,
    {
        ByteStream { data, pos: 0 }
    }

    /// The current read position.
    pub fn position(&self) -> (pos: u64)
        ensures
            pos == self.offset(),
    {
        self.pos
    }

    /// Moves the position to `to` bytes from the start.
    pub fn seek_start(&mut self, to: u64)
        ensures
            final(self).bytes() == old(self).bytes(),
            final(self).offset() == to,
    {
        self.pos = to;
    }

    /// Moves the position by `by` bytes, forwards or backwards, and returns
    /// the new position. A move that would leave `0..=u64::MAX` fails and
    /// leaves the position where it was.
    pub fn seek_current(&mut self, by: i64) -> (res: Result<u64, ReadError>)
        ensures
            final(self).bytes() == old(self).bytes(),
            match res {
                Ok(pos) => old(self).can_move(by as int) && pos == old(self).offset() + by
                    && final(self).offset() == pos,
                Err(e) => !old(self).can_move(by as int) && e == ReadError::InvalidSeek
                    && final(self).offset() == old(self).offset(),
            },
    {
        if by >= 0 {
            let step: u64 = by as u64;
            if step <= u64::MAX - self.pos {
                self.pos = self.pos + step;
                Ok(self.pos)
            } else {
                Err(ReadError::InvalidSeek)
            }
        } else {
            let step: u64 = (-(by + 1)) as u64 + 1;
            if step <= self.pos {
                self.pos = self.pos - step;
                Ok(self.pos)
            } else {
                Err(ReadError::InvalidSeek)
            }
        }
    }

    /// Reads the next `N` bytes. If fewer are left, the read fails and the
    /// position moves to the end of the data.
    pub fn read_array<const N: usize>(&mut self) -> (res: Result<[u8; N], ReadError>)
        ensures
            final(self).bytes() == old(self).bytes(),
            final(self).offset() == old(self).offset_after_read(N as int),
            match res {
                Ok(buf) => old(self).holds(N as int) && buf@ == old(self).window(0, N as int),
                Err(e) => !old(self).holds(N as int) && e == ReadError::UnexpectedEof,
            },
    {
        let len: u64 = self.data.len() as u64;
        if N == 0 {
            let buf: [u8; N] = [0u8; N];
            Ok(buf)
        } else if self.pos <= len && N as u64 <= len - self.pos {
            let start: usize = self.pos as usize;
            let mut buf: [u8; N] = [0u8; N];
            let mut i: usize = 0;
            while i < N
                invariant
                    i <= N,
                    start + N <= self.data.len(),
                    forall|j: int| 0 <= j < i ==> buf@[j] == self.data@[start + j],
                decreases N - i,
            {
                buf[i] = self.data[start + i];
                i = i + 1;
            }
            self.pos = self.pos + N as u64;
            Ok(buf)
        } else {
            if self.pos < len {
                self.pos = len;
            }
            Err(ReadError::UnexpectedEof)
        }
    }
}

} // verus!
