//! A cursor over an input buffer: the read side of the primitive codec.
//!
//! A [`Cursor`] owns the bytes to decode and a position that every successful
//! read advances.  Fixed-width reads consume exactly their width or fail with
//! [`ReadError::UnexpectedEof`] and leave the cursor where it was.

use vstd::prelude::*;

use crate::error::ReadError;
use crate::primitive::{dec16, dec32};

verus! {

/// A position within an input buffer.
pub struct Cursor {
    /// The bytes being decoded.
    pub data: Vec<u8>,
    /// The index of the next byte to consume.
    pub pos: usize,
}

impl Cursor {
    /// The cursor points at or just past the last byte.
    pub open spec fn wf(self) -> bool {
        self.pos <= self.data@.len()
    }

    /// The number of bytes not yet consumed.
    pub open spec fn spec_remaining(self) -> int {
        self.data@.len() - self.pos
    }

    /// Starts a cursor at the beginning of `data`.
    pub fn new(data: Vec<u8>) -> (c: Self)
        ensures
            c.wf(),
            c.data@ == data@,
            c.pos == 0,
    {
        Cursor { data, pos: 0 }
    }

    /// The number of bytes not yet consumed.
    pub fn remaining(&self) -> (n: usize)
        requires
            self.wf(),
        ensures
            n == self.spec_remaining(),
    {
        self.data.len() - self.pos
    }

    /// Consumes one byte and returns it.
    pub fn read_u8(&mut self) -> (r: Result<u8, ReadError>)
        requires
            old(self).wf(),
        ensures
            final(self).wf(),
            final(self).data@ == old(self).data@,
            old(self).spec_remaining() >= 1 ==> r == Ok::<u8, ReadError>(
                old(self).data@[old(self).pos as int],
            ) && final(self).pos == old(self).pos + 1,
            old(self).spec_remaining() < 1 ==> r == Err::<u8, ReadError>(
                ReadError::UnexpectedEof,
            ) && final(self).pos == old(self).pos,
    {
        if self.pos < self.data.len() {
            let b = self.data[self.pos];
            self.pos = self.pos + 1;
            Ok(b)
        } else {
            Err(ReadError::UnexpectedEof)
        }
    }

    /// Consumes two bytes and returns the 16-bit integer they encode
    /// little-endian.
    pub fn read_u16(&mut self) -> (r: Result<u16, ReadError>)
        requires
            old(self).wf(),
        ensures
            final(self).wf(),
            final(self).data@ == old(self).data@,
            old(self).spec_remaining() >= 2 ==> r == Ok::<u16, ReadError>(
                dec16(old(self).data@[old(self).pos as int], old(self).data@[old(self).pos + 1]),
            ) && final(self).pos == old(self).pos + 2,
            old(self).spec_remaining() < 2 ==> r == Err::<u16, ReadError>(
                ReadError::UnexpectedEof,
            ) && final(self).pos == old(self).pos,
    {
        if self.data.len() - self.pos >= 2 {
            let b0 = self.data[self.pos];
            let b1 = self.data[self.pos + 1];
            self.pos = self.pos + 2;
            Ok((b0 as u16) | ((b1 as u16) << 8))
        } else {
            Err(ReadError::UnexpectedEof)
        }
    }

    /// Consumes four bytes and returns the 32-bit integer they encode
    /// little-endian.
    pub fn read_u32(&mut self) -> (r: Result<u32, ReadError>)
        requires
            old(self).wf(),
        ensures
            final(self).wf(),
            final(self).data@ == old(self).data@,
            old(self).spec_remaining() >= 4 ==> r == Ok::<u32, ReadError>(
                dec32(
                    old(self).data@[old(self).pos as int],
                    old(self).data@[old(self).pos + 1],
                    old(self).data@[old(self).pos + 2],
                    old(self).data@[old(self).pos + 3],
                ),
            ) && final(self).pos == old(self).pos + 4,
            old(self).spec_remaining() < 4 ==> r == Err::<u32, ReadError>(
                ReadError::UnexpectedEof,
            ) && final(self).pos == old(self).pos,
    {
        if self.data.len() - self.pos >= 4 {
            let b0 = self.data[self.pos];
            let b1 = self.data[self.pos + 1];
            let b2 = self.data[self.pos + 2];
            let b3 = self.data[self.pos + 3];
            self.pos = self.pos + 4;
            Ok((b0 as u32) | ((b1 as u32) << 8) | ((b2 as u32) << 16) | ((b3 as u32) << 24))
        } else {
            Err(ReadError::UnexpectedEof)
        }
    }

    /// Consumes `n` bytes and returns them as a fresh buffer.
    pub fn read_bytes(&mut self, n: usize) -> (r: Result<Vec<u8>, ReadError>)
        requires
            old(self).wf(),
        ensures
            final(self).wf(),
            final(self).data@ == old(self).data@,
            old(self).spec_remaining() >= n ==> (match r {
                Ok(out) => out@ == old(self).data@.subrange(
                    old(self).pos as int,
                    old(self).pos + n,
                ) && final(self).pos == old(self).pos + n,
                Err(_) => false,
            }),
            old(self).spec_remaining() < n ==> r == Err::<Vec<u8>, ReadError>(
                ReadError::UnexpectedEof,
            ) && final(self).pos == old(self).pos,
    {
        let len: usize = self.data.len();
        if len - self.pos >= n {
            let mut out: Vec<u8> = Vec::new();
            let start: usize = self.pos;
            let ghost orig = *self;
            let mut i: usize = 0;
            while i < n
                invariant
                    *self == orig,
                    start + n <= self.data@.len(),
                    self.data@.len() <= usize::MAX,
                    i <= n,
                    out@ == self.data@.subrange(start as int, start as int + i),
                decreases n - i,
            {
                out.push(self.data[start + i]);
                i = i + 1;
                assert(out@ =~= self.data@.subrange(start as int, start as int + i));
            }
            self.pos = start + n;
            Ok(out)
        } else {
            Err(ReadError::UnexpectedEof)
        }
    }

    /// Consumes `n` bytes without interpreting them.
    pub fn advance(&mut self, n: usize) -> (r: Result<(), ReadError>)
        requires
            old(self).wf(),
        ensures
            final(self).wf(),
            final(self).data@ == old(self).data@,
            old(self).spec_remaining() >= n ==> r == Ok::<(), ReadError>(())
                && final(self).pos == old(self).pos + n,
            old(self).spec_remaining() < n ==> r == Err::<(), ReadError>(
                ReadError::UnexpectedEof,
            ) && final(self).pos == old(self).pos,
    {
        if self.data.len() - self.pos >= n {
            self.pos = self.pos + n;
            Ok(())
        } else {
            Err(ReadError::UnexpectedEof)
        }
    }
}

} // verus!
