//! Sequential big-endian reads from an in-memory byte stream.
//!
//! Every read either returns exactly the requested width and advances the
//! cursor, or fails with [`ParseClassError::IoError`] and leaves the cursor
//! where it was. Truncated input always fails; it is never zero-filled.

use vstd::prelude::*;
use crate::big_endian::{be16, be32};
use crate::class::ParseClassError;

verus! {

/// True when `n` bytes can be taken at `pos` without running off the end.
pub open spec fn can_read(data: Seq<u8>, pos: int, n: int) -> bool {
    pos + n <= data.len()
}

/// A byte group well inside a truncation point reads the same before and
/// after the truncation.
pub(crate) proof fn lemma_take_subrange(data: Seq<u8>, k: int, a: int, b: int)
    requires
        0 <= a <= b <= k <= data.len(),
    ensures
        data.take(k).subrange(a, b) == data.subrange(a, b),
{
    assert(data.take(k).subrange(a, b) =~= data.subrange(a, b));
}

/// A cursor over the bytes of one class file, consumed strictly forward.
pub struct ByteReader<'a> {
    pub data: &'a Vec<u8>,
    pub pos: usize,
}

impl<'a> ByteReader<'a> {
    /// A cursor at the start of `data`.
    pub fn new(data: &'a Vec<u8>) -> (r: Self)
        ensures
            r.data@ == data@,
            r.pos == 0,
    {
        ByteReader { data, pos: 0 }
    }

    /// Reads one byte.
    pub fn read_u8(&mut self) -> (res: Result<u8, ParseClassError>)
        ensures
            final(self).data@ == old(self).data@,
            can_read(old(self).data@, old(self).pos as int, 1) ==> (res matches Ok(b)
                && b == old(self).data@[old(self).pos as int] && final(self).pos == old(self).pos + 1),
            !can_read(old(self).data@, old(self).pos as int, 1) ==> (res matches Err(e)
                && e == ParseClassError::IoError && final(self).pos == old(self).pos),
    {
        if self.pos < self.data.len() {
            let b = self.data[self.pos];
            self.pos = self.pos + 1;
            Ok(b)
        } else {
            Err(ParseClassError::IoError)
        }
    }

    /// Reads a 16-bit big-endian integer.
    pub fn read_u16(&mut self) -> (res: Result<u16, ParseClassError>)
        ensures
            final(self).data@ == old(self).data@,
            can_read(old(self).data@, old(self).pos as int, 2) ==> (res matches Ok(v)
                && v == be16(old(self).data@.subrange(old(self).pos as int, old(self).pos + 2))
                && final(self).pos == old(self).pos + 2),
            !can_read(old(self).data@, old(self).pos as int, 2) ==> (res matches Err(e)
                && e == ParseClassError::IoError && final(self).pos == old(self).pos),
    {
        if self.pos <= self.data.len() && 2 <= self.data.len() - self.pos {
            let b0 = self.data[self.pos];
            let b1 = self.data[self.pos + 1];
            let v = crate::big_endian::parse_u16([b0, b1]);
            proof {
                let s = self.data@.subrange(self.pos as int, self.pos + 2);
                assert(s[0] == b0 && s[1] == b1);
            }
            self.pos = self.pos + 2;
            Ok(v)
        } else {
            Err(ParseClassError::IoError)
        }
    }

    /// Reads a 32-bit big-endian integer.
    pub fn read_u32(&mut self) -> (res: Result<u32, ParseClassError>)
        ensures
            final(self).data@ == old(self).data@,
            can_read(old(self).data@, old(self).pos as int, 4) ==> (res matches Ok(v)
                && v == be32(old(self).data@.subrange(old(self).pos as int, old(self).pos + 4))
                && final(self).pos == old(self).pos + 4),
            !can_read(old(self).data@, old(self).pos as int, 4) ==> (res matches Err(e)
                && e == ParseClassError::IoError && final(self).pos == old(self).pos),
    {
        if self.pos <= self.data.len() && 4 <= self.data.len() - self.pos {
            let b0 = self.data[self.pos];
            let b1 = self.data[self.pos + 1];
            let b2 = self.data[self.pos + 2];
            let b3 = self.data[self.pos + 3];
            let v = crate::big_endian::parse_u32([b0, b1, b2, b3]);
            proof {
                let s = self.data@.subrange(self.pos as int, self.pos + 4);
                assert(s[0] == b0 && s[1] == b1 && s[2] == b2 && s[3] == b3);
            }
            self.pos = self.pos + 4;
            Ok(v)
        } else {
            Err(ParseClassError::IoError)
        }
    }

    /// Reads exactly `n` bytes.
    pub fn read_bytes(&mut self, n: usize) -> (res: Result<Vec<u8>, ParseClassError>)
        ensures
            final(self).data@ == old(self).data@,
            can_read(old(self).data@, old(self).pos as int, n as int) ==> (res matches Ok(v)
                && v@ == old(self).data@.subrange(old(self).pos as int, old(self).pos + n)
                && final(self).pos == old(self).pos + n),
            !can_read(old(self).data@, old(self).pos as int, n as int) ==> (res matches Err(e)
                && e == ParseClassError::IoError && final(self).pos == old(self).pos),
    {
        if self.pos <= self.data.len() && n <= self.data.len() - self.pos {
            let start = self.pos;
            let len = self.data.len();
            let mut v: Vec<u8> = Vec::new();
            let mut i: usize = 0;
            while i < n
                invariant
                    i <= n,
                    start + n <= len,
                    len == self.data@.len(),
                    v@ == self.data@.subrange(start as int, start as int + i as int),
                decreases n - i,
            {
                v.push(self.data[start + i]);
                proof {
                    assert(v@ =~= self.data@.subrange(start as int, start as int + i as int + 1));
                }
                i = i + 1;
            }
            self.pos = start + n;
            Ok(v)
        } else {
            Err(ParseClassError::IoError)
        }
    }
}

} // verus!
