use vstd::prelude::*;
use crate::error::RdbError;

verus! {

/// Reading one byte at `pos` of `s`: the byte and the next position, or
/// end of input with the position moved to the end of the buffer.
pub open spec fn spec_read_u8(s: Seq<u8>, pos: int) -> (Result<u8, RdbError>, int) {
    if 0 <= pos < s.len() {
        (Ok(s[pos]), pos + 1)
    } else {
        (Err(RdbError::UnexpectedEof), s.len() as int)
    }
}

/// Reading `n` bytes at `pos` of `s`: all of them and the position after
/// them, or end of input with the position moved to the end of the buffer.
pub open spec fn spec_read_bytes(s: Seq<u8>, pos: int, n: int) -> (Result<Seq<u8>, RdbError>, int) {
    if 0 <= pos && 0 <= n && pos + n <= s.len() {
        (Ok(s.subrange(pos, pos + n)), pos + n)
    } else {
        (Err(RdbError::UnexpectedEof), s.len() as int)
    }
}

/// A read position in a byte buffer.
pub struct Cursor<'a> {
    data: &'a [u8],
    pos: usize,
}

impl<'a> Cursor<'a> {
    /// The bytes of the buffer.
    pub closed spec fn bytes(&self) -> Seq<u8> {
        self.data@
    }

    /// The read position.
    pub closed spec fn pos(&self) -> int {
        self.pos as int
    }

    /// A cursor at the start of `data`.
    pub fn new(data: &'a [u8]) -> (c: Self)
        ensures
            c.bytes() == data@,
            c.pos() == 0,
    {
        Cursor { data, pos: 0 }
    }

    /// The read position.
    pub fn position(&self) -> (p: usize)
        ensures
            p == self.pos(),
    {
        self.pos
    }

    /// The whole buffer, whatever the position.
    pub fn get_ref(&self) -> (d: &'a [u8])
        ensures
            d@ == self.bytes(),
    {
        self.data
    }

    /// Reads one byte; at the end of the buffer fails and leaves the
    /// position at the end.
    pub fn read_u8(&mut self) -> (r: Result<u8, RdbError>)
        ensures
            final(self).bytes() == old(self).bytes(),
            (r, final(self).pos()) == spec_read_u8(old(self).bytes(), old(self).pos()),
            final(self).pos() <= final(self).bytes().len(),
    {
        if self.pos < self.data.len() {
            let b = self.data[self.pos];
            self.pos = self.pos + 1;
            Ok(b)
        } else {
            self.pos = self.data.len();
            Err(RdbError::UnexpectedEof)
        }
    }

    /// Reads `n` bytes; where fewer are left, fails and leaves the position
    /// at the end of the buffer.
    pub fn read_bytes(&mut self, n: usize) -> (r: Result<&'a [u8], RdbError>)
        ensures
            final(self).bytes() == old(self).bytes(),
            final(self).pos() == spec_read_bytes(old(self).bytes(), old(self).pos(), n as int).1,
            final(self).pos() <= final(self).bytes().len(),
            match (r, spec_read_bytes(old(self).bytes(), old(self).pos(), n as int).0) {
                (Ok(b), Ok(m)) => b@ == m,
                (Err(e), Err(f)) => e == f,
                _ => false,
            },
    {
        let len = self.data.len();
        if self.pos <= len && n <= len - self.pos {
            let start = self.pos;
            let b = &self.data[start..start + n];
            self.pos = start + n;
            Ok(b)
        } else {
            self.pos = len;
            Err(RdbError::UnexpectedEof)
        }
    }
}

} // verus!
