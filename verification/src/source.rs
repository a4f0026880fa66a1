//! In-memory byte source with a cursor, plus the error type shared by every
//! parser of the crate.

use vstd::prelude::*;

verus! {

/// Errors reported by the parsers.
#[derive(Debug, Clone, Copy, PartialEq, Eq, Structural)]
pub enum ParseError {
    /// A read ran past the end of the data; `offset` is the cursor position
    /// at which the read was attempted.
    UnexpectedEof { offset: u64 },
    /// The bytes do not follow the format; `offset` locates the offending
    /// structure.
    Malformed { offset: u64 },
    /// An element declares a payload larger than the permitted cap.
    OversizedElement { id: u64, size: u64, cap: u64, offset: u64 },
    /// The data is not of the format the reader handles.
    Unrecognised,
}

/// Big-endian value of the two bytes at `i`.
pub open spec fn be16(s: Seq<u8>, i: int) -> int {
    s[i] * 0x100 + s[i + 1]
}

/// Big-endian value of the four bytes at `i`.
pub open spec fn be32(s: Seq<u8>, i: int) -> int {
    s[i] * 0x100_0000 + s[i + 1] * 0x1_0000 + s[i + 2] * 0x100 + s[i + 3]
}

/// Big-endian value of the eight bytes at `i`.
pub open spec fn be64(s: Seq<u8>, i: int) -> int {
    be32(s, i) * 0x1_0000_0000 + be32(s, i + 4)
}

/// Big-endian `u16` at `i` in `s`.
pub fn be16_at(s: &[u8], i: usize) -> (v: u16)
    requires
        i + 2 <= s@.len(),
    ensures
        v == be16(s@, i as int),
{
    (s[i] as u16) * 0x100 + (s[i + 1] as u16)
}

/// Big-endian `u32` at `i` in `s`.
pub fn be32_at(s: &[u8], i: usize) -> (v: u32)
    requires
        i + 4 <= s@.len(),
    ensures
        v == be32(s@, i as int),
{
    (s[i] as u32) * 0x100_0000 + (s[i + 1] as u32) * 0x1_0000 + (s[i + 2] as u32) * 0x100 + (s[i + 3] as u32)
}

/// Big-endian `u64` at `i` in `s`.
pub fn be64_at(s: &[u8], i: usize) -> (v: u64)
    requires
        i + 8 <= s@.len(),
    ensures
        v == be64(s@, i as int),
{
    let _n = s.len();
    let hi = be32_at(s, i) as u64;
    let lo = be32_at(s, i + 4) as u64;
    assert(hi * 0x1_0000_0000 + lo <= u64::MAX) by (nonlinear_arith)
        requires
            hi <= 0xffff_ffff,
            lo <= 0xffff_ffff,
    ;
    hi * 0x1_0000_0000 + lo
}

/// A byte buffer read through a cursor.  The cursor may stand anywhere,
/// also past the end; reads that would cross the end fail with
/// `UnexpectedEof` and leave the cursor where it was.
pub struct FileSource {
    data: Vec<u8>,
    pos: u64,
}

impl FileSource {
    /// The bytes of the source.
    pub closed spec fn bytes(&self) -> Seq<u8> {
        self.data@
    }

    /// The cursor position.
    pub closed spec fn cursor(&self) -> nat {
        self.pos as nat
    }

    /// The cursor position (never negative).
    pub open spec fn pos(&self) -> int {
        self.cursor() as int
    }

    /// Wrap `data`, cursor at offset 0.
    pub fn from_bytes(data: Vec<u8>) -> (s: Self)
        ensures
            s.bytes() == data@,
            s.pos() == 0,
    {
        FileSource { data, pos: 0 }
    }

    /// Current cursor position.
    pub fn position(&self) -> (p: u64)
        ensures
            p == self.pos(),
    {
        self.pos
    }

    /// Total number of bytes.
    pub fn length(&self) -> (n: u64)
        ensures
            n == self.bytes().len(),
    {
        let len = self.data.len() as u64;
        assert(len == self.data@.len());
        len
    }

    /// Move the cursor to the absolute offset `pos`.
    pub fn seek_to(&mut self, pos: u64)
        ensures
            final(self).bytes() == old(self).bytes(),
            final(self).pos() == pos,
    {
        self.pos = pos;
    }

    /// Advance the cursor by `n` bytes, failing when that crosses the end.
    pub fn skip(&mut self, n: u64) -> (r: Result<(), ParseError>)
        ensures
            final(self).bytes() == old(self).bytes(),
            r is Ok <==> old(self).pos() + n <= old(self).bytes().len(),
            r is Ok ==> final(self).pos() == old(self).pos() + n,
            r is Err ==> final(self).pos() == old(self).pos()
                && r == Err::<(), ParseError>(ParseError::UnexpectedEof { offset: old(self).pos() as u64 }),
    {
        if !self.has(n) {
            return Err(ParseError::UnexpectedEof { offset: self.pos });
        }
        self.pos = self.pos + n;
        Ok(())
    }

    /// Read one byte.
    pub fn read_u8(&mut self) -> (r: Result<u8, ParseError>)
        ensures
            final(self).bytes() == old(self).bytes(),
            r is Ok <==> old(self).pos() + 1 <= old(self).bytes().len(),
            r matches Ok(v) ==> v == old(self).bytes()[old(self).pos()]
                && final(self).pos() == old(self).pos() + 1,
            r is Err ==> final(self).pos() == old(self).pos()
                && r == Err::<u8, ParseError>(ParseError::UnexpectedEof { offset: old(self).pos() as u64 }),
    {
        if !self.has(1) {
            return Err(ParseError::UnexpectedEof { offset: self.pos });
        }
        let i = self.pos as usize;
        let v = self.data[i];
        self.pos = self.pos + 1;
        Ok(v)
    }

    /// Read a big-endian `u16`.
    pub fn read_u16_be(&mut self) -> (r: Result<u16, ParseError>)
        ensures
            final(self).bytes() == old(self).bytes(),
            r is Ok <==> old(self).pos() + 2 <= old(self).bytes().len(),
            r matches Ok(v) ==> v == be16(old(self).bytes(), old(self).pos())
                && final(self).pos() == old(self).pos() + 2,
            r is Err ==> final(self).pos() == old(self).pos()
                && r == Err::<u16, ParseError>(ParseError::UnexpectedEof { offset: old(self).pos() as u64 }),
    {
        if !self.has(2) {
            return Err(ParseError::UnexpectedEof { offset: self.pos });
        }
        let i = self.pos as usize;
        let v = (self.data[i] as u16) * 0x100 + (self.data[i + 1] as u16);
        self.pos = self.pos + 2;
        Ok(v)
    }

    /// Read a big-endian `u32`.
    pub fn read_u32_be(&mut self) -> (r: Result<u32, ParseError>)
        ensures
            final(self).bytes() == old(self).bytes(),
            r is Ok <==> old(self).pos() + 4 <= old(self).bytes().len(),
            r matches Ok(v) ==> v == be32(old(self).bytes(), old(self).pos())
                && final(self).pos() == old(self).pos() + 4,
            r is Err ==> final(self).pos() == old(self).pos()
                && r == Err::<u32, ParseError>(ParseError::UnexpectedEof { offset: old(self).pos() as u64 }),
    {
        if !self.has(4) {
            return Err(ParseError::UnexpectedEof { offset: self.pos });
        }
        let i = self.pos as usize;
        let v = (self.data[i] as u32) * 0x100_0000 + (self.data[i + 1] as u32) * 0x1_0000
            + (self.data[i + 2] as u32) * 0x100 + (self.data[i + 3] as u32);
        self.pos = self.pos + 4;
        Ok(v)
    }

    /// Read a big-endian `u64`.
    pub fn read_u64_be(&mut self) -> (r: Result<u64, ParseError>)
        ensures
            final(self).bytes() == old(self).bytes(),
            r is Ok <==> old(self).pos() + 8 <= old(self).bytes().len(),
            r matches Ok(v) ==> v == be64(old(self).bytes(), old(self).pos())
                && final(self).pos() == old(self).pos() + 8,
            r is Err ==> final(self).pos() == old(self).pos()
                && r == Err::<u64, ParseError>(ParseError::UnexpectedEof { offset: old(self).pos() as u64 }),
    {
        if !self.has(8) {
            return Err(ParseError::UnexpectedEof { offset: self.pos });
        }
        let hi = self.read_u32_be().unwrap();
        let lo = self.read_u32_be().unwrap();
        Ok((hi as u64) * 0x1_0000_0000 + (lo as u64))
    }

    /// Read four raw bytes.
    pub fn read_array4(&mut self) -> (r: Result<[u8; 4], ParseError>)
        ensures
            final(self).bytes() == old(self).bytes(),
            r is Ok <==> old(self).pos() + 4 <= old(self).bytes().len(),
            r matches Ok(a) ==> a@ == old(self).bytes().subrange(old(self).pos(), old(self).pos() + 4)
                && final(self).pos() == old(self).pos() + 4,
            r is Err ==> final(self).pos() == old(self).pos()
                && r == Err::<[u8; 4], ParseError>(ParseError::UnexpectedEof { offset: old(self).pos() as u64 }),
    {
        if !self.has(4) {
            return Err(ParseError::UnexpectedEof { offset: self.pos });
        }
        let i = self.pos as usize;
        let a = [self.data[i], self.data[i + 1], self.data[i + 2], self.data[i + 3]];
        self.pos = self.pos + 4;
        assert(a@ =~= self.data@.subrange(i as int, i + 4));
        Ok(a)
    }

    /// Read exactly `n` bytes.
    pub fn read_exact(&mut self, n: u64) -> (r: Result<Vec<u8>, ParseError>)
        ensures
            final(self).bytes() == old(self).bytes(),
            r is Ok <==> old(self).pos() + n <= old(self).bytes().len(),
            r matches Ok(v) ==> v@ == old(self).bytes().subrange(old(self).pos(), old(self).pos() + n)
                && final(self).pos() == old(self).pos() + n,
            r is Err ==> final(self).pos() == old(self).pos()
                && r == Err::<Vec<u8>, ParseError>(ParseError::UnexpectedEof { offset: old(self).pos() as u64 }),
    {
        if !self.has(n) {
            return Err(ParseError::UnexpectedEof { offset: self.pos });
        }
        let start = self.pos as usize;
        let end = start + n as usize;
        let v = self.slice_copy(start, end);
        self.pos = self.pos + n;
        Ok(v)
    }

    /// Read up to `n` bytes: fewer when the end comes first, none when the
    /// cursor stands at or past the end.
    pub fn read_at_most(&mut self, n: u64) -> (v: Vec<u8>)
        ensures
            final(self).bytes() == old(self).bytes(),
            old(self).pos() >= old(self).bytes().len() ==> v@.len() == 0
                && final(self).pos() == old(self).pos(),
            old(self).pos() < old(self).bytes().len() ==> {
                let end = if old(self).pos() + n <= old(self).bytes().len() {
                    old(self).pos() + n
                } else {
                    old(self).bytes().len() as int
                };
                &&& v@ == old(self).bytes().subrange(old(self).pos(), end)
                &&& final(self).pos() == end
            },
    {
        let len = self.data.len() as u64;
        assert(len == self.data@.len());
        if self.pos >= len {
            return Vec::new();
        }
        let take = if n <= len - self.pos { n } else { len - self.pos };
        let start = self.pos as usize;
        let end = start + take as usize;
        let v = self.slice_copy(start, end);
        self.pos = self.pos + take;
        v
    }

    /// Byte at absolute offset `pos`.
    pub fn u8_at(&self, pos: u64) -> (v: u8)
        requires
            pos < self.bytes().len(),
        ensures
            v == self.bytes()[pos as int],
    {
        let len = self.data.len();
        assert(len == self.data@.len());
        self.data[pos as usize]
    }

    /// Big-endian `u32` at absolute offset `pos`.
    pub fn u32_at(&self, pos: u64) -> (v: u32)
        requires
            pos + 4 <= self.bytes().len(),
        ensures
            v == be32(self.bytes(), pos as int),
    {
        let len = self.data.len();
        assert(len == self.data@.len());
        let i = pos as usize;
        (self.data[i] as u32) * 0x100_0000 + (self.data[i + 1] as u32) * 0x1_0000
            + (self.data[i + 2] as u32) * 0x100 + (self.data[i + 3] as u32)
    }

    /// Big-endian `u64` at absolute offset `pos`.
    pub fn u64_at(&self, pos: u64) -> (v: u64)
        requires
            pos + 8 <= self.bytes().len(),
        ensures
            v == be64(self.bytes(), pos as int),
    {
        let len = self.data.len();
        assert(len == self.data@.len());
        (self.u32_at(pos) as u64) * 0x1_0000_0000 + (self.u32_at(pos + 4) as u64)
    }

    /// Four bytes at absolute offset `pos`.
    pub fn array4_at(&self, pos: u64) -> (a: [u8; 4])
        requires
            pos + 4 <= self.bytes().len(),
        ensures
            a@ == self.bytes().subrange(pos as int, pos + 4),
    {
        let len = self.data.len();
        assert(len == self.data@.len());
        let i = pos as usize;
        let a = [self.data[i], self.data[i + 1], self.data[i + 2], self.data[i + 3]];
        assert(a@ =~= self.data@.subrange(i as int, i + 4));
        a
    }

    fn has(&self, n: u64) -> (b: bool)
        ensures
            b == (self.pos + n <= self.data@.len()),
            self.data@.len() <= u64::MAX,
            self.data@.len() <= usize::MAX,
    {
        let len = self.data.len() as u64;
        assert(len == self.data@.len());
        n <= len && self.pos <= len - n
    }

    fn slice_copy(&self, start: usize, end: usize) -> (v: Vec<u8>)
        requires
            start <= end <= self.data@.len(),
        ensures
            v@ == self.data@.subrange(start as int, end as int),
    {
        let mut v: Vec<u8> = Vec::with_capacity(end - start);
        let mut i = start;
        while i < end
            invariant
                start <= i <= end <= self.data@.len(),
                v@ == self.data@.subrange(start as int, i as int),
            decreases end - i,
        {
            v.push(self.data[i]);
            i = i + 1;
            assert(v@ =~= self.data@.subrange(start as int, i as int));
        }
        v
    }
}

} // verus!
