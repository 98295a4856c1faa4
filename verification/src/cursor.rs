//! A minimal bounds-checked byte reader over an in-memory buffer: little-endian
//! integers, fixed- and variable-length byte and text reads. A failed read
//! never advances the position.
use crate::errors::CursorError;
use crate::text::bytes_to_string;
use vstd::bytes::{
    spec_u16_from_le_bytes, spec_u32_from_le_bytes, spec_u64_from_le_bytes, u16_from_le_bytes,
    u32_from_le_bytes, u64_from_le_bytes,
};
use vstd::prelude::*;
use vstd::slice::{slice_subrange, slice_to_vec};
use vstd::utf8::{decode_utf8, valid_utf8};

verus! {

/// Little-endian `u16` held at byte offset `i` of `d`.
pub open spec fn u16_at(d: Seq<u8>, i: int) -> u16 {
    spec_u16_from_le_bytes(d.subrange(i, i + 2))
}

/// Little-endian `u32` held at byte offset `i` of `d`.
pub open spec fn u32_at(d: Seq<u8>, i: int) -> u32 {
    spec_u32_from_le_bytes(d.subrange(i, i + 4))
}

/// Little-endian `u64` held at byte offset `i` of `d`.
pub open spec fn u64_at(d: Seq<u8>, i: int) -> u64 {
    spec_u64_from_le_bytes(d.subrange(i, i + 8))
}

/// The prefix of `s` that stops at its first NUL byte (all of `s` when no
/// NUL occurs).
pub open spec fn trim_at_nul(s: Seq<u8>) -> Seq<u8> {
    match s.index_of_first(0u8) {
        Some(i) => s.take(i),
        None => s,
    }
}

/// What a fixed-width text read of `n` bytes at `pos` yields: the bytes up to
/// the first NUL, decoded as UTF-8.
pub open spec fn spec_read_fixed_string(d: Seq<u8>, pos: int, n: int) -> Result<
    Seq<char>,
    CursorError,
> {
    if pos + n > d.len() {
        Err(CursorError::UnexpectedEof)
    } else {
        let t = trim_at_nul(d.subrange(pos, pos + n));
        if valid_utf8(t) {
            Ok(decode_utf8(t))
        } else {
            Err(CursorError::InvalidUtf8)
        }
    }
}

/// What a length-prefixed text read at `pos` yields: a little-endian `u16`
/// byte count followed by that many UTF-8 bytes. Returns the text together
/// with the position after it.
pub open spec fn spec_read_length_prefixed_string(d: Seq<u8>, pos: int) -> Result<
    (Seq<char>, int),
    CursorError,
> {
    if pos + 2 > d.len() {
        Err(CursorError::UnexpectedEof)
    } else if pos + 2 + u16_at(d, pos) > d.len() {
        Err(CursorError::UnexpectedEof)
    } else {
        let b = d.subrange(pos + 2, pos + 2 + u16_at(d, pos));
        if valid_utf8(b) {
            Ok((decode_utf8(b), pos + 2 + u16_at(d, pos)))
        } else {
            Err(CursorError::InvalidUtf8)
        }
    }
}

/// Bounds-checked reader over a borrowed byte buffer.
pub struct Cursor<'a> {
    pub data: &'a [u8],
    pub pos: usize,
}

impl<'a> Cursor<'a> {
    /// The position never runs past the end of the buffer.
    pub open spec fn wf(self) -> bool {
        self.pos <= self.data@.len()
    }

    pub fn new(data: &'a [u8]) -> (c: Cursor<'a>)
        ensures
            c.data@ == data@,
            c.pos == 0,
            c.wf(),
    {
        Cursor { data, pos: 0 }
    }

    pub fn position(&self) -> (p: usize)
        ensures
            p == self.pos,
    {
        self.pos
    }

    /// How many bytes remain between the position and the end of the buffer.
    pub fn remaining(&self) -> (n: usize)
        requires
            self.wf(),
        ensures
            n == self.data@.len() - self.pos,
    {
        self.data.len() - self.pos
    }

    /// Moves the position to `offset`; fails without moving when `offset`
    /// exceeds the buffer length.
    pub fn seek(&mut self, offset: usize) -> (r: Result<(), CursorError>)
        ensures
            final(self).data == old(self).data,
            match r {
                Ok(()) => offset <= old(self).data@.len() && final(self).pos == offset,
                Err(e) => {
                    &&& e == CursorError::OutOfBounds
                    &&& offset > old(self).data@.len()
                    &&& *final(self) == *old(self)
                },
            },
    {
        if offset <= self.data.len() {
            self.pos = offset;
            Ok(())
        } else {
            Err(CursorError::OutOfBounds)
        }
    }

    /// Reads `n` raw bytes and advances; fails without advancing when fewer
    /// than `n` bytes remain.
    pub fn read_bytes(&mut self, n: usize) -> (r: Result<Vec<u8>, CursorError>)
        requires
            old(self).wf(),
        ensures
            final(self).data == old(self).data,
            final(self).wf(),
            match r {
                Ok(v) => {
                    &&& old(self).pos + n <= old(self).data@.len()
                    &&& v@ == old(self).data@.subrange(
                        old(self).pos as int,
                        old(self).pos + n as int,
                    )
                    &&& final(self).pos == old(self).pos + n
                },
                Err(e) => {
                    &&& e == CursorError::UnexpectedEof
                    &&& old(self).pos + n > old(self).data@.len()
                    &&& *final(self) == *old(self)
                },
            },
    {
        if n <= self.data.len() - self.pos {
            let out = slice_to_vec(slice_subrange(self.data, self.pos, self.pos + n));
            self.pos = self.pos + n;
            Ok(out)
        } else {
            Err(CursorError::UnexpectedEof)
        }
    }

    pub fn read_u8(&mut self) -> (r: Result<u8, CursorError>)
        requires
            old(self).wf(),
        ensures
            final(self).data == old(self).data,
            final(self).wf(),
            match r {
                Ok(x) => {
                    &&& old(self).pos + 1 <= old(self).data@.len()
                    &&& x == old(self).data@[old(self).pos as int]
                    &&& final(self).pos == old(self).pos + 1
                },
                Err(e) => {
                    &&& e == CursorError::UnexpectedEof
                    &&& old(self).pos + 1 > old(self).data@.len()
                    &&& *final(self) == *old(self)
                },
            },
    {
        if self.pos < self.data.len() {
            let b = *vstd::slice::slice_index_get(self.data, self.pos);
            self.pos = self.pos + 1;
            Ok(b)
        } else {
            Err(CursorError::UnexpectedEof)
        }
    }

    pub fn read_u16(&mut self) -> (r: Result<u16, CursorError>)
        requires
            old(self).wf(),
        ensures
            final(self).data == old(self).data,
            final(self).wf(),
            match r {
                Ok(x) => {
                    &&& old(self).pos + 2 <= old(self).data@.len()
                    &&& x == u16_at(old(self).data@, old(self).pos as int)
                    &&& final(self).pos == old(self).pos + 2
                },
                Err(e) => {
                    &&& e == CursorError::UnexpectedEof
                    &&& old(self).pos + 2 > old(self).data@.len()
                    &&& *final(self) == *old(self)
                },
            },
    {
        if 2 <= self.data.len() - self.pos {
            let x = u16_from_le_bytes(slice_subrange(self.data, self.pos, self.pos + 2));
            self.pos = self.pos + 2;
            Ok(x)
        } else {
            Err(CursorError::UnexpectedEof)
        }
    }

    pub fn read_u32(&mut self) -> (r: Result<u32, CursorError>)
        requires
            old(self).wf(),
        ensures
            final(self).data == old(self).data,
            final(self).wf(),
            match r {
                Ok(x) => {
                    &&& old(self).pos + 4 <= old(self).data@.len()
                    &&& x == u32_at(old(self).data@, old(self).pos as int)
                    &&& final(self).pos == old(self).pos + 4
                },
                Err(e) => {
                    &&& e == CursorError::UnexpectedEof
                    &&& old(self).pos + 4 > old(self).data@.len()
                    &&& *final(self) == *old(self)
                },
            },
    {
        if 4 <= self.data.len() - self.pos {
            let x = u32_from_le_bytes(slice_subrange(self.data, self.pos, self.pos + 4));
            self.pos = self.pos + 4;
            Ok(x)
        } else {
            Err(CursorError::UnexpectedEof)
        }
    }

    pub fn read_u64(&mut self) -> (r: Result<u64, CursorError>)
        requires
            old(self).wf(),
        ensures
            final(self).data == old(self).data,
            final(self).wf(),
            match r {
                Ok(x) => {
                    &&& old(self).pos + 8 <= old(self).data@.len()
                    &&& x == u64_at(old(self).data@, old(self).pos as int)
                    &&& final(self).pos == old(self).pos + 8
                },
                Err(e) => {
                    &&& e == CursorError::UnexpectedEof
                    &&& old(self).pos + 8 > old(self).data@.len()
                    &&& *final(self) == *old(self)
                },
            },
    {
        if 8 <= self.data.len() - self.pos {
            let x = u64_from_le_bytes(slice_subrange(self.data, self.pos, self.pos + 8));
            self.pos = self.pos + 8;
            Ok(x)
        } else {
            Err(CursorError::UnexpectedEof)
        }
    }

    /// Reads `n` bytes of fixed-width text, trimmed at the first NUL and
    /// decoded as UTF-8.
    pub fn read_fixed_string(&mut self, n: usize) -> (r: Result<String, CursorError>)
        requires
            old(self).wf(),
        ensures
            final(self).data == old(self).data,
            final(self).wf(),
            match r {
                Ok(s) => {
                    &&& spec_read_fixed_string(old(self).data@, old(self).pos as int, n as int)
                        == Ok::<Seq<char>, CursorError>(s@)
                    &&& final(self).pos == old(self).pos + n
                },
                Err(e) => {
                    &&& spec_read_fixed_string(old(self).data@, old(self).pos as int, n as int)
                        == Err::<Seq<char>, CursorError>(e)
                    &&& *final(self) == *old(self)
                },
            },
    {
        let start = self.pos;
        let mut bytes = match self.read_bytes(n) {
            Ok(b) => b,
            Err(e) => {
                return Err(e);
            },
        };
        let mut cut: usize = 0;
        while cut < bytes.len()
            invariant
                cut <= bytes@.len(),
                forall|k: int| 0 <= k < cut ==> bytes@[k] != 0u8,
            ensures
                cut <= bytes@.len(),
                forall|k: int| 0 <= k < cut ==> bytes@[k] != 0u8,
                cut < bytes@.len() ==> bytes@[cut as int] == 0u8,
            decreases bytes@.len() - cut,
        {
            if bytes[cut] == 0u8 {
                break ;
            }
            cut = cut + 1;
        }
        proof {
            bytes@.index_of_first_ensures(0u8);
            assert(bytes@.take(bytes@.len() as int) =~= bytes@);
        }
        bytes.truncate(cut);
        match bytes_to_string(bytes) {
            Some(s) => Ok(s),
            None => {
                self.pos = start;
                Err(CursorError::InvalidUtf8)
            },
        }
    }

    /// Reads a little-endian `u16` byte count followed by that many UTF-8
    /// bytes of text.
    pub fn read_length_prefixed_string(&mut self) -> (r: Result<String, CursorError>)
        requires
            old(self).wf(),
        ensures
            final(self).data == old(self).data,
            final(self).wf(),
            match r {
                Ok(s) => spec_read_length_prefixed_string(old(self).data@, old(self).pos as int)
                    == Ok::<(Seq<char>, int), CursorError>((s@, final(self).pos as int)),
                Err(e) => {
                    &&& spec_read_length_prefixed_string(old(self).data@, old(self).pos as int)
                        == Err::<(Seq<char>, int), CursorError>(e)
                    &&& *final(self) == *old(self)
                },
            },
    {
        let start = self.pos;
        let len = match self.read_u16() {
            Ok(x) => x,
            Err(e) => {
                return Err(e);
            },
        };
        let bytes = match self.read_bytes(len as usize) {
            Ok(b) => b,
            Err(e) => {
                self.pos = start;
                return Err(e);
            },
        };
        match bytes_to_string(bytes) {
            Some(s) => Ok(s),
            None => {
                self.pos = start;
                Err(CursorError::InvalidUtf8)
            },
        }
    }
}

} // verus!
