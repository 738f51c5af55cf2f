//! Sequential big-endian reader over an immutable byte buffer.
//!
//! The cursor is the sole source of end-of-input failures: every primitive
//! read fails with `Fatal::EndOfInput` when too few bytes remain, and never
//! yields a default value.  Each executable read is pinned to a spec-level
//! reading function over `(bytes, position)`.

use vstd::prelude::*;

use crate::types::Fatal;

verus! {

/// Read one byte at `p`, or fail at the end of the buffer.
pub open spec fn s_u8(s: Seq<u8>, p: int) -> Result<(u8, int), Fatal> {
    if 0 <= p && p < s.len() {
        Ok((s[p], p + 1))
    } else {
        Err(Fatal::EndOfInput)
    }
}

/// Read a big-endian 16-bit value: most significant byte first.
pub open spec fn s_u16(s: Seq<u8>, p: int) -> Result<(u16, int), Fatal> {
    match s_u8(s, p) {
        Err(e) => Err(e),
        Ok((b0, p1)) => match s_u8(s, p1) {
            Err(e) => Err(e),
            Ok((b1, p2)) => Ok((((b0 as u16) << 8 | b1 as u16), p2)),
        },
    }
}

/// Read a big-endian 32-bit value as two 16-bit reads.
pub open spec fn s_u32(s: Seq<u8>, p: int) -> Result<(u32, int), Fatal> {
    match s_u16(s, p) {
        Err(e) => Err(e),
        Ok((w0, p1)) => match s_u16(s, p1) {
            Err(e) => Err(e),
            Ok((w1, p2)) => Ok((((w0 as u32) << 16 | w1 as u32), p2)),
        },
    }
}

/// Read a big-endian 64-bit value as two 32-bit reads.
pub open spec fn s_u64(s: Seq<u8>, p: int) -> Result<(u64, int), Fatal> {
    match s_u32(s, p) {
        Err(e) => Err(e),
        Ok((w0, p1)) => match s_u32(s, p1) {
            Err(e) => Err(e),
            Ok((w1, p2)) => Ok((((w0 as u64) << 32 | w1 as u64), p2)),
        },
    }
}

/// Consume `n` bytes and return them.
pub open spec fn s_take(s: Seq<u8>, p: int, n: int) -> Result<(Seq<u8>, int), Fatal> {
    if 0 <= p && 0 <= n && p + n <= s.len() {
        Ok((s.subrange(p, p + n), p + n))
    } else {
        Err(Fatal::EndOfInput)
    }
}

/// An exclusively-owned read position over a finite byte buffer; the
/// position only moves forward and never passes the end.
pub struct Cursor {
    pub data: Vec<u8>,
    pub pos: usize,
}

impl Cursor {
    /// Position within bounds.
    pub open spec fn wf(&self) -> bool {
        self.pos <= self.data@.len()
    }

    pub fn new(data: Vec<u8>) -> (c: Cursor)
        ensures
            c.data@ == data@,
            c.pos == 0,
            c.wf(),
    {
        Cursor { data, pos: 0 }
    }

    /// How many bytes remain to be read.
    pub fn remaining(&self) -> (r: usize)
        requires
            self.wf(),
        ensures
            r == self.data@.len() - self.pos,
    {
        self.data.len() - self.pos
    }

    pub fn read_uint8(&mut self) -> (r: Result<u8, Fatal>)
        requires
            old(self).wf(),
        ensures
            final(self).wf(),
            final(self).data@ == old(self).data@,
            final(self).pos >= old(self).pos,
            (match s_u8(old(self).data@, old(self).pos as int) {
                Ok(vp) => r == Ok::<u8, Fatal>(vp.0) && final(self).pos == vp.1,
                Err(e) => r == Err::<u8, Fatal>(e),
            }),
    {
        if self.pos < self.data.len() {
            let b: u8 = self.data[self.pos];
            self.pos = self.pos + 1;
            Ok(b)
        } else {
            Err(Fatal::EndOfInput)
        }
    }

    pub fn read_uint16(&mut self) -> (r: Result<u16, Fatal>)
        requires
            old(self).wf(),
        ensures
            final(self).wf(),
            final(self).data@ == old(self).data@,
            final(self).pos >= old(self).pos,
            (match s_u16(old(self).data@, old(self).pos as int) {
                Ok(vp) => r == Ok::<u16, Fatal>(vp.0) && final(self).pos == vp.1,
                Err(e) => r == Err::<u16, Fatal>(e),
            }),
    {
        let b0 = match self.read_uint8() {
            Ok(b) => b,
            Err(e) => { return Err(e); },
        };
        let b1 = match self.read_uint8() {
            Ok(b) => b,
            Err(e) => { return Err(e); },
        };
        Ok((b0 as u16) << 8 | b1 as u16)
    }

    pub fn read_uint32(&mut self) -> (r: Result<u32, Fatal>)
        requires
            old(self).wf(),
        ensures
            final(self).wf(),
            final(self).data@ == old(self).data@,
            final(self).pos >= old(self).pos,
            (match s_u32(old(self).data@, old(self).pos as int) {
                Ok(vp) => r == Ok::<u32, Fatal>(vp.0) && final(self).pos == vp.1,
                Err(e) => r == Err::<u32, Fatal>(e),
            }),
    {
        let w0 = match self.read_uint16() {
            Ok(w) => w,
            Err(e) => { return Err(e); },
        };
        let w1 = match self.read_uint16() {
            Ok(w) => w,
            Err(e) => { return Err(e); },
        };
        Ok((w0 as u32) << 16 | w1 as u32)
    }

    pub fn read_uint64(&mut self) -> (r: Result<u64, Fatal>)
        requires
            old(self).wf(),
        ensures
            final(self).wf(),
            final(self).data@ == old(self).data@,
            final(self).pos >= old(self).pos,
            (match s_u64(old(self).data@, old(self).pos as int) {
                Ok(vp) => r == Ok::<u64, Fatal>(vp.0) && final(self).pos == vp.1,
                Err(e) => r == Err::<u64, Fatal>(e),
            }),
    {
        let w0 = match self.read_uint32() {
            Ok(w) => w,
            Err(e) => { return Err(e); },
        };
        let w1 = match self.read_uint32() {
            Ok(w) => w,
            Err(e) => { return Err(e); },
        };
        Ok((w0 as u64) << 32 | w1 as u64)
    }

    /// Consume `size` bytes and return them.
    #[verifier::loop_isolation(false)]
    pub fn read_bytes(&mut self, size: u32) -> (r: Result<Vec<u8>, Fatal>)
        requires
            old(self).wf(),
        ensures
            final(self).wf(),
            final(self).data@ == old(self).data@,
            final(self).pos >= old(self).pos,
            (match s_take(old(self).data@, old(self).pos as int, size as int) {
                Ok(vp) => {
                    &&& r matches Ok(v) && v@ == vp.0
                    &&& final(self).pos == vp.1
                },
                Err(e) => r == Err::<Vec<u8>, Fatal>(e) && final(self).pos == old(self).pos,
            }),
    {
        let n: usize = size as usize;
        if n <= self.data.len() - self.pos {
            let start: usize = self.pos;
            let dlen: usize = self.data.len();
            let mut out: Vec<u8> = Vec::new();
            let mut i: usize = 0;
            while i < n
                invariant
                    i <= n,
                    start + n <= dlen,
                    dlen == self.data@.len(),
                    self.pos == start,
                    self.wf(),
                    out@ == self.data@.subrange(start as int, start + i),
                decreases n - i,
            {
                let b: u8 = self.data[start + i];
                out.push(b);
                i = i + 1;
                proof {
                    assert(out@ =~= self.data@.subrange(start as int, start + i));
                }
            }
            self.pos = start + n;
            Ok(out)
        } else {
            Err(Fatal::EndOfInput)
        }
    }

    /// Consume `size` bytes as a legacy one-byte-per-character string; the
    /// raw bytes are returned and map one to one onto characters.
    pub fn read_string(&mut self, size: u32) -> (r: Result<Vec<u8>, Fatal>)
        requires
            old(self).wf(),
        ensures
            final(self).wf(),
            final(self).data@ == old(self).data@,
            final(self).pos >= old(self).pos,
            (match s_take(old(self).data@, old(self).pos as int, size as int) {
                Ok(vp) => {
                    &&& r matches Ok(v) && v@ == vp.0
                    &&& final(self).pos == vp.1
                },
                Err(e) => r == Err::<Vec<u8>, Fatal>(e) && final(self).pos == old(self).pos,
            }),
    {
        self.read_bytes(size)
    }
}

} // verus!
