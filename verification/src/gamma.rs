//! The "gamma" variable-length unsigned integer codec.
//!
//! One to five bytes encode an unsigned 32-bit value; the high bits of the
//! first byte are a length prefix (`0`, `10`, `110`, `1110`, `11110`).  A
//! first byte of the form `11111xxx` matches no prefix and is a hard format
//! error, since silently continuing would misalign every later read.

use vstd::prelude::*;

use crate::cursor::{s_u16, s_u32, s_u8, Cursor};
use crate::types::Fatal;

verus! {

/// Decode one gamma-encoded value at `p`.
pub open spec fn s_gamma(s: Seq<u8>, p: int) -> Result<(u32, int), Fatal> {
    match s_u8(s, p) {
        Err(e) => Err(e),
        Ok((b0, p1)) => if b0 & 0x80 == 0 {
            Ok((b0 as u32, p1))
        } else if b0 & 0xC0 == 0x80 {
            match s_u8(s, p1) {
                Err(e) => Err(e),
                Ok((b1, p2)) => Ok((((b0 & 0x3F) as u32) << 8 | b1 as u32, p2)),
            }
        } else if b0 & 0xE0 == 0xC0 {
            match s_u16(s, p1) {
                Err(e) => Err(e),
                Ok((w, p2)) => Ok((((b0 & 0x1F) as u32) << 16 | w as u32, p2)),
            }
        } else if b0 & 0xF0 == 0xE0 {
            match s_u16(s, p1) {
                Err(e) => Err(e),
                Ok((w, p2)) => match s_u8(s, p2) {
                    Err(e) => Err(e),
                    Ok((b3, p3)) => Ok(
                        (((b0 & 0x0F) as u32) << 24 | (w as u32) << 8 | b3 as u32, p3),
                    ),
                },
            }
        } else if b0 & 0xF8 == 0xF0 {
            s_u32(s, p1)
        } else {
            Err(Fatal::BadGamma)
        },
    }
}

/// The canonical (shortest) gamma encoding of a 32-bit value.
pub open spec fn gamma_bytes(v: u32) -> Seq<u8> {
    if v < 0x80 {
        seq![v as u8]
    } else if v < 0x4000 {
        seq![(0x80 | (v >> 8)) as u8, v as u8]
    } else if v < 0x20_0000 {
        seq![(0xC0 | (v >> 16)) as u8, (v >> 8) as u8, v as u8]
    } else if v < 0x1000_0000 {
        seq![(0xE0 | (v >> 24)) as u8, (v >> 16) as u8, (v >> 8) as u8, v as u8]
    } else {
        seq![0xF0u8, (v >> 24) as u8, (v >> 16) as u8, (v >> 8) as u8, v as u8]
    }
}

/// Read one gamma-encoded value from the cursor.
pub fn read_gamma(c: &mut Cursor) -> (r: Result<u32, Fatal>)
    requires
        old(c).wf(),
    ensures
        final(c).wf(),
        final(c).data@ == old(c).data@,
        final(c).pos >= old(c).pos,
        (match s_gamma(old(c).data@, old(c).pos as int) {
            Ok(vp) => r == Ok::<u32, Fatal>(vp.0) && final(c).pos == vp.1,
            Err(e) => r == Err::<u32, Fatal>(e),
        }),
{
    let b0 = match c.read_uint8() {
        Ok(b) => b,
        Err(e) => { return Err(e); },
    };
    if b0 & 0x80 == 0 {
        Ok(b0 as u32)
    } else if b0 & 0xC0 == 0x80 {
        let b1 = match c.read_uint8() {
            Ok(b) => b,
            Err(e) => { return Err(e); },
        };
        Ok(((b0 & 0x3F) as u32) << 8 | b1 as u32)
    } else if b0 & 0xE0 == 0xC0 {
        let w = match c.read_uint16() {
            Ok(w) => w,
            Err(e) => { return Err(e); },
        };
        Ok(((b0 & 0x1F) as u32) << 16 | w as u32)
    } else if b0 & 0xF0 == 0xE0 {
        let w = match c.read_uint16() {
            Ok(w) => w,
            Err(e) => { return Err(e); },
        };
        let b3 = match c.read_uint8() {
            Ok(b) => b,
            Err(e) => { return Err(e); },
        };
        Ok(((b0 & 0x0F) as u32) << 24 | (w as u32) << 8 | b3 as u32)
    } else if b0 & 0xF8 == 0xF0 {
        c.read_uint32()
    } else {
        Err(Fatal::BadGamma)
    }
}

/// Produce the canonical gamma encoding of `v`.
pub fn encode_gamma(v: u32) -> (r: Vec<u8>)
    ensures
        r@ == gamma_bytes(v),
{
    let mut out: Vec<u8> = Vec::new();
    if v < 0x80 {
        out.push(v as u8);
    } else if v < 0x4000 {
        out.push(0x80 | (v >> 8) as u8);
        out.push(v as u8);
        proof {
            assert((0x80 | (v >> 8) as u8) == (0x80 | (v >> 8)) as u8) by (bit_vector)
                requires v < 0x4000u32;
        }
    } else if v < 0x20_0000 {
        out.push(0xC0 | (v >> 16) as u8);
        out.push((v >> 8) as u8);
        out.push(v as u8);
        proof {
            assert((0xC0 | (v >> 16) as u8) == (0xC0 | (v >> 16)) as u8) by (bit_vector)
                requires v < 0x20_0000u32;
        }
    } else if v < 0x1000_0000 {
        out.push(0xE0 | (v >> 24) as u8);
        out.push((v >> 16) as u8);
        out.push((v >> 8) as u8);
        out.push(v as u8);
        proof {
            assert((0xE0 | (v >> 24) as u8) == (0xE0 | (v >> 24)) as u8) by (bit_vector)
                requires v < 0x1000_0000u32;
        }
    } else {
        out.push(0xF0);
        out.push((v >> 24) as u8);
        out.push((v >> 16) as u8);
        out.push((v >> 8) as u8);
        out.push(v as u8);
    }
    proof {
        assert(out@ =~= gamma_bytes(v));
    }
    out
}

/// Law: the gamma codec round-trips.  Wherever the canonical encoding of a
/// value sits in a buffer, decoding from its first byte yields that value
/// back and consumes exactly the encoding's bytes, at every prefix tier.
pub proof fn lemma_gamma_round_trip(s: Seq<u8>, p: int, v: u32)
    requires
        0 <= p,
        p + gamma_bytes(v).len() <= s.len(),
        s.subrange(p, p + gamma_bytes(v).len() as int) == gamma_bytes(v),
    ensures
        s_gamma(s, p) == Ok::<(u32, int), Fatal>((v, p + gamma_bytes(v).len())),
{
    let g = gamma_bytes(v);
    let n = g.len() as int;
    assert(forall|i: int| 0 <= i < n ==> s[p + i] == #[trigger] g[i]) by {
        assert(forall|i: int| 0 <= i < n ==> #[trigger] s.subrange(p, p + n)[i] == s[p + i]);
    }
    if v < 0x80 {
        assert(s[p] == g[0] && g[0] == v as u8);
        assert((v as u8) & 0x80 == 0 && (v as u8) as u32 == v) by (bit_vector)
            requires v < 0x80u32;
    } else if v < 0x4000 {
        let b0 = (0x80 | (v >> 8)) as u8;
        let b1 = v as u8;
        assert(s[p] == g[0] && s[p + 1] == g[1]);
        assert(g[0] == b0 && g[1] == b1);
        assert({
            &&& b0 & 0x80 != 0
            &&& b0 & 0xC0 == 0x80
            &&& ((b0 & 0x3F) as u32) << 8 | b1 as u32 == v
        }) by (bit_vector)
            requires b0 == (0x80 | (v >> 8)) as u8, b1 == v as u8, 0x80u32 <= v < 0x4000u32;
    } else if v < 0x20_0000 {
        let b0 = (0xC0 | (v >> 16)) as u8;
        let b1 = (v >> 8) as u8;
        let b2 = v as u8;
        assert(s[p] == g[0] && s[p + 1] == g[1] && s[p + 2] == g[2]);
        assert(g[0] == b0 && g[1] == b1 && g[2] == b2);
        assert({
            &&& b0 & 0x80 != 0
            &&& b0 & 0xC0 != 0x80
            &&& b0 & 0xE0 == 0xC0
            &&& ((b0 & 0x1F) as u32) << 16 | ((b1 as u16) << 8 | b2 as u16) as u32 == v
        }) by (bit_vector)
            requires
                b0 == (0xC0 | (v >> 16)) as u8,
                b1 == (v >> 8) as u8,
                b2 == v as u8,
                0x4000u32 <= v < 0x20_0000u32;
    } else if v < 0x1000_0000 {
        let b0 = (0xE0 | (v >> 24)) as u8;
        let b1 = (v >> 16) as u8;
        let b2 = (v >> 8) as u8;
        let b3 = v as u8;
        assert(s[p] == g[0] && s[p + 1] == g[1] && s[p + 2] == g[2] && s[p + 3] == g[3]);
        assert(g[0] == b0 && g[1] == b1 && g[2] == b2 && g[3] == b3);
        assert({
            &&& b0 & 0x80 != 0
            &&& b0 & 0xC0 != 0x80
            &&& b0 & 0xE0 != 0xC0
            &&& b0 & 0xF0 == 0xE0
            &&& ((b0 & 0x0F) as u32) << 24 | (((b1 as u16) << 8 | b2 as u16) as u32) << 8
                | b3 as u32 == v
        }) by (bit_vector)
            requires
                b0 == (0xE0 | (v >> 24)) as u8,
                b1 == (v >> 16) as u8,
                b2 == (v >> 8) as u8,
                b3 == v as u8,
                0x20_0000u32 <= v < 0x1000_0000u32;
    } else {
        let b0 = 0xF0u8;
        let b1 = (v >> 24) as u8;
        let b2 = (v >> 16) as u8;
        let b3 = (v >> 8) as u8;
        let b4 = v as u8;
        assert(s[p] == g[0] && s[p + 1] == g[1] && s[p + 2] == g[2] && s[p + 3] == g[3] && s[p + 4] == g[4]);
        assert(g[0] == b0 && g[1] == b1 && g[2] == b2 && g[3] == b3 && g[4] == b4);
        assert({
            &&& b0 & 0x80 != 0
            &&& b0 & 0xC0 != 0x80
            &&& b0 & 0xE0 != 0xC0
            &&& b0 & 0xF0 != 0xE0
            &&& b0 & 0xF8 == 0xF0
            &&& ((((b1 as u16) << 8 | b2 as u16) as u32) << 16
                | ((b3 as u16) << 8 | b4 as u16) as u32) == v
        }) by (bit_vector)
            requires
                b0 == 0xF0u8,
                b1 == (v >> 24) as u8,
                b2 == (v >> 16) as u8,
                b3 == (v >> 8) as u8,
                b4 == v as u8,
                0x1000_0000u32 <= v;
    }
}

} // verus!
