//! The decoder facade.
//!
//! The input starts with an eight-byte envelope: a four-byte marker, a
//! big-endian format revision and two reserved bytes.  A wrong marker or a
//! revision below the oldest supported one yields a reported (soft) error
//! result without touching the compressed payload.  Otherwise the bytes
//! after the envelope are decompressed and the chunk walker runs over
//! them; a reported error inside the walker discards any chunks collected
//! so far, while grammar-level failures abort the call as `Err`.

use vstd::prelude::*;

use crate::types::{Fatal, SoftErr, Value, ValueV};
use crate::walker::{chunks_view, s_chunks, walk_chunks};

verus! {

/// The only supported envelope marker.
pub open spec fn marker() -> Seq<u8> {
    seq![0x4Fu8, 0x54u8, 0x54u8, 0x58u8]
}

/// The oldest format revision that carries embedded schemas.
pub const MIN_REVISION: u16 = 295;

/// What decompressing an xz stream yields: the decompressed bytes, or
/// nothing when the stream is corrupt.
pub uninterp spec fn xz_inflate(compressed: Seq<u8>) -> Option<Seq<u8>>;

/// Relies on lzma_rs::xz_decompress: inflating an xz stream either fails
/// on a corrupt stream or yields bytes that are a function of the input
/// bytes alone, named `xz_inflate`.
#[verifier::external_body]
fn xz_decompress_tail(data: &Vec<u8>, start: usize) -> (r: Option<Vec<u8>>)
    requires
        start <= data@.len(),
    ensures
        (match r {
            Some(d) => xz_inflate(data@.skip(start as int)) == Some(d@),
            None => xz_inflate(data@.skip(start as int)) is None,
        }),
{
    let mut input = &data[start..];
    let mut out: Vec<u8> = Vec::new();
    match lzma_rs::xz_decompress(&mut input, &mut out) {
        Ok(()) => Some(out),
        Err(_) => None,
    }
}

/// The mathematical shape of a decode result.
pub struct SavegameV {
    pub error: Option<SoftErr>,
    pub revision: u16,
    pub chunks: Seq<(Seq<u8>, Seq<(u32, ValueV)>)>,
}

/// The decode result: an error report (absent on success), the envelope's
/// format revision, and each table chunk's records keyed by tag.
#[derive(Debug, PartialEq)]
pub struct Savegame {
    pub error: Option<SoftErr>,
    pub revision: u16,
    pub chunks: Vec<(Vec<u8>, Vec<(u32, Value)>)>,
}

impl View for Savegame {
    type V = SavegameV;

    open spec fn view(&self) -> SavegameV {
        SavegameV { error: self.error, revision: self.revision, chunks: chunks_view(self.chunks@) }
    }
}

/// The whole decode as a function of the input bytes.
pub open spec fn s_decode(input: Seq<u8>) -> Result<SavegameV, Fatal> {
    if input.len() < 8 {
        Err(Fatal::EndOfInput)
    } else {
        let rev = (input[4] as u16) << 8 | input[5] as u16;
        if input.subrange(0, 4) != marker() {
            Ok(
                SavegameV {
                    error: Some(
                        SoftErr::UnsupportedMarker(input[0], input[1], input[2], input[3]),
                    ),
                    revision: 0,
                    chunks: Seq::empty(),
                },
            )
        } else if rev < MIN_REVISION {
            Ok(SavegameV { error: Some(SoftErr::TooOld), revision: rev, chunks: Seq::empty() })
        } else {
            match xz_inflate(input.skip(8)) {
                None => Err(Fatal::Decompress),
                Some(d) => match s_chunks(d, 0) {
                    Err(e) => Err(e),
                    Ok(Err(se)) => Ok(
                        SavegameV { error: Some(se), revision: rev, chunks: Seq::empty() },
                    ),
                    Ok(Ok(cs)) => Ok(SavegameV { error: None, revision: rev, chunks: cs }),
                },
            }
        }
    }
}

/// Decode one whole savegame buffer.
///
/// A reported (soft) error is returned as data inside `Ok`; an input that
/// breaks the format's own grammar (truncation, an unknown gamma prefix or
/// field type, a missing table, a corrupt compressed stream) fails the
/// call with `Err`.
pub fn decompress(data: &Vec<u8>) -> (r: Result<Savegame, Fatal>)
    ensures
        (match s_decode(data@) {
            Ok(sv) => r matches Ok(sg) && sg@ == sv,
            Err(e) => r matches Err(f) && f == e,
        }),
{
    if data.len() < 8 {
        return Err(Fatal::EndOfInput);
    }
    let m0 = data[0];
    let m1 = data[1];
    let m2 = data[2];
    let m3 = data[3];
    let revision: u16 = (data[4] as u16) << 8 | data[5] as u16;
    proof {
        assert(chunks_view(Seq::<(Vec<u8>, Vec<(u32, Value)>)>::empty()) =~= Seq::<
            (Seq<u8>, Seq<(u32, ValueV)>),
        >::empty());
        assert(data@.subrange(0, 4)[0] == m0 && data@.subrange(0, 4)[1] == m1 && data@.subrange(
            0,
            4,
        )[2] == m2 && data@.subrange(0, 4)[3] == m3);
    }
    if !(m0 == 0x4F && m1 == 0x54 && m2 == 0x54 && m3 == 0x58) {
        proof {
            assert(data@.subrange(0, 4) != marker());
        }
        return Ok(
            Savegame {
                error: Some(SoftErr::UnsupportedMarker(m0, m1, m2, m3)),
                revision: 0,
                chunks: Vec::new(),
            },
        );
    }
    proof {
        assert(data@.subrange(0, 4) =~= marker());
    }
    if revision < MIN_REVISION {
        return Ok(
            Savegame { error: Some(SoftErr::TooOld), revision, chunks: Vec::new() },
        );
    }
    let d = match xz_decompress_tail(data, 8) {
        Some(d) => d,
        None => { return Err(Fatal::Decompress); },
    };
    match walk_chunks(d) {
        Err(e) => Err(e),
        Ok(rr) => match rr {
            Err(se) => Ok(
                Savegame { error: Some(se), revision, chunks: Vec::new() },
            ),
            Ok(chunks) => Ok(Savegame { error: None, revision, chunks }),
        },
    }
}

/// Law: envelope gating.  On any buffer holding a full envelope, a
/// non-matching marker yields a reported error carrying the marker bytes
/// found, with default revision and no chunks; a matching marker with a
/// revision below the oldest supported one yields a reported too-old
/// error keeping that revision.  Neither outcome is fatal, and neither
/// depends on `xz_inflate`: the compressed payload is never consulted.
pub proof fn lemma_envelope_gating(input: Seq<u8>)
    requires
        input.len() >= 8,
    ensures
        input.subrange(0, 4) != marker() ==> s_decode(input) == Ok::<SavegameV, Fatal>(
            (SavegameV {
                error: Some(SoftErr::UnsupportedMarker(input[0], input[1], input[2], input[3])),
                revision: 0,
                chunks: Seq::empty(),
            }),
        ),
        (input.subrange(0, 4) == marker() && ((input[4] as u16) << 8 | input[5] as u16)
            < MIN_REVISION) ==> s_decode(input) == Ok::<SavegameV, Fatal>(
            (SavegameV {
                error: Some(SoftErr::TooOld),
                revision: ((input[4] as u16) << 8 | input[5] as u16),
                chunks: Seq::empty(),
            }),
        ),
        input.subrange(0, 4) != marker() || ((input[4] as u16) << 8 | input[5] as u16)
            < MIN_REVISION ==> s_decode(input) is Ok,
{
}

} // verus!
