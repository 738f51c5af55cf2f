//! The chunk-container walker.
//!
//! The decompressed payload is a sequence of chunks, each introduced by a
//! four-byte tag; an all-zero tag ends the container.  A mode byte selects
//! a raw block (sized by a 28-bit length, its payload discarded) or a table
//! block: a gamma-encoded header size, the header (schema), then records
//! until a zero size.  Sparse mode (4) reads an explicit record index;
//! dense mode counts from zero.  Byte accounting is enforced between the
//! declared and the consumed sizes of header and records; two chunk tags
//! are known to carry trailing padding after their records, which is
//! discarded rather than treated as corruption.

use vstd::prelude::*;

use crate::cursor::{s_take, s_u16, s_u8, Cursor};
use crate::gamma::{read_gamma, s_gamma};
use crate::record::{read_root_record, s_record};
use crate::schema::{read_header, root_key, s_header, Schema, SchemaV};
use crate::types::{vv, Fatal, SoftErr, Value, ValueV};

verus! {

/// The all-zero tag that ends the chunk container.
pub open spec fn zero_tag() -> Seq<u8> {
    seq![0u8, 0u8, 0u8, 0u8]
}

/// The two chunk tags known to carry trailing padding after a record.
pub open spec fn quirk_tag(t: Seq<u8>) -> bool {
    t == seq![0x47u8, 0x53u8, 0x44u8, 0x54u8] || t == seq![0x41u8, 0x49u8, 0x50u8, 0x4Cu8]
}

/// The next dense record index: the predecessor plus one, wrapping.
pub open spec fn wrap_inc(i: u32) -> u32 {
    if i == 0xFFFF_FFFFu32 {
        0u32
    } else {
        (i + 1) as u32
    }
}

/// Decoding fuel for one chunk: nesting deeper than the number of tables
/// means the schema is cyclic.
pub open spec fn fuel_of(sch: SchemaV) -> nat {
    if sch.len() >= usize::MAX {
        usize::MAX as nat
    } else {
        (sch.len() + 1) as nat
    }
}

/// The outcome of one record step: the chunk's record list ended, a record
/// slot without payload was skipped, or one record was decoded; each case
/// carries the position after the step.
pub enum StepV {
    End(int),
    Skip(u32, int),
    Rec(u32, ValueV, int),
}

/// Decode one record's payload of declared `size` at `p`: no payload when
/// `size <= 1`; otherwise one root record whose consumed bytes must equal
/// `size - 1`, except that a quirk tag's leftover bytes are discarded.
pub open spec fn s_step_payload(
    s: Seq<u8>,
    p: int,
    sch: SchemaV,
    tag: Seq<u8>,
    idx: u32,
    size: u32,
    fuel: nat,
) -> Result<Result<StepV, SoftErr>, Fatal> {
    if size <= 1 {
        Ok(Ok(StepV::Skip(idx, p)))
    } else {
        match s_record(s, p, sch, root_key(), fuel) {
            Err(e) => Err(e),
            Ok((fs, p2)) => {
                let consumed = p2 - p;
                if consumed == size - 1 {
                    Ok(Ok(StepV::Rec(idx, ValueV::Rec(fs), p2)))
                } else if quirk_tag(tag) && consumed < size - 1 {
                    match s_take(s, p2, size - 1 - consumed) {
                        Err(e) => Err(e),
                        Ok((junk, p3)) => Ok(Ok(StepV::Rec(idx, ValueV::Rec(fs), p3))),
                    }
                } else {
                    Ok(Err(SoftErr::BadRecordSize(tag[0], tag[1], tag[2], tag[3])))
                }
            },
        }
    }
}

/// One record step: a gamma size (zero ends the records), in sparse mode a
/// gamma index whose bytes count against the size, then the payload.
pub open spec fn s_step(
    s: Seq<u8>,
    p: int,
    sch: SchemaV,
    mode: u8,
    tag: Seq<u8>,
    prev: u32,
    fuel: nat,
) -> Result<Result<StepV, SoftErr>, Fatal> {
    match s_gamma(s, p) {
        Err(e) => Err(e),
        Ok((size0, p1)) => if size0 == 0 {
            Ok(Ok(StepV::End(p1)))
        } else if mode == 4 {
            match s_gamma(s, p1) {
                Err(e) => Err(e),
                Ok((idx, p2)) => if size0 < p2 - p1 {
                    Ok(Err(SoftErr::BadRecordSize(tag[0], tag[1], tag[2], tag[3])))
                } else {
                    s_step_payload(s, p2, sch, tag, idx, (size0 - (p2 - p1)) as u32, fuel)
                },
            }
        } else {
            s_step_payload(s, p1, sch, tag, wrap_inc(prev), size0, fuel)
        },
    }
}

/// All records of one chunk from `p`, in stream order.
pub open spec fn s_records(
    s: Seq<u8>,
    p: int,
    sch: SchemaV,
    mode: u8,
    tag: Seq<u8>,
    prev: u32,
    fuel: nat,
) -> Result<Result<(Seq<(u32, ValueV)>, int), SoftErr>, Fatal>
    decreases s.len() - p,
{
    match s_step(s, p, sch, mode, tag, prev, fuel) {
        Err(e) => Err(e),
        Ok(Err(se)) => Ok(Err(se)),
        Ok(Ok(StepV::End(p1))) => Ok(Ok((Seq::empty(), p1))),
        Ok(Ok(StepV::Skip(idx, p1))) => if p < p1 && p1 <= s.len() {
            s_records(s, p1, sch, mode, tag, idx, fuel)
        } else {
            Err(Fatal::EndOfInput)
        },
        Ok(Ok(StepV::Rec(idx, v, p1))) => if p < p1 && p1 <= s.len() {
            match s_records(s, p1, sch, mode, tag, idx, fuel) {
                Err(e) => Err(e),
                Ok(Err(se)) => Ok(Err(se)),
                Ok(Ok((rs, pe))) => Ok(Ok((seq![(idx, v)] + rs, pe))),
            }
        } else {
            Err(Fatal::EndOfInput)
        },
    }
}

/// One whole table block at `p` (just past the tag and mode byte): the
/// declared header size, the header with its byte accounting, the records.
pub open spec fn s_table_chunk(s: Seq<u8>, p: int, mode: u8, tag: Seq<u8>) -> Result<
    Result<(Seq<(u32, ValueV)>, int), SoftErr>,
    Fatal,
> {
    match s_gamma(s, p) {
        Err(e) => Err(e),
        Ok((hs, p3)) => match s_header(s, p3) {
            Err(e) => Err(e),
            Ok((sch, p4)) => if hs >= 1 && p4 - p3 == hs - 1 {
                s_records(s, p4, sch, mode, tag, 0xFFFF_FFFFu32, fuel_of(sch))
            } else {
                Ok(Err(SoftErr::BadHeaderSize))
            },
        },
    }
}

/// One whole chunk step at `p`: the terminator tag ends the container, a
/// raw block is consumed and discarded, a table block yields its records;
/// each case carries the position after the step.
pub enum ChunkStepV {
    End(int),
    Raw(int),
    Table(Seq<u8>, Seq<(u32, ValueV)>, int),
}

/// Read one chunk at `p`: the four-byte tag, then a raw or table block.
pub open spec fn s_chunk_step(s: Seq<u8>, p: int) -> Result<Result<ChunkStepV, SoftErr>, Fatal> {
    match s_take(s, p, 4) {
        Err(e) => Err(e),
        Ok((tag, p1)) => if tag == zero_tag() {
            Ok(Ok(ChunkStepV::End(p1)))
        } else {
            match s_u8(s, p1) {
                Err(e) => Err(e),
                Ok((m, p2)) => if m & 0x0F == 0 {
                    match s_u8(s, p2) {
                        Err(e) => Err(e),
                        Ok((b, p3)) => match s_u16(s, p3) {
                            Err(e) => Err(e),
                            Ok((w, p4)) => {
                                let size = ((m >> 4) as u32) << 24 | (b as u32) << 16 | w as u32;
                                match s_take(s, p4, size as int) {
                                    Err(e) => Err(e),
                                    Ok((junk, p5)) => Ok(Ok(ChunkStepV::Raw(p5))),
                                }
                            },
                        },
                    }
                } else {
                    match s_table_chunk(s, p2, m & 0x0F, tag) {
                        Err(e) => Err(e),
                        Ok(Err(se)) => Ok(Err(se)),
                        Ok(Ok((rs, p5))) => Ok(Ok(ChunkStepV::Table(tag, rs, p5))),
                    }
                },
            }
        },
    }
}

/// All chunks from `p` to the all-zero tag.  Raw blocks are consumed and
/// discarded; each table block contributes its tag and records.
pub open spec fn s_chunks(s: Seq<u8>, p: int) -> Result<
    Result<Seq<(Seq<u8>, Seq<(u32, ValueV)>)>, SoftErr>,
    Fatal,
>
    decreases s.len() - p,
{
    match s_chunk_step(s, p) {
        Err(e) => Err(e),
        Ok(Err(se)) => Ok(Err(se)),
        Ok(Ok(ChunkStepV::End(p1))) => Ok(Ok(Seq::empty())),
        Ok(Ok(ChunkStepV::Raw(p1))) => if p < p1 && p1 <= s.len() {
            s_chunks(s, p1)
        } else {
            Err(Fatal::EndOfInput)
        },
        Ok(Ok(ChunkStepV::Table(tag, rs, p1))) => if p < p1 && p1 <= s.len() {
            match s_chunks(s, p1) {
                Err(e) => Err(e),
                Ok(Err(se)) => Ok(Err(se)),
                Ok(Ok(rest)) => Ok(Ok(seq![(tag, rs)] + rest)),
            }
        } else {
            Err(Fatal::EndOfInput)
        },
    }
}

/// View of one chunk's executable record list.
pub open spec fn recs_view(v: Seq<(u32, Value)>) -> Seq<(u32, ValueV)> {
    v.map_values(|e: (u32, Value)| (e.0, vv(e.1)))
}

/// View of the executable chunk list.
pub open spec fn chunks_view(v: Seq<(Vec<u8>, Vec<(u32, Value)>)>) -> Seq<
    (Seq<u8>, Seq<(u32, ValueV)>),
> {
    v.map_values(|e: (Vec<u8>, Vec<(u32, Value)>)| (e.0@, recs_view(e.1@)))
}

/// Law: byte accounting per record.  Whenever one record step decodes a
/// record, the position after the step sits exactly `size - 1` bytes past
/// the record's gamma-encoded size field, whatever the chunk's tag: a
/// non-quirk tag consumed exactly that, a quirk tag's leftover padding was
/// discarded up to the same boundary.
pub proof fn lemma_record_accounting(
    s: Seq<u8>,
    p: int,
    sch: SchemaV,
    mode: u8,
    tag: Seq<u8>,
    prev: u32,
    fuel: nat,
)
    requires
        (match s_step(s, p, sch, mode, tag, prev, fuel) {
            Ok(Ok(st)) => st is Rec,
            _ => false,
        }),
    ensures
        s_gamma(s, p) is Ok,
        (match (s_step(s, p, sch, mode, tag, prev, fuel), s_gamma(s, p)) {
            (Ok(Ok(StepV::Rec(_idx, _v, p1))), Ok((size0, pg))) => p1 == pg + size0 - 1,
            _ => true,
        }),
{
}

/// Law: byte accounting per header.  Whenever a table block is accepted
/// (its result is neither a fatal nor a reported error), its header
/// consumed exactly the declared size less one: the size's own gamma bytes
/// were consumed before the measurement point.
pub proof fn lemma_header_accounting(s: Seq<u8>, p: int, mode: u8, tag: Seq<u8>)
    requires
        (match s_table_chunk(s, p, mode, tag) {
            Ok(rr) => rr is Ok,
            _ => false,
        }),
    ensures
        (match s_gamma(s, p) {
            Ok((hs, p3)) => {
                &&& hs >= 1
                &&& s_header(s, p3) matches Ok(hp)
                &&& hp.1 - p3 == hs - 1
            },
            _ => false,
        }),
{
}

/// One record step as executed: the record list ended, a slot was skipped,
/// or a record was decoded at the carried index.
pub enum StepE {
    End,
    Skip(u32),
    Rec(u32, Value),
}

/// Read one record step: the size, in sparse mode the index, the payload.
#[verifier::rlimit(60)]
pub fn read_step(
    c: &mut Cursor,
    schema: &Schema,
    mode: u8,
    tag: &Vec<u8>,
    prev: u32,
    fuel: usize,
) -> (r: Result<Result<StepE, SoftErr>, Fatal>)
    requires
        old(c).wf(),
        tag@.len() == 4,
    ensures
        final(c).wf(),
        final(c).data@ == old(c).data@,
        final(c).pos >= old(c).pos,
        (match s_step(old(c).data@, old(c).pos as int, schema@, mode, tag@, prev, fuel as nat) {
            Err(e) => r matches Err(f) && f == e,
            Ok(Err(se)) => {
                &&& r matches Ok(rr)
                &&& rr matches Err(s2)
                &&& s2 == se
            },
            Ok(Ok(st)) => {
                &&& r matches Ok(rr)
                &&& rr matches Ok(ste)
                &&& (match st {
                    StepV::End(p1) => ste is End && final(c).pos == p1,
                    StepV::Skip(i, p1) => {
                        &&& ste matches StepE::Skip(i2)
                        &&& i2 == i
                        &&& final(c).pos == p1
                    },
                    StepV::Rec(i, v, p1) => {
                        &&& ste matches StepE::Rec(i2, ve)
                        &&& i2 == i
                        &&& vv(ve) == v
                        &&& final(c).pos == p1
                    },
                })
            },
        }),
        r matches Ok(rr) && rr is Ok ==> final(c).pos > old(c).pos,
{
    let size0 = match read_gamma(c) {
        Ok(v) => v,
        Err(e) => { return Err(e); },
    };
    if size0 == 0 {
        return Ok(Ok(StepE::End));
    }
    let before_idx: usize = c.pos;
    let (idx, size): (u32, u32) = if mode == 4 {
        let ix = match read_gamma(c) {
            Ok(v) => v,
            Err(e) => { return Err(e); },
        };
        let consumed: u32 = (c.pos - before_idx) as u32;
        if size0 < consumed {
            return Ok(Err(SoftErr::BadRecordSize(tag[0], tag[1], tag[2], tag[3])));
        }
        (ix, size0 - consumed)
    } else {
        let ix: u32 = if prev == 0xFFFF_FFFF {
            0
        } else {
            prev + 1
        };
        (ix, size0)
    };
    if size <= 1 {
        return Ok(Ok(StepE::Skip(idx)));
    }
    let before_rec: usize = c.pos;
    let v = match read_root_record(c, schema, fuel) {
        Ok(v) => v,
        Err(e) => { return Err(e); },
    };
    let consumed_rec: usize = c.pos - before_rec;
    if consumed_rec == (size - 1) as usize {
        return Ok(Ok(StepE::Rec(idx, v)));
    }
    let quirk: bool = (tag[0] == 0x47 && tag[1] == 0x53 && tag[2] == 0x44 && tag[3] == 0x54) || (
    tag[0] == 0x41 && tag[1] == 0x49 && tag[2] == 0x50 && tag[3] == 0x4C);
    proof {
        if quirk {
            if tag@[0] == 0x47 {
                assert(tag@ =~= seq![0x47u8, 0x53u8, 0x44u8, 0x54u8]);
            } else {
                assert(tag@ =~= seq![0x41u8, 0x49u8, 0x50u8, 0x4Cu8]);
            }
        } else {
            assert(tag@ != seq![0x47u8, 0x53u8, 0x44u8, 0x54u8]);
            assert(tag@ != seq![0x41u8, 0x49u8, 0x50u8, 0x4Cu8]);
        }
    }
    if quirk && consumed_rec < (size - 1) as usize {
        let leftover: u32 = (size - 1) - (consumed_rec as u32);
        match c.read_bytes(leftover) {
            Ok(_junk) => {},
            Err(e) => { return Err(e); },
        }
        Ok(Ok(StepE::Rec(idx, v)))
    } else {
        Ok(Err(SoftErr::BadRecordSize(tag[0], tag[1], tag[2], tag[3])))
    }
}

/// The record list view grows by one pushed record, and sequence append
/// re-associates around it.
proof fn rec_push_proof(out: Seq<(u32, Value)>, x: (u32, Value), rest: Seq<(u32, ValueV)>)
    ensures
        recs_view(out.push(x)) == recs_view(out).push((x.0, vv(x.1))),
        recs_view(out) + (seq![(x.0, vv(x.1))] + rest) == recs_view(out).push((x.0, vv(x.1)))
            + rest,
{
    assert(recs_view(out.push(x)) =~= recs_view(out).push((x.0, vv(x.1))));
    assert(recs_view(out) + (seq![(x.0, vv(x.1))] + rest) =~= recs_view(out).push((x.0, vv(x.1)))
        + rest);
}

/// Read all records of one chunk.
#[verifier::loop_isolation(false)]
#[verifier::rlimit(60)]
pub fn read_records(
    c: &mut Cursor,
    schema: &Schema,
    mode: u8,
    tag: &Vec<u8>,
    fuel: usize,
) -> (r: Result<Result<Vec<(u32, Value)>, SoftErr>, Fatal>)
    requires
        old(c).wf(),
        tag@.len() == 4,
    ensures
        final(c).wf(),
        final(c).data@ == old(c).data@,
        final(c).pos >= old(c).pos,
        (match s_records(
            old(c).data@,
            old(c).pos as int,
            schema@,
            mode,
            tag@,
            0xFFFF_FFFFu32,
            fuel as nat,
        ) {
            Err(e) => r matches Err(f) && f == e,
            Ok(Err(se)) => {
                &&& r matches Ok(rr)
                &&& rr matches Err(s2)
                &&& s2 == se
            },
            Ok(Ok(vp)) => {
                &&& r matches Ok(rr)
                &&& rr matches Ok(v)
                &&& recs_view(v@) == vp.0
                &&& final(c).pos == vp.1
            },
        }),
{
    let ghost s = c.data@;
    let ghost p0 = c.pos as int;
    let mut prev: u32 = 0xFFFF_FFFF;
    let mut out: Vec<(u32, Value)> = Vec::new();
    loop
        invariant
            c.wf(),
            c.data@ == s,
            c.pos >= p0,
            (match s_records(s, c.pos as int, schema@, mode, tag@, prev, fuel as nat) {
                Err(e) => s_records(s, p0, schema@, mode, tag@, 0xFFFF_FFFFu32, fuel as nat)
                    == Err::<Result<(Seq<(u32, ValueV)>, int), SoftErr>, Fatal>(e),
                Ok(Err(se)) => s_records(s, p0, schema@, mode, tag@, 0xFFFF_FFFFu32, fuel as nat)
                    == Ok::<Result<(Seq<(u32, ValueV)>, int), SoftErr>, Fatal>(Err(se)),
                Ok(Ok(vp)) => {
                    &&& s_records(s, p0, schema@, mode, tag@, 0xFFFF_FFFFu32, fuel as nat)
                        matches Ok(rr)
                    &&& rr matches Ok(vp0)
                    &&& vp0.0 == recs_view(out@) + vp.0
                    &&& vp0.1 == vp.1
                },
            }),
        decreases s.len() - c.pos,
    {
        let step = match read_step(c, schema, mode, tag, prev, fuel) {
            Ok(rr) => match rr {
                Ok(st) => st,
                Err(se) => { return Ok(Err(se)); },
            },
            Err(e) => { return Err(e); },
        };
        match step {
            StepE::End => {
                proof {
                    assert(recs_view(out@) + Seq::<(u32, ValueV)>::empty() =~= recs_view(out@));
                }
                return Ok(Ok(out));
            },
            StepE::Skip(idx) => {
                prev = idx;
            },
            StepE::Rec(idx, v) => {
                proof {
                    match s_records(s, c.pos as int, schema@, mode, tag@, idx, fuel as nat) {
                        Ok(rr) => match rr {
                            Ok(vp) => { rec_push_proof(out@, (idx, v), vp.0); },
                            _ => { rec_push_proof(out@, (idx, v), Seq::empty()); },
                        },
                        _ => { rec_push_proof(out@, (idx, v), Seq::empty()); },
                    }
                }
                out.push((idx, v));
                prev = idx;
            },
        }
    }
}

/// Read one table block: the header size, the header and its byte
/// accounting, then the records.
pub fn read_table_chunk(c: &mut Cursor, mode: u8, tag: &Vec<u8>) -> (r: Result<
    Result<Vec<(u32, Value)>, SoftErr>,
    Fatal,
>)
    requires
        old(c).wf(),
        tag@.len() == 4,
    ensures
        final(c).wf(),
        final(c).data@ == old(c).data@,
        final(c).pos >= old(c).pos,
        (match s_table_chunk(old(c).data@, old(c).pos as int, mode, tag@) {
            Err(e) => r matches Err(f) && f == e,
            Ok(Err(se)) => {
                &&& r matches Ok(rr)
                &&& rr matches Err(s2)
                &&& s2 == se
            },
            Ok(Ok(vp)) => {
                &&& r matches Ok(rr)
                &&& rr matches Ok(v)
                &&& recs_view(v@) == vp.0
                &&& final(c).pos == vp.1
            },
        }),
{
    let hs = match read_gamma(c) {
        Ok(v) => v,
        Err(e) => { return Err(e); },
    };
    let before_header: usize = c.pos;
    let schema = match read_header(c) {
        Ok(sch) => sch,
        Err(e) => { return Err(e); },
    };
    let consumed: usize = c.pos - before_header;
    if !(hs >= 1 && consumed == (hs - 1) as usize) {
        return Ok(Err(SoftErr::BadHeaderSize));
    }
    let tl: usize = schema.tables.len();
    let fuel: usize = if tl == usize::MAX {
        usize::MAX
    } else {
        tl + 1
    };
    proof {
        assert(schema@.len() == schema.tables@.len());
        assert(fuel as nat == fuel_of(schema@));
    }
    read_records(c, &schema, mode, tag, fuel)
}

/// One chunk step as executed: the container ended, a raw block was
/// consumed and discarded, or a table block's tag and records were read.
pub enum ChunkStepE {
    End,
    Raw,
    Table(Vec<u8>, Vec<(u32, Value)>),
}

/// Read one chunk: the four-byte tag, then a raw or table block.
#[verifier::rlimit(60)]
pub fn read_chunk_step(c: &mut Cursor) -> (r: Result<Result<ChunkStepE, SoftErr>, Fatal>)
    requires
        old(c).wf(),
    ensures
        final(c).wf(),
        final(c).data@ == old(c).data@,
        final(c).pos >= old(c).pos,
        (match s_chunk_step(old(c).data@, old(c).pos as int) {
            Err(e) => r matches Err(f) && f == e,
            Ok(Err(se)) => {
                &&& r matches Ok(rr)
                &&& rr matches Err(s2)
                &&& s2 == se
            },
            Ok(Ok(st)) => {
                &&& r matches Ok(rr)
                &&& rr matches Ok(ste)
                &&& (match st {
                    ChunkStepV::End(p1) => ste is End && final(c).pos == p1,
                    ChunkStepV::Raw(p1) => ste is Raw && final(c).pos == p1,
                    ChunkStepV::Table(tg, rs, p1) => {
                        &&& ste matches ChunkStepE::Table(tg2, recs)
                        &&& tg2@ == tg
                        &&& recs_view(recs@) == rs
                        &&& final(c).pos == p1
                    },
                })
            },
        }),
        r matches Ok(rr) && rr is Ok ==> final(c).pos > old(c).pos,
{
    let tag = match c.read_bytes(4) {
        Ok(t) => t,
        Err(e) => { return Err(e); },
    };
    if tag[0] == 0 && tag[1] == 0 && tag[2] == 0 && tag[3] == 0 {
        proof {
            assert(tag@ =~= zero_tag());
        }
        return Ok(Ok(ChunkStepE::End));
    }
    proof {
        assert(tag@ != zero_tag());
    }
    let m = match c.read_uint8() {
        Ok(b) => b,
        Err(e) => { return Err(e); },
    };
    if m & 0x0F == 0 {
        let b = match c.read_uint8() {
            Ok(b) => b,
            Err(e) => { return Err(e); },
        };
        let w = match c.read_uint16() {
            Ok(w) => w,
            Err(e) => { return Err(e); },
        };
        let size: u32 = ((m >> 4) as u32) << 24 | (b as u32) << 16 | w as u32;
        match c.read_bytes(size) {
            Ok(_junk) => {},
            Err(e) => { return Err(e); },
        }
        Ok(Ok(ChunkStepE::Raw))
    } else {
        let recs = match read_table_chunk(c, m & 0x0F, &tag) {
            Ok(rr) => match rr {
                Ok(v) => v,
                Err(se) => { return Ok(Err(se)); },
            },
            Err(e) => { return Err(e); },
        };
        Ok(Ok(ChunkStepE::Table(tag, recs)))
    }
}

/// The chunk list view grows by one pushed chunk, and sequence append
/// re-associates around it.
proof fn chunk_push_proof(
    out: Seq<(Vec<u8>, Vec<(u32, Value)>)>,
    x: (Vec<u8>, Vec<(u32, Value)>),
    rest: Seq<(Seq<u8>, Seq<(u32, ValueV)>)>,
)
    ensures
        chunks_view(out.push(x)) == chunks_view(out).push((x.0@, recs_view(x.1@))),
        chunks_view(out) + (seq![(x.0@, recs_view(x.1@))] + rest) == chunks_view(out).push(
            (x.0@, recs_view(x.1@)),
        ) + rest,
{
    assert(chunks_view(out.push(x)) =~= chunks_view(out).push((x.0@, recs_view(x.1@))));
    assert(chunks_view(out) + (seq![(x.0@, recs_view(x.1@))] + rest) =~= chunks_view(out).push(
        (x.0@, recs_view(x.1@)),
    ) + rest);
}

/// Walk the whole decompressed payload into its table chunks.
#[verifier::loop_isolation(false)]
#[verifier::rlimit(60)]
pub fn walk_chunks(data: Vec<u8>) -> (r: Result<
    Result<Vec<(Vec<u8>, Vec<(u32, Value)>)>, SoftErr>,
    Fatal,
>)
    ensures
        (match s_chunks(data@, 0) {
            Err(e) => r matches Err(f) && f == e,
            Ok(Err(se)) => {
                &&& r matches Ok(rr)
                &&& rr matches Err(s2)
                &&& s2 == se
            },
            Ok(Ok(cs)) => {
                &&& r matches Ok(rr)
                &&& rr matches Ok(v)
                &&& chunks_view(v@) == cs
            },
        }),
{
    let ghost s = data@;
    let mut c = Cursor::new(data);
    let mut out: Vec<(Vec<u8>, Vec<(u32, Value)>)> = Vec::new();
    loop
        invariant
            c.wf(),
            c.data@ == s,
            (match s_chunks(s, c.pos as int) {
                Err(e) => s_chunks(s, 0) == Err::<
                    Result<Seq<(Seq<u8>, Seq<(u32, ValueV)>)>, SoftErr>,
                    Fatal,
                >(e),
                Ok(Err(se)) => s_chunks(s, 0) == Ok::<
                    Result<Seq<(Seq<u8>, Seq<(u32, ValueV)>)>, SoftErr>,
                    Fatal,
                >(Err(se)),
                Ok(Ok(rest)) => {
                    &&& s_chunks(s, 0) matches Ok(rr)
                    &&& rr matches Ok(all)
                    &&& all == chunks_view(out@) + rest
                },
            }),
        decreases s.len() - c.pos,
    {
        let step = match read_chunk_step(&mut c) {
            Ok(rr) => match rr {
                Ok(st) => st,
                Err(se) => { return Ok(Err(se)); },
            },
            Err(e) => { return Err(e); },
        };
        match step {
            ChunkStepE::End => {
                proof {
                    assert(chunks_view(out@) + Seq::<(Seq<u8>, Seq<(u32, ValueV)>)>::empty()
                        =~= chunks_view(out@));
                }
                return Ok(Ok(out));
            },
            ChunkStepE::Raw => {},
            ChunkStepE::Table(tag, recs) => {
                proof {
                    match s_chunks(s, c.pos as int) {
                        Ok(rr) => match rr {
                            Ok(rest) => { chunk_push_proof(out@, (tag, recs), rest); },
                            _ => { chunk_push_proof(out@, (tag, recs), Seq::empty()); },
                        },
                        _ => { chunk_push_proof(out@, (tag, recs), Seq::empty()); },
                    }
                }
                out.push((tag, recs));
            },
        }
    }
}

} // verus!
