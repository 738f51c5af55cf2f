//! Schema-driven value decoder.
//!
//! Given a schema and a table name, one record is decoded field by field in
//! declared order.  A field's type tag is decoded at a single site into a
//! base type and an is-list flag: the list bit combined with the string
//! base type is reserved and decodes as a plain string, exactly as a tag
//! without the list bit would.  A record-typed field is decoded against the
//! table registered under the field's own name; a missing table is a hard
//! format error.  Nesting deeper than the number of tables only a cyclic
//! schema can produce, and fails rather than recursing forever.

use vstd::prelude::*;

use crate::cursor::{s_take, s_u16, s_u32, s_u64, s_u8, Cursor};
use crate::gamma::{read_gamma, s_gamma};
use crate::schema::{s_lookup, tbl_view, root_key, root_key_bytes, Schema, SchemaV, TableV};
use crate::types::{
    lemma_vv_fields_push, lemma_vv_seq_push, vv, vv_fields, vv_seq, Fatal, Value, ValueV,
};

verus! {

/// The base type held in a tag's low nibble.
pub open spec fn tag_base(tag: u8) -> u8 {
    tag & 0x0F
}

/// Whether a tag marks a list of its base type; the combination of the
/// list bit with the string base type is reserved and not a list.
pub open spec fn tag_is_list(tag: u8) -> bool {
    tag & 0x10 != 0 && tag != 0x1A
}

/// Decode one field of the given base type at `p`: a list when `is_list`,
/// otherwise one scalar, string or nested record.
pub open spec fn s_field(
    s: Seq<u8>,
    p: int,
    sch: SchemaV,
    name: Seq<u8>,
    base: u8,
    is_list: bool,
    fuel: nat,
) -> Result<(ValueV, int), Fatal>
    decreases fuel, 1int, (if is_list { 2int } else { 0int }), 0int,
{
    if is_list {
        match s_gamma(s, p) {
            Err(e) => Err(e),
            Ok((n, p1)) => match s_vals(s, p1, sch, name, base, n as int, fuel) {
                Err(e) => Err(e),
                Ok((vs, p2)) => Ok((ValueV::List(vs), p2)),
            },
        }
    } else if base == 1 {
        match s_u8(s, p) {
            Err(e) => Err(e),
            Ok((b, p1)) => Ok((ValueV::I8(b as i8), p1)),
        }
    } else if base == 2 {
        match s_u8(s, p) {
            Err(e) => Err(e),
            Ok((b, p1)) => Ok((ValueV::U8(b), p1)),
        }
    } else if base == 3 {
        match s_u16(s, p) {
            Err(e) => Err(e),
            Ok((w, p1)) => Ok((ValueV::I16(w as i16), p1)),
        }
    } else if base == 4 {
        match s_u16(s, p) {
            Err(e) => Err(e),
            Ok((w, p1)) => Ok((ValueV::U16(w), p1)),
        }
    } else if base == 5 {
        match s_u32(s, p) {
            Err(e) => Err(e),
            Ok((w, p1)) => Ok((ValueV::I32(w as i32), p1)),
        }
    } else if base == 6 {
        match s_u32(s, p) {
            Err(e) => Err(e),
            Ok((w, p1)) => Ok((ValueV::U32(w), p1)),
        }
    } else if base == 7 {
        match s_u64(s, p) {
            Err(e) => Err(e),
            Ok((w, p1)) => Ok((ValueV::I64(w as i64), p1)),
        }
    } else if base == 8 {
        match s_u64(s, p) {
            Err(e) => Err(e),
            Ok((w, p1)) => Ok((ValueV::U64(w), p1)),
        }
    } else if base == 9 {
        match s_u16(s, p) {
            Err(e) => Err(e),
            Ok((w, p1)) => Ok((ValueV::U16(w), p1)),
        }
    } else if base == 10 {
        match s_gamma(s, p) {
            Err(e) => Err(e),
            Ok((n, p1)) => match s_take(s, p1, n as int) {
                Err(e) => Err(e),
                Ok((b, p2)) => Ok((ValueV::Str(b), p2)),
            },
        }
    } else if base == 11 {
        if fuel == 0 {
            Err(Fatal::TooDeep)
        } else {
            match s_record(s, p, sch, name, (fuel - 1) as nat) {
                Err(e) => Err(e),
                Ok((fs, p1)) => Ok((ValueV::Rec(fs), p1)),
            }
        }
    } else {
        Err(Fatal::BadFieldType)
    }
}

/// Decode `cnt` consecutive values of one base type.
pub open spec fn s_vals(
    s: Seq<u8>,
    p: int,
    sch: SchemaV,
    name: Seq<u8>,
    base: u8,
    cnt: int,
    fuel: nat,
) -> Result<(Seq<ValueV>, int), Fatal>
    decreases fuel, 1int, 1int, cnt,
{
    if cnt <= 0 {
        Ok((Seq::empty(), p))
    } else {
        match s_field(s, p, sch, name, base, false, fuel) {
            Err(e) => Err(e),
            Ok((v, p1)) => match s_vals(s, p1, sch, name, base, cnt - 1, fuel) {
                Err(e) => Err(e),
                Ok((vs, p2)) => Ok((seq![v] + vs, p2)),
            },
        }
    }
}

/// Decode the fields of `fields` from index `i` in declared order.
pub open spec fn s_rec_fields(
    s: Seq<u8>,
    p: int,
    sch: SchemaV,
    fields: TableV,
    i: int,
    fuel: nat,
) -> Result<(Seq<(Seq<u8>, ValueV)>, int), Fatal>
    decreases fuel, 2int, fields.len() - i, 0int,
{
    if i < 0 || i >= fields.len() {
        Ok((Seq::empty(), p))
    } else {
        match s_field(
            s,
            p,
            sch,
            fields[i].0,
            tag_base(fields[i].1),
            tag_is_list(fields[i].1),
            fuel,
        ) {
            Err(e) => Err(e),
            Ok((v, p1)) => match s_rec_fields(s, p1, sch, fields, i + 1, fuel) {
                Err(e) => Err(e),
                Ok((fs, p2)) => Ok((seq![(fields[i].0, v)] + fs, p2)),
            },
        }
    }
}

/// Decode one whole record of the table registered under `key`.
pub open spec fn s_record(
    s: Seq<u8>,
    p: int,
    sch: SchemaV,
    key: Seq<u8>,
    fuel: nat,
) -> Result<(Seq<(Seq<u8>, ValueV)>, int), Fatal>
    decreases fuel, 3int, 0int, 0int,
{
    match s_lookup(sch, key) {
        None => Err(Fatal::MissingTable),
        Some(fields) => s_rec_fields(s, p, sch, fields, 0, fuel),
    }
}

/// Read one field value from the cursor.
#[verifier::loop_isolation(false)]
#[verifier::rlimit(60)]
pub fn read_field(
    c: &mut Cursor,
    schema: &Schema,
    field_name: &Vec<u8>,
    base: u8,
    is_list: bool,
    fuel: usize,
) -> (r: Result<Value, Fatal>)
    requires
        old(c).wf(),
    ensures
        final(c).wf(),
        final(c).data@ == old(c).data@,
        final(c).pos >= old(c).pos,
        (match s_field(
            old(c).data@,
            old(c).pos as int,
            schema@,
            field_name@,
            base,
            is_list,
            fuel as nat,
        ) {
            Ok(vp) => r matches Ok(v) && vv(v) == vp.0 && final(c).pos == vp.1,
            Err(e) => r matches Err(f) && f == e,
        }),
    decreases fuel, 1int, (if is_list { 2int } else { 0int }), 0int,
{
    let ghost s = c.data@;
    if is_list {
        let n = match read_gamma(c) {
            Ok(v) => v,
            Err(e) => { return Err(e); },
        };
        let ghost p1 = c.pos as int;
        let mut items: Vec<Value> = Vec::new();
        let mut i: u32 = 0;
        while i < n
            invariant
                i <= n,
                c.wf(),
                c.data@ == s,
                c.pos >= p1,
                (match s_vals(s, c.pos as int, schema@, field_name@, base, n - i, fuel as nat) {
                    Ok(vp) => {
                        &&& s_vals(s, p1, schema@, field_name@, base, n as int, fuel as nat)
                            matches Ok(vp0)
                        &&& vp0.0 == vv_seq(items@) + vp.0
                        &&& vp0.1 == vp.1
                    },
                    Err(e) => s_vals(s, p1, schema@, field_name@, base, n as int, fuel as nat)
                        == Err::<(Seq<ValueV>, int), Fatal>(e),
                }),
            decreases n - i,
        {
            let v = match read_field(c, schema, field_name, base, false, fuel) {
                Ok(v) => v,
                Err(e) => { return Err(e); },
            };
            proof {
                lemma_vv_seq_push(items@, v);
                match s_vals(s, c.pos as int, schema@, field_name@, base, n - i - 1, fuel as nat) {
                    Ok(vp) => {
                        assert(vv_seq(items@) + (seq![vv(v)] + vp.0) =~= vv_seq(items@).push(
                            vv(v),
                        ) + vp.0);
                    },
                    Err(_) => {},
                }
            }
            items.push(v);
            i = i + 1;
        }
        proof {
            assert(vv_seq(items@) + Seq::<ValueV>::empty() =~= vv_seq(items@));
        }
        Ok(Value::List(items))
    } else if base == 1 {
        match c.read_uint8() {
            Ok(b) => Ok(Value::I8(b as i8)),
            Err(e) => Err(e),
        }
    } else if base == 2 {
        match c.read_uint8() {
            Ok(b) => Ok(Value::U8(b)),
            Err(e) => Err(e),
        }
    } else if base == 3 {
        match c.read_uint16() {
            Ok(w) => Ok(Value::I16(w as i16)),
            Err(e) => Err(e),
        }
    } else if base == 4 {
        match c.read_uint16() {
            Ok(w) => Ok(Value::U16(w)),
            Err(e) => Err(e),
        }
    } else if base == 5 {
        match c.read_uint32() {
            Ok(w) => Ok(Value::I32(w as i32)),
            Err(e) => Err(e),
        }
    } else if base == 6 {
        match c.read_uint32() {
            Ok(w) => Ok(Value::U32(w)),
            Err(e) => Err(e),
        }
    } else if base == 7 {
        match c.read_uint64() {
            Ok(w) => Ok(Value::I64(w as i64)),
            Err(e) => Err(e),
        }
    } else if base == 8 {
        match c.read_uint64() {
            Ok(w) => Ok(Value::U64(w)),
            Err(e) => Err(e),
        }
    } else if base == 9 {
        match c.read_uint16() {
            Ok(w) => Ok(Value::U16(w)),
            Err(e) => Err(e),
        }
    } else if base == 10 {
        let n = match read_gamma(c) {
            Ok(v) => v,
            Err(e) => { return Err(e); },
        };
        match c.read_string(n) {
            Ok(b) => Ok(Value::Str(b)),
            Err(e) => Err(e),
        }
    } else if base == 11 {
        if fuel == 0 {
            Err(Fatal::TooDeep)
        } else {
            match read_record(c, schema, field_name, fuel - 1) {
                Ok(fs) => Ok(Value::Rec(fs)),
                Err(e) => Err(e),
            }
        }
    } else {
        Err(Fatal::BadFieldType)
    }
}

/// Read one record of the table registered under `key`, field by field in
/// declared order; the result's keys are the field names.
#[verifier::loop_isolation(false)]
pub fn read_record(
    c: &mut Cursor,
    schema: &Schema,
    key: &Vec<u8>,
    fuel: usize,
) -> (r: Result<Vec<(Vec<u8>, Value)>, Fatal>)
    requires
        old(c).wf(),
    ensures
        final(c).wf(),
        final(c).data@ == old(c).data@,
        final(c).pos >= old(c).pos,
        (match s_record(old(c).data@, old(c).pos as int, schema@, key@, fuel as nat) {
            Ok(vp) => r matches Ok(fs) && vv_fields(fs@) == vp.0 && final(c).pos == vp.1,
            Err(e) => r matches Err(f) && f == e,
        }),
    decreases fuel, 3int, 0int, 0int,
{
    let ghost s = c.data@;
    let ghost p0 = c.pos as int;
    let fields = match schema.lookup(key) {
        Some(f) => f,
        None => { return Err(Fatal::MissingTable); },
    };
    let ghost fv = tbl_view(fields@);
    let n: usize = fields.len();
    let mut out: Vec<(Vec<u8>, Value)> = Vec::new();
    let mut i: usize = 0;
    while i < n
        invariant
            i <= n,
            n == fields@.len(),
            fv == tbl_view(fields@),
            c.wf(),
            c.data@ == s,
            c.pos >= p0,
            (match s_rec_fields(s, c.pos as int, schema@, fv, i as int, fuel as nat) {
                Ok(vp) => {
                    &&& s_rec_fields(s, p0, schema@, fv, 0, fuel as nat) matches Ok(vp0)
                    &&& vp0.0 == vv_fields(out@) + vp.0
                    &&& vp0.1 == vp.1
                },
                Err(e) => s_rec_fields(s, p0, schema@, fv, 0, fuel as nat) == Err::<
                    (Seq<(Seq<u8>, ValueV)>, int),
                    Fatal,
                >(e),
            }),
        decreases n - i,
    {
        let tag: u8 = fields[i].1;
        let base: u8 = tag & 0x0F;
        let is_list: bool = tag & 0x10 != 0 && tag != 0x1A;
        proof {
            assert(fv[i as int] == (fields@[i as int].0@, fields@[i as int].1));
            assert(base == tag_base(fv[i as int].1));
            assert(is_list == tag_is_list(fv[i as int].1));
        }
        let v = match read_field(c, schema, &fields[i].0, base, is_list, fuel) {
            Ok(v) => v,
            Err(e) => { return Err(e); },
        };
        let name = crate::schema::copy_bytes(&fields[i].0);
        proof {
            lemma_vv_fields_push(out@, (name, v));
            match s_rec_fields(s, c.pos as int, schema@, fv, i + 1, fuel as nat) {
                Ok(vp) => {
                    assert(vv_fields(out@) + (seq![(fv[i as int].0, vv(v))] + vp.0) =~= vv_fields(
                        out@,
                    ).push((name@, vv(v))) + vp.0);
                },
                Err(_) => {},
            }
        }
        out.push((name, v));
        i = i + 1;
    }
    proof {
        assert(vv_fields(out@) + Seq::<(Seq<u8>, ValueV)>::empty() =~= vv_fields(out@));
    }
    Ok(out)
}

/// Read one record of the `root` table.
pub fn read_root_record(c: &mut Cursor, schema: &Schema, fuel: usize) -> (r: Result<Value, Fatal>)
    requires
        old(c).wf(),
    ensures
        final(c).wf(),
        final(c).data@ == old(c).data@,
        final(c).pos >= old(c).pos,
        (match s_record(old(c).data@, old(c).pos as int, schema@, root_key(), fuel as nat) {
            Ok(vp) => r matches Ok(v) && vv(v) == ValueV::Rec(vp.0) && final(c).pos == vp.1,
            Err(e) => r matches Err(f) && f == e,
        }),
{
    let rk = root_key_bytes();
    match read_record(c, schema, &rk, fuel) {
        Ok(fs) => Ok(Value::Rec(fs)),
        Err(e) => Err(e),
    }
}

} // verus!
