//! Recursive schema (header-table) parser.
//!
//! A table chunk starts with a header: an outer field list, then, for every
//! field tagged "list of nested record", one nested table, discovered
//! recursively in declaration order.  The schema maps table names to field
//! lists; the outer table is registered under the name `root`, a nested
//! table under the name of the field that introduced it (a later
//! registration of the same name wins).

use vstd::prelude::*;

use crate::cursor::{s_take, s_u8, Cursor};
use crate::gamma::{read_gamma, s_gamma};
use crate::types::Fatal;

verus! {

/// The type tag that marks a field as a list of nested records.
pub const LIST_OF_RECORD: u8 = 27;

/// One field: its name's bytes and its raw type tag.
pub type TableV = Seq<(Seq<u8>, u8)>;

/// The schema: table names to field lists, in registration order.
pub type SchemaV = Seq<(Seq<u8>, TableV)>;

/// The name under which the outer table is registered.
pub open spec fn root_key() -> Seq<u8> {
    seq![0x72u8, 0x6Fu8, 0x6Fu8, 0x74u8]
}

/// View of one executable field list.
pub open spec fn tbl_view(t: Seq<(Vec<u8>, u8)>) -> TableV {
    t.map_values(|f: (Vec<u8>, u8)| (f.0@, f.1))
}

/// View of the executable schema's table list.
pub open spec fn sch_view(t: Seq<(Vec<u8>, Vec<(Vec<u8>, u8)>)>) -> SchemaV {
    t.map_values(|e: (Vec<u8>, Vec<(Vec<u8>, u8)>)| (e.0@, tbl_view(e.1@)))
}

/// Parse one field list at `p`: a type tag of zero ends the list, any other
/// tag is followed by a gamma-encoded name length and the name's bytes.
pub open spec fn s_table(s: Seq<u8>, p: int) -> Result<(TableV, int), Fatal>
    decreases s.len() - p,
{
    match s_u8(s, p) {
        Err(e) => Err(e),
        Ok((tag, p1)) => if tag == 0 {
            Ok((Seq::empty(), p1))
        } else {
            match s_gamma(s, p1) {
                Err(e) => Err(e),
                Ok((n, p2)) => match s_take(s, p2, n as int) {
                    Err(e) => Err(e),
                    Ok((name, p3)) => if p < p3 && p3 <= s.len() {
                        match s_table(s, p3) {
                            Err(e) => Err(e),
                            Ok((rest, p4)) => Ok((seq![(name, tag)] + rest, p4)),
                        }
                    } else {
                        Err(Fatal::EndOfInput)
                    },
                },
            }
        },
    }
}

/// Walk `fields` from index `i`; every field tagged list-of-record owns the
/// next nested table in the stream, whose own subtables are discovered
/// first; the nested table is then registered under the field's name.
pub open spec fn s_subtables(
    s: Seq<u8>,
    p: int,
    fields: TableV,
    i: int,
    acc: SchemaV,
) -> Result<(SchemaV, int), Fatal>
    decreases s.len() - p, fields.len() - i,
{
    if i < 0 || i >= fields.len() {
        Ok((acc, p))
    } else if fields[i].1 == LIST_OF_RECORD {
        match s_table(s, p) {
            Err(e) => Err(e),
            Ok((t, p1)) => if p < p1 && p1 <= s.len() {
                match s_subtables(s, p1, t, 0, acc) {
                    Err(e) => Err(e),
                    Ok((acc2, p2)) => if p1 <= p2 && p2 <= s.len() {
                        s_subtables(s, p2, fields, i + 1, acc2.push((fields[i].0, t)))
                    } else {
                        Err(Fatal::EndOfInput)
                    },
                }
            } else {
                Err(Fatal::EndOfInput)
            },
        }
    } else {
        s_subtables(s, p, fields, i + 1, acc)
    }
}

/// Parse a whole header: the outer table, then its subtables; the outer
/// table is registered last, under `root`.
pub open spec fn s_header(s: Seq<u8>, p: int) -> Result<(SchemaV, int), Fatal> {
    match s_table(s, p) {
        Err(e) => Err(e),
        Ok((t, p1)) => if p < p1 && p1 <= s.len() {
            match s_subtables(s, p1, t, 0, Seq::empty()) {
                Err(e) => Err(e),
                Ok((acc, p2)) => Ok((acc.push((root_key(), t)), p2)),
            }
        } else {
            Err(Fatal::EndOfInput)
        },
    }
}

/// Find the table registered under `name`; the latest registration wins.
pub open spec fn s_lookup(sch: SchemaV, name: Seq<u8>) -> Option<TableV>
    decreases sch.len(),
{
    if sch.len() == 0 {
        None
    } else if sch.last().0 == name {
        Some(sch.last().1)
    } else {
        s_lookup(sch.drop_last(), name)
    }
}

/// Law: header parsing is idempotent on well-formed input.  `s_header` is
/// a function of the bytes and the position alone, so parsing the same
/// header bytes twice, from fresh cursors, yields structurally equal
/// schemas; every successful `read_header` returns exactly this value.
pub proof fn lemma_header_deterministic(s1: Seq<u8>, p1: int, s2: Seq<u8>, p2: int)
    requires
        s1 == s2,
        p1 == p2,
    ensures
        s_header(s1, p1) == s_header(s2, p2),
{
}

/// The schema for one chunk: named field lists in registration order.
#[derive(Debug, PartialEq)]
pub struct Schema {
    pub tables: Vec<(Vec<u8>, Vec<(Vec<u8>, u8)>)>,
}

impl View for Schema {
    type V = SchemaV;

    open spec fn view(&self) -> SchemaV {
        sch_view(self.tables@)
    }
}

/// Byte-for-byte equality of two buffers.
#[verifier::loop_isolation(false)]
pub fn bytes_eq(a: &Vec<u8>, b: &Vec<u8>) -> (r: bool)
    ensures
        r == (a@ == b@),
{
    if a.len() != b.len() {
        proof {
            assert(a@ != b@);
        }
        return false;
    }
    let n: usize = a.len();
    let mut i: usize = 0;
    while i < n
        invariant
            i <= n,
            n == a@.len() && n == b@.len(),
            forall|j: int| 0 <= j < i ==> a@[j] == b@[j],
        decreases n - i,
    {
        if a[i] != b[i] {
            return false;
        }
        i = i + 1;
    }
    proof {
        assert(a@ =~= b@);
    }
    true
}

/// The owned bytes of the `root` table name.
pub fn root_key_bytes() -> (r: Vec<u8>)
    ensures
        r@ == root_key(),
{
    let mut rk: Vec<u8> = Vec::new();
    rk.push(0x72);
    rk.push(0x6F);
    rk.push(0x6F);
    rk.push(0x74);
    proof {
        assert(rk@ =~= root_key());
    }
    rk
}

/// An owned copy of a byte buffer.
#[verifier::loop_isolation(false)]
pub fn copy_bytes(v: &Vec<u8>) -> (r: Vec<u8>)
    ensures
        r@ == v@,
{
    let n: usize = v.len();
    let mut out: Vec<u8> = Vec::new();
    let mut i: usize = 0;
    while i < n
        invariant
            i <= n,
            n == v@.len(),
            out@ == v@.subrange(0, i as int),
        decreases n - i,
    {
        let b: u8 = v[i];
        out.push(b);
        i = i + 1;
        proof {
            assert(out@ =~= v@.subrange(0, i as int));
        }
    }
    proof {
        assert(out@ =~= v@);
    }
    out
}

impl Schema {
    /// Look a table up by name; the latest registration wins.
    #[verifier::loop_isolation(false)]
    pub fn lookup(&self, name: &Vec<u8>) -> (r: Option<&Vec<(Vec<u8>, u8)>>)
        ensures
            (match s_lookup(self@, name@) {
                Some(t) => r matches Some(rt) && tbl_view(rt@) == t,
                None => r is None,
            }),
    {
        let mut i: usize = self.tables.len();
        proof {
            assert(self.tables@.subrange(0, self.tables@.len() as int) =~= self.tables@);
        }
        while i > 0
            invariant
                i <= self.tables@.len(),
                s_lookup(self@, name@) == s_lookup(
                    sch_view(self.tables@.subrange(0, i as int)),
                    name@,
                ),
            decreases i,
        {
            proof {
                let pre = self.tables@.subrange(0, i as int);
                let prev = self.tables@.subrange(0, i - 1);
                assert(sch_view(pre).len() == i);
                assert(sch_view(pre).last() == (self.tables@[i - 1].0@, tbl_view(
                    self.tables@[i - 1].1@,
                )));
                assert(sch_view(pre).drop_last() =~= sch_view(prev));
            }
            if bytes_eq(&self.tables[i - 1].0, name) {
                return Some(&self.tables[i - 1].1);
            }
            i = i - 1;
        }
        proof {
            assert(self.tables@.subrange(0, 0) =~= Seq::<(Vec<u8>, Vec<(Vec<u8>, u8)>)>::empty());
            assert(sch_view(self.tables@.subrange(0, 0)).len() == 0);
        }
        None
    }
}

/// Read one field list from the cursor.
#[verifier::loop_isolation(false)]
pub fn read_header_table(c: &mut Cursor) -> (r: Result<Vec<(Vec<u8>, u8)>, Fatal>)
    requires
        old(c).wf(),
    ensures
        final(c).wf(),
        final(c).data@ == old(c).data@,
        final(c).pos >= old(c).pos,
        r is Ok ==> final(c).pos > old(c).pos,
        (match s_table(old(c).data@, old(c).pos as int) {
            Ok(vp) => r matches Ok(t) && tbl_view(t@) == vp.0 && final(c).pos == vp.1,
            Err(e) => r matches Err(f) && f == e,
        }),
{
    let ghost s = c.data@;
    let ghost p0 = c.pos as int;
    let mut table: Vec<(Vec<u8>, u8)> = Vec::new();
    loop
        invariant
            c.wf(),
            c.data@ == s,
            c.pos >= p0,
            (match s_table(s, c.pos as int) {
                Ok(vp) => {
                    &&& s_table(s, p0) matches Ok(vp0)
                    &&& vp0.0 == tbl_view(table@) + vp.0
                    &&& vp0.1 == vp.1
                },
                Err(e) => s_table(s, p0) == Err::<(TableV, int), Fatal>(e),
            }),
        decreases c.data@.len() - c.pos,
    {
        let ghost pc = c.pos as int;
        let field_type = match c.read_uint8() {
            Ok(b) => b,
            Err(e) => { return Err(e); },
        };
        if field_type == 0 {
            proof {
                assert(tbl_view(table@) + Seq::<(Seq<u8>, u8)>::empty() =~= tbl_view(table@));
            }
            return Ok(table);
        }
        let field_length = match read_gamma(c) {
            Ok(v) => v,
            Err(e) => { return Err(e); },
        };
        let field_name = match c.read_string(field_length) {
            Ok(v) => v,
            Err(e) => { return Err(e); },
        };
        proof {
            let ghost tv = tbl_view(table@);
            let ghost nv = field_name@;
            match s_table(s, c.pos as int) {
                Ok(vp) => {
                    assert(tv + (seq![(nv, field_type)] + vp.0) =~= (tv.push((nv, field_type)))
                        + vp.0);
                },
                Err(_) => {},
            }
        }
        table.push((field_name, field_type));
        proof {
            assert(tbl_view(table@) =~= tbl_view(table@.drop_last()).push(
                (table@.last().0@, table@.last().1),
            ));
            assert(tbl_view(table@.drop_last()).push((table@.last().0@, table@.last().1))
                == tbl_view(table@));
        }
    }
}

/// Discover the nested tables that `fields` declares, appending each to
/// `tables` under the declaring field's name.
#[verifier::loop_isolation(false)]
pub fn read_header_subtables(
    c: &mut Cursor,
    fields: &Vec<(Vec<u8>, u8)>,
    tables: &mut Vec<(Vec<u8>, Vec<(Vec<u8>, u8)>)>,
) -> (r: Result<(), Fatal>)
    requires
        old(c).wf(),
    ensures
        final(c).wf(),
        final(c).data@ == old(c).data@,
        final(c).pos >= old(c).pos,
        (match s_subtables(
            old(c).data@,
            old(c).pos as int,
            tbl_view(fields@),
            0,
            sch_view(old(tables)@),
        ) {
            Ok(vp) => {
                &&& r is Ok
                &&& sch_view(final(tables)@) == vp.0
                &&& final(c).pos == vp.1
            },
            Err(e) => r matches Err(f) && f == e,
        }),
    decreases c.data@.len() - c.pos,
{
    let ghost s = c.data@;
    let ghost p0 = c.pos as int;
    let ghost fv = tbl_view(fields@);
    let ghost sch0 = sch_view(tables@);
    let n: usize = fields.len();
    let mut i: usize = 0;
    while i < n
        invariant
            n == fields@.len(),
            c.wf(),
            c.data@ == s,
            c.pos >= p0,
            i <= n,
            fv == tbl_view(fields@),
            s_subtables(s, c.pos as int, fv, i as int, sch_view(tables@)) == s_subtables(
                s,
                p0,
                fv,
                0,
                sch0,
            ),
        decreases n - i,
    {
        if fields[i].1 == LIST_OF_RECORD {
            let ghost pc = c.pos as int;
            let t = match read_header_table(c) {
                Ok(t) => t,
                Err(e) => { return Err(e); },
            };
            let ghost p1 = c.pos as int;
            let r2 = read_header_subtables(c, &t, tables);
            match r2 {
                Ok(()) => {},
                Err(e) => { return Err(e); },
            }
            let name = copy_bytes(&fields[i].0);
            proof {
                let ghost acc2 = sch_view(tables@);
                assert(sch_view(tables@.push((name, t))) =~= acc2.push((fv[i as int].0, tbl_view(
                    t@,
                ))));
            }
            tables.push((name, t));
        }
        i = i + 1;
    }
    Ok(())
}

/// Read a whole header: the outer table and its nested tables, the outer
/// one registered under `root`.
pub fn read_header(c: &mut Cursor) -> (r: Result<Schema, Fatal>)
    requires
        old(c).wf(),
    ensures
        final(c).wf(),
        final(c).data@ == old(c).data@,
        final(c).pos >= old(c).pos,
        (match s_header(old(c).data@, old(c).pos as int) {
            Ok(vp) => r matches Ok(sch) && sch@ == vp.0 && final(c).pos == vp.1,
            Err(e) => r matches Err(f) && f == e,
        }),
{
    let table = match read_header_table(c) {
        Ok(t) => t,
        Err(e) => { return Err(e); },
    };
    let mut tables: Vec<(Vec<u8>, Vec<(Vec<u8>, u8)>)> = Vec::new();
    proof {
        assert(sch_view(tables@) =~= Seq::<(Seq<u8>, TableV)>::empty());
    }
    match read_header_subtables(c, &table, &mut tables) {
        Ok(()) => {},
        Err(e) => { return Err(e); },
    }
    let rk = root_key_bytes();
    proof {
        assert(sch_view(tables@.push((rk, table))) =~= sch_view(tables@).push(
            (root_key(), tbl_view(table@)),
        ));
    }
    tables.push((rk, table));
    Ok(Schema { tables })
}

} // verus!
