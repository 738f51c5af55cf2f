//! Error kinds and the decoded value tree.

use vstd::prelude::*;

verus! {

/// Unrecoverable failures: the input is inconsistent with the format's own
/// grammar, so the whole decode call aborts with one of these.
#[derive(Clone, Copy, Debug, PartialEq, Eq, Structural)]
pub enum Fatal {
    /// A primitive read ran past the end of the buffer.
    EndOfInput,
    /// The first byte of a variable-length integer matched no known prefix.
    BadGamma,
    /// A field's base type nibble names no known type.
    BadFieldType,
    /// A record field's name has no registered schema table.
    MissingTable,
    /// Record nesting exceeded the table count, which only a cyclic schema
    /// can cause; the format cannot terminate on such input.
    TooDeep,
    /// The compressed payload could not be decompressed.
    Decompress,
}

/// Reported (soft) errors: returned as data in the result, never as a
/// failure of the decode call.
#[derive(Clone, Copy, Debug, PartialEq, Eq, Structural)]
pub enum SoftErr {
    /// The envelope's four marker bytes are not the supported marker; the
    /// bytes found are carried along.
    UnsupportedMarker(u8, u8, u8, u8),
    /// The format revision is below the oldest supported one.
    TooOld,
    /// A chunk header did not consume exactly the declared number of bytes.
    BadHeaderSize,
    /// A record did not consume exactly the declared number of bytes and the
    /// chunk's tag (carried along) is not on the quirk allow-list.
    BadRecordSize(u8, u8, u8, u8),
}

/// A decoded field value: scalars, strings, homogeneous lists and records.
/// Strings keep their raw bytes; the format maps one byte to one character.
#[derive(Debug, PartialEq)]
pub enum Value {
    I8(i8),
    U8(u8),
    I16(i16),
    U16(u16),
    I32(i32),
    U32(u32),
    I64(i64),
    U64(u64),
    Str(Vec<u8>),
    List(Vec<Value>),
    Rec(Vec<(Vec<u8>, Value)>),
}

/// The mathematical shape of a decoded value, used by every contract.
pub enum ValueV {
    I8(i8),
    U8(u8),
    I16(i16),
    U16(u16),
    I32(i32),
    U32(u32),
    I64(i64),
    U64(u64),
    Str(Seq<u8>),
    List(Seq<ValueV>),
    Rec(Seq<(Seq<u8>, ValueV)>),
}

/// The view of an executable value as its mathematical shape.
pub open spec fn vv(v: Value) -> ValueV
    decreases v,
{
    match v {
        Value::I8(x) => ValueV::I8(x),
        Value::U8(x) => ValueV::U8(x),
        Value::I16(x) => ValueV::I16(x),
        Value::U16(x) => ValueV::U16(x),
        Value::I32(x) => ValueV::I32(x),
        Value::U32(x) => ValueV::U32(x),
        Value::I64(x) => ValueV::I64(x),
        Value::U64(x) => ValueV::U64(x),
        Value::Str(b) => ValueV::Str(b@),
        Value::List(items) => ValueV::List(vv_seq(items@)),
        Value::Rec(fields) => ValueV::Rec(vv_fields(fields@)),
    }
}

/// Element-wise view of a sequence of values.
pub open spec fn vv_seq(items: Seq<Value>) -> Seq<ValueV>
    decreases items,
{
    if items.len() == 0 {
        Seq::empty()
    } else {
        vv_seq(items.drop_last()).push(vv(items.last()))
    }
}

/// Element-wise view of a record's named fields.
pub open spec fn vv_fields(fields: Seq<(Vec<u8>, Value)>) -> Seq<(Seq<u8>, ValueV)>
    decreases fields,
{
    if fields.len() == 0 {
        Seq::empty()
    } else {
        vv_fields(fields.drop_last()).push((fields.last().0@, vv(fields.last().1)))
    }
}

pub proof fn lemma_vv_seq_push(items: Seq<Value>, x: Value)
    ensures
        vv_seq(items.push(x)) == vv_seq(items).push(vv(x)),
{
    assert(items.push(x).drop_last() =~= items);
    assert(items.push(x).last() == x);
}

pub proof fn lemma_vv_fields_push(fields: Seq<(Vec<u8>, Value)>, x: (Vec<u8>, Value))
    ensures
        vv_fields(fields.push(x)) == vv_fields(fields).push((x.0@, vv(x.1))),
{
    assert(fields.push(x).drop_last() =~= fields);
    assert(fields.push(x).last() == x);
}

} // verus!
