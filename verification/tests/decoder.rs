use ottx_decoder::cursor::Cursor;
use ottx_decoder::decode::{decompress, Savegame};
use ottx_decoder::gamma::{encode_gamma, read_gamma};
use ottx_decoder::schema::{read_header, Schema};
use ottx_decoder::types::{Fatal, SoftErr, Value};
use ottx_decoder::walker::walk_chunks;

fn gamma(v: u32) -> Vec<u8> {
    encode_gamma(v)
}

fn roundtrip(v: u32, expect_len: usize) {
    let enc = encode_gamma(v);
    assert_eq!(enc.len(), expect_len);
    let mut c = Cursor::new(enc);
    assert_eq!(read_gamma(&mut c), Ok(v));
    assert_eq!(c.pos, expect_len);
}

#[test]
fn gamma_roundtrip_boundaries() {
    roundtrip(0, 1);
    roundtrip(1, 1);
    roundtrip(127, 1);
    roundtrip(128, 2);
    roundtrip(16383, 2);
    roundtrip(16384, 3);
    roundtrip(0x001F_FFFF, 3);
    roundtrip(0x0020_0000, 4);
    roundtrip(0x0FFF_FFFF, 4);
    roundtrip(0x1000_0000, 5);
    roundtrip(0xFFFF_FFFF, 5);
    roundtrip(1_000_000, 3);
}

#[test]
fn gamma_bad_prefix_is_fatal() {
    let mut c = Cursor::new(vec![0xF8, 0, 0, 0, 0]);
    assert_eq!(read_gamma(&mut c), Err(Fatal::BadGamma));
    let mut c2 = Cursor::new(vec![0xFF]);
    assert_eq!(read_gamma(&mut c2), Err(Fatal::BadGamma));
}

#[test]
fn gamma_truncated_is_end_of_input() {
    let mut c = Cursor::new(vec![0xC0, 0x01]);
    assert_eq!(read_gamma(&mut c), Err(Fatal::EndOfInput));
}

#[test]
fn cursor_big_endian_reads() {
    let mut c = Cursor::new(vec![0x01, 0x02, 0x03, 0x04, 0x05, 0x06, 0x07, 0x08]);
    assert_eq!(c.remaining(), 8);
    assert_eq!(c.read_uint16(), Ok(0x0102));
    assert_eq!(c.read_uint16(), Ok(0x0304));
    assert_eq!(c.read_uint32(), Ok(0x05060708));
    assert_eq!(c.read_uint8(), Err(Fatal::EndOfInput));
}

#[test]
fn schema_lookup_prefers_latest_registration() {
    let schema = Schema {
        tables: vec![
            (b"a".to_vec(), vec![(b"x".to_vec(), 2u8)]),
            (b"a".to_vec(), vec![(b"y".to_vec(), 6u8)]),
        ],
    };
    assert_eq!(schema.lookup(&b"a".to_vec()), Some(&vec![(b"y".to_vec(), 6u8)]));
    assert_eq!(schema.lookup(&b"b".to_vec()), None);
}

#[test]
fn cursor_read_uint64_and_string() {
    let mut c = Cursor::new(vec![0, 0, 0, 0, 0, 0, 0, 42, b'h', b'i']);
    assert_eq!(c.read_uint64(), Ok(42));
    assert_eq!(c.read_string(2), Ok(vec![b'h', b'i']));
    assert_eq!(c.read_uint8(), Err(Fatal::EndOfInput));
}

#[test]
fn cursor_read_past_end_fails_not_defaults() {
    let mut c = Cursor::new(vec![0xAA]);
    assert_eq!(c.read_uint16(), Err(Fatal::EndOfInput));
}

/// One header: a root table with the given fields, each `(name, tag)`,
/// terminated by a zero tag.
fn header_bytes(fields: &[(&[u8], u8)]) -> Vec<u8> {
    let mut out: Vec<u8> = Vec::new();
    for (name, tag) in fields {
        out.push(*tag);
        out.extend_from_slice(&gamma(name.len() as u32));
        out.extend_from_slice(name);
    }
    out.push(0);
    out
}

#[test]
fn header_parse_is_idempotent() {
    let mut bytes = header_bytes(&[(b"date", 6), (b"name", 10)]);
    bytes.extend_from_slice(&[0xAB, 0xCD]);
    let mut c1 = Cursor::new(bytes.clone());
    let mut c2 = Cursor::new(bytes);
    let s1: Schema = read_header(&mut c1).unwrap();
    let s2: Schema = read_header(&mut c2).unwrap();
    assert_eq!(s1, s2);
    assert_eq!(c1.pos, c2.pos);
    assert_eq!(s1.tables.len(), 1);
    assert_eq!(s1.tables[0].0, b"root".to_vec());
    assert_eq!(
        s1.tables[0].1,
        vec![(b"date".to_vec(), 6u8), (b"name".to_vec(), 10u8)]
    );
}

#[test]
fn header_discovers_nested_tables() {
    // root: one list-of-record field "items"; nested table: one uint8 "x".
    let mut bytes = header_bytes(&[(b"items", 0x10 | 11)]);
    bytes.extend_from_slice(&header_bytes(&[(b"x", 2)]));
    let mut c = Cursor::new(bytes);
    let s = read_header(&mut c).unwrap();
    assert_eq!(s.tables.len(), 2);
    assert_eq!(s.tables[0].0, b"items".to_vec());
    assert_eq!(s.tables[0].1, vec![(b"x".to_vec(), 2u8)]);
    assert_eq!(s.tables[1].0, b"root".to_vec());
}

/// One table chunk: tag, mode byte, gamma header size, header, records,
/// record terminator.
fn table_chunk(tag: &[u8], mode: u8, header: &[u8], records: &[u8]) -> Vec<u8> {
    let mut out: Vec<u8> = Vec::new();
    out.extend_from_slice(tag);
    out.push(mode);
    out.extend_from_slice(&gamma(header.len() as u32 + 1));
    out.extend_from_slice(header);
    out.extend_from_slice(records);
    out.extend_from_slice(&gamma(0));
    out
}

fn terminator() -> Vec<u8> {
    vec![0, 0, 0, 0]
}

#[test]
fn date_chunk_maps_index_zero_to_value() {
    let header = header_bytes(&[(b"date", 6)]);
    let mut records: Vec<u8> = Vec::new();
    records.extend_from_slice(&gamma(5)); // one record: 4 payload bytes + 1
    records.extend_from_slice(&[0x00, 0x0F, 0x42, 0x40]); // 1000000
    let mut payload = table_chunk(b"DATE", 1, &header, &records);
    payload.extend_from_slice(&terminator());
    let chunks = walk_chunks(payload).unwrap().unwrap();
    assert_eq!(chunks.len(), 1);
    assert_eq!(chunks[0].0, b"DATE".to_vec());
    let expected = Value::Rec(vec![(b"date".to_vec(), Value::U32(1_000_000))]);
    assert_eq!(chunks[0].1, vec![(0u32, expected)]);
}

#[test]
fn dense_mode_counts_indices_from_zero() {
    let header = header_bytes(&[(b"v", 2)]);
    let mut records: Vec<u8> = Vec::new();
    for b in [7u8, 9u8] {
        records.extend_from_slice(&gamma(2)); // 1 payload byte + 1
        records.push(b);
    }
    let mut payload = table_chunk(b"ABCD", 1, &header, &records);
    payload.extend_from_slice(&terminator());
    let chunks = walk_chunks(payload).unwrap().unwrap();
    let recs = &chunks[0].1;
    assert_eq!(recs.len(), 2);
    assert_eq!(recs[0].0, 0);
    assert_eq!(recs[1].0, 1);
    assert_eq!(recs[0].1, Value::Rec(vec![(b"v".to_vec(), Value::U8(7))]));
    assert_eq!(recs[1].1, Value::Rec(vec![(b"v".to_vec(), Value::U8(9))]));
}

#[test]
fn sparse_mode_keeps_exactly_the_explicit_indices() {
    let header = header_bytes(&[(b"v", 2)]);
    let mut records: Vec<u8> = Vec::new();
    for (idx, b) in [(5u32, 10u8), (100u32, 20u8)] {
        let idx_bytes = gamma(idx);
        // size covers the index bytes plus the record payload plus one
        records.extend_from_slice(&gamma(idx_bytes.len() as u32 + 1 + 1));
        records.extend_from_slice(&idx_bytes);
        records.push(b);
    }
    let mut payload = table_chunk(b"ORDR", 4, &header, &records);
    payload.extend_from_slice(&terminator());
    let chunks = walk_chunks(payload).unwrap().unwrap();
    let recs = &chunks[0].1;
    assert_eq!(recs.len(), 2);
    assert_eq!(recs[0].0, 5);
    assert_eq!(recs[1].0, 100);
    assert_eq!(recs[0].1, Value::Rec(vec![(b"v".to_vec(), Value::U8(10))]));
    assert_eq!(recs[1].1, Value::Rec(vec![(b"v".to_vec(), Value::U8(20))]));
}

#[test]
fn list_and_string_and_signed_fields_decode() {
    let header = header_bytes(&[(b"xs", 0x10 | 2), (b"name", 10), (b"t", 1)]);
    let mut rec: Vec<u8> = Vec::new();
    rec.extend_from_slice(&gamma(3)); // list length
    rec.extend_from_slice(&[1, 2, 3]);
    rec.extend_from_slice(&gamma(2)); // string length
    rec.extend_from_slice(b"ab");
    rec.push(0xFF); // int8 -1
    let mut records: Vec<u8> = Vec::new();
    records.extend_from_slice(&gamma(rec.len() as u32 + 1));
    records.extend_from_slice(&rec);
    let mut payload = table_chunk(b"MISC", 1, &header, &records);
    payload.extend_from_slice(&terminator());
    let chunks = walk_chunks(payload).unwrap().unwrap();
    let expected = Value::Rec(vec![
        (
            b"xs".to_vec(),
            Value::List(vec![Value::U8(1), Value::U8(2), Value::U8(3)]),
        ),
        (b"name".to_vec(), Value::Str(b"ab".to_vec())),
        (b"t".to_vec(), Value::I8(-1)),
    ]);
    assert_eq!(chunks[0].1, vec![(0u32, expected)]);
}

#[test]
fn nested_record_list_uses_table_named_by_field() {
    let mut header = header_bytes(&[(b"items", 0x10 | 11)]);
    header.extend_from_slice(&header_bytes(&[(b"x", 2)]));
    let mut rec: Vec<u8> = Vec::new();
    rec.extend_from_slice(&gamma(2)); // two nested records
    rec.push(11);
    rec.push(22);
    let mut records: Vec<u8> = Vec::new();
    records.extend_from_slice(&gamma(rec.len() as u32 + 1));
    records.extend_from_slice(&rec);
    let mut payload = table_chunk(b"NEST", 1, &header, &records);
    payload.extend_from_slice(&terminator());
    let chunks = walk_chunks(payload).unwrap().unwrap();
    let expected = Value::Rec(vec![(
        b"items".to_vec(),
        Value::List(vec![
            Value::Rec(vec![(b"x".to_vec(), Value::U8(11))]),
            Value::Rec(vec![(b"x".to_vec(), Value::U8(22))]),
        ]),
    )]);
    assert_eq!(chunks[0].1, vec![(0u32, expected)]);
}

#[test]
fn raw_chunk_is_skipped_and_absent_from_result() {
    let mut payload: Vec<u8> = Vec::new();
    payload.extend_from_slice(b"MAPS");
    payload.push(0x00); // mode byte: raw, high nibble 0
    payload.extend_from_slice(&[0x00, 0x00, 0x03]); // declared size 3
    payload.extend_from_slice(&[9, 9, 9]);
    payload.extend_from_slice(&terminator());
    let chunks = walk_chunks(payload).unwrap().unwrap();
    assert_eq!(chunks.len(), 0);
}

#[test]
fn record_padding_tolerated_only_for_quirk_tags() {
    let header = header_bytes(&[(b"v", 2)]);
    let mut records: Vec<u8> = Vec::new();
    records.extend_from_slice(&gamma(4)); // declares 3 payload bytes
    records.push(33); // record consumes 1; 2 bytes of padding follow
    records.extend_from_slice(&[0, 0]);
    let mut good = table_chunk(b"GSDT", 1, &header, &records);
    good.extend_from_slice(&terminator());
    let chunks = walk_chunks(good).unwrap().unwrap();
    assert_eq!(chunks[0].0, b"GSDT".to_vec());
    assert_eq!(
        chunks[0].1,
        vec![(0u32, Value::Rec(vec![(b"v".to_vec(), Value::U8(33))]))]
    );

    let mut bad = table_chunk(b"XYZZ", 1, &header, &records);
    bad.extend_from_slice(&terminator());
    let r = walk_chunks(bad).unwrap();
    assert_eq!(
        r,
        Err(SoftErr::BadRecordSize(b'X', b'Y', b'Z', b'Z'))
    );
}

#[test]
fn aipl_padding_is_tolerated_too() {
    let header = header_bytes(&[(b"v", 2)]);
    let mut records: Vec<u8> = Vec::new();
    records.extend_from_slice(&gamma(3));
    records.push(44);
    records.push(0);
    let mut payload = table_chunk(b"AIPL", 1, &header, &records);
    payload.extend_from_slice(&terminator());
    let chunks = walk_chunks(payload).unwrap().unwrap();
    assert_eq!(
        chunks[0].1,
        vec![(0u32, Value::Rec(vec![(b"v".to_vec(), Value::U8(44))]))]
    );
}

#[test]
fn header_size_mismatch_is_soft_error() {
    let header = header_bytes(&[(b"v", 2)]);
    let mut payload: Vec<u8> = Vec::new();
    payload.extend_from_slice(b"BADH");
    payload.push(1);
    payload.extend_from_slice(&gamma(header.len() as u32 + 5)); // wrong size
    payload.extend_from_slice(&header);
    payload.extend_from_slice(&gamma(0));
    payload.extend_from_slice(&terminator());
    assert_eq!(walk_chunks(payload).unwrap(), Err(SoftErr::BadHeaderSize));
}

#[test]
fn missing_record_table_is_fatal() {
    let header = header_bytes(&[(b"sub", 11)]); // record field, no subtable
    let mut records: Vec<u8> = Vec::new();
    records.extend_from_slice(&gamma(2));
    records.push(0);
    let mut payload = table_chunk(b"MISS", 1, &header, &records);
    payload.extend_from_slice(&terminator());
    assert_eq!(walk_chunks(payload), Err(Fatal::MissingTable));
}

#[test]
fn unknown_field_type_is_fatal() {
    let header = header_bytes(&[(b"z", 12)]);
    let mut records: Vec<u8> = Vec::new();
    records.extend_from_slice(&gamma(2));
    records.push(0);
    let mut payload = table_chunk(b"BADT", 1, &header, &records);
    payload.extend_from_slice(&terminator());
    assert_eq!(walk_chunks(payload), Err(Fatal::BadFieldType));
}

#[test]
fn truncated_payload_is_fatal() {
    let payload: Vec<u8> = vec![b'D', b'A', b'T', b'E', 1, 0x05];
    assert_eq!(walk_chunks(payload), Err(Fatal::EndOfInput));
}

fn envelope(marker: &[u8], revision: u16) -> Vec<u8> {
    let mut out: Vec<u8> = Vec::new();
    out.extend_from_slice(marker);
    out.extend_from_slice(&revision.to_be_bytes());
    out.extend_from_slice(&[0, 0]);
    out
}

fn xz(payload: &[u8]) -> Vec<u8> {
    let mut input = payload;
    let mut out: Vec<u8> = Vec::new();
    lzma_rs::xz_compress(&mut input, &mut out).unwrap();
    out
}

#[test]
fn bad_marker_is_soft_never_fatal() {
    let mut data = envelope(b"ABCD", 300);
    data.extend_from_slice(&[1, 2, 3]);
    let sg: Savegame = decompress(&data).unwrap();
    assert_eq!(sg.error, Some(SoftErr::UnsupportedMarker(b'A', b'B', b'C', b'D')));
    assert_eq!(sg.revision, 0);
    assert_eq!(sg.chunks.len(), 0);
}

#[test]
fn old_revision_is_soft_and_skips_decompression() {
    // the payload after the envelope is garbage: it must never be touched
    let mut data = envelope(b"OTTX", 294);
    data.extend_from_slice(&[0xDE, 0xAD, 0xBE, 0xEF]);
    let sg = decompress(&data).unwrap();
    assert_eq!(sg.error, Some(SoftErr::TooOld));
    assert_eq!(sg.revision, 294);
    assert_eq!(sg.chunks.len(), 0);
}

#[test]
fn truncated_envelope_is_fatal() {
    let data: Vec<u8> = vec![b'O', b'T', b'T', b'X', 0x01];
    assert_eq!(decompress(&data), Err(Fatal::EndOfInput));
}

#[test]
fn corrupt_compressed_stream_is_fatal() {
    let mut data = envelope(b"OTTX", 300);
    data.extend_from_slice(&[1, 2, 3, 4, 5]);
    assert_eq!(decompress(&data), Err(Fatal::Decompress));
}

#[test]
fn raw_maps_chunk_decodes_without_error() {
    let mut payload: Vec<u8> = Vec::new();
    payload.extend_from_slice(b"MAPS");
    payload.push(0x00);
    payload.extend_from_slice(&[0x00, 0x00, 0x00]); // declared size 0
    payload.extend_from_slice(&terminator());
    let mut data = envelope(b"OTTX", 300);
    data.extend_from_slice(&xz(&payload));
    let sg = decompress(&data).unwrap();
    assert_eq!(sg.error, None);
    assert_eq!(sg.revision, 300);
    assert_eq!(sg.chunks.len(), 0);
}

#[test]
fn full_decode_of_table_chunk() {
    let header = header_bytes(&[(b"date", 6)]);
    let mut records: Vec<u8> = Vec::new();
    records.extend_from_slice(&gamma(5));
    records.extend_from_slice(&[0x00, 0x0F, 0x42, 0x40]);
    let mut payload = table_chunk(b"DATE", 1, &header, &records);
    payload.extend_from_slice(&terminator());
    let mut data = envelope(b"OTTX", 300);
    data.extend_from_slice(&xz(&payload));
    let sg = decompress(&data).unwrap();
    assert_eq!(sg.error, None);
    assert_eq!(sg.revision, 300);
    assert_eq!(sg.chunks.len(), 1);
    assert_eq!(sg.chunks[0].0, b"DATE".to_vec());
    assert_eq!(
        sg.chunks[0].1,
        vec![(
            0u32,
            Value::Rec(vec![(b"date".to_vec(), Value::U32(1_000_000))])
        )]
    );
}

#[test]
fn soft_error_in_walker_discards_collected_chunks() {
    // a good DATE chunk followed by a record-size mismatch on XYZZ
    let header = header_bytes(&[(b"v", 2)]);
    let mut good_records: Vec<u8> = Vec::new();
    good_records.extend_from_slice(&gamma(2));
    good_records.push(1);
    let mut bad_records: Vec<u8> = Vec::new();
    bad_records.extend_from_slice(&gamma(4));
    bad_records.push(2);
    bad_records.extend_from_slice(&[0, 0]);
    let mut payload = table_chunk(b"GOOD", 1, &header, &good_records);
    payload.extend_from_slice(&table_chunk(b"XYZZ", 1, &header, &bad_records));
    payload.extend_from_slice(&terminator());
    let mut data = envelope(b"OTTX", 300);
    data.extend_from_slice(&xz(&payload));
    let sg = decompress(&data).unwrap();
    assert_eq!(sg.error, Some(SoftErr::BadRecordSize(b'X', b'Y', b'Z', b'Z')));
    assert_eq!(sg.revision, 300);
    assert_eq!(sg.chunks.len(), 0);
}

#[test]
fn empty_record_slots_advance_dense_indices() {
    let header = header_bytes(&[(b"v", 2)]);
    let mut records: Vec<u8> = Vec::new();
    records.extend_from_slice(&gamma(1)); // size 1: slot without payload
    records.extend_from_slice(&gamma(2));
    records.push(5);
    let mut payload = table_chunk(b"SLOT", 1, &header, &records);
    payload.extend_from_slice(&terminator());
    let chunks = walk_chunks(payload).unwrap().unwrap();
    assert_eq!(
        chunks[0].1,
        vec![(1u32, Value::Rec(vec![(b"v".to_vec(), Value::U8(5))]))]
    );
}
