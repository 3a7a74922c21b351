use vstd::prelude::*;
use vstd::utf8::{encode_utf8, encode_utf8_decode_utf8, encode_utf8_valid_utf8};
use crate::hash::string_hash_spec;
use crate::object::{
    FLAG_HAS_SCHEMA, FLAG_USER_TYPE, PROTOCOL_VERSION, TYPE_CODE_COMPLEX_OBJ, TypeDescriptor,
    decode_spec, encode_spec, header_spec, header_tail, lemma_body_len, lemma_payload_prefix,
    lemma_schema_len, object_size_spec, parse_fields, parse_object, payload, schema_bytes,
    unsupported_flags,
};
use crate::value::{
    FieldType, TYPE_CODE_NULL, ValueModel, model_type, parse_value, value_bytes, value_fits,
};
use crate::wire::{
    DecodeError, has_bytes, i32_at, le_i32, le_i64, le_u16, lemma_i32_round_trip,
    lemma_i64_round_trip, lemma_u16_round_trip, u16_at,
};

verus! {

/// Reading a value back from its encoding, wherever it stands in a stream,
/// gives the value and the position just after its bytes.
pub proof fn lemma_value_round_trip(v: ValueModel, pre: Seq<u8>, post: Seq<u8>)
    requires
        value_fits(v),
    ensures
        parse_value(model_type(v), pre + value_bytes(v) + post, pre.len() as int) == Ok::<
            (Option<ValueModel>, int),
            DecodeError,
        >((Some(v), pre.len() + value_bytes(v).len() as int)),
{
    let data = pre + value_bytes(v) + post;
    let p = pre.len() as int;
    assert(data[p] == value_bytes(v)[0]);
    match v {
        ValueModel::Int(x) => {
            assert(data =~= (pre + seq![value_bytes(v)[0]]) + le_i32(x) + post);
            lemma_i32_round_trip(x, pre + seq![value_bytes(v)[0]], post);
        },
        ValueModel::Long(x) => {
            assert(data =~= (pre + seq![value_bytes(v)[0]]) + le_i64(x) + post);
            lemma_i64_round_trip(x, pre + seq![value_bytes(v)[0]], post);
        },
        ValueModel::Bool(b) => {
            assert(data[p + 1] == value_bytes(v)[1]);
        },
        ValueModel::Str(s) => {
            let e = encode_utf8(s);
            let n = e.len() as i32;
            assert(data =~= (pre + seq![value_bytes(v)[0]]) + le_i32(n) + (e + post));
            lemma_i32_round_trip(n, pre + seq![value_bytes(v)[0]], e + post);
            assert(data.subrange(p + 5, p + 5 + e.len()) =~= e);
            encode_utf8_valid_utf8(s);
            encode_utf8_decode_utf8(s);
        },
    }
}

/// The fields of a payload read back, one after the other, as the values that
/// were written.
pub proof fn lemma_fields_round_trip(
    types: Seq<FieldType>,
    m: Seq<ValueModel>,
    pre: Seq<u8>,
    post: Seq<u8>,
    k: int,
)
    requires
        types.len() == m.len(),
        0 <= k <= m.len(),
        forall|i: int| 0 <= i < m.len() ==> types[i] == model_type(#[trigger] m[i]) && value_fits(m[i]),
    ensures
        parse_fields(types.take(k), pre + payload(m) + post, pre.len() as int) == Ok::<
            (Seq<ValueModel>, int),
            DecodeError,
        >((m.take(k), pre.len() + payload(m.take(k)).len() as int)),
    decreases k,
{
    let data = pre + payload(m) + post;
    if k == 0 {
        assert(types.take(0) =~= Seq::<FieldType>::empty());
        assert(m.take(0) =~= Seq::<ValueModel>::empty());
    } else {
        lemma_fields_round_trip(types, m, pre, post, k - 1);
        assert(types.take(k).drop_last() =~= types.take(k - 1));
        assert(m.take(k).drop_last() =~= m.take(k - 1));
        lemma_payload_prefix(m, k);
        let v = m[k - 1];
        let front = pre + payload(m.take(k - 1));
        assert(payload(m.take(k)) == payload(m.take(k - 1)) + value_bytes(v));
        assert(data =~= front + value_bytes(v) + (payload(m.skip(k)) + post));
        lemma_value_round_trip(v, front, payload(m.skip(k)) + post);
        assert(m.take(k - 1).push(v) =~= m.take(k));
    }
}

/// What a reader finds at the start of an encoding: the type code, the
/// flags and the type identifier.
pub proof fn lemma_header_reads(type_id: i32, ids: Seq<i32>, p: Seq<u8>, s: Seq<u8>, tail: Seq<u8>)
    ensures
        ({
            let d = header_spec(type_id, ids, p, s) + tail;
            &&& header_spec(type_id, ids, p, s).len() == 24
            &&& d[0] == TYPE_CODE_COMPLEX_OBJ
            &&& u16_at(d, 2) == 3
            &&& i32_at(d, 4) == type_id
        }),
{
    let h = header_spec(type_id, ids, p, s);
    let d = h + tail;
    let flags = (FLAG_USER_TYPE | FLAG_HAS_SCHEMA) as u16;
    assert(0x0001u16 | 0x0002u16 == 3u16) by (bit_vector);
    let head = seq![TYPE_CODE_COMPLEX_OBJ, PROTOCOL_VERSION];
    let rest = le_i32(type_id) + header_tail(ids, p, s) + tail;
    assert(d =~= head + le_u16(flags) + rest);
    lemma_u16_round_trip(flags, head, rest);
    let front = head + le_u16(flags);
    let back = header_tail(ids, p, s) + tail;
    assert(d =~= front + le_i32(type_id) + back);
    lemma_i32_round_trip(type_id, front, back);
}

/// The encoded size of an instance is the length of its encoding.
pub proof fn lemma_size_is_encoded_length(desc: TypeDescriptor, m: Seq<ValueModel>)
    requires
        desc.admits(m),
    ensures
        encode_spec(desc.spec_type_id(), desc.spec_field_ids(), m).len() == object_size_spec(m),
{
    lemma_body_len(m);
    lemma_schema_len(desc.spec_field_ids(), m);
}

/// Decoding the encoding of an instance gives back the instance, and reads
/// every byte of it.
pub proof fn lemma_round_trip(desc: TypeDescriptor, m: Seq<ValueModel>)
    requires
        desc.admits(m),
        object_size_spec(m) <= i32::MAX,
    ensures
        parse_object(
            desc.spec_type_id(),
            desc.spec_field_types(),
            TYPE_CODE_COMPLEX_OBJ,
            encode_spec(desc.spec_type_id(), desc.spec_field_ids(), m),
            1,
        ) == Ok::<(Option<Seq<ValueModel>>, int), DecodeError>(
            (Some(m), encode_spec(desc.spec_type_id(), desc.spec_field_ids(), m).len() as int),
        ),
        decode_spec(
            desc.spec_type_id(),
            desc.spec_field_types(),
            encode_spec(desc.spec_type_id(), desc.spec_field_ids(), m),
        ) == Ok::<Option<Seq<ValueModel>>, DecodeError>(Some(m)),
{
    let tid = desc.spec_type_id();
    let ids = desc.spec_field_ids();
    let types = desc.spec_field_types();
    let e = encode_spec(tid, ids, m);
    let p = payload(m);
    let s = schema_bytes(ids, m);
    let h = header_spec(tid, ids, p, s);
    assert(e =~= h + (p + s));
    lemma_header_reads(tid, ids, p, s, p + s);
    assert(3u16 & 0x0002u16 != 0 && 3u16 & 0x0020u16 == 0 && 3u16 & 0x0008u16 == 0 && 3u16
        & 0x0010u16 == 0) by (bit_vector);
    assert(!unsupported_flags(3));
    assert(types.len() == m.len());
    assert forall|i: int| 0 <= i < m.len() implies types[i] == model_type(#[trigger] m[i])
        && value_fits(m[i]) by {
        assert(model_type(m[i]) == desc.fields@[i].field_type);
    }
    lemma_fields_round_trip(types, m, h, s, m.len() as int);
    assert(types.take(m.len() as int) =~= types);
    assert(m.take(m.len() as int) =~= m);
    lemma_schema_len(ids, m);
}

/// The string hash of the empty string is 0, and that of a two-character
/// string is `31 * c1 + c2`, which never overflows.
pub proof fn lemma_string_hash_small(c1: char, c2: char)
    ensures
        string_hash_spec(Seq::<char>::empty()) == 0,
        string_hash_spec(seq![c1, c2]) as int == 31 * (c1 as u32 as int) + (c2 as u32 as int),
{
    let s = seq![c1, c2];
    assert(s.drop_last() =~= seq![c1]);
    assert(seq![c1].drop_last() =~= Seq::<char>::empty());
    vstd::utf8::char_is_scalar(c1);
    vstd::utf8::char_is_scalar(c2);
    let h1 = string_hash_spec(seq![c1]);
    assert(string_hash_spec(Seq::<char>::empty()) == 0);
    assert(31i32.wrapping_mul(0) == 0);
    assert(c1 as u32 <= 0x10FFFF && c2 as u32 <= 0x10FFFF);
    assert(h1 == 0i32.wrapping_add(c1 as u32 as i32));
    assert(h1 == c1 as u32 as i32);
    let x = 31 * (c1 as u32 as int);
    assert(0 <= x <= 31 * 0x10FFFF);
    assert(31i32.wrapping_mul(h1) == x);
    assert(31i32.wrapping_mul(h1).wrapping_add(c2 as u32 as i32) == x + c2 as u32 as int);
}

/// Two types whose fields have the same names in the same order share a
/// schema identifier, whatever the fields' types.
pub proof fn lemma_schema_id_by_names(a: TypeDescriptor, b: TypeDescriptor)
    requires
        a.fields@.len() == b.fields@.len(),
        forall|i: int| 0 <= i < a.fields@.len() ==> #[trigger] a.fields@[i].name@ == b.fields@[i].name@,
    ensures
        a.spec_schema_id() == b.spec_schema_id(),
{
    assert(a.spec_field_ids() =~= b.spec_field_ids());
}

/// A header that announces a schema but asks for a compact footer or for
/// narrow offsets is refused as unsupported, before the type identifier is read.
pub proof fn lemma_unsupported_flags_refused(
    type_id: i32,
    types: Seq<FieldType>,
    type_code: u8,
    data: Seq<u8>,
    pos: int,
)
    requires
        type_code != TYPE_CODE_NULL,
        has_bytes(data, pos, 3),
        u16_at(data, pos + 1) & FLAG_HAS_SCHEMA != 0,
        unsupported_flags(u16_at(data, pos + 1)),
    ensures
        parse_object(type_id, types, type_code, data, pos) == Err::<
            (Option<Seq<ValueModel>>, int),
            DecodeError,
        >(DecodeError::UnsupportedFeature),
{
}

/// Decoding an instance of one type as another type with a different type
/// identifier fails, naming both identifiers.
pub proof fn lemma_type_mismatch(written: TypeDescriptor, reader: TypeDescriptor, m: Seq<ValueModel>)
    requires
        written.admits(m),
        object_size_spec(m) <= i32::MAX,
        written.spec_type_id() != reader.spec_type_id(),
    ensures
        decode_spec(
            reader.spec_type_id(),
            reader.spec_field_types(),
            encode_spec(written.spec_type_id(), written.spec_field_ids(), m),
        ) == Err::<Option<Seq<ValueModel>>, DecodeError>(
            DecodeError::TypeIdMismatch {
                expected: reader.spec_type_id(),
                received: written.spec_type_id(),
            },
        ),
{
    let tid = written.spec_type_id();
    let ids = written.spec_field_ids();
    let p = payload(m);
    let sc = schema_bytes(ids, m);
    let e = encode_spec(tid, ids, m);
    assert(e =~= header_spec(tid, ids, p, sc) + (p + sc));
    lemma_header_reads(tid, ids, p, sc, p + sc);
    assert(3u16 & 0x0002u16 != 0 && 3u16 & 0x0020u16 == 0 && 3u16 & 0x0008u16 == 0 && 3u16
        & 0x0010u16 == 0) by (bit_vector);
    assert(!unsupported_flags(3));
}

/// A type code that marks null decodes to nothing, and no byte is read.
pub proof fn lemma_null_reads_nothing(
    type_id: i32,
    types: Seq<FieldType>,
    data: Seq<u8>,
    pos: int,
)
    ensures
        parse_object(type_id, types, TYPE_CODE_NULL, data, pos) == Ok::<
            (Option<Seq<ValueModel>>, int),
            DecodeError,
        >((None, pos)),
{
}

} // verus!
