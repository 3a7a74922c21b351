use vstd::prelude::*;
use crate::hash::{
    bytes_hash_spec, bytes_to_java_hashcode, resolve_type_id, schema_id, schema_id_spec,
    string_hash_spec, string_to_java_hashcode, type_id_spec,
};
use crate::value::{FieldType, FieldValue, ValueModel, TYPE_CODE_NULL, model_type, parse_value, value_bytes, value_fits};
use crate::wire::{
    DecodeError, has_bytes, i32_at, le_i32, le_u16, push_all, push_i32, push_u16, read_i32,
    read_i64, read_u16, read_u8, u16_at,
};

verus! {

/// Wire type code of a complex object.
pub const TYPE_CODE_COMPLEX_OBJ: u8 = 103;
/// Version byte of the object header.
pub const PROTOCOL_VERSION: u8 = 1;
/// Length of the object header, in bytes.
pub const COMPLEX_OBJ_HEADER_LEN: i32 = 24;
/// Header flag: the type is user-defined.
pub const FLAG_USER_TYPE: u16 = 0x0001;
/// Header flag: a schema footer follows the fields.
pub const FLAG_HAS_SCHEMA: u16 = 0x0002;
/// Header flag: schema offsets take one byte each.
pub const FLAG_OFFSET_ONE_BYTE: u16 = 0x0008;
/// Header flag: schema offsets take two bytes each.
pub const FLAG_OFFSET_TWO_BYTES: u16 = 0x0010;
/// Header flag: the footer holds offsets only.
pub const FLAG_COMPACT_FOOTER: u16 = 0x0020;

/// A named field of a declared type.
#[derive(Debug, Clone)]
pub struct FieldDescriptor {
    pub name: String,
    pub field_type: FieldType,
}

/// A structured type: its name, an optional explicit type identifier, and its
/// fields in the order in which they are written.
#[derive(Debug, Clone)]
pub struct TypeDescriptor {
    pub name: String,
    pub explicit_type_id: Option<i32>,
    pub fields: Vec<FieldDescriptor>,
}

/// What a sequence of field values stands for.
pub open spec fn models(values: Seq<FieldValue>) -> Seq<ValueModel> {
    values.map_values(|v: FieldValue| v@)
}

/// The field payload: each value's encoding, in order.
pub open spec fn payload(vs: Seq<ValueModel>) -> Seq<u8>
    decreases vs.len(),
{
    if vs.len() == 0 {
        Seq::empty()
    } else {
        payload(vs.drop_last()) + value_bytes(vs.last())
    }
}

/// The schema footer: for each field, its identifier and the offset of its
/// value from the start of the object.
pub open spec fn schema_bytes(ids: Seq<i32>, vs: Seq<ValueModel>) -> Seq<u8>
    decreases ids.len(),
{
    if ids.len() == 0 {
        Seq::empty()
    } else {
        let k = ids.len() - 1;
        schema_bytes(ids.drop_last(), vs) + le_i32(ids.last()) + le_i32(
            (COMPLEX_OBJ_HEADER_LEN + payload(vs.take(k)).len()) as i32,
        )
    }
}

/// The last sixteen header bytes: the object hash code, the total length,
/// the schema identifier and the schema offset.
pub open spec fn header_tail(ids: Seq<i32>, p: Seq<u8>, s: Seq<u8>) -> Seq<u8> {
    le_i32(bytes_hash_spec(p)) + le_i32((COMPLEX_OBJ_HEADER_LEN + p.len() + s.len()) as i32)
        + le_i32(schema_id_spec(ids)) + le_i32((COMPLEX_OBJ_HEADER_LEN + p.len()) as i32)
}

/// The object header: type code, version, flags, type identifier, then the tail.
pub open spec fn header_spec(type_id: i32, ids: Seq<i32>, p: Seq<u8>, s: Seq<u8>) -> Seq<u8> {
    seq![TYPE_CODE_COMPLEX_OBJ, PROTOCOL_VERSION] + le_u16(FLAG_USER_TYPE | FLAG_HAS_SCHEMA)
        + le_i32(type_id) + header_tail(ids, p, s)
}

/// The whole encoding of an object: header, field payload, schema footer.
pub open spec fn encode_spec(type_id: i32, ids: Seq<i32>, vs: Seq<ValueModel>) -> Seq<u8> {
    let p = payload(vs);
    let s = schema_bytes(ids, vs);
    header_spec(type_id, ids, p, s) + p + s
}

/// Bytes taken by the fields: each value's encoding plus its eight schema bytes.
pub open spec fn body_len(vs: Seq<ValueModel>) -> int
    decreases vs.len(),
{
    if vs.len() == 0 {
        0
    } else {
        body_len(vs.drop_last()) + value_bytes(vs.last()).len() + 8
    }
}

/// The encoded size of an object with these values.
pub open spec fn object_size_spec(vs: Seq<ValueModel>) -> int {
    COMPLEX_OBJ_HEADER_LEN + body_len(vs)
}

/// Reads the values of fields of the given types, in order, from `pos`.
pub open spec fn parse_fields(types: Seq<FieldType>, data: Seq<u8>, pos: int) -> Result<
    (Seq<ValueModel>, int),
    DecodeError,
>
    decreases types.len(),
{
    if types.len() == 0 {
        Ok((Seq::empty(), pos))
    } else {
        match parse_fields(types.drop_last(), data, pos) {
            Err(e) => Err(e),
            Ok((vs, p)) => match parse_value(types.last(), data, p) {
                Err(e) => Err(e),
                Ok((None, _)) => Err(DecodeError::MissingField { index: (types.len() - 1) as usize }),
                Ok((Some(v), q)) => Ok((vs.push(v), q)),
            },
        }
    }
}

/// Whether a flags word asks for a feature that this codec does not read.
pub open spec fn unsupported_flags(flags: u16) -> bool {
    flags & FLAG_COMPACT_FOOTER != 0 || flags & FLAG_OFFSET_ONE_BYTE != 0 || flags
        & FLAG_OFFSET_TWO_BYTES != 0
}

/// The outcome of reading an object, whose type code has already been read,
/// from `pos`: `None` for null, else the field values, with the position after it.
pub open spec fn parse_object(
    type_id: i32,
    types: Seq<FieldType>,
    type_code: u8,
    data: Seq<u8>,
    pos: int,
) -> Result<(Option<Seq<ValueModel>>, int), DecodeError> {
    if type_code == TYPE_CODE_NULL {
        Ok((None, pos))
    } else if !has_bytes(data, pos, 3) {
        Err(DecodeError::UnexpectedEnd)
    } else if u16_at(data, pos + 1) & FLAG_HAS_SCHEMA == 0 {
        Err(DecodeError::SchemaExpected)
    } else if unsupported_flags(u16_at(data, pos + 1)) {
        Err(DecodeError::UnsupportedFeature)
    } else if !has_bytes(data, pos + 3, 4) {
        Err(DecodeError::UnexpectedEnd)
    } else if i32_at(data, pos + 3) != type_id {
        Err(DecodeError::TypeIdMismatch { expected: type_id, received: i32_at(data, pos + 3) })
    } else if !has_bytes(data, pos + 7, 16) {
        Err(DecodeError::UnexpectedEnd)
    } else {
        match parse_fields(types, data, pos + 23) {
            Err(e) => Err(e),
            Ok((vs, p)) => if !has_bytes(data, p, 8 * types.len() as int) {
                Err(DecodeError::UnexpectedEnd)
            } else {
                Ok((Some(vs), p + 8 * types.len() as int))
            },
        }
    }
}

/// The outcome of decoding a whole stream: its type code, then the object.
pub open spec fn decode_spec(type_id: i32, types: Seq<FieldType>, data: Seq<u8>) -> Result<
    Option<Seq<ValueModel>>,
    DecodeError,
> {
    if !has_bytes(data, 0, 1) {
        Err(DecodeError::UnexpectedEnd)
    } else {
        match parse_object(type_id, types, data[0], data, 1) {
            Ok((o, _)) => Ok(o),
            Err(e) => Err(e),
        }
    }
}

/// What an optional instance stands for.
pub open spec fn opt_models(o: Option<Vec<FieldValue>>) -> Option<Seq<ValueModel>> {
    match o {
        Some(v) => Some(models(v@)),
        None => None,
    }
}

/// Once the fields of a prefix of the types fail to read, all of them do.
pub proof fn lemma_parse_fields_err(types: Seq<FieldType>, data: Seq<u8>, pos: int, k: int)
    requires
        0 <= k <= types.len(),
        parse_fields(types.take(k), data, pos) is Err,
    ensures
        parse_fields(types, data, pos) == parse_fields(types.take(k), data, pos),
    decreases types.len() - k,
{
    if k == types.len() {
        assert(types.take(k) =~= types);
    } else {
        assert(types.take(k + 1).drop_last() =~= types.take(k));
        lemma_parse_fields_err(types, data, pos, k + 1);
    }
}

/// Splitting the values splits the payload.
pub proof fn lemma_payload_append(a: Seq<ValueModel>, b: Seq<ValueModel>)
    ensures
        payload(a + b) == payload(a) + payload(b),
        body_len(a + b) == body_len(a) + body_len(b),
    decreases b.len(),
{
    if b.len() == 0 {
        assert(a + b =~= a);
        assert(payload(a) + payload(b) =~= payload(a));
    } else {
        lemma_payload_append(a, b.drop_last());
        assert((a + b).drop_last() =~= a + b.drop_last());
        assert((a + b).last() == b.last());
        assert(payload(a + b) =~= payload(a) + payload(b));
    }
}

/// The body is the payload plus eight schema bytes per field.
pub proof fn lemma_body_len(vs: Seq<ValueModel>)
    ensures
        body_len(vs) == payload(vs).len() + 8 * vs.len(),
    decreases vs.len(),
{
    if vs.len() > 0 {
        lemma_body_len(vs.drop_last());
    }
}

/// The schema footer takes eight bytes per field.
pub proof fn lemma_schema_len(ids: Seq<i32>, vs: Seq<ValueModel>)
    ensures
        schema_bytes(ids, vs).len() == 8 * ids.len(),
    decreases ids.len(),
{
    if ids.len() > 0 {
        lemma_schema_len(ids.drop_last(), vs);
    }
}

/// A prefix of the values has a prefix of the payload, and no larger a body.
pub proof fn lemma_payload_prefix(vs: Seq<ValueModel>, k: int)
    requires
        0 <= k <= vs.len(),
    ensures
        payload(vs) == payload(vs.take(k)) + payload(vs.skip(k)),
        body_len(vs.take(k)) <= body_len(vs),
        payload(vs.take(k)).len() <= payload(vs).len(),
{
    assert(vs =~= vs.take(k) + vs.skip(k));
    lemma_payload_append(vs.take(k), vs.skip(k));
    lemma_body_len(vs.skip(k));
}

impl TypeDescriptor {
    /// The type identifier that this type resolves to.
    pub open spec fn spec_type_id(&self) -> i32 {
        type_id_spec(self.name@, self.explicit_type_id)
    }

    /// The identifier of each field: the hash of its name.
    pub open spec fn spec_field_ids(&self) -> Seq<i32> {
        self.fields@.map_values(|f: FieldDescriptor| string_hash_spec(f.name@))
    }

    /// The declared type of each field.
    pub open spec fn spec_field_types(&self) -> Seq<FieldType> {
        self.fields@.map_values(|f: FieldDescriptor| f.field_type)
    }

    /// The schema identifier of this type.
    pub open spec fn spec_schema_id(&self) -> i32 {
        schema_id_spec(self.spec_field_ids())
    }

    /// Values that make an instance of this type: one per field, each of the
    /// field's declared type.
    pub open spec fn admits(&self, vs: Seq<ValueModel>) -> bool {
        &&& vs.len() == self.fields@.len()
        &&& forall|i: int|
            0 <= i < vs.len() ==> model_type(#[trigger] vs[i]) == self.fields@[i].field_type
                && value_fits(vs[i])
    }

    /// The type identifier of this type.
    pub fn type_id(&self) -> (r: i32)
        ensures
            r == self.spec_type_id(),
    {
        resolve_type_id(self.name.as_str(), self.explicit_type_id)
    }

    /// The identifiers of the fields, in order.
    pub fn field_ids(&self) -> (r: Vec<i32>)
        ensures
            r@ == self.spec_field_ids(),
    {
        let mut ids: Vec<i32> = Vec::new();
        let mut i: usize = 0;
        while i < self.fields.len()
            invariant
                i <= self.fields@.len(),
                ids@ == self.spec_field_ids().take(i as int),
            decreases self.fields@.len() - i,
        {
            let id = string_to_java_hashcode(self.fields[i].name.as_str());
            ids.push(id);
            i = i + 1;
            assert(ids@ =~= self.spec_field_ids().take(i as int));
        }
        assert(ids@ =~= self.spec_field_ids());
        ids
    }

    /// The schema identifier of this type.
    pub fn schema_id(&self) -> (r: i32)
        ensures
            r == self.spec_schema_id(),
    {
        let ids = self.field_ids();
        schema_id(ids.as_slice())
    }

    /// Number of bytes that `write` appends for these values.
    pub fn size(&self, values: &[FieldValue]) -> (r: usize)
        requires
            self.admits(models(values@)),
            object_size_spec(models(values@)) <= usize::MAX,
        ensures
            r == object_size_spec(models(values@)),
    {
        let ghost m = models(values@);
        let mut size: usize = COMPLEX_OBJ_HEADER_LEN as usize;
        let mut i: usize = 0;
        while i < values.len()
            invariant
                m == models(values@),
                self.admits(m),
                i <= values@.len(),
                size == COMPLEX_OBJ_HEADER_LEN + body_len(m.take(i as int)),
                object_size_spec(m) <= usize::MAX,
            decreases values@.len() - i,
        {
            assert(m.take(i + 1).drop_last() =~= m.take(i as int));
            assert(m.take(i + 1).last() == values@[i as int]@);
            proof {
                lemma_payload_prefix(m, i + 1);
            }
            assert(value_fits(m[i as int]));
            size = size + values[i].size() + 8;
            i = i + 1;
        }
        assert(m.take(values@.len() as int) =~= m);
        size
    }

    /// Appends the encoding of an instance with these values: the header, the
    /// field payload and the schema footer.
    pub fn write(&self, values: &[FieldValue], out: &mut Vec<u8>)
        requires
            self.admits(models(values@)),
            object_size_spec(models(values@)) <= i32::MAX,
        ensures
            final(out)@ == old(out)@ + encode_spec(
                self.spec_type_id(),
                self.spec_field_ids(),
                models(values@),
            ),
    {
        let ghost m = models(values@);
        let ghost all_ids = self.spec_field_ids();
        let mut fields: Vec<u8> = Vec::new();
        let mut schema: Vec<u8> = Vec::new();
        let mut ids: Vec<i32> = Vec::new();
        let mut i: usize = 0;
        while i < values.len()
            invariant
                m == models(values@),
                all_ids == self.spec_field_ids(),
                self.admits(m),
                object_size_spec(m) <= i32::MAX,
                i <= values@.len(),
                fields@ == payload(m.take(i as int)),
                ids@ == all_ids.take(i as int),
                schema@ == schema_bytes(ids@, m),
            decreases values@.len() - i,
        {
            proof {
                lemma_payload_prefix(m, i as int);
                lemma_body_len(m);
            }
            let id = string_to_java_hashcode(self.fields[i].name.as_str());
            push_i32(&mut schema, id);
            push_i32(&mut schema, COMPLEX_OBJ_HEADER_LEN + fields.len() as i32);
            ids.push(id);
            assert(value_fits(m[i as int]));
            values[i].write(&mut fields);
            assert(m.take(i + 1).drop_last() =~= m.take(i as int));
            assert(ids@.drop_last() =~= all_ids.take(i as int));
            i = i + 1;
            assert(ids@ =~= all_ids.take(i as int));
        }
        assert(m.take(values@.len() as int) =~= m);
        assert(ids@ =~= all_ids);
        proof {
            lemma_body_len(m);
            lemma_schema_len(ids@, m);
        }
        let payload_len = fields.len() as i32;
        let schema_len = schema.len() as i32;
        out.push(TYPE_CODE_COMPLEX_OBJ);
        out.push(PROTOCOL_VERSION);
        push_u16(out, FLAG_USER_TYPE | FLAG_HAS_SCHEMA);
        push_i32(out, self.type_id());
        push_i32(out, bytes_to_java_hashcode(fields.as_slice()));
        push_i32(out, COMPLEX_OBJ_HEADER_LEN + payload_len + schema_len);
        push_i32(out, schema_id(ids.as_slice()));
        push_i32(out, COMPLEX_OBJ_HEADER_LEN + payload_len);
        push_all(out, fields.as_slice());
        push_all(out, schema.as_slice());
        assert(final(out)@ =~= old(out)@ + encode_spec(self.spec_type_id(), all_ids, m));
    }

    /// Encodes an instance with these values.
    pub fn encode(&self, values: &[FieldValue]) -> (r: Vec<u8>)
        requires
            self.admits(models(values@)),
            object_size_spec(models(values@)) <= i32::MAX,
        ensures
            r@ == encode_spec(self.spec_type_id(), self.spec_field_ids(), models(values@)),
    {
        let mut out: Vec<u8> = Vec::new();
        self.write(values, &mut out);
        assert(out@ =~= encode_spec(self.spec_type_id(), self.spec_field_ids(), models(values@)));
        out
    }

    /// Reads the field values in declaration order from `*pos`.
    fn read_fields(&self, data: &[u8], pos: &mut usize) -> (r: Result<Vec<FieldValue>, DecodeError>)
        ensures
            match parse_fields(self.spec_field_types(), data@, *old(pos) as int) {
                Ok((vs, p)) => r is Ok && models(r->Ok_0@) == vs && *final(pos) == p,
                Err(e) => r == Err::<Vec<FieldValue>, DecodeError>(e),
            },
            r matches Err(e) ==> !(e is SchemaExpected || e is UnsupportedFeature),
    {
        let ghost types = self.spec_field_types();
        let ghost start = *pos as int;
        let mut values: Vec<FieldValue> = Vec::new();
        let mut i: usize = 0;
        assert(types.take(0) =~= Seq::<FieldType>::empty());
        assert(models(values@) =~= Seq::<ValueModel>::empty());
        while i < self.fields.len()
            invariant
                types == self.spec_field_types(),
                start == *old(pos) as int,
                i <= self.fields@.len(),
                parse_fields(types.take(i as int), data@, start) == Ok::<
                    (Seq<ValueModel>, int),
                    DecodeError,
                >((models(values@), *pos as int)),
            decreases self.fields@.len() - i,
        {
            assert(types.take(i + 1).drop_last() =~= types.take(i as int));
            assert(types.take(i + 1).last() == self.fields@[i as int].field_type);
            let v = FieldValue::read(self.fields[i].field_type, data, pos);
            match v {
                Err(e) => {
                    assert(parse_fields(types.take(i + 1), data@, start) == Err::<
                        (Seq<ValueModel>, int),
                        DecodeError,
                    >(e));
                    proof {
                        lemma_parse_fields_err(types, data@, start, i + 1);
                    }
                    return Err(e);
                },
                Ok(None) => {
                    proof {
                        lemma_parse_fields_err(types, data@, start, i + 1);
                    }
                    return Err(DecodeError::MissingField { index: i });
                },
                Ok(Some(v)) => {
                    let ghost before = values@;
                    let ghost vm = v@;
                    values.push(v);
                    assert(models(values@) =~= models(before).push(vm));
                },
            }
            i = i + 1;
        }
        assert(types.take(i as int) =~= types);
        Ok(values)
    }

    /// Reads an instance whose type code has already been read from the stream:
    /// `None` where the type code marks null, in which case nothing is read.
    pub fn read(&self, type_code: u8, data: &[u8], pos: &mut usize) -> (r: Result<
        Option<Vec<FieldValue>>,
        DecodeError,
    >)
        ensures
            match parse_object(
                self.spec_type_id(),
                self.spec_field_types(),
                type_code,
                data@,
                *old(pos) as int,
            ) {
                Ok((o, p)) => r is Ok && opt_models(r->Ok_0) == o && *final(pos) == p,
                Err(e) => r == Err::<Option<Vec<FieldValue>>, DecodeError>(e),
            },
            type_code == TYPE_CODE_NULL ==> *final(pos) == *old(pos),
            r == Err::<Option<Vec<FieldValue>>, DecodeError>(DecodeError::SchemaExpected) || r
                == Err::<Option<Vec<FieldValue>>, DecodeError>(DecodeError::UnsupportedFeature)
                ==> *final(pos) == *old(pos) + 3,
    {
        let ghost outcome = parse_object(
            self.spec_type_id(),
            self.spec_field_types(),
            type_code,
            data@,
            *pos as int,
        );
        if type_code == TYPE_CODE_NULL {
            return Ok(None);
        }
        let _version = read_u8(data, pos)?;
        let flags = read_u16(data, pos)?;
        if flags & FLAG_HAS_SCHEMA == 0 {
            return Err(DecodeError::SchemaExpected);
        }
        if flags & FLAG_COMPACT_FOOTER != 0 {
            return Err(DecodeError::UnsupportedFeature);
        }
        if flags & FLAG_OFFSET_ONE_BYTE != 0 || flags & FLAG_OFFSET_TWO_BYTES != 0 {
            return Err(DecodeError::UnsupportedFeature);
        }
        let received = read_i32(data, pos)?;
        let expected = self.type_id();
        if received != expected {
            return Err(DecodeError::TypeIdMismatch { expected, received });
        }
        let _hash_code = read_i32(data, pos)?;
        let _length = read_i32(data, pos)?;
        let _schema_id = read_i32(data, pos)?;
        let _schema_offset = read_i32(data, pos)?;
        let values = self.read_fields(data, pos)?;
        let ghost after_fields = *pos as int;
        let ghost n = self.fields@.len() as int;
        assert(outcome == if has_bytes(data@, after_fields, 8 * n) {
            Ok::<(Option<Seq<ValueModel>>, int), DecodeError>(
                (Some(models(values@)), after_fields + 8 * n),
            )
        } else {
            Err::<(Option<Seq<ValueModel>>, int), DecodeError>(DecodeError::UnexpectedEnd)
        });
        let mut j: usize = 0;
        while j < self.fields.len()
            invariant
                type_code != TYPE_CODE_NULL,
                n == self.fields@.len(),
                outcome == parse_object(
                    self.spec_type_id(),
                    self.spec_field_types(),
                    type_code,
                    data@,
                    *old(pos) as int,
                ),
                outcome == if has_bytes(data@, after_fields, 8 * n) {
                    Ok::<(Option<Seq<ValueModel>>, int), DecodeError>(
                        (Some(models(values@)), after_fields + 8 * n),
                    )
                } else {
                    Err::<(Option<Seq<ValueModel>>, int), DecodeError>(DecodeError::UnexpectedEnd)
                },
                j <= self.fields@.len(),
                *pos as int == after_fields + 8 * j,
                *pos <= data@.len(),
            decreases self.fields@.len() - j,
        {
            let entry = read_i64(data, pos);
            if entry.is_err() {
                assert(!has_bytes(data@, after_fields, 8 * n));
                return Err(DecodeError::UnexpectedEnd);
            }
            j = j + 1;
        }
        Ok(Some(values))
    }

    /// Decodes a whole stream: its type code, then the object.
    pub fn decode(&self, data: &[u8]) -> (r: Result<Option<Vec<FieldValue>>, DecodeError>)
        ensures
            match decode_spec(self.spec_type_id(), self.spec_field_types(), data@) {
                Ok(o) => r is Ok && opt_models(r->Ok_0) == o,
                Err(e) => r == Err::<Option<Vec<FieldValue>>, DecodeError>(e),
            },
    {
        let mut pos: usize = 0;
        let code = read_u8(data, &mut pos)?;
        self.read(code, data, &mut pos)
    }
}

} // verus!
