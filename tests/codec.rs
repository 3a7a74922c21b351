use ignite_binary::hash::{
    bytes_to_java_hashcode, resolve_type_id, schema_id, string_to_java_hashcode, FNV1_OFFSET_BASIS,
};
use ignite_binary::object::{FieldDescriptor, TypeDescriptor, TYPE_CODE_COMPLEX_OBJ};
use ignite_binary::value::{FieldType, FieldValue, TYPE_CODE_NULL};
use ignite_binary::wire::DecodeError;

fn field(name: &str, field_type: FieldType) -> FieldDescriptor {
    FieldDescriptor { name: name.to_string(), field_type }
}

fn person() -> TypeDescriptor {
    TypeDescriptor {
        name: "Person".to_string(),
        explicit_type_id: None,
        fields: vec![field("id", FieldType::Int), field("name", FieldType::Str)],
    }
}

fn person_values() -> Vec<FieldValue> {
    vec![FieldValue::Int(7), FieldValue::Str("ab".to_string())]
}

const PERSON_BYTES: [u8; 52] = [
    103, 1, 3, 0, 117, 135, 72, 142, 141, 172, 90, 247, 52, 0, 0, 0, 243, 241, 220, 57, 36, 0, 0,
    0, 3, 7, 0, 0, 0, 9, 2, 0, 0, 0, 97, 98, 27, 13, 0, 0, 24, 0, 0, 0, 139, 122, 51, 0, 29, 0, 0,
    0,
];

#[test]
fn string_hash_empty_is_zero() {
    assert_eq!(string_to_java_hashcode(""), 0);
}

#[test]
fn string_hash_two_chars() {
    assert_eq!(string_to_java_hashcode("ab"), 31 * 97 + 98);
    assert_eq!(string_to_java_hashcode("id"), 3355);
}

#[test]
fn string_hash_matches_java() {
    assert_eq!(string_to_java_hashcode("hello"), 99162322);
    assert_eq!(string_to_java_hashcode("name"), 3373707);
    assert_eq!(string_to_java_hashcode("Person"), -1907849355);
}

#[test]
fn string_hash_is_stable() {
    let s = "a rather longer string that overflows the accumulator";
    assert_eq!(string_to_java_hashcode(s), string_to_java_hashcode(s));
}

#[test]
fn bytes_hash_values() {
    assert_eq!(bytes_to_java_hashcode(&[]), 1);
    assert_eq!(bytes_to_java_hashcode(&[1, 2]), 994);
    assert_eq!(bytes_to_java_hashcode(&[255]), 30);
}

#[test]
fn schema_id_of_no_fields_is_offset_basis() {
    assert_eq!(schema_id(&[]), FNV1_OFFSET_BASIS);
    assert_eq!(FNV1_OFFSET_BASIS, 0x811C_9DC5_u32 as i32);
}

#[test]
fn schema_id_of_two_fields() {
    assert_eq!(schema_id(&[3355, 3373707]), 970781171);
    assert_eq!(person().schema_id(), 970781171);
}

#[test]
fn schema_id_ignores_field_types() {
    let other = TypeDescriptor {
        name: "Other".to_string(),
        explicit_type_id: Some(5),
        fields: vec![field("id", FieldType::Long), field("name", FieldType::Bool)],
    };
    assert_eq!(other.schema_id(), person().schema_id());
}

#[test]
fn schema_id_depends_on_order() {
    let swapped = TypeDescriptor {
        name: "Person".to_string(),
        explicit_type_id: None,
        fields: vec![field("name", FieldType::Str), field("id", FieldType::Int)],
    };
    assert_eq!(swapped.schema_id(), 1516282639);
    assert_ne!(swapped.schema_id(), person().schema_id());
}

#[test]
fn type_id_explicit_or_from_name() {
    assert_eq!(resolve_type_id("Person", Some(42)), 42);
    assert_eq!(resolve_type_id("Person", None), -1907849355);
    assert_eq!(person().type_id(), -1907849355);
}

#[test]
fn encode_person_example() {
    let bytes = person().encode(&person_values());
    assert_eq!(bytes, PERSON_BYTES.to_vec());
}

#[test]
fn decode_person_example() {
    let decoded = person().decode(&PERSON_BYTES).unwrap();
    assert_eq!(decoded, Some(person_values()));
}

#[test]
fn write_appends_to_sink() {
    let mut out = vec![0xAA];
    person().write(&person_values(), &mut out);
    assert_eq!(out.len(), 53);
    assert_eq!(out[0], 0xAA);
    assert_eq!(&out[1..], &PERSON_BYTES[..]);
}

#[test]
fn size_matches_encoding() {
    let values = person_values();
    assert_eq!(person().size(&values), 52);
    assert_eq!(person().size(&values), person().encode(&values).len());
}

#[test]
fn round_trip_all_field_types() {
    let desc = TypeDescriptor {
        name: "Mixed".to_string(),
        explicit_type_id: Some(-17),
        fields: vec![
            field("a", FieldType::Int),
            field("b", FieldType::Long),
            field("c", FieldType::Bool),
            field("d", FieldType::Str),
            field("e", FieldType::Bool),
        ],
    };
    let values = vec![
        FieldValue::Int(i32::MIN),
        FieldValue::Long(-1234567890123),
        FieldValue::Bool(true),
        FieldValue::Str("héllo ✓".to_string()),
        FieldValue::Bool(false),
    ];
    let bytes = desc.encode(&values);
    assert_eq!(bytes.len(), desc.size(&values));
    assert_eq!(bytes[4..8], (-17i32).to_le_bytes());
    assert_eq!(desc.decode(&bytes).unwrap(), Some(values));
}

#[test]
fn round_trip_no_fields() {
    let desc = TypeDescriptor { name: "Empty".to_string(), explicit_type_id: None, fields: vec![] };
    let bytes = desc.encode(&[]);
    assert_eq!(bytes.len(), 24);
    assert_eq!(desc.size(&[]), 24);
    assert_eq!(desc.decode(&bytes).unwrap(), Some(vec![]));
}

#[test]
fn read_leaves_position_after_object() {
    let mut data = PERSON_BYTES.to_vec();
    data.extend_from_slice(&[1, 2, 3]);
    let mut pos: usize = 1;
    let r = person().read(TYPE_CODE_COMPLEX_OBJ, &data, &mut pos).unwrap();
    assert_eq!(r, Some(person_values()));
    assert_eq!(pos, 52);
}

fn with_flags(flags: u16) -> Vec<u8> {
    let mut data = PERSON_BYTES.to_vec();
    data[2..4].copy_from_slice(&flags.to_le_bytes());
    data
}

#[test]
fn compact_footer_is_unsupported() {
    let data = with_flags(0x0001 | 0x0002 | 0x0020);
    let mut pos: usize = 1;
    assert_eq!(person().read(data[0], &data, &mut pos), Err(DecodeError::UnsupportedFeature));
    assert_eq!(pos, 4);
}

#[test]
fn one_byte_offsets_are_unsupported() {
    let data = with_flags(0x0001 | 0x0002 | 0x0008);
    let mut pos: usize = 1;
    assert_eq!(person().read(data[0], &data, &mut pos), Err(DecodeError::UnsupportedFeature));
    assert_eq!(pos, 4);
}

#[test]
fn two_byte_offsets_are_unsupported() {
    let data = with_flags(0x0001 | 0x0002 | 0x0010);
    assert_eq!(person().decode(&data), Err(DecodeError::UnsupportedFeature));
}

#[test]
fn missing_schema_flag_is_refused() {
    let data = with_flags(0x0001 | 0x0020);
    let mut pos: usize = 1;
    assert_eq!(person().read(data[0], &data, &mut pos), Err(DecodeError::SchemaExpected));
    assert_eq!(pos, 4);
}

#[test]
fn type_id_mismatch_names_both() {
    let other = TypeDescriptor {
        name: "Person".to_string(),
        explicit_type_id: Some(99),
        fields: vec![field("id", FieldType::Int), field("name", FieldType::Str)],
    };
    assert_eq!(
        other.decode(&PERSON_BYTES),
        Err(DecodeError::TypeIdMismatch { expected: 99, received: -1907849355 })
    );
}

#[test]
fn null_type_code_reads_nothing() {
    let mut pos: usize = 3;
    assert_eq!(person().read(TYPE_CODE_NULL, &PERSON_BYTES, &mut pos), Ok(None));
    assert_eq!(pos, 3);
    assert_eq!(person().decode(&[TYPE_CODE_NULL]), Ok(None));
}

#[test]
fn null_field_is_missing() {
    let mut data = PERSON_BYTES[..24].to_vec();
    data.push(TYPE_CODE_NULL);
    data.extend_from_slice(&PERSON_BYTES[29..]);
    assert_eq!(person().decode(&data), Err(DecodeError::MissingField { index: 0 }));
}

#[test]
fn wrong_value_type_code_is_refused() {
    let mut data = PERSON_BYTES.to_vec();
    data[24] = 4;
    assert_eq!(
        person().decode(&data),
        Err(DecodeError::UnexpectedTypeCode { expected_code: 3, received_code: 4 })
    );
}

#[test]
fn invalid_utf8_is_refused() {
    let mut data = PERSON_BYTES.to_vec();
    data[34] = 0xFF;
    assert_eq!(person().decode(&data), Err(DecodeError::InvalidString));
}

#[test]
fn negative_string_length_is_refused() {
    let mut data = PERSON_BYTES.to_vec();
    data[30..34].copy_from_slice(&(-1i32).to_le_bytes());
    assert_eq!(person().decode(&data), Err(DecodeError::InvalidString));
}

#[test]
fn truncated_stream_ends_early() {
    assert_eq!(person().decode(&[]), Err(DecodeError::UnexpectedEnd));
    assert_eq!(person().decode(&PERSON_BYTES[..20]), Err(DecodeError::UnexpectedEnd));
    assert_eq!(person().decode(&PERSON_BYTES[..40]), Err(DecodeError::UnexpectedEnd));
    assert_eq!(person().decode(&PERSON_BYTES[..51]), Err(DecodeError::UnexpectedEnd));
}

#[test]
fn value_codec_sizes_and_bytes() {
    let mut out = Vec::new();
    FieldValue::Str("é".to_string()).write(&mut out);
    assert_eq!(out, vec![9, 2, 0, 0, 0, 0xC3, 0xA9]);
    assert_eq!(FieldValue::Str("é".to_string()).size(), 7);
    assert_eq!(FieldValue::Long(1).size(), 9);
    let mut pos: usize = 0;
    let v = FieldValue::read(FieldType::Str, &out, &mut pos).unwrap();
    assert_eq!(v, Some(FieldValue::Str("é".to_string())));
    assert_eq!(pos, 7);
}
