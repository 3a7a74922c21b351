use vstd::prelude::*;
use vstd::utf8::*;
use crate::wire::{
    DecodeError, has_bytes, i32_at, i64_at, le_i32, le_i64, push_all, push_i32,
    push_i64, read_i32, read_i64, read_u8,
};

verus! {

/// Wire type code of a 32-bit integer.
pub const TYPE_CODE_INT: u8 = 3;
/// Wire type code of a 64-bit integer.
pub const TYPE_CODE_LONG: u8 = 4;
/// Wire type code of a boolean.
pub const TYPE_CODE_BOOL: u8 = 8;
/// Wire type code of a string.
pub const TYPE_CODE_STRING: u8 = 9;
/// Wire type code of the null value.
pub const TYPE_CODE_NULL: u8 = 101;

/// The declared type of a field.
#[derive(Debug, Clone, Copy, PartialEq, Eq, Structural)]
pub enum FieldType {
    Int,
    Long,
    Bool,
    Str,
}

/// A field's value.
#[derive(Debug, Clone, PartialEq, Eq)]
pub enum FieldValue {
    Int(i32),
    Long(i64),
    Bool(bool),
    Str(String),
}

/// What a field value stands for.
pub enum ValueModel {
    Int(i32),
    Long(i64),
    Bool(bool),
    Str(Seq<char>),
}

impl View for FieldValue {
    type V = ValueModel;

    open spec fn view(&self) -> ValueModel {
        match self {
            FieldValue::Int(x) => ValueModel::Int(*x),
            FieldValue::Long(x) => ValueModel::Long(*x),
            FieldValue::Bool(b) => ValueModel::Bool(*b),
            FieldValue::Str(s) => ValueModel::Str(s@),
        }
    }
}

/// What an optional field value stands for.
pub open spec fn opt_view(o: Option<FieldValue>) -> Option<ValueModel> {
    match o {
        Some(v) => Some(v@),
        None => None,
    }
}

/// The declared type that a value belongs to.
pub open spec fn model_type(v: ValueModel) -> FieldType {
    match v {
        ValueModel::Int(_) => FieldType::Int,
        ValueModel::Long(_) => FieldType::Long,
        ValueModel::Bool(_) => FieldType::Bool,
        ValueModel::Str(_) => FieldType::Str,
    }
}

/// The wire type code of a declared type.
pub open spec fn type_code_spec(t: FieldType) -> u8 {
    match t {
        FieldType::Int => TYPE_CODE_INT,
        FieldType::Long => TYPE_CODE_LONG,
        FieldType::Bool => TYPE_CODE_BOOL,
        FieldType::Str => TYPE_CODE_STRING,
    }
}

/// The encoding of a value: its type code, then its payload.
pub open spec fn value_bytes(v: ValueModel) -> Seq<u8> {
    match v {
        ValueModel::Int(x) => seq![TYPE_CODE_INT] + le_i32(x),
        ValueModel::Long(x) => seq![TYPE_CODE_LONG] + le_i64(x),
        ValueModel::Bool(b) => seq![TYPE_CODE_BOOL, if b { 1u8 } else { 0u8 }],
        ValueModel::Str(s) => seq![TYPE_CODE_STRING] + le_i32(encode_utf8(s).len() as i32)
            + encode_utf8(s),
    }
}

/// A string's payload length fits the signed 32-bit length prefix.
pub open spec fn value_fits(v: ValueModel) -> bool {
    match v {
        ValueModel::Str(s) => encode_utf8(s).len() <= i32::MAX,
        _ => true,
    }
}

/// The outcome of reading one value of declared type `t` at `pos`: the value
/// (`None` for null) and the position after it.
pub open spec fn parse_value(t: FieldType, data: Seq<u8>, pos: int) -> Result<
    (Option<ValueModel>, int),
    DecodeError,
> {
    if !has_bytes(data, pos, 1) {
        Err(DecodeError::UnexpectedEnd)
    } else if data[pos] == TYPE_CODE_NULL {
        Ok((None, pos + 1))
    } else if data[pos] != type_code_spec(t) {
        Err(DecodeError::UnexpectedTypeCode {
            expected_code: type_code_spec(t),
            received_code: data[pos],
        })
    } else {
        let p = pos + 1;
        match t {
            FieldType::Int => if !has_bytes(data, p, 4) {
                Err(DecodeError::UnexpectedEnd)
            } else {
                Ok((Some(ValueModel::Int(i32_at(data, p))), p + 4))
            },
            FieldType::Long => if !has_bytes(data, p, 8) {
                Err(DecodeError::UnexpectedEnd)
            } else {
                Ok((Some(ValueModel::Long(i64_at(data, p))), p + 8))
            },
            FieldType::Bool => if !has_bytes(data, p, 1) {
                Err(DecodeError::UnexpectedEnd)
            } else {
                Ok((Some(ValueModel::Bool(data[p] != 0)), p + 1))
            },
            FieldType::Str => if !has_bytes(data, p, 4) {
                Err(DecodeError::UnexpectedEnd)
            } else {
                let n = i32_at(data, p) as int;
                if n < 0 {
                    Err(DecodeError::InvalidString)
                } else if !has_bytes(data, p + 4, n) {
                    Err(DecodeError::UnexpectedEnd)
                } else if !valid_utf8(data.subrange(p + 4, p + 4 + n)) {
                    Err(DecodeError::InvalidString)
                } else {
                    Ok(
                        (
                            Some(ValueModel::Str(decode_utf8(data.subrange(p + 4, p + 4 + n)))),
                            p + 4 + n,
                        ),
                    )
                }
            },
        }
    }
}

/// Relies on `String::from_utf8`: it accepts exactly the valid UTF-8 byte
/// sequences, and the string it returns holds those bytes.
#[verifier::external_body]
fn string_from_utf8(bytes: Vec<u8>) -> (r: Option<String>)
    ensures
        r is Some <==> valid_utf8(bytes@),
        r matches Some(s) ==> s@ == decode_utf8(bytes@),
{
    String::from_utf8(bytes).ok()
}

impl FieldValue {
    /// The declared type that this value belongs to.
    pub fn field_type(&self) -> (r: FieldType)
        ensures
            r == model_type(self@),
    {
        match self {
            FieldValue::Int(_) => FieldType::Int,
            FieldValue::Long(_) => FieldType::Long,
            FieldValue::Bool(_) => FieldType::Bool,
            FieldValue::Str(_) => FieldType::Str,
        }
    }

    /// Number of bytes that `write` appends.
    pub fn size(&self) -> (r: usize)
        requires
            value_fits(self@),
        ensures
            r == value_bytes(self@).len(),
    {
        match self {
            FieldValue::Int(_) => 5,
            FieldValue::Long(_) => 9,
            FieldValue::Bool(_) => 2,
            FieldValue::Str(s) => {
                let n = s.as_str().as_bytes().len();
                5 + n
            },
        }
    }

    /// Appends the encoding of this value.
    pub fn write(&self, out: &mut Vec<u8>)
        requires
            value_fits(self@),
        ensures
            final(out)@ == old(out)@ + value_bytes(self@),
    {
        match self {
            FieldValue::Int(x) => {
                out.push(TYPE_CODE_INT);
                push_i32(out, *x);
            },
            FieldValue::Long(x) => {
                out.push(TYPE_CODE_LONG);
                push_i64(out, *x);
            },
            FieldValue::Bool(b) => {
                out.push(TYPE_CODE_BOOL);
                out.push(if *b { 1u8 } else { 0u8 });
            },
            FieldValue::Str(s) => {
                let bytes = s.as_str().as_bytes();
                out.push(TYPE_CODE_STRING);
                push_i32(out, bytes.len() as i32);
                push_all(out, bytes);
            },
        }
        assert(final(out)@ =~= old(out)@ + value_bytes(self@));
    }

    /// Reads one value of declared type `t` at `*pos`: `None` where the
    /// stream holds null.
    pub fn read(t: FieldType, data: &[u8], pos: &mut usize) -> (r: Result<
        Option<FieldValue>,
        DecodeError,
    >)
        ensures
            match parse_value(t, data@, *old(pos) as int) {
                Ok((v, p)) => r is Ok && opt_view(r->Ok_0) == v && *final(pos) == p,
                Err(e) => r == Err::<Option<FieldValue>, DecodeError>(e),
            },
    {
        let code = read_u8(data, pos)?;
        if code == TYPE_CODE_NULL {
            return Ok(None);
        }
        let expected = match t {
            FieldType::Int => TYPE_CODE_INT,
            FieldType::Long => TYPE_CODE_LONG,
            FieldType::Bool => TYPE_CODE_BOOL,
            FieldType::Str => TYPE_CODE_STRING,
        };
        if code != expected {
            return Err(DecodeError::UnexpectedTypeCode {
                expected_code: expected,
                received_code: code,
            });
        }
        match t {
            FieldType::Int => Ok(Some(FieldValue::Int(read_i32(data, pos)?))),
            FieldType::Long => Ok(Some(FieldValue::Long(read_i64(data, pos)?))),
            FieldType::Bool => Ok(Some(FieldValue::Bool(read_u8(data, pos)? != 0))),
            FieldType::Str => {
                let n = read_i32(data, pos)?;
                if n < 0 {
                    return Err(DecodeError::InvalidString);
                }
                let start = *pos;
                let len = data.len();
                if start > len || n as usize > len - start {
                    return Err(DecodeError::UnexpectedEnd);
                }
                let end = start + n as usize;
                let mut bytes: Vec<u8> = Vec::new();
                push_all(&mut bytes, &data[start..end]);
                assert(bytes@ =~= data@.subrange(start as int, end as int));
                *pos = end;
                match string_from_utf8(bytes) {
                    Some(s) => Ok(Some(FieldValue::Str(s))),
                    None => Err(DecodeError::InvalidString),
                }
            },
        }
    }
}

} // verus!
