use vstd::prelude::*;

verus! {

/// Java's `String.hashCode` over a sequence of Unicode scalar values:
/// `h = 31 * h + c` for each character, in wrapping 32-bit arithmetic.
pub open spec fn string_hash_spec(s: Seq<char>) -> i32
    decreases s.len(),
{
    if s.len() == 0 {
        0
    } else {
        let h = string_hash_spec(s.drop_last());
        31i32.wrapping_mul(h).wrapping_add(s.last() as u32 as i32)
    }
}

/// Computes the Java-compatible hash of a string, used for field and type identifiers.
pub fn string_to_java_hashcode(value: &str) -> (r: i32)
    ensures
        r == string_hash_spec(value@),
{
    let n = value.unicode_len();
    let mut hash: i32 = 0;
    let mut i: usize = 0;
    while i < n
        invariant
            n == value@.len(),
            i <= n,
            hash == string_hash_spec(value@.subrange(0, i as int)),
        decreases n - i,
    {
        let c = value.get_char(i);
        assert(value@.subrange(0, i + 1).drop_last() =~= value@.subrange(0, i as int));
        hash = 31i32.wrapping_mul(hash).wrapping_add(c as u32 as i32);
        i = i + 1;
    }
    assert(value@.subrange(0, n as int) =~= value@);
    hash
}

/// Offset basis of the FNV-1 fold, `0x811C_9DC5` read as a signed 32-bit value.
pub const FNV1_OFFSET_BASIS: i32 = -2128831035;

/// Prime of the FNV-1 fold.
pub const FNV1_PRIME: i32 = 0x0100_0193;

/// The protocol's object hash over bytes (Java's `Arrays.hashCode(byte[])`):
/// starts at 1, then `h = 31 * h + b` for each byte read as signed, wrapping.
pub open spec fn bytes_hash_spec(b: Seq<u8>) -> i32
    decreases b.len(),
{
    if b.len() == 0 {
        1
    } else {
        let h = bytes_hash_spec(b.drop_last());
        31i32.wrapping_mul(h).wrapping_add(b.last() as i8 as i32)
    }
}

/// Computes the object hash code over the encoded field payload.
pub fn bytes_to_java_hashcode(data: &[u8]) -> (r: i32)
    ensures
        r == bytes_hash_spec(data@),
{
    let mut hash: i32 = 1;
    let mut i: usize = 0;
    while i < data.len()
        invariant
            i <= data@.len(),
            hash == bytes_hash_spec(data@.subrange(0, i as int)),
        decreases data@.len() - i,
    {
        let b = data[i];
        assert(data@.subrange(0, i + 1).drop_last() =~= data@.subrange(0, i as int));
        hash = 31i32.wrapping_mul(hash).wrapping_add(b as i8 as i32);
        i = i + 1;
    }
    assert(data@.subrange(0, data@.len() as int) =~= data@);
    hash
}

/// One FNV-1 step: fold a byte (given in the low 8 bits) into the accumulator.
pub open spec fn fnv_step(acc: i32, byte: i32) -> i32 {
    (acc ^ byte).wrapping_mul(FNV1_PRIME)
}

/// Folds the four bytes of a field identifier, least significant first.
pub open spec fn fnv_fold_id(acc: i32, id: i32) -> i32 {
    let a0 = fnv_step(acc, id & 0xFF);
    let a1 = fnv_step(a0, (id >> 8) & 0xFF);
    let a2 = fnv_step(a1, (id >> 16) & 0xFF);
    fnv_step(a2, (id >> 24) & 0xFF)
}

/// The schema identifier of an ordered sequence of field identifiers.
pub open spec fn schema_id_spec(ids: Seq<i32>) -> i32
    decreases ids.len(),
{
    if ids.len() == 0 {
        FNV1_OFFSET_BASIS
    } else {
        fnv_fold_id(schema_id_spec(ids.drop_last()), ids.last())
    }
}

fn fold_field_id(acc: i32, id: i32) -> (r: i32)
    ensures
        r == fnv_fold_id(acc, id),
{
    let mut res = acc;
    res = (res ^ (id & 0xFF)).wrapping_mul(FNV1_PRIME);
    res = (res ^ ((id >> 8) & 0xFF)).wrapping_mul(FNV1_PRIME);
    res = (res ^ ((id >> 16) & 0xFF)).wrapping_mul(FNV1_PRIME);
    res = (res ^ ((id >> 24) & 0xFF)).wrapping_mul(FNV1_PRIME);
    res
}

/// Computes the schema identifier of the given field identifiers, in order.
pub fn schema_id(field_ids: &[i32]) -> (r: i32)
    ensures
        r == schema_id_spec(field_ids@),
{
    let mut acc: i32 = FNV1_OFFSET_BASIS;
    let mut i: usize = 0;
    while i < field_ids.len()
        invariant
            i <= field_ids@.len(),
            acc == schema_id_spec(field_ids@.subrange(0, i as int)),
        decreases field_ids@.len() - i,
    {
        assert(field_ids@.subrange(0, i + 1).drop_last() =~= field_ids@.subrange(0, i as int));
        acc = fold_field_id(acc, field_ids[i]);
        i = i + 1;
    }
    assert(field_ids@.subrange(0, field_ids@.len() as int) =~= field_ids@);
    acc
}

/// The type identifier of a type: the explicit one where given, else the
/// hash of the type's name.
pub open spec fn type_id_spec(name: Seq<char>, explicit: Option<i32>) -> i32 {
    match explicit {
        Some(id) => id,
        None => string_hash_spec(name),
    }
}

/// Resolves the type identifier of a type from its name and an optional explicit value.
pub fn resolve_type_id(name: &str, explicit: Option<i32>) -> (r: i32)
    ensures
        r == type_id_spec(name@, explicit),
{
    match explicit {
        Some(id) => id,
        None => string_to_java_hashcode(name),
    }
}

} // verus!
