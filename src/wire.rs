use vstd::prelude::*;

verus! {

/// Why a byte stream could not be decoded.
#[derive(Debug, Clone, Copy, PartialEq, Eq, Structural)]
pub enum DecodeError {
    /// The stream ended before the value being read was complete.
    UnexpectedEnd,
    /// The object header does not announce a schema footer.
    SchemaExpected,
    /// The header asks for a compact footer or for one- or two-byte field offsets.
    UnsupportedFeature,
    /// The object was written for another type.
    TypeIdMismatch { expected: i32, received: i32 },
    /// A field that must hold a value was written as null.
    MissingField { index: usize },
    /// A field value carries a type code other than its declared one.
    UnexpectedTypeCode { expected_code: u8, received_code: u8 },
    /// A string value has a negative length or is not valid UTF-8.
    InvalidString,
}

/// Little-endian bytes of a 16-bit value.
pub open spec fn le_u16(x: u16) -> Seq<u8> {
    seq![x as u8, (x >> 8) as u8]
}

/// Little-endian bytes of a signed 32-bit value.
pub open spec fn le_i32(x: i32) -> Seq<u8> {
    let u = x as u32;
    seq![u as u8, (u >> 8) as u8, (u >> 16) as u8, (u >> 24) as u8]
}

/// Little-endian bytes of a signed 64-bit value.
pub open spec fn le_i64(x: i64) -> Seq<u8> {
    let u = x as u64;
    seq![
        u as u8, (u >> 8) as u8, (u >> 16) as u8, (u >> 24) as u8,
        (u >> 32) as u8, (u >> 40) as u8, (u >> 48) as u8, (u >> 56) as u8,
    ]
}

/// The 16-bit value whose little-endian bytes start at `pos`.
pub open spec fn u16_at(b: Seq<u8>, pos: int) -> u16 {
    (b[pos] as u16 | (b[pos + 1] as u16) << 8) as u16
}

/// The signed 32-bit value whose little-endian bytes start at `pos`.
pub open spec fn i32_at(b: Seq<u8>, pos: int) -> i32 {
    (b[pos] as u32 | (b[pos + 1] as u32) << 8 | (b[pos + 2] as u32) << 16 | (b[pos + 3] as u32)
        << 24) as i32
}

/// The signed 64-bit value whose little-endian bytes start at `pos`.
pub open spec fn i64_at(b: Seq<u8>, pos: int) -> i64 {
    (b[pos] as u64 | (b[pos + 1] as u64) << 8 | (b[pos + 2] as u64) << 16 | (b[pos + 3] as u64)
        << 24 | (b[pos + 4] as u64) << 32 | (b[pos + 5] as u64) << 40 | (b[pos + 6] as u64) << 48
        | (b[pos + 7] as u64) << 56) as i64
}

/// Whether `n` more bytes can be read from `pos`.
pub open spec fn has_bytes(b: Seq<u8>, pos: int, n: int) -> bool {
    0 <= pos && pos + n <= b.len()
}

/// Appends a 16-bit value, least significant byte first.
pub fn push_u16(out: &mut Vec<u8>, x: u16)
    ensures
        final(out)@ == old(out)@ + le_u16(x),
{
    out.push(x as u8);
    out.push((x >> 8) as u8);
    assert(final(out)@ =~= old(out)@ + le_u16(x));
}

/// Appends a signed 32-bit value, least significant byte first.
pub fn push_i32(out: &mut Vec<u8>, x: i32)
    ensures
        final(out)@ == old(out)@ + le_i32(x),
{
    let u = x as u32;
    out.push(u as u8);
    out.push((u >> 8) as u8);
    out.push((u >> 16) as u8);
    out.push((u >> 24) as u8);
    assert(final(out)@ =~= old(out)@ + le_i32(x));
}

/// Appends a signed 64-bit value, least significant byte first.
pub fn push_i64(out: &mut Vec<u8>, x: i64)
    ensures
        final(out)@ == old(out)@ + le_i64(x),
{
    let u = x as u64;
    out.push(u as u8);
    out.push((u >> 8) as u8);
    out.push((u >> 16) as u8);
    out.push((u >> 24) as u8);
    out.push((u >> 32) as u8);
    out.push((u >> 40) as u8);
    out.push((u >> 48) as u8);
    out.push((u >> 56) as u8);
    assert(final(out)@ =~= old(out)@ + le_i64(x));
}

/// Appends `src` to `out`.
pub fn push_all(out: &mut Vec<u8>, src: &[u8])
    ensures
        final(out)@ == old(out)@ + src@,
{
    let mut i: usize = 0;
    while i < src.len()
        invariant
            i <= src@.len(),
            out@ == old(out)@ + src@.subrange(0, i as int),
        decreases src@.len() - i,
    {
        out.push(src[i]);
        i = i + 1;
        assert(out@ =~= old(out)@ + src@.subrange(0, i as int));
    }
    assert(src@.subrange(0, src@.len() as int) =~= src@);
}

/// Checks that `n` bytes remain after `pos`, else reports the end of the stream.
pub fn ensure_bytes(data: &[u8], pos: usize, n: usize) -> (r: Result<(), DecodeError>)
    ensures
        r is Ok <==> has_bytes(data@, pos as int, n as int),
        r is Err ==> r == Err::<(), DecodeError>(DecodeError::UnexpectedEnd),
{
    if pos <= data.len() && data.len() - pos >= n {
        Ok(())
    } else {
        Err(DecodeError::UnexpectedEnd)
    }
}

/// Reads one byte at `*pos` and moves past it.
pub fn read_u8(data: &[u8], pos: &mut usize) -> (r: Result<u8, DecodeError>)
    ensures
        match r {
            Ok(v) => has_bytes(data@, *old(pos) as int, 1) && v == data@[*old(pos) as int]
                && *final(pos) == *old(pos) + 1,
            Err(e) => !has_bytes(data@, *old(pos) as int, 1) && e == DecodeError::UnexpectedEnd,
        },
{
    ensure_bytes(data, *pos, 1)?;
    let v = data[*pos];
    *pos = *pos + 1;
    Ok(v)
}

/// Reads a little-endian 16-bit value at `*pos` and moves past it.
pub fn read_u16(data: &[u8], pos: &mut usize) -> (r: Result<u16, DecodeError>)
    ensures
        match r {
            Ok(v) => has_bytes(data@, *old(pos) as int, 2) && v == u16_at(data@, *old(pos) as int)
                && *final(pos) == *old(pos) + 2,
            Err(e) => !has_bytes(data@, *old(pos) as int, 2) && e == DecodeError::UnexpectedEnd,
        },
{
    ensure_bytes(data, *pos, 2)?;
    let p = *pos;
    let v = (data[p] as u16 | (data[p + 1] as u16) << 8) as u16;
    *pos = p + 2;
    Ok(v)
}

/// Reads a little-endian signed 32-bit value at `*pos` and moves past it.
pub fn read_i32(data: &[u8], pos: &mut usize) -> (r: Result<i32, DecodeError>)
    ensures
        match r {
            Ok(v) => has_bytes(data@, *old(pos) as int, 4) && v == i32_at(data@, *old(pos) as int)
                && *final(pos) == *old(pos) + 4,
            Err(e) => !has_bytes(data@, *old(pos) as int, 4) && e == DecodeError::UnexpectedEnd,
        },
{
    ensure_bytes(data, *pos, 4)?;
    let p = *pos;
    let v = (data[p] as u32 | (data[p + 1] as u32) << 8 | (data[p + 2] as u32) << 16
        | (data[p + 3] as u32) << 24) as i32;
    *pos = p + 4;
    Ok(v)
}

/// Reads a little-endian signed 64-bit value at `*pos` and moves past it.
pub fn read_i64(data: &[u8], pos: &mut usize) -> (r: Result<i64, DecodeError>)
    ensures
        match r {
            Ok(v) => has_bytes(data@, *old(pos) as int, 8) && v == i64_at(data@, *old(pos) as int)
                && *final(pos) == *old(pos) + 8,
            Err(e) => !has_bytes(data@, *old(pos) as int, 8) && e == DecodeError::UnexpectedEnd,
        },
{
    ensure_bytes(data, *pos, 8)?;
    let p = *pos;
    let v = (data[p] as u64 | (data[p + 1] as u64) << 8 | (data[p + 2] as u64) << 16
        | (data[p + 3] as u64) << 24 | (data[p + 4] as u64) << 32 | (data[p + 5] as u64) << 40
        | (data[p + 6] as u64) << 48 | (data[p + 7] as u64) << 56) as i64;
    *pos = p + 8;
    Ok(v)
}

/// Reading back the bytes of a 16-bit value gives the value.
pub proof fn lemma_u16_round_trip(x: u16, pre: Seq<u8>, post: Seq<u8>)
    ensures
        u16_at(pre + le_u16(x) + post, pre.len() as int) == x,
{
    let b = pre + le_u16(x) + post;
    let p = pre.len() as int;
    assert(b[p] == x as u8 && b[p + 1] == (x >> 8) as u8);
    assert(((x as u8) as u16 | (((x >> 8) as u8) as u16) << 8) as u16 == x) by (bit_vector);
}

/// Reading back the bytes of a signed 32-bit value gives the value.
pub proof fn lemma_i32_round_trip(x: i32, pre: Seq<u8>, post: Seq<u8>)
    ensures
        i32_at(pre + le_i32(x) + post, pre.len() as int) == x,
{
    let b = pre + le_i32(x) + post;
    let p = pre.len() as int;
    let u = x as u32;
    assert(b[p] == u as u8 && b[p + 1] == (u >> 8) as u8 && b[p + 2] == (u >> 16) as u8 && b[p
        + 3] == (u >> 24) as u8);
    assert(((u as u8) as u32 | (((u >> 8) as u8) as u32) << 8 | (((u >> 16) as u8) as u32) << 16
        | (((u >> 24) as u8) as u32) << 24) == u) by (bit_vector);
    assert((x as u32) as i32 == x) by (bit_vector);
}

/// Reading back the bytes of a signed 64-bit value gives the value.
pub proof fn lemma_i64_round_trip(x: i64, pre: Seq<u8>, post: Seq<u8>)
    ensures
        i64_at(pre + le_i64(x) + post, pre.len() as int) == x,
{
    let b = pre + le_i64(x) + post;
    let p = pre.len() as int;
    let u = x as u64;
    assert(b[p] == u as u8 && b[p + 1] == (u >> 8) as u8 && b[p + 2] == (u >> 16) as u8 && b[p
        + 3] == (u >> 24) as u8 && b[p + 4] == (u >> 32) as u8 && b[p + 5] == (u >> 40) as u8
        && b[p + 6] == (u >> 48) as u8 && b[p + 7] == (u >> 56) as u8);
    assert(((u as u8) as u64 | (((u >> 8) as u8) as u64) << 8 | (((u >> 16) as u8) as u64) << 16
        | (((u >> 24) as u8) as u64) << 24 | (((u >> 32) as u8) as u64) << 32 | (((u >> 40) as u8)
        as u64) << 40 | (((u >> 48) as u8) as u64) << 48 | (((u >> 56) as u8) as u64) << 56) == u)
        by (bit_vector);
    assert((x as u64) as i64 == x) by (bit_vector);
}

} // verus!
