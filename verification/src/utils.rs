//! Wire primitives: cursor-based reads of fixed-width little-endian integers,
//! raw byte runs, and Bitcoin's variable-length integers.

use vstd::prelude::*;

use crate::structures::WireError;

verus! {

/// The network's framing constant, `F9 BE B4 D9`, as a byte sequence.
pub open spec fn magic_bytes() -> Seq<u8> {
    seq![0xf9u8, 0xbeu8, 0xb4u8, 0xd9u8]
}

/// How many bytes a varint whose first byte is `first` occupies in all,
/// prefix included.
pub open spec fn spec_var_int_size(first: u8) -> int {
    if first < 0xfd {
        1
    } else if first == 0xfd {
        3
    } else if first == 0xfe {
        5
    } else {
        9
    }
}

/// The value a varint at the front of `s` denotes.
pub open spec fn spec_var_int_value(s: Seq<u8>) -> u64
    recommends
        s.len() >= 1,
        s.len() >= spec_var_int_size(s[0]),
{
    if s[0] < 0xfd {
        s[0] as u64
    } else if s[0] == 0xfd {
        vstd::bytes::spec_u16_from_le_bytes(s.subrange(1, 3)) as u64
    } else if s[0] == 0xfe {
        vstd::bytes::spec_u32_from_le_bytes(s.subrange(1, 5)) as u64
    } else {
        vstd::bytes::spec_u64_from_le_bytes(s.subrange(1, 9))
    }
}

/// The canonical varint encoding of `v`: the shortest form whose prefix
/// admits the value.
pub open spec fn spec_var_int_encode(v: u64) -> Seq<u8> {
    if v < 0xfd {
        seq![v as u8]
    } else if v <= 0xffff {
        seq![0xfdu8] + vstd::bytes::spec_u16_to_le_bytes(v as u16)
    } else if v <= 0xffffffff {
        seq![0xfeu8] + vstd::bytes::spec_u32_to_le_bytes(v as u32)
    } else {
        seq![0xffu8] + vstd::bytes::spec_u64_to_le_bytes(v)
    }
}

/// Reads `length` bytes at `*start`, advancing the cursor.
///
/// Succeeds exactly when the requested run lies inside `data`; a read past
/// the end fails with `TruncatedInput` and leaves the cursor unchanged.
pub fn read_bytes(data: &[u8], start: &mut usize, length: usize) -> (r: Result<
    Vec<u8>,
    WireError,
>)
    ensures
        r is Ok <==> *old(start) + length <= data@.len(),
        r matches Ok(v) ==> {
            &&& v@ == data@.subrange(*old(start) as int, *old(start) + length)
            &&& *final(start) == *old(start) + length
        },
        r is Err ==> r == Err::<Vec<u8>, WireError>(WireError::TruncatedInput) && *final(start)
            == *old(start),
{
    if *start > data.len() || length > data.len() - *start {
        return Err(WireError::TruncatedInput);
    }
    let piece = vstd::slice::slice_subrange(data, *start, *start + length);
    let out = vstd::slice::slice_to_vec(piece);
    *start = *start + length;
    Ok(out)
}

/// Reads a little-endian `u32` at `*start`, advancing the cursor by four.
pub fn read_u32(data: &[u8], start: &mut usize) -> (r: Result<u32, WireError>)
    ensures
        r is Ok <==> *old(start) + 4 <= data@.len(),
        r matches Ok(v) ==> {
            &&& v == vstd::bytes::spec_u32_from_le_bytes(
                data@.subrange(*old(start) as int, *old(start) + 4),
            )
            &&& *final(start) == *old(start) + 4
        },
        r is Err ==> r == Err::<u32, WireError>(WireError::TruncatedInput) && *final(start)
            == *old(start),
{
    let bytes = read_bytes(data, start, 4)?;
    Ok(vstd::bytes::u32_from_le_bytes(bytes.as_slice()))
}

/// Reads a little-endian `u64` at `*start`, advancing the cursor by eight.
pub fn read_u64(data: &[u8], start: &mut usize) -> (r: Result<u64, WireError>)
    ensures
        r is Ok <==> *old(start) + 8 <= data@.len(),
        r matches Ok(v) ==> {
            &&& v == vstd::bytes::spec_u64_from_le_bytes(
                data@.subrange(*old(start) as int, *old(start) + 8),
            )
            &&& *final(start) == *old(start) + 8
        },
        r is Err ==> r == Err::<u64, WireError>(WireError::TruncatedInput) && *final(start)
            == *old(start),
{
    let bytes = read_bytes(data, start, 8)?;
    Ok(vstd::bytes::u64_from_le_bytes(bytes.as_slice()))
}

/// Decodes the varint at the front of `payload`, returning its value and how
/// many bytes it occupied: one below the `0xFD` prefix, three after `0xFD`,
/// five after `0xFE`, nine after `0xFF`.
pub fn read_var_int(payload: &[u8]) -> (r: Result<(u64, usize), WireError>)
    ensures
        r is Ok <==> payload@.len() >= 1 && payload@.len() >= spec_var_int_size(payload@[0]),
        r matches Ok((v, off)) ==> {
            &&& off == spec_var_int_size(payload@[0])
            &&& v == spec_var_int_value(payload@)
        },
        r is Err ==> r == Err::<(u64, usize), WireError>(WireError::TruncatedInput),
{
    if payload.len() < 1 {
        return Err(WireError::TruncatedInput);
    }
    let first = payload[0];
    if first < 0xfd {
        Ok((first as u64, 1))
    } else if first == 0xfd {
        if payload.len() < 3 {
            return Err(WireError::TruncatedInput);
        }
        let v = vstd::bytes::u16_from_le_bytes(vstd::slice::slice_subrange(payload, 1, 3));
        Ok((v as u64, 3))
    } else if first == 0xfe {
        if payload.len() < 5 {
            return Err(WireError::TruncatedInput);
        }
        let v = vstd::bytes::u32_from_le_bytes(vstd::slice::slice_subrange(payload, 1, 5));
        Ok((v as u64, 5))
    } else {
        if payload.len() < 9 {
            return Err(WireError::TruncatedInput);
        }
        let v = vstd::bytes::u64_from_le_bytes(vstd::slice::slice_subrange(payload, 1, 9));
        Ok((v, 9))
    }
}

/// Encodes `v` in the canonical varint form.
pub fn write_var_int(v: u64) -> (r: Vec<u8>)
    ensures
        r@ == spec_var_int_encode(v),
{
    let mut out: Vec<u8> = Vec::new();
    if v < 0xfd {
        out.push(v as u8);
    } else if v <= 0xffff {
        out.push(0xfd);
        let mut tail = vstd::bytes::u16_to_le_bytes(v as u16);
        out.append(&mut tail);
    } else if v <= 0xffffffff {
        out.push(0xfe);
        let mut tail = vstd::bytes::u32_to_le_bytes(v as u32);
        out.append(&mut tail);
    } else {
        out.push(0xff);
        let mut tail = vstd::bytes::u64_to_le_bytes(v);
        out.append(&mut tail);
    }
    proof {
        assert(out@ =~= spec_var_int_encode(v));
    }
    out
}

/// Varint round trip: decoding the canonical encoding of any value yields
/// that value back, and the encoding's length is the one its prefix
/// announces.
pub proof fn lemma_var_int_round_trip(v: u64)
    ensures
        spec_var_int_encode(v).len() == spec_var_int_size(spec_var_int_encode(v)[0]),
        spec_var_int_value(spec_var_int_encode(v)) == v,
        v < 0xfd ==> spec_var_int_encode(v).len() == 1,
        0xfd <= v <= 0xffff ==> spec_var_int_encode(v).len() == 3,
        0xffff < v <= 0xffffffff ==> spec_var_int_encode(v).len() == 5,
        0xffffffff < v ==> spec_var_int_encode(v).len() == 9,
{
    let enc = spec_var_int_encode(v);
    if v < 0xfd {
    } else if v <= 0xffff {
        vstd::bytes::lemma_auto_spec_u16_to_from_le_bytes();
        assert(enc.subrange(1, 3) =~= vstd::bytes::spec_u16_to_le_bytes(v as u16));
    } else if v <= 0xffffffff {
        vstd::bytes::lemma_auto_spec_u32_to_from_le_bytes();
        assert(enc.subrange(1, 5) =~= vstd::bytes::spec_u32_to_le_bytes(v as u32));
    } else {
        vstd::bytes::lemma_auto_spec_u64_to_from_le_bytes();
        assert(enc.subrange(1, 9) =~= vstd::bytes::spec_u64_to_le_bytes(v));
    }
}

/// Reads a varint-length-prefixed byte string at `*start`, advancing the
/// cursor past both the prefix and the bytes it counts.
pub fn read_var_bytes(data: &[u8], start: &mut usize) -> (r: Result<Vec<u8>, WireError>)
    ensures
        ({
            let rest = data@.skip(*old(start) as int);
            &&& r is Ok <==> {
                &&& *old(start) <= data@.len()
                &&& rest.len() >= 1
                &&& rest.len() >= spec_var_int_size(rest[0])
                &&& *old(start) + spec_var_int_size(rest[0]) + spec_var_int_value(rest)
                    <= data@.len()
            }
            &&& r matches Ok(v) ==> {
                let off = spec_var_int_size(rest[0]);
                let n = spec_var_int_value(rest) as int;
                &&& v@ == data@.subrange(*old(start) + off, *old(start) + off + n)
                &&& *final(start) == *old(start) + off + n
            }
            &&& r is Err ==> r == Err::<Vec<u8>, WireError>(WireError::TruncatedInput)
        }),
{
    if *start > data.len() {
        return Err(WireError::TruncatedInput);
    }
    let rest = vstd::slice::slice_subrange(data, *start, data.len());
    let (length, offset) = read_var_int(rest)?;
    if length > (data.len() - *start - offset) as u64 {
        return Err(WireError::TruncatedInput);
    }
    *start = *start + offset;
    read_bytes(data, start, length as usize)
}

} // verus!
