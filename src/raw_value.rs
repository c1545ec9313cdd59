//! Little-endian integer and string fields of binary variant records.
use vstd::prelude::*;

verus! {

/// Why a raw value could not be read.
#[derive(Clone, Copy, Debug, PartialEq, Eq, Structural)]
pub enum DecodeError {
    /// The input ended before the value did.
    UnexpectedEof,
}

/// The signed value of a byte in two's complement.
pub open spec fn i8_of(b: u8) -> int {
    if b < 0x80 {
        b as int
    } else {
        b - 0x100
    }
}

/// The signed value of two little-endian bytes in two's complement.
pub open spec fn i16_of(b0: u8, b1: u8) -> int {
    let u = b0 + 0x100 * b1;
    if u < 0x8000 {
        u
    } else {
        u - 0x1_0000
    }
}

/// The signed value of four little-endian bytes in two's complement.
pub open spec fn i32_of(b0: u8, b1: u8, b2: u8, b3: u8) -> int {
    let u = b0 + 0x100 * b1 + 0x1_0000 * b2 + 0x100_0000 * b3;
    if u < 0x8000_0000 {
        u
    } else {
        u - 0x1_0000_0000
    }
}

fn decode_i8(b: u8) -> (r: i8)
    ensures
        r as int == i8_of(b),
{
    if b < 0x80 {
        b as i8
    } else {
        (b as i16 - 0x100) as i8
    }
}

fn decode_i16(b0: u8, b1: u8) -> (r: i16)
    ensures
        r as int == i16_of(b0, b1),
{
    let u: u32 = b0 as u32 + 0x100 * b1 as u32;
    if u < 0x8000 {
        u as i16
    } else {
        (u as i32 - 0x1_0000) as i16
    }
}

fn decode_i32(b0: u8, b1: u8, b2: u8, b3: u8) -> (r: i32)
    ensures
        r as int == i32_of(b0, b1, b2, b3),
{
    let u: u64 = b0 as u64 + 0x100 * b1 as u64 + 0x1_0000 * b2 as u64 + 0x100_0000 * b3 as u64;
    if u < 0x8000_0000 {
        u as i32
    } else {
        (u as i64 - 0x1_0000_0000) as i32
    }
}

/// Reads one signed byte.
pub fn read_i8(src: &mut &[u8]) -> (r: Result<i8, DecodeError>)
    ensures
        r is Ok <==> old(src)@.len() >= 1,
        r matches Ok(n) ==> n as int == i8_of(old(src)@[0]) && final(src)@ == old(src)@.subrange(
            1,
            old(src)@.len() as int,
        ),
        r matches Err(e) ==> e == DecodeError::UnexpectedEof && final(src)@ == old(src)@,
{
    if src.len() < 1 {
        return Err(DecodeError::UnexpectedEof);
    }
    let (buf, rest) = src.split_at(1);
    let n = decode_i8(buf[0]);
    *src = rest;
    Ok(n)
}

/// Reads `len` signed bytes.
pub fn read_i8s(src: &mut &[u8], len: usize) -> (r: Result<Vec<i8>, DecodeError>)
    ensures
        r is Ok <==> old(src)@.len() >= len,
        r matches Ok(values) ==> values@.len() == len && (forall|i: int|
            0 <= i < len ==> #[trigger] values@[i] as int == i8_of(old(src)@[i])) && final(src)@
            == old(src)@.subrange(len as int, old(src)@.len() as int),
        r matches Err(e) ==> e == DecodeError::UnexpectedEof && final(src)@ == old(src)@,
{
    if src.len() < len {
        return Err(DecodeError::UnexpectedEof);
    }
    let (buf, rest) = src.split_at(len);
    let mut values: Vec<i8> = Vec::new();
    let mut i: usize = 0;
    while i < len
        invariant
            len <= old(src)@.len(),
            buf@ == old(src)@.subrange(0, len as int),
            i <= len,
            values@.len() == i,
            forall|j: int| 0 <= j < i ==> #[trigger] values@[j] as int == i8_of(buf@[j]),
        decreases len - i,
    {
        values.push(decode_i8(buf[i]));
        i = i + 1;
    }
    *src = rest;
    Ok(values)
}

/// Reads one little-endian 16-bit signed integer.
pub fn read_i16(src: &mut &[u8]) -> (r: Result<i16, DecodeError>)
    ensures
        r is Ok <==> old(src)@.len() >= 2,
        r matches Ok(n) ==> n as int == i16_of(old(src)@[0], old(src)@[1]) && final(src)@
            == old(src)@.subrange(2, old(src)@.len() as int),
        r matches Err(e) ==> e == DecodeError::UnexpectedEof && final(src)@ == old(src)@,
{
    if src.len() < 2 {
        return Err(DecodeError::UnexpectedEof);
    }
    let (buf, rest) = src.split_at(2);
    let n = decode_i16(buf[0], buf[1]);
    *src = rest;
    Ok(n)
}

/// Reads `len` little-endian 16-bit signed integers.
pub fn read_i16s(src: &mut &[u8], len: usize) -> (r: Result<Vec<i16>, DecodeError>)
    ensures
        r is Ok <==> old(src)@.len() >= 2 * len,
        r matches Ok(values) ==> values@.len() == len && (forall|i: int|
            0 <= i < len ==> #[trigger] values@[i] as int == i16_of(
                old(src)@[2 * i],
                old(src)@[2 * i + 1],
            )) && final(src)@ == old(src)@.subrange(2 * len, old(src)@.len() as int),
        r matches Err(e) ==> e == DecodeError::UnexpectedEof && final(src)@ == old(src)@,
{
    if len > src.len() / 2 {
        return Err(DecodeError::UnexpectedEof);
    }
    let (buf, rest) = src.split_at(2 * len);
    let total = buf.len();
    let mut values: Vec<i16> = Vec::new();
    let mut i: usize = 0;
    while i < len
        invariant
            2 * len <= old(src)@.len(),
            total == buf@.len(),
            buf@ == old(src)@.subrange(0, 2 * len),
            i <= len,
            values@.len() == i,
            forall|j: int| 0 <= j < i ==> #[trigger] values@[j] as int == i16_of(buf@[2 * j], buf@[2 * j + 1]),
        decreases len - i,
    {
        values.push(decode_i16(buf[2 * i], buf[2 * i + 1]));
        i = i + 1;
    }
    *src = rest;
    Ok(values)
}

/// Reads one little-endian 32-bit signed integer.
pub fn read_i32(src: &mut &[u8]) -> (r: Result<i32, DecodeError>)
    ensures
        r is Ok <==> old(src)@.len() >= 4,
        r matches Ok(n) ==> n as int == i32_of(old(src)@[0], old(src)@[1], old(src)@[2], old(src)@[3])
            && final(src)@ == old(src)@.subrange(4, old(src)@.len() as int),
        r matches Err(e) ==> e == DecodeError::UnexpectedEof && final(src)@ == old(src)@,
{
    if src.len() < 4 {
        return Err(DecodeError::UnexpectedEof);
    }
    let (buf, rest) = src.split_at(4);
    let n = decode_i32(buf[0], buf[1], buf[2], buf[3]);
    *src = rest;
    Ok(n)
}

/// Reads `len` little-endian 32-bit signed integers.
pub fn read_i32s(src: &mut &[u8], len: usize) -> (r: Result<Vec<i32>, DecodeError>)
    ensures
        r is Ok <==> old(src)@.len() >= 4 * len,
        r matches Ok(values) ==> values@.len() == len && (forall|i: int|
            0 <= i < len ==> #[trigger] values@[i] as int == i32_of(
                old(src)@[4 * i],
                old(src)@[4 * i + 1],
                old(src)@[4 * i + 2],
                old(src)@[4 * i + 3],
            )) && final(src)@ == old(src)@.subrange(4 * len, old(src)@.len() as int),
        r matches Err(e) ==> e == DecodeError::UnexpectedEof && final(src)@ == old(src)@,
{
    if len > src.len() / 4 {
        return Err(DecodeError::UnexpectedEof);
    }
    let (buf, rest) = src.split_at(4 * len);
    let total = buf.len();
    let mut values: Vec<i32> = Vec::new();
    let mut i: usize = 0;
    while i < len
        invariant
            4 * len <= old(src)@.len(),
            total == buf@.len(),
            buf@ == old(src)@.subrange(0, 4 * len),
            i <= len,
            values@.len() == i,
            forall|j: int|
                0 <= j < i ==> #[trigger] values@[j] as int == i32_of(
                    buf@[4 * j],
                    buf@[4 * j + 1],
                    buf@[4 * j + 2],
                    buf@[4 * j + 3],
                ),
        decreases len - i,
    {
        values.push(decode_i32(buf[4 * i], buf[4 * i + 1], buf[4 * i + 2], buf[4 * i + 3]));
        i = i + 1;
    }
    *src = rest;
    Ok(values)
}

/// Reads the next `len` bytes as they are.
pub fn read_string<'a>(src: &mut &'a [u8], len: usize) -> (r: Result<&'a [u8], DecodeError>)
    ensures
        r is Ok <==> old(src)@.len() >= len,
        r matches Ok(buf) ==> buf@ == old(src)@.subrange(0, len as int) && final(src)@ == old(
            src,
        )@.subrange(len as int, old(src)@.len() as int),
        r matches Err(e) ==> e == DecodeError::UnexpectedEof && final(src)@ == old(src)@,
{
    if src.len() < len {
        return Err(DecodeError::UnexpectedEof);
    }
    let (buf, rest) = src.split_at(len);
    *src = rest;
    Ok(buf)
}

} // verus!
