use vstd::prelude::*;
use vstd::slice::{slice_subrange, slice_to_vec};
use vstd::utf8::{decode_utf8, valid_utf8};

use crate::error::{DiprError, Field, Observed};

verus! {

/// The big-endian unsigned 16-bit integer at `p`.
pub open spec fn be_u16_at(s: Seq<u8>, p: int) -> int {
    (s[p] as int) * 0x100 + (s[p + 1] as int)
}

/// The big-endian unsigned 32-bit integer at `p`.
pub open spec fn be_u32_at(s: Seq<u8>, p: int) -> int {
    (s[p] as int) * 0x100_0000 + (s[p + 1] as int) * 0x1_0000 + (s[p + 2] as int) * 0x100 + (
    s[p + 3] as int)
}

/// The two's-complement byte at `p`.
pub open spec fn i8_at(s: Seq<u8>, p: int) -> int {
    if s[p] >= 0x80 {
        s[p] as int - 0x100
    } else {
        s[p] as int
    }
}

/// The big-endian two's-complement 16-bit integer at `p`.
pub open spec fn be_i16_at(s: Seq<u8>, p: int) -> int {
    if be_u16_at(s, p) >= 0x8000 {
        be_u16_at(s, p) - 0x1_0000
    } else {
        be_u16_at(s, p)
    }
}

/// The big-endian two's-complement 32-bit integer at `p`.
pub open spec fn be_i32_at(s: Seq<u8>, p: int) -> int {
    if be_u32_at(s, p) >= 0x8000_0000 {
        be_u32_at(s, p) - 0x1_0000_0000
    } else {
        be_u32_at(s, p)
    }
}

/// The bits of an IEEE-754 single-precision value with its sign bit cleared.
pub open spec fn f32_magnitude(bits: u32) -> int {
    (bits as int) % 0x8000_0000
}

/// Whether the bits encode a NaN: all exponent bits set and a nonzero mantissa, which is
/// exactly a magnitude above that of infinity (`0x7f80_0000`).
pub open spec fn f32_is_nan(bits: u32) -> bool {
    f32_magnitude(bits) > 0x7f80_0000
}

/// A key that orders IEEE-754 single-precision values: for two patterns that are not NaN,
/// the value of one is below the value of the other exactly when its key is below the
/// other's key. Both zeros have key 0.
pub open spec fn f32_order_key(bits: u32) -> int {
    if bits < 0x8000_0000 {
        f32_magnitude(bits)
    } else {
        -f32_magnitude(bits)
    }
}

/// Whether the float with pattern `bits` lies in the closed interval from the float with
/// pattern `lo` to the float with pattern `hi`.
pub open spec fn f32_in_range(bits: u32, lo: u32, hi: u32) -> bool {
    &&& !f32_is_nan(bits)
    &&& f32_order_key(lo) <= f32_order_key(bits)
    &&& f32_order_key(bits) <= f32_order_key(hi)
}

/// The number of zero bytes that pad a text field of `len` bytes to a multiple of four.
pub open spec fn xdr_padding(len: int) -> int {
    (4 - len % 4) % 4
}

/// A length-prefixed text field at `p`: a big-endian `u32` length, that many bytes of
/// UTF-8, then padding to the next multiple of four. On success, the text and the position
/// after the padding.
pub open spec fn spec_take_string(s: Seq<u8>, p: int) -> Result<(Seq<char>, int), DiprError> {
    if p + 4 > s.len() {
        Err(DiprError::TruncatedInput)
    } else {
        let len = be_u32_at(s, p);
        let end = p + 4 + len;
        if end > s.len() {
            Err(DiprError::TruncatedInput)
        } else if !valid_utf8(s.subrange(p + 4, end)) {
            Err(DiprError::InvalidUtf8String)
        } else if end + xdr_padding(len) > s.len() {
            Err(DiprError::TruncatedInput)
        } else {
            Ok((decode_utf8(s.subrange(p + 4, end)), end + xdr_padding(len)))
        }
    }
}

/// Skips `n` bytes at `pos`, failing when fewer remain.
pub(crate) fn take_bytes(input: &[u8], pos: usize, n: usize) -> (r: Result<usize, DiprError>)
    requires
        pos <= input@.len(),
    ensures
        match r {
            Ok(q) => pos + n <= input@.len() && q == pos + n,
            Err(e) => pos + n > input@.len() && e == DiprError::TruncatedInput,
        },
{
    if n <= input.len() - pos {
        Ok(pos + n)
    } else {
        Err(DiprError::TruncatedInput)
    }
}

/// Reads one byte at `pos` as an `i8`.
pub(crate) fn take_i8(input: &[u8], pos: usize) -> (r: Result<(i8, usize), DiprError>)
    requires
        pos <= input@.len(),
    ensures
        match r {
            Ok((v, q)) => pos + 1 <= input@.len() && v as int == i8_at(input@, pos as int) && q
                == pos + 1,
            Err(e) => pos + 1 > input@.len() && e == DiprError::TruncatedInput,
        },
{
    let q = take_bytes(input, pos, 1)?;
    let b = input[pos];
    let v: i8 = if b >= 0x80 {
        ((b - 0x80) as i8) - 0x7f - 1
    } else {
        b as i8
    };
    Ok((v, q))
}

/// Reads a big-endian `u16` at `pos`.
pub(crate) fn take_u16(input: &[u8], pos: usize) -> (r: Result<(u16, usize), DiprError>)
    requires
        pos <= input@.len(),
    ensures
        match r {
            Ok((v, q)) => pos + 2 <= input@.len() && v as int == be_u16_at(input@, pos as int)
                && q == pos + 2,
            Err(e) => pos + 2 > input@.len() && e == DiprError::TruncatedInput,
        },
{
    let q = take_bytes(input, pos, 2)?;
    let v: u16 = (input[pos] as u16) * 0x100 + (input[pos + 1] as u16);
    Ok((v, q))
}

/// Reads a big-endian `i16` at `pos`.
pub(crate) fn take_i16(input: &[u8], pos: usize) -> (r: Result<(i16, usize), DiprError>)
    requires
        pos <= input@.len(),
    ensures
        match r {
            Ok((v, q)) => pos + 2 <= input@.len() && v as int == be_i16_at(input@, pos as int)
                && q == pos + 2,
            Err(e) => pos + 2 > input@.len() && e == DiprError::TruncatedInput,
        },
{
    let (u, q) = take_u16(input, pos)?;
    let v: i16 = if u >= 0x8000 {
        ((u - 0x8000) as i16) - 0x7fff - 1
    } else {
        u as i16
    };
    Ok((v, q))
}

/// Reads a big-endian `u32` at `pos`.
pub(crate) fn take_u32(input: &[u8], pos: usize) -> (r: Result<(u32, usize), DiprError>)
    requires
        pos <= input@.len(),
    ensures
        match r {
            Ok((v, q)) => pos + 4 <= input@.len() && v as int == be_u32_at(input@, pos as int)
                && q == pos + 4,
            Err(e) => pos + 4 > input@.len() && e == DiprError::TruncatedInput,
        },
{
    let q = take_bytes(input, pos, 4)?;
    let v: u32 = (input[pos] as u32) * 0x100_0000 + (input[pos + 1] as u32) * 0x1_0000 + (input[pos
        + 2] as u32) * 0x100 + (input[pos + 3] as u32);
    Ok((v, q))
}

/// Reads a big-endian `i32` at `pos`.
pub(crate) fn take_i32(input: &[u8], pos: usize) -> (r: Result<(i32, usize), DiprError>)
    requires
        pos <= input@.len(),
    ensures
        match r {
            Ok((v, q)) => pos + 4 <= input@.len() && v as int == be_i32_at(input@, pos as int)
                && q == pos + 4,
            Err(e) => pos + 4 > input@.len() && e == DiprError::TruncatedInput,
        },
{
    let (u, q) = take_u32(input, pos)?;
    let v: i32 = if u >= 0x8000_0000 {
        ((u - 0x8000_0000) as i32) - 0x7fff_ffff - 1
    } else {
        u as i32
    };
    Ok((v, q))
}

/// Relies on `String::from_utf8`: it accepts exactly the bytes that are valid UTF-8, and
/// then the string holds the characters they encode.
#[verifier::external_body]
fn utf8_to_string(bytes: Vec<u8>) -> (r: Option<String>)
    ensures
        r.is_some() == valid_utf8(bytes@),
        r matches Some(t) ==> t@ == decode_utf8(bytes@),
{
    String::from_utf8(bytes).ok()
}

/// Decodes the UTF-8 bytes from `start` to `end`.
pub(crate) fn take_text(input: &[u8], start: usize, end: usize) -> (r: Option<String>)
    requires
        start <= end <= input@.len(),
    ensures
        r.is_some() == valid_utf8(input@.subrange(start as int, end as int)),
        r matches Some(t) ==> t@ == decode_utf8(input@.subrange(start as int, end as int)),
{
    let bytes = slice_to_vec(slice_subrange(input, start, end));
    utf8_to_string(bytes)
}

/// Reads a length-prefixed, zero-padded text field at `pos`.
pub(crate) fn take_string(input: &[u8], pos: usize) -> (r: Result<(String, usize), DiprError>)
    requires
        pos <= input@.len(),
    ensures
        match r {
            Ok((t, q)) => spec_take_string(input@, pos as int) == Ok::<_, DiprError>((t@, q as int)),
            Err(e) => spec_take_string(input@, pos as int) == Err::<(Seq<char>, int), _>(e),
        },
{
    let (len, start) = take_u32(input, pos)?;
    let len = len as usize;
    let end = take_bytes(input, start, len)?;
    let text = match take_text(input, start, end) {
        Some(t) => t,
        None => return Err(DiprError::InvalidUtf8String),
    };
    let padding = (4 - len % 4) % 4;
    let q = take_bytes(input, end, padding)?;
    Ok((text, q))
}

/// Fails unless `actual` equals `expected`.
pub(crate) fn check_value(expected: i64, actual: i64, field: Field) -> (r: Result<(), DiprError>)
    ensures
        r == if actual == expected {
            Ok::<(), DiprError>(())
        } else {
            Err(DiprError::ValueOutOfRange(field, Observed::Int(actual)))
        },
{
    if actual == expected {
        Ok(())
    } else {
        Err(DiprError::ValueOutOfRange(field, Observed::Int(actual)))
    }
}

/// Fails unless `lo <= actual <= hi`.
pub(crate) fn check_range_inclusive(lo: i64, hi: i64, actual: i64, field: Field) -> (r: Result<
    (),
    DiprError,
>)
    ensures
        r == if lo <= actual <= hi {
            Ok::<(), DiprError>(())
        } else {
            Err(DiprError::ValueOutOfRange(field, Observed::Int(actual)))
        },
{
    if lo <= actual && actual <= hi {
        Ok(())
    } else {
        Err(DiprError::ValueOutOfRange(field, Observed::Int(actual)))
    }
}

/// The order key of a float pattern, see [`f32_order_key`].
fn order_key(bits: u32) -> (r: i64)
    ensures
        r == f32_order_key(bits),
{
    let magnitude = (bits % 0x8000_0000) as i64;
    if bits < 0x8000_0000 {
        magnitude
    } else {
        -magnitude
    }
}

/// Fails unless the float with pattern `actual` lies between those with patterns `lo` and
/// `hi`, both included; NaN always fails.
pub(crate) fn check_f32_range(lo: u32, hi: u32, actual: u32, field: Field) -> (r: Result<
    (),
    DiprError,
>)
    ensures
        r == if f32_in_range(actual, lo, hi) {
            Ok::<(), DiprError>(())
        } else {
            Err(DiprError::ValueOutOfRange(field, Observed::Float(actual)))
        },
{
    let is_nan = actual % 0x8000_0000 > 0x7f80_0000;
    let key = order_key(actual);
    if !is_nan && order_key(lo) <= key && key <= order_key(hi) {
        Ok(())
    } else {
        Err(DiprError::ValueOutOfRange(field, Observed::Float(actual)))
    }
}

} // verus!
