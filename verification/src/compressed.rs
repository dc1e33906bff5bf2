//! The compressed integers that metadata blobs hold (II.23.2).
//!
//! Unsigned values occupy 1, 2 or 4 bytes selected by the top bits of the first
//! byte. Signed values use the same three widths with the sign bit rotated into
//! the least significant position.
use vstd::prelude::*;

use crate::error::{Error, ErrorKind, Result};

verus! {

/// The largest value that a compressed unsigned integer can encode.
pub const MAX_COMPRESSED_U32: u32 = 0x1FFF_FFFF;

/// The context of the errors of this module.
pub const CONTEXT: &'static str = "compressed integer";

/// The bytes that encode `value`, in the smallest of the three widths that
/// holds it.
pub open spec fn encoded(value: int) -> Seq<u8>
    recommends
        0 <= value <= MAX_COMPRESSED_U32,
{
    if value < 0x80 {
        seq![value as u8]
    } else if value < 0x4000 {
        seq![(0x80 + value / 0x100) as u8, (value % 0x100) as u8]
    } else {
        seq![
            (0xC0 + value / 0x100_0000) as u8,
            (value / 0x1_0000 % 0x100) as u8,
            (value / 0x100 % 0x100) as u8,
            (value % 0x100) as u8,
        ]
    }
}

/// How many bytes an encoding that starts with `b0` takes; `None` for the
/// reserved prefix.
pub open spec fn width_of(b0: u8) -> Option<int> {
    if b0 < 0x80 {
        Some(1)
    } else if b0 < 0xC0 {
        Some(2)
    } else if b0 < 0xE0 {
        Some(4)
    } else {
        None
    }
}

/// The payload bits of an encoding of `width` bytes at the front of `bytes`.
pub open spec fn payload(bytes: Seq<u8>, width: int) -> int {
    if width == 1 {
        bytes[0] as int
    } else if width == 2 {
        (bytes[0] - 0x80) * 0x100 + bytes[1]
    } else {
        (bytes[0] - 0xC0) * 0x100_0000 + bytes[1] * 0x1_0000 + bytes[2] * 0x100 + bytes[3]
    }
}

/// The payload and width at the front of `bytes`, or why there is none.
pub open spec fn decoded_raw(bytes: Seq<u8>) -> Result<(int, int)> {
    if bytes.len() == 0 {
        Err(Error::at(ErrorKind::Truncated, 0, CONTEXT))
    } else {
        match width_of(bytes[0]) {
            None => Err(Error::at(ErrorKind::Malformed, 0, CONTEXT)),
            Some(width) => if bytes.len() < width {
                Err(Error::at(ErrorKind::Truncated, 1, CONTEXT))
            } else {
                Ok((payload(bytes, width), width))
            },
        }
    }
}

/// The unsigned integer at the front of `bytes` and its width.
pub open spec fn decoded_u32(bytes: Seq<u8>) -> Result<(u32, usize)> {
    match decoded_raw(bytes) {
        Ok((raw, width)) => Ok((raw as u32, width as usize)),
        Err(e) => Err(e),
    }
}

/// The signed integer whose rotated form is `raw` in an encoding of `width`
/// bytes: the lowest bit carries the sign.
pub open spec fn unrotated(raw: int, width: int) -> int {
    raw / 2 - if raw % 2 == 1 {
        sign_weight(width)
    } else {
        0
    }
}

/// The weight of the sign bit in an encoding of `width` bytes.
pub open spec fn sign_weight(width: int) -> int {
    if width == 1 {
        0x40
    } else if width == 2 {
        0x2000
    } else {
        0x1000_0000
    }
}

/// The signed integer at the front of `bytes` and its width.
pub open spec fn decoded_i32(bytes: Seq<u8>) -> Result<(i32, usize)> {
    match decoded_raw(bytes) {
        Ok((raw, width)) => Ok((unrotated(raw, width) as i32, width as usize)),
        Err(e) => Err(e),
    }
}

/// Decodes the payload at the front of `bytes`.
fn read_raw(bytes: &[u8]) -> (r: Result<(u32, usize)>)
    ensures
        r == decoded_u32(bytes@),
        r matches Ok((value, width)) ==> value <= MAX_COMPRESSED_U32 && decoded_raw(bytes@) == Ok::<
            (int, int),
            Error,
        >((value as int, width as int)),
{
    if bytes.len() == 0 {
        return Err(Error::new(ErrorKind::Truncated, 0, CONTEXT));
    }
    let b0: u32 = bytes[0] as u32;
    if b0 < 0x80 {
        Ok((b0, 1))
    } else if b0 < 0xC0 {
        if bytes.len() < 2 {
            return Err(Error::new(ErrorKind::Truncated, 1, CONTEXT));
        }
        Ok(((b0 - 0x80) * 0x100 + bytes[1] as u32, 2))
    } else if b0 < 0xE0 {
        if bytes.len() < 4 {
            return Err(Error::new(ErrorKind::Truncated, 1, CONTEXT));
        }
        let value: u32 = (b0 - 0xC0) * 0x100_0000 + bytes[1] as u32 * 0x1_0000 + bytes[2] as u32
            * 0x100 + bytes[3] as u32;
        Ok((value, 4))
    } else {
        Err(Error::new(ErrorKind::Malformed, 0, CONTEXT))
    }
}

/// Decodes a compressed unsigned integer from the front of `bytes`.
///
/// Returns the value and the number of bytes consumed.
pub fn read_u32(bytes: &[u8]) -> (r: Result<(u32, usize)>)
    ensures
        r == decoded_u32(bytes@),
        r matches Ok((value, width)) ==> value <= MAX_COMPRESSED_U32 && 1 <= width <= bytes@.len(),
{
    read_raw(bytes)
}

/// Decodes a compressed signed integer from the front of `bytes`.
///
/// Returns the value and the number of bytes consumed.
pub fn read_i32(bytes: &[u8]) -> (r: Result<(i32, usize)>)
    ensures
        r == decoded_i32(bytes@),
        r matches Ok((value, width)) ==> -0x1000_0000 <= value < 0x1000_0000 && 1 <= width
            <= bytes@.len(),
{
    let (raw, width): (u32, usize) = read_raw(bytes)?;
    let weight: i32 = if width == 1 {
        0x40
    } else if width == 2 {
        0x2000
    } else {
        0x1000_0000
    };
    let half: i32 = (raw / 2) as i32;
    if raw % 2 == 1 {
        Ok((half - weight, width))
    } else {
        Ok((half, width))
    }
}

/// Encodes `value` as a compressed unsigned integer.
///
/// Returns the byte count written into `out`, or `None` when `value` exceeds
/// [`MAX_COMPRESSED_U32`].
pub fn write_u32(value: u32, out: &mut [u8; 4]) -> (r: Option<usize>)
    ensures
        value > MAX_COMPRESSED_U32 ==> r is None && final(out)@ == old(out)@,
        value <= MAX_COMPRESSED_U32 ==> ({
            let n = encoded(value as int).len();
            &&& r == Some(n as usize)
            &&& final(out)@ == encoded(value as int) + old(out)@.skip(n as int)
        }),
{
    if value < 0x80 {
        out[0] = value as u8;
        assert(out@ =~= encoded(value as int) + old(out)@.skip(1));
        Some(1)
    } else if value < 0x4000 {
        out[0] = (0x80 + value / 0x100) as u8;
        out[1] = (value % 0x100) as u8;
        assert(out@ =~= encoded(value as int) + old(out)@.skip(2));
        Some(2)
    } else if value <= MAX_COMPRESSED_U32 {
        out[0] = (0xC0 + value / 0x100_0000) as u8;
        out[1] = (value / 0x1_0000 % 0x100) as u8;
        out[2] = (value / 0x100 % 0x100) as u8;
        out[3] = (value % 0x100) as u8;
        assert(out@ =~= encoded(value as int) + old(out)@.skip(4));
        Some(4)
    } else {
        None
    }
}

/// The bytes that encode the signed `value`: it is rotated within the smallest
/// width that holds it.
pub open spec fn encoded_signed(value: int) -> Seq<u8>
    recommends
        -0x1000_0000 <= value < 0x1000_0000,
{
    if -0x40 <= value < 0x40 {
        seq![rotated(value, 1) as u8]
    } else if -0x2000 <= value < 0x2000 {
        let raw = rotated(value, 2);
        seq![(0x80 + raw / 0x100) as u8, (raw % 0x100) as u8]
    } else {
        let raw = rotated(value, 4);
        seq![
            (0xC0 + raw / 0x100_0000) as u8,
            (raw / 0x1_0000 % 0x100) as u8,
            (raw / 0x100 % 0x100) as u8,
            (raw % 0x100) as u8,
        ]
    }
}

/// `value` with its sign moved to the lowest bit, for `width` bytes.
pub open spec fn rotated(value: int, width: int) -> int {
    if value < 0 {
        (value + sign_weight(width)) * 2 + 1
    } else {
        value * 2
    }
}

/// Reading gives back what writing wrote, whatever follows it.
pub proof fn lemma_write_then_read(value: u32, rest: Seq<u8>)
    requires
        value <= MAX_COMPRESSED_U32,
    ensures
        decoded_u32(encoded(value as int) + rest) == Ok::<(u32, usize), Error>(
            (value, encoded(value as int).len() as usize),
        ),
{
}

/// Reading gives back a signed value from its encoding, whatever follows it.
pub proof fn lemma_signed_round_trip(value: i32, rest: Seq<u8>)
    requires
        -0x1000_0000 <= value < 0x1000_0000,
    ensures
        decoded_i32(encoded_signed(value as int) + rest) == Ok::<(i32, usize), Error>(
            (value, encoded_signed(value as int).len() as usize),
        ),
{
    let bytes = encoded_signed(value as int) + rest;
    let width = encoded_signed(value as int).len() as int;
    let raw = rotated(value as int, width);
    assert(unrotated(raw, width) == value);
    if width == 1 {
        assert(bytes[0] == raw);
    } else if width == 2 {
        assert(bytes[0] == 0x80 + raw / 0x100);
        assert(bytes[1] == raw % 0x100);
    } else {
        assert(bytes[0] == 0xC0 + raw / 0x100_0000);
        assert(bytes[1] == raw / 0x1_0000 % 0x100);
        assert(bytes[2] == raw / 0x100 % 0x100);
        assert(bytes[3] == raw % 0x100);
    }
    assert(payload(bytes, width) == raw);
    assert(decoded_raw(bytes) == Ok::<(int, int), Error>((raw, width)));
}

/// Of a successful read, only the bytes that it consumed matter.
pub proof fn lemma_read_depends_on_consumed(bytes: Seq<u8>, rest: Seq<u8>)
    requires
        decoded_u32(bytes) is Ok,
    ensures
        ({
            let width = decoded_u32(bytes)->Ok_0.1;
            &&& 1 <= width <= bytes.len()
            &&& decoded_u32(bytes.take(width as int) + rest) == decoded_u32(bytes)
            &&& decoded_i32(bytes.take(width as int) + rest) == decoded_i32(bytes)
        }),
{
    let width = decoded_u32(bytes)->Ok_0.1 as int;
    let other = bytes.take(width) + rest;
    assert(forall|i: int| 0 <= i < width ==> other[i] == bytes[i]);
}

} // verus!
