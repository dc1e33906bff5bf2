//! A bounds-checked little-endian cursor.
//!
//! Every read either succeeds and advances the cursor by exactly the width of
//! the value, or fails with [`ErrorKind::Truncated`] naming the absolute offset
//! at which the read started, and leaves the cursor where it was.
use vstd::prelude::*;

use crate::error;
use crate::error::{Error, ErrorKind, Result};

verus! {

/// The 16-bit little-endian value at `at`.
pub open spec fn le16(data: Seq<u8>, at: int) -> u16 {
    (data[at] + data[at + 1] * 0x100) as u16
}

/// The 32-bit little-endian value at `at`.
pub open spec fn le32(data: Seq<u8>, at: int) -> u32 {
    (le16(data, at) + le16(data, at + 2) * 0x1_0000) as u32
}

/// The 64-bit little-endian value at `at`.
pub open spec fn le64(data: Seq<u8>, at: int) -> u64 {
    (le32(data, at) + le32(data, at + 4) * 0x1_0000_0000) as u64
}

/// `byte` read as a two's complement number.
pub open spec fn signed8(byte: u8) -> i8 {
    (if byte < 0x80 {
        byte as int
    } else {
        byte - 0x100
    }) as i8
}

/// `value` read as a two's complement number.
pub open spec fn signed32(value: u32) -> i32 {
    (if value < 0x8000_0000 {
        value as int
    } else {
        value - 0x1_0000_0000
    }) as i32
}

/// `value` read as a two's complement number.
pub open spec fn signed64(value: u64) -> i64 {
    (if value < 0x8000_0000_0000_0000 {
        value as int
    } else {
        value - 0x1_0000_0000_0000_0000
    }) as i64
}

/// How many bytes lie between `n` and the next multiple of `align`.
pub open spec fn padding(n: nat, align: nat) -> nat
    recommends
        align > 0,
{
    if n % align == 0 {
        0
    } else {
        (align - n % align) as nat
    }
}

/// True when the bytes of `part` lie at `at` of `data`.
#[verifier::opaque]
pub open spec fn lies_at(data: Seq<u8>, at: int, part: Seq<u8>) -> bool {
    0 <= at && at + part.len() <= data.len() && data.subrange(at, at + part.len()) == part
}

/// The two bytes of `n`, least significant first.
pub open spec fn written16(n: u16) -> Seq<u8> {
    seq![(n % 0x100) as u8, (n / 0x100) as u8]
}

/// The four bytes of `n`, least significant first.
pub open spec fn written32(n: u32) -> Seq<u8> {
    seq![
        (n % 0x100) as u8,
        (n / 0x100 % 0x100) as u8,
        (n / 0x1_0000 % 0x100) as u8,
        (n / 0x100_0000) as u8,
    ]
}

/// The eight bytes of `n`, least significant first.
pub open spec fn written64(n: u64) -> Seq<u8> {
    written32((n % 0x1_0000_0000) as u32) + written32((n / 0x1_0000_0000) as u32)
}

/// The byte that stands for `n` in two's complement.
pub open spec fn unsigned8(n: i8) -> u8 {
    (if n < 0 {
        n + 0x100
    } else {
        n as int
    }) as u8
}

/// The 32 bits that stand for `n` in two's complement.
pub open spec fn unsigned32(n: i32) -> u32 {
    (if n < 0 {
        n + 0x1_0000_0000
    } else {
        n as int
    }) as u32
}

/// The 64 bits that stand for `n` in two's complement.
pub open spec fn unsigned64(n: i64) -> u64 {
    (if n < 0 {
        n + 0x1_0000_0000_0000_0000
    } else {
        n as int
    }) as u64
}

/// What lies in two parts lies part by part.
pub proof fn lemma_lies_in_parts(data: Seq<u8>, at: int, a: Seq<u8>, b: Seq<u8>)
    requires
        lies_at(data, at, a + b),
    ensures
        lies_at(data, at, a),
        lies_at(data, at + a.len(), b),
        0 <= at,
        at + a.len() + b.len() <= data.len(),
{
    reveal(lies_at);
    let whole = data.subrange(at, at + (a + b).len());
    assert(data.subrange(at, at + a.len()) =~= a) by {
        assert forall|i: int| 0 <= i < a.len() implies data[at + i] == a[i] by {
            assert(whole[i] == (a + b)[i]);
        }
    }
    assert(data.subrange(at + a.len(), at + a.len() + b.len()) =~= b) by {
        assert forall|i: int| 0 <= i < b.len() implies data[at + a.len() + i] == b[i] by {
            assert(whole[a.len() + i] == (a + b)[a.len() + i]);
        }
    }
}

/// The first byte of what lies somewhere is found there.
pub proof fn lemma_lies_first(data: Seq<u8>, at: int, part: Seq<u8>)
    requires
        lies_at(data, at, part),
        part.len() > 0,
    ensures
        0 <= at,
        at + part.len() <= data.len(),
        data[at] == part[0],
{
    reveal(lies_at);
    assert(data.subrange(at, at + part.len())[0] == part[0]);
}

/// A byte that lies somewhere is found there.
pub proof fn lemma_byte_reads_back(data: Seq<u8>, at: int, n: u8)
    requires
        lies_at(data, at, seq![n]),
    ensures
        0 <= at < data.len(),
        data[at] == n,
{
    reveal(lies_at);
    assert(data.subrange(at, at + 1)[0] == seq![n][0]);
}

/// A 16-bit value that was written is read back.
pub proof fn lemma_written16_reads_back(data: Seq<u8>, at: int, n: u16)
    requires
        lies_at(data, at, written16(n)),
    ensures
        at + 2 <= data.len(),
        le16(data, at) == n,
{
    reveal(lies_at);
    let part = data.subrange(at, at + 2);
    assert(part[0] == written16(n)[0] && part[1] == written16(n)[1]);
}

/// A 32-bit value that was written is read back.
pub proof fn lemma_written32_reads_back(data: Seq<u8>, at: int, n: u32)
    requires
        lies_at(data, at, written32(n)),
    ensures
        at + 4 <= data.len(),
        le32(data, at) == n,
{
    reveal(lies_at);
    let part = data.subrange(at, at + 4);
    let all = written32(n);
    assert(part[0] == all[0] && part[1] == all[1] && part[2] == all[2] && part[3] == all[3]);
    assert(data[at] == part[0] && data[at + 1] == part[1] && data[at + 2] == part[2] && data[at + 3]
        == part[3]);
}

/// A 64-bit value that was written is read back.
pub proof fn lemma_written64_reads_back(data: Seq<u8>, at: int, n: u64)
    requires
        lies_at(data, at, written64(n)),
    ensures
        at + 8 <= data.len(),
        le64(data, at) == n,
{
    let low = (n % 0x1_0000_0000) as u32;
    let high = (n / 0x1_0000_0000) as u32;
    lemma_lies_in_parts(data, at, written32(low), written32(high));
    lemma_written32_reads_back(data, at, low);
    lemma_written32_reads_back(data, at + 4, high);
}

/// A 16-bit value that was written first is read, and the rest lies behind it.
pub proof fn lemma_take16(data: Seq<u8>, at: int, n: u16, rest: Seq<u8>)
    requires
        lies_at(data, at, written16(n) + rest),
    ensures
        0 <= at,
        at + 2 + rest.len() <= data.len(),
        le16(data, at) == n,
        lies_at(data, at + 2, rest),
{
    lemma_lies_in_parts(data, at, written16(n), rest);
    lemma_written16_reads_back(data, at, n);
}

/// A 32-bit value that was written first is read, and the rest lies behind it.
pub proof fn lemma_take32(data: Seq<u8>, at: int, n: u32, rest: Seq<u8>)
    requires
        lies_at(data, at, written32(n) + rest),
    ensures
        0 <= at,
        at + 4 + rest.len() <= data.len(),
        le32(data, at) == n,
        lies_at(data, at + 4, rest),
{
    lemma_lies_in_parts(data, at, written32(n), rest);
    lemma_written32_reads_back(data, at, n);
}

/// A 64-bit value that was written first is read, and the rest lies behind it.
pub proof fn lemma_take64(data: Seq<u8>, at: int, n: u64, rest: Seq<u8>)
    requires
        lies_at(data, at, written64(n) + rest),
    ensures
        0 <= at,
        at + 8 + rest.len() <= data.len(),
        le64(data, at) == n,
        lies_at(data, at + 8, rest),
{
    lemma_lies_in_parts(data, at, written64(n), rest);
    lemma_written64_reads_back(data, at, n);
}

/// Two's complement gives every signed value back.
pub proof fn lemma_signed_reads_back(a: i8, b: i32, c: i64)
    ensures
        signed8(unsigned8(a)) == a,
        signed32(unsigned32(b)) == b,
        signed64(unsigned64(c)) == c,
{
}

/// The 16-bit little-endian value at `at`.
pub fn u16_at(data: &[u8], at: usize) -> (value: u16)
    requires
        at + 2 <= data.len(),
    ensures
        value == le16(data@, at as int),
{
    data[at] as u16 + data[at + 1] as u16 * 0x100
}

/// The 32-bit little-endian value at `at`.
pub fn u32_at(data: &[u8], at: usize) -> (value: u32)
    requires
        at + 4 <= data.len(),
    ensures
        value == le32(data@, at as int),
{
    u16_at(data, at) as u32 + u16_at(data, at + 2) as u32 * 0x1_0000
}

/// The 64-bit little-endian value at `at`.
pub fn u64_at(data: &[u8], at: usize) -> (value: u64)
    requires
        at + 8 <= data.len(),
    ensures
        value == le64(data@, at as int),
{
    u32_at(data, at) as u64 + u32_at(data, at + 4) as u64 * 0x1_0000_0000
}

/// A cursor over a byte slice, tracking an absolute base offset so that errors
/// can name a position in the original input rather than in a sub-slice.
#[derive(Clone, Copy, Debug)]
pub struct Reader<'a> {
    /// The bytes being read.
    pub data: &'a [u8],
    /// The cursor, relative to the start of `data`.
    pub pos: usize,
    /// Where `data` starts in the original input.
    pub base: usize,
    /// The context that errors carry.
    pub context: &'static str,
}

impl<'a> Reader<'a> {
    /// The cursor lies within the data.
    pub open spec fn wf(self) -> bool {
        self.pos <= self.data.len()
    }

    /// This reader with its cursor moved to `pos`.
    pub open spec fn moved_to(self, pos: int) -> Reader<'a> {
        Reader { data: self.data, pos: pos as usize, base: self.base, context: self.context }
    }

    /// True when `n` more bytes can be read.
    pub open spec fn has(self, n: int) -> bool {
        self.pos + n <= self.data.len()
    }

    /// The error of kind `kind` at the cursor.
    pub open spec fn failure(self, kind: ErrorKind) -> Error {
        Error::at(kind, error::saturating(self.base as int, self.pos as int), self.context)
    }

    /// What a read of `width` bytes gives: `value`, or the truncation error.
    pub open spec fn reads<T>(self, width: int, value: T) -> Result<T> {
        if self.has(width) {
            Ok(value)
        } else {
            Err(self.failure(ErrorKind::Truncated))
        }
    }

    /// Where a read of `width` bytes leaves the cursor.
    pub open spec fn after(self, width: int) -> Reader<'a> {
        if self.has(width) {
            self.moved_to(self.pos + width)
        } else {
            self
        }
    }

    /// A reader at the start of `data`, which starts at `base` of the input.
    pub fn new(data: &'a [u8], base: usize, context: &'static str) -> (r: Self)
        ensures
            r == (Reader { data, pos: 0, base, context }),
            r.wf(),
    {
        Reader { data, pos: 0, base, context }
    }

    /// The cursor, relative to the start of the data.
    pub fn position(&self) -> (pos: usize)
        ensures
            pos == self.pos,
    {
        self.pos
    }

    /// Absolute offset of the cursor in the original input.
    pub fn absolute(&self) -> (offset: usize)
        ensures
            offset == error::saturating(self.base as int, self.pos as int),
    {
        self.base.saturating_add(self.pos)
    }

    /// How many bytes are left.
    pub fn remaining(&self) -> (n: usize)
        requires
            self.wf(),
        ensures
            n == self.data.len() - self.pos,
    {
        self.data.len() - self.pos
    }

    /// True when no byte is left.
    pub fn is_empty(&self) -> (empty: bool)
        requires
            self.wf(),
        ensures
            empty == (self.pos == self.data.len()),
    {
        self.pos >= self.data.len()
    }

    /// Moves the cursor to `pos`; past the end is out of range.
    pub fn seek(&mut self, pos: usize) -> (r: Result<()>)
        requires
            old(self).wf(),
        ensures
            final(self).wf(),
            pos <= old(self).data.len() ==> r == Ok::<(), Error>(()) && *final(self) == old(
                self,
            ).moved_to(pos as int),
            pos > old(self).data.len() ==> r == Err::<(), Error>(
                old(self).failure(ErrorKind::OutOfRange),
            ) && *final(self) == *old(self),
    {
        if pos > self.data.len() {
            return Err(self.err(ErrorKind::OutOfRange));
        }
        self.pos = pos;
        Ok(())
    }

    /// Moves the cursor forward by `n` bytes; past the end is out of range.
    pub fn skip(&mut self, n: usize) -> (r: Result<()>)
        requires
            old(self).wf(),
        ensures
            final(self).wf(),
            *final(self) == old(self).after(n as int),
            old(self).has(n as int) ==> r == Ok::<(), Error>(()),
            !old(self).has(n as int) ==> r == Err::<(), Error>(
                old(self).failure(ErrorKind::OutOfRange),
            ),
    {
        match self.pos.checked_add(n) {
            Some(end) => self.seek(end),
            None => Err(self.err(ErrorKind::OutOfRange)),
        }
    }

    /// Aligns the cursor up to a multiple of `align` relative to `origin`; one
    /// that lies before `origin` counts as being there.
    pub fn align_to(&mut self, origin: usize, align: usize) -> (r: Result<()>)
        requires
            old(self).wf(),
            align > 0,
        ensures
            final(self).wf(),
            ({
                let past = if old(self).pos < origin {
                    0
                } else {
                    (old(self).pos - origin) as nat
                };
                let pad = padding(past, align as nat) as int;
                &&& *final(self) == old(self).after(pad)
                &&& old(self).has(pad) ==> r == Ok::<(), Error>(())
                &&& !old(self).has(pad) ==> r == Err::<(), Error>(
                    old(self).failure(ErrorKind::OutOfRange),
                )
            }),
    {
        let over: usize = self.pos.saturating_sub(origin) % align;
        let pad: usize = if over == 0 {
            0
        } else {
            align - over
        };
        self.skip(pad)
    }

    fn err(&self, kind: ErrorKind) -> (e: Error)
        ensures
            e == self.failure(kind),
    {
        Error::new(kind, self.absolute(), self.context)
    }

    /// Reads the next `n` bytes.
    pub fn take(&mut self, n: usize) -> (r: Result<&'a [u8]>)
        requires
            old(self).wf(),
        ensures
            final(self).wf(),
            *final(self) == old(self).after(n as int),
            r is Ok <==> old(self).has(n as int),
            r matches Ok(s) ==> s@ == old(self).data@.subrange(
                old(self).pos as int,
                old(self).pos + n,
            ),
            r matches Err(e) ==> e == old(self).failure(ErrorKind::Truncated),
    {
        if n > self.data.len() - self.pos {
            return Err(self.err(ErrorKind::Truncated));
        }
        let start: usize = self.pos;
        self.pos = start + n;
        Ok(&self.data[start..start + n])
    }

    /// Returns the remaining bytes without consuming them.
    pub fn rest(&self) -> (s: &'a [u8])
        requires
            self.wf(),
        ensures
            s@ == self.data@.skip(self.pos as int),
    {
        &self.data[self.pos..self.data.len()]
    }

    /// Reads one byte.
    pub fn u8(&mut self) -> (r: Result<u8>)
        requires
            old(self).wf(),
        ensures
            final(self).wf(),
            *final(self) == old(self).after(1),
            r == old(self).reads(1, old(self).data@[old(self).pos as int]),
    {
        if self.pos >= self.data.len() {
            return Err(self.err(ErrorKind::Truncated));
        }
        let b: u8 = self.data[self.pos];
        self.pos = self.pos + 1;
        Ok(b)
    }

    /// The next byte, without consuming it.
    pub fn peek_u8(&self) -> (r: Result<u8>)
        requires
            self.wf(),
        ensures
            r == self.reads(1, self.data@[self.pos as int]),
    {
        if self.pos >= self.data.len() {
            return Err(self.err(ErrorKind::Truncated));
        }
        Ok(self.data[self.pos])
    }

    /// Reads one byte as a signed value.
    pub fn i8(&mut self) -> (r: Result<i8>)
        requires
            old(self).wf(),
        ensures
            final(self).wf(),
            *final(self) == old(self).after(1),
            r == old(self).reads(1, signed8(old(self).data@[old(self).pos as int])),
    {
        let b: u8 = self.u8()?;
        assert(b < 0x80 ==> b as i8 == b) by (bit_vector);
        assert(b >= 0x80 ==> b as i8 == b - 0x100) by (bit_vector);
        Ok(b as i8)
    }

    /// Reads a 16-bit value.
    pub fn u16(&mut self) -> (r: Result<u16>)
        requires
            old(self).wf(),
        ensures
            final(self).wf(),
            *final(self) == old(self).after(2),
            r == old(self).reads(2, le16(old(self).data@, old(self).pos as int)),
    {
        if 2 > self.data.len() - self.pos {
            return Err(self.err(ErrorKind::Truncated));
        }
        let value: u16 = u16_at(self.data, self.pos);
        self.pos = self.pos + 2;
        Ok(value)
    }

    /// Reads a 32-bit value.
    pub fn u32(&mut self) -> (r: Result<u32>)
        requires
            old(self).wf(),
        ensures
            final(self).wf(),
            *final(self) == old(self).after(4),
            r == old(self).reads(4, le32(old(self).data@, old(self).pos as int)),
    {
        if 4 > self.data.len() - self.pos {
            return Err(self.err(ErrorKind::Truncated));
        }
        let value: u32 = u32_at(self.data, self.pos);
        self.pos = self.pos + 4;
        Ok(value)
    }

    /// Reads a signed 32-bit value.
    pub fn i32(&mut self) -> (r: Result<i32>)
        requires
            old(self).wf(),
        ensures
            final(self).wf(),
            *final(self) == old(self).after(4),
            r == old(self).reads(4, signed32(le32(old(self).data@, old(self).pos as int))),
    {
        let value: u32 = self.u32()?;
        assert(value < 0x8000_0000 ==> value as i32 == value) by (bit_vector);
        assert(value >= 0x8000_0000 ==> value as i32 == value - 0x1_0000_0000) by (bit_vector);
        Ok(value as i32)
    }

    /// Reads a 64-bit value.
    pub fn u64(&mut self) -> (r: Result<u64>)
        requires
            old(self).wf(),
        ensures
            final(self).wf(),
            *final(self) == old(self).after(8),
            r == old(self).reads(8, le64(old(self).data@, old(self).pos as int)),
    {
        if 8 > self.data.len() - self.pos {
            return Err(self.err(ErrorKind::Truncated));
        }
        let value: u64 = u64_at(self.data, self.pos);
        self.pos = self.pos + 8;
        Ok(value)
    }

    /// Reads a signed 64-bit value.
    pub fn i64(&mut self) -> (r: Result<i64>)
        requires
            old(self).wf(),
        ensures
            final(self).wf(),
            *final(self) == old(self).after(8),
            r == old(self).reads(8, signed64(le64(old(self).data@, old(self).pos as int))),
    {
        let value: u64 = self.u64()?;
        assert(value < 0x8000_0000_0000_0000 ==> value as i64 == value) by (bit_vector);
        assert(value >= 0x8000_0000_0000_0000 ==> value as i64 == value - 0x1_0000_0000_0000_0000)
            by (bit_vector);
        Ok(value as i64)
    }
}

/// The 2- or 4-byte little-endian value at `offset`, where it lies in `bytes`.
pub open spec fn uint_at(bytes: Seq<u8>, offset: int, width: int) -> Option<u32> {
    if width == 2 && offset + 2 <= bytes.len() {
        Some(le16(bytes, offset) as u32)
    } else if width == 4 && offset + 4 <= bytes.len() {
        Some(le32(bytes, offset))
    } else {
        None
    }
}

/// Reads a 2- or 4-byte little-endian value out of `bytes` at `offset` without
/// a cursor. Returns `None` when the range is not fully inside `bytes`, and for
/// every other width.
pub fn read_uint_at(bytes: &[u8], offset: usize, width: u8) -> (r: Option<u32>)
    ensures
        r == uint_at(bytes@, offset as int, width as int),
{
    if width == 2 && bytes.len() >= 2 && offset <= bytes.len() - 2 {
        Some(u16_at(bytes, offset) as u32)
    } else if width == 4 && bytes.len() >= 4 && offset <= bytes.len() - 4 {
        Some(u32_at(bytes, offset))
    } else {
        None
    }
}

} // verus!
