//! Method bodies and exception-handling tables (II.25.4).
//!
//! A body is a tiny or fat header, the CIL byte range, and, for a fat header
//! with `MoreSects`, a chain of 4-byte-aligned data sections, of which only
//! the exception-handling section is decoded.
//!
//! [`MethodBody::parse`] succeeds as long as the header and code range are
//! readable, even when the exception table violates the format: a clause of no
//! known kind, or a section that is cut off, is noted and left out. Structural
//! validation of the handlers is a separate step,
//! [`MethodBody::validate_handlers`], so that a consumer can still read the
//! code of an obfuscated method.
use vstd::prelude::*;

use crate::error;
use crate::error::{Diagnostic, DiagnosticCode, Error, ErrorKind, Result, Strictness};
use crate::il;
use crate::il::{CodeCursor, FoldedIter, InstructionIter};
use crate::pe::{PeImage, PeModel};
use crate::reader;
use crate::reader::Reader;
use crate::tables::MethodDefRow;
use crate::token::{TableId, Token};

pub mod encoding;

verus! {

/// The context of errors about bodies.
pub const CONTEXT: &'static str = "method body";

/// The context of errors about exception clauses.
pub const CLAUSE_CONTEXT: &'static str = "exception clause";

/// Which header form a body uses.
#[derive(Clone, Copy, PartialEq, Eq, Hash, Debug, Structural)]
pub enum HeaderKind {
    /// `CorILMethod_TinyFormat`: one byte, code size in the top 6 bits.
    Tiny,
    /// `CorILMethod_FatFormat`: a 12-byte header.
    Fat,
}

/// Flags from a fat method header (II.25.4.4).
#[derive(Clone, Copy, PartialEq, Eq, Hash, Debug, Structural)]
pub struct FatFlags(pub u16);

impl FatFlags {
    /// True when the bit of weight `weight` is set.
    pub open spec fn has(self, weight: int) -> bool {
        self.0 as int / weight % 2 == 1
    }

    /// `CorILMethod_MoreSects`: data sections follow the code.
    pub fn more_sects(self) -> (set: bool)
        ensures
            set == self.has(8),
    {
        self.0 / 8 % 2 == 1
    }

    /// `CorILMethod_InitLocals`: locals are zero-initialised on entry.
    pub fn init_locals(self) -> (set: bool)
        ensures
            set == self.has(0x10),
    {
        self.0 / 0x10 % 2 == 1
    }

    /// The raw flags value, including the format bits.
    pub fn bits(self) -> (bits: u16)
        ensures
            bits == self.0,
    {
        self.0
    }
}

impl Default for FatFlags {
    fn default() -> (flags: Self)
        ensures
            flags == FatFlags(0),
    {
        FatFlags(0)
    }
}

/// What an exception clause does (II.25.4.6).
#[derive(Clone, Copy, PartialEq, Eq, Hash, Debug, Structural)]
pub enum HandlerKind {
    /// A typed catch; the token names the caught type.
    Catch(Token),
    /// A filtered catch; the filter code starts at this IL offset.
    Filter {
        /// IL offset of the first filter instruction.
        filter_offset: u32,
    },
    /// A `finally` block.
    Finally,
    /// A `fault` block.
    Fault,
}

/// One exception-handling clause.
///
/// All offsets are IL offsets relative to the start of [`MethodBody::code`].
#[derive(Clone, Copy, PartialEq, Eq, Hash, Debug, Structural)]
pub struct ExceptionHandler {
    /// What the clause does.
    pub kind: HandlerKind,
    /// IL offset of the protected block.
    pub try_offset: u32,
    /// Length in bytes of the protected block.
    pub try_length: u32,
    /// IL offset of the handler.
    pub handler_offset: u32,
    /// Length in bytes of the handler.
    pub handler_length: u32,
    /// The raw clause flags, before classification.
    pub raw_flags: u32,
}

/// The end of the IL range of `length` bytes at `offset`, saturating.
pub open spec fn range_end(offset: u32, length: u32) -> u32 {
    if offset + length <= u32::MAX {
        (offset + length) as u32
    } else {
        u32::MAX
    }
}

/// True when two half-open ranges overlap without one containing the other.
pub open spec fn straddles(a_start: u32, a_end: u32, b_start: u32, b_end: u32) -> bool {
    &&& a_start < b_end && b_start < a_end
    &&& !(b_start <= a_start && a_end <= b_end)
    &&& !(a_start <= b_start && b_end <= a_end)
}

impl ExceptionHandler {
    /// The end of the protected block.
    pub open spec fn try_stop(self) -> u32 {
        range_end(self.try_offset, self.try_length)
    }

    /// The end of the handler.
    pub open spec fn handler_stop(self) -> u32 {
        range_end(self.handler_offset, self.handler_length)
    }

    /// True when the protected blocks or the handlers of the two clauses
    /// overlap without one containing the other.
    pub open spec fn conflicts_with(self, other: ExceptionHandler) -> bool {
        ||| straddles(self.try_offset, self.try_stop(), other.try_offset, other.try_stop())
        ||| straddles(
            self.handler_offset,
            self.handler_stop(),
            other.handler_offset,
            other.handler_stop(),
        )
    }

    /// What is wrong with this clause, the one number `i`, taken by itself in a
    /// code range of `code_len` bytes.
    pub open spec fn own_problem(self, i: int, code_len: int) -> Option<Error> {
        if self.try_offset + self.try_length > code_len || self.handler_offset
            + self.handler_length > code_len {
            Some(Error::at(ErrorKind::OutOfRange, i as usize, "exception handler"))
        } else if self.try_length == 0 || self.handler_length == 0 {
            Some(Error::at(ErrorKind::Malformed, i as usize, "exception handler"))
        } else if self.handler_offset < self.try_stop() && self.handler_stop() > self.try_offset {
            Some(Error::at(ErrorKind::Malformed, i as usize, "exception handler"))
        } else {
            match self.kind {
                HandlerKind::Filter { filter_offset } => if filter_offset >= code_len {
                    Some(Error::at(ErrorKind::OutOfRange, i as usize, "exception filter"))
                } else if filter_offset >= self.handler_offset {
                    Some(Error::at(ErrorKind::Malformed, i as usize, "exception filter"))
                } else {
                    None
                },
                _ => None,
            }
        }
    }

    /// The end IL offset of the protected block, saturating on overflow.
    pub fn try_end(&self) -> (end: u32)
        ensures
            end == self.try_stop(),
    {
        self.try_offset.saturating_add(self.try_length)
    }

    /// The end IL offset of the handler, saturating on overflow.
    pub fn handler_end(&self) -> (end: u32)
        ensures
            end == self.handler_stop(),
    {
        self.handler_offset.saturating_add(self.handler_length)
    }
}

/// True when one of `handlers` other than number `i` partly overlaps that one.
pub open spec fn conflicted(handlers: Seq<ExceptionHandler>, i: int) -> bool {
    exists|j: int|
        0 <= j < handlers.len() && j != i && handlers[i].conflicts_with(#[trigger] handlers[j])
}

/// What is wrong with the clause number `i` in a code range of `code_len`
/// bytes.
pub open spec fn handler_problem(
    handlers: Seq<ExceptionHandler>,
    i: int,
    code_len: int,
) -> Option<Error> {
    match handlers[i].own_problem(i, code_len) {
        Some(e) => Some(e),
        None => if conflicted(handlers, i) {
            Some(Error::at(ErrorKind::Malformed, i as usize, "exception handler nesting"))
        } else {
            None
        },
    }
}

/// What is wrong with the first of the first `n` clauses that has a problem.
pub open spec fn first_problem(
    handlers: Seq<ExceptionHandler>,
    code_len: int,
    n: nat,
) -> Option<Error>
    decreases n,
{
    if n == 0 {
        None
    } else {
        match first_problem(handlers, code_len, (n - 1) as nat) {
            Some(e) => Some(e),
            None => handler_problem(handlers, n - 1, code_len),
        }
    }
}

proof fn lemma_problem_stays(handlers: Seq<ExceptionHandler>, code_len: int, n: nat, k: nat)
    requires
        n <= k,
        first_problem(handlers, code_len, n) is Some,
    ensures
        first_problem(handlers, code_len, k) == first_problem(handlers, code_len, n),
    decreases k,
{
    if n < k {
        lemma_problem_stays(handlers, code_len, n, (k - 1) as nat);
    }
}

/// True when the clause fits a code range of `code_len` bytes: its protected
/// block and its handler are not empty, lie within the code and apart from each
/// other, and a filter starts before the handler.
pub open spec fn well_placed(h: ExceptionHandler, code_len: int) -> bool {
    &&& 0 < h.try_length && h.try_offset + h.try_length <= code_len
    &&& 0 < h.handler_length && h.handler_offset + h.handler_length <= code_len
    &&& h.handler_stop() <= h.try_offset || h.try_stop() <= h.handler_offset
    &&& h.kind matches HandlerKind::Filter { filter_offset } ==> filter_offset < h.handler_offset
        && filter_offset < code_len
}

/// A table of clauses has no problem exactly when each clause is well placed
/// and any two are nested or apart.
pub proof fn lemma_valid_handlers(handlers: Seq<ExceptionHandler>, code_len: int)
    ensures
        first_problem(handlers, code_len, handlers.len()) is None <==> {
            &&& forall|i: int|
                0 <= i < handlers.len() ==> well_placed(#[trigger] handlers[i], code_len)
            &&& forall|i: int, j: int|
                0 <= i < handlers.len() && 0 <= j < handlers.len() && i != j ==> !(
                #[trigger] handlers[i]).conflicts_with(#[trigger] handlers[j])
        },
{
    lemma_no_problem(handlers, code_len, handlers.len());
    assert forall|i: int| 0 <= i < handlers.len() implies handlers[i].own_problem(
        i,
        code_len,
    ) is None == well_placed(#[trigger] handlers[i], code_len) by {}
    if first_problem(handlers, code_len, handlers.len()) is None {
        assert forall|i: int, j: int|
            0 <= i < handlers.len() && 0 <= j < handlers.len() && i != j implies !(
        #[trigger] handlers[i]).conflicts_with(#[trigger] handlers[j]) by {
            assert(handler_problem(handlers, i, code_len) is None);
        }
        assert forall|i: int| 0 <= i < handlers.len() implies well_placed(
            #[trigger] handlers[i],
            code_len,
        ) by {
            assert(handler_problem(handlers, i, code_len) is None);
        }
    }
}

proof fn lemma_no_problem(handlers: Seq<ExceptionHandler>, code_len: int, n: nat)
    ensures
        first_problem(handlers, code_len, n) is None <==> forall|i: int|
            0 <= i < n ==> (#[trigger] handler_problem(handlers, i, code_len)) is None,
    decreases n,
{
    if n > 0 {
        lemma_no_problem(handlers, code_len, (n - 1) as nat);
        if first_problem(handlers, code_len, n) is None {
            assert forall|i: int| 0 <= i < n implies (#[trigger] handler_problem(
                handlers,
                i,
                code_len,
            )) is None by {
                if i < n - 1 {
                }
            }
        }
    }
}

/// A method data section that is not decoded.
#[verifier::ext_equal]
pub struct RawSectionModel {
    /// The section `Kind` byte.
    pub kind: u8,
    /// The section bytes.
    pub data: Seq<u8>,
}

/// A method data section this crate does not decode.
#[derive(Clone, Copy, PartialEq, Eq, Debug)]
pub struct RawSection<'a> {
    /// The section `Kind` byte.
    pub kind: u8,
    /// The section bytes, excluding the 4-byte section header.
    pub data: &'a [u8],
}

impl<'a> View for RawSection<'a> {
    type V = RawSectionModel;

    open spec fn view(&self) -> RawSectionModel {
        RawSectionModel { kind: self.kind, data: self.data@ }
    }
}

/// What `sections` are.
pub open spec fn raw_sections(sections: Seq<RawSection>) -> Seq<RawSectionModel> {
    Seq::new(sections.len(), |i: int| sections[i]@)
}

/// What a method body holds.
#[verifier::ext_equal]
pub struct BodyModel {
    /// The header form.
    pub kind: HeaderKind,
    /// The fat header flags.
    pub flags: FatFlags,
    /// `MaxStack`.
    pub max_stack: u16,
    /// The CIL.
    pub code: Seq<u8>,
    /// The RVA of the first IL byte.
    pub code_rva: u32,
    /// The token of the locals signature.
    pub local_var_sig: Option<Token>,
    /// The exception-handling clauses.
    pub exception_handlers: Seq<ExceptionHandler>,
    /// The other data sections.
    pub unknown_sections: Seq<RawSectionModel>,
    /// The declared header size.
    pub header_dwords: u8,
    /// The size of the whole body.
    pub total_size: usize,
    /// The deviations accepted.
    pub diagnostics: Seq<Diagnostic>,
}

/// The 24-bit value at `at`.
pub open spec fn le24(bytes: Seq<u8>, at: int) -> u32 {
    (bytes[at] + 0x100 * bytes[at + 1] + 0x1_0000 * bytes[at + 2]) as u32
}

/// The size of one exception clause.
pub open spec fn clause_size(fat: bool) -> int {
    if fat {
        24
    } else {
        12
    }
}

/// The flags of the exception clause in `chunk`.
pub open spec fn clause_flags(chunk: Seq<u8>, fat: bool) -> u32 {
    if fat {
        reader::le32(chunk, 0)
    } else {
        reader::le16(chunk, 0) as u32
    }
}

/// The exception clause in `chunk`, with the classification of its flags left
/// out: that is `kind`.
pub open spec fn clause_fields(chunk: Seq<u8>, fat: bool, kind: HandlerKind) -> ExceptionHandler {
    if fat {
        ExceptionHandler {
            kind,
            try_offset: reader::le32(chunk, 4),
            try_length: reader::le32(chunk, 8),
            handler_offset: reader::le32(chunk, 12),
            handler_length: reader::le32(chunk, 16),
            raw_flags: clause_flags(chunk, fat),
        }
    } else {
        ExceptionHandler {
            kind,
            try_offset: reader::le16(chunk, 2) as u32,
            try_length: chunk[4] as u32,
            handler_offset: reader::le16(chunk, 5) as u32,
            handler_length: chunk[7] as u32,
            raw_flags: clause_flags(chunk, fat),
        }
    }
}

/// What a clause with `flags` does; `extra` is its class token or filter offset.
pub open spec fn classified(flags: u32, extra: u32) -> Option<HandlerKind> {
    if flags % 8 == 0 {
        Some(HandlerKind::Catch(Token(extra)))
    } else if flags % 8 == 1 {
        Some(HandlerKind::Filter { filter_offset: extra })
    } else if flags % 8 == 2 {
        Some(HandlerKind::Finally)
    } else if flags % 8 == 4 {
        Some(HandlerKind::Fault)
    } else {
        None
    }
}

/// The offset of the first field that `len` bytes of a clause cut off, if they
/// do.
pub open spec fn missing_clause_field(len: int, fat: bool) -> Option<int> {
    if fat {
        if len < 24 {
            Some(len / 4 * 4)
        } else {
            None
        }
    } else if len < 2 {
        Some(0)
    } else if len < 4 {
        Some(2)
    } else if len < 5 {
        Some(4)
    } else if len < 7 {
        Some(5)
    } else if len < 8 {
        Some(7)
    } else if len < 12 {
        Some(8)
    } else {
        None
    }
}

/// The exception clause in `chunk`, which starts at `at` of the body. Its last
/// four bytes are the class token or the filter offset.
pub open spec fn decoded_clause(chunk: Seq<u8>, fat: bool, at: usize) -> Result<ExceptionHandler> {
    match missing_clause_field(chunk.len() as int, fat) {
        Some(field) => Err(
            Error::at(
                ErrorKind::Truncated,
                error::saturating(at as int, field),
                CLAUSE_CONTEXT,
            ),
        ),
        None => match classified(
            clause_flags(chunk, fat),
            reader::le32(chunk, clause_size(fat) - 4),
        ) {
            Some(kind) => Ok(clause_fields(chunk, fat, kind)),
            None => Err(Error::at(ErrorKind::Malformed, at, CLAUSE_CONTEXT)),
        },
    }
}

/// The bytes of the exception clause at `at`.
pub open spec fn clause_chunk(bytes: Seq<u8>, at: int, fat: bool) -> Seq<u8> {
    bytes.subrange(at, at + clause_size(fat))
}

/// The exception clause at `at`.
pub open spec fn clause_at(bytes: Seq<u8>, at: int, fat: bool) -> Result<ExceptionHandler> {
    decoded_clause(clause_chunk(bytes, at, fat), fat, at as usize)
}

/// The small form of a clause.
pub open spec fn small_clause(
    flags: u16,
    try_offset: u16,
    try_length: u8,
    handler_offset: u16,
    handler_length: u8,
    extra: u32,
) -> Seq<u8> {
    le_bytes16(flags) + le_bytes16(try_offset) + seq![try_length] + le_bytes16(handler_offset)
        + seq![handler_length] + le_bytes32(extra)
}

/// The fat form of a clause.
pub open spec fn fat_clause(
    flags: u32,
    try_offset: u32,
    try_length: u32,
    handler_offset: u32,
    handler_length: u32,
    extra: u32,
) -> Seq<u8> {
    le_bytes32(flags) + le_bytes32(try_offset) + le_bytes32(try_length) + le_bytes32(handler_offset)
        + le_bytes32(handler_length) + le_bytes32(extra)
}

/// The little-endian bytes of `n`.
pub open spec fn le_bytes16(n: u16) -> Seq<u8> {
    seq![(n % 0x100) as u8, (n / 0x100) as u8]
}

/// The little-endian bytes of `n`.
pub open spec fn le_bytes32(n: u32) -> Seq<u8> {
    le_bytes16((n % 0x1_0000) as u16) + le_bytes16((n / 0x1_0000) as u16)
}

/// The 32-bit number whose bytes start at `at` reads back.
proof fn lemma_le32_reads_back(bytes: Seq<u8>, at: int, n: u32)
    requires
        0 <= at,
        at + 4 <= bytes.len(),
        bytes.subrange(at, at + 4) == le_bytes32(n),
    ensures
        reader::le32(bytes, at) == n,
{
    let part = bytes.subrange(at, at + 4);
    assert(part[0] == bytes[at] && part[1] == bytes[at + 1] && part[2] == bytes[at + 2] && part[3]
        == bytes[at + 3]);
    assert(part[0] == n % 0x1_0000 % 0x100);
    assert(part[1] == n % 0x1_0000 / 0x100);
    assert(part[2] == n / 0x1_0000 % 0x100);
    assert(part[3] == n / 0x1_0000 / 0x100);
}

/// The small and the fat form of one clause decode to the same handler, with
/// the numbers that were encoded; a clause of no known kind is rejected where it
/// starts in either form.
pub proof fn lemma_clause_forms(
    flags: u16,
    try_offset: u16,
    try_length: u8,
    handler_offset: u16,
    handler_length: u8,
    extra: u32,
    at: usize,
)
    ensures
        ({
            let small = small_clause(
                flags,
                try_offset,
                try_length,
                handler_offset,
                handler_length,
                extra,
            );
            let fat = fat_clause(
                flags as u32,
                try_offset as u32,
                try_length as u32,
                handler_offset as u32,
                handler_length as u32,
                extra,
            );
            let expected = match classified(flags as u32, extra) {
                Some(kind) => Ok(
                    ExceptionHandler {
                        kind,
                        try_offset: try_offset as u32,
                        try_length: try_length as u32,
                        handler_offset: handler_offset as u32,
                        handler_length: handler_length as u32,
                        raw_flags: flags as u32,
                    },
                ),
                None => Err(Error::at(ErrorKind::Malformed, at, CLAUSE_CONTEXT)),
            };
            &&& decoded_clause(small, false, at) == expected
            &&& decoded_clause(fat, true, at) == expected
        }),
{
    lemma_small_clause(flags, try_offset, try_length, handler_offset, handler_length, extra);
    lemma_fat_clause(
        flags as u32,
        try_offset as u32,
        try_length as u32,
        handler_offset as u32,
        handler_length as u32,
        extra,
    );
}

/// The numbers in the small form of a clause.
proof fn lemma_small_clause(flags: u16, start: u16, length: u8, offset: u16, size: u8, extra: u32)
    ensures
        ({
            let small = small_clause(flags, start, length, offset, size, extra);
            &&& small.len() == 12
            &&& reader::le16(small, 0) == flags
            &&& reader::le16(small, 2) == start
            &&& small[4] == length
            &&& reader::le16(small, 5) == offset
            &&& small[7] == size
            &&& reader::le32(small, 8) == extra
        }),
{
    let small = small_clause(flags, start, length, offset, size, extra);
    assert(small.subrange(8, 12) =~= le_bytes32(extra));
    lemma_le32_reads_back(small, 8, extra);
}

/// The numbers in the fat form of a clause.
#[verifier::rlimit(50)]
proof fn lemma_fat_clause(flags: u32, start: u32, length: u32, offset: u32, size: u32, extra: u32)
    ensures
        ({
            let fat = fat_clause(flags, start, length, offset, size, extra);
            &&& fat.len() == 24
            &&& reader::le32(fat, 0) == flags
            &&& reader::le32(fat, 4) == start
            &&& reader::le32(fat, 8) == length
            &&& reader::le32(fat, 12) == offset
            &&& reader::le32(fat, 16) == size
            &&& reader::le32(fat, 20) == extra
        }),
{
    let fat = fat_clause(flags, start, length, offset, size, extra);
    let (a, b, c) = (le_bytes32(flags), le_bytes32(start), le_bytes32(length));
    let (d, e, f) = (le_bytes32(offset), le_bytes32(size), le_bytes32(extra));
    lemma_joined_numbers(a, b, c, d, e, f);
    lemma_le32_reads_back(fat, 0, flags);
    lemma_le32_reads_back(fat, 4, start);
    lemma_le32_reads_back(fat, 8, length);
    lemma_le32_reads_back(fat, 12, offset);
    lemma_le32_reads_back(fat, 16, size);
    lemma_le32_reads_back(fat, 20, extra);
}

/// Six runs of four bytes each, put together, are found again.
proof fn lemma_joined_numbers(
    a: Seq<u8>,
    b: Seq<u8>,
    c: Seq<u8>,
    d: Seq<u8>,
    e: Seq<u8>,
    f: Seq<u8>,
)
    requires
        a.len() == 4 && b.len() == 4 && c.len() == 4 && d.len() == 4 && e.len() == 4 && f.len()
            == 4,
    ensures
        ({
            let all = a + b + c + d + e + f;
            &&& all.len() == 24
            &&& all.subrange(0, 4) == a
            &&& all.subrange(4, 8) == b
            &&& all.subrange(8, 12) == c
            &&& all.subrange(12, 16) == d
            &&& all.subrange(16, 20) == e
            &&& all.subrange(20, 24) == f
        }),
{
    let all = a + b + c + d + e + f;
    assert(all.subrange(0, 4) =~= a);
    assert(all.subrange(4, 8) =~= b);
    assert(all.subrange(8, 12) =~= c);
    assert(all.subrange(12, 16) =~= d);
    assert(all.subrange(16, 20) =~= e);
    assert(all.subrange(20, 24) =~= f);
}

/// The size that a section of declared size `declared` gives its clauses: the
/// 4-byte section header is counted in.
pub open spec fn counted_size(declared: int) -> int {
    if declared < 4 {
        0
    } else {
        declared - 4
    }
}

/// True when the declared size of an exception section can only be meant
/// without its own header: counted with the header it leaves a partial clause,
/// without it divides exactly.
pub open spec fn headerless(declared: int, size: int, remaining: int) -> bool {
    counted_size(declared) % size != 0 && declared % size == 0 && declared <= remaining
}

/// The data sections read so far.
#[verifier::ext_equal]
pub struct SectionsState {
    /// Where the last one ended.
    pub pos: int,
    /// The exception clauses.
    pub handlers: Seq<ExceptionHandler>,
    /// The sections that are not decoded.
    pub unknown: Seq<RawSectionModel>,
    /// The deviations accepted.
    pub noted: Seq<Diagnostic>,
    /// No section follows.
    pub done: bool,
    /// The error that ended the parse, if one did.
    pub failed: Option<Error>,
}

impl SectionsState {
    /// The sections, rejected.
    pub open spec fn fail(self, kind: ErrorKind, at: int) -> SectionsState {
        SectionsState { failed: Some(Error::at(kind, at as usize, CONTEXT)), ..self }
    }

    /// The sections with a deviation in the size of the section at `start`
    /// noted.
    pub open spec fn note(self, start: int, detail: int) -> SectionsState {
        SectionsState {
            noted: self.noted.push(
                Diagnostic::at(DiagnosticCode::EhSectionSize, start as usize, detail as u64),
            ),
            ..self
        }
    }
}

/// The bytes of a method body, which may extend past its end.
#[verifier::ext_equal]
pub struct BodyBytes {
    /// The bytes, from the method header on.
    pub bytes: Seq<u8>,
    /// The RVA of the header.
    pub code_rva: u32,
    /// The strictness of the parse.
    pub strictness: Strictness,
}

impl BodyBytes {
    /// Deviations are rejected.
    pub open spec fn strict(self) -> bool {
        self.strictness is Strict
    }

    /// The `Kind` byte of the section at `start`.
    pub open spec fn section_kind(self, start: int) -> u8 {
        self.bytes[start]
    }

    /// True when the section at `start` holds exception clauses.
    pub open spec fn is_eh(self, start: int) -> bool {
        self.section_kind(start) as int % 2 == 1
    }

    /// True when the section at `start` is of the fat form.
    pub open spec fn is_fat(self, start: int) -> bool {
        self.section_kind(start) as int / 0x40 % 2 == 1
    }

    /// True when another section follows the one at `start`.
    pub open spec fn has_more(self, start: int) -> bool {
        self.section_kind(start) as int / 0x80 == 1
    }

    /// The declared size of the section at `start`.
    pub open spec fn declared_size(self, start: int) -> int {
        if self.is_fat(start) {
            le24(self.bytes, start + 1) as int
        } else {
            self.bytes[start + 1] as int
        }
    }

    /// How many bytes there are behind the header of the section at `start`.
    pub open spec fn section_room(self, start: int) -> int {
        self.bytes.len() - (start + 4)
    }

    /// True when the section at `start` is an exception section whose size does
    /// not count its header.
    pub open spec fn size_is_headerless(self, start: int) -> bool {
        self.is_eh(start) && headerless(
            self.declared_size(start),
            clause_size(self.is_fat(start)),
            self.section_room(start),
        )
    }

    /// The size of the contents of the section at `start`, as declared.
    pub open spec fn wanted_size(self, start: int) -> int {
        if self.size_is_headerless(start) {
            self.declared_size(start)
        } else {
            counted_size(self.declared_size(start))
        }
    }

    /// The size of the contents of the section at `start`, clamped to what
    /// there is.
    pub open spec fn section_size(self, start: int) -> int {
        if self.wanted_size(start) > self.section_room(start) {
            self.section_room(start)
        } else {
            self.wanted_size(start)
        }
    }

    /// The sections after the header of the one at `start` was read.
    pub open spec fn sized(self, s: SectionsState, start: int) -> SectionsState {
        if self.size_is_headerless(start) {
            if self.strict() {
                s.fail(ErrorKind::Malformed, start)
            } else {
                s.note(start, self.declared_size(start))
            }
        } else if self.wanted_size(start) > self.section_room(start) {
            if self.strict() {
                s.fail(ErrorKind::Truncated, start)
            } else {
                s.note(start, self.declared_size(start))
            }
        } else {
            s
        }
    }

    /// The sections after `n` exception clauses from `at` on were read. One of
    /// no known kind is left out, and noted with its flags.
    pub open spec fn clauses(self, s: SectionsState, at: int, fat: bool, n: nat) -> SectionsState
        decreases n,
    {
        if n == 0 {
            s
        } else {
            let before = self.clauses(s, at, fat, (n - 1) as nat);
            let start = at + (n - 1) * clause_size(fat);
            if before.failed is Some {
                before
            } else {
                match clause_at(self.bytes, start, fat) {
                    Ok(h) => SectionsState { handlers: before.handlers.push(h), ..before },
                    Err(e) => if self.strict() {
                        SectionsState { failed: Some(e), ..before }
                    } else {
                        before.note(
                            start,
                            clause_flags(clause_chunk(self.bytes, start, fat), fat) as int,
                        )
                    },
                }
            }
        }
    }

    /// The sections after the exception clauses of the one at `start` were
    /// read.
    pub open spec fn with_clauses(self, s: SectionsState, start: int) -> SectionsState {
        let fat = self.is_fat(start);
        let size = self.section_size(start);
        let checked = if size % clause_size(fat) == 0 {
            s
        } else if self.strict() {
            s.fail(ErrorKind::Malformed, start)
        } else {
            s.note(start, size)
        };
        if checked.failed is Some {
            checked
        } else {
            self.clauses(checked, start + 4, fat, (size / clause_size(fat)) as nat)
        }
    }

    /// The sections after the contents of the one at `start` were read.
    pub open spec fn filled(self, s: SectionsState, start: int) -> SectionsState {
        if s.failed is Some {
            s
        } else if self.is_eh(start) {
            self.with_clauses(s, start)
        } else {
            SectionsState {
                unknown: s.unknown.push(
                    RawSectionModel {
                        kind: self.section_kind(start),
                        data: self.bytes.subrange(
                            start + 4,
                            start + 4 + self.section_size(start),
                        ),
                    },
                ),
                ..s
            }
        }
    }

    /// The sections after the end of the one at `start` was reached.
    pub open spec fn ended(self, s: SectionsState, start: int) -> SectionsState {
        let end = start + 4 + self.section_size(start);
        if s.failed is Some {
            s
        } else if !self.has_more(start) {
            SectionsState { pos: end, done: true, ..s }
        } else if end < self.bytes.len() {
            SectionsState { pos: end, ..s }
        } else if self.strict() {
            s.fail(ErrorKind::Truncated, end)
        } else {
            SectionsState { pos: end, done: true, ..s }
        }
    }

    /// Where the section behind `pos` starts: sections are aligned to 4 bytes.
    pub open spec fn section_start(self, pos: int) -> int {
        pos + reader::padding(pos as nat, 4)
    }

    /// Why the header of the section behind `pos` cannot be read, if it cannot.
    pub open spec fn cut_off(self, pos: int) -> Option<Error> {
        let len = self.bytes.len();
        let start = self.section_start(pos);
        if start > len {
            self.failure(ErrorKind::OutOfRange, pos)
        } else if start == len {
            self.failure(ErrorKind::Truncated, start)
        } else if self.is_fat(start) && len < start + 4 {
            self.failure(ErrorKind::Truncated, start + 1)
        } else if len < start + 2 {
            self.failure(ErrorKind::Truncated, start + 1)
        } else if len < start + 4 {
            self.failure(ErrorKind::Truncated, start + 2)
        } else {
            None
        }
    }

    /// The sections after the next one was read. One that is cut off is left
    /// out, and noted with the number of bytes that are there.
    pub open spec fn section_step(self, s: SectionsState) -> SectionsState {
        let start = self.section_start(s.pos);
        match self.cut_off(s.pos) {
            Some(e) => if self.strict() {
                SectionsState { failed: Some(e), ..s }
            } else {
                SectionsState { done: true, ..s.note(s.pos, self.bytes.len() - s.pos) }
            },
            None => self.ended(self.filled(self.sized(s, start), start), start),
        }
    }

    /// The sections after all that follow were read.
    pub open spec fn sections(self, s: SectionsState) -> SectionsState
        decreases self.bytes.len() - s.pos,
    {
        let next = self.section_step(s);
        if next.failed is Some || next.done || !(s.pos < next.pos <= self.bytes.len()) {
            next
        } else {
            self.sections(next)
        }
    }

    /// The declared size of a fat header, in dwords.
    pub open spec fn header_dwords(self) -> int {
        reader::le16(self.bytes, 0) as int / 0x1000
    }

    /// The size of a fat header. The declared size is authoritative, but not
    /// below the size of the fields.
    pub open spec fn header_size(self) -> int {
        if self.header_dwords() < 3 {
            12
        } else {
            4 * self.header_dwords()
        }
    }

    /// The flags of a fat header.
    pub open spec fn flags(self) -> FatFlags {
        FatFlags((reader::le16(self.bytes, 0) as int % 0x1000) as u16)
    }

    /// The declared size of the code behind a fat header.
    pub open spec fn code_size(self) -> int {
        reader::le32(self.bytes, 4) as int
    }

    /// The locals token of a fat header.
    pub open spec fn locals(self) -> Option<Token> {
        if reader::le32(self.bytes, 8) == 0 {
            None
        } else {
            Some(Token(reader::le32(self.bytes, 8)))
        }
    }

    /// True when the locals token names another table than it may.
    pub open spec fn locals_misplaced(self) -> bool {
        self.locals() matches Some(t) && TableId::of_number(t.high()) != Some(
            TableId::StandAloneSig,
        )
    }

    /// An error at `at`.
    pub open spec fn failure(self, kind: ErrorKind, at: int) -> Option<Error> {
        Some(Error::at(kind, at as usize, CONTEXT))
    }

    /// Why a fat header and its code are rejected, if they are.
    pub open spec fn fat_error(self) -> Option<Error> {
        let len = self.bytes.len();
        if len < 2 {
            self.failure(ErrorKind::Truncated, 0)
        } else if len < 4 {
            self.failure(ErrorKind::Truncated, 2)
        } else if len < 8 {
            self.failure(ErrorKind::Truncated, 4)
        } else if len < 12 {
            self.failure(ErrorKind::Truncated, 8)
        } else if self.strict() && self.header_dwords() != 3 {
            self.failure(ErrorKind::Malformed, 0)
        } else if len < self.header_size() {
            self.failure(ErrorKind::OutOfRange, 12)
        } else if len < self.header_size() + self.code_size() {
            self.failure(ErrorKind::Truncated, self.header_size())
        } else if self.strict() && self.locals_misplaced() {
            self.failure(ErrorKind::Malformed, 8)
        } else {
            None
        }
    }

    /// The data sections before the first was read.
    pub open spec fn no_sections(self) -> SectionsState {
        SectionsState {
            pos: self.header_size() + self.code_size(),
            handlers: Seq::empty(),
            unknown: Seq::empty(),
            noted: if self.header_dwords() == 3 {
                Seq::empty()
            } else {
                seq![
                    Diagnostic::at(
                        DiagnosticCode::FatHeaderSize,
                        0,
                        self.header_dwords() as u64,
                    ),
                ]
            },
            done: true,
            failed: None,
        }
    }

    /// The data sections behind a fat header and its code.
    pub open spec fn all_sections(self) -> SectionsState {
        if self.flags().has(8) {
            self.sections(SectionsState { done: false, ..self.no_sections() })
        } else {
            self.no_sections()
        }
    }

    /// The body with a fat header.
    pub open spec fn fat_body(self) -> BodyModel {
        let s = self.all_sections();
        BodyModel {
            kind: HeaderKind::Fat,
            flags: self.flags(),
            max_stack: reader::le16(self.bytes, 2),
            code: self.bytes.subrange(self.header_size(), self.header_size() + self.code_size()),
            code_rva: il::low32(self.code_rva + self.header_size()),
            local_var_sig: self.locals(),
            exception_handlers: s.handlers,
            unknown_sections: s.unknown,
            header_dwords: self.header_dwords() as u8,
            total_size: s.pos as usize,
            diagnostics: s.noted,
        }
    }

    /// The size of the code behind a tiny header.
    pub open spec fn tiny_size(self) -> int {
        self.bytes[0] as int / 4
    }

    /// The body with a tiny header, which carries no flags.
    pub open spec fn tiny_body(self) -> BodyModel {
        BodyModel {
            kind: HeaderKind::Tiny,
            flags: FatFlags(0),
            max_stack: 8,
            code: self.bytes.subrange(1, 1 + self.tiny_size()),
            code_rva: il::low32(self.code_rva + 1),
            local_var_sig: None,
            exception_handlers: Seq::empty(),
            unknown_sections: Seq::empty(),
            header_dwords: 0,
            total_size: (1 + self.tiny_size()) as usize,
            diagnostics: Seq::empty(),
        }
    }

    /// What parsing the body gives.
    pub open spec fn parsed(self) -> Result<BodyModel> {
        if self.bytes.len() == 0 {
            Err(Error::at(ErrorKind::Truncated, 0, CONTEXT))
        } else if self.bytes[0] as int % 4 == 2 {
            if self.bytes.len() < 1 + self.tiny_size() {
                Err(Error::at(ErrorKind::Truncated, 1, CONTEXT))
            } else {
                Ok(self.tiny_body())
            }
        } else if self.bytes[0] as int % 4 == 3 {
            match self.fat_error() {
                Some(e) => Err(e),
                None => match self.all_sections().failed {
                    Some(e) => Err(e),
                    None => Ok(self.fat_body()),
                },
            }
        } else {
            Err(Error::at(ErrorKind::Malformed, 0, CONTEXT))
        }
    }
}

/// The offsets of the instructions that are decoded from `cursor` on, up to
/// the first error.
pub open spec fn offsets(cursor: CodeCursor) -> Seq<u32>
    decreases cursor.left(),
{
    if !cursor.open() {
        Seq::empty()
    } else {
        match cursor.current() {
            Ok(i) => seq![i.offset] + offsets(cursor.advanced()),
            Err(_) => Seq::empty(),
        }
    }
}

/// What reading the body of `method` from `image` gives.
pub open spec fn body_in(image: PeModel, method: MethodDefRow) -> Result<Option<BodyModel>> {
    if method.rva == 0 || !method.cil() {
        Ok(None)
    } else {
        match image.rest(method.rva) {
            Err(e) => Err(e),
            Ok(bytes) => match (BodyBytes {
                bytes,
                code_rva: method.rva,
                strictness: image.strictness,
            }).parsed() {
                Ok(body) => Ok(Some(body)),
                Err(e) => Err(e),
            },
        }
    }
}

/// A decoded method body.
#[derive(Clone, Debug)]
pub struct MethodBody<'a> {
    /// Which header form the body used.
    pub kind: HeaderKind,
    /// Fat header flags; always zero for a tiny header, which has none.
    pub flags: FatFlags,
    /// `MaxStack`; 8 for a tiny header (II.25.4.2).
    pub max_stack: u16,
    /// Exactly `CodeSize` bytes of CIL.
    pub code: &'a [u8],
    /// The RVA of the first IL byte, for consumers that need absolute addresses.
    pub code_rva: u32,
    /// The `StandAloneSig` token of the locals signature, when there is one.
    pub local_var_sig: Option<Token>,
    /// The exception-handling clauses, in the order the image declares them.
    pub exception_handlers: Vec<ExceptionHandler>,
    /// Data sections other than the exception table, kept as raw bytes.
    pub unknown_sections: Vec<RawSection<'a>>,
    /// The declared fat header size in dwords; 0 for a tiny header.
    pub header_dwords: u8,
    /// The total size of the body in bytes, header and sections included.
    pub total_size: usize,
    /// The deviations tolerated while parsing.
    pub diagnostics: Vec<Diagnostic>,
}

impl<'a> View for MethodBody<'a> {
    type V = BodyModel;

    open spec fn view(&self) -> BodyModel {
        BodyModel {
            kind: self.kind,
            flags: self.flags,
            max_stack: self.max_stack,
            code: self.code@,
            code_rva: self.code_rva,
            local_var_sig: self.local_var_sig,
            exception_handlers: self.exception_handlers@,
            unknown_sections: raw_sections(self.unknown_sections@),
            header_dwords: self.header_dwords,
            total_size: self.total_size,
            diagnostics: self.diagnostics@,
        }
    }
}

/// True when `r` is what `m` describes.
pub open spec fn same_body<'a>(r: Result<MethodBody<'a>>, m: Result<BodyModel>) -> bool {
    match r {
        Ok(body) => m == Ok::<BodyModel, Error>(body@),
        Err(e) => m == Err::<BodyModel, Error>(e),
    }
}

impl<'a> MethodBody<'a> {
    /// Parses a method body in [`Strictness::Permissive`] mode.
    ///
    /// `bytes` must start at the method header and may extend past the end of
    /// the body; `code_rva` is the RVA of that header.
    pub fn parse(bytes: &'a [u8], code_rva: u32) -> (r: Result<Self>)
        ensures
            same_body(
                r,
                (BodyBytes {
                    bytes: bytes@,
                    code_rva,
                    strictness: Strictness::Permissive,
                }).parsed(),
            ),
    {
        Self::parse_with(bytes, code_rva, Strictness::Permissive)
    }

    /// Parses a method body with an explicit strictness.
    pub fn parse_with(bytes: &'a [u8], code_rva: u32, strictness: Strictness) -> (r: Result<Self>)
        ensures
            same_body(r, (BodyBytes { bytes: bytes@, code_rva, strictness }).parsed()),
    {
        let ghost b = BodyBytes { bytes: bytes@, code_rva, strictness };
        let mut r = Reader::new(bytes, 0, CONTEXT);
        let first: u8 = r.peek_u8()?;
        if first % 4 == 2 {
            let header: u8 = r.u8()?;
            let code_size: usize = (header / 4) as usize;
            let code = r.take(code_size)?;
            let body = MethodBody {
                kind: HeaderKind::Tiny,
                flags: FatFlags(0),
                max_stack: 8,
                code,
                code_rva: code_rva.wrapping_add(1),
                local_var_sig: None,
                exception_handlers: Vec::new(),
                unknown_sections: Vec::new(),
                header_dwords: 0,
                total_size: 1 + code_size,
                diagnostics: Vec::new(),
            };
            assert(body@ =~= b.tiny_body());
            Ok(body)
        } else if first % 4 == 3 {
            parse_fat(r, code_rva, strictness)
        } else {
            Err(Error::new(ErrorKind::Malformed, 0, CONTEXT))
        }
    }

    /// Reads the body of a `MethodDef` row from an image.
    ///
    /// Returns `Ok(None)` when the method has no CIL body: RVA 0 (abstract,
    /// P/Invoke, or runtime-provided) or a non-CIL `ImplFlags`.
    pub fn from_image(image: &PeImage<'a>, method: &MethodDefRow) -> (r: Result<Option<Self>>)
        ensures
            match r {
                Ok(None) => body_in(image@, *method) == Ok::<Option<BodyModel>, Error>(None),
                Ok(Some(body)) => body_in(image@, *method) == Ok::<Option<BodyModel>, Error>(
                    Some(body@),
                ),
                Err(e) => body_in(image@, *method) == Err::<Option<BodyModel>, Error>(e),
            },
    {
        if method.has_no_body() {
            return Ok(None);
        }
        let bytes = image.rva_rest(method.rva)?;
        match Self::parse_with(bytes, method.rva, image.strictness()) {
            Ok(body) => Ok(Some(body)),
            Err(e) => Err(e),
        }
    }

    /// Deviations tolerated while parsing this body.
    pub fn diagnostics(&self) -> (list: &[Diagnostic])
        ensures
            list@ == self@.diagnostics,
    {
        self.diagnostics.as_slice()
    }

    /// The size of the CIL in bytes.
    pub fn code_size(&self) -> (size: usize)
        ensures
            size == self@.code.len(),
    {
        self.code.len()
    }

    /// Checks the exception table against II.25.4.6.
    ///
    /// Verifies that every try and handler range lies inside the code, that no
    /// range is zero-length, that a handler lies outside the block it protects,
    /// that a filter starts inside the code and before its handler, and that
    /// blocks are properly nested or disjoint rather than partially
    /// overlapping. The offset of an error is the number of the clause.
    pub fn validate_handlers(&self) -> (r: Result<()>)
        ensures
            r == (match first_problem(
                self@.exception_handlers,
                self@.code.len() as int,
                self@.exception_handlers.len(),
            ) {
                Some(e) => Err(e),
                None => Ok(()),
            }),
    {
        let code_len: u64 = self.code.len() as u64;
        let mut i: usize = 0;
        while i < self.exception_handlers.len()
            invariant
                i <= self.exception_handlers.len(),
                code_len == self@.code.len(),
                first_problem(
                    self@.exception_handlers,
                    self@.code.len() as int,
                    i as nat,
                ) is None,
            decreases self.exception_handlers.len() - i,
        {
            proof {
                if first_problem(
                    self@.exception_handlers,
                    self@.code.len() as int,
                    (i + 1) as nat,
                ) is Some {
                    lemma_problem_stays(
                        self@.exception_handlers,
                        self@.code.len() as int,
                        (i + 1) as nat,
                        self@.exception_handlers.len(),
                    );
                }
            }
            check_handler(&self.exception_handlers[i], i, code_len)?;
            if self.has_conflict(i) {
                return Err(Error::new(ErrorKind::Malformed, i, "exception handler nesting"));
            }
            i = i + 1;
        }
        Ok(())
    }

    /// True when a clause partly overlaps the one number `i`.
    fn has_conflict(&self, i: usize) -> (conflict: bool)
        requires
            i < self.exception_handlers.len(),
        ensures
            conflict == conflicted(self@.exception_handlers, i as int),
    {
        let h: ExceptionHandler = self.exception_handlers[i];
        let mut j: usize = 0;
        while j < self.exception_handlers.len()
            invariant
                i < self.exception_handlers.len(),
                h == self@.exception_handlers[i as int],
                j <= self.exception_handlers.len(),
                forall|k: int|
                    0 <= k < j && k != i ==> !h.conflicts_with(
                        #[trigger] self@.exception_handlers[k],
                    ),
            decreases self.exception_handlers.len() - j,
        {
            let other: ExceptionHandler = self.exception_handlers[j];
            if i != j && (partially_overlaps(
                h.try_offset,
                h.try_end(),
                other.try_offset,
                other.try_end(),
            ) || partially_overlaps(
                h.handler_offset,
                h.handler_end(),
                other.handler_offset,
                other.handler_end(),
            )) {
                assert(h.conflicts_with(self@.exception_handlers[j as int]));
                return true;
            }
            j = j + 1;
        }
        false
    }

    /// Decodes the code as a raw instruction stream, with prefixes as separate
    /// items.
    pub fn instructions(&self) -> (it: InstructionIter<'a>)
        ensures
            it@ == CodeCursor::start(self@.code),
    {
        InstructionIter::new(self.code)
    }

    /// Decodes the code with prefixes folded onto the instruction they modify.
    pub fn folded_instructions(&self) -> (it: FoldedIter<'a>)
        ensures
            it@ == CodeCursor::start(self@.code),
    {
        FoldedIter::new(self.code)
    }

    /// The IL offset of every instruction, in order.
    ///
    /// Decoding stops at the first error, so the result may be shorter than the
    /// code; use [`MethodBody::instructions`] when the error matters.
    pub fn instruction_offsets(&self) -> (list: Vec<u32>)
        ensures
            list@ == offsets(CodeCursor::start(self@.code)),
    {
        let mut list: Vec<u32> = Vec::new();
        let mut it = self.instructions();
        let ghost all = offsets(CodeCursor::start(self@.code));
        assert(list@ + offsets(it@) =~= all);
        loop
            invariant
                list@ + offsets(it@) == all,
                all == offsets(CodeCursor::start(self@.code)),
            ensures
                list@ == all,
            decreases it@.left(),
        {
            let ghost before = it@;
            let ghost had = list@;
            match it.next() {
                Some(Ok(instruction)) => {
                    list.push(instruction.offset);
                    assert(list@ + offsets(it@) =~= had + offsets(before));
                },
                _ => {
                    assert(offsets(before) =~= Seq::empty());
                    assert(list@ =~= all);
                    break;
                },
            }
        }
        list
    }

    /// True when `offset` is the start of an instruction.
    ///
    /// This decodes the method from the start, so callers checking many offsets
    /// should build a set from [`MethodBody::instruction_offsets`] instead.
    pub fn is_instruction_boundary(&self, offset: u32) -> (boundary: bool)
        ensures
            boundary == offsets(CodeCursor::start(self@.code)).contains(offset),
    {
        let mut it = self.instructions();
        let ghost all = offsets(CodeCursor::start(self@.code));
        loop
            invariant
                all.contains(offset) == offsets(it@).contains(offset),
                all == offsets(CodeCursor::start(self@.code)),
            decreases it@.left(),
        {
            let ghost before = it@;
            proof {
                lemma_offsets_ascend(before);
                lemma_offsets_after(before, offset);
            }
            match it.next() {
                Some(Ok(instruction)) => {
                    if instruction.offset == offset {
                        return true;
                    }
                    if instruction.offset > offset {
                        return false;
                    }
                },
                _ => {
                    return false;
                },
            }
        }
    }
}

/// The offsets of instructions ascend, and do not lie before the cursor.
pub proof fn lemma_offsets_ascend(cursor: CodeCursor)
    ensures
        forall|k: int| 0 <= k < offsets(cursor).len() ==> #[trigger] offsets(cursor)[k] >= cursor.offset,
        forall|j: int, k: int|
            0 <= j < k < offsets(cursor).len() ==> #[trigger] offsets(cursor)[j]
                < #[trigger] offsets(cursor)[k],
    decreases cursor.left(),
{
    if cursor.open() {
        if let Ok(i) = cursor.current() {
            let rest = offsets(cursor.advanced());
            lemma_offsets_ascend(cursor.advanced());
            assert(offsets(cursor) =~= seq![i.offset] + rest);
            assert forall|k: int| 1 <= k < offsets(cursor).len() implies #[trigger] offsets(
                cursor,
            )[k] == rest[k - 1] && rest[k - 1] > cursor.offset by {
                assert(rest[k - 1] >= cursor.advanced().offset);
            }
        }
    }
}

/// An offset is among those from `cursor` on exactly when it is the first or
/// among those behind it.
proof fn lemma_offsets_after(cursor: CodeCursor, offset: u32)
    ensures
        offsets(cursor).contains(offset) == (cursor.open() && match cursor.current() {
            Ok(i) => i.offset == offset || offsets(cursor.advanced()).contains(offset),
            Err(_) => false,
        }),
    decreases cursor.left(),
{
    if cursor.open() {
        if let Ok(i) = cursor.current() {
            let rest = offsets(cursor.advanced());
            let all = offsets(cursor);
            assert(all =~= seq![i.offset] + rest);
            if i.offset == offset {
                assert(all[0] == offset);
            }
            if rest.contains(offset) {
                let k = choose|k: int| 0 <= k < rest.len() && rest[k] == offset;
                assert(all[k + 1] == offset);
            }
            if all.contains(offset) && i.offset != offset {
                let k = choose|k: int| 0 <= k < all.len() && all[k] == offset;
                assert(rest[k - 1] == offset);
            }
        }
    }
}

/// Checks the clause number `i` by itself.
fn check_handler(h: &ExceptionHandler, i: usize, code_len: u64) -> (r: Result<()>)
    ensures
        r == (match h.own_problem(i as int, code_len as int) {
            Some(e) => Err(e),
            None => Ok(()),
        }),
{
    let try_end: u64 = h.try_offset as u64 + h.try_length as u64;
    let handler_end: u64 = h.handler_offset as u64 + h.handler_length as u64;
    if try_end > code_len || handler_end > code_len {
        return Err(Error::new(ErrorKind::OutOfRange, i, "exception handler"));
    }
    if h.try_length == 0 || h.handler_length == 0 {
        return Err(Error::new(ErrorKind::Malformed, i, "exception handler"));
    }
    // A handler may not lie inside the block it protects.
    if h.handler_offset < h.try_end() && h.handler_end() > h.try_offset {
        return Err(Error::new(ErrorKind::Malformed, i, "exception handler"));
    }
    if let HandlerKind::Filter { filter_offset } = h.kind {
        if filter_offset as u64 >= code_len {
            return Err(Error::new(ErrorKind::OutOfRange, i, "exception filter"));
        }
        if filter_offset >= h.handler_offset {
            return Err(Error::new(ErrorKind::Malformed, i, "exception filter"));
        }
    }
    Ok(())
}

/// True when two half-open ranges overlap without one containing the other.
pub fn partially_overlaps(a_start: u32, a_end: u32, b_start: u32, b_end: u32) -> (partly: bool)
    ensures
        partly == straddles(a_start, a_end, b_start, b_end),
{
    let overlaps: bool = a_start < b_end && b_start < a_end;
    if !overlaps {
        return false;
    }
    let a_in_b: bool = b_start <= a_start && a_end <= b_end;
    let b_in_a: bool = a_start <= b_start && b_end <= a_end;
    !a_in_b && !b_in_a
}

/// The fields of a fat header.
#[derive(Clone, Copy)]
struct FatHeader {
    flags: FatFlags,
    dwords: u8,
    max_stack: u16,
    code_size: u32,
    locals: u32,
}

/// Reads the fields of a fat header.
fn read_fat_header(r: &mut Reader<'_>, Ghost(b): Ghost<BodyBytes>) -> (header: Result<FatHeader>)
    requires
        old(r).data@ == b.bytes,
        old(r).pos == 0,
        old(r).base == 0,
        old(r).context == CONTEXT,
    ensures
        header matches Err(e) ==> b.fat_error() == Some(e),
        header matches Ok(h) ==> {
            &&& h.flags == b.flags()
            &&& h.dwords == b.header_dwords()
            &&& h.max_stack == reader::le16(b.bytes, 2)
            &&& h.code_size == b.code_size()
            &&& h.locals == reader::le32(b.bytes, 8)
            &&& b.bytes.len() >= 12
            &&& *final(r) == old(r).moved_to(12)
        },
{
    let flags_and_size: u16 = r.u16()?;
    let max_stack: u16 = r.u16()?;
    let code_size: u32 = r.u32()?;
    let locals: u32 = r.u32()?;
    Ok(
        FatHeader {
            flags: FatFlags(flags_and_size % 0x1000),
            dwords: (flags_and_size / 0x1000) as u8,
            max_stack,
            code_size,
            locals,
        },
    )
}

/// Reads a fat header and the code behind it.
fn read_fat_code<'a>(
    r: &mut Reader<'a>,
    strict: bool,
    diagnostics: &mut Vec<Diagnostic>,
    Ghost(b): Ghost<BodyBytes>,
) -> (parts: Result<(FatHeader, u32, &'a [u8])>)
    requires
        old(r).data@ == b.bytes,
        old(r).pos == 0,
        old(r).base == 0,
        old(r).context == CONTEXT,
        strict == b.strict(),
        old(diagnostics)@ == Seq::<Diagnostic>::empty(),
    ensures
        parts matches Err(e) ==> b.fat_error() == Some(e),
        parts matches Ok((header, size, code)) ==> {
            &&& b.fat_error() is None
            &&& header.flags == b.flags()
            &&& header.dwords == b.header_dwords()
            &&& header.max_stack == reader::le16(b.bytes, 2)
            &&& b.locals() == (if header.locals == 0 {
                None
            } else {
                Some(Token(header.locals))
            })
            &&& size == b.header_size()
            &&& code@ == b.bytes.subrange(b.header_size(), b.header_size() + b.code_size())
            &&& b.header_size() + b.code_size() <= b.bytes.len()
            &&& *final(r) == old(r).moved_to(b.header_size() + b.code_size())
            &&& final(diagnostics)@ == b.no_sections().noted
        },
{
    let header = read_fat_header(r, Ghost(b))?;
    if header.dwords != 3 {
        if strict {
            return Err(Error::new(ErrorKind::Malformed, 0, CONTEXT));
        }
        diagnostics.push(
            Diagnostic::new(DiagnosticCode::FatHeaderSize, 0, header.dwords as u64),
        );
    }
    assert(diagnostics@ =~= b.no_sections().noted);
    // The declared header size is authoritative, as the runtime treats it; a
    // size below 3 dwords would overlap the fields just read, so it is clamped
    // up.
    let size: u32 = if header.dwords < 3 {
        12
    } else {
        4 * header.dwords as u32
    };
    r.seek(size as usize)?;
    let code = r.take(header.code_size as usize)?;
    if strict && header.locals != 0 && Token(header.locals).table() != Some(
        TableId::StandAloneSig,
    ) {
        return Err(Error::new(ErrorKind::Malformed, 8, CONTEXT));
    }
    Ok((header, size, code))
}

/// Parses a body with a fat header, at whose start `reader` is.
#[verifier::rlimit(40)]
fn parse_fat<'a>(reader: Reader<'a>, code_rva: u32, strictness: Strictness) -> (result: Result<
    MethodBody<'a>,
>)
    requires
        reader.pos == 0,
        reader.base == 0,
        reader.context == CONTEXT,
        reader.data.len() > 0,
        reader.data@[0] as int % 4 == 3,
    ensures
        same_body(result, (BodyBytes { bytes: reader.data@, code_rva, strictness }).parsed()),
{
    let mut r = reader;
    let ghost b = BodyBytes { bytes: reader.data@, code_rva, strictness };
    let mut diagnostics: Vec<Diagnostic> = Vec::new();
    let (header, header_size, code) = read_fat_code(
        &mut r,
        strictness.is_strict(),
        &mut diagnostics,
        Ghost(b),
    )?;
    let local_var_sig: Option<Token> = if header.locals == 0 {
        None
    } else {
        Some(Token(header.locals))
    };
    let mut exception_handlers: Vec<ExceptionHandler> = Vec::new();
    let mut unknown_sections: Vec<RawSection<'a>> = Vec::new();
    assert(raw_sections(unknown_sections@) =~= b.no_sections().unknown);
    if header.flags.more_sects() {
        parse_sections(
            &mut r,
            strictness,
            &mut diagnostics,
            &mut exception_handlers,
            &mut unknown_sections,
            Ghost(b),
        )?;
    }
    let body = MethodBody {
        kind: HeaderKind::Fat,
        flags: header.flags,
        max_stack: header.max_stack,
        code,
        code_rva: code_rva.wrapping_add(header_size),
        local_var_sig,
        exception_handlers,
        unknown_sections,
        header_dwords: header.dwords,
        total_size: r.position(),
        diagnostics,
    };
    assert(body@ =~= b.fat_body());
    Ok(body)
}

/// The header of the next data section, as far as it can be read.
#[derive(Clone, Copy)]
struct SectionHeader {
    start: usize,
    kind: u8,
    declared: u32,
}

/// Reads the header of the next data section.
fn read_section_header(
    r: &mut Reader<'_>,
    Ghost(b): Ghost<BodyBytes>,
    Ghost(pos): Ghost<int>,
) -> (header: Result<SectionHeader>)
    requires
        old(r).wf(),
        old(r).data@ == b.bytes,
        old(r).base == 0,
        old(r).context == CONTEXT,
        pos == old(r).pos,
    ensures
        header matches Err(e) ==> b.cut_off(pos) == Some(e),
        header matches Ok(h) ==> {
            &&& b.cut_off(pos) is None
            &&& h.start == b.section_start(pos)
            &&& h.start + 4 <= b.bytes.len()
            &&& h.kind == b.section_kind(h.start as int)
            &&& h.declared == b.declared_size(h.start as int)
            &&& *final(r) == old(r).moved_to(h.start + 4)
            &&& final(r).wf()
        },
{
    r.align_to(0, 4)?;
    let start: usize = r.position();
    let kind: u8 = r.u8()?;
    let declared: u32 = if kind / 0x40 % 2 == 1 {
        let size = r.take(3)?;
        size[0] as u32 + 0x100 * size[1] as u32 + 0x1_0000 * size[2] as u32
    } else {
        let size: u8 = r.u8()?;
        let _reserved: u16 = r.u16()?;
        size as u32
    };
    Ok(SectionHeader { start, kind, declared })
}

/// Reads the exception clause in `chunk`, of the fat or the small form; `at` is
/// where it starts, for errors.
pub fn read_clause(chunk: &[u8], fat: bool, at: usize) -> (r: Result<ExceptionHandler>)
    ensures
        r == decoded_clause(chunk@, fat, at),
{
    let mut r = Reader::new(chunk, at, CLAUSE_CONTEXT);
    let raw_flags: u32;
    let try_offset: u32;
    let try_length: u32;
    let handler_offset: u32;
    let handler_length: u32;
    if fat {
        raw_flags = r.u32()?;
        try_offset = r.u32()?;
        try_length = r.u32()?;
        handler_offset = r.u32()?;
        handler_length = r.u32()?;
    } else {
        raw_flags = r.u16()? as u32;
        try_offset = r.u16()? as u32;
        try_length = r.u8()? as u32;
        handler_offset = r.u16()? as u32;
        handler_length = r.u8()? as u32;
    }
    let extra: u32 = r.u32()?;
    let bits: u32 = raw_flags % 8;
    let kind: HandlerKind = if bits == 0 {
        HandlerKind::Catch(Token(extra))
    } else if bits == 1 {
        HandlerKind::Filter { filter_offset: extra }
    } else if bits == 2 {
        HandlerKind::Finally
    } else if bits == 4 {
        HandlerKind::Fault
    } else {
        return Err(Error::new(ErrorKind::Malformed, at, CLAUSE_CONTEXT));
    };
    Ok(
        ExceptionHandler {
            kind,
            try_offset,
            try_length,
            handler_offset,
            handler_length,
            raw_flags,
        },
    )
}

/// Reads the `count` exception clauses at `at` of `bytes`.
fn read_clauses(
    bytes: &[u8],
    at: usize,
    fat: bool,
    count: usize,
    strict: bool,
    diagnostics: &mut Vec<Diagnostic>,
    handlers: &mut Vec<ExceptionHandler>,
    Ghost(b): Ghost<BodyBytes>,
    Ghost(s): Ghost<SectionsState>,
) -> (r: Result<()>)
    requires
        bytes@ == b.bytes,
        at + count * clause_size(fat) <= bytes.len(),
        strict == b.strict(),
        s.failed is None,
        old(diagnostics)@ == s.noted,
        old(handlers)@ == s.handlers,
    ensures
        r matches Err(e) ==> b.clauses(s, at as int, fat, count as nat).failed == Some(e),
        r is Ok ==> b.clauses(s, at as int, fat, count as nat) == (SectionsState {
            noted: final(diagnostics)@,
            handlers: final(handlers)@,
            ..s
        }),
{
    let size: usize = if fat {
        24
    } else {
        12
    };
    let mut i: usize = 0;
    while i < count
        invariant
            i <= count,
            size == clause_size(fat),
            bytes@ == b.bytes,
            at + count * clause_size(fat) <= bytes.len(),
            strict == b.strict(),
            s.failed is None,
            b.clauses(s, at as int, fat, i as nat) == (SectionsState {
                noted: diagnostics@,
                handlers: handlers@,
                ..s
            }),
        decreases count - i,
    {
        assert(i * size + size <= count * size) by (nonlinear_arith)
            requires
                i < count,
        ;
        let start: usize = at + i * size;
        let chunk: &[u8] = &bytes[start..start + size];
        assert(chunk@ == clause_chunk(bytes@, start as int, fat));
        match read_clause(chunk, fat, start) {
            Ok(h) => {
                handlers.push(h);
            },
            Err(e) => {
                if strict {
                    proof {
                        lemma_clauses_rejected(
                            b,
                            s,
                            at as int,
                            fat,
                            (i + 1) as nat,
                            count as nat,
                        );
                    }
                    return Err(e);
                }
                // The size of the section counts a clause that is left out.
                let flags: u32 = if fat {
                    reader::u32_at(chunk, 0)
                } else {
                    reader::u16_at(chunk, 0) as u32
                };
                diagnostics.push(
                    Diagnostic::new(DiagnosticCode::EhSectionSize, start, flags as u64),
                );
            },
        }
        i = i + 1;
    }
    Ok(())
}

/// The size of the contents of the section with the header `header`, behind
/// which there are `room` bytes.
fn settle_size(
    header: SectionHeader,
    room: usize,
    strict: bool,
    diagnostics: &mut Vec<Diagnostic>,
    Ghost(b): Ghost<BodyBytes>,
    Ghost(s): Ghost<SectionsState>,
) -> (size: Result<usize>)
    requires
        header.kind == b.section_kind(header.start as int),
        header.declared == b.declared_size(header.start as int),
        room == b.section_room(header.start as int),
        strict == b.strict(),
        s.failed is None,
        old(diagnostics)@ == s.noted,
    ensures
        size matches Err(e) ==> b.sized(s, header.start as int).failed == Some(e),
        size matches Ok(n) ==> {
            &&& n == b.section_size(header.start as int)
            &&& b.sized(s, header.start as int) == (SectionsState {
                noted: final(diagnostics)@,
                ..s
            })
        },
{
    let start: usize = header.start;
    let clause: usize = if header.kind / 0x40 % 2 == 1 {
        24
    } else {
        12
    };
    let declared: usize = header.declared as usize;
    let counted: usize = declared.saturating_sub(4);
    // `DataSize` counts the 4-byte section header as well as the clauses,
    // "n*12+4" (II.25.4.5). Some Visual Basic compilers wrote it without the
    // header, which silently drops the last clause of every section they emit.
    // The two readings are told apart by arithmetic: the header-inclusive one
    // leaves a partial clause while the header-exclusive one divides exactly.
    if header.kind % 2 == 1 && counted % clause != 0 && declared % clause == 0 && declared
        <= room {
        if strict {
            return Err(Error::new(ErrorKind::Malformed, start, CONTEXT));
        }
        diagnostics.push(
            Diagnostic::new(DiagnosticCode::EhSectionSize, start, declared as u64),
        );
        return Ok(declared);
    }
    if counted > room {
        if strict {
            return Err(Error::new(ErrorKind::Truncated, start, CONTEXT));
        }
        diagnostics.push(
            Diagnostic::new(DiagnosticCode::EhSectionSize, start, declared as u64),
        );
        return Ok(room);
    }
    Ok(counted)
}

/// Reads the `size` bytes of exception clauses of the section at `start`.
fn parse_clauses(
    bytes: &[u8],
    start: usize,
    size: usize,
    strict: bool,
    diagnostics: &mut Vec<Diagnostic>,
    handlers: &mut Vec<ExceptionHandler>,
    Ghost(b): Ghost<BodyBytes>,
    Ghost(s): Ghost<SectionsState>,
) -> (r: Result<()>)
    requires
        bytes@ == b.bytes,
        start + 4 + size <= bytes.len(),
        size == b.section_size(start as int),
        strict == b.strict(),
        s.failed is None,
        old(diagnostics)@ == s.noted,
        old(handlers)@ == s.handlers,
    ensures
        r matches Err(e) ==> b.with_clauses(s, start as int).failed == Some(e),
        r is Ok ==> b.with_clauses(s, start as int) == (SectionsState {
            noted: final(diagnostics)@,
            handlers: final(handlers)@,
            ..s
        }),
{
    let fat: bool = bytes[start] / 0x40 % 2 == 1;
    let clause: usize = if fat {
        24
    } else {
        12
    };
    if size % clause != 0 {
        if strict {
            return Err(Error::new(ErrorKind::Malformed, start, CONTEXT));
        }
        diagnostics.push(Diagnostic::new(DiagnosticCode::EhSectionSize, start, size as u64));
    }
    let count: usize = size / clause;
    assert(count * clause <= size) by (nonlinear_arith)
        requires
            count == size / clause,
            clause > 0,
    ;
    let ghost checked = SectionsState { noted: diagnostics@, ..s };
    read_clauses(
        bytes,
        start + 4,
        fat,
        count,
        strict,
        diagnostics,
        handlers,
        Ghost(b),
        Ghost(checked),
    )
}

/// Reads the next data section, and says whether it is the last.
fn parse_section<'a>(
    r: &mut Reader<'a>,
    strict: bool,
    diagnostics: &mut Vec<Diagnostic>,
    handlers: &mut Vec<ExceptionHandler>,
    unknown: &mut Vec<RawSection<'a>>,
    Ghost(b): Ghost<BodyBytes>,
    Ghost(s): Ghost<SectionsState>,
) -> (last: Result<bool>)
    requires
        old(r).wf(),
        old(r).data@ == b.bytes,
        old(r).base == 0,
        old(r).context == CONTEXT,
        strict == b.strict(),
        s.pos == old(r).pos,
        s.failed is None,
        !s.done,
        old(diagnostics)@ == s.noted,
        old(handlers)@ == s.handlers,
        raw_sections(old(unknown)@) == s.unknown,
    ensures
        last matches Err(e) ==> b.section_step(s).failed == Some(e),
        last matches Ok(done) ==> {
            let next = b.section_step(s);
            &&& next.failed is None
            &&& next.done == done
            &&& s.pos <= next.pos <= b.bytes.len()
            &&& !done ==> s.pos < next.pos
            &&& *final(r) == old(r).moved_to(next.pos)
            &&& final(r).wf()
            &&& final(diagnostics)@ == next.noted
            &&& final(handlers)@ == next.handlers
            &&& raw_sections(final(unknown)@) == next.unknown
        },
{
    let before: Reader<'a> = *r;
    let header = match read_section_header(r, Ghost(b), Ghost(s.pos)) {
        Ok(header) => header,
        Err(e) => {
            if strict {
                return Err(e);
            }
            *r = before;
            diagnostics.push(
                Diagnostic::new(
                    DiagnosticCode::EhSectionSize,
                    r.position(),
                    r.remaining() as u64,
                ),
            );
            return Ok(true);
        },
    };
    let start: usize = header.start;
    let size: usize = settle_size(header, r.remaining(), strict, diagnostics, Ghost(b), Ghost(s))?;
    let ghost sized = b.sized(s, start as int);
    let bytes: &'a [u8] = r.data;
    let data = r.take(size)?;
    if header.kind % 2 == 1 {
        parse_clauses(
            bytes,
            start,
            size,
            strict,
            diagnostics,
            handlers,
            Ghost(b),
            Ghost(sized),
        )?;
    } else {
        unknown.push(RawSection { kind: header.kind, data });
        assert(raw_sections(unknown@) =~= b.filled(sized, start as int).unknown);
    }
    let ghost filled = b.filled(sized, start as int);
    assert(filled.failed is None);
    assert(b.section_step(s) == b.ended(filled, start as int));
    if header.kind / 0x80 == 0 {
        return Ok(true);
    }
    if r.is_empty() {
        if strict {
            return Err(Error::new(ErrorKind::Truncated, r.position(), CONTEXT));
        }
        return Ok(true);
    }
    Ok(false)
}

/// Reads the data sections behind the code.
fn parse_sections<'a>(
    r: &mut Reader<'a>,
    strictness: Strictness,
    diagnostics: &mut Vec<Diagnostic>,
    handlers: &mut Vec<ExceptionHandler>,
    unknown: &mut Vec<RawSection<'a>>,
    Ghost(b): Ghost<BodyBytes>,
) -> (result: Result<()>)
    requires
        old(r).wf(),
        old(r).data@ == b.bytes,
        old(r).base == 0,
        old(r).context == CONTEXT,
        strictness == b.strictness,
        b.flags().has(8),
        old(r).pos == b.no_sections().pos,
        old(diagnostics)@ == b.no_sections().noted,
        old(handlers)@ == b.no_sections().handlers,
        raw_sections(old(unknown)@) == b.no_sections().unknown,
    ensures
        result matches Err(e) ==> b.all_sections().failed == Some(e),
        result is Ok ==> {
            let all = b.all_sections();
            &&& all.failed is None
            &&& *final(r) == old(r).moved_to(all.pos)
            &&& 0 <= all.pos <= b.bytes.len()
            &&& final(diagnostics)@ == all.noted
            &&& final(handlers)@ == all.handlers
            &&& raw_sections(final(unknown)@) == all.unknown
        },
{
    let strict: bool = strictness.is_strict();
    let ghost first = *r;
    let ghost mut s = SectionsState { done: false, ..b.no_sections() };
    loop
        invariant
            r.wf(),
            r.data@ == b.bytes,
            r.base == 0,
            r.context == CONTEXT,
            r.data == first.data,
            first.base == 0,
            first.context == CONTEXT,
            strict == b.strict(),
            s.pos == r.pos,
            s.failed is None,
            !s.done,
            diagnostics@ == s.noted,
            handlers@ == s.handlers,
            raw_sections(unknown@) == s.unknown,
            b.sections(s) == b.all_sections(),
            *old(r) == first,
        decreases b.bytes.len() - s.pos,
    {
        let last: bool = parse_section(
            r,
            strict,
            diagnostics,
            handlers,
            unknown,
            Ghost(b),
            Ghost(s),
        )?;
        if last {
            return Ok(());
        }
        proof {
            s = b.section_step(s);
        }
    }
}

impl BodyBytes {
    /// The same bytes, parsed with another strictness.
    pub open spec fn with_strictness(self, strictness: Strictness) -> BodyBytes {
        BodyBytes { strictness, ..self }
    }
}

/// The sections never end before they start or behind the bytes.
proof fn lemma_sections_within(b: BodyBytes, s: SectionsState)
    requires
        0 <= s.pos <= b.bytes.len(),
    ensures
        b.sections(s).failed is None ==> s.pos <= b.sections(s).pos <= b.bytes.len(),
    decreases b.bytes.len() - s.pos,
{
    let next = b.section_step(s);
    if !(next.failed is Some || next.done || !(s.pos < next.pos <= b.bytes.len())) {
        lemma_sections_within(b, next);
    }
}

/// The code of a body is a part of its bytes, of exactly the declared size, and
/// lies within the body, which lies within the bytes.
pub proof fn lemma_body_within_bytes(b: BodyBytes)
    requires
        b.bytes.len() <= usize::MAX,
    ensures
        b.parsed() matches Ok(m) ==> {
            let start = if m.kind is Tiny {
                1
            } else {
                b.header_size()
            };
            let size = if m.kind is Tiny {
                b.tiny_size()
            } else {
                b.code_size()
            };
            &&& m.code.len() == size
            &&& m.code == b.bytes.subrange(start, start + size)
            &&& start + size <= m.total_size <= b.bytes.len()
        },
{
    if b.parsed() is Ok && b.bytes[0] as int % 4 == 3 && b.flags().has(8) {
        lemma_sections_within(b, SectionsState { done: false, ..b.no_sections() });
    }
}

/// Clauses that are accepted with deviations rejected are the same, with nothing
/// more noted, where they are accepted.
proof fn lemma_strict_clauses(b: BodyBytes, s: SectionsState, at: int, fat: bool, n: nat)
    requires
        b.with_strictness(Strictness::Strict).clauses(s, at, fat, n).failed is None,
    ensures
        b.with_strictness(Strictness::Permissive).clauses(s, at, fat, n) == b.with_strictness(
            Strictness::Strict,
        ).clauses(s, at, fat, n),
        b.with_strictness(Strictness::Strict).clauses(s, at, fat, n).noted == s.noted,
    decreases n,
{
    if n > 0 {
        lemma_strict_clauses(b, s, at, fat, (n - 1) as nat);
    }
}

proof fn lemma_strict_sections(b: BodyBytes, s: SectionsState)
    requires
        s.failed is None,
        b.with_strictness(Strictness::Strict).sections(s).failed is None,
    ensures
        b.with_strictness(Strictness::Permissive).sections(s) == b.with_strictness(
            Strictness::Strict,
        ).sections(s),
        b.with_strictness(Strictness::Strict).sections(s).noted == s.noted,
    decreases b.bytes.len() - s.pos,
{
    let strict = b.with_strictness(Strictness::Strict);
    let permissive = b.with_strictness(Strictness::Permissive);
    let next = strict.section_step(s);
    assert(next.failed is None);
    let start = strict.section_start(s.pos);
    let fat = strict.is_fat(start);
    let count = (strict.section_size(start) / clause_size(fat)) as nat;
    assert(strict.cut_off(s.pos) is None);
    assert(permissive.cut_off(s.pos) is None);
    assert(strict.sized(s, start) == permissive.sized(s, start));
    if strict.is_eh(start) {
        lemma_strict_clauses(b, s, start + 4, fat, count);
    }
    assert(strict.filled(s, start) == permissive.filled(s, start));
    assert(permissive.section_step(s) == next);
    if !(next.failed is Some || next.done || !(s.pos < next.pos <= b.bytes.len())) {
        lemma_strict_sections(b, next);
    }
}

/// A body that parses with deviations rejected parses to the same body, with
/// nothing noted, where they are accepted.
pub proof fn lemma_strict_body_parses_permissively(b: BodyBytes)
    ensures
        b.with_strictness(Strictness::Strict).parsed() matches Ok(m) ==> m.diagnostics.len() == 0
            && b.with_strictness(Strictness::Permissive).parsed() == Ok::<BodyModel, Error>(m),
{
    let strict = b.with_strictness(Strictness::Strict);
    let permissive = b.with_strictness(Strictness::Permissive);
    if strict.parsed() is Ok && b.bytes[0] as int % 4 == 3 {
        assert(strict.no_sections() == permissive.no_sections());
        if b.flags().has(8) {
            lemma_strict_sections(b, SectionsState { done: false, ..b.no_sections() });
        }
    }
}

/// The `n` exception clauses from `at` on, all of a known kind.
pub open spec fn clause_list(bytes: Seq<u8>, at: int, fat: bool, n: nat) -> Seq<ExceptionHandler> {
    Seq::new(n, |i: int| clause_at(bytes, at + i * clause_size(fat), fat)->Ok_0)
}

impl BodyBytes {
    /// True when the `n` exception clauses from `at` on are all of a known kind.
    pub open spec fn clauses_known(self, at: int, fat: bool, n: nat) -> bool {
        forall|i: int|
            0 <= i < n ==> #[trigger] clause_at(self.bytes, at + i * clause_size(fat), fat) is Ok
    }
}

/// Clauses of a known kind are all kept, in order, with nothing noted.
pub proof fn lemma_known_clauses(b: BodyBytes, s: SectionsState, at: int, fat: bool, n: nat)
    requires
        s.failed is None,
        b.clauses_known(at, fat, n),
    ensures
        b.clauses(s, at, fat, n) == (SectionsState {
            handlers: s.handlers + clause_list(b.bytes, at, fat, n),
            ..s
        }),
    decreases n,
{
    if n == 0 {
        assert(s.handlers + clause_list(b.bytes, at, fat, 0) =~= s.handlers);
    } else {
        let k = (n - 1) as nat;
        lemma_known_clauses(b, s, at, fat, k);
        assert(clause_at(b.bytes, at + (n - 1) * clause_size(fat), fat) is Ok);
        assert(s.handlers + clause_list(b.bytes, at, fat, n) =~= (s.handlers + clause_list(
            b.bytes,
            at,
            fat,
            k,
        )).push(clause_at(b.bytes, at + (n - 1) * clause_size(fat), fat)->Ok_0));
    }
}

/// Every clause is either kept or noted, where deviations are accepted.
pub proof fn lemma_clause_count(b: BodyBytes, s: SectionsState, at: int, fat: bool, n: nat)
    requires
        s.failed is None,
        !b.strict(),
    ensures
        ({
            let all = b.clauses(s, at, fat, n);
            &&& all.failed is None
            &&& all.handlers.len() + all.noted.len() == s.handlers.len() + s.noted.len() + n
        }),
    decreases n,
{
    if n > 0 {
        lemma_clause_count(b, s, at, fat, (n - 1) as nat);
    }
}

proof fn lemma_clauses_rejected(
    b: BodyBytes,
    s: SectionsState,
    at: int,
    fat: bool,
    n: nat,
    k: nat,
)
    requires
        n <= k,
        b.clauses(s, at, fat, n).failed is Some,
    ensures
        b.clauses(s, at, fat, k) == b.clauses(s, at, fat, n),
    decreases k,
{
    if n < k {
        lemma_clauses_rejected(b, s, at, fat, n, (k - 1) as nat);
    }
}

proof fn lemma_sections_accepted(b: BodyBytes, s: SectionsState)
    requires
        s.failed is None,
        !b.strict(),
    ensures
        b.sections(s).failed is None,
    decreases b.bytes.len() - s.pos,
{
    let start = b.section_start(s.pos);
    let fat = b.is_fat(start);
    let count = (b.section_size(start) / clause_size(fat)) as nat;
    let sized = b.sized(s, start);
    lemma_clause_count(b, sized, start + 4, fat, count);
    lemma_clause_count(b, sized.note(start, b.section_size(start)), start + 4, fat, count);
    let next = b.section_step(s);
    assert(next.failed is None);
    if !(next.done || !(s.pos < next.pos <= b.bytes.len())) {
        lemma_sections_accepted(b, next);
    }
}

/// Where deviations are accepted, a body parses exactly when its header and its
/// code can be read, whatever the exception table holds.
pub proof fn lemma_readable_code_parses(b: BodyBytes)
    requires
        !b.strict(),
    ensures
        b.parsed() is Ok <==> b.bytes.len() > 0 && (if b.bytes[0] as int % 4 == 2 {
            1 + b.tiny_size() <= b.bytes.len()
        } else {
            b.bytes[0] as int % 4 == 3 && b.fat_error() is None
        }),
{
    lemma_sections_accepted(b, SectionsState { done: false, ..b.no_sections() });
}

/// An exception section that declares its size as it should, the clauses and
/// the section header counted, is never taken otherwise: where its clauses are
/// there and of a known kind, it gives just those, with nothing noted.
pub proof fn lemma_conforming_section(b: BodyBytes, s: SectionsState, start: int, n: nat)
    requires
        s.failed is None,
        0 <= start,
        start + 4 <= b.bytes.len(),
        b.is_eh(start),
        b.declared_size(start) == 4 + n * clause_size(b.is_fat(start)),
        n * clause_size(b.is_fat(start)) <= b.section_room(start),
    ensures
        !b.size_is_headerless(start),
        b.section_size(start) == n * clause_size(b.is_fat(start)),
        b.filled(b.sized(s, start), start) == b.clauses(s, start + 4, b.is_fat(start), n),
        b.clauses_known(start + 4, b.is_fat(start), n) ==> b.filled(b.sized(s, start), start) == (
        SectionsState {
            handlers: s.handlers + clause_list(b.bytes, start + 4, b.is_fat(start), n),
            ..s
        }),
{
    let size = clause_size(b.is_fat(start));
    assert((n * size) % size == 0 && n * size / size == n) by {
        vstd::arithmetic::div_mod::lemma_mod_multiples_basic(n as int, size);
        vstd::arithmetic::div_mod::lemma_div_by_multiple(n as int, size);
    }
    if b.clauses_known(start + 4, b.is_fat(start), n) {
        lemma_known_clauses(b, s, start + 4, b.is_fat(start), n);
    }
}

/// An exception section that declares its size without its own header is
/// rejected in strict mode, and otherwise gives every clause, with the
/// deviation noted.
pub proof fn lemma_headerless_section(b: BodyBytes, s: SectionsState, start: int, n: nat)
    requires
        s.failed is None,
        0 <= start,
        start + 4 <= b.bytes.len(),
        b.is_eh(start),
        n > 0,
        b.declared_size(start) == n * clause_size(b.is_fat(start)),
        n * clause_size(b.is_fat(start)) <= b.section_room(start),
    ensures
        b.size_is_headerless(start),
        b.strict() ==> b.sized(s, start) == s.fail(ErrorKind::Malformed, start),
        !b.strict() ==> b.filled(b.sized(s, start), start) == b.clauses(
            s.note(start, b.declared_size(start)),
            start + 4,
            b.is_fat(start),
            n,
        ),
        !b.strict() && b.clauses_known(start + 4, b.is_fat(start), n) ==> b.filled(
            b.sized(s, start),
            start,
        ) == (SectionsState {
            handlers: s.handlers + clause_list(b.bytes, start + 4, b.is_fat(start), n),
            ..s.note(start, b.declared_size(start))
        }),
{
    let size = clause_size(b.is_fat(start));
    let declared = b.declared_size(start);
    assert((n * size) % size == 0 && n * size / size == n) by {
        vstd::arithmetic::div_mod::lemma_mod_multiples_basic(n as int, size);
        vstd::arithmetic::div_mod::lemma_div_by_multiple(n as int, size);
    }
    assert(n * size >= size) by (nonlinear_arith)
        requires
            n > 0,
            size > 0,
    ;
    assert((declared - 4) % size != 0);
    if b.clauses_known(start + 4, b.is_fat(start), n) {
        lemma_known_clauses(b, s.note(start, declared), start + 4, b.is_fat(start), n);
    }
}

} // verus!
