//! Error and diagnostic types.
//!
//! Every fallible entry point returns [`Error`], a `Copy` struct carrying a
//! machine-readable [`ErrorKind`], the byte offset into the input that was
//! handed to the failing `parse` call, and a short static context string naming
//! the structure that failed to decode.
use vstd::prelude::*;
use vstd::string::StringExecFns;

use crate::text;

verus! {

/// The classification of a decoding failure.
#[derive(Clone, Copy, PartialEq, Eq, PartialOrd, Ord, Hash, Debug, Structural)]
#[non_exhaustive]
pub enum ErrorKind {
    /// The input ended before the structure being decoded was complete.
    Truncated,
    /// The bytes were present but do not form a legal structure.
    Malformed,
    /// The structure is legal but is not decoded.
    Unsupported,
    /// An index, RVA, or offset pointed outside the region it must lie in.
    OutOfRange,
    /// A nested structure exceeded the configured recursion limit.
    RecursionLimit,
    /// Text that must be UTF-8 was not.
    InvalidUtf8,
    /// A CIL prefix was not followed by an instruction it is legal on.
    InvalidPrefixTarget,
    /// The byte (or `0xFE`-escaped byte pair) is not a defined CIL opcode.
    UnknownOpcode,
}

impl ErrorKind {
    /// A short lowercase description.
    pub open spec fn description(self) -> &'static str {
        match self {
            ErrorKind::Truncated => "truncated input",
            ErrorKind::Malformed => "malformed structure",
            ErrorKind::Unsupported => "unsupported structure",
            ErrorKind::OutOfRange => "value out of range",
            ErrorKind::RecursionLimit => "recursion limit exceeded",
            ErrorKind::InvalidUtf8 => "invalid UTF-8",
            ErrorKind::InvalidPrefixTarget => "invalid prefix target",
            ErrorKind::UnknownOpcode => "unknown opcode",
        }
    }

    /// A short lowercase description, used by [`Error::to_string`].
    pub fn as_str(self) -> (s: &'static str)
        ensures
            s == self.description(),
    {
        match self {
            ErrorKind::Truncated => "truncated input",
            ErrorKind::Malformed => "malformed structure",
            ErrorKind::Unsupported => "unsupported structure",
            ErrorKind::OutOfRange => "value out of range",
            ErrorKind::RecursionLimit => "recursion limit exceeded",
            ErrorKind::InvalidUtf8 => "invalid UTF-8",
            ErrorKind::InvalidPrefixTarget => "invalid prefix target",
            ErrorKind::UnknownOpcode => "unknown opcode",
        }
    }
}

/// A decoding failure.
///
/// `offset`, when present, is a byte offset into the buffer passed to the
/// `parse` call that produced this error, not into an inner slice.
#[derive(Clone, Copy, PartialEq, Eq, Hash, Debug)]
pub struct Error {
    /// What went wrong.
    pub kind: ErrorKind,
    /// Byte offset into the failing `parse` call input, when known.
    pub offset: Option<usize>,
    /// The structure that failed to decode, e.g. `"CLI header"`.
    pub context: &'static str,
}

/// Shorthand for results produced by this crate.
pub type Result<T> = core::result::Result<T, Error>;

/// `a + b`, held at the largest `usize`.
pub open spec fn saturating(a: int, b: int) -> usize {
    if a + b > usize::MAX {
        usize::MAX
    } else {
        (a + b) as usize
    }
}

/// The text ` at offset 0x..`, or nothing where the offset is not known.
pub open spec fn offset_text(offset: Option<usize>) -> Seq<char> {
    match offset {
        Some(o) => " at offset "@ + text::hex(o as nat),
        None => Seq::empty(),
    }
}

impl Error {
    /// An error at `offset`.
    pub open spec fn at(kind: ErrorKind, offset: usize, context: &'static str) -> Error {
        Error { kind, offset: Some(offset), context }
    }

    /// Constructs an error with an offset.
    pub fn new(kind: ErrorKind, offset: usize, context: &'static str) -> (e: Self)
        ensures
            e == Error::at(kind, offset, context),
    {
        Error { kind, offset: Some(offset), context }
    }

    /// Constructs an error with no meaningful offset.
    pub fn detached(kind: ErrorKind, context: &'static str) -> (e: Self)
        ensures
            e == (Error { kind, offset: None, context }),
    {
        Error { kind, offset: None, context }
    }

    /// This error with `base` added to its offset, which counts as zero where
    /// it is not known.
    pub open spec fn rebased(self, base: usize) -> Error {
        match self.offset {
            Some(o) => Error::at(self.kind, saturating(o as int, base as int), self.context),
            None => Error::at(self.kind, base, self.context),
        }
    }

    /// Returns a copy of this error with `base` added to any existing offset.
    ///
    /// Used when an inner parser reports an offset relative to a sub-slice and
    /// the caller knows where that sub-slice began.
    #[must_use]
    pub fn rebase(self, base: usize) -> (e: Self)
        ensures
            e == self.rebased(base),
    {
        match self.offset {
            Some(o) => Error {
                kind: self.kind,
                offset: Some(o.saturating_add(base)),
                context: self.context,
            },
            None => Error { kind: self.kind, offset: Some(base), context: self.context },
        }
    }

    /// The rendered error: context, description and offset.
    pub open spec fn rendered(self) -> Seq<char> {
        self.context@ + ": "@ + self.kind.description()@ + offset_text(self.offset)
    }

    /// Renders the error as `context: description at offset 0x..`.
    pub fn to_string(&self) -> (s: String)
        ensures
            s@ == self.rendered(),
    {
        let mut out = String::from_str(self.context);
        out.append(": ");
        out.append(self.kind.as_str());
        push_offset(&mut out, self.offset);
        out
    }
}

/// Appends ` at offset 0x..` where the offset is known.
fn push_offset(out: &mut String, offset: Option<usize>)
    ensures
        final(out)@ == old(out)@ + offset_text(offset),
{
    if let Some(o) = offset {
        out.append(" at offset ");
        text::push_hex(out, o as u64);
        assert(out@ =~= old(out)@ + offset_text(offset));
    } else {
        assert(out@ =~= old(out)@ + offset_text(offset));
    }
}

/// Rebasing twice is rebasing by the sum, held at the largest offset.
pub proof fn lemma_rebase_adds(e: Error, a: usize, b: usize)
    ensures
        e.rebased(a).rebased(b) == e.rebased(saturating(a as int, b as int)),
{
}

/// How tolerant a parser should be of images that deviate from the format.
#[derive(Clone, Copy, PartialEq, Eq, PartialOrd, Ord, Hash, Debug, Structural)]
pub enum Strictness {
    /// Reject everything the format rejects.
    Strict,
    /// Accept the deviations listed under [`DiagnosticCode`], recording each
    /// one as a [`Diagnostic`]. This is the default.
    Permissive,
}

impl Default for Strictness {
    fn default() -> (s: Self)
        ensures
            s == Strictness::Permissive,
    {
        Strictness::Permissive
    }
}

impl Strictness {
    /// True when this is [`Strictness::Strict`].
    pub fn is_strict(self) -> (strict: bool)
        ensures
            strict == (self is Strict),
    {
        matches!(self, Strictness::Strict)
    }
}

/// A deviation from the format that was accepted in [`Strictness::Permissive`].
#[derive(Clone, Copy, PartialEq, Eq, Hash, Debug)]
pub struct Diagnostic {
    /// What was tolerated.
    pub code: DiagnosticCode,
    /// Byte offset into the parsed input, when known.
    pub offset: Option<usize>,
    /// Code-specific detail: a table id, a stream index, a declared size, etc.
    pub detail: u64,
}

impl Diagnostic {
    /// A diagnostic at `offset`.
    pub open spec fn at(code: DiagnosticCode, offset: usize, detail: u64) -> Diagnostic {
        Diagnostic { code, offset: Some(offset), detail }
    }

    /// Constructs a diagnostic with an offset.
    pub fn new(code: DiagnosticCode, offset: usize, detail: u64) -> (d: Self)
        ensures
            d == Diagnostic::at(code, offset, detail),
    {
        Diagnostic { code, offset: Some(offset), detail }
    }

    /// This diagnostic with `base` added to its offset.
    pub open spec fn shifted(self, base: usize) -> Diagnostic {
        match self.offset {
            Some(o) => Diagnostic::at(self.code, saturating(o as int, base as int), self.detail),
            None => self,
        }
    }

    /// The rendered diagnostic: description, detail and offset.
    pub open spec fn rendered(self) -> Seq<char> {
        self.code.description()@ + " (detail "@ + text::hex(self.detail as nat) + ")"@
            + offset_text(self.offset)
    }

    /// Renders the diagnostic as `description (detail 0x..) at offset 0x..`.
    pub fn to_string(&self) -> (s: String)
        ensures
            s@ == self.rendered(),
    {
        let mut out = String::from_str(self.code.as_str());
        out.append(" (detail ");
        text::push_hex(&mut out, self.detail);
        out.append(")");
        push_offset(&mut out, self.offset);
        out
    }
}

/// `notes` with `base` added to each offset.
pub open spec fn shifted(notes: Seq<Diagnostic>, base: usize) -> Seq<Diagnostic> {
    Seq::new(notes.len(), |i: int| notes[i].shifted(base))
}

/// Shifting notes twice is shifting them by the sum, held at the largest offset.
pub proof fn lemma_shift_adds(notes: Seq<Diagnostic>, a: usize, b: usize)
    ensures
        shifted(shifted(notes, a), b) == shifted(notes, saturating(a as int, b as int)),
{
    assert(shifted(shifted(notes, a), b) =~= shifted(notes, saturating(a as int, b as int)));
}

/// An offset that counts from `base` is the one that counts from 0, shifted.
pub proof fn lemma_shifted_offset(base: usize, at: int)
    requires
        0 <= at,
    ensures
        saturating(base as int, at) == saturating(saturating(0, at) as int, base as int),
{
}

/// The error `failed`, if there is one, with `base` added to its offset.
pub open spec fn shifted_failure(failed: Option<Error>, base: usize) -> Option<Error> {
    match failed {
        Some(e) => Some(e.rebased(base)),
        None => None,
    }
}

/// The set of tolerated deviations this crate can report.
///
/// Every variant is produced by some parser; a deviation that a `&self`
/// accessor notices instead, such as a `#US` entry with an even body length, is
/// reported on the value itself (see `UserString::odd_length`).
#[derive(Clone, Copy, PartialEq, Eq, PartialOrd, Ord, Hash, Debug, Structural)]
#[non_exhaustive]
pub enum DiagnosticCode {
    /// A fat method header declared a size other than 3 dwords.
    FatHeaderSize,
    /// A metadata stream name was not NUL-padded to a 4-byte boundary.
    StreamNamePadding,
    /// Two metadata streams shared a name; the first was kept.
    DuplicateStreamName,
    /// A stream declared range was clamped to the end of the metadata region.
    StreamRangeClamped,
    /// The `Valid` bitvector set a bit for a reserved table id with zero rows.
    ReservedTablePresent,
    /// A table that must be sorted was not; lookups fall back to a scan.
    TableNotSorted,
    /// The metadata version string was not NUL-terminated inside its field.
    VersionStringPadding,
    /// The CLI header declared a size other than 72 bytes.
    CliHeaderSize,
    /// A section header raw range ran past the end of the file.
    SectionRangeClamped,
    /// An exception-handling section declared a size inconsistent with its
    /// clauses, held one of no known kind, or was cut off.
    EhSectionSize,
    /// `32BITPREFERRED` was set without `32BITREQUIRED`.
    BitnessFlagsInconsistent,
    /// The table stream declared heap-size bits this crate ignores.
    UnknownHeapSizeBits,
}

impl DiagnosticCode {
    /// A short static description.
    pub open spec fn description(self) -> &'static str {
        match self {
            DiagnosticCode::FatHeaderSize => "fat method header size is not 3 dwords",
            DiagnosticCode::StreamNamePadding => "stream name is not NUL-padded",
            DiagnosticCode::DuplicateStreamName => "duplicate stream name",
            DiagnosticCode::StreamRangeClamped => "stream range clamped to metadata region",
            DiagnosticCode::ReservedTablePresent => "reserved table id flagged present",
            DiagnosticCode::TableNotSorted => "table declared sorted is not sorted",
            DiagnosticCode::VersionStringPadding => "version string is not NUL-terminated",
            DiagnosticCode::CliHeaderSize => "CLI header size is not 72",
            DiagnosticCode::SectionRangeClamped => "section raw range clamped to file",
            DiagnosticCode::EhSectionSize => "exception section size is inconsistent",
            DiagnosticCode::BitnessFlagsInconsistent => "32BITPREFERRED without 32BITREQUIRED",
            DiagnosticCode::UnknownHeapSizeBits => "unknown HeapSizes bits",
        }
    }

    /// A short static description.
    pub fn as_str(self) -> (s: &'static str)
        ensures
            s == self.description(),
    {
        match self {
            DiagnosticCode::FatHeaderSize => "fat method header size is not 3 dwords",
            DiagnosticCode::StreamNamePadding => "stream name is not NUL-padded",
            DiagnosticCode::DuplicateStreamName => "duplicate stream name",
            DiagnosticCode::StreamRangeClamped => "stream range clamped to metadata region",
            DiagnosticCode::ReservedTablePresent => "reserved table id flagged present",
            DiagnosticCode::TableNotSorted => "table declared sorted is not sorted",
            DiagnosticCode::VersionStringPadding => "version string is not NUL-terminated",
            DiagnosticCode::CliHeaderSize => "CLI header size is not 72",
            DiagnosticCode::SectionRangeClamped => "section raw range clamped to file",
            DiagnosticCode::EhSectionSize => "exception section size is inconsistent",
            DiagnosticCode::BitnessFlagsInconsistent => "32BITPREFERRED without 32BITREQUIRED",
            DiagnosticCode::UnknownHeapSizeBits => "unknown HeapSizes bits",
        }
    }
}

} // verus!
