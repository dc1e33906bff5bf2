//! The metadata root and its streams (II.24.2.1, II.24.2.2).
//!
//! A metadata region starts with the signature `0x424A5342` ("BSJB"), a version
//! string, and a directory of named streams. This module locates the four heaps
//! and the table stream and hands their byte ranges to the corresponding
//! decoder; every other stream, known or not, is exposed as a named range.
use vstd::prelude::*;
use vstd::utf8;

use crate::error;
use crate::error::{Diagnostic, DiagnosticCode, Error, ErrorKind, Result, Strictness};
use crate::heaps;
use crate::heaps::{BlobHeap, GuidHeap, HeapModel, StringsHeap, UserStringsHeap};
use crate::reader;
use crate::reader::Reader;
use crate::tables;
use crate::tables::{TableStream, Tables, TablesModel};
use crate::text;

pub mod encoding;

verus! {

/// The context of errors about the root.
pub const CONTEXT: &'static str = "metadata root";

/// The metadata root signature, `BSJB` in little-endian order.
pub const METADATA_SIGNATURE: u32 = 0x424A_5342;

/// One entry of the stream directory.
#[verifier::ext_equal]
pub struct StreamModel {
    /// The stream name.
    pub name: Seq<u8>,
    /// The declared offset from the metadata root.
    pub offset: u32,
    /// The declared size.
    pub size: u32,
    /// The stream bytes, clamped to the metadata region.
    pub data: Seq<u8>,
}

impl StreamModel {
    /// True when the stream is called `name`.
    pub open spec fn named(self, name: Seq<char>) -> bool {
        self.name == utf8::encode_utf8(name)
    }
}

/// One entry of the metadata stream directory.
#[derive(Clone, Copy, PartialEq, Eq, Debug)]
pub struct StreamHeader<'a> {
    /// The stream name bytes, without the terminating NUL.
    pub name_bytes: &'a [u8],
    /// The declared offset of the stream from the metadata root.
    pub offset: u32,
    /// The declared size of the stream in bytes.
    pub size: u32,
    /// The stream bytes, clamped to the metadata region.
    pub data: &'a [u8],
}

impl<'a> View for StreamHeader<'a> {
    type V = StreamModel;

    open spec fn view(&self) -> StreamModel {
        StreamModel {
            name: self.name_bytes@,
            offset: self.offset,
            size: self.size,
            data: self.data@,
        }
    }
}

impl<'a> StreamHeader<'a> {
    /// The stream name as UTF-8, or `None` when it is not valid UTF-8.
    pub fn name(&self) -> (name: Option<&'a str>)
        ensures
            name is Some == utf8::valid_utf8(self@.name),
            name matches Some(s) ==> s@ == utf8::decode_utf8(self@.name),
    {
        match text::utf8_str(self.name_bytes) {
            Ok(s) => Some(s),
            Err(_) => None,
        }
    }

    /// The stream name with invalid sequences replaced.
    pub fn name_lossy(&self) -> (name: String)
        ensures
            name@ == text::lossy_text(self@.name),
    {
        text::utf8_lossy(self.name_bytes)
    }

    /// True when the declared size did not fit inside the metadata region.
    pub fn is_clamped(&self) -> (clamped: bool)
        ensures
            clamped == (self@.data.len() != self.size),
    {
        self.data.len() as u64 != self.size as u64
    }
}

/// The entries of `streams`.
pub open spec fn stream_models<'a>(streams: Seq<StreamHeader<'a>>) -> Seq<StreamModel> {
    Seq::new(streams.len(), |i: int| streams[i]@)
}

/// The first of `streams` from number `from` on that is called `name`.
pub open spec fn first_named(
    streams: Seq<StreamModel>,
    name: Seq<char>,
    from: int,
) -> Option<StreamModel>
    decreases streams.len() - from,
{
    if from >= streams.len() {
        None
    } else if streams[from].named(name) {
        Some(streams[from])
    } else {
        first_named(streams, name, from + 1)
    }
}

/// The first table stream among `streams` from number `from` on.
pub open spec fn first_table_stream(streams: Seq<StreamModel>, from: int) -> Option<StreamModel>
    decreases streams.len() - from,
{
    if from >= streams.len() {
        None
    } else if streams[from].named("#~"@) || streams[from].named("#-"@) {
        Some(streams[from])
    } else {
        first_table_stream(streams, from + 1)
    }
}

/// True when an earlier stream has the name of stream `i`.
pub open spec fn repeats(streams: Seq<StreamModel>, i: int) -> bool {
    exists|j: int| 0 <= j < i && (#[trigger] streams[j]).name == streams[i].name
}

/// What a metadata region holds.
#[verifier::ext_equal]
pub struct MetadataModel {
    /// The region.
    pub bytes: Seq<u8>,
    /// Where the region starts in the input.
    pub base: usize,
    /// The strictness of the parse.
    pub strictness: Strictness,
    /// The deviations accepted.
    pub diagnostics: Seq<Diagnostic>,
    /// The root major version.
    pub major_version: u16,
    /// The root minor version.
    pub minor_version: u16,
    /// The root flags.
    pub flags: u16,
    /// The version string.
    pub version: Seq<u8>,
    /// The stream directory.
    pub streams: Seq<StreamModel>,
    /// The `#Strings` heap.
    pub strings: HeapModel,
    /// The `#US` heap.
    pub user_strings: HeapModel,
    /// The `#Blob` heap.
    pub blobs: HeapModel,
    /// The `#GUID` heap.
    pub guids: HeapModel,
    /// The table stream.
    pub tables: TablesModel,
    /// A `#Pdb` stream is present.
    pub has_pdb_stream: bool,
}

/// The streams listed so far, and what was noticed on the way.
#[verifier::ext_equal]
pub struct DirectoryState {
    /// The streams.
    pub streams: Seq<StreamModel>,
    /// Where the next entry is.
    pub pos: int,
    /// The directory was cut off.
    pub ended: bool,
    /// The deviations accepted.
    pub noted: Seq<Diagnostic>,
    /// The error that ended the parse, if one did.
    pub failed: Option<Error>,
}

/// A metadata region to be parsed.
#[verifier::ext_equal]
pub struct MetadataRegion {
    /// The region.
    pub bytes: Seq<u8>,
    /// Where it starts in the input.
    pub base: usize,
    /// The strictness of the parse.
    pub strictness: Strictness,
}

/// The smaller of two numbers.
pub open spec fn lesser(a: int, b: int) -> int {
    if a < b {
        a
    } else {
        b
    }
}

impl MetadataRegion {
    /// Deviations are rejected.
    pub open spec fn strict(self) -> bool {
        self.strictness is Strict
    }

    /// The absolute offset of region offset `at`.
    pub open spec fn absolute(self, at: int) -> usize {
        error::saturating(self.base as int, at)
    }

    /// The error of kind `kind` at region offset `at`.
    pub open spec fn failure(self, kind: ErrorKind, at: int) -> Error {
        Error::at(kind, self.absolute(at), CONTEXT)
    }

    /// The declared length of the version string field.
    pub open spec fn version_length(self) -> int {
        reader::le32(self.bytes, 12) as int
    }

    /// The version string field.
    pub open spec fn version_field(self) -> Seq<u8> {
        self.bytes.subrange(16, 16 + self.version_length())
    }

    /// True when the version string ends within its field.
    pub open spec fn version_terminated(self) -> bool {
        heaps::nul_from(self.version_field(), 0) < self.version_length()
    }

    /// The version string.
    pub open spec fn version(self) -> Seq<u8> {
        self.version_field().take(heaps::nul_from(self.version_field(), 0))
    }

    /// Where the fields behind the version string start.
    pub open spec fn tail(self) -> int {
        16 + self.version_length()
    }

    /// Why the root cannot be read, if it cannot: the first field that is cut
    /// off or wrong.
    pub open spec fn root_error(self) -> Option<Error> {
        let len = self.bytes.len();
        if len < 4 {
            Some(self.failure(ErrorKind::Truncated, 0))
        } else if reader::le32(self.bytes, 0) != METADATA_SIGNATURE {
            Some(Error::at(ErrorKind::Malformed, self.base, CONTEXT))
        } else if len < 6 {
            Some(self.failure(ErrorKind::Truncated, 4))
        } else if len < 8 {
            Some(self.failure(ErrorKind::Truncated, 6))
        } else if len < 12 {
            Some(self.failure(ErrorKind::Truncated, 8))
        } else if len < 16 {
            Some(self.failure(ErrorKind::Truncated, 12))
        } else if len < self.tail() {
            Some(self.failure(ErrorKind::Truncated, 16))
        } else if !self.version_terminated() && self.strict() {
            Some(self.failure(ErrorKind::Malformed, 16))
        } else if len < self.tail() + 2 {
            Some(self.failure(ErrorKind::Truncated, self.tail()))
        } else if len < self.tail() + 4 {
            Some(self.failure(ErrorKind::Truncated, self.tail() + 2))
        } else {
            None
        }
    }

    /// The number of streams that the root declares.
    pub open spec fn stream_count(self) -> nat {
        reader::le16(self.bytes, self.tail() + 2) as nat
    }

    /// Where listing the streams starts.
    pub open spec fn directory_start(self) -> DirectoryState {
        let padding = Diagnostic::at(
            DiagnosticCode::VersionStringPadding,
            self.absolute(16),
            self.version_length() as u64,
        );
        DirectoryState {
            streams: Seq::empty(),
            pos: self.tail() + 4,
            ended: false,
            noted: if self.version_terminated() {
                Seq::empty()
            } else {
                seq![padding]
            },
            failed: None,
        }
    }

    /// Where the name of the directory entry at `at` ends: at its NUL, or with
    /// the region where that is missing.
    pub open spec fn name_end(self, at: int) -> int {
        heaps::nul_from(self.bytes, at + 8)
    }

    /// The entry at `at` of the directory.
    pub open spec fn entry(self, at: int) -> StreamModel {
        let offset = reader::le32(self.bytes, at);
        let size = reader::le32(self.bytes, at + 4);
        let len = self.bytes.len() as int;
        StreamModel {
            name: self.bytes.subrange(at + 8, self.name_end(at)),
            offset,
            size,
            data: self.bytes.subrange(lesser(offset as int, len), lesser(offset + size, len)),
        }
    }

    /// Where the entry at `at` should end: its name is terminated by a NUL and
    /// padded to a 4-byte boundary.
    pub open spec fn padded_end(self, at: int) -> int {
        let width = (self.name_end(at) - (at + 8) + 1) as nat;
        at + 8 + width + reader::padding(width, 4)
    }

    /// True when the region ends before the name of the entry at `at` is
    /// terminated and padded.
    pub open spec fn name_unpadded(self, at: int) -> bool {
        self.padded_end(at) > self.bytes.len()
    }

    /// Where the entry at `at` ends: with its padding, or with the region where
    /// that is missing.
    pub open spec fn entry_end(self, at: int) -> int {
        if self.name_unpadded(at) {
            self.bytes.len() as int
        } else {
            self.padded_end(at)
        }
    }

    /// What is noted about the entry at `at`.
    pub open spec fn entry_notes(self, at: int) -> Seq<Diagnostic> {
        let entry = self.entry(at);
        let name = Diagnostic::at(
            DiagnosticCode::StreamNamePadding,
            self.absolute(at + 8),
            (self.bytes.len() - (at + 8)) as u64,
        );
        let range = Diagnostic::at(
            DiagnosticCode::StreamRangeClamped,
            self.absolute(entry.offset as int),
            error::saturating(entry.offset as int, entry.size as int) as u64,
        );
        (if self.name_unpadded(at) {
            seq![name]
        } else {
            Seq::empty()
        }) + (if entry.data.len() != entry.size {
            seq![range]
        } else {
            Seq::empty()
        })
    }

    /// Why the entry at `at` is rejected, if it is.
    pub open spec fn entry_error(self, at: int) -> Option<Error> {
        let entry = self.entry(at);
        if self.strict() && (self.name_end(at) == self.bytes.len() || entry.name.len() > 32) {
            Some(self.failure(ErrorKind::Malformed, at + 8))
        } else if self.strict() && self.name_unpadded(at) {
            Some(self.failure(ErrorKind::OutOfRange, at + 8))
        } else if self.strict() && entry.data.len() != entry.size {
            Some(self.failure(ErrorKind::Truncated, entry.offset as int))
        } else {
            None
        }
    }

    /// The streams after one more entry was looked at. A directory that is cut
    /// off ends the list rather than the parse, unless deviations are rejected.
    pub open spec fn directory_step(self, s: DirectoryState) -> DirectoryState {
        if s.failed is Some || s.ended {
            s
        } else if s.pos + 8 > self.bytes.len() {
            if self.strict() {
                DirectoryState { failed: Some(self.failure(ErrorKind::Truncated, s.pos)), ..s }
            } else {
                DirectoryState { ended: true, ..s }
            }
        } else {
            match self.entry_error(s.pos) {
                Some(e) => DirectoryState { failed: Some(e), ..s },
                None => DirectoryState {
                    streams: s.streams.push(self.entry(s.pos)),
                    pos: self.entry_end(s.pos),
                    noted: s.noted + self.entry_notes(s.pos),
                    ..s
                },
            }
        }
    }

    /// The streams after the first `n` entries were looked at.
    pub open spec fn listed(self, n: nat) -> DirectoryState
        decreases n,
    {
        if n == 0 {
            self.directory_start()
        } else {
            self.directory_step(self.listed((n - 1) as nat))
        }
    }

    /// The stream directory.
    pub open spec fn directory(self) -> DirectoryState {
        self.listed(self.stream_count())
    }

    /// What is noted about the names of the first `n` streams.
    pub open spec fn repeat_notes(self, n: nat) -> Seq<Diagnostic>
        decreases n,
    {
        if n == 0 {
            Seq::empty()
        } else {
            let before = self.repeat_notes((n - 1) as nat);
            let streams = self.directory().streams;
            if repeats(streams, n - 1) {
                before.push(
                    Diagnostic::at(
                        DiagnosticCode::DuplicateStreamName,
                        self.absolute(streams[n - 1].offset as int),
                        0,
                    ),
                )
            } else {
                before
            }
        }
    }

    /// The first stream from number `from` on whose name an earlier one has.
    pub open spec fn first_repeat(self, from: int) -> Option<StreamModel>
        decreases self.directory().streams.len() - from,
    {
        let streams = self.directory().streams;
        if from >= streams.len() {
            None
        } else if repeats(streams, from) {
            Some(streams[from])
        } else {
            self.first_repeat(from + 1)
        }
    }

    /// The heap that is the first stream called `name`, empty where there is
    /// none.
    pub open spec fn heap(self, name: Seq<char>) -> HeapModel {
        match first_named(self.directory().streams, name, 0) {
            Some(stream) => HeapModel {
                data: stream.data,
                base: self.absolute(stream.offset as int),
            },
            None => HeapModel { data: Seq::empty(), base: 0 },
        }
    }

    /// The table stream, where there is one.
    pub open spec fn table_stream(self) -> Option<TableStream> {
        match first_table_stream(self.directory().streams, 0) {
            Some(stream) => Some(
                TableStream {
                    data: stream.data,
                    base: self.absolute(stream.offset as int),
                    uncompressed: stream.named("#-"@),
                    strict: self.strict(),
                },
            ),
            None => None,
        }
    }

    /// The tables, or why there are none.
    pub open spec fn tables(self) -> Result<TablesModel> {
        match self.table_stream() {
            Some(stream) => stream.parsed(),
            None => if self.strict() {
                Err(Error::at(ErrorKind::Malformed, self.base, CONTEXT))
            } else {
                Ok(TablesModel::none())
            },
        }
    }

    /// Everything that is noted about the region.
    pub open spec fn notes(self) -> Seq<Diagnostic> {
        let directory = self.directory();
        directory.noted + self.repeat_notes(directory.streams.len()) + match self.table_stream() {
            Some(stream) => stream.noted(),
            None => Seq::empty(),
        }
    }

    /// The region with `tables` as its tables.
    pub open spec fn model(self, tables: TablesModel) -> MetadataModel {
        MetadataModel {
            bytes: self.bytes,
            base: self.base,
            strictness: self.strictness,
            diagnostics: self.notes(),
            major_version: reader::le16(self.bytes, 4),
            minor_version: reader::le16(self.bytes, 6),
            flags: reader::le16(self.bytes, self.tail()),
            version: self.version(),
            streams: self.directory().streams,
            strings: self.heap("#Strings"@),
            user_strings: self.heap("#US"@),
            blobs: self.heap("#Blob"@),
            guids: self.heap("#GUID"@),
            tables,
            has_pdb_stream: first_named(self.directory().streams, "#Pdb"@, 0) is Some,
        }
    }

    /// What parsing the region gives.
    pub open spec fn parsed(self) -> Result<MetadataModel> {
        match self.root_error() {
            Some(e) => Err(e),
            None => match self.directory().failed {
                Some(e) => Err(e),
                None => match self.first_repeat(0) {
                    Some(stream) if self.strict() => Err(
                        self.failure(ErrorKind::Malformed, stream.offset as int),
                    ),
                    _ => match self.tables() {
                        Err(e) => Err(e),
                        Ok(tables) => Ok(self.model(tables)),
                    },
                },
            },
        }
    }
}

/// A directory that was rejected stays so.
proof fn lemma_rejection_stays(m: MetadataRegion, n: nat, k: nat)
    requires
        n <= k,
        m.listed(n).failed is Some || m.listed(n).ended,
    ensures
        m.listed(k) == m.listed(n),
    decreases k,
{
    if n < k {
        lemma_rejection_stays(m, n, (k - 1) as nat);
    }
}

/// The fixed fields of the root.
#[derive(Clone, Copy)]
struct Root<'a> {
    major_version: u16,
    minor_version: u16,
    version_bytes: &'a [u8],
    flags: u16,
    stream_count: u16,
}

/// Reads the root up to the stream directory.
fn read_root<'a>(
    r: &mut Reader<'a>,
    strict: bool,
    diagnostics: &mut Vec<Diagnostic>,
    Ghost(m): Ghost<MetadataRegion>,
) -> (root: Result<Root<'a>>)
    requires
        old(r).data@ == m.bytes,
        old(r).base == m.base,
        old(r).context == CONTEXT,
        old(r).pos == 0,
        strict == m.strict(),
        old(diagnostics)@ == Seq::<Diagnostic>::empty(),
    ensures
        root matches Ok(f) ==> {
            &&& m.root_error() is None
            &&& f.major_version == reader::le16(m.bytes, 4)
            &&& f.minor_version == reader::le16(m.bytes, 6)
            &&& f.version_bytes@ == m.version()
            &&& f.flags == reader::le16(m.bytes, m.tail())
            &&& f.stream_count == m.stream_count()
            &&& *final(r) == old(r).moved_to(m.tail() + 4)
            &&& final(r).wf()
            &&& final(diagnostics)@ == m.directory_start().noted
        },
        root matches Err(e) ==> m.root_error() == Some(e),
{
    let base: usize = r.base;
    if r.u32()? != METADATA_SIGNATURE {
        return Err(Error::new(ErrorKind::Malformed, base, CONTEXT));
    }
    let major_version: u16 = r.u16()?;
    let minor_version: u16 = r.u16()?;
    let _reserved: u32 = r.u32()?;
    let version_length: u32 = r.u32()?;
    let version_at: usize = r.absolute();
    let version_field = r.take(version_length as usize)?;
    let end: usize = heaps::find_nul(version_field, 0);
    if end == version_field.len() {
        if strict {
            return Err(Error::new(ErrorKind::Malformed, version_at, CONTEXT));
        }
        diagnostics.push(
            Diagnostic::new(
                DiagnosticCode::VersionStringPadding,
                version_at,
                version_length as u64,
            ),
        );
    }
    assert(diagnostics@ =~= m.directory_start().noted);
    let version_bytes = &version_field[0..end];
    let flags: u16 = r.u16()?;
    let stream_count: u16 = r.u16()?;
    Ok(Root { major_version, minor_version, version_bytes, flags, stream_count })
}

/// Reads one entry of the stream directory.
fn read_entry<'a>(
    r: &mut Reader<'a>,
    strict: bool,
    diagnostics: &mut Vec<Diagnostic>,
    Ghost(m): Ghost<MetadataRegion>,
) -> (entry: Result<StreamHeader<'a>>)
    requires
        old(r).wf(),
        old(r).data@ == m.bytes,
        old(r).base == m.base,
        old(r).context == CONTEXT,
        old(r).has(8),
        strict == m.strict(),
    ensures
        ({
            let at = old(r).pos as int;
            &&& entry matches Ok(stream) ==> {
                &&& m.entry_error(at) is None
                &&& stream@ == m.entry(at)
                &&& *final(r) == old(r).moved_to(m.entry_end(at))
                &&& final(r).wf()
                &&& final(diagnostics)@ == old(diagnostics)@ + m.entry_notes(at)
            }
            &&& entry matches Err(e) ==> m.entry_error(at) == Some(e)
        }),
{
    let ghost at = r.pos as int;
    let bytes = r.data;
    let base: usize = r.base;
    let offset: u32 = r.u32()?;
    let size: u32 = r.u32()?;
    let name_start: usize = r.position();
    let name_end: usize = heaps::find_nul(bytes, name_start);
    let name_bytes = &bytes[name_start..name_end];
    let unterminated: bool = name_end == bytes.len();
    if strict && (unterminated || name_bytes.len() > 32) {
        return Err(Error::new(ErrorKind::Malformed, r.absolute(), CONTEXT));
    }
    // Names are NUL-terminated and padded to a 4-byte boundary: behind a name of
    // `n` bytes there are four NULs less the remainder of `n`.
    let nuls: usize = 4 - (name_end - name_start) % 4;
    assert(m.padded_end(at) == name_end + nuls);
    if nuls > bytes.len() - name_end {
        if strict {
            return Err(Error::new(ErrorKind::OutOfRange, r.absolute(), CONTEXT));
        }
        diagnostics.push(
            Diagnostic::new(
                DiagnosticCode::StreamNamePadding,
                r.absolute(),
                r.remaining() as u64,
            ),
        );
        r.pos = bytes.len();
    } else {
        r.pos = name_end + nuls;
    }
    let start: usize = offset as usize;
    let declared_end: usize = start.saturating_add(size as usize);
    let from: usize = if start < bytes.len() {
        start
    } else {
        bytes.len()
    };
    let to: usize = if declared_end < bytes.len() {
        declared_end
    } else {
        bytes.len()
    };
    let data = &bytes[from..to];
    if data.len() as u64 != size as u64 {
        if strict {
            return Err(Error::new(ErrorKind::Truncated, base.saturating_add(start), CONTEXT));
        }
        diagnostics.push(
            Diagnostic::new(
                DiagnosticCode::StreamRangeClamped,
                base.saturating_add(start),
                declared_end as u64,
            ),
        );
    }
    assert(diagnostics@ =~= old(diagnostics)@ + m.entry_notes(at));
    Ok(StreamHeader { name_bytes, offset, size, data })
}

/// Reads the stream directory.
fn read_directory<'a>(
    r: &mut Reader<'a>,
    stream_count: u16,
    strict: bool,
    diagnostics: &mut Vec<Diagnostic>,
    Ghost(m): Ghost<MetadataRegion>,
) -> (streams: Result<Vec<StreamHeader<'a>>>)
    requires
        old(r).wf(),
        old(r).data@ == m.bytes,
        old(r).base == m.base,
        old(r).context == CONTEXT,
        old(r).pos == m.tail() + 4,
        stream_count == m.stream_count(),
        strict == m.strict(),
        old(diagnostics)@ == m.directory_start().noted,
    ensures
        streams matches Ok(list) ==> {
            &&& m.directory().failed is None
            &&& stream_models(list@) == m.directory().streams
            &&& final(diagnostics)@ == m.directory().noted
        },
        streams matches Err(e) ==> m.directory().failed == Some(e),
{
    let mut streams: Vec<StreamHeader<'a>> = Vec::new();
    let mut i: u16 = 0;
    assert(stream_models(streams@) =~= m.listed(0).streams);
    while i < stream_count
        invariant
            i <= stream_count,
            stream_count == m.stream_count(),
            r.wf(),
            r.data@ == m.bytes,
            r.base == m.base,
            r.context == CONTEXT,
            strict == m.strict(),
            m.listed(i as nat).failed is None,
            !m.listed(i as nat).ended,
            stream_models(streams@) == m.listed(i as nat).streams,
            r.pos == m.listed(i as nat).pos,
            diagnostics@ == m.listed(i as nat).noted,
        decreases stream_count - i,
    {
        let ghost next = m.listed((i + 1) as nat);
        proof {
            if next.failed is Some || next.ended {
                lemma_rejection_stays(m, (i + 1) as nat, stream_count as nat);
            }
        }
        // A truncated directory ends the list rather than the parse; the
        // streams already found remain usable.
        if r.remaining() < 8 {
            if strict {
                return Err(Error::new(ErrorKind::Truncated, r.absolute(), CONTEXT));
            }
            return Ok(streams);
        }
        let stream = read_entry(r, strict, diagnostics, Ghost(m))?;
        streams.push(stream);
        assert(stream_models(streams@) =~= next.streams);
        i = i + 1;
    }
    Ok(streams)
}

/// True when the two byte strings are the same.
fn same_bytes(a: &[u8], b: &[u8]) -> (same: bool)
    ensures
        same == (a@ == b@),
{
    if a.len() != b.len() {
        return false;
    }
    let mut i: usize = 0;
    while i < a.len()
        invariant
            i <= a.len(),
            a.len() == b.len(),
            forall|j: int| 0 <= j < i ==> a@[j] == b@[j],
        decreases a.len() - i,
    {
        if a[i] != b[i] {
            return false;
        }
        i = i + 1;
    }
    assert(a@ =~= b@);
    true
}

/// The position of the first stream called `name`.
fn position_named<'a>(streams: &[StreamHeader<'a>], name: &str) -> (at: Option<usize>)
    ensures
        match at {
            Some(i) => i < streams.len() && first_named(stream_models(streams@), name@, 0) == Some(
                streams@[i as int]@,
            ),
            None => first_named(stream_models(streams@), name@, 0) is None,
        },
{
    let wanted = name.as_bytes();
    let mut i: usize = 0;
    while i < streams.len()
        invariant
            i <= streams.len(),
            wanted@ == utf8::encode_utf8(name@),
            first_named(stream_models(streams@), name@, i as int) == first_named(
                stream_models(streams@),
                name@,
                0,
            ),
        decreases streams.len() - i,
    {
        if same_bytes(streams[i].name_bytes, wanted) {
            return Some(i);
        }
        i = i + 1;
    }
    None
}

/// The position of the first table stream.
fn position_of_tables<'a>(streams: &[StreamHeader<'a>]) -> (at: Option<usize>)
    ensures
        match at {
            Some(i) => i < streams.len() && first_table_stream(stream_models(streams@), 0) == Some(
                streams@[i as int]@,
            ),
            None => first_table_stream(stream_models(streams@), 0) is None,
        },
{
    let compressed = "#~".as_bytes();
    let uncompressed = "#-".as_bytes();
    let mut i: usize = 0;
    while i < streams.len()
        invariant
            i <= streams.len(),
            compressed@ == utf8::encode_utf8("#~"@),
            uncompressed@ == utf8::encode_utf8("#-"@),
            first_table_stream(stream_models(streams@), i as int) == first_table_stream(
                stream_models(streams@),
                0,
            ),
        decreases streams.len() - i,
    {
        if same_bytes(streams[i].name_bytes, compressed) || same_bytes(
            streams[i].name_bytes,
            uncompressed,
        ) {
            return Some(i);
        }
        i = i + 1;
    }
    None
}

/// Tells whether an earlier stream has the name of stream `at`.
fn is_repeat<'a>(streams: &[StreamHeader<'a>], at: usize) -> (repeat: bool)
    requires
        at < streams.len(),
    ensures
        repeat == repeats(stream_models(streams@), at as int),
{
    let ghost models = stream_models(streams@);
    let mut i: usize = 0;
    while i < at
        invariant
            i <= at < streams.len(),
            models == stream_models(streams@),
            forall|j: int| 0 <= j < i ==> (#[trigger] models[j]).name != models[at as int].name,
        decreases at - i,
    {
        if same_bytes(streams[i].name_bytes, streams[at].name_bytes) {
            assert(models[i as int].name == models[at as int].name);
            return true;
        }
        i = i + 1;
    }
    false
}

/// A parsed metadata region: the root header, the stream directory, the four
/// heaps and the table stream.
#[derive(Clone, Debug)]
pub struct Metadata<'a> {
    bytes: &'a [u8],
    base: usize,
    strictness: Strictness,
    diagnostics: Vec<Diagnostic>,
    major_version: u16,
    minor_version: u16,
    flags: u16,
    version_bytes: &'a [u8],
    streams: Vec<StreamHeader<'a>>,
    strings: StringsHeap<'a>,
    user_strings: UserStringsHeap<'a>,
    blobs: BlobHeap<'a>,
    guids: GuidHeap<'a>,
    tables: Tables<'a>,
    has_pdb_stream: bool,
}

impl<'a> View for Metadata<'a> {
    type V = MetadataModel;

    closed spec fn view(&self) -> MetadataModel {
        MetadataModel {
            bytes: self.bytes@,
            base: self.base,
            strictness: self.strictness,
            diagnostics: self.diagnostics@,
            major_version: self.major_version,
            minor_version: self.minor_version,
            flags: self.flags,
            version: self.version_bytes@,
            streams: stream_models(self.streams@),
            strings: self.strings@,
            user_strings: self.user_strings@,
            blobs: self.blobs@,
            guids: self.guids@,
            tables: self.tables@,
            has_pdb_stream: self.has_pdb_stream,
        }
    }
}

/// True when `r` is what `m` describes.
pub open spec fn same_metadata<'a>(r: Result<Metadata<'a>>, m: Result<MetadataModel>) -> bool {
    match r {
        Ok(metadata) => m == Ok::<MetadataModel, Error>(metadata@),
        Err(e) => m == Err::<MetadataModel, Error>(e),
    }
}

impl<'a> Metadata<'a> {
    /// Parses a metadata region in [`Strictness::Permissive`] mode.
    ///
    /// `bytes` must start at the `BSJB` signature; use
    /// [`PeImage::metadata`](crate::pe::PeImage::metadata) to locate it inside
    /// a PE file.
    pub fn parse(bytes: &'a [u8]) -> (r: Result<Self>)
        ensures
            same_metadata(
                r,
                (MetadataRegion {
                    bytes: bytes@,
                    base: 0,
                    strictness: Strictness::Permissive,
                }).parsed(),
            ),
    {
        Self::parse_at(bytes, 0, Strictness::Permissive)
    }

    /// Parses a metadata region with an explicit strictness.
    pub fn parse_with(bytes: &'a [u8], strictness: Strictness) -> (r: Result<Self>)
        ensures
            same_metadata(
                r,
                (MetadataRegion { bytes: bytes@, base: 0, strictness }).parsed(),
            ),
    {
        Self::parse_at(bytes, 0, strictness)
    }

    /// Parses a metadata region that begins at absolute offset `base` in the
    /// original input, so that errors and diagnostics name file offsets.
    ///
    /// Offsets past the largest `usize` are held there.
    pub fn parse_at(bytes: &'a [u8], base: usize, strictness: Strictness) -> (r: Result<Self>)
        ensures
            same_metadata(r, (MetadataRegion { bytes: bytes@, base, strictness }).parsed()),
    {
        let ghost m = MetadataRegion { bytes: bytes@, base, strictness };
        let strict: bool = strictness.is_strict();
        let mut diagnostics: Vec<Diagnostic> = Vec::new();
        let mut r = Reader::new(bytes, base, CONTEXT);
        let root = read_root(&mut r, strict, &mut diagnostics, Ghost(m))?;
        let streams = read_directory(&mut r, root.stream_count, strict, &mut diagnostics, Ghost(m))?;
        note_repeats(&streams, base, strict, &mut diagnostics, Ghost(m))?;
        let ghost noted = diagnostics@;
        let tables = match position_of_tables(streams.as_slice()) {
            Some(i) => {
                let stream = streams[i];
                let uncompressed: bool = same_bytes(stream.name_bytes, "#-".as_bytes());
                let stream_base: usize = base.saturating_add(stream.offset as usize);
                Tables::parse(stream.data, stream_base, uncompressed, strictness, &mut diagnostics)?
            },
            None => {
                if strict {
                    return Err(Error::new(ErrorKind::Malformed, base, CONTEXT));
                }
                Tables::empty()
            },
        };
        assert(diagnostics@ =~= m.notes());
        let has_pdb_stream: bool = position_named(streams.as_slice(), "#Pdb").is_some();
        let (strings_data, strings_base): (&'a [u8], usize) = heap_range(
            streams.as_slice(),
            base,
            "#Strings",
            Ghost(m),
        );
        let (us_data, us_base): (&'a [u8], usize) = heap_range(
            streams.as_slice(),
            base,
            "#US",
            Ghost(m),
        );
        let (blob_data, blob_base): (&'a [u8], usize) = heap_range(
            streams.as_slice(),
            base,
            "#Blob",
            Ghost(m),
        );
        let (guid_data, guid_base): (&'a [u8], usize) = heap_range(
            streams.as_slice(),
            base,
            "#GUID",
            Ghost(m),
        );
        let metadata = Metadata {
            bytes,
            base,
            strictness,
            diagnostics,
            major_version: root.major_version,
            minor_version: root.minor_version,
            flags: root.flags,
            version_bytes: root.version_bytes,
            streams,
            strings: StringsHeap::new(strings_data, strings_base),
            user_strings: UserStringsHeap::new(us_data, us_base),
            blobs: BlobHeap::new(blob_data, blob_base),
            guids: GuidHeap::new(guid_data, guid_base),
            tables,
            has_pdb_stream,
        };
        assert(metadata@ =~= m.model(metadata@.tables));
        Ok(metadata)
    }

    /// The bytes of the metadata region.
    pub fn bytes(&self) -> (bytes: &'a [u8])
        ensures
            bytes@ == self@.bytes,
    {
        self.bytes
    }

    /// The absolute offset of the metadata region in the original input.
    pub fn base(&self) -> (base: usize)
        ensures
            base == self@.base,
    {
        self.base
    }

    /// The strictness this region was parsed with.
    pub fn strictness(&self) -> (strictness: Strictness)
        ensures
            strictness == self@.strictness,
    {
        self.strictness
    }

    /// Deviations tolerated while parsing.
    pub fn diagnostics(&self) -> (list: &[Diagnostic])
        ensures
            list@ == self@.diagnostics,
    {
        self.diagnostics.as_slice()
    }

    /// The metadata root major version, normally 1.
    pub fn major_version(&self) -> (version: u16)
        ensures
            version == self@.major_version,
    {
        self.major_version
    }

    /// The metadata root minor version, normally 1.
    pub fn minor_version(&self) -> (version: u16)
        ensures
            version == self@.minor_version,
    {
        self.minor_version
    }

    /// The metadata root flags field, reserved and normally 0.
    pub fn flags(&self) -> (flags: u16)
        ensures
            flags == self@.flags,
    {
        self.flags
    }

    /// The raw version string bytes, without padding.
    pub fn version_bytes(&self) -> (bytes: &'a [u8])
        ensures
            bytes@ == self@.version,
    {
        self.version_bytes
    }

    /// The version string, e.g. `v4.0.30319`, with invalid UTF-8 replaced.
    pub fn version_string(&self) -> (s: String)
        ensures
            s@ == text::lossy_text(self@.version),
    {
        text::utf8_lossy(self.version_bytes)
    }

    /// The stream directory, in declaration order, including unknown streams.
    pub fn streams(&self) -> (list: &[StreamHeader<'a>])
        ensures
            stream_models(list@) == self@.streams,
    {
        self.streams.as_slice()
    }

    /// One stream by name, or `None`.
    pub fn stream(&self, name: &str) -> (stream: Option<&StreamHeader<'a>>)
        ensures
            match stream {
                Some(s) => first_named(self@.streams, name@, 0) == Some(s@),
                None => first_named(self@.streams, name@, 0) is None,
            },
    {
        match position_named(self.streams.as_slice(), name) {
            Some(i) => Some(&self.streams[i]),
            None => None,
        }
    }

    /// The `#Strings` heap.
    pub fn strings(&self) -> (heap: &StringsHeap<'a>)
        ensures
            heap@ == self@.strings,
    {
        &self.strings
    }

    /// The `#US` heap.
    pub fn user_strings(&self) -> (heap: &UserStringsHeap<'a>)
        ensures
            heap@ == self@.user_strings,
    {
        &self.user_strings
    }

    /// The `#Blob` heap.
    pub fn blobs(&self) -> (heap: &BlobHeap<'a>)
        ensures
            heap@ == self@.blobs,
    {
        &self.blobs
    }

    /// The `#GUID` heap.
    pub fn guids(&self) -> (heap: &GuidHeap<'a>)
        ensures
            heap@ == self@.guids,
    {
        &self.guids
    }

    /// The `#~` or `#-` table stream.
    pub fn tables(&self) -> (tables: &Tables<'a>)
        ensures
            tables@ == self@.tables,
    {
        &self.tables
    }

    /// True when a `#Pdb` stream is present, i.e. this is a Portable PDB.
    pub fn has_pdb_stream(&self) -> (pdb: bool)
        ensures
            pdb == self@.has_pdb_stream,
    {
        self.has_pdb_stream
    }

    /// True when the table stream was `#-`, meaning an edit-and-continue or
    /// uncompressed image that may carry `*Ptr` indirection tables.
    pub fn is_uncompressed(&self) -> (uncompressed: bool)
        ensures
            uncompressed == self@.tables.uncompressed,
    {
        self.tables.is_uncompressed()
    }
}

/// The bytes of the first stream called `name` and where they start.
fn heap_range<'a>(
    streams: &[StreamHeader<'a>],
    base: usize,
    name: &str,
    Ghost(m): Ghost<MetadataRegion>,
) -> (range: (&'a [u8], usize))
    requires
        stream_models(streams@) == m.directory().streams,
        base == m.base,
    ensures
        m.heap(name@) == (HeapModel { data: range.0@, base: range.1 }),
{
    match position_named(streams, name) {
        Some(i) => (streams[i].data, base.saturating_add(streams[i].offset as usize)),
        None => {
            let none: &'a [u8] = &[];
            assert(none@ =~= Seq::empty());
            (none, 0)
        },
    }
}

/// Notes the streams whose name an earlier one has.
fn note_repeats<'a>(
    streams: &Vec<StreamHeader<'a>>,
    base: usize,
    strict: bool,
    diagnostics: &mut Vec<Diagnostic>,
    Ghost(m): Ghost<MetadataRegion>,
) -> (r: Result<()>)
    requires
        stream_models(streams@) == m.directory().streams,
        base == m.base,
        strict == m.strict(),
        old(diagnostics)@ == m.directory().noted,
    ensures
        r matches Ok(_) ==> {
            &&& m.strict() ==> m.first_repeat(0) is None
            &&& final(diagnostics)@ == m.directory().noted + m.repeat_notes(
                m.directory().streams.len(),
            )
        },
        r matches Err(e) ==> m.strict() && (m.first_repeat(0) matches Some(stream) && e
            == m.failure(ErrorKind::Malformed, stream.offset as int)),
{
    let mut i: usize = 0;
    assert(diagnostics@ =~= m.directory().noted + m.repeat_notes(0));
    while i < streams.len()
        invariant
            i <= streams.len(),
            stream_models(streams@) == m.directory().streams,
            base == m.base,
            strict == m.strict(),
            m.strict() ==> m.first_repeat(0) == m.first_repeat(i as int),
            diagnostics@ == m.directory().noted + m.repeat_notes(i as nat),
        decreases streams.len() - i,
    {
        if is_repeat(streams.as_slice(), i) {
            let at: usize = base.saturating_add(streams[i].offset as usize);
            if strict {
                return Err(Error::new(ErrorKind::Malformed, at, CONTEXT));
            }
            diagnostics.push(Diagnostic::new(DiagnosticCode::DuplicateStreamName, at, 0));
        }
        assert(diagnostics@ =~= m.directory().noted + m.repeat_notes((i + 1) as nat));
        i = i + 1;
    }
    Ok(())
}

impl MetadataRegion {
    /// The same region, parsed with another strictness.
    pub open spec fn with_strictness(self, strictness: Strictness) -> MetadataRegion {
        MetadataRegion { strictness, ..self }
    }

    /// The same region, starting at another offset of the input.
    pub open spec fn rebased(self, base: usize) -> MetadataRegion {
        MetadataRegion { base, ..self }
    }
}

proof fn lemma_strict_listed(m: MetadataRegion, n: nat)
    requires
        m.with_strictness(Strictness::Strict).root_error() is None,
        m.with_strictness(Strictness::Strict).listed(n).failed is None,
    ensures
        m.with_strictness(Strictness::Permissive).listed(n) == m.with_strictness(
            Strictness::Strict,
        ).listed(n),
    decreases n,
{
    if n > 0 {
        lemma_strict_listed(m, (n - 1) as nat);
    }
}

proof fn lemma_strict_repeat_notes(m: MetadataRegion, n: nat)
    requires
        m.with_strictness(Strictness::Permissive).directory() == m.with_strictness(
            Strictness::Strict,
        ).directory(),
    ensures
        m.with_strictness(Strictness::Permissive).repeat_notes(n) == m.with_strictness(
            Strictness::Strict,
        ).repeat_notes(n),
    decreases n,
{
    if n > 0 {
        lemma_strict_repeat_notes(m, (n - 1) as nat);
    }
}

proof fn lemma_strict_listing_notes(m: MetadataRegion, n: nat)
    requires
        m.strict(),
        m.root_error() is None,
        m.listed(n).failed is None,
    ensures
        m.listed(n).noted.len() == 0,
    decreases n,
{
    if n > 0 {
        lemma_strict_listing_notes(m, (n - 1) as nat);
    }
}

proof fn lemma_no_repeat_notes(m: MetadataRegion, n: nat)
    requires
        n <= m.directory().streams.len(),
        forall|i: int| 0 <= i < n ==> !#[trigger] repeats(m.directory().streams, i),
    ensures
        m.repeat_notes(n).len() == 0,
    decreases n,
{
    if n > 0 {
        lemma_no_repeat_notes(m, (n - 1) as nat);
    }
}

proof fn lemma_no_repeats(m: MetadataRegion, from: int)
    requires
        0 <= from,
        m.first_repeat(from) is None,
    ensures
        forall|i: int|
            from <= i < m.directory().streams.len() ==> !#[trigger] repeats(
                m.directory().streams,
                i,
            ),
    decreases m.directory().streams.len() - from,
{
    if from < m.directory().streams.len() {
        lemma_no_repeats(m, from + 1);
    }
}

/// A metadata region that parses with deviations rejected parses to the same
/// metadata where they are accepted. All that is noted of it is that tables that
/// are not declared sorted are not.
pub proof fn lemma_strict_metadata_parses_permissively(m: MetadataRegion)
    ensures
        m.with_strictness(Strictness::Strict).parsed() matches Ok(x) ==> m.with_strictness(
            Strictness::Permissive,
        ).parsed() == Ok::<MetadataModel, Error>(
            MetadataModel { strictness: Strictness::Permissive, ..x },
        ) && tables::only_order_noted(x.diagnostics, x.tables.declared_sorted),
{
    let strict = m.with_strictness(Strictness::Strict);
    let permissive = m.with_strictness(Strictness::Permissive);
    if strict.parsed() is Ok {
        assert(strict.stream_count() == permissive.stream_count());
        lemma_strict_listed(m, strict.stream_count());
        lemma_strict_repeat_notes(m, strict.directory().streams.len());
        let stream = strict.table_stream()->0;
        tables::lemma_strict_tables_parse_permissively(stream);
        assert(stream.with_strict(true) == stream);
        assert(permissive.table_stream() == Some(stream.with_strict(false)));
        lemma_strict_listing_notes(strict, strict.stream_count());
        lemma_no_repeats(strict, 0);
        lemma_no_repeat_notes(strict, strict.directory().streams.len());
        tables::lemma_strict_tables_note_order(stream);
        assert(strict.notes() =~= stream.noted());
    }
}

proof fn lemma_rebased_listed(m: MetadataRegion, base: usize, n: nat)
    ensures
        ({
            let a = m.listed(n);
            let b = m.rebased(base).listed(n);
            a.streams == b.streams && a.pos == b.pos && a.ended == b.ended && (a.failed is Some
                == b.failed is Some)
        }),
    decreases n,
{
    if n > 0 {
        lemma_rebased_listed(m, base, (n - 1) as nat);
    }
}

proof fn lemma_rebased_repeat(m: MetadataRegion, base: usize, from: int)
    requires
        m.directory().streams == m.rebased(base).directory().streams,
    ensures
        m.first_repeat(from) == m.rebased(base).first_repeat(from),
    decreases m.directory().streams.len() - from,
{
    if from < m.directory().streams.len() {
        lemma_rebased_repeat(m, base, from + 1);
    }
}

/// A bare metadata region holds what it holds inside an image: where it starts
/// in the input decides only the offsets that are reported.
pub proof fn lemma_metadata_independent_of_base(m: MetadataRegion, base: usize)
    ensures
        m.parsed() is Ok == m.rebased(base).parsed() is Ok,
        m.parsed() matches Ok(x) ==> (m.rebased(base).parsed() matches Ok(y) && {
            &&& x.bytes == y.bytes
            &&& x.major_version == y.major_version
            &&& x.minor_version == y.minor_version
            &&& x.flags == y.flags
            &&& x.version == y.version
            &&& x.streams == y.streams
            &&& x.strings.data == y.strings.data
            &&& x.user_strings.data == y.user_strings.data
            &&& x.blobs.data == y.blobs.data
            &&& x.guids.data == y.guids.data
            &&& y.tables == TablesModel { base: y.tables.base, ..x.tables }
            &&& x.has_pdb_stream == y.has_pdb_stream
        }),
{
    let other = m.rebased(base);
    assert(m.stream_count() == other.stream_count());
    lemma_rebased_listed(m, base, m.stream_count());
    lemma_rebased_repeat(m, base, 0);
    if let Some(stream) = m.table_stream() {
        let moved = other.table_stream()->0;
        tables::lemma_tables_independent_of_base(stream, moved.base);
        assert(moved == stream.rebased(moved.base));
    }
}

proof fn lemma_shifted_root(m: MetadataRegion, base: usize)
    requires
        m.base == 0,
    ensures
        m.rebased(base).root_error() == error::shifted_failure(m.root_error(), base),
        m.rebased(base).directory_start().noted == error::shifted(
            m.directory_start().noted,
            base,
        ),
{
    assert(m.rebased(base).version_field() == m.version_field());
    assert(m.rebased(base).directory_start().noted =~= error::shifted(
        m.directory_start().noted,
        base,
    ));
}

proof fn lemma_shifted_entry(m: MetadataRegion, base: usize, at: int)
    requires
        m.base == 0,
        0 <= at,
        at + 8 <= m.bytes.len(),
    ensures
        0 <= m.entry_end(at) <= m.bytes.len(),
        m.entry(at).data.len() <= m.bytes.len(),
        m.rebased(base).entry(at) == m.entry(at),
        m.rebased(base).entry_end(at) == m.entry_end(at),
        m.rebased(base).entry_error(at) == error::shifted_failure(m.entry_error(at), base),
        m.rebased(base).entry_notes(at) == error::shifted(m.entry_notes(at), base),
{
    let other = m.rebased(base);
    heaps::lemma_nul_bounds(m.bytes, at + 8);
    assert(other.name_end(at) == m.name_end(at));
    assert(other.padded_end(at) == m.padded_end(at));
    error::lemma_shifted_offset(base, at + 8);
    error::lemma_shifted_offset(base, m.entry(at).offset as int);
    assert(other.entry_notes(at) =~= error::shifted(m.entry_notes(at), base));
}

proof fn lemma_shifted_listed(m: MetadataRegion, base: usize, n: nat)
    requires
        m.base == 0,
        m.root_error() is None,
    ensures
        ({
            let a = m.listed(n);
            let b = m.rebased(base).listed(n);
            &&& 0 <= a.pos <= m.bytes.len()
            &&& a.streams == b.streams
            &&& a.pos == b.pos
            &&& a.ended == b.ended
            &&& b.noted == error::shifted(a.noted, base)
            &&& b.failed == error::shifted_failure(a.failed, base)
            &&& forall|i: int|
                0 <= i < a.streams.len() ==> (#[trigger] a.streams[i]).data.len() <= m.bytes.len()
        }),
    decreases n,
{
    lemma_shifted_root(m, base);
    if n > 0 {
        lemma_shifted_listed(m, base, (n - 1) as nat);
        let p = m.listed((n - 1) as nat);
        error::lemma_shifted_offset(base, p.pos);
        if p.pos + 8 <= m.bytes.len() {
            lemma_shifted_entry(m, base, p.pos);
            assert(error::shifted(p.noted, base) + error::shifted(m.entry_notes(p.pos), base)
                =~= error::shifted(p.noted + m.entry_notes(p.pos), base));
        }
    }
}

proof fn lemma_shifted_repeat_notes(m: MetadataRegion, base: usize, n: nat)
    requires
        m.base == 0,
        m.directory().streams == m.rebased(base).directory().streams,
    ensures
        m.rebased(base).repeat_notes(n) == error::shifted(m.repeat_notes(n), base),
    decreases n,
{
    if n > 0 {
        lemma_shifted_repeat_notes(m, base, (n - 1) as nat);
        error::lemma_shifted_offset(base, m.directory().streams[n - 1].offset as int);
    }
    assert(m.rebased(base).repeat_notes(n) =~= error::shifted(m.repeat_notes(n), base));
}

proof fn lemma_table_stream_listed(streams: Seq<StreamModel>, from: int)
    requires
        0 <= from,
    ensures
        first_table_stream(streams, from) matches Some(stream) ==> exists|i: int|
            0 <= i < streams.len() && #[trigger] streams[i] == stream,
    decreases streams.len() - from,
{
    if from < streams.len() {
        lemma_table_stream_listed(streams, from + 1);
        if streams[from].named("#~"@) || streams[from].named("#-"@) {
            assert(streams[from] == first_table_stream(streams, from)->0);
        }
    }
}

/// What the table stream of a region reports, where the region starts at `base`
/// rather than at 0.
proof fn lemma_shifted_tables(m: MetadataRegion, base: usize)
    requires
        m.base == 0,
        m.bytes.len() <= usize::MAX,
        m.root_error() is None,
    ensures
        m.tables() matches Err(e) ==> m.rebased(base).tables() == Err::<TablesModel, Error>(
            e.rebased(base),
        ),
        m.tables() matches Ok(t) ==> m.rebased(base).tables() == Ok::<TablesModel, Error>(
            if m.table_stream() is Some {
                TablesModel { base: error::saturating(t.base as int, base as int), ..t }
            } else {
                t
            },
        ),
        m.table_stream() is Some == m.rebased(base).table_stream() is Some,
        m.table_stream() matches Some(stream) ==> m.rebased(base).table_stream()->0.noted()
            == error::shifted(stream.noted(), base),
{
    let other = m.rebased(base);
    assert(m.stream_count() == other.stream_count());
    lemma_shifted_listed(m, base, m.stream_count());
    if let Some(stream) = m.table_stream() {
        let streams = m.directory().streams;
        lemma_table_stream_listed(streams, 0);
        let listed = first_table_stream(streams, 0)->0;
        assert(listed.data.len() <= m.bytes.len());
        let moved = other.table_stream()->0;
        let plain = stream.rebased(0);
        let at: usize = stream.base;
        assert(stream == plain.rebased(at));
        assert(moved == plain.rebased(moved.base));
        error::lemma_shifted_offset(base, listed.offset as int);
        assert(moved.base == error::saturating(at as int, base as int));
        tables::lemma_table_offsets_shift(plain, at);
        tables::lemma_table_offsets_shift(plain, moved.base);
        tables::lemma_tables_independent_of_base(plain, at);
        tables::lemma_tables_independent_of_base(plain, moved.base);
        error::lemma_shift_adds(plain.noted(), at, base);
        if let Err(e) = plain.parsed() {
            error::lemma_rebase_adds(e, at, base);
        }
    }
}

/// The base of the heap that is the stream called `name`, where the region
/// starts at `base` and the heap at `at` of it; an absent heap has none.
pub open spec fn shifted_base(streams: Seq<StreamModel>, name: Seq<char>, at: usize, base: usize) -> usize {
    if first_named(streams, name, 0) is Some {
        error::saturating(at as int, base as int)
    } else {
        0
    }
}

/// Where a metadata region starts in the input is what every reported offset
/// counts from: with `base` added to the offset, an error stays the same in kind
/// and context, and a note in code and detail, and the heaps and tables of the
/// streams that are there start `base` later. Offsets past the largest `usize`
/// are held there.
pub proof fn lemma_metadata_offsets_shift(m: MetadataRegion, base: usize)
    requires
        m.base == 0,
        m.bytes.len() <= usize::MAX,
    ensures
        m.parsed() matches Err(e) ==> m.rebased(base).parsed() == Err::<MetadataModel, Error>(
            e.rebased(base),
        ),
        m.parsed() matches Ok(x) ==> (m.rebased(base).parsed() matches Ok(y) && {
            &&& y.diagnostics == error::shifted(x.diagnostics, base)
            &&& y.strings.base == shifted_base(x.streams, "#Strings"@, x.strings.base, base)
            &&& y.user_strings.base == shifted_base(x.streams, "#US"@, x.user_strings.base, base)
            &&& y.blobs.base == shifted_base(x.streams, "#Blob"@, x.blobs.base, base)
            &&& y.guids.base == shifted_base(x.streams, "#GUID"@, x.guids.base, base)
            &&& first_table_stream(x.streams, 0) is Some ==> y.tables.base == error::saturating(
                x.tables.base as int,
                base as int,
            )
        }),
{
    let other = m.rebased(base);
    lemma_shifted_root(m, base);
    if m.root_error() is None {
        assert(m.stream_count() == other.stream_count());
        lemma_shifted_listed(m, base, m.stream_count());
        lemma_rebased_repeat(m, base, 0);
        lemma_shifted_tables(m, base);
        let streams = m.directory().streams;
        lemma_shifted_repeat_notes(m, base, streams.len());
        if let Some(stream) = m.first_repeat(0) {
            error::lemma_shifted_offset(base, stream.offset as int);
        }
        lemma_shifted_heap(m, base, "#Strings"@);
        lemma_shifted_heap(m, base, "#US"@);
        lemma_shifted_heap(m, base, "#Blob"@);
        lemma_shifted_heap(m, base, "#GUID"@);
        assert(other.notes() =~= error::shifted(m.notes(), base));
    }
}

proof fn lemma_shifted_heap(m: MetadataRegion, base: usize, name: Seq<char>)
    requires
        m.base == 0,
        m.directory().streams == m.rebased(base).directory().streams,
    ensures
        m.rebased(base).heap(name).base == shifted_base(
            m.directory().streams,
            name,
            m.heap(name).base,
            base,
        ),
{
    if let Some(stream) = first_named(m.directory().streams, name, 0) {
        error::lemma_shifted_offset(base, stream.offset as int);
    }
}

} // verus!
