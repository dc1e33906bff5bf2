//! The PE/COFF container that carries a managed image (II.25).
//!
//! Only as much of PE/COFF is read as a managed image needs: the MS-DOS stub,
//! the PE signature, the COFF header, the PE32 and PE32+ optional headers, the
//! data directories, the section table, RVA translation, and the CLI header
//! (II.25.3.3). Relocations, imports, exports, debug directories and native
//! code are not interpreted; where a directory names a range that is not
//! decoded, the range itself is exposed.
use vstd::prelude::*;
use vstd::utf8;

use crate::error;
use crate::error::{Diagnostic, DiagnosticCode, Error, ErrorKind, Result, Strictness};
use crate::heaps;
use crate::metadata;
use crate::metadata::{Metadata, MetadataModel, MetadataRegion};
use crate::reader;
use crate::reader::Reader;
use crate::text;
use crate::token::{TableId, Token};

pub mod encoding;

verus! {

/// The context of errors about the container.
pub const CONTEXT: &'static str = "PE image";

/// The context of errors about the CLI header.
pub const CLI_CONTEXT: &'static str = "CLI header";

/// The index of the CLI header in the PE data directory (II.25.3.3).
pub const CLI_HEADER_DIRECTORY: usize = 14;

/// A `(RVA, size)` pair from a PE data directory or a CLI header field.
#[derive(Clone, Copy, PartialEq, Eq, Hash, Debug, Structural)]
pub struct DataDirectory {
    /// Relative virtual address of the first byte, or 0 when absent.
    pub rva: u32,
    /// Size in bytes, or 0 when absent.
    pub size: u32,
}

impl DataDirectory {
    /// The directory that is not present.
    pub open spec fn none() -> DataDirectory {
        DataDirectory { rva: 0, size: 0 }
    }

    /// True when both fields are zero, meaning the directory is not present.
    pub fn is_empty(self) -> (empty: bool)
        ensures
            empty == (self == DataDirectory::none()),
    {
        self.rva == 0 && self.size == 0
    }
}

impl Default for DataDirectory {
    fn default() -> (directory: Self)
        ensures
            directory == DataDirectory::none(),
    {
        DataDirectory { rva: 0, size: 0 }
    }
}

/// One entry of the section table.
#[verifier::ext_equal]
pub struct SectionModel {
    /// The section name, NUL-padded.
    pub name: Seq<u8>,
    /// The size of the section once mapped.
    pub virtual_size: u32,
    /// The RVA of the mapped section.
    pub virtual_address: u32,
    /// The size of the section in the file.
    pub size_of_raw_data: u32,
    /// The file offset of the section.
    pub pointer_to_raw_data: u32,
    /// `Characteristics`.
    pub characteristics: u32,
}

impl SectionModel {
    /// The number of mapped bytes: `VirtualSize`, or `SizeOfRawData` where
    /// that is zero.
    pub open spec fn mapped(self) -> u32 {
        if self.virtual_size == 0 {
            self.size_of_raw_data
        } else {
            self.virtual_size
        }
    }

    /// True when `rva` falls inside the mapped range, which does not reach past
    /// the largest RVA.
    pub open spec fn contains(self, rva: u32) -> bool {
        self.virtual_address <= rva < self.virtual_address + self.mapped() && rva < u32::MAX
    }

    /// The file offset of `rva`.
    pub open spec fn file_offset(self, rva: u32) -> int {
        self.pointer_to_raw_data + (rva - self.virtual_address)
    }

    /// The number of bytes from `rva` to the end of the section in the file.
    pub open spec fn raw_left(self, rva: u32) -> int {
        self.size_of_raw_data - (rva - self.virtual_address)
    }
}

/// One entry of the PE section table.
#[derive(Clone, Copy, PartialEq, Eq, Hash, Debug)]
pub struct Section {
    /// The raw 8-byte section name, NUL-padded.
    pub name_bytes: [u8; 8],
    /// `VirtualSize`: the size of the section once mapped.
    pub virtual_size: u32,
    /// `VirtualAddress`: the RVA of the mapped section.
    pub virtual_address: u32,
    /// `SizeOfRawData`: the size of the section in the file.
    pub size_of_raw_data: u32,
    /// `PointerToRawData`: the file offset of the section.
    pub pointer_to_raw_data: u32,
    /// `Characteristics`.
    pub characteristics: u32,
}

impl View for Section {
    type V = SectionModel;

    open spec fn view(&self) -> SectionModel {
        SectionModel {
            name: self.name_bytes@,
            virtual_size: self.virtual_size,
            virtual_address: self.virtual_address,
            size_of_raw_data: self.size_of_raw_data,
            pointer_to_raw_data: self.pointer_to_raw_data,
            characteristics: self.characteristics,
        }
    }
}

/// The entries of `sections`.
pub open spec fn section_models(sections: Seq<Section>) -> Seq<SectionModel> {
    Seq::new(sections.len(), |i: int| sections[i]@)
}

impl Section {
    /// The section name as UTF-8 with trailing NULs removed, or `None` when it
    /// is not valid UTF-8.
    pub fn name(&self) -> (name: Option<&str>)
        ensures
            ({
                let bytes = self@.name.take(heaps::nul_from(self@.name, 0));
                &&& name is Some == utf8::valid_utf8(bytes)
                &&& name matches Some(s) ==> s@ == utf8::decode_utf8(bytes)
            }),
    {
        let bytes: &[u8] = self.name_bytes.as_slice();
        let end: usize = heaps::find_nul(bytes, 0);
        match text::utf8_str(&bytes[0..end]) {
            Ok(s) => Some(s),
            Err(_) => None,
        }
    }

    /// The number of mapped bytes, which is `VirtualSize` when it is non-zero
    /// and `SizeOfRawData` otherwise (some linkers leave `VirtualSize` at 0).
    pub fn mapped_size(&self) -> (size: u32)
        ensures
            size == self@.mapped(),
    {
        if self.virtual_size == 0 {
            self.size_of_raw_data
        } else {
            self.virtual_size
        }
    }

    /// True when `rva` falls inside the mapped range of this section.
    pub fn contains_rva(&self, rva: u32) -> (contained: bool)
        ensures
            contained == self@.contains(rva),
    {
        let end: u32 = self.virtual_address.saturating_add(self.mapped_size());
        rva >= self.virtual_address && rva < end
    }
}

/// Flags from the CLI header `Flags` field (II.25.3.3.1).
#[derive(Clone, Copy, PartialEq, Eq, Hash, Debug, Structural)]
pub struct CliFlags(pub u32);

impl CliFlags {
    /// True when the bit of weight `weight` is set.
    pub open spec fn has(self, weight: int) -> bool {
        self.0 as int / weight % 2 == 1
    }

    /// `COMIMAGE_FLAGS_ILONLY`: the image contains no native code.
    pub fn il_only(self) -> (set: bool)
        ensures
            set == self.has(0x1),
    {
        self.0 / 0x1 % 2 == 1
    }

    /// `COMIMAGE_FLAGS_32BITREQUIRED`: the image must run as 32-bit.
    pub fn requires_32bit(self) -> (set: bool)
        ensures
            set == self.has(0x2),
    {
        self.0 / 0x2 % 2 == 1
    }

    /// `COMIMAGE_FLAGS_IL_LIBRARY`.
    pub fn il_library(self) -> (set: bool)
        ensures
            set == self.has(0x4),
    {
        self.0 / 0x4 % 2 == 1
    }

    /// `COMIMAGE_FLAGS_STRONGNAMESIGNED`.
    pub fn strong_name_signed(self) -> (set: bool)
        ensures
            set == self.has(0x8),
    {
        self.0 / 0x8 % 2 == 1
    }

    /// `COMIMAGE_FLAGS_NATIVE_ENTRYPOINT`: `EntryPointToken` holds an RVA.
    pub fn native_entry_point(self) -> (set: bool)
        ensures
            set == self.has(0x10),
    {
        self.0 / 0x10 % 2 == 1
    }

    /// `COMIMAGE_FLAGS_TRACKDEBUGDATA`.
    pub fn track_debug_data(self) -> (set: bool)
        ensures
            set == self.has(0x10000),
    {
        self.0 / 0x10000 % 2 == 1
    }

    /// `COMIMAGE_FLAGS_32BITPREFERRED`.
    pub fn prefers_32bit(self) -> (set: bool)
        ensures
            set == self.has(0x20000),
    {
        self.0 / 0x20000 % 2 == 1
    }

    /// The raw flags value.
    pub fn bits(self) -> (bits: u32)
        ensures
            bits == self.0,
    {
        self.0
    }
}

impl Default for CliFlags {
    fn default() -> (flags: Self)
        ensures
            flags == CliFlags(0),
    {
        CliFlags(0)
    }
}

/// The managed entry point declared by the CLI header.
#[derive(Clone, Copy, PartialEq, Eq, Hash, Debug, Structural)]
pub enum EntryPoint {
    /// No entry point.
    Absent,
    /// A `MethodDef` or `File` token.
    Token(Token),
    /// An RVA, when `COMIMAGE_FLAGS_NATIVE_ENTRYPOINT` is set.
    Rva(u32),
}

impl Default for EntryPoint {
    fn default() -> (entry: Self)
        ensures
            entry == EntryPoint::Absent,
    {
        EntryPoint::Absent
    }
}

/// The CLI header, `IMAGE_COR20_HEADER` (II.25.3.3).
#[derive(Clone, Copy, PartialEq, Eq, Hash, Debug, Structural)]
pub struct CliHeader {
    /// `cb`: the declared size of this header, normally 72.
    pub size: u32,
    /// `MajorRuntimeVersion`.
    pub major_runtime_version: u16,
    /// `MinorRuntimeVersion`.
    pub minor_runtime_version: u16,
    /// The metadata root directory.
    pub metadata: DataDirectory,
    /// `Flags`.
    pub flags: CliFlags,
    /// The managed entry point.
    pub entry_point: EntryPoint,
    /// The managed resources directory; it is not decoded.
    pub resources: DataDirectory,
    /// The strong-name signature blob; it is not verified.
    pub strong_name_signature: DataDirectory,
    /// `CodeManagerTable`, reserved and always zero in practice.
    pub code_manager_table: DataDirectory,
    /// The vtable fixup table; it is not decoded.
    pub vtable_fixups: DataDirectory,
    /// `ExportAddressTableJumps`.
    pub export_address_table_jumps: DataDirectory,
    /// `ManagedNativeHeader`, where a ReadyToRun header lives; range only.
    pub managed_native_header: DataDirectory,
}

/// The `(RVA, size)` pair at `at`.
pub open spec fn directory_at(bytes: Seq<u8>, at: int) -> DataDirectory {
    DataDirectory { rva: reader::le32(bytes, at), size: reader::le32(bytes, at + 4) }
}

/// The offset of the first field of a CLI header that `len` bytes cut off, if
/// they do.
pub open spec fn cli_field_cut(len: int) -> Option<int> {
    if len < 4 {
        Some(0)
    } else if len < 6 {
        Some(4)
    } else if len < 8 {
        Some(6)
    } else if len < 72 {
        Some(len / 4 * 4)
    } else {
        None
    }
}

/// The entry point that the raw value `raw` is.
pub open spec fn entry_point_of(raw: u32, flags: CliFlags) -> EntryPoint {
    if raw == 0 {
        EntryPoint::Absent
    } else if flags.has(0x10) {
        EntryPoint::Rva(raw)
    } else {
        EntryPoint::Token(Token(raw))
    }
}

/// The CLI header that `bytes` are.
pub open spec fn cli_header_in(bytes: Seq<u8>) -> CliHeader {
    let flags = CliFlags(reader::le32(bytes, 16));
    CliHeader {
        size: reader::le32(bytes, 0),
        major_runtime_version: reader::le16(bytes, 4),
        minor_runtime_version: reader::le16(bytes, 6),
        metadata: directory_at(bytes, 8),
        flags,
        entry_point: entry_point_of(reader::le32(bytes, 20), flags),
        resources: directory_at(bytes, 24),
        strong_name_signature: directory_at(bytes, 32),
        code_manager_table: directory_at(bytes, 40),
        vtable_fixups: directory_at(bytes, 48),
        export_address_table_jumps: directory_at(bytes, 56),
        managed_native_header: directory_at(bytes, 64),
    }
}

/// What a PE image holds.
#[verifier::ext_equal]
pub struct PeModel {
    /// The file.
    pub bytes: Seq<u8>,
    /// The strictness of the parse.
    pub strictness: Strictness,
    /// The deviations accepted.
    pub diagnostics: Seq<Diagnostic>,
    /// The COFF `Machine` field.
    pub machine: u16,
    /// The COFF `Characteristics` field.
    pub characteristics: u16,
    /// The optional header is `PE32+`.
    pub is_pe32_plus: bool,
    /// `ImageBase`.
    pub image_base: u64,
    /// `SectionAlignment`.
    pub section_alignment: u32,
    /// `FileAlignment`.
    pub file_alignment: u32,
    /// `SizeOfImage`.
    pub size_of_image: u32,
    /// `SizeOfHeaders`.
    pub size_of_headers: u32,
    /// `Subsystem`.
    pub subsystem: u16,
    /// `DllCharacteristics`.
    pub dll_characteristics: u16,
    /// `AddressOfEntryPoint`.
    pub entry_point_rva: u32,
    /// The data directories.
    pub data_directories: Seq<DataDirectory>,
    /// The section table.
    pub sections: Seq<SectionModel>,
}

/// The first of `sections` from number `from` on that contains `rva`.
pub open spec fn section_of(sections: Seq<SectionModel>, rva: u32, from: int) -> Option<SectionModel>
    decreases sections.len() - from,
{
    if from >= sections.len() {
        None
    } else if sections[from].contains(rva) {
        Some(sections[from])
    } else {
        section_of(sections, rva, from + 1)
    }
}

/// A section found for an RVA contains it.
proof fn lemma_section_contains(sections: Seq<SectionModel>, rva: u32, from: int)
    ensures
        section_of(sections, rva, from) matches Some(s) ==> s.contains(rva),
    decreases sections.len() - from,
{
    if from < sections.len() && !sections[from].contains(rva) {
        lemma_section_contains(sections, rva, from + 1);
    }
}

/// The error for an RVA that is not mapped.
pub open spec fn unmapped(context: &'static str) -> Error {
    Error { kind: ErrorKind::OutOfRange, offset: None, context }
}

impl PeModel {
    /// The file offset of `rva`. What lies in a section must be backed by file
    /// bytes; the headers are mapped at RVA 0.
    pub open spec fn offset_of(self, rva: u32) -> Option<usize> {
        match section_of(self.sections, rva, 0) {
            Some(s) => if s.raw_left(rva) > 0 && s.file_offset(rva) <= self.bytes.len() {
                Some(s.file_offset(rva) as usize)
            } else {
                None
            },
            None => if rva < self.size_of_headers && rva < self.bytes.len() {
                Some(rva as usize)
            } else {
                None
            },
        }
    }

    /// The number of file bytes from `rva` to the end of its section, or of the
    /// headers.
    pub open spec fn available(self, rva: u32) -> Option<usize> {
        let len = self.bytes.len() as int;
        match section_of(self.sections, rva, 0) {
            Some(s) => if s.raw_left(rva) > 0 && s.file_offset(rva) <= len {
                Some(metadata::lesser(s.raw_left(rva), len - s.file_offset(rva)) as usize)
            } else {
                None
            },
            None => if rva < self.size_of_headers && rva <= len {
                Some((metadata::lesser(self.size_of_headers as int, len) - rva) as usize)
            } else {
                None
            },
        }
    }

    /// The `n` bytes from `rva` on.
    pub open spec fn slice(self, rva: u32, n: int) -> Result<Seq<u8>> {
        match self.offset_of(rva) {
            None => Err(unmapped("RVA")),
            Some(offset) => if n <= self.available(rva)->0 {
                Ok(self.bytes.subrange(offset as int, offset + n))
            } else {
                Err(Error::at(ErrorKind::OutOfRange, offset, "RVA"))
            },
        }
    }

    /// Every byte from `rva` to the end of its section.
    pub open spec fn rest(self, rva: u32) -> Result<Seq<u8>> {
        match self.available(rva) {
            None => Err(unmapped("RVA")),
            Some(n) => self.slice(rva, n as int),
        }
    }

    /// One data directory, empty when absent.
    pub open spec fn directory(self, index: int) -> DataDirectory {
        if index < self.data_directories.len() {
            self.data_directories[index]
        } else {
            DataDirectory::none()
        }
    }

    /// The directory of the CLI header.
    pub open spec fn cli_directory(self) -> DataDirectory {
        self.directory(CLI_HEADER_DIRECTORY as int)
    }

    /// Where the CLI header is in the file.
    pub open spec fn cli_base(self) -> usize {
        match self.offset_of(self.cli_directory().rva) {
            Some(offset) => offset,
            None => 0,
        }
    }

    /// The CLI header.
    pub open spec fn cli(self) -> Result<CliHeader> {
        let dir = self.cli_directory();
        let n = match self.available(dir.rva) {
            Some(n) => metadata::lesser(72, n as int),
            None => 0,
        };
        if dir == DataDirectory::none() {
            Err(Error { kind: ErrorKind::Malformed, offset: None, context: CLI_CONTEXT })
        } else {
            match self.slice(dir.rva, n) {
                Err(e) => Err(e),
                Ok(bytes) => match cli_field_cut(n) {
                    Some(at) => Err(
                        Error::at(
                            ErrorKind::Truncated,
                            error::saturating(self.cli_base() as int, at),
                            CLI_CONTEXT,
                        ),
                    ),
                    None => if cli_header_in(bytes).size != 72 && self.strictness is Strict {
                        Err(Error::at(ErrorKind::Malformed, self.cli_base(), CLI_CONTEXT))
                    } else {
                        Ok(cli_header_in(bytes))
                    },
                },
            }
        }
    }

    /// What is noted about the CLI header.
    pub open spec fn cli_notes(self) -> Seq<Diagnostic> {
        match self.cli() {
            Err(_) => Seq::empty(),
            Ok(header) => (if header.size != 72 {
                seq![
                    Diagnostic::at(
                        DiagnosticCode::CliHeaderSize,
                        self.cli_base(),
                        header.size as u64,
                    ),
                ]
            } else {
                Seq::empty()
            }) + (if header.flags.has(0x2_0000) && !header.flags.has(2) {
                seq![
                    Diagnostic::at(
                        DiagnosticCode::BitnessFlagsInconsistent,
                        self.cli_base(),
                        header.flags.0 as u64,
                    ),
                ]
            } else {
                Seq::empty()
            }),
        }
    }

    /// The metadata region that the CLI header names.
    pub open spec fn region(self) -> Result<MetadataRegion> {
        match self.cli() {
            Err(e) => Err(e),
            Ok(header) => if header.metadata == DataDirectory::none() {
                Err(
                    Error {
                        kind: ErrorKind::Malformed,
                        offset: None,
                        context: "metadata directory",
                    },
                )
            } else {
                match self.available(header.metadata.rva) {
                    None => Err(unmapped("metadata directory")),
                    Some(n) => match self.slice(
                        header.metadata.rva,
                        metadata::lesser(header.metadata.size as int, n as int),
                    ) {
                        Err(e) => Err(e),
                        Ok(bytes) => Ok(
                            MetadataRegion {
                                bytes,
                                base: self.offset_of(header.metadata.rva)->0,
                                strictness: self.strictness,
                            },
                        ),
                    },
                }
            },
        }
    }

    /// The metadata that the CLI header names.
    pub open spec fn metadata(self) -> Result<MetadataModel> {
        match self.region() {
            Ok(region) => region.parsed(),
            Err(e) => Err(e),
        }
    }
}

/// A slice of an image is a part of the file, as long as asked for, and lies
/// within the section that the RVA is in.
pub proof fn lemma_slice_within_file(m: PeModel, rva: u32, n: int)
    requires
        0 <= n,
        m.bytes.len() <= usize::MAX,
    ensures
        m.slice(rva, n) matches Ok(s) ==> {
            &&& s.len() == n
            &&& m.offset_of(rva) matches Some(offset) && offset + n <= m.bytes.len() && s
                == m.bytes.subrange(offset as int, offset + n)
            &&& section_of(m.sections, rva, 0) matches Some(section) ==> n <= section.raw_left(rva)
        },
{
    lemma_section_contains(m.sections, rva, 0);
}

/// The bytes from an RVA on can be had exactly when some are available there,
/// and then all of those are. Past the last header byte of a file that ends
/// within its headers there are none to be had.
pub proof fn lemma_rest_is_available(m: PeModel, rva: u32)
    requires
        m.bytes.len() <= usize::MAX,
    ensures
        m.offset_of(rva) is Some ==> m.available(rva) is Some,
        m.rest(rva) matches Ok(s) ==> m.available(rva) == Some(s.len() as usize),
        m.rest(rva) is Ok <==> m.offset_of(rva) is Some,
{
    lemma_section_contains(m.sections, rva, 0);
}

/// The section headers read so far, and what was noticed on the way.
#[verifier::ext_equal]
pub struct SectionState {
    /// The sections.
    pub sections: Seq<SectionModel>,
    /// The deviations accepted.
    pub noted: Seq<Diagnostic>,
    /// The error that ended the parse, if one did.
    pub failed: Option<Error>,
}

/// A PE image to be parsed.
#[verifier::ext_equal]
pub struct PeFile {
    /// The file.
    pub bytes: Seq<u8>,
    /// The strictness of the parse.
    pub strictness: Strictness,
}

impl PeFile {
    /// Deviations are rejected.
    pub open spec fn strict(self) -> bool {
        self.strictness is Strict
    }

    /// An error at file offset `at`.
    pub open spec fn failure(self, kind: ErrorKind, at: int) -> Option<Error> {
        Some(Error::at(kind, at as usize, CONTEXT))
    }

    /// Where the PE signature is.
    pub open spec fn pe_offset(self) -> int {
        reader::le32(self.bytes, 0x3C) as int
    }

    /// Where the optional header starts.
    pub open spec fn optional(self) -> int {
        self.pe_offset() + 24
    }

    /// The optional header is `PE32+`.
    pub open spec fn plus(self) -> bool {
        reader::le16(self.bytes, self.optional()) == 0x020B
    }

    /// Why the MS-DOS stub or the PE signature is rejected, if it is.
    pub open spec fn stub_error(self) -> Option<Error> {
        let len = self.bytes.len();
        let p = self.pe_offset();
        if len < 2 {
            self.failure(ErrorKind::Truncated, 0)
        } else if reader::le16(self.bytes, 0) != 0x5A4D {
            self.failure(ErrorKind::Malformed, 0)
        } else if len < 0x3C {
            self.failure(ErrorKind::OutOfRange, 2)
        } else if len < 0x40 {
            self.failure(ErrorKind::Truncated, 0x3C)
        } else if len < p {
            self.failure(ErrorKind::OutOfRange, 0x40)
        } else if len < p + 4 {
            self.failure(ErrorKind::Truncated, p)
        } else if reader::le32(self.bytes, p) != 0x4550 {
            self.failure(ErrorKind::Malformed, p)
        } else {
            None
        }
    }

    /// Why the COFF header or the magic behind it is rejected, if it is.
    pub open spec fn coff_error(self) -> Option<Error> {
        let len = self.bytes.len();
        let p = self.pe_offset();
        let magic = reader::le16(self.bytes, self.optional());
        if len < p + 6 {
            self.failure(ErrorKind::Truncated, p + 4)
        } else if len < p + 8 {
            self.failure(ErrorKind::Truncated, p + 6)
        } else if len < p + 12 {
            self.failure(ErrorKind::Truncated, p + 8)
        } else if len < p + 16 {
            self.failure(ErrorKind::Truncated, p + 12)
        } else if len < p + 20 {
            self.failure(ErrorKind::Truncated, p + 16)
        } else if len < p + 22 {
            self.failure(ErrorKind::Truncated, p + 20)
        } else if len < p + 24 {
            self.failure(ErrorKind::Truncated, p + 22)
        } else if len < p + 26 {
            self.failure(ErrorKind::Truncated, p + 24)
        } else if magic != 0x010B && magic != 0x020B {
            self.failure(ErrorKind::Unsupported, p + 24)
        } else {
            None
        }
    }

    /// Where the number of data directories is.
    pub open spec fn directory_count_at(self) -> int {
        if self.plus() {
            self.optional() + 108
        } else {
            self.optional() + 92
        }
    }

    /// Why the optional header is rejected, if it is.
    pub open spec fn optional_error(self) -> Option<Error> {
        let len = self.bytes.len();
        let o = self.optional();
        let image_base_at = if self.plus() {
            o + 24
        } else {
            o + 28
        };
        if len < o + 16 {
            self.failure(ErrorKind::OutOfRange, o + 2)
        } else if len < o + 20 {
            self.failure(ErrorKind::Truncated, o + 16)
        } else if len < image_base_at {
            self.failure(ErrorKind::OutOfRange, o + 20)
        } else if len < o + 32 {
            self.failure(ErrorKind::Truncated, image_base_at)
        } else if len < o + 36 {
            self.failure(ErrorKind::Truncated, o + 32)
        } else if len < o + 40 {
            self.failure(ErrorKind::Truncated, o + 36)
        } else if len < o + 56 {
            self.failure(ErrorKind::OutOfRange, o + 40)
        } else if len < o + 60 {
            self.failure(ErrorKind::Truncated, o + 56)
        } else if len < o + 64 {
            self.failure(ErrorKind::Truncated, o + 60)
        } else if len < o + 68 {
            self.failure(ErrorKind::OutOfRange, o + 64)
        } else if len < o + 70 {
            self.failure(ErrorKind::Truncated, o + 68)
        } else if len < o + 72 {
            self.failure(ErrorKind::Truncated, o + 70)
        } else if len < self.directory_count_at() {
            self.failure(ErrorKind::OutOfRange, o + 72)
        } else if len < self.directory_count_at() + 4 {
            self.failure(ErrorKind::Truncated, self.directory_count_at())
        } else {
            None
        }
    }

    /// How many data directories are read: as many as declared, but no more
    /// than 16 and no more than fit in the file.
    pub open spec fn directory_count(self) -> int {
        metadata::lesser(
            metadata::lesser(reader::le32(self.bytes, self.directory_count_at()) as int, 16),
            (self.bytes.len() - (self.directory_count_at() + 4)) / 8,
        )
    }

    /// The data directories.
    pub open spec fn directories(self) -> Seq<DataDirectory> {
        Seq::new(
            self.directory_count() as nat,
            |i: int| directory_at(self.bytes, self.directory_count_at() + 4 + 8 * i),
        )
    }

    /// Where the section table starts: behind the optional header, whose
    /// declared size is authoritative.
    pub open spec fn sections_at(self) -> int {
        self.optional() + reader::le16(self.bytes, self.pe_offset() + 20)
    }

    /// The declared number of sections.
    pub open spec fn declared_sections(self) -> int {
        reader::le16(self.bytes, self.pe_offset() + 6) as int
    }

    /// How many sections are read: as many as declared, but no more than fit in
    /// the file.
    pub open spec fn section_count(self) -> int {
        metadata::lesser(
            self.declared_sections(),
            (self.bytes.len() - self.sections_at()) / 40,
        )
    }

    /// Why the place of the section table is rejected, if it is.
    pub open spec fn sections_error(self) -> Option<Error> {
        if self.sections_at() > usize::MAX {
            self.failure(ErrorKind::Malformed, self.optional())
        } else if self.sections_at() > self.bytes.len() {
            self.failure(
                ErrorKind::OutOfRange,
                self.directory_count_at() + 4 + 8 * self.directory_count(),
            )
        } else if self.strict() && self.section_count() != self.declared_sections() {
            self.failure(ErrorKind::Truncated, self.sections_at())
        } else {
            None
        }
    }

    /// Why the headers are rejected, if they are.
    pub open spec fn header_error(self) -> Option<Error> {
        match self.stub_error() {
            Some(e) => Some(e),
            None => match self.coff_error() {
                Some(e) => Some(e),
                None => match self.optional_error() {
                    Some(e) => Some(e),
                    None => self.sections_error(),
                },
            },
        }
    }

    /// Where the section header number `i` is.
    pub open spec fn section_at(self, i: int) -> int {
        self.sections_at() + 40 * i
    }

    /// Where the raw data of section number `i` ends.
    pub open spec fn raw_end(self, i: int) -> int {
        let at = self.section_at(i);
        reader::le32(self.bytes, at + 20) + reader::le32(self.bytes, at + 16)
    }

    /// The section number `i`; its raw data is clamped to the file.
    pub open spec fn section(self, i: int) -> SectionModel {
        let at = self.section_at(i);
        let pointer = reader::le32(self.bytes, at + 20);
        let left = self.bytes.len() - pointer;
        SectionModel {
            name: self.bytes.subrange(at, at + 8),
            virtual_size: reader::le32(self.bytes, at + 8),
            virtual_address: reader::le32(self.bytes, at + 12),
            size_of_raw_data: if self.raw_end(i) <= self.bytes.len() {
                reader::le32(self.bytes, at + 16)
            } else if left < 0 {
                0
            } else {
                metadata::lesser(left, u32::MAX as int) as u32
            },
            pointer_to_raw_data: pointer,
            characteristics: reader::le32(self.bytes, at + 36),
        }
    }

    /// The sections after the one number `i` was read.
    pub open spec fn section_step(self, s: SectionState, i: int) -> SectionState {
        if s.failed is Some {
            s
        } else if self.raw_end(i) <= self.bytes.len() {
            SectionState { sections: s.sections.push(self.section(i)), ..s }
        } else if self.strict() {
            SectionState { failed: self.failure(ErrorKind::Truncated, self.section_at(i)), ..s }
        } else {
            SectionState {
                sections: s.sections.push(self.section(i)),
                noted: s.noted.push(
                    Diagnostic::at(
                        DiagnosticCode::SectionRangeClamped,
                        self.section_at(i) as usize,
                        self.raw_end(i) as u64,
                    ),
                ),
                ..s
            }
        }
    }

    /// The sections after the first `n` were read.
    pub open spec fn sectioned(self, n: nat) -> SectionState
        decreases n,
    {
        if n == 0 {
            SectionState { sections: Seq::empty(), noted: Seq::empty(), failed: None }
        } else {
            self.section_step(self.sectioned((n - 1) as nat), n - 1)
        }
    }

    /// The section table.
    pub open spec fn all_sectioned(self) -> SectionState {
        self.sectioned(self.section_count() as nat)
    }

    /// `ImageBase`, which is wider in `PE32+`.
    pub open spec fn image_base(self) -> u64 {
        if self.plus() {
            reader::le64(self.bytes, self.optional() + 24)
        } else {
            reader::le32(self.bytes, self.optional() + 28) as u64
        }
    }

    /// The image with the fields of its headers.
    pub open spec fn model(self) -> PeModel {
        let o = self.optional();
        PeModel {
            bytes: self.bytes,
            strictness: self.strictness,
            diagnostics: self.all_sectioned().noted,
            machine: reader::le16(self.bytes, self.pe_offset() + 4),
            characteristics: reader::le16(self.bytes, self.pe_offset() + 22),
            is_pe32_plus: self.plus(),
            image_base: self.image_base(),
            section_alignment: reader::le32(self.bytes, o + 32),
            file_alignment: reader::le32(self.bytes, o + 36),
            size_of_image: reader::le32(self.bytes, o + 56),
            size_of_headers: reader::le32(self.bytes, o + 60),
            subsystem: reader::le16(self.bytes, o + 68),
            dll_characteristics: reader::le16(self.bytes, o + 70),
            entry_point_rva: reader::le32(self.bytes, o + 16),
            data_directories: self.directories(),
            sections: self.all_sectioned().sections,
        }
    }

    /// What parsing the image gives.
    pub open spec fn parsed(self) -> Result<PeModel> {
        match self.header_error() {
            Some(e) => Err(e),
            None => match self.all_sectioned().failed {
                Some(e) => Err(e),
                None => Ok(self.model()),
            },
        }
    }
}

/// A section table that was rejected stays so.
proof fn lemma_sections_rejected(f: PeFile, n: nat, k: nat)
    requires
        n <= k,
        f.sectioned(n).failed is Some,
    ensures
        f.sectioned(k) == f.sectioned(n),
    decreases k,
{
    if n < k {
        lemma_sections_rejected(f, n, (k - 1) as nat);
    }
}

/// The fields of the COFF header that are kept.
#[derive(Clone, Copy)]
struct Coff {
    machine: u16,
    number_of_sections: u16,
    size_of_optional_header: u16,
    characteristics: u16,
    is_pe32_plus: bool,
}

/// The fields of the optional header that are kept.
#[derive(Clone, Copy)]
struct Optional {
    entry_point_rva: u32,
    image_base: u64,
    section_alignment: u32,
    file_alignment: u32,
    size_of_image: u32,
    size_of_headers: u32,
    subsystem: u16,
    dll_characteristics: u16,
    directory_count: u32,
}

/// Reads the MS-DOS stub and the PE signature.
fn read_stub(r: &mut Reader, Ghost(f): Ghost<PeFile>) -> (e: Result<()>)
    requires
        old(r).data@ == f.bytes,
        old(r).base == 0,
        old(r).context == CONTEXT,
        old(r).pos == 0,
    ensures
        e matches Ok(_) ==> f.stub_error() is None && *final(r) == old(r).moved_to(
            f.pe_offset() + 4,
        ) && final(r).wf(),
        e matches Err(e) ==> f.stub_error() == Some(e),
{
    if r.u16()? != 0x5A4D {
        return Err(Error::new(ErrorKind::Malformed, 0, CONTEXT));
    }
    r.seek(0x3C)?;
    let pe_offset: u32 = r.u32()?;
    r.seek(pe_offset as usize)?;
    if r.u32()? != 0x4550 {
        return Err(Error::new(ErrorKind::Malformed, pe_offset as usize, CONTEXT));
    }
    Ok(())
}

/// Reads the COFF header and the magic of the optional header.
#[verifier::rlimit(50)]
fn read_coff(r: &mut Reader, Ghost(f): Ghost<PeFile>) -> (coff: Result<Coff>)
    requires
        old(r).wf(),
        old(r).data@ == f.bytes,
        old(r).base == 0,
        old(r).context == CONTEXT,
        old(r).pos == f.pe_offset() + 4,
    ensures
        coff matches Ok(c) ==> {
            &&& f.coff_error() is None
            &&& c.machine == reader::le16(f.bytes, f.pe_offset() + 4)
            &&& c.number_of_sections == f.declared_sections()
            &&& c.size_of_optional_header == reader::le16(f.bytes, f.pe_offset() + 20)
            &&& c.characteristics == reader::le16(f.bytes, f.pe_offset() + 22)
            &&& c.is_pe32_plus == f.plus()
            &&& *final(r) == old(r).moved_to(f.optional() + 2)
            &&& final(r).wf()
        },
        coff matches Err(e) ==> f.coff_error() == Some(e),
{
    let machine: u16 = r.u16()?;
    let number_of_sections: u16 = r.u16()?;
    let _time_date_stamp: u32 = r.u32()?;
    let _pointer_to_symbol_table: u32 = r.u32()?;
    let _number_of_symbols: u32 = r.u32()?;
    let size_of_optional_header: u16 = r.u16()?;
    let characteristics: u16 = r.u16()?;
    let optional_start: usize = r.position();
    let magic: u16 = r.u16()?;
    if magic != 0x010B && magic != 0x020B {
        return Err(Error::new(ErrorKind::Unsupported, optional_start, CONTEXT));
    }
    Ok(
        Coff {
            machine,
            number_of_sections,
            size_of_optional_header,
            characteristics,
            is_pe32_plus: magic == 0x020B,
        },
    )
}

/// Moves the reader to `ahead` bytes past `start`.
fn seek_to(r: &mut Reader, start: usize, ahead: usize) -> (e: Result<()>)
    requires
        old(r).wf(),
    ensures
        final(r).wf(),
        start + ahead <= old(r).data.len() ==> e == Ok::<(), Error>(()) && *final(r) == old(
            r,
        ).moved_to(start + ahead),
        start + ahead > old(r).data.len() ==> e == Err::<(), Error>(
            old(r).failure(ErrorKind::OutOfRange),
        ) && *final(r) == *old(r),
{
    match start.checked_add(ahead) {
        Some(pos) => r.seek(pos),
        None => Err(Error::new(ErrorKind::OutOfRange, r.absolute(), r.context)),
    }
}

/// Reads the entry point and `ImageBase` of the optional header.
fn read_image_base(
    r: &mut Reader,
    start: usize,
    is_pe32_plus: bool,
    Ghost(f): Ghost<PeFile>,
) -> (fields: Result<(u32, u64)>)
    requires
        old(r).wf(),
        old(r).data@ == f.bytes,
        old(r).base == 0,
        old(r).context == CONTEXT,
        start == f.optional(),
        old(r).pos == start + 2,
        is_pe32_plus == f.plus(),
    ensures
        fields matches Ok(h) ==> {
            &&& h.0 == reader::le32(f.bytes, start + 16)
            &&& h.1 == f.image_base()
            &&& start + 32 <= f.bytes.len()
            &&& *final(r) == old(r).moved_to(start + 32)
            &&& final(r).wf()
        },
        fields matches Err(e) ==> f.optional_error() == Some(e),
{
    seek_to(r, start, 16)?;
    let entry_point_rva: u32 = r.u32()?;
    let image_base: u64 = if is_pe32_plus {
        seek_to(r, start, 24)?;
        r.u64()?
    } else {
        seek_to(r, start, 28)?;
        r.u32()? as u64
    };
    Ok((entry_point_rva, image_base))
}

/// Reads the alignments and the sizes of the optional header.
fn read_sizes(r: &mut Reader, start: usize, Ghost(f): Ghost<PeFile>) -> (fields: Result<
    (u32, u32, u32, u32),
>)
    requires
        old(r).wf(),
        old(r).data@ == f.bytes,
        old(r).base == 0,
        old(r).context == CONTEXT,
        start == f.optional(),
        old(r).pos == start + 32,
    ensures
        fields matches Ok(h) ==> {
            &&& h.0 == reader::le32(f.bytes, start + 32)
            &&& h.1 == reader::le32(f.bytes, start + 36)
            &&& h.2 == reader::le32(f.bytes, start + 56)
            &&& h.3 == reader::le32(f.bytes, start + 60)
            &&& start + 64 <= f.bytes.len()
            &&& *final(r) == old(r).moved_to(start + 64)
            &&& final(r).wf()
        },
        fields matches Err(e) ==> f.optional_error() == Some(e),
{
    let section_alignment: u32 = r.u32()?;
    let file_alignment: u32 = r.u32()?;
    seek_to(r, start, 56)?;
    let size_of_image: u32 = r.u32()?;
    let size_of_headers: u32 = r.u32()?;
    Ok((section_alignment, file_alignment, size_of_image, size_of_headers))
}

/// Reads the optional header up to the number of data directories.
fn read_optional(
    r: &mut Reader,
    start: usize,
    is_pe32_plus: bool,
    Ghost(f): Ghost<PeFile>,
) -> (optional: Result<Optional>)
    requires
        old(r).wf(),
        old(r).data@ == f.bytes,
        old(r).base == 0,
        old(r).context == CONTEXT,
        start == f.optional(),
        old(r).pos == start + 2,
        is_pe32_plus == f.plus(),
    ensures
        optional matches Ok(h) ==> {
            &&& f.optional_error() is None
            &&& h.entry_point_rva == reader::le32(f.bytes, start + 16)
            &&& h.image_base == f.image_base()
            &&& h.section_alignment == reader::le32(f.bytes, start + 32)
            &&& h.file_alignment == reader::le32(f.bytes, start + 36)
            &&& h.size_of_image == reader::le32(f.bytes, start + 56)
            &&& h.size_of_headers == reader::le32(f.bytes, start + 60)
            &&& h.subsystem == reader::le16(f.bytes, start + 68)
            &&& h.dll_characteristics == reader::le16(f.bytes, start + 70)
            &&& h.directory_count == reader::le32(f.bytes, f.directory_count_at())
            &&& *final(r) == old(r).moved_to(f.directory_count_at() + 4)
            &&& final(r).wf()
        },
        optional matches Err(e) ==> f.optional_error() == Some(e),
{
    let (entry_point_rva, image_base) = read_image_base(r, start, is_pe32_plus, Ghost(f))?;
    let (section_alignment, file_alignment, size_of_image, size_of_headers) = read_sizes(
        r,
        start,
        Ghost(f),
    )?;
    seek_to(r, start, 68)?;
    let subsystem: u16 = r.u16()?;
    let dll_characteristics: u16 = r.u16()?;
    seek_to(
        r,
        start,
        if is_pe32_plus {
            108
        } else {
            92
        },
    )?;
    let directory_count: u32 = r.u32()?;
    Ok(
        Optional {
            entry_point_rva,
            image_base,
            section_alignment,
            file_alignment,
            size_of_image,
            size_of_headers,
            subsystem,
            dll_characteristics,
            directory_count,
        },
    )
}

/// Reads the data directories.
fn read_directories(
    r: &mut Reader,
    declared: u32,
    Ghost(f): Ghost<PeFile>,
) -> (directories: Vec<DataDirectory>)
    requires
        old(r).wf(),
        old(r).data@ == f.bytes,
        old(r).pos == f.directory_count_at() + 4,
        declared == reader::le32(f.bytes, f.directory_count_at()),
    ensures
        directories@ == f.directories(),
        *final(r) == old(r).moved_to(f.directory_count_at() + 4 + 8 * f.directory_count()),
        final(r).wf(),
{
    // 16 is the architectural maximum; a larger count is a lie about a
    // fixed-size array, so clamp it before allocating.
    let mut count: usize = if declared < 16 {
        declared as usize
    } else {
        16
    };
    let fitting: usize = r.remaining() / 8;
    if fitting < count {
        count = fitting;
    }
    let mut directories: Vec<DataDirectory> = Vec::with_capacity(count);
    let ghost first = *r;
    let mut i: usize = 0;
    while i < count
        invariant
            i <= count,
            count == f.directory_count(),
            first.data@ == f.bytes,
            first.pos == f.directory_count_at() + 4,
            first.pos + 8 * count <= first.data.len(),
            *r == first.moved_to(first.pos + 8 * i),
            r.wf(),
            directories@ == f.directories().take(i as int),
        decreases count - i,
    {
        let rva: u32 = reader::u32_at(r.data, r.pos);
        let size: u32 = reader::u32_at(r.data, r.pos + 4);
        r.pos = r.pos + 8;
        directories.push(DataDirectory { rva, size });
        assert(directories@ =~= f.directories().take(i + 1));
        i = i + 1;
    }
    assert(directories@ =~= f.directories());
    directories
}

/// Reads the section header at `at`.
fn read_section(bytes: &[u8], at: usize) -> (section: Section)
    requires
        at + 40 <= bytes.len(),
    ensures
        section@ == (SectionModel {
            name: bytes@.subrange(at as int, at + 8),
            virtual_size: reader::le32(bytes@, at + 8),
            virtual_address: reader::le32(bytes@, at + 12),
            size_of_raw_data: reader::le32(bytes@, at + 16),
            pointer_to_raw_data: reader::le32(bytes@, at + 20),
            characteristics: reader::le32(bytes@, at + 36),
        }),
{
    let name_bytes: [u8; 8] = [
        bytes[at],
        bytes[at + 1],
        bytes[at + 2],
        bytes[at + 3],
        bytes[at + 4],
        bytes[at + 5],
        bytes[at + 6],
        bytes[at + 7],
    ];
    assert(name_bytes@ =~= bytes@.subrange(at as int, at + 8));
    Section {
        name_bytes,
        virtual_size: reader::u32_at(bytes, at + 8),
        virtual_address: reader::u32_at(bytes, at + 12),
        size_of_raw_data: reader::u32_at(bytes, at + 16),
        pointer_to_raw_data: reader::u32_at(bytes, at + 20),
        characteristics: reader::u32_at(bytes, at + 36),
    }
}

/// Reads the section table.
fn read_sections(
    bytes: &[u8],
    at: usize,
    count: usize,
    strict: bool,
    diagnostics: &mut Vec<Diagnostic>,
    Ghost(f): Ghost<PeFile>,
) -> (sections: Result<Vec<Section>>)
    requires
        bytes@ == f.bytes,
        at == f.sections_at(),
        count == f.section_count(),
        at + 40 * count <= bytes.len(),
        strict == f.strict(),
        old(diagnostics)@ == Seq::<Diagnostic>::empty(),
    ensures
        sections matches Ok(list) ==> {
            &&& f.all_sectioned().failed is None
            &&& section_models(list@) == f.all_sectioned().sections
            &&& final(diagnostics)@ == f.all_sectioned().noted
        },
        sections matches Err(e) ==> f.all_sectioned().failed == Some(e),
{
    let mut sections: Vec<Section> = Vec::with_capacity(count);
    let mut i: usize = 0;
    assert(section_models(sections@) =~= f.sectioned(0).sections);
    while i < count
        invariant
            i <= count,
            bytes@ == f.bytes,
            at == f.sections_at(),
            count == f.section_count(),
            at + 40 * count <= bytes.len(),
            strict == f.strict(),
            f.sectioned(i as nat).failed is None,
            section_models(sections@) == f.sectioned(i as nat).sections,
            diagnostics@ == f.sectioned(i as nat).noted,
        decreases count - i,
    {
        let ghost next = f.sectioned((i + 1) as nat);
        proof {
            if next.failed is Some {
                lemma_sections_rejected(f, (i + 1) as nat, count as nat);
            }
        }
        let here: usize = at + 40 * i;
        let mut section: Section = read_section(bytes, here);
        let raw_end: u64 = section.pointer_to_raw_data as u64 + section.size_of_raw_data as u64;
        let len: u64 = bytes.len() as u64;
        if raw_end > len {
            if strict {
                return Err(Error::new(ErrorKind::Truncated, here, CONTEXT));
            }
            diagnostics.push(
                Diagnostic::new(DiagnosticCode::SectionRangeClamped, here, raw_end),
            );
            let left: u64 = len.saturating_sub(section.pointer_to_raw_data as u64);
            section.size_of_raw_data = if left < u32::MAX as u64 {
                left as u32
            } else {
                u32::MAX
            };
        }
        assert(section@ =~= f.section(i as int));
        sections.push(section);
        assert(section_models(sections@) =~= next.sections);
        i = i + 1;
    }
    Ok(sections)
}

/// A parsed managed PE image, borrowing the bytes it was parsed from.
#[derive(Clone, Debug)]
pub struct PeImage<'a> {
    /// The file.
    pub bytes: &'a [u8],
    /// The strictness of the parse.
    pub strictness: Strictness,
    /// The deviations tolerated while parsing the container.
    pub diagnostics: Vec<Diagnostic>,
    /// The COFF `Machine` field.
    pub machine: u16,
    /// The COFF `Characteristics` field.
    pub characteristics: u16,
    /// The optional header is `PE32+`.
    pub is_pe32_plus: bool,
    /// `ImageBase`.
    pub image_base: u64,
    /// `SectionAlignment`.
    pub section_alignment: u32,
    /// `FileAlignment`.
    pub file_alignment: u32,
    /// `SizeOfImage`.
    pub size_of_image: u32,
    /// `SizeOfHeaders`.
    pub size_of_headers: u32,
    /// `Subsystem`.
    pub subsystem: u16,
    /// `DllCharacteristics`.
    pub dll_characteristics: u16,
    /// `AddressOfEntryPoint`.
    pub entry_point_rva: u32,
    /// The data directories.
    pub data_directories: Vec<DataDirectory>,
    /// The section table.
    pub sections: Vec<Section>,
}

impl<'a> View for PeImage<'a> {
    type V = PeModel;

    open spec fn view(&self) -> PeModel {
        PeModel {
            bytes: self.bytes@,
            strictness: self.strictness,
            diagnostics: self.diagnostics@,
            machine: self.machine,
            characteristics: self.characteristics,
            is_pe32_plus: self.is_pe32_plus,
            image_base: self.image_base,
            section_alignment: self.section_alignment,
            file_alignment: self.file_alignment,
            size_of_image: self.size_of_image,
            size_of_headers: self.size_of_headers,
            subsystem: self.subsystem,
            dll_characteristics: self.dll_characteristics,
            entry_point_rva: self.entry_point_rva,
            data_directories: self.data_directories@,
            sections: section_models(self.sections@),
        }
    }
}

/// True when `r` is what `m` describes.
pub open spec fn same_image<'a>(r: Result<PeImage<'a>>, m: Result<PeModel>) -> bool {
    match r {
        Ok(image) => m == Ok::<PeModel, Error>(image@),
        Err(e) => m == Err::<PeModel, Error>(e),
    }
}

impl<'a> PeImage<'a> {
    /// Parses a PE image in [`Strictness::Permissive`] mode.
    pub fn parse(bytes: &'a [u8]) -> (r: Result<Self>)
        ensures
            same_image(
                r,
                (PeFile { bytes: bytes@, strictness: Strictness::Permissive }).parsed(),
            ),
    {
        Self::parse_with(bytes, Strictness::Permissive)
    }

    /// Parses a PE image with an explicit strictness.
    pub fn parse_with(bytes: &'a [u8], strictness: Strictness) -> (r: Result<Self>)
        ensures
            same_image(r, (PeFile { bytes: bytes@, strictness }).parsed()),
    {
        let ghost f = PeFile { bytes: bytes@, strictness };
        let strict: bool = strictness.is_strict();
        let mut diagnostics: Vec<Diagnostic> = Vec::new();
        let mut r = Reader::new(bytes, 0, CONTEXT);
        read_stub(&mut r, Ghost(f))?;
        let coff = read_coff(&mut r, Ghost(f))?;
        let optional_start: usize = r.position() - 2;
        let optional = read_optional(&mut r, optional_start, coff.is_pe32_plus, Ghost(f))?;
        let data_directories = read_directories(&mut r, optional.directory_count, Ghost(f));
        // Section headers follow the optional header, whose declared size is
        // authoritative even when it disagrees with the magic.
        let sections_offset: usize = match optional_start.checked_add(
            coff.size_of_optional_header as usize,
        ) {
            Some(offset) => offset,
            None => {
                return Err(Error::new(ErrorKind::Malformed, optional_start, CONTEXT));
            },
        };
        r.seek(sections_offset)?;
        let declared: usize = coff.number_of_sections as usize;
        let fitting: usize = r.remaining() / 40;
        let section_count: usize = if declared < fitting {
            declared
        } else {
            fitting
        };
        if strict && section_count != declared {
            return Err(Error::new(ErrorKind::Truncated, sections_offset, CONTEXT));
        }
        let sections = read_sections(
            bytes,
            sections_offset,
            section_count,
            strict,
            &mut diagnostics,
            Ghost(f),
        )?;
        let image = PeImage {
            bytes,
            strictness,
            diagnostics,
            machine: coff.machine,
            characteristics: coff.characteristics,
            is_pe32_plus: coff.is_pe32_plus,
            image_base: optional.image_base,
            section_alignment: optional.section_alignment,
            file_alignment: optional.file_alignment,
            size_of_image: optional.size_of_image,
            size_of_headers: optional.size_of_headers,
            subsystem: optional.subsystem,
            dll_characteristics: optional.dll_characteristics,
            entry_point_rva: optional.entry_point_rva,
            data_directories,
            sections,
        };
        assert(image@ =~= f.model());
        Ok(image)
    }

    /// The bytes this image was parsed from.
    pub fn bytes(&self) -> (bytes: &'a [u8])
        ensures
            bytes@ == self@.bytes,
    {
        self.bytes
    }

    /// The strictness this image was parsed with.
    pub fn strictness(&self) -> (strictness: Strictness)
        ensures
            strictness == self.strictness,
    {
        self.strictness
    }

    /// Deviations tolerated while parsing the container.
    pub fn diagnostics(&self) -> (diagnostics: &[Diagnostic])
        ensures
            diagnostics@ == self@.diagnostics,
    {
        self.diagnostics.as_slice()
    }

    /// True when the optional header magic was `PE32+` (`0x20B`).
    pub fn is_pe32_plus(&self) -> (is_pe32_plus: bool)
        ensures
            is_pe32_plus == self.is_pe32_plus,
    {
        self.is_pe32_plus
    }

    /// The COFF `Machine` field.
    pub fn machine(&self) -> (machine: u16)
        ensures
            machine == self.machine,
    {
        self.machine
    }

    /// The COFF `Characteristics` field.
    pub fn characteristics(&self) -> (characteristics: u16)
        ensures
            characteristics == self.characteristics,
    {
        self.characteristics
    }

    /// `ImageBase`, widened to 64 bits for PE32.
    pub fn image_base(&self) -> (image_base: u64)
        ensures
            image_base == self.image_base,
    {
        self.image_base
    }

    /// `SectionAlignment`.
    pub fn section_alignment(&self) -> (section_alignment: u32)
        ensures
            section_alignment == self.section_alignment,
    {
        self.section_alignment
    }

    /// `FileAlignment`.
    pub fn file_alignment(&self) -> (file_alignment: u32)
        ensures
            file_alignment == self.file_alignment,
    {
        self.file_alignment
    }

    /// `SizeOfImage`.
    pub fn size_of_image(&self) -> (size_of_image: u32)
        ensures
            size_of_image == self.size_of_image,
    {
        self.size_of_image
    }

    /// `SizeOfHeaders`.
    pub fn size_of_headers(&self) -> (size_of_headers: u32)
        ensures
            size_of_headers == self.size_of_headers,
    {
        self.size_of_headers
    }

    /// `Subsystem`.
    pub fn subsystem(&self) -> (subsystem: u16)
        ensures
            subsystem == self.subsystem,
    {
        self.subsystem
    }

    /// `DllCharacteristics`.
    pub fn dll_characteristics(&self) -> (dll_characteristics: u16)
        ensures
            dll_characteristics == self.dll_characteristics,
    {
        self.dll_characteristics
    }

    /// `AddressOfEntryPoint`, the native entry stub RVA.
    pub fn entry_point_rva(&self) -> (entry_point_rva: u32)
        ensures
            entry_point_rva == self.entry_point_rva,
    {
        self.entry_point_rva
    }

    /// The section table, in file order.
    pub fn sections(&self) -> (sections: &[Section])
        ensures
            section_models(sections@) == self@.sections,
    {
        self.sections.as_slice()
    }

    /// The PE data directories, in index order.
    pub fn data_directories(&self) -> (data_directories: &[DataDirectory])
        ensures
            data_directories@ == self@.data_directories,
    {
        self.data_directories.as_slice()
    }

    /// One data directory by index, or an empty directory when absent.
    pub fn data_directory(&self, index: usize) -> (directory: DataDirectory)
        ensures
            directory == self@.directory(index as int),
    {
        if index < self.data_directories.len() {
            self.data_directories[index]
        } else {
            DataDirectory::default()
        }
    }

    /// The position of the first section that contains `rva`.
    fn section_with(&self, rva: u32) -> (at: Option<usize>)
        ensures
            match at {
                Some(i) => i < self.sections.len() && section_of(self@.sections, rva, 0) == Some(
                    self.sections@[i as int]@,
                ) && self.sections@[i as int]@.contains(rva),
                None => section_of(self@.sections, rva, 0) is None,
            },
    {
        let mut i: usize = 0;
        while i < self.sections.len()
            invariant
                i <= self.sections.len(),
                section_of(self@.sections, rva, i as int) == section_of(self@.sections, rva, 0),
            decreases self.sections.len() - i,
        {
            if self.sections[i].contains_rva(rva) {
                return Some(i);
            }
            i = i + 1;
        }
        None
    }

    /// Translates an RVA to a file offset.
    ///
    /// RVAs inside the mapped headers translate to themselves, matching how the
    /// loader maps the first `SizeOfHeaders` bytes at RVA 0.
    pub fn rva_to_offset(&self, rva: u32) -> (offset: Option<usize>)
        ensures
            offset == self@.offset_of(rva),
    {
        match self.section_with(rva) {
            Some(i) => {
                let section: Section = self.sections[i];
                let delta: u32 = rva - section.virtual_address;
                if delta >= section.size_of_raw_data {
                    // Mapped but not backed by file bytes (e.g. `.bss`).
                    return None;
                }
                let offset: u64 = section.pointer_to_raw_data as u64 + delta as u64;
                if offset <= self.bytes.len() as u64 {
                    Some(offset as usize)
                } else {
                    None
                }
            },
            None => if rva < self.size_of_headers && (rva as u64) < self.bytes.len() as u64 {
                Some(rva as usize)
            } else {
                None
            },
        }
    }

    /// Returns `len` bytes starting at `rva`, failing if any of them fall
    /// outside the file-backed part of the containing section.
    pub fn rva_slice(&self, rva: u32, len: usize) -> (r: Result<&'a [u8]>)
        ensures
            r matches Ok(bytes) ==> self@.slice(rva, len as int) == Ok::<Seq<u8>, Error>(bytes@),
            r matches Err(e) ==> self@.slice(rva, len as int) == Err::<Seq<u8>, Error>(e),
    {
        let offset: usize = match self.rva_to_offset(rva) {
            Some(offset) => offset,
            None => {
                return Err(Error::detached(ErrorKind::OutOfRange, "RVA"));
            },
        };
        let available: usize = match self.rva_available(rva) {
            Some(available) => available,
            None => 0,
        };
        proof {
            assert(self@.bytes.len() == self.bytes.len());
            lemma_slice_within_file(self@, rva, len as int);
        }
        if len > available {
            return Err(Error::new(ErrorKind::OutOfRange, offset, "RVA"));
        }
        Ok(&self.bytes[offset..offset + len])
    }

    /// The number of file-backed bytes available from `rva` to the end of its
    /// section, or `None` when the RVA is not mapped.
    pub fn rva_available(&self, rva: u32) -> (available: Option<usize>)
        ensures
            available == self@.available(rva),
    {
        let len: u64 = self.bytes.len() as u64;
        match self.section_with(rva) {
            Some(i) => {
                let section: Section = self.sections[i];
                let delta: u32 = rva - section.virtual_address;
                if delta >= section.size_of_raw_data {
                    return None;
                }
                let in_section: u64 = (section.size_of_raw_data - delta) as u64;
                let file_start: u64 = section.pointer_to_raw_data as u64 + delta as u64;
                if file_start > len {
                    return None;
                }
                let in_file: u64 = len - file_start;
                if in_section < in_file {
                    Some(in_section as usize)
                } else {
                    Some(in_file as usize)
                }
            },
            None => {
                if rva >= self.size_of_headers || rva as u64 > len {
                    return None;
                }
                let limit: u64 = if (self.size_of_headers as u64) < len {
                    self.size_of_headers as u64
                } else {
                    len
                };
                Some((limit - rva as u64) as usize)
            },
        }
    }

    /// Returns every byte from `rva` to the end of its section.
    pub fn rva_rest(&self, rva: u32) -> (r: Result<&'a [u8]>)
        ensures
            r matches Ok(bytes) ==> self@.rest(rva) == Ok::<Seq<u8>, Error>(bytes@),
            r matches Err(e) ==> self@.rest(rva) == Err::<Seq<u8>, Error>(e),
    {
        match self.rva_available(rva) {
            Some(len) => self.rva_slice(rva, len),
            None => Err(Error::detached(ErrorKind::OutOfRange, "RVA")),
        }
    }

    /// Parses the CLI header named by data directory 14 (II.25.3.3).
    pub fn cli_header(&self) -> (r: Result<CliHeader>)
        ensures
            r == self@.cli(),
    {
        let dir: DataDirectory = self.data_directory(CLI_HEADER_DIRECTORY);
        if dir.is_empty() {
            return Err(Error::detached(ErrorKind::Malformed, CLI_CONTEXT));
        }
        let available: usize = match self.rva_available(dir.rva) {
            Some(available) => available,
            None => 0,
        };
        let len: usize = if available < 72 {
            available
        } else {
            72
        };
        let bytes = self.rva_slice(dir.rva, len)?;
        proof {
            assert(self@.bytes.len() == self.bytes.len());
            lemma_slice_within_file(self@, dir.rva, len as int);
        }
        let base: usize = match self.rva_to_offset(dir.rva) {
            Some(base) => base,
            None => 0,
        };
        let header: CliHeader = read_cli_header(bytes, base)?;
        if header.size != 72 && self.strictness.is_strict() {
            return Err(Error::new(ErrorKind::Malformed, base, CLI_CONTEXT));
        }
        Ok(header)
    }

    /// Diagnostics for the CLI header that `cli_header` cannot record because
    /// it takes `&self`; call this to collect them explicitly.
    pub fn cli_header_diagnostics(&self) -> (list: Vec<Diagnostic>)
        ensures
            list@ == self@.cli_notes(),
    {
        let mut out: Vec<Diagnostic> = Vec::new();
        if let Ok(header) = self.cli_header() {
            let base: usize = match self.rva_to_offset(
                self.data_directory(CLI_HEADER_DIRECTORY).rva,
            ) {
                Some(base) => base,
                None => 0,
            };
            if header.size != 72 {
                out.push(
                    Diagnostic::new(DiagnosticCode::CliHeaderSize, base, header.size as u64),
                );
            }
            if header.flags.prefers_32bit() && !header.flags.requires_32bit() {
                out.push(
                    Diagnostic::new(
                        DiagnosticCode::BitnessFlagsInconsistent,
                        base,
                        header.flags.bits() as u64,
                    ),
                );
            }
        }
        assert(out@ =~= self@.cli_notes());
        out
    }

    /// Parses the metadata root named by the CLI header.
    pub fn metadata(&self) -> (r: Result<Metadata<'a>>)
        ensures
            metadata::same_metadata(r, self@.metadata()),
    {
        let header: CliHeader = self.cli_header()?;
        if header.metadata.is_empty() {
            return Err(Error::detached(ErrorKind::Malformed, "metadata directory"));
        }
        let available: usize = match self.rva_available(header.metadata.rva) {
            Some(available) => available,
            None => {
                return Err(Error::detached(ErrorKind::OutOfRange, "metadata directory"));
            },
        };
        let size: u32 = header.metadata.size;
        let len: usize = if (size as u64) < available as u64 {
            size as usize
        } else {
            available
        };
        let bytes = self.rva_slice(header.metadata.rva, len)?;
        let base: usize = match self.rva_to_offset(header.metadata.rva) {
            Some(base) => base,
            None => 0,
        };
        Metadata::parse_at(bytes, base, self.strictness)
    }

    /// The `MethodDef` token of the managed entry point, if there is one.
    pub fn entry_point_token(&self) -> (token: Option<Token>)
        ensures
            token == (match self@.cli() {
                Ok(header) => match header.entry_point {
                    EntryPoint::Token(t) => if TableId::of_number(t.high()) == Some(
                        TableId::MethodDef,
                    ) {
                        Some(t)
                    } else {
                        None
                    },
                    _ => None,
                },
                Err(_) => None,
            }),
    {
        match self.cli_header() {
            Ok(header) => match header.entry_point {
                EntryPoint::Token(t) => match t.table() {
                    Some(table) => if table == TableId::MethodDef {
                        Some(t)
                    } else {
                        None
                    },
                    None => None,
                },
                _ => None,
            },
            Err(_) => None,
        }
    }
}

/// Reads the `(RVA, size)` pair at `at`.
fn read_dir(bytes: &[u8], at: usize) -> (dir: DataDirectory)
    requires
        at + 8 <= bytes.len(),
    ensures
        dir == directory_at(bytes@, at as int),
{
    DataDirectory { rva: reader::u32_at(bytes, at), size: reader::u32_at(bytes, at + 4) }
}

/// Reads a CLI header that starts at `base` of the file.
fn read_cli_header(bytes: &[u8], base: usize) -> (header: Result<CliHeader>)
    requires
        bytes.len() <= 72,
    ensures
        header == (match cli_field_cut(bytes.len() as int) {
            Some(at) => Err(
                Error::at(
                    ErrorKind::Truncated,
                    error::saturating(base as int, at),
                    CLI_CONTEXT,
                ),
            ),
            None => Ok(cli_header_in(bytes@)),
        }),
{
    let len: usize = bytes.len();
    if len < 72 {
        let cut: usize = if len < 4 {
            0
        } else if len < 6 {
            4
        } else if len < 8 {
            6
        } else {
            len / 4 * 4
        };
        return Err(Error::new(ErrorKind::Truncated, base.saturating_add(cut), CLI_CONTEXT));
    }
    let flags: CliFlags = CliFlags(reader::u32_at(bytes, 16));
    let entry_point_raw: u32 = reader::u32_at(bytes, 20);
    let entry_point: EntryPoint = if entry_point_raw == 0 {
        EntryPoint::Absent
    } else if flags.native_entry_point() {
        EntryPoint::Rva(entry_point_raw)
    } else {
        EntryPoint::Token(Token(entry_point_raw))
    };
    Ok(
        CliHeader {
            size: reader::u32_at(bytes, 0),
            major_runtime_version: reader::u16_at(bytes, 4),
            minor_runtime_version: reader::u16_at(bytes, 6),
            metadata: read_dir(bytes, 8),
            flags,
            entry_point,
            resources: read_dir(bytes, 24),
            strong_name_signature: read_dir(bytes, 32),
            code_manager_table: read_dir(bytes, 40),
            vtable_fixups: read_dir(bytes, 48),
            export_address_table_jumps: read_dir(bytes, 56),
            managed_native_header: read_dir(bytes, 64),
        },
    )
}

impl PeFile {
    /// The same file, parsed with another strictness.
    pub open spec fn with_strictness(self, strictness: Strictness) -> PeFile {
        PeFile { strictness, ..self }
    }
}

proof fn lemma_strict_sectioned(f: PeFile, n: nat)
    requires
        f.with_strictness(Strictness::Strict).sectioned(n).failed is None,
    ensures
        f.with_strictness(Strictness::Permissive).sectioned(n) == f.with_strictness(
            Strictness::Strict,
        ).sectioned(n),
    decreases n,
{
    if n > 0 {
        lemma_strict_sectioned(f, (n - 1) as nat);
    }
}

/// An image that parses with deviations rejected parses to the same image, with
/// nothing noted, where they are accepted.
pub proof fn lemma_strict_image_parses_permissively(f: PeFile)
    ensures
        f.with_strictness(Strictness::Strict).parsed() matches Ok(x) ==> x.diagnostics.len() == 0
            && f.with_strictness(Strictness::Permissive).parsed() == Ok::<PeModel, Error>(
            PeModel { strictness: Strictness::Permissive, ..x },
        ),
{
    let strict = f.with_strictness(Strictness::Strict);
    if strict.parsed() is Ok {
        lemma_strict_sectioned(f, strict.section_count() as nat);
        lemma_strict_notes(strict, strict.section_count() as nat);
    }
}

proof fn lemma_strict_notes(f: PeFile, n: nat)
    requires
        f.strict(),
    ensures
        f.sectioned(n).noted.len() == 0,
    decreases n,
{
    if n > 0 {
        lemma_strict_notes(f, (n - 1) as nat);
    }
}

} // verus!
