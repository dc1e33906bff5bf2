//! PE and CLI headers written out as bytes, and the laws that tie what is
//! written to what is parsed.

use vstd::prelude::*;

use crate::error::Error;
use crate::pe;
use crate::pe::{CliFlags, CliHeader, DataDirectory, EntryPoint, PeFile, PeModel, SectionModel};
use crate::reader;
use crate::token::Token;

verus! {

/// The COFF header and the optional header of an image, field by field
/// (II.25.2.2, II.25.2.3).
pub struct WrittenHeaders {
    /// `Machine`.
    pub machine: u16,
    /// `NumberOfSections`.
    pub section_count: u16,
    /// `TimeDateStamp`.
    pub time_stamp: u32,
    /// `PointerToSymbolTable`.
    pub symbol_table: u32,
    /// `NumberOfSymbols`.
    pub symbol_count: u32,
    /// `SizeOfOptionalHeader`.
    pub optional_size: u16,
    /// `Characteristics`.
    pub characteristics: u16,
    /// The optional header is `PE32+`.
    pub plus: bool,
    /// The linker version.
    pub linker: u16,
    /// `SizeOfCode`.
    pub code_size: u32,
    /// `SizeOfInitializedData`.
    pub data_size: u32,
    /// `SizeOfUninitializedData`.
    pub bss_size: u32,
    /// `AddressOfEntryPoint`.
    pub entry_point_rva: u32,
    /// `BaseOfCode`.
    pub code_base: u32,
    /// `BaseOfData`, which `PE32+` has not.
    pub data_base: u32,
    /// `ImageBase`.
    pub image_base: u64,
    /// `SectionAlignment`.
    pub section_alignment: u32,
    /// `FileAlignment`.
    pub file_alignment: u32,
    /// The operating system version.
    pub os_version: u32,
    /// The image version.
    pub image_version: u32,
    /// The subsystem version.
    pub subsystem_version: u32,
    /// `Win32VersionValue`.
    pub reserved: u32,
    /// `SizeOfImage`.
    pub size_of_image: u32,
    /// `SizeOfHeaders`.
    pub size_of_headers: u32,
    /// `CheckSum`.
    pub checksum: u32,
    /// `Subsystem`.
    pub subsystem: u16,
    /// `DllCharacteristics`.
    pub dll_characteristics: u16,
    /// `SizeOfStackReserve`.
    pub stack_reserve: u64,
    /// `SizeOfStackCommit`.
    pub stack_commit: u64,
    /// `SizeOfHeapReserve`.
    pub heap_reserve: u64,
    /// `SizeOfHeapCommit`.
    pub heap_commit: u64,
    /// `LoaderFlags`.
    pub loader_flags: u32,
    /// `NumberOfRvaAndSizes`.
    pub directory_count: u32,
}

/// The COFF header.
#[verifier::opaque]
pub open spec fn coff_bytes(h: WrittenHeaders) -> Seq<u8> {
    reader::written16(h.machine) + (reader::written16(h.section_count) + (reader::written32(h.time_stamp) + (reader::written32(h.symbol_table) + (reader::written32(h.symbol_count) + (reader::written16(h.optional_size) + (reader::written16(h.characteristics)))))))
}

/// The optional header before the data directories. `PE32+` has no `BaseOfData`,
/// and addresses and sizes in 8 bytes.
#[verifier::opaque]
pub open spec fn optional_bytes(h: WrittenHeaders) -> Seq<u8> {
    if h.plus {
        reader::written16(0x020Bu16) + (reader::written16(h.linker) + (reader::written32(h.code_size) + (reader::written32(h.data_size) + (reader::written32(h.bss_size) + (reader::written32(h.entry_point_rva) + (reader::written32(h.code_base) + (reader::written64(h.image_base) + (reader::written32(h.section_alignment) + (reader::written32(h.file_alignment) + (reader::written32(h.os_version) + (reader::written32(h.image_version) + (reader::written32(h.subsystem_version) + (reader::written32(h.reserved) + (reader::written32(h.size_of_image) + (reader::written32(h.size_of_headers) + (reader::written32(h.checksum) + (reader::written16(h.subsystem) + (reader::written16(h.dll_characteristics) + (reader::written64(h.stack_reserve) + (reader::written64(h.stack_commit) + (reader::written64(h.heap_reserve) + (reader::written64(h.heap_commit) + (reader::written32(h.loader_flags) + (reader::written32(h.directory_count)))))))))))))))))))))))))
    } else {
        reader::written16(0x010Bu16) + (reader::written16(h.linker) + (reader::written32(h.code_size) + (reader::written32(h.data_size) + (reader::written32(h.bss_size) + (reader::written32(h.entry_point_rva) + (reader::written32(h.code_base) + (reader::written32(h.data_base) + (reader::written32(h.image_base as u32) + (reader::written32(h.section_alignment) + (reader::written32(h.file_alignment) + (reader::written32(h.os_version) + (reader::written32(h.image_version) + (reader::written32(h.subsystem_version) + (reader::written32(h.reserved) + (reader::written32(h.size_of_image) + (reader::written32(h.size_of_headers) + (reader::written32(h.checksum) + (reader::written16(h.subsystem) + (reader::written16(h.dll_characteristics) + (reader::written32(h.stack_reserve as u32) + (reader::written32(h.stack_commit as u32) + (reader::written32(h.heap_reserve as u32) + (reader::written32(h.heap_commit as u32) + (reader::written32(h.loader_flags) + (reader::written32(h.directory_count))))))))))))))))))))))))))
    }
}

/// True when the headers are written in the file: `MZ` at its start, at 0x3C
/// where the signature `PE` is, then the two headers.
pub open spec fn headers_written(f: PeFile, p: u32, h: WrittenHeaders) -> bool {
    &&& reader::lies_at(f.bytes, 0, seq![0x4Du8, 0x5A])
    &&& reader::lies_at(f.bytes, 0x3C, reader::written32(p))
    &&& reader::lies_at(f.bytes, p as int, seq![0x50u8, 0x45, 0, 0])
    &&& reader::lies_at(f.bytes, p + 4, coff_bytes(h))
    &&& reader::lies_at(f.bytes, p + 24, optional_bytes(h))
    &&& !h.plus ==> h.image_base <= u32::MAX
}

/// The COFF header reads back.
proof fn lemma_coff(data: Seq<u8>, at: int, h: WrittenHeaders)
    requires
        reader::lies_at(data, at, coff_bytes(h)),
    ensures
        at + 20 <= data.len(),
        reader::le16(data, at) == h.machine,
        reader::le16(data, at + 2) == h.section_count,
        reader::le16(data, at + 16) == h.optional_size,
        reader::le16(data, at + 18) == h.characteristics,
{
    reveal(coff_bytes);
    let t6 = reader::written16(h.characteristics);
    let t5 = reader::written16(h.optional_size) + t6;
    let t4 = reader::written32(h.symbol_count) + t5;
    let t3 = reader::written32(h.symbol_table) + t4;
    let t2 = reader::written32(h.time_stamp) + t3;
    let t1 = reader::written16(h.section_count) + t2;
    reader::lemma_take16(data, at + 0, h.machine, t1);
    reader::lemma_take16(data, at + 2, h.section_count, t2);
    reader::lemma_take32(data, at + 4, h.time_stamp, t3);
    reader::lemma_take32(data, at + 8, h.symbol_table, t4);
    reader::lemma_take32(data, at + 12, h.symbol_count, t5);
    reader::lemma_take16(data, at + 16, h.optional_size, t6);
    reader::lemma_written16_reads_back(data, at + 18, h.characteristics);
}

/// The optional header of `PE32+` reads back.
proof fn lemma_optional_plus(data: Seq<u8>, at: int, h: WrittenHeaders)
    requires
        h.plus,
        h.plus || h.image_base <= u32::MAX,
        reader::lies_at(data, at, optional_bytes(h)),
    ensures
        at + 112 <= data.len(),
        reader::le16(data, at) == 0x020B,
        reader::le32(data, at + 16) == h.entry_point_rva,
        reader::le64(data, at + 24) == h.image_base,
        reader::le32(data, at + 32) == h.section_alignment,
        reader::le32(data, at + 36) == h.file_alignment,
        reader::le32(data, at + 56) == h.size_of_image,
        reader::le32(data, at + 60) == h.size_of_headers,
        reader::le16(data, at + 68) == h.subsystem,
        reader::le16(data, at + 70) == h.dll_characteristics,
        reader::le32(data, at + 108) == h.directory_count,
{
    reveal(optional_bytes);
    let t24 = reader::written32(h.directory_count);
    let t23 = reader::written32(h.loader_flags) + t24;
    let t22 = reader::written64(h.heap_commit) + t23;
    let t21 = reader::written64(h.heap_reserve) + t22;
    let t20 = reader::written64(h.stack_commit) + t21;
    let t19 = reader::written64(h.stack_reserve) + t20;
    let t18 = reader::written16(h.dll_characteristics) + t19;
    let t17 = reader::written16(h.subsystem) + t18;
    let t16 = reader::written32(h.checksum) + t17;
    let t15 = reader::written32(h.size_of_headers) + t16;
    let t14 = reader::written32(h.size_of_image) + t15;
    let t13 = reader::written32(h.reserved) + t14;
    let t12 = reader::written32(h.subsystem_version) + t13;
    let t11 = reader::written32(h.image_version) + t12;
    let t10 = reader::written32(h.os_version) + t11;
    let t9 = reader::written32(h.file_alignment) + t10;
    let t8 = reader::written32(h.section_alignment) + t9;
    let t7 = reader::written64(h.image_base) + t8;
    let t6 = reader::written32(h.code_base) + t7;
    let t5 = reader::written32(h.entry_point_rva) + t6;
    let t4 = reader::written32(h.bss_size) + t5;
    let t3 = reader::written32(h.data_size) + t4;
    let t2 = reader::written32(h.code_size) + t3;
    let t1 = reader::written16(h.linker) + t2;
    reader::lemma_take16(data, at + 0, 0x020Bu16, t1);
    reader::lemma_take16(data, at + 2, h.linker, t2);
    reader::lemma_take32(data, at + 4, h.code_size, t3);
    reader::lemma_take32(data, at + 8, h.data_size, t4);
    reader::lemma_take32(data, at + 12, h.bss_size, t5);
    reader::lemma_take32(data, at + 16, h.entry_point_rva, t6);
    reader::lemma_take32(data, at + 20, h.code_base, t7);
    reader::lemma_take64(data, at + 24, h.image_base, t8);
    reader::lemma_take32(data, at + 32, h.section_alignment, t9);
    reader::lemma_take32(data, at + 36, h.file_alignment, t10);
    reader::lemma_take32(data, at + 40, h.os_version, t11);
    reader::lemma_take32(data, at + 44, h.image_version, t12);
    reader::lemma_take32(data, at + 48, h.subsystem_version, t13);
    reader::lemma_take32(data, at + 52, h.reserved, t14);
    reader::lemma_take32(data, at + 56, h.size_of_image, t15);
    reader::lemma_take32(data, at + 60, h.size_of_headers, t16);
    reader::lemma_take32(data, at + 64, h.checksum, t17);
    reader::lemma_take16(data, at + 68, h.subsystem, t18);
    reader::lemma_take16(data, at + 70, h.dll_characteristics, t19);
    reader::lemma_take64(data, at + 72, h.stack_reserve, t20);
    reader::lemma_take64(data, at + 80, h.stack_commit, t21);
    reader::lemma_take64(data, at + 88, h.heap_reserve, t22);
    reader::lemma_take64(data, at + 96, h.heap_commit, t23);
    reader::lemma_take32(data, at + 104, h.loader_flags, t24);
    reader::lemma_written32_reads_back(data, at + 108, h.directory_count);
}

/// The optional header of `PE32` reads back.
proof fn lemma_optional_narrow(data: Seq<u8>, at: int, h: WrittenHeaders)
    requires
        !h.plus,
        h.plus || h.image_base <= u32::MAX,
        reader::lies_at(data, at, optional_bytes(h)),
    ensures
        at + 96 <= data.len(),
        reader::le16(data, at) == 0x010B,
        reader::le32(data, at + 16) == h.entry_point_rva,
        reader::le32(data, at + 28) == h.image_base,
        reader::le32(data, at + 32) == h.section_alignment,
        reader::le32(data, at + 36) == h.file_alignment,
        reader::le32(data, at + 56) == h.size_of_image,
        reader::le32(data, at + 60) == h.size_of_headers,
        reader::le16(data, at + 68) == h.subsystem,
        reader::le16(data, at + 70) == h.dll_characteristics,
        reader::le32(data, at + 92) == h.directory_count,
{
    reveal(optional_bytes);
    let t25 = reader::written32(h.directory_count);
    let t24 = reader::written32(h.loader_flags) + t25;
    let t23 = reader::written32(h.heap_commit as u32) + t24;
    let t22 = reader::written32(h.heap_reserve as u32) + t23;
    let t21 = reader::written32(h.stack_commit as u32) + t22;
    let t20 = reader::written32(h.stack_reserve as u32) + t21;
    let t19 = reader::written16(h.dll_characteristics) + t20;
    let t18 = reader::written16(h.subsystem) + t19;
    let t17 = reader::written32(h.checksum) + t18;
    let t16 = reader::written32(h.size_of_headers) + t17;
    let t15 = reader::written32(h.size_of_image) + t16;
    let t14 = reader::written32(h.reserved) + t15;
    let t13 = reader::written32(h.subsystem_version) + t14;
    let t12 = reader::written32(h.image_version) + t13;
    let t11 = reader::written32(h.os_version) + t12;
    let t10 = reader::written32(h.file_alignment) + t11;
    let t9 = reader::written32(h.section_alignment) + t10;
    let t8 = reader::written32(h.image_base as u32) + t9;
    let t7 = reader::written32(h.data_base) + t8;
    let t6 = reader::written32(h.code_base) + t7;
    let t5 = reader::written32(h.entry_point_rva) + t6;
    let t4 = reader::written32(h.bss_size) + t5;
    let t3 = reader::written32(h.data_size) + t4;
    let t2 = reader::written32(h.code_size) + t3;
    let t1 = reader::written16(h.linker) + t2;
    reader::lemma_take16(data, at + 0, 0x010Bu16, t1);
    reader::lemma_take16(data, at + 2, h.linker, t2);
    reader::lemma_take32(data, at + 4, h.code_size, t3);
    reader::lemma_take32(data, at + 8, h.data_size, t4);
    reader::lemma_take32(data, at + 12, h.bss_size, t5);
    reader::lemma_take32(data, at + 16, h.entry_point_rva, t6);
    reader::lemma_take32(data, at + 20, h.code_base, t7);
    reader::lemma_take32(data, at + 24, h.data_base, t8);
    reader::lemma_take32(data, at + 28, h.image_base as u32, t9);
    reader::lemma_take32(data, at + 32, h.section_alignment, t10);
    reader::lemma_take32(data, at + 36, h.file_alignment, t11);
    reader::lemma_take32(data, at + 40, h.os_version, t12);
    reader::lemma_take32(data, at + 44, h.image_version, t13);
    reader::lemma_take32(data, at + 48, h.subsystem_version, t14);
    reader::lemma_take32(data, at + 52, h.reserved, t15);
    reader::lemma_take32(data, at + 56, h.size_of_image, t16);
    reader::lemma_take32(data, at + 60, h.size_of_headers, t17);
    reader::lemma_take32(data, at + 64, h.checksum, t18);
    reader::lemma_take16(data, at + 68, h.subsystem, t19);
    reader::lemma_take16(data, at + 70, h.dll_characteristics, t20);
    reader::lemma_take32(data, at + 72, h.stack_reserve as u32, t21);
    reader::lemma_take32(data, at + 76, h.stack_commit as u32, t22);
    reader::lemma_take32(data, at + 80, h.heap_reserve as u32, t23);
    reader::lemma_take32(data, at + 84, h.heap_commit as u32, t24);
    reader::lemma_take32(data, at + 88, h.loader_flags, t25);
    reader::lemma_written32_reads_back(data, at + 92, h.directory_count);
}

/// The signatures read back.
proof fn lemma_signatures(data: Seq<u8>, p: u32)
    requires
        reader::lies_at(data, 0, seq![0x4Du8, 0x5A]),
        reader::lies_at(data, 0x3C, reader::written32(p)),
        reader::lies_at(data, p as int, seq![0x50u8, 0x45, 0, 0]),
    ensures
        reader::le16(data, 0) == 0x5A4D,
        reader::le32(data, 0x3C) == p,
        reader::le32(data, p as int) == 0x4550,
        0x40 <= data.len(),
        p + 4 <= data.len(),
{
    assert(seq![0x4Du8, 0x5A] =~= reader::written16(0x5A4D));
    reader::lemma_written16_reads_back(data, 0, 0x5A4D);
    reader::lemma_written32_reads_back(data, 0x3C, p);
    assert(seq![0x50u8, 0x45, 0, 0] =~= reader::written32(0x4550));
    reader::lemma_written32_reads_back(data, p as int, 0x4550);
}

/// Headers that are written out field by field read back field by field, in
/// either form of the optional header.
pub proof fn lemma_written_headers(f: PeFile, p: u32, h: WrittenHeaders)
    requires
        headers_written(f, p, h),
    ensures
        f.pe_offset() == p,
        f.stub_error() is None,
        f.coff_error() is None,
        f.optional_error() is None,
        f.declared_sections() == h.section_count,
        f.sections_at() == p + 24 + h.optional_size,
        f.parsed() matches Ok(m) ==> m.machine == h.machine && m.characteristics
            == h.characteristics && m.is_pe32_plus == h.plus && m.image_base == h.image_base
            && m.section_alignment == h.section_alignment && m.file_alignment == h.file_alignment
            && m.size_of_image == h.size_of_image && m.size_of_headers == h.size_of_headers
            && m.subsystem == h.subsystem && m.dll_characteristics == h.dll_characteristics
            && m.entry_point_rva == h.entry_point_rva && m.bytes == f.bytes,
{
    lemma_signatures(f.bytes, p);
    lemma_coff(f.bytes, p + 4, h);
    if h.plus {
        lemma_optional_plus(f.bytes, p + 24, h);
    } else {
        lemma_optional_narrow(f.bytes, p + 24, h);
    }
}

/// The number of bytes that the optional header takes before its data
/// directories.
pub open spec fn directories_at(h: WrittenHeaders) -> int {
    if h.plus {
        112
    } else {
        96
    }
}

/// A data directory that is written behind the optional header, an RVA and a
/// size, reads back under its number; one that is not declared is empty.
pub proof fn lemma_written_directory(f: PeFile, p: u32, h: WrittenHeaders, i: int, d: DataDirectory)
    requires
        headers_written(f, p, h),
        0 <= i < 16,
        i < h.directory_count ==> reader::lies_at(
            f.bytes,
            p + 24 + directories_at(h) + 8 * i,
            reader::written32(d.rva) + reader::written32(d.size),
        ),
        i >= h.directory_count ==> d == DataDirectory::none(),
    ensures
        f.parsed() matches Ok(m) ==> m.directory(i) == d,
{
    lemma_written_headers(f, p, h);
    if h.plus {
        lemma_optional_plus(f.bytes, p + 24, h);
    } else {
        lemma_optional_narrow(f.bytes, p + 24, h);
    }
    let at = p + 24 + directories_at(h) + 8 * i;
    if i < h.directory_count {
        reader::lemma_take32(f.bytes, at, d.rva, reader::written32(d.size));
        reader::lemma_written32_reads_back(f.bytes, at + 4, d.size);
        assert(f.directory_count_at() + 4 == p + 24 + directories_at(h));
        assert(f.directory_count() > i);
        assert(f.directories()[i] == d);
    } else {
        assert(f.directory_count() <= i);
    }
}

/// A section header (II.25.3): the name in 8 bytes, then the sizes and places,
/// 12 bytes on relocations and line numbers, and the characteristics.
pub open spec fn section_bytes(s: SectionModel, between: Seq<u8>) -> Seq<u8> {
    s.name + (reader::written32(s.virtual_size) + (reader::written32(s.virtual_address) + (
    reader::written32(s.size_of_raw_data) + (reader::written32(s.pointer_to_raw_data) + (between
        + reader::written32(s.characteristics))))))
}

/// A section header that is written reads back, where its raw data lies in the
/// file.
pub proof fn lemma_written_section_header(f: PeFile, i: int, s: SectionModel, between: Seq<u8>)
    requires
        s.name.len() == 8,
        between.len() == 12,
        s.pointer_to_raw_data + s.size_of_raw_data <= f.bytes.len(),
        reader::lies_at(f.bytes, f.sections_at() + 40 * i, section_bytes(s, between)),
    ensures
        f.section(i) == s,
{
    let at = f.section_at(i);
    let t5 = between + reader::written32(s.characteristics);
    let t4 = reader::written32(s.pointer_to_raw_data) + t5;
    let t3 = reader::written32(s.size_of_raw_data) + t4;
    let t2 = reader::written32(s.virtual_address) + t3;
    let t1 = reader::written32(s.virtual_size) + t2;
    reader::lemma_lies_in_parts(f.bytes, at, s.name, t1);
    assert(f.bytes.subrange(at, at + 8) == s.name) by {
        reveal(reader::lies_at);
    }
    reader::lemma_take32(f.bytes, at + 8, s.virtual_size, t2);
    reader::lemma_take32(f.bytes, at + 12, s.virtual_address, t3);
    reader::lemma_take32(f.bytes, at + 16, s.size_of_raw_data, t4);
    reader::lemma_take32(f.bytes, at + 20, s.pointer_to_raw_data, t5);
    reader::lemma_lies_in_parts(f.bytes, at + 24, between, reader::written32(s.characteristics));
    reader::lemma_written32_reads_back(f.bytes, at + 36, s.characteristics);
}

/// The sections of a parsed image are the section headers, one for one.
pub proof fn lemma_sections_in_order(f: PeFile, n: nat)
    ensures
        f.sectioned(n).failed is None ==> f.sectioned(n).sections == Seq::new(
            n,
            |i: int| f.section(i),
        ),
    decreases n,
{
    if n > 0 {
        lemma_sections_in_order(f, (n - 1) as nat);
        if f.sectioned(n).failed is None {
            assert(f.sectioned(n).sections =~= Seq::new(n, |i: int| f.section(i)));
        }
    } else {
        assert(f.sectioned(n).sections =~= Seq::new(n, |i: int| f.section(i)));
    }
}

/// The raw value of an entry point.
pub open spec fn entry_point_raw(e: EntryPoint) -> u32 {
    match e {
        EntryPoint::Absent => 0,
        EntryPoint::Rva(rva) => rva,
        EntryPoint::Token(t) => t.0,
    }
}

/// An RVA and a size.
pub open spec fn directory_bytes(d: DataDirectory) -> Seq<u8> {
    reader::written32(d.rva) + reader::written32(d.size)
}

/// A CLI header (II.25.3.3): its size, the runtime version, the metadata, the
/// flags, the entry point, and six more directories.
pub open spec fn cli_bytes(h: CliHeader) -> Seq<u8> {
    reader::written32(h.size) + (reader::written16(h.major_runtime_version) + (reader::written16(
        h.minor_runtime_version,
    ) + (directory_bytes(h.metadata) + (reader::written32(h.flags.0) + (reader::written32(
        entry_point_raw(h.entry_point),
    ) + (directory_bytes(h.resources) + (directory_bytes(h.strong_name_signature) + (
    directory_bytes(h.code_manager_table) + (directory_bytes(h.vtable_fixups) + (directory_bytes(
        h.export_address_table_jumps,
    ) + directory_bytes(h.managed_native_header)))))))))))
}

/// A directory that was written first is read, and the rest lies behind it.
proof fn lemma_take_directory(data: Seq<u8>, at: int, d: DataDirectory, rest: Seq<u8>)
    requires
        reader::lies_at(data, at, directory_bytes(d) + rest),
    ensures
        at + 8 + rest.len() <= data.len(),
        pe::directory_at(data, at) == d,
        reader::lies_at(data, at + 8, rest),
{
    reader::lemma_lies_in_parts(data, at, directory_bytes(d), rest);
    reader::lemma_take32(data, at, d.rva, reader::written32(d.size));
    reader::lemma_written32_reads_back(data, at + 4, d.size);
}

/// A CLI header that is written reads back field by field. The entry point is an
/// RVA just where the flag for a native one (0x10) is set.
pub proof fn lemma_written_cli_header(data: Seq<u8>, h: CliHeader)
    requires
        reader::lies_at(data, 0, cli_bytes(h)),
        match h.entry_point {
            EntryPoint::Absent => true,
            EntryPoint::Rva(rva) => rva != 0 && h.flags.0 / 0x10 % 2 == 1,
            EntryPoint::Token(t) => t.0 != 0 && h.flags.0 / 0x10 % 2 == 0,
        },
    ensures
        pe::cli_header_in(data) == h,
        pe::cli_field_cut(data.len() as int) is None,
{
    let e = entry_point_raw(h.entry_point);
    let t11 = directory_bytes(h.managed_native_header);
    let t10 = directory_bytes(h.export_address_table_jumps) + t11;
    let t9 = directory_bytes(h.vtable_fixups) + t10;
    let t8 = directory_bytes(h.code_manager_table) + t9;
    let t7 = directory_bytes(h.strong_name_signature) + t8;
    let t6 = directory_bytes(h.resources) + t7;
    let t5 = reader::written32(e) + t6;
    let t4 = reader::written32(h.flags.0) + t5;
    let t3 = directory_bytes(h.metadata) + t4;
    let t2 = reader::written16(h.minor_runtime_version) + t3;
    let t1 = reader::written16(h.major_runtime_version) + t2;
    reader::lemma_take32(data, 0, h.size, t1);
    reader::lemma_take16(data, 4, h.major_runtime_version, t2);
    reader::lemma_take16(data, 6, h.minor_runtime_version, t3);
    lemma_take_directory(data, 8, h.metadata, t4);
    reader::lemma_take32(data, 16, h.flags.0, t5);
    reader::lemma_take32(data, 20, e, t6);
    lemma_take_directory(data, 24, h.resources, t7);
    lemma_take_directory(data, 32, h.strong_name_signature, t8);
    lemma_take_directory(data, 40, h.code_manager_table, t9);
    lemma_take_directory(data, 48, h.vtable_fixups, t10);
    lemma_take_directory(data, 56, h.export_address_table_jumps, t11);
    assert(t11 + Seq::<u8>::empty() =~= t11);
    lemma_take_directory(data, 64, h.managed_native_header, Seq::empty());
    assert(h.flags == CliFlags(h.flags.0));
}

/// The CLI header of an image is the one that directory 14 names, wherever the
/// section that holds it lies in the file.
pub proof fn lemma_cli_header_of_image(m: PeModel, s: SectionModel, h: CliHeader)
    requires
        m.directory(14).rva != 0,
        pe::section_of(m.sections, m.directory(14).rva, 0) == Some(s),
        s.virtual_address <= m.directory(14).rva,
        s.pointer_to_raw_data + s.size_of_raw_data <= m.bytes.len() <= usize::MAX,
        m.directory(14).rva - s.virtual_address + 72 <= s.size_of_raw_data,
        h.size == 72,
        match h.entry_point {
            EntryPoint::Absent => true,
            EntryPoint::Rva(rva) => rva != 0 && h.flags.0 / 0x10 % 2 == 1,
            EntryPoint::Token(t) => t.0 != 0 && h.flags.0 / 0x10 % 2 == 0,
        },
        m.bytes.subrange(
            s.pointer_to_raw_data + (m.directory(14).rva - s.virtual_address),
            s.pointer_to_raw_data + (m.directory(14).rva - s.virtual_address) + 72,
        ) == cli_bytes(h),
    ensures
        m.cli() == Ok::<CliHeader, Error>(h),
{
    let data = cli_bytes(h);
    assert(reader::lies_at(data, 0, data)) by {
        reveal(reader::lies_at);
        assert(data.subrange(0, data.len() as int) =~= data);
    }
    lemma_written_cli_header(data, h);
}

/// The first RVA of a section is found where the raw data of the section starts,
/// and going on in the section goes on as far in the file.
pub proof fn lemma_translation_keeps_distance(m: PeModel, s: SectionModel, rva: u32)
    requires
        pe::section_of(m.sections, s.virtual_address, 0) == Some(s),
        pe::section_of(m.sections, rva, 0) == Some(s),
        s.virtual_address <= rva,
        rva - s.virtual_address < s.size_of_raw_data,
        s.pointer_to_raw_data + s.size_of_raw_data <= m.bytes.len() <= usize::MAX,
    ensures
        m.offset_of(s.virtual_address) == Some(s.pointer_to_raw_data as usize),
        m.offset_of(rva) matches Some(offset) && offset - s.pointer_to_raw_data == rva
            - s.virtual_address,
        m.available(rva) matches Some(n) && rva - s.virtual_address + n == s.size_of_raw_data,
{
}

/// What no section contains is found in the headers, at the offset that the RVA
/// is, or not at all.
pub proof fn lemma_headers_map_to_themselves(m: PeModel, rva: u32)
    requires
        pe::section_of(m.sections, rva, 0) is None,
        m.bytes.len() <= usize::MAX,
    ensures
        m.offset_of(rva) is Some <==> rva < m.size_of_headers && rva < m.bytes.len(),
        m.offset_of(rva) matches Some(offset) ==> offset == rva,
{
}

} // verus!
