//! An input for every kind of error and every tolerated deviation.

use cildec::tables::TypeDefRow;
use cildec::{
    DiagnosticCode, ErrorKind, FoldedIter, InstructionIter, Metadata, MethodBody, PeImage,
    StringIndex, Strictness, StringsHeap, Tables, TypeSpecSig,
};

/// A metadata region with the given version field, table stream and streams
/// behind it.
fn region(version: &[u8], streams: &[(&str, Vec<u8>)]) -> Vec<u8> {
    let mut out = Vec::new();
    out.extend_from_slice(&0x424A_5342u32.to_le_bytes());
    out.extend_from_slice(&1u16.to_le_bytes());
    out.extend_from_slice(&1u16.to_le_bytes());
    out.extend_from_slice(&0u32.to_le_bytes());
    out.extend_from_slice(&(version.len() as u32).to_le_bytes());
    out.extend_from_slice(version);
    out.extend_from_slice(&0u16.to_le_bytes());
    out.extend_from_slice(&(streams.len() as u16).to_le_bytes());
    let directory: usize =
        streams.iter().map(|(name, _)| 8 + (name.len() + 1).next_multiple_of(4)).sum();
    let mut offset = out.len() + directory;
    let mut payload = Vec::new();
    for (name, data) in streams {
        out.extend_from_slice(&(offset as u32).to_le_bytes());
        out.extend_from_slice(&(data.len() as u32).to_le_bytes());
        let mut padded = name.as_bytes().to_vec();
        padded.resize((name.len() + 1).next_multiple_of(4), 0);
        out.extend_from_slice(&padded);
        payload.extend_from_slice(data);
        offset += data.len();
    }
    out.extend_from_slice(&payload);
    out
}

/// A `#~` stream with the given `HeapSizes`, `Valid` bits and what follows.
fn stream(heap_sizes: u8, valid: u64, rest: &[u8]) -> Vec<u8> {
    let mut out = Vec::new();
    out.extend_from_slice(&0u32.to_le_bytes());
    out.extend_from_slice(&[2, 0, heap_sizes, 1]);
    out.extend_from_slice(&valid.to_le_bytes());
    out.extend_from_slice(&0u64.to_le_bytes());
    out.extend_from_slice(rest);
    out
}

/// The MS-DOS stub, the PE signature and a COFF header, all at 0x40.
fn pe_start(magic: u16) -> Vec<u8> {
    let mut out = vec![0u8; 0x40];
    out[0] = b'M';
    out[1] = b'Z';
    out[0x3C] = 0x40;
    out.extend_from_slice(b"PE\0\0");
    out.extend_from_slice(&[0u8; 20]);
    out.extend_from_slice(&magic.to_le_bytes());
    out
}

#[test]
fn truncated_input_is_reported_where_it_ends() {
    let e = PeImage::parse(&[b'M']).unwrap_err();
    assert_eq!((e.kind, e.offset, e.context), (ErrorKind::Truncated, Some(0), "PE image"));
    let e = PeImage::parse(&pe_start(0x010B)[..0x40]).unwrap_err();
    assert_eq!((e.kind, e.offset), (ErrorKind::Truncated, Some(0x40)));
    let e = MethodBody::parse(&[0x03, 0x30, 0x08], 0).unwrap_err();
    assert_eq!((e.kind, e.offset), (ErrorKind::Truncated, Some(2)));
    let e = MethodBody::parse(&[0x0A, 0x00], 0).unwrap_err();
    assert_eq!((e.kind, e.offset), (ErrorKind::Truncated, Some(1)));
}

#[test]
fn malformed_input_is_reported_where_it_stands() {
    let e = PeImage::parse(b"not a pe").unwrap_err();
    assert_eq!((e.kind, e.offset), (ErrorKind::Malformed, Some(0)));
    let mut bytes = pe_start(0x010B);
    bytes[0x41] = b'X';
    let e = PeImage::parse(&bytes).unwrap_err();
    assert_eq!((e.kind, e.offset), (ErrorKind::Malformed, Some(0x40)));
}

#[test]
fn an_unknown_optional_header_is_unsupported() {
    let e = PeImage::parse(&pe_start(0x0107)).unwrap_err();
    assert_eq!((e.kind, e.offset), (ErrorKind::Unsupported, Some(0x58)));
}

#[test]
fn an_offset_past_the_input_is_out_of_range() {
    let e = PeImage::parse(b"MZ").unwrap_err();
    assert_eq!((e.kind, e.offset), (ErrorKind::OutOfRange, Some(2)));
    let mut bytes = pe_start(0x010B);
    bytes[0x3E] = 0x10;
    let e = PeImage::parse(&bytes).unwrap_err();
    assert_eq!((e.kind, e.offset), (ErrorKind::OutOfRange, Some(0x40)));
    let e = PeImage::parse(&pe_start(0x010B)).unwrap_err();
    assert_eq!((e.kind, e.offset), (ErrorKind::OutOfRange, Some(0x5A)));
    assert!(Tables::empty().row::<TypeDefRow>(1).is_err());
}

#[test]
fn nesting_past_the_limit_is_reported_at_its_depth() {
    let e = TypeSpecSig::parse(&[0x0F; 65]).unwrap_err();
    assert_eq!((e.kind, e.offset), (ErrorKind::RecursionLimit, Some(64)));
    let mut deepest = vec![0x0F; 63];
    deepest.push(0x01);
    assert!(TypeSpecSig::parse(&deepest).is_ok());
}

#[test]
fn invalid_utf8_is_reported_at_the_first_bad_byte() {
    let heap = StringsHeap::new(b"\0ab\xFFc\0", 0x100);
    let e = heap.str(StringIndex(1)).unwrap_err();
    assert_eq!((e.kind, e.offset, e.context), (ErrorKind::InvalidUtf8, Some(0x103), "#Strings"));
}

#[test]
fn opcodes_and_prefixes_are_reported_at_their_offset() {
    let e = InstructionIter::new(&[0xFF]).next().unwrap().unwrap_err();
    assert_eq!((e.kind, e.offset), (ErrorKind::UnknownOpcode, Some(0)));
    let e = FoldedIter::new(&[0xFE, 0x14, 0x2A]).next().unwrap().unwrap_err();
    assert_eq!((e.kind, e.offset), (ErrorKind::InvalidPrefixTarget, Some(0)));
}

#[test]
fn a_long_fat_header_is_noted_and_honoured() {
    let mut bytes = vec![0x03, 0x40, 8, 0, 1, 0, 0, 0, 0, 0, 0, 0];
    bytes.extend_from_slice(&[0xAA; 4]);
    bytes.push(0x2A);
    let body = MethodBody::parse(&bytes, 0x2000).unwrap();
    assert_eq!(body.code, &[0x2A]);
    assert_eq!(body.code_rva, 0x2010);
    assert_eq!(body.total_size, 17);
    let notes = body.diagnostics();
    assert_eq!(notes.len(), 1);
    assert_eq!(notes[0].code, DiagnosticCode::FatHeaderSize);
    assert_eq!((notes[0].offset, notes[0].detail), (Some(0), 4));
    let e = MethodBody::parse_with(&bytes, 0x2000, Strictness::Strict).unwrap_err();
    assert_eq!((e.kind, e.offset), (ErrorKind::Malformed, Some(0)));
}

#[test]
fn a_version_string_without_its_nul_is_noted() {
    let bytes = region(b"v4.0", &[("#~", stream(0, 0, &[]))]);
    let metadata = Metadata::parse(&bytes).unwrap();
    assert_eq!(metadata.version_string(), "v4.0");
    let note = metadata.diagnostics()[0];
    assert_eq!(note.code, DiagnosticCode::VersionStringPadding);
    assert_eq!((note.offset, note.detail), (Some(16), 4));
    assert!(Metadata::parse_with(&bytes, Strictness::Strict).is_err());
}

#[test]
fn a_stream_name_that_runs_to_the_end_is_noted() {
    // One stream, whose name is cut off by the end of the region.
    let mut bytes = region(b"v4.0\0\0\0\0", &[("#X", Vec::new())]);
    let len = bytes.len();
    bytes.truncate(len - 2);
    let metadata = Metadata::parse(&bytes).unwrap();
    assert!(metadata.diagnostics().iter().any(|d| d.code == DiagnosticCode::StreamNamePadding));
    assert!(Metadata::parse_with(&bytes, Strictness::Strict).is_err());
}

#[test]
fn a_reserved_table_without_rows_is_noted() {
    let tables = stream(0, 1 << 0x3F, &0u32.to_le_bytes());
    let bytes = region(b"v4.0\0\0\0\0", &[("#~", tables.clone())]);
    let metadata = Metadata::parse(&bytes).unwrap();
    let note = metadata.diagnostics()[0];
    assert_eq!(note.code, DiagnosticCode::ReservedTablePresent);
    assert_eq!(note.detail, 0x3F);
    assert!(Metadata::parse_with(&bytes, Strictness::Strict).is_err());
    // With rows it cannot be read past.
    let tables = stream(0, 1 << 0x3F, &1u32.to_le_bytes());
    let bytes = region(b"v4.0\0\0\0\0", &[("#~", tables)]);
    assert_eq!(Metadata::parse(&bytes).unwrap_err().kind, ErrorKind::Unsupported);
}

#[test]
fn an_unknown_heap_size_bit_is_noted() {
    let bytes = region(b"v4.0\0\0\0\0", &[("#~", stream(0x10, 0, &[]))]);
    let metadata = Metadata::parse(&bytes).unwrap();
    let note = metadata.diagnostics()[0];
    assert_eq!(note.code, DiagnosticCode::UnknownHeapSizeBits);
    assert_eq!(note.detail, 0x10);
    assert!(Metadata::parse_with(&bytes, Strictness::Strict).is_err());
}
