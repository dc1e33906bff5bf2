//! The metadata root and its streams.
use cildec::metadata::METADATA_SIGNATURE;
use cildec::{DiagnosticCode, ErrorKind, Metadata, Strictness, TableId};

/// Builds a minimal but well-formed metadata region with the given streams.
fn build(streams: &[(&str, &[u8])]) -> Vec<u8> {
    let version = b"v4.0.30319\0\0";
    let mut header = Vec::new();
    header.extend_from_slice(&METADATA_SIGNATURE.to_le_bytes());
    header.extend_from_slice(&1u16.to_le_bytes());
    header.extend_from_slice(&1u16.to_le_bytes());
    header.extend_from_slice(&0u32.to_le_bytes());
    header.extend_from_slice(&(version.len() as u32).to_le_bytes());
    header.extend_from_slice(version);
    header.extend_from_slice(&0u16.to_le_bytes());
    header.extend_from_slice(&(streams.len() as u16).to_le_bytes());

    let mut directory_size = 0usize;
    for (name, _) in streams {
        directory_size += 8 + (name.len() + 1).next_multiple_of(4);
    }
    let mut offset = header.len() + directory_size;
    let mut directory = Vec::new();
    let mut payload = Vec::new();
    for (name, data) in streams {
        directory.extend_from_slice(&(offset as u32).to_le_bytes());
        directory.extend_from_slice(&(data.len() as u32).to_le_bytes());
        let mut name_bytes = name.as_bytes().to_vec();
        name_bytes.push(0);
        while name_bytes.len() % 4 != 0 {
            name_bytes.push(0);
        }
        directory.extend_from_slice(&name_bytes);
        payload.extend_from_slice(data);
        offset += data.len();
    }
    header.extend_from_slice(&directory);
    header.extend_from_slice(&payload);
    header
}

/// A `#~` stream with no tables present.
fn empty_table_stream() -> Vec<u8> {
    let mut s = Vec::new();
    s.extend_from_slice(&0u32.to_le_bytes()); // Reserved
    s.push(2); // MajorVersion
    s.push(0); // MinorVersion
    s.push(0); // HeapSizes
    s.push(1); // Reserved
    s.extend_from_slice(&0u64.to_le_bytes()); // Valid
    s.extend_from_slice(&0u64.to_le_bytes()); // Sorted
    s
}

#[test]
fn parses_a_minimal_region() {
    let bytes = build(&[("#~", &empty_table_stream()), ("#Strings", b"\0ok\0")]);
    let md = Metadata::parse(&bytes).unwrap();
    assert_eq!(md.version_string(), "v4.0.30319");
    assert_eq!(md.streams().len(), 2);
    assert_eq!(md.streams()[0].name(), Some("#~"));
    assert_eq!(md.strings().len(), 4);
    assert_eq!(md.tables().row_count(TableId::TypeDef), 0);
    assert!(!md.has_pdb_stream());
    assert!(md.diagnostics().is_empty());
}

#[test]
fn unknown_streams_are_exposed_not_rejected() {
    let bytes = build(&[("#~", &empty_table_stream()), ("#JTD", b""), ("#Schema", b"\x01")]);
    let md = Metadata::parse(&bytes).unwrap();
    assert_eq!(md.streams().len(), 3);
    assert!(md.stream("#JTD").is_some());
    assert_eq!(md.stream("#Schema").unwrap().data, b"\x01");
}

#[test]
fn duplicate_stream_names_keep_the_first() {
    let bytes = build(&[
        ("#~", &empty_table_stream()),
        ("#Strings", b"\0a\0"),
        ("#Strings", b"\0bb\0"),
    ]);
    let md = Metadata::parse(&bytes).unwrap();
    assert_eq!(md.strings().len(), 3);
    assert!(
        md.diagnostics().iter().any(|d| d.code == DiagnosticCode::DuplicateStreamName),
        "expected a duplicate-name diagnostic"
    );
    assert!(Metadata::parse_with(&bytes, Strictness::Strict).is_err());
}

#[test]
fn a_stream_running_past_the_end_is_clamped() {
    let mut bytes = build(&[("#~", &empty_table_stream()), ("#Blob", b"\0")]);
    let len = bytes.len();
    // Enlarge the last stream size field beyond the region.
    let size_pos = len - 1 - 1;
    let _ = size_pos;
    // Rebuild by hand: patch the #Blob declared size to a huge value.
    let pattern = b"#Blob\0\0\0";
    let dir_pos = bytes.windows(8).position(|w| w == pattern).unwrap();
    bytes[dir_pos - 4..dir_pos].copy_from_slice(&0xFFFF_0000u32.to_le_bytes());
    let md = Metadata::parse(&bytes).unwrap();
    assert!(md.blobs().len() <= bytes.len());
    assert!(md.diagnostics().iter().any(|d| d.code == DiagnosticCode::StreamRangeClamped));
    assert!(Metadata::parse_with(&bytes, Strictness::Strict).is_err());
}

#[test]
fn a_pdb_stream_is_reported() {
    let bytes = build(&[("#~", &empty_table_stream()), ("#Pdb", &[0u8; 8])]);
    assert!(Metadata::parse(&bytes).unwrap().has_pdb_stream());
}

#[test]
fn metadata_the_uncompressed_stream_is_recognised() {
    let bytes = build(&[("#-", &empty_table_stream())]);
    let md = Metadata::parse(&bytes).unwrap();
    assert!(md.is_uncompressed());
}

#[test]
fn truncated_inputs_never_panic() {
    let full = build(&[("#~", &empty_table_stream()), ("#Strings", b"\0ok\0")]);
    for len in 0..full.len() {
        let _ = Metadata::parse(&full[..len]);
        let _ = Metadata::parse_with(&full[..len], Strictness::Strict);
    }
}

#[test]
fn a_wrong_signature_is_rejected() {
    assert_eq!(Metadata::parse(b"NOPE").unwrap_err().kind, ErrorKind::Malformed);
}
