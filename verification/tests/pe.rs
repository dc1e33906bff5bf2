//! The PE container.
use cildec::{CliFlags, ErrorKind, PeImage, Section, Strictness};

fn section(va: u32, vsize: u32, ptr: u32, rsize: u32) -> Section {
    Section {
        name_bytes: *b".text\0\0\0",
        virtual_size: vsize,
        virtual_address: va,
        size_of_raw_data: rsize,
        pointer_to_raw_data: ptr,
        characteristics: 0,
    }
}

fn image(bytes: &[u8], sections: Vec<Section>) -> PeImage<'_> {
    PeImage {
        bytes,
        strictness: Strictness::Permissive,
        diagnostics: Vec::new(),
        machine: 0x14C,
        characteristics: 0,
        is_pe32_plus: false,
        image_base: 0x400000,
        section_alignment: 0x2000,
        file_alignment: 0x200,
        size_of_image: 0x4000,
        size_of_headers: 0x200,
        subsystem: 3,
        dll_characteristics: 0,
        entry_point_rva: 0,
        data_directories: Vec::new(),
        sections,
    }
}

#[test]
fn rva_translation_respects_raw_size() {
    let bytes = [0u8; 0x600];
    let img = image(&bytes, vec![section(0x2000, 0x400, 0x200, 0x200)]);
    assert_eq!(img.rva_to_offset(0x2000), Some(0x200));
    assert_eq!(img.rva_to_offset(0x21FF), Some(0x3FF));
    // Mapped by VirtualSize but not backed by raw bytes.
    assert_eq!(img.rva_to_offset(0x2200), None);
    // Outside every section.
    assert_eq!(img.rva_to_offset(0x9000), None);
    // Inside the headers.
    assert_eq!(img.rva_to_offset(0x80), Some(0x80));
}

#[test]
fn rva_slice_is_bounded_by_the_section() {
    let bytes = [0u8; 0x600];
    let img = image(&bytes, vec![section(0x2000, 0x400, 0x200, 0x200)]);
    assert_eq!(img.rva_available(0x2100), Some(0x100));
    assert!(img.rva_slice(0x2100, 0x100).is_ok());
    assert_eq!(img.rva_slice(0x2100, 0x101).unwrap_err().kind, ErrorKind::OutOfRange);
}

#[test]
fn zero_virtual_size_falls_back_to_raw_size() {
    let bytes = [0u8; 0x600];
    let img = image(&bytes, vec![section(0x2000, 0, 0x200, 0x200)]);
    assert_eq!(img.rva_to_offset(0x2000), Some(0x200));
    assert_eq!(img.rva_to_offset(0x2200), None);
}

#[test]
fn garbage_is_rejected_without_panicking() {
    for len in 0..80usize {
        let bytes = vec![0x4Du8; len];
        let _ = PeImage::parse(&bytes);
    }
    assert!(PeImage::parse(b"not a pe").is_err());
    assert!(PeImage::parse(&[]).is_err());
}

#[test]
fn cli_flags_decode() {
    let f = CliFlags(0x0002_0001);
    assert!(f.il_only());
    assert!(f.prefers_32bit());
    assert!(!f.requires_32bit());
    assert!(!f.native_entry_point());
}
