//! Method bodies.
use cildec::body::partially_overlaps;
use cildec::{DiagnosticCode, ErrorKind, HandlerKind, HeaderKind, MethodBody, Strictness, Token};

fn tiny(code: &[u8]) -> Vec<u8> {
    let mut out = vec![((code.len() as u8) << 2) | 0x02];
    out.extend_from_slice(code);
    out
}

fn fat(code: &[u8], flags: u16, sections: &[u8]) -> Vec<u8> {
    let mut out = Vec::new();
    out.extend_from_slice(&((3u16 << 12) | flags | 0x0003).to_le_bytes());
    out.extend_from_slice(&8u16.to_le_bytes());
    out.extend_from_slice(&(code.len() as u32).to_le_bytes());
    out.extend_from_slice(&0x1100_0001u32.to_le_bytes());
    out.extend_from_slice(code);
    while out.len() % 4 != 0 {
        out.push(0);
    }
    out.extend_from_slice(sections);
    out
}

#[test]
fn parses_a_tiny_header() {
    let body = tiny(&[0x00, 0x2A]);
    let parsed = MethodBody::parse(&body, 0x2000).unwrap();
    assert_eq!(parsed.kind, HeaderKind::Tiny);
    assert_eq!(parsed.max_stack, 8);
    assert_eq!(parsed.code, &[0x00, 0x2A]);
    assert_eq!(parsed.code_rva, 0x2001);
    assert_eq!(parsed.local_var_sig, None);
    assert_eq!(parsed.total_size, 3);
    assert!(parsed.exception_handlers.is_empty());
}

#[test]
fn a_tiny_body_can_be_the_maximum_63_bytes() {
    let code = vec![0u8; 63];
    let body = tiny(&code);
    assert_eq!(MethodBody::parse(&body, 0).unwrap().code.len(), 63);
}

#[test]
fn parses_a_fat_header() {
    let body = fat(&[0x2A], 0x0010, &[]);
    let parsed = MethodBody::parse(&body, 0x2000).unwrap();
    assert_eq!(parsed.kind, HeaderKind::Fat);
    assert!(parsed.flags.init_locals());
    assert!(!parsed.flags.more_sects());
    assert_eq!(parsed.code, &[0x2A]);
    assert_eq!(parsed.code_rva, 0x200C);
    assert_eq!(parsed.local_var_sig, Some(Token(0x1100_0001)));
    assert_eq!(parsed.header_dwords, 3);
}

#[test]
fn parses_a_small_exception_section() {
    // One finally clause over the whole 8-byte body.
    let mut section = vec![0x01u8, 4 + 12, 0, 0];
    section.extend_from_slice(&0x0002u16.to_le_bytes()); // Finally
    section.extend_from_slice(&0u16.to_le_bytes()); // TryOffset
    section.push(4); // TryLength
    section.extend_from_slice(&4u16.to_le_bytes()); // HandlerOffset
    section.push(4); // HandlerLength
    section.extend_from_slice(&0u32.to_le_bytes());
    let body = fat(&[0x00; 8], 0x0008, &section);
    let parsed = MethodBody::parse(&body, 0).unwrap();
    assert_eq!(parsed.exception_handlers.len(), 1);
    let h = parsed.exception_handlers[0];
    assert_eq!(h.kind, HandlerKind::Finally);
    assert_eq!((h.try_offset, h.try_length), (0, 4));
    assert_eq!((h.handler_offset, h.handler_length), (4, 4));
    parsed.validate_handlers().unwrap();
}

#[test]
fn parses_a_fat_exception_section_and_chained_sections() {
    let mut section = vec![0x41u8 | 0x80]; // EHTable | FatFormat | MoreSects
    let size = 4u32 + 24;
    section.extend_from_slice(&size.to_le_bytes()[..3]);
    section.extend_from_slice(&0x0001u32.to_le_bytes()); // Filter
    section.extend_from_slice(&0u32.to_le_bytes());
    section.extend_from_slice(&4u32.to_le_bytes());
    section.extend_from_slice(&8u32.to_le_bytes());
    section.extend_from_slice(&4u32.to_le_bytes());
    section.extend_from_slice(&4u32.to_le_bytes()); // FilterOffset
    // A second, non-EH section.
    section.extend_from_slice(&[0x02, 4 + 4, 0, 0, 0xDE, 0xAD, 0xBE, 0xEF]);

    let body = fat(&[0x00; 12], 0x0008, &section);
    let parsed = MethodBody::parse(&body, 0).unwrap();
    assert_eq!(parsed.exception_handlers.len(), 1);
    assert_eq!(parsed.exception_handlers[0].kind, HandlerKind::Filter { filter_offset: 4 });
    assert_eq!(parsed.unknown_sections.len(), 1);
    assert_eq!(parsed.unknown_sections[0].data, &[0xDE, 0xAD, 0xBE, 0xEF]);
    parsed.validate_handlers().unwrap();
}

#[test]
fn a_section_size_that_omits_its_own_header_is_recovered() {
    // II.25.4.5 defines DataSize as n*12+4, counting the section
    // header. Some Visual Basic compilers wrote n*12, which drops the last
    // clause of every section. Two clauses, declared as 24 rather than 28.
    let mut section = vec![0x01u8, 24, 0, 0];
    for (flags, try_offset, try_length, handler_offset, handler_length) in
        [(0x0000u16, 0u16, 8u8, 8u16, 4u8), (0x0002, 0, 12, 12, 4)]
    {
        section.extend_from_slice(&flags.to_le_bytes());
        section.extend_from_slice(&try_offset.to_le_bytes());
        section.push(try_length);
        section.extend_from_slice(&handler_offset.to_le_bytes());
        section.push(handler_length);
        section.extend_from_slice(&0u32.to_le_bytes());
    }
    let body = fat(&[0x00; 16], 0x0008, &section);

    let parsed = MethodBody::parse(&body, 0).unwrap();
    assert_eq!(parsed.exception_handlers.len(), 2, "the second clause must survive");
    assert_eq!(parsed.exception_handlers[0].kind, HandlerKind::Catch(Token(0)));
    assert_eq!(parsed.exception_handlers[1].kind, HandlerKind::Finally);
    assert!(parsed.diagnostics().iter().any(|d| d.code == DiagnosticCode::EhSectionSize));
    parsed.validate_handlers().unwrap();

    // The format does not allow it, so strict mode refuses it.
    assert!(MethodBody::parse_with(&body, 0, Strictness::Strict).is_err());
}

#[test]
fn a_conforming_section_size_is_never_reinterpreted() {
    // A correct DataSize is n*12+4, which is congruent to 4 modulo 12 and
    // so can never be mistaken for the header-exclusive form. Check every
    // clause count that fits in the one-byte field.
    for count in 0..=20u8 {
        let declared = 4 + u32::from(count) * 12;
        let mut section = vec![0x01u8, declared as u8, 0, 0];
        for _ in 0..count {
            section.extend_from_slice(&0x0002u16.to_le_bytes());
            section.extend_from_slice(&0u16.to_le_bytes());
            section.push(4);
            section.extend_from_slice(&4u16.to_le_bytes());
            section.push(4);
            section.extend_from_slice(&0u32.to_le_bytes());
        }
        let body = fat(&[0x00; 8], 0x0008, &section);
        let parsed = MethodBody::parse(&body, 0).unwrap();
        assert_eq!(parsed.exception_handlers.len(), usize::from(count), "count {count}");
        assert!(
            parsed.diagnostics().is_empty(),
            "a conforming section must not be diagnosed, count {count}"
        );
    }
}

#[test]
fn validate_rejects_ranges_outside_the_code() {
    let mut section = vec![0x01u8, 4 + 12, 0, 0];
    section.extend_from_slice(&0x0002u16.to_le_bytes());
    section.extend_from_slice(&0u16.to_le_bytes());
    section.push(200); // TryLength past the end
    section.extend_from_slice(&4u16.to_le_bytes());
    section.push(4);
    section.extend_from_slice(&0u32.to_le_bytes());
    let body = fat(&[0x00; 8], 0x0008, &section);
    let parsed = MethodBody::parse(&body, 0).unwrap();
    // Parsing still succeeds so the code stays readable.
    assert_eq!(parsed.code.len(), 8);
    assert_eq!(parsed.validate_handlers().unwrap_err().kind, ErrorKind::OutOfRange);
}

#[test]
fn validate_rejects_partially_overlapping_try_blocks() {
    let mut section = vec![0x01u8, 4 + 24, 0, 0];
    for (try_offset, try_length, handler_offset) in [(0u16, 8u8, 8u16), (4, 8, 12)] {
        section.extend_from_slice(&0x0002u16.to_le_bytes());
        section.extend_from_slice(&try_offset.to_le_bytes());
        section.push(try_length);
        section.extend_from_slice(&handler_offset.to_le_bytes());
        section.push(4);
        section.extend_from_slice(&0u32.to_le_bytes());
    }
    let body = fat(&[0x00; 16], 0x0008, &section);
    let parsed = MethodBody::parse(&body, 0).unwrap();
    assert_eq!(parsed.exception_handlers.len(), 2);
    assert!(parsed.validate_handlers().is_err());
}

#[test]
fn a_fat_header_size_other_than_three_is_diagnosed() {
    let mut body = fat(&[0x2A], 0, &[]);
    body[1] = (body[1] & 0x0F) | 0x40; // header size 4 dwords
    let parsed = MethodBody::parse(&body, 0);
    // The declared size pushes the code start past the 1-byte body.
    assert!(parsed.is_err() || parsed.unwrap().header_dwords == 4);
    assert!(MethodBody::parse_with(&body, 0, Strictness::Strict).is_err());
}

#[test]
fn an_unknown_header_format_is_rejected() {
    assert_eq!(MethodBody::parse(&[0x00], 0).unwrap_err().kind, ErrorKind::Malformed);
    assert_eq!(MethodBody::parse(&[0x01], 0).unwrap_err().kind, ErrorKind::Malformed);
    assert_eq!(MethodBody::parse(&[], 0).unwrap_err().kind, ErrorKind::Truncated);
}

#[test]
fn every_truncation_of_a_body_errors_cleanly() {
    let mut section = vec![0x01u8, 4 + 12, 0, 0];
    section.extend_from_slice(&0x0002u16.to_le_bytes());
    section.extend_from_slice(&0u16.to_le_bytes());
    section.push(4);
    section.extend_from_slice(&4u16.to_le_bytes());
    section.push(4);
    section.extend_from_slice(&0u32.to_le_bytes());
    let body = fat(&[0x00; 8], 0x0008, &section);
    for len in 0..body.len() {
        let _ = MethodBody::parse(&body[..len], 0);
        let _ = MethodBody::parse_with(&body[..len], 0, Strictness::Strict);
    }
}

#[test]
fn overlap_helper_distinguishes_nesting_from_overlap() {
    assert!(!partially_overlaps(0, 10, 2, 5)); // nested
    assert!(!partially_overlaps(2, 5, 0, 10)); // nested the other way
    assert!(!partially_overlaps(0, 4, 4, 8)); // adjacent
    assert!(partially_overlaps(0, 6, 4, 10)); // straddling
}
