//! What is tolerated and noted, and what is rejected all the same.

use cildec::body::read_clause;
use cildec::reader::Reader;
use cildec::{
    DiagnosticCode, ErrorKind, ExceptionHandler, FoldedIter, HandlerKind, LocalVarSig, Metadata,
    MethodBody, MethodSig, Names, PropertySig, Rid, Strictness, StringsHeap, TableId, Tables, Token,
    Type, TypeSpecSig,
};

/// A metadata root with the version string `v1` and one entry of the stream
/// directory, which ends with `name`.
fn region(name: &[u8]) -> Vec<u8> {
    let mut out = vec![
        0x42, 0x53, 0x4A, 0x42, 1, 0, 1, 0, 0, 0, 0, 0, 4, 0, 0, 0, 0x76, 0x31, 0, 0, 0, 0, 1, 0,
    ];
    out.extend_from_slice(&[0; 8]);
    out.extend_from_slice(name);
    out
}

#[test]
fn a_stream_name_without_its_padding_is_noted() {
    for name in [&b"#\0"[..], b"#\0\0", b"#"] {
        let bytes = region(name);
        let md = Metadata::parse(&bytes).unwrap();
        assert_eq!(md.streams().len(), 1);
        assert_eq!(md.streams()[0].name_bytes, b"#");
        assert_eq!(md.diagnostics().len(), 1);
        let note = md.diagnostics()[0];
        assert_eq!(note.code, DiagnosticCode::StreamNamePadding);
        assert_eq!(note.offset, Some(32));
        assert_eq!(note.detail, name.len() as u64);
        assert!(Metadata::parse_with(&bytes, Strictness::Strict).is_err());
    }
    let bytes = region(b"#\0\0\0");
    assert!(Metadata::parse(&bytes).unwrap().diagnostics().is_empty());
    let e = Metadata::parse_with(&region(b"#\0"), Strictness::Strict).unwrap_err();
    assert_eq!((e.kind, e.offset), (ErrorKind::OutOfRange, Some(32)));
}

#[test]
fn offsets_count_from_where_the_region_starts() {
    let bytes = region(b"#\0");
    let md = Metadata::parse_at(&bytes, 0x1000, Strictness::Permissive).unwrap();
    assert_eq!(md.diagnostics()[0].offset, Some(0x1020));
    assert_eq!(md.diagnostics()[0].detail, 2);
    let e = Metadata::parse_at(&bytes, 0x1000, Strictness::Strict).unwrap_err();
    assert_eq!((e.kind, e.offset), (ErrorKind::OutOfRange, Some(0x1020)));
}

/// A fat header for four bytes of code, with sections behind it.
fn with_sections(sections: &[u8]) -> Vec<u8> {
    let mut out = vec![0x0B, 0x30, 8, 0, 4, 0, 0, 0, 0, 0, 0, 0, 0x00, 0x00, 0x00, 0x2A];
    out.extend_from_slice(sections);
    out
}

#[test]
fn a_clause_of_no_known_kind_is_left_out() {
    for kind in [3u8, 5, 6, 7] {
        let mut section = vec![1, 28, 0, 0];
        section.extend_from_slice(&[kind, 0, 0, 0, 1, 1, 0, 1, 0, 0, 0, 0]);
        section.extend_from_slice(&[2, 0, 0, 0, 1, 1, 0, 1, 0, 0, 0, 0]);
        let bytes = with_sections(&section);
        let body = MethodBody::parse(&bytes, 0).unwrap();
        assert_eq!(body.code, &[0x00, 0x00, 0x00, 0x2A]);
        assert_eq!(body.exception_handlers.len(), 1);
        assert_eq!(body.exception_handlers[0].kind, HandlerKind::Finally);
        assert_eq!(body.diagnostics().len(), 1);
        assert_eq!(body.diagnostics()[0].code, DiagnosticCode::EhSectionSize);
        assert_eq!(body.diagnostics()[0].offset, Some(20));
        assert_eq!(body.diagnostics()[0].detail, u64::from(kind));
        let e = MethodBody::parse_with(&bytes, 0, Strictness::Strict).unwrap_err();
        assert_eq!((e.kind, e.offset), (ErrorKind::Malformed, Some(20)));
        assert_eq!(e.context, "exception clause");
    }
}

#[test]
fn a_section_that_is_cut_off_is_left_out() {
    for (sections, at) in [(&[][..], 16), (&[1], 17), (&[1, 16], 18), (&[0x41, 28, 0], 17)] {
        let bytes = with_sections(sections);
        let body = MethodBody::parse(&bytes, 0).unwrap();
        assert_eq!(body.code, &[0x00, 0x00, 0x00, 0x2A]);
        assert!(body.exception_handlers.is_empty());
        assert_eq!(body.total_size, 16);
        assert_eq!(body.diagnostics().len(), 1);
        assert_eq!(body.diagnostics()[0].code, DiagnosticCode::EhSectionSize);
        assert_eq!(body.diagnostics()[0].offset, Some(16));
        assert_eq!(body.diagnostics()[0].detail, sections.len() as u64);
        let e = MethodBody::parse_with(&bytes, 0, Strictness::Strict).unwrap_err();
        assert_eq!((e.kind, e.offset), (ErrorKind::Truncated, Some(at)));
    }
}

#[test]
fn both_forms_of_a_clause_decode_to_one_handler() {
    let expected = ExceptionHandler {
        kind: HandlerKind::Catch(Token(0x0100_0002)),
        try_offset: 0,
        try_length: 1,
        handler_offset: 1,
        handler_length: 2,
        raw_flags: 0,
    };
    let small = with_sections(&[1, 16, 0, 0, 0, 0, 0, 0, 1, 1, 0, 2, 2, 0, 0, 1]);
    let mut section = vec![0x41, 28, 0, 0];
    for number in [0u32, 0, 1, 1, 2, 0x0100_0002] {
        section.extend_from_slice(&number.to_le_bytes());
    }
    let fat = with_sections(&section);
    for bytes in [small, fat] {
        let body = MethodBody::parse(&bytes, 0).unwrap();
        assert_eq!(body.exception_handlers, vec![expected]);
        assert!(body.diagnostics().is_empty());
    }
}

#[test]
fn an_array_may_have_dimensions_without_sizes_or_bounds() {
    let sig = TypeSpecSig::parse(&[0x14, 0x08, 0x05, 0x00, 0x00]).unwrap();
    match sig.type_ {
        Type::Array(element, shape) => {
            assert_eq!(*element, Type::I4);
            assert_eq!(shape.rank, 5);
            assert!(shape.sizes.is_empty() && shape.lo_bounds.is_empty());
        }
        other => panic!("unexpected {other:?}"),
    }
}

#[test]
fn arrays_have_no_primitive_width() {
    let inner = || Box::new(Type::I4);
    assert_eq!(Type::SzArray(vec![], inner()).primitive_width(64), None);
    let shape = cildec::ArrayShape { rank: 2, sizes: vec![], lo_bounds: vec![] };
    assert_eq!(Type::Array(inner(), shape).primitive_width(64), None);
    assert_eq!(Type::Ptr(vec![], inner()).primitive_width(64), Some(64));
}

#[test]
fn a_pinned_type_inside_a_pinned_local_is_rejected() {
    let e = LocalVarSig::parse(&[0x07, 0x01, 0x45, 0x0F, 0x45, 0x08]).unwrap_err();
    assert_eq!((e.kind, e.offset), (ErrorKind::Malformed, Some(4)));
    let sig = LocalVarSig::parse(&[0x07, 0x02, 0x45, 0x0F, 0x08, 0x0F, 0x45, 0x08]).unwrap();
    assert!(sig.locals[0].pinned && !sig.locals[1].pinned);
}

#[test]
fn only_a_convention_that_takes_varargs_has_a_sentinel() {
    for convention in [0x00u8, 0x02, 0x03, 0x04, 0x09, 0x20] {
        let e = MethodSig::parse(&[convention, 0x01, 0x01, 0x41, 0x08]).unwrap_err();
        assert_eq!((e.kind, e.offset), (ErrorKind::Malformed, Some(3)));
    }
    for convention in [0x05u8, 0x0B, 0x25, 0x01] {
        let blob = [convention, 0x01, 0x01, 0x41, 0x08];
        let sig = MethodSig::parse(&blob).unwrap();
        assert_eq!((sig.params.len(), sig.vararg_params.len()), (0, 1));
        assert_eq!(sig.vararg_params[0].type_, Type::I4);
    }
}

#[test]
fn only_a_return_type_is_void() {
    let e = MethodSig::parse(&[0x00, 0x01, 0x08, 0x01]).unwrap_err();
    assert_eq!((e.kind, e.offset), (ErrorKind::Malformed, Some(3)));
    let e = MethodSig::parse(&[0x05, 0x02, 0x01, 0x08, 0x41, 0x01]).unwrap_err();
    assert_eq!((e.kind, e.offset), (ErrorKind::Malformed, Some(5)));
    let e = PropertySig::parse(&[0x08, 0x01, 0x08, 0x01]).unwrap_err();
    assert_eq!((e.kind, e.offset), (ErrorKind::Malformed, Some(3)));
    let e = MethodSig::parse(&[0x00, 0x01, 0x08, 0x10, 0x01]).unwrap_err();
    assert_eq!((e.kind, e.offset), (ErrorKind::Malformed, Some(4)));
    // A pointer to void is a parameter like any other.
    assert!(MethodSig::parse(&[0x00, 0x01, 0x01, 0x0F, 0x01]).is_ok());
}

#[test]
fn an_unaligned_prefix_declares_an_alignment() {
    for byte in [1u8, 2, 4] {
        let code = [0xFE, 0x12, byte, 0x46];
        let folded = FoldedIter::new(&code).next().unwrap().unwrap();
        assert_eq!(folded.prefixes.unaligned, Some(byte));
        assert_ne!(folded.first_offset, folded.instruction.offset);
    }
    for byte in [0u8, 3, 5, 0xFF] {
        let code = [0x00, 0xFE, 0x12, byte, 0x46];
        let mut it = FoldedIter::new(&code);
        let plain = it.next().unwrap().unwrap();
        assert!(plain.prefixes.is_empty());
        assert_eq!(plain.first_offset, plain.instruction.offset);
        let e = it.next().unwrap().unwrap_err();
        assert_eq!((e.kind, e.offset), (ErrorKind::Malformed, Some(1)));
        assert!(it.next().is_none());
    }
}

#[test]
fn only_tables_with_a_sort_key_count_as_sorted() {
    let tables = Tables::empty();
    for id in TableId::ALL {
        assert_eq!(tables.is_sorted(id), tables.sort_key_column(id).is_some());
    }
    assert!(!tables.is_sorted(TableId::TypeDef));
    assert!(tables.is_sorted(TableId::InterfaceImpl));
}

#[test]
fn clamping_never_adds_rows() {
    // Two TypeRef rows of 6 bytes and one ModuleRef row of 2, over 10 bytes.
    let mut data = vec![0, 0, 0, 0, 2, 0, 0, 1];
    data.extend_from_slice(&(1u64 << 1 | 1u64 << 0x1A).to_le_bytes());
    data.extend_from_slice(&0u64.to_le_bytes());
    data.extend_from_slice(&2u32.to_le_bytes());
    data.extend_from_slice(&1u32.to_le_bytes());
    data.extend_from_slice(&[0; 10]);
    let mut notes = Vec::new();
    let tables = Tables::parse(&data, 0, false, Strictness::Permissive, &mut notes).unwrap();
    assert_eq!(tables.row_count(TableId::TypeRef), 1);
    assert_eq!(tables.row_count(TableId::ModuleRef), 1);
    assert!(notes.iter().any(|d| d.code == DiagnosticCode::StreamRangeClamped));
}

/// A region with one row, of `table`, and a `#Strings` heap of five bytes that
/// holds `abc` at 1.
fn one_row(table: TableId, row: &[u8]) -> Vec<u8> {
    let mut stream = vec![0, 0, 0, 0, 2, 0, 0, 1];
    stream.extend_from_slice(&(1u64 << table.to_u8()).to_le_bytes());
    stream.extend_from_slice(&0u64.to_le_bytes());
    stream.extend_from_slice(&1u32.to_le_bytes());
    stream.extend_from_slice(row);
    let mut out = region(b"#~\0\0");
    out[22] = 2;
    out[24..28].copy_from_slice(&56u32.to_le_bytes());
    out[28..32].copy_from_slice(&(stream.len() as u32).to_le_bytes());
    out.extend_from_slice(&(56 + stream.len() as u32).to_le_bytes());
    out.extend_from_slice(&5u32.to_le_bytes());
    out.extend_from_slice(b"#Strings\0\0\0\0");
    out.extend_from_slice(&stream);
    out.extend_from_slice(b"\0abc\0");
    out
}

#[test]
fn a_name_that_cannot_be_read_fails() {
    let token = Token::new(TableId::ModuleRef, 1);
    let bytes = one_row(TableId::ModuleRef, &[1, 0]);
    let md = Metadata::parse(&bytes).unwrap();
    assert_eq!(Names::new(&md).try_token(token).unwrap(), "[.module abc]");
    let bytes = one_row(TableId::ModuleRef, &[99, 0]);
    let md = Metadata::parse(&bytes).unwrap();
    let e = Names::new(&md).try_token(token).unwrap_err();
    assert_eq!((e.kind, e.context), (ErrorKind::OutOfRange, "#Strings"));
    assert_eq!(Names::new(&md).token(token), "ModuleRef[1]");
}

#[test]
fn a_type_name_with_an_unreadable_part_leaves_it_empty() {
    // A TypeRef without a scope: the name is unreadable, then the namespace.
    for (row, name) in [([0, 0, 99, 0, 1, 0], "abc."), ([0, 0, 1, 0, 99, 0], "abc")] {
        let bytes = one_row(TableId::TypeRef, &row);
        let md = Metadata::parse(&bytes).unwrap();
        let names = Names::new(&md);
        assert_eq!(names.type_ref(Rid::new(1)).unwrap(), name);
        let token = Token::new(TableId::TypeRef, 1);
        assert_eq!(names.try_token(token).unwrap_err().kind, ErrorKind::OutOfRange);
        assert_eq!(names.token(token), "TypeRef[1]");
    }
    // Flags, Name, Namespace, Extends, FieldList, MethodList.
    for (name, space, text) in [(99, 1, "abc."), (1, 99, "abc")] {
        let row = [0, 0, 0, 0, name, 0, space, 0, 0, 0, 1, 0, 1, 0];
        let bytes = one_row(TableId::TypeDef, &row);
        let md = Metadata::parse(&bytes).unwrap();
        let names = Names::new(&md);
        assert_eq!(names.type_def(Rid::new(1)).unwrap(), text);
        let token = Token::new(TableId::TypeDef, 1);
        assert_eq!(names.try_token(token).unwrap_err().kind, ErrorKind::OutOfRange);
        assert_eq!(names.token(token), "TypeDef[1]");
        assert!(names.type_def(Rid::new(2)).is_err());
    }
}

#[test]
fn a_cut_off_clause_fails_at_its_first_missing_field() {
    let small = [2, 0, 0, 0, 1, 1, 0, 1, 0, 0, 0, 0];
    for (len, at) in [(0, 0), (1, 0), (2, 2), (4, 4), (6, 5), (7, 7), (8, 8), (11, 8)] {
        let e = read_clause(&small[..len], false, 0x40).unwrap_err();
        assert_eq!((e.kind, e.offset), (ErrorKind::Truncated, Some(0x40 + at)));
    }
    assert_eq!(read_clause(&small, false, 0x40).unwrap().kind, HandlerKind::Finally);
    for len in 0..24 {
        let e = read_clause(&[0; 24][..len], true, 0x40).unwrap_err();
        assert_eq!((e.kind, e.offset), (ErrorKind::Truncated, Some(0x40 + len / 4 * 4)));
    }
    assert_eq!(read_clause(&[0; 24], true, 0x40).unwrap().kind, HandlerKind::Catch(Token(0)));
    let e = read_clause(&[3; 12], false, 0x40).unwrap_err();
    assert_eq!((e.kind, e.offset), (ErrorKind::Malformed, Some(0x40)));
    assert_eq!(e.context, "exception clause");
}

#[test]
fn alignment_before_its_origin_moves_nothing() {
    let data = [0u8; 16];
    let mut r = Reader::new(&data, 0, "test");
    r.skip(3).unwrap();
    r.align_to(8, 4).unwrap();
    assert_eq!(r.position(), 3);
    r.align_to(1, 4).unwrap();
    assert_eq!(r.position(), 5);
}

#[test]
fn strings_tile_their_heap() {
    for data in [&b"\0one\0two\0"[..], b"\0one\0two", b"", b"\0"] {
        let heap = StringsHeap::new(data, 0);
        let mut it = heap.iter();
        let mut spelled = Vec::new();
        while let Some((index, bytes)) = it.next() {
            assert_eq!(index.0 as usize, spelled.len());
            spelled.extend_from_slice(bytes);
            spelled.push(0);
        }
        if data.last() == Some(&0) || data.is_empty() {
            assert_eq!(spelled, data);
        } else {
            assert_eq!(&spelled[..spelled.len() - 1], data);
        }
    }
}
