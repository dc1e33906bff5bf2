//! What holds of the decoders for every input, on concrete ones.

use cildec::compressed::{read_i32, read_u32, write_u32};
use cildec::il::{decode_at, same_operand, ALL_OPCODES};
use cildec::signature::element_type as et;
use cildec::{
    BlobHeap, BlobIndex, ErrorKind, ExceptionHandler, FoldedIter, HandlerKind, InstructionIter,
    LocalVarSig, MethodBody, MethodSig, OpCode, Operand, PropertySig, SignatureOptions, Strictness,
    StringIndex, StringsHeap, TableId, Tables, Token, TypeSpecSig, UserStringsHeap,
};

#[test]
fn a_compressed_integer_reads_back_whatever_follows() {
    for value in [0u32, 0x7F, 0x80, 0x3FFF, 0x4000, 0x1FFF_FFFF] {
        let mut out = [0u8; 4];
        let n = write_u32(value, &mut out).unwrap();
        let mut bytes = out[..n].to_vec();
        bytes.extend_from_slice(&[0xFF, 0xFF, 0xFF]);
        assert_eq!(read_u32(&bytes).unwrap(), (value, n));
    }
    // Signed values, from their rotated forms.
    assert_eq!(read_i32(&[0x7F, 0xAA]).unwrap(), (-1, 1));
    assert_eq!(read_i32(&[0x80, 0x80, 0xAA]).unwrap(), (64, 2));
}

#[test]
fn heap_entries_read_back() {
    let heap = BlobHeap::new(&[0, 2, 0xAA, 0xBB, 1, 0xCC], 0x10);
    assert_eq!(heap.get_with_size(BlobIndex(1)).unwrap(), (&[0xAA, 0xBB][..], 3));
    assert_eq!(heap.get_with_size(BlobIndex(4)).unwrap(), (&[0xCC][..], 2));
    assert_eq!(heap.body_offset(BlobIndex(1)).unwrap(), 0x12);
    let heap = StringsHeap::new(b"\0one\0two", 0);
    assert_eq!(heap.bytes(StringIndex(1)).unwrap(), b"one");
    assert_eq!(heap.bytes(StringIndex(5)).unwrap(), b"two");
    let heap = UserStringsHeap::new(&[3, 0x41, 0x00, 0x00], 0);
    assert_eq!(heap.get_at(0).unwrap().to_string_lossy(), "A");
}

#[test]
fn every_opcode_decodes_from_its_own_bytes() {
    for op in ALL_OPCODES {
        let info = op.info();
        let mut bytes = info.encoding[..usize::from(info.size)].to_vec();
        bytes.push(0x77);
        let (decoded, size) = OpCode::from_bytes(&bytes).unwrap();
        assert_eq!(decoded, op);
        assert_eq!(size, usize::from(info.size));
        let general = op.canonical();
        assert_eq!(general.canonical(), general);
        assert_eq!(general.info().pop, info.pop);
        assert_eq!(general.info().push, info.push);
    }
}

#[test]
fn instructions_tile_the_code() {
    // nop; ldc.i4.s -1; volatile. ldfld; ret
    let code = [0x00, 0x1F, 0xFF, 0xFE, 0x13, 0x7B, 1, 0, 0, 4, 0x2A];
    let mut it = InstructionIter::new(&code);
    let mut at = 0;
    while let Some(item) = it.next() {
        let instruction = item.unwrap();
        assert_eq!(instruction.offset, at);
        let again = decode_at(&code, at).unwrap();
        assert!(same_operand(&again.operand, &instruction.operand));
        at += instruction.size;
    }
    assert_eq!(at as usize, code.len());
    let mut it = FoldedIter::new(&code);
    let mut at = 0;
    let mut count = 0;
    while let Some(item) = it.next() {
        let folded = item.unwrap();
        assert_eq!(folded.first_offset, at);
        assert!(!folded.instruction.opcode.is_prefix());
        at = folded.end_offset();
        count += 1;
    }
    assert_eq!((at as usize, count), (code.len(), 4));
}

#[test]
fn operands_are_equal_bit_by_bit() {
    // ldc.r4 with a NaN.
    let a = decode_at(&[0x22, 0x01, 0x00, 0xC0, 0x7F], 0).unwrap();
    let b = decode_at(&[0x22, 0x01, 0x00, 0xC0, 0x7F], 0).unwrap();
    assert_eq!(a.operand, Operand::R32(0x7FC0_0001));
    assert!(same_operand(&a.operand, &b.operand));
    assert!(f32::from_bits(0x7FC0_0001).is_nan());
    assert!(!same_operand(&Operand::R32(0), &Operand::R32(0x8000_0000)));
    assert!(!same_operand(&Operand::Switch(vec![1, 2]), &Operand::Switch(vec![1, 3])));
    assert!(same_operand(&Operand::Switch(vec![1, 2]), &Operand::Switch(vec![1, 2])));
    assert!(!same_operand(&Operand::Var(1), &Operand::I32(1)));
    assert_eq!(
        decode_at(&[0x23, 0, 0, 0, 0, 0, 0, 0xF0, 0x3F], 0).unwrap().operand,
        Operand::R64(1.0f64.to_bits())
    );
}

fn handler(
    kind: HandlerKind,
    try_block: (u32, u32),
    handler_block: (u32, u32),
) -> ExceptionHandler {
    ExceptionHandler {
        kind,
        try_offset: try_block.0,
        try_length: try_block.1,
        handler_offset: handler_block.0,
        handler_length: handler_block.1,
        raw_flags: 0,
    }
}

#[test]
fn handlers_are_valid_exactly_when_placed_well() {
    let bytes = [0x52u8; 21];
    let mut body = MethodBody::parse(&bytes, 0).unwrap();
    assert_eq!(body.code_size(), 20);
    let verdict = |body: &MethodBody<'_>| {
        body.validate_handlers().map_err(|e| (e.kind, e.offset, e.context))
    };
    body.exception_handlers = vec![
        handler(HandlerKind::Finally, (0, 8), (8, 4)),
        handler(HandlerKind::Catch(Token(0x0100_0001)), (2, 2), (4, 2)),
    ];
    assert_eq!(verdict(&body), Ok(()));
    body.exception_handlers = vec![handler(HandlerKind::Fault, (0, 8), (18, 4))];
    assert_eq!(verdict(&body), Err((ErrorKind::OutOfRange, Some(0), "exception handler")));
    body.exception_handlers = vec![handler(HandlerKind::Fault, (0, 0), (8, 4))];
    assert_eq!(verdict(&body), Err((ErrorKind::Malformed, Some(0), "exception handler")));
    body.exception_handlers = vec![handler(HandlerKind::Fault, (0, 8), (4, 2))];
    assert_eq!(verdict(&body), Err((ErrorKind::Malformed, Some(0), "exception handler")));
    let filter = HandlerKind::Filter { filter_offset: 30 };
    body.exception_handlers = vec![handler(filter, (0, 8), (12, 2))];
    assert_eq!(verdict(&body), Err((ErrorKind::OutOfRange, Some(0), "exception filter")));
    let filter = HandlerKind::Filter { filter_offset: 12 };
    body.exception_handlers = vec![handler(filter, (0, 8), (12, 2))];
    assert_eq!(verdict(&body), Err((ErrorKind::Malformed, Some(0), "exception filter")));
    body.exception_handlers = vec![
        handler(HandlerKind::Finally, (0, 8), (16, 4)),
        handler(HandlerKind::Finally, (4, 8), (12, 2)),
    ];
    assert_eq!(verdict(&body), Err((ErrorKind::Malformed, Some(0), "exception handler nesting")));
}

#[test]
fn offsets_ascend_and_are_the_boundaries() {
    // br +0; nop; ret
    let mut bytes = vec![(7 << 2) | 2];
    bytes.extend_from_slice(&[0x38, 0, 0, 0, 0, 0x00, 0x2A]);
    let body = MethodBody::parse(&bytes, 0).unwrap();
    assert_eq!(body.instruction_offsets(), vec![0, 5, 6]);
    for offset in 0..8 {
        assert_eq!(body.is_instruction_boundary(offset), [0, 5, 6].contains(&offset));
    }
}

#[test]
fn parsed_types_nest_within_the_limit() {
    let blob = [et::SZARRAY, et::PTR, et::I4];
    for limit in 0..3 {
        let options = SignatureOptions { recursion_limit: limit };
        let e = TypeSpecSig::parse_with(&blob, options).unwrap_err();
        assert_eq!((e.kind, e.offset), (ErrorKind::RecursionLimit, Some(limit as usize)));
    }
    let options = SignatureOptions { recursion_limit: 3 };
    let tight = TypeSpecSig::parse_with(&blob, options).unwrap();
    assert_eq!(tight.type_, TypeSpecSig::parse(&blob).unwrap().type_);
    // A pinned type inside another, a sentinel and an internal handle.
    let nested = [et::PINNED, et::PTR, et::PINNED, et::I4];
    assert_eq!(TypeSpecSig::parse(&nested).unwrap_err().kind, ErrorKind::Malformed);
    assert_eq!(TypeSpecSig::parse(&[et::SENTINEL]).unwrap_err().kind, ErrorKind::Malformed);
    assert_eq!(TypeSpecSig::parse(&[et::INTERNAL]).unwrap_err().kind, ErrorKind::Unsupported);
}

#[test]
fn a_method_signature_keeps_its_own_bytes() {
    let blob = [0x00, 0x01, et::VOID, et::I4, 0xEE, 0xEE];
    assert_eq!(MethodSig::parse(&blob).unwrap().raw, &blob[..4]);
    let sig = PropertySig::parse(&[0x08, 0x00, et::I4]).unwrap();
    assert!(!sig.has_this);
    assert!(sig.params.is_empty());
    // A local is pinned by itself, never by its type.
    let e = LocalVarSig::parse(&[0x07, 0x01, et::BYREF, et::PINNED, et::I4]).unwrap_err();
    assert_eq!((e.kind, e.offset), (ErrorKind::Malformed, Some(5)));
}

#[test]
fn clones_are_equal() {
    let blob = [0x00, 0x01, et::VOID, et::GENERICINST, et::CLASS, 0x05, 0x01, et::I4];
    let sig = MethodSig::parse(&blob).unwrap();
    assert_eq!(sig.clone(), sig);
}

#[test]
fn metadata_does_not_depend_on_where_it_lies() {
    let mut stream = vec![0, 0, 0, 0, 2, 0, 0, 1];
    stream.extend_from_slice(&1u64.to_le_bytes());
    stream.extend_from_slice(&0u64.to_le_bytes());
    stream.extend_from_slice(&1u32.to_le_bytes());
    stream.extend_from_slice(&[0; 10]);
    let mut notes = Vec::new();
    let here = Tables::parse(&stream, 0, false, Strictness::Strict, &mut notes).unwrap();
    let there = Tables::parse(&stream, 0x400, false, Strictness::Permissive, &mut notes).unwrap();
    assert!(notes.is_empty());
    assert_eq!(here.row_count(TableId::Module), 1);
    assert_eq!(there.row_count(TableId::Module), 1);
    assert_eq!(
        here.row_bytes(TableId::Module, 1).unwrap(),
        there.row_bytes(TableId::Module, 1).unwrap()
    );
    // Only offsets in errors move.
    let e = Tables::parse(&stream[..20], 0, false, Strictness::Strict, &mut notes).unwrap_err();
    let f = Tables::parse(&stream[..20], 0x400, false, Strictness::Strict, &mut notes).unwrap_err();
    assert_eq!(e.rebase(0x400), f);
}
