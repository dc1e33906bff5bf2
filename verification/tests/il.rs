//! The instruction decoder.
use cildec::il::{decode_at, ALL_OPCODES, OPCODE_COUNT};
use cildec::{
    ErrorKind, FlowControl, FoldedInstruction, FoldedIter, Instruction, InstructionIter, OpCode,
    Operand, Result, Token,
};

/// Every item of the raw instruction stream.
fn instructions(code: &[u8]) -> Vec<Result<Instruction>> {
    let mut it = InstructionIter::new(code);
    std::iter::from_fn(|| it.next()).collect()
}

/// Every item of the folded instruction stream.
fn folded(code: &[u8]) -> Vec<Result<FoldedInstruction>> {
    let mut it = FoldedIter::new(code);
    std::iter::from_fn(|| it.next()).collect()
}

#[test]
fn the_table_covers_every_defined_encoding() {
    let mut seen_one = 0usize;
    let mut seen_two = 0usize;
    for op in ALL_OPCODES {
        let info = op.info();
        // The enum discriminant must index its own row.
        assert_eq!(info.encoding[0], if info.size == 1 { info.encoding[0] } else { 0xFE });
        let bytes: &[u8] = if info.size == 1 {
            seen_one += 1;
            &info.encoding[..1]
        } else {
            seen_two += 1;
            &info.encoding[..2]
        };
        let (decoded, size) = OpCode::from_bytes(bytes).unwrap();
        assert_eq!(decoded, op, "round trip failed for {}", info.name);
        assert_eq!(size, usize::from(info.size));
    }
    assert_eq!(seen_one + seen_two, OPCODE_COUNT);
    assert_eq!(OPCODE_COUNT, 219);
}

#[test]
fn every_byte_either_decodes_or_is_reported_unknown() {
    for byte in 0u8..=0xFF {
        match OpCode::from_bytes(&[byte]) {
            Ok((op, size)) => {
                assert_eq!(size, 1);
                assert_eq!(op.info().encoding[0], byte);
                assert_eq!(op.info().size, 1);
                assert!(byte <= 0xE0, "{byte:#04x} is outside the one-byte range");
            }
            Err(e) if byte == 0xFE => assert_eq!(e.kind, ErrorKind::Truncated),
            Err(e) => assert_eq!(e.kind, ErrorKind::UnknownOpcode, "byte {byte:#04x}"),
        }
    }
    for byte in 0u8..=0xFF {
        match OpCode::from_bytes(&[0xFE, byte]) {
            Ok((op, size)) => {
                assert_eq!(size, 2);
                assert_eq!(op.info().encoding, [0xFE, byte]);
                assert!(byte <= 0x1E, "{byte:#04x} is outside the two-byte range");
            }
            Err(e) => {
                assert_eq!(e.kind, ErrorKind::UnknownOpcode);
                assert!(matches!(byte, 0x08 | 0x10 | 0x1B) || byte > 0x1E, "byte {byte:#04x}");
            }
        }
    }
}

#[test]
fn names_are_unique_and_lowercase() {
    let mut names: Vec<&str> = ALL_OPCODES.iter().map(|o| o.name()).collect();
    names.sort_unstable();
    let count = names.len();
    names.dedup();
    assert_eq!(names.len(), count, "duplicate opcode name");
    for op in ALL_OPCODES {
        let name = op.name();
        assert!(!name.is_empty());
        assert_eq!(name, name.to_ascii_lowercase());
    }
}

#[test]
fn canonical_maps_short_and_macro_forms() {
    assert_eq!(OpCode::Ldarg0.canonical(), OpCode::Ldarg);
    assert_eq!(OpCode::LdargS.canonical(), OpCode::Ldarg);
    assert_eq!(OpCode::Ldarg.canonical(), OpCode::Ldarg);
    assert_eq!(OpCode::LdcI4M1.canonical(), OpCode::LdcI4);
    assert_eq!(OpCode::LdcI48.canonical(), OpCode::LdcI4);
    assert_eq!(OpCode::LdcI4S.canonical(), OpCode::LdcI4);
    assert_eq!(OpCode::BrS.canonical(), OpCode::Br);
    assert_eq!(OpCode::BneUnS.canonical(), OpCode::BneUn);
    assert_eq!(OpCode::LeaveS.canonical(), OpCode::Leave);
    assert_eq!(OpCode::Stloc2.canonical(), OpCode::Stloc);
    assert_eq!(OpCode::Add.canonical(), OpCode::Add);
    // A canonical form is always its own canonical form.
    for op in ALL_OPCODES {
        assert_eq!(op.canonical().canonical(), op.canonical(), "{}", op.name());
    }
}

#[test]
fn macro_forms_carry_their_implied_operand() {
    // ldarg.2; ldloc.3; stloc.0; ldc.i4.m1; ldc.i4.8; ret
    let code = [0x04, 0x09, 0x0A, 0x15, 0x1E, 0x2A];
    let decoded: Vec<_> = instructions(&code).into_iter().map(|i| i.unwrap()).collect();
    assert_eq!(decoded[0].operand, Operand::Var(2));
    assert_eq!(decoded[1].operand, Operand::Var(3));
    assert_eq!(decoded[2].operand, Operand::Var(0));
    assert_eq!(decoded[3].operand, Operand::I32(-1));
    assert_eq!(decoded[4].operand, Operand::I32(8));
    assert_eq!(decoded[5].operand, Operand::Absent);
    assert!(decoded.iter().all(|i| i.size == 1));
}

#[test]
fn short_forms_are_widened() {
    // ldarg.s 3; ldc.i4.s -5; br.s +2; nop; nop
    let code = [0x0E, 0x03, 0x1F, 0xFB, 0x2B, 0x02, 0x00, 0x00];
    let decoded: Vec<_> = instructions(&code).into_iter().map(|i| i.unwrap()).collect();
    assert_eq!(decoded[0].operand, Operand::Var(3));
    assert_eq!(decoded[1].operand, Operand::I32(-5));
    assert_eq!(decoded[2].operand, Operand::BranchTarget(8));
    assert_eq!(decoded[2].opcode, OpCode::BrS);
}

#[test]
fn branch_targets_are_absolute() {
    // br +0 at offset 0 (5 bytes) -> target 5
    let code = [0x38, 0x00, 0x00, 0x00, 0x00, 0x2A];
    let i = decode_at(&code, 0).unwrap();
    assert_eq!(i.operand, Operand::BranchTarget(5));
    // A negative delta wraps backwards.
    let code = [0x00, 0x2B, 0xFD];
    let i = decode_at(&code, 1).unwrap();
    assert_eq!(i.operand, Operand::BranchTarget(0));
}

#[test]
fn switch_targets_are_absolute_and_bounded() {
    // switch (2) { +1, -1 }; nop; nop
    let mut code = vec![0x45u8];
    code.extend_from_slice(&2u32.to_le_bytes());
    code.extend_from_slice(&1i32.to_le_bytes());
    code.extend_from_slice(&(-1i32).to_le_bytes());
    code.push(0x00);
    let i = decode_at(&code, 0).unwrap();
    assert_eq!(i.size, 13);
    assert_eq!(i.operand, Operand::Switch(vec![14, 12]));

    // A count larger than the remaining code must not allocate.
    let mut bad = vec![0x45u8];
    bad.extend_from_slice(&0xFFFF_FFFFu32.to_le_bytes());
    assert_eq!(decode_at(&bad, 0).unwrap_err().kind, ErrorKind::Truncated);
}

#[test]
fn sizes_sum_to_the_code_length() {
    // A mixture of operand shapes.
    let mut code = vec![0x00u8, 0x2A];
    code.extend_from_slice(&[0x20, 0x01, 0x00, 0x00, 0x00]); // ldc.i4 1
    code.extend_from_slice(&[0x21, 1, 0, 0, 0, 0, 0, 0, 0]); // ldc.i8 1
    code.extend_from_slice(&[0x22, 0, 0, 0x80, 0x3F]); // ldc.r4 1.0
    code.extend_from_slice(&[0x23, 0, 0, 0, 0, 0, 0, 0xF0, 0x3F]); // ldc.r8 1.0
    code.extend_from_slice(&[0xFE, 0x09, 0x01, 0x00]); // ldarg 1
    let total: u32 = instructions(&code).into_iter().map(|i| i.unwrap().size).sum();
    assert_eq!(total as usize, code.len());
}

#[test]
fn an_unknown_opcode_stops_the_iterator() {
    let code = [0x00, 0xFF, 0x00];
    let items: Vec<_> = instructions(&code);
    assert_eq!(items.len(), 2);
    assert!(items[0].is_ok());
    let e = items[1].as_ref().unwrap_err();
    assert_eq!(e.kind, ErrorKind::UnknownOpcode);
    assert_eq!(e.offset, Some(1));
}

#[test]
fn a_truncated_operand_is_reported_at_its_offset() {
    let code = [0x20, 0x01];
    let e = decode_at(&code, 0).unwrap_err();
    assert_eq!(e.kind, ErrorKind::Truncated);
    assert_eq!(e.offset, Some(1));
}

#[test]
fn folding_attaches_prefixes() {
    // volatile. ldfld <field>; ret
    let mut code = vec![0xFE, 0x13, 0x7B];
    code.extend_from_slice(&0x0400_0001u32.to_le_bytes());
    code.push(0x2A);
    let items: Vec<_> = folded(&code).into_iter().map(|i| i.unwrap()).collect();
    assert_eq!(items.len(), 2);
    assert!(items[0].prefixes.volatile);
    assert_eq!(items[0].first_offset, 0);
    assert_eq!(items[0].instruction.opcode, OpCode::Ldfld);
    assert_eq!(items[0].total_size(), 7);
    assert!(items[1].prefixes.is_empty());
}

#[test]
fn folding_rejects_an_illegal_prefix_target() {
    // volatile. ret
    let code = [0xFE, 0x13, 0x2A];
    let items: Vec<_> = folded(&code);
    assert_eq!(items.len(), 1);
    assert_eq!(items[0].as_ref().unwrap_err().kind, ErrorKind::InvalidPrefixTarget);
    // The raw iterator does not care.
    assert_eq!(instructions(&code).iter().filter(|i| i.is_ok()).count(), 2);
}

#[test]
fn folding_rejects_a_prefix_at_the_end_of_the_code() {
    // volatile. with nothing after it modifies nothing.
    let code = [0x00, 0xFE, 0x13];
    let items: Vec<_> = folded(&code);
    assert_eq!(items.len(), 2);
    assert!(items[0].is_ok());
    let e = items[1].as_ref().unwrap_err();
    assert_eq!(e.kind, ErrorKind::InvalidPrefixTarget);
    assert_eq!(e.offset, Some(1));
    // The raw iterator still yields both instructions.
    assert_eq!(instructions(&code).iter().filter(|i| i.is_ok()).count(), 2);
}

#[test]
fn folding_an_empty_range_yields_nothing() {
    assert_eq!(folded(&[]).len(), 0);
}

#[test]
fn folding_rejects_duplicate_prefixes() {
    // volatile. volatile. ldfld
    let mut code = vec![0xFE, 0x13, 0xFE, 0x13, 0x7B];
    code.extend_from_slice(&0u32.to_le_bytes());
    let items: Vec<_> = folded(&code);
    assert_eq!(items[0].as_ref().unwrap_err().kind, ErrorKind::Malformed);
}

#[test]
fn constrained_must_precede_a_call() {
    let mut ok = vec![0xFE, 0x16];
    ok.extend_from_slice(&0x0100_0001u32.to_le_bytes());
    ok.push(0x6F); // callvirt
    ok.extend_from_slice(&0x0A00_0001u32.to_le_bytes());
    let folded = FoldedIter::new(&ok).next().unwrap().unwrap();
    assert_eq!(folded.prefixes.constrained, Some(Token(0x0100_0001)));

    // `constrained. call` is what Roslyn emits for a static abstract
    // interface member, so it is accepted even though III.2.1 names only
    // `callvirt`.
    let mut static_virtual = vec![0xFE, 0x16];
    static_virtual.extend_from_slice(&0x0100_0001u32.to_le_bytes());
    static_virtual.push(0x28); // call
    static_virtual.extend_from_slice(&0x0A00_0001u32.to_le_bytes());
    assert!(FoldedIter::new(&static_virtual).next().unwrap().is_ok());

    let mut bad = vec![0xFE, 0x16];
    bad.extend_from_slice(&0x0100_0001u32.to_le_bytes());
    bad.push(0x2A); // ret
    assert_eq!(
        FoldedIter::new(&bad).next().unwrap().unwrap_err().kind,
        ErrorKind::InvalidPrefixTarget
    );
}

#[test]
fn the_no_prefix_decodes_its_mask() {
    // no. 0x05 castclass <type>
    let mut code = vec![0xFE, 0x19, 0x05, 0x74];
    code.extend_from_slice(&0x0200_0001u32.to_le_bytes());
    let folded = FoldedIter::new(&code).next().unwrap().unwrap();
    assert!(folded.prefixes.no.typecheck);
    assert!(!folded.prefixes.no.rangecheck);
    assert!(folded.prefixes.no.nullcheck);
}

#[test]
fn decoding_any_byte_string_terminates_without_panicking() {
    // Exercise the decoder over a deterministic pseudo-random corpus.
    let mut state = 0x1234_5678u32;
    for _ in 0..2_000 {
        let mut code = vec![0u8; 64];
        for byte in code.iter_mut() {
            state = state.wrapping_mul(1_664_525).wrapping_add(1_013_904_223);
            *byte = (state >> 24) as u8;
        }
        let mut total = 0u64;
        for item in instructions(&code) {
            match item {
                Ok(i) => {
                    assert!(i.size > 0);
                    total += u64::from(i.size);
                }
                Err(_) => break,
            }
        }
        assert!(total <= code.len() as u64);
        for item in folded(&code) {
            if item.is_err() {
                break;
            }
        }
    }
}

#[test]
fn stack_behaviour_counts_are_consistent() {
    assert_eq!(OpCode::Add.info().pop.count(), Some(2));
    assert_eq!(OpCode::Add.info().push.count(), Some(1));
    assert_eq!(OpCode::Call.info().pop.count(), None);
    assert_eq!(OpCode::Ret.info().flow, FlowControl::Return);
    assert_eq!(OpCode::Br.info().flow, FlowControl::Branch);
    assert_eq!(OpCode::Brtrue.info().flow, FlowControl::CondBranch);
    assert_eq!(OpCode::Throw.info().flow, FlowControl::Throw);
    assert!(OpCode::Volatile.is_prefix());
    assert!(!OpCode::Nop.is_prefix());
}
