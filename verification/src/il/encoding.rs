//! Instructions written out as bytes, and the laws that tie what is written to
//! what is decoded.

use vstd::prelude::*;

use crate::error::Result;
use crate::il;
use crate::il::table;
use crate::il::{
    CodeCursor, FlowControl, FoldedModel, InstructionModel, NoChecks, OpCode, OperandKind,
    OperandModel, Prefixes, StackBehaviourPop, StackBehaviourPush,
};
use crate::reader;

verus! {

/// The bytes that encode `op`: one, or 0xFE and a second one.
pub open spec fn opcode_bytes(op: OpCode) -> Seq<u8> {
    let code = table::code_of(op);
    if code < 0x100 {
        seq![code as u8]
    } else {
        seq![0xFEu8, (code % 0x100) as u8]
    }
}

/// The 32 bits of the distance from `end` to `target`, modulo the width of an
/// IL offset.
pub open spec fn distance(target: u32, end: int) -> u32 {
    ((target - end) % 0x1_0000_0000) as u32
}

/// The distances of `targets` from `end`, four bytes each.
pub open spec fn switch_bytes(targets: Seq<u32>, end: int) -> Seq<u8>
    decreases targets.len(),
{
    if targets.len() == 0 {
        seq![]
    } else {
        switch_bytes(targets.drop_last(), end) + reader::written32(distance(targets.last(), end))
    }
}

/// The bytes of `operand` behind the opcode of an instruction that ends at
/// `end` (III.1.9, VI.C): numbers and tokens are little-endian, and a branch is
/// the distance of its target from the end of the instruction.
pub open spec fn operand_bytes(kind: OperandKind, operand: OperandModel, end: int) -> Seq<u8> {
    match operand {
        OperandModel::Absent => seq![],
        OperandModel::I8(n) => seq![reader::unsigned8(n)],
        OperandModel::I32(n) => if kind is InlineI {
            reader::written32(reader::unsigned32(n))
        } else if kind is ShortInlineI {
            seq![reader::unsigned8(n as i8)]
        } else {
            seq![]
        },
        OperandModel::I64(n) => reader::written64(reader::unsigned64(n)),
        OperandModel::R32(bits) => reader::written32(bits),
        OperandModel::R64(bits) => reader::written64(bits),
        OperandModel::BranchTarget(target) => if kind is InlineBrTarget {
            reader::written32(distance(target, end))
        } else {
            seq![((target - end) % 0x100) as u8]
        },
        OperandModel::Switch(targets) => reader::written32(targets.len() as u32) + switch_bytes(
            targets,
            end,
        ),
        OperandModel::Method(t)
        | OperandModel::Field(t)
        | OperandModel::Type(t)
        | OperandModel::Tok(t)
        | OperandModel::Sig(t) => reader::written32(t.0),
        OperandModel::UserString(t) => reader::written32(t.0),
        OperandModel::Var(n) => if kind is InlineVar {
            reader::written16(n)
        } else if kind is ShortInlineVar {
            seq![n as u8]
        } else {
            seq![]
        },
    }
}

/// The operand that the encoding of an instruction without operand bytes
/// stands for: `ldarg.0` to `ldarg.3`, `ldloc.0` to `ldloc.3` and `stloc.0` to
/// `stloc.3` count up from 0, and `ldc.i4.m1` to `ldc.i4.8` from -1.
pub open spec fn implied_operand(code: u16) -> OperandModel {
    if 0x02 <= code <= 0x05 {
        OperandModel::Var((code - 0x02) as u16)
    } else if 0x06 <= code <= 0x09 {
        OperandModel::Var((code - 0x06) as u16)
    } else if 0x0A <= code <= 0x0D {
        OperandModel::Var((code - 0x0A) as u16)
    } else if 0x15 <= code <= 0x1E {
        OperandModel::I32((code - 0x16) as i32)
    } else {
        OperandModel::Absent
    }
}

/// True when `operand` is one that `op` can carry in an instruction that ends
/// at `end`; of the short constants only `ldc.i4.s` (0x1F) is an integer.
pub open spec fn carries(op: OpCode, operand: OperandModel, end: int) -> bool {
    match operand_kind(table::code_of(op)) {
        OperandKind::InlineNone => operand == implied_operand(table::code_of(op)),
        OperandKind::ShortInlineI => if table::code_of(op) == 0x1F {
            operand matches OperandModel::I32(n) && -0x80 <= n < 0x80
        } else {
            operand is I8
        },
        OperandKind::InlineI => operand is I32,
        OperandKind::InlineI8 => operand is I64,
        OperandKind::ShortInlineR => operand is R32,
        OperandKind::InlineR => operand is R64,
        OperandKind::ShortInlineVar => operand matches OperandModel::Var(n) && n < 0x100,
        OperandKind::InlineVar => operand is Var,
        OperandKind::ShortInlineBrTarget => operand matches OperandModel::BranchTarget(target) && (
        target - end + 0x80) % 0x1_0000_0000 < 0x100,
        OperandKind::InlineBrTarget => operand is BranchTarget,
        OperandKind::InlineSwitch => operand matches OperandModel::Switch(targets)
            && targets.len() <= u32::MAX,
        OperandKind::InlineMethod => operand is Method,
        OperandKind::InlineField => operand is Field,
        OperandKind::InlineType => operand is Type,
        OperandKind::InlineTok => operand is Tok,
        OperandKind::InlineSig => operand is Sig,
        OperandKind::InlineString => operand is UserString,
    }
}

/// What follows an opcode, by its encoding (VI.C.2): the short forms of
/// variables, branches and constants stand in runs, and so do the instructions
/// that name a method, a field or a type.
#[verifier::opaque]
pub open spec fn operand_kind(code: u16) -> OperandKind {
    if 0x0E <= code <= 0x13 {
        OperandKind::ShortInlineVar
    } else if code == 0x1F || code == 0xFE12 || code == 0xFE19 {
        OperandKind::ShortInlineI
    } else if code == 0x20 {
        OperandKind::InlineI
    } else if code == 0x21 {
        OperandKind::InlineI8
    } else if code == 0x22 {
        OperandKind::ShortInlineR
    } else if code == 0x23 {
        OperandKind::InlineR
    } else if 0x27 <= code <= 0x28 || code == 0x6F || code == 0x73 || 0xFE06 <= code <= 0xFE07 {
        OperandKind::InlineMethod
    } else if code == 0x29 {
        OperandKind::InlineSig
    } else if 0x2B <= code <= 0x37 || code == 0xDE {
        OperandKind::ShortInlineBrTarget
    } else if 0x38 <= code <= 0x44 || code == 0xDD {
        OperandKind::InlineBrTarget
    } else if code == 0x45 {
        OperandKind::InlineSwitch
    } else if 0x70 <= code <= 0x71 || 0x74 <= code <= 0x75 || code == 0x79 || code == 0x81
        || 0x8C <= code <= 0x8D || code == 0x8F || 0xA3 <= code <= 0xA5 || code == 0xC2
        || code == 0xC6 || 0xFE15 <= code <= 0xFE16 || code == 0xFE1C {
        OperandKind::InlineType
    } else if code == 0x72 {
        OperandKind::InlineString
    } else if 0x7B <= code <= 0x80 {
        OperandKind::InlineField
    } else if code == 0xD0 {
        OperandKind::InlineTok
    } else if 0xFE09 <= code <= 0xFE0E {
        OperandKind::InlineVar
    } else {
        OperandKind::InlineNone
    }
}

/// Every opcode carries the operand that its encoding calls for.
pub proof fn lemma_operand_kinds(op: OpCode)
    ensures
        table::traits_of(op).operand == operand_kind(table::code_of(op)),
        table::traits_of(op).operand is InlineNone ==> il::fixed_operand(op, seq![], 0)
            == implied_operand(table::code_of(op)),
{
    reveal(operand_kind);
}

/// How an instruction passes control on, by its encoding.
pub open spec fn flow_kind(code: u16) -> FlowControl {
    if code == 0x01 {
        FlowControl::Break
    } else if 0x27 <= code <= 0x29 || code == 0x6F || code == 0x73 {
        FlowControl::Call
    } else if code == 0x2A || code == 0xDC || code == 0xFE11 {
        FlowControl::Return
    } else if code == 0x2B || code == 0x38 || 0xDD <= code <= 0xDE {
        FlowControl::Branch
    } else if 0x2C <= code <= 0x37 || 0x39 <= code <= 0x45 {
        FlowControl::CondBranch
    } else if code == 0x7A || code == 0xFE1A {
        FlowControl::Throw
    } else if 0xFE12 <= code <= 0xFE14 || code == 0xFE16 || code == 0xFE19 || code == 0xFE1E {
        FlowControl::Meta
    } else {
        FlowControl::Next
    }
}

/// Every opcode passes control on as its encoding says.
pub proof fn lemma_flow_kinds(op: OpCode)
    ensures
        table::traits_of(op).flow == flow_kind(table::code_of(op)),
{
}

/// What an instruction takes off the stack, by its encoding (VI.C.2).
pub open spec fn pop_kind(code: u16) -> StackBehaviourPop {
    if 0x0A <= code <= 0x0D || code == 0x10 || code == 0x13 || 0x25 <= code <= 0x26
        || 0x65 <= code <= 0x6E || code == 0x76 || code == 0x80 || 0x82 <= code <= 0x8C
        || 0xB3 <= code <= 0xC3 || 0xD1 <= code <= 0xD5 || code == 0xE0 || code == 0xFE0B
        || code == 0xFE0E || code == 0xFE1D {
        StackBehaviourPop::Pop1
    } else if 0x28 <= code <= 0x2A || code == 0x6F || code == 0x73 {
        StackBehaviourPop::VarPop
    } else if 0x2C <= code <= 0x2D || 0x39 <= code <= 0x3A || 0x45 <= code <= 0x50 || code == 0x71
        || code == 0x8D || code == 0xC6 || 0xFE0F <= code <= 0xFE11 || code == 0xFE15 {
        StackBehaviourPop::PopI
    } else if 0x2E <= code <= 0x37 || 0x3B <= code <= 0x44 || 0x58 <= code <= 0x64
        || 0xD6 <= code <= 0xDB || 0xFE01 <= code <= 0xFE05 {
        StackBehaviourPop::Pop1Pop1
    } else if 0x51 <= code <= 0x54 || code == 0x70 || code == 0xDF {
        StackBehaviourPop::PopIPopI
    } else if code == 0x55 {
        StackBehaviourPop::PopIPopI8
    } else if code == 0x56 {
        StackBehaviourPop::PopIPopR4
    } else if code == 0x57 {
        StackBehaviourPop::PopIPopR8
    } else if 0x74 <= code <= 0x75 || 0x79 <= code <= 0x7C || code == 0x8E || code == 0xA5
        || code == 0xFE07 {
        StackBehaviourPop::PopRef
    } else if code == 0x7D {
        StackBehaviourPop::PopRefPop1
    } else if code == 0x81 {
        StackBehaviourPop::PopIPop1
    } else if 0x8F <= code <= 0x9A || code == 0xA3 {
        StackBehaviourPop::PopRefPopI
    } else if 0x9B <= code <= 0x9E {
        StackBehaviourPop::PopRefPopIPopI
    } else if code == 0x9F {
        StackBehaviourPop::PopRefPopIPopI8
    } else if code == 0xA0 {
        StackBehaviourPop::PopRefPopIPopR4
    } else if code == 0xA1 {
        StackBehaviourPop::PopRefPopIPopR8
    } else if code == 0xA2 {
        StackBehaviourPop::PopRefPopIPopRef
    } else if code == 0xA4 {
        StackBehaviourPop::PopRefPopIPop1
    } else if 0xFE17 <= code <= 0xFE18 {
        StackBehaviourPop::PopIPopIPopI
    } else {
        StackBehaviourPop::Pop0
    }
}

/// What an instruction puts on the stack, by its encoding (VI.C.2).
pub open spec fn push_kind(code: u16) -> StackBehaviourPush {
    if 0x00 <= code <= 0x01 || 0x0A <= code <= 0x0D || code == 0x10 || code == 0x13
        || 0x26 <= code <= 0x27 || 0x2A <= code <= 0x45 || 0x51 <= code <= 0x57
        || code == 0x70 || code == 0x7A || code == 0x7D || 0x80 <= code <= 0x81
        || 0x9B <= code <= 0xA2 || code == 0xA4 || 0xDC <= code <= 0xDF || code == 0xFE0B
        || code == 0xFE0E || 0xFE11 <= code <= 0xFE1A || code == 0xFE1E {
        StackBehaviourPush::Push0
    } else if 0x02 <= code <= 0x09 || code == 0x0E || code == 0x11 || 0x58 <= code <= 0x66
        || code == 0x71 || code == 0x7B || code == 0x7E || code == 0xA3 || code == 0xA5
        || code == 0xC6 || 0xD6 <= code <= 0xDB || code == 0xFE09 || code == 0xFE0C {
        StackBehaviourPush::Push1
    } else if code == 0x14 || code == 0x50 || 0x72 <= code <= 0x74 || 0x8C <= code <= 0x8D
        || code == 0x9A {
        StackBehaviourPush::PushRef
    } else if code == 0x21 || code == 0x4C || code == 0x6A || code == 0x6E || code == 0x85
        || code == 0x89 || code == 0x96 || 0xB9 <= code <= 0xBA {
        StackBehaviourPush::PushI8
    } else if code == 0x22 || code == 0x4E || code == 0x6B || code == 0x98 {
        StackBehaviourPush::PushR4
    } else if code == 0x23 || code == 0x4F || code == 0x6C || code == 0x76 || code == 0x99
        || code == 0xC3 {
        StackBehaviourPush::PushR8
    } else if code == 0x25 {
        StackBehaviourPush::Push1Push1
    } else if 0x28 <= code <= 0x29 || code == 0x6F {
        StackBehaviourPush::VarPush
    } else {
        StackBehaviourPush::PushI
    }
}

/// Every opcode changes the stack as its encoding says.
pub proof fn lemma_stack_kinds(op: OpCode)
    ensures
        table::traits_of(op).pop == pop_kind(table::code_of(op)),
        table::traits_of(op).push == push_kind(table::code_of(op)),
{
}

/// True when the instruction `op` with `operand` is written at `offset` of
/// `code` in `size` bytes.
pub open spec fn written_at(
    code: Seq<u8>,
    offset: u32,
    size: int,
    op: OpCode,
    operand: OperandModel,
) -> bool {
    let end = offset + size;
    let bytes = opcode_bytes(op) + operand_bytes(operand_kind(table::code_of(op)), operand, end);
    carries(op, operand, end) && bytes.len() == size && reader::lies_at(code, offset as int, bytes)
}

/// The distances of a written `switch` table are read back one by one.
#[verifier::rlimit(30)]
proof fn lemma_switch_reads_back(code: Seq<u8>, at: int, targets: Seq<u32>, end: int)
    requires
        reader::lies_at(code, at, switch_bytes(targets, end)),
    ensures
        switch_bytes(targets, end).len() == 4 * targets.len(),
        forall|i: int|
            0 <= i < targets.len() ==> #[trigger] reader::le32(code, at + 4 * i) == distance(
                targets[i],
                end,
            ),
    decreases targets.len(),
{
    reveal(reader::lies_at);
    if targets.len() > 0 {
        let front = targets.drop_last();
        let last = reader::written32(distance(targets.last(), end));
        reader::lemma_lies_in_parts(code, at, switch_bytes(front, end), last);
        lemma_switch_reads_back(code, at, front, end);
        reader::lemma_written32_reads_back(
            code,
            at + 4 * front.len(),
            distance(targets.last(), end),
        );
        assert forall|i: int| 0 <= i < targets.len() implies #[trigger] reader::le32(
            code,
            at + 4 * i,
        ) == distance(targets[i], end) by {
            if i < front.len() {
                assert(front[i] == targets[i]);
            }
        }
    }
}

/// A table takes four bytes for each target.
proof fn lemma_switch_len(targets: Seq<u32>, end: int)
    ensures
        switch_bytes(targets, end).len() == 4 * targets.len(),
    decreases targets.len(),
{
    if targets.len() > 0 {
        lemma_switch_len(targets.drop_last(), end);
    }
}

/// Going a written distance from `end` leads to the target again.
proof fn lemma_distance_undone(target: u32, end: int)
    ensures
        il::branch_target(end, reader::signed32(distance(target, end)) as int) == target,
        (target - end + 0x80) % 0x1_0000_0000 < 0x100 ==> il::branch_target(
            end,
            reader::signed8(((target - end) % 0x100) as u8) as int,
        ) == target,
{
    let wide = 0x1_0000_0000int;
    let d = target - end;
    let s = reader::signed32(distance(target, end)) as int;
    let k = if d % wide < 0x8000_0000 {
        -(d / wide)
    } else {
        -(d / wide) - 1
    };
    assert(end + s == target + wide * k);
    vstd::arithmetic::div_mod::lemma_mod_multiples_vanish(k, target as int, wide);
    if (d + 0x80) % wide < 0x100 {
        let j = (d + 0x80) / wide;
        let e = (d + 0x80) % wide - 0x80;
        assert(d == e + 0x100 * (0x100_0000 * j));
        vstd::arithmetic::div_mod::lemma_mod_multiples_vanish(0x100_0000 * j, e, 0x100);
        assert(reader::signed8((d % 0x100) as u8) == e);
        assert(end + e == target + wide * (-j));
        vstd::arithmetic::div_mod::lemma_mod_multiples_vanish(-j, target as int, wide);
    }
}

/// An opcode that is written is decoded again.
#[verifier::rlimit(30)]
proof fn lemma_opcode_reads_back(code: Seq<u8>, offset: u32, op: OpCode)
    requires
        reader::lies_at(code, offset as int, opcode_bytes(op)),
    ensures
        OpCode::decoded(code.skip(offset as int)) == Ok::<(OpCode, usize), crate::error::Error>(
            (op, opcode_bytes(op).len() as usize),
        ),
{
    reveal(reader::lies_at);
    table::lemma_encoding_decodes(op);
    let part = code.subrange(offset as int, offset + opcode_bytes(op).len());
    assert(part[0] == opcode_bytes(op)[0]);
    assert(code.skip(offset as int)[0] == part[0]);
    if table::code_of(op) >= 0x100 {
        assert(part[1] == opcode_bytes(op)[1]);
        assert(code.skip(offset as int)[1] == part[1]);
    }
}

/// Operand bytes that are written are read back as the operand.
#[verifier::rlimit(30)]
proof fn lemma_operand_reads_back(code: Seq<u8>, offset: u32, at: int, op: OpCode, operand: OperandModel)
    requires
        ({
            let kind = operand_kind(table::code_of(op));
            let bytes = operand_bytes(kind, operand, at + operand_len(kind, operand));
            &&& carries(op, operand, at + operand_len(kind, operand))
            &&& reader::lies_at(code, at, bytes)
        }),
    ensures
        il::operand_at(op, code, offset, at) == Ok::<(OperandModel, int), crate::error::Error>(
            (operand, at + operand_len(operand_kind(table::code_of(op)), operand)),
        ),
{
    reveal(reader::lies_at);
    lemma_operand_kinds(op);
    let kind = operand_kind(table::code_of(op));
    let end = at + operand_len(kind, operand);
    match operand {
        OperandModel::Absent => {},
        OperandModel::I8(n) => {
            reader::lemma_signed_reads_back(n, 0, 0);
            reader::lemma_byte_reads_back(code, at, reader::unsigned8(n));
        },
        OperandModel::I32(n) => {
            if kind is InlineI {
                reader::lemma_signed_reads_back(0, n, 0);
                reader::lemma_written32_reads_back(code, at, reader::unsigned32(n));
            } else if kind is ShortInlineI {
                reader::lemma_signed_reads_back(n as i8, 0, 0);
                reader::lemma_byte_reads_back(code, at, reader::unsigned8(n as i8));
            }
        },
        OperandModel::I64(n) => {
            reader::lemma_signed_reads_back(0, 0, n);
            reader::lemma_written64_reads_back(code, at, reader::unsigned64(n));
        },
        OperandModel::R32(bits) => {
            reader::lemma_written32_reads_back(code, at, bits);
        },
        OperandModel::R64(bits) => {
            reader::lemma_written64_reads_back(code, at, bits);
        },
        OperandModel::BranchTarget(target) => {
            lemma_distance_undone(target, end);
            if kind is InlineBrTarget {
                reader::lemma_written32_reads_back(code, at, distance(target, end));
            } else {
                reader::lemma_byte_reads_back(code, at, ((target - end) % 0x100) as u8);
            }
        },
        OperandModel::Switch(targets) => {
            lemma_switch_operand(code, at, targets);
        },
        OperandModel::Method(t)
        | OperandModel::Field(t)
        | OperandModel::Type(t)
        | OperandModel::Tok(t)
        | OperandModel::Sig(t) => {
            reader::lemma_written32_reads_back(code, at, t.0);
        },
        OperandModel::UserString(t) => {
            reader::lemma_written32_reads_back(code, at, t.0);
        },
        OperandModel::Var(n) => {
            if kind is InlineVar {
                reader::lemma_written16_reads_back(code, at, n);
            } else if kind is ShortInlineVar {
                reader::lemma_byte_reads_back(code, at, n as u8);
            }
        },
    }
}

/// A `switch` table that is written is read back.
#[verifier::rlimit(30)]
proof fn lemma_switch_operand(code: Seq<u8>, at: int, targets: Seq<u32>)
    requires
        targets.len() <= u32::MAX,
        reader::lies_at(
            code,
            at,
            reader::written32(targets.len() as u32) + switch_bytes(
                targets,
                at + 4 + 4 * targets.len(),
            ),
        ),
    ensures
        at + 4 + 4 * targets.len() <= code.len(),
        reader::le32(code, at) == targets.len(),
        il::switch_targets(code, at + 4, targets.len()) == targets,
{
    reveal(reader::lies_at);
    let end = at + 4 + 4 * targets.len();
    let count = reader::written32(targets.len() as u32);
    reader::lemma_lies_in_parts(code, at, count, switch_bytes(targets, end));
    reader::lemma_written32_reads_back(code, at, targets.len() as u32);
    lemma_switch_reads_back(code, at + 4, targets, end);
    let read = il::switch_targets(code, at + 4, targets.len());
    assert forall|i: int| 0 <= i < targets.len() implies read[i] == targets[i] by {
        lemma_distance_undone(targets[i], end);
        assert(reader::le32(code, (at + 4) + 4 * i) == distance(targets[i], end));
    }
    assert(read =~= targets);
}

/// How many bytes `operand` takes.
spec fn operand_len(kind: OperandKind, operand: OperandModel) -> int {
    match operand {
        OperandModel::Switch(targets) => (4 + 4 * targets.len()) as int,
        _ => operand_bytes(kind, operand, 0).len() as int,
    }
}

/// The length of an operand does not depend on where the instruction ends.
proof fn lemma_operand_len(kind: OperandKind, operand: OperandModel, end: int)
    ensures
        operand_bytes(kind, operand, end).len() == operand_len(kind, operand),
{
    if let OperandModel::Switch(targets) = operand {
        lemma_switch_len(targets, end);
    }
}

/// An opcode and an operand that are read make up the instruction.
proof fn lemma_assembled(
    code: Seq<u8>,
    offset: u32,
    op: OpCode,
    width: usize,
    operand: OperandModel,
    size: int,
)
    requires
        offset <= code.len() <= u32::MAX,
        0 <= size <= code.len(),
        OpCode::decoded(code.skip(offset as int)) == Ok::<(OpCode, usize), crate::error::Error>(
            (op, width),
        ),
        il::operand_at(op, code, offset, offset + width) == Ok::<
            (OperandModel, int),
            crate::error::Error,
        >((operand, offset + size)),
    ensures
        il::instruction_at(code, offset) == Ok::<InstructionModel, crate::error::Error>(
            InstructionModel { offset, size: size as u32, opcode: op, operand },
        ),
{
}

/// An instruction that is written out, opcode then operand, is decoded to that
/// opcode and that operand, wherever it lies and whatever surrounds it: a
/// branch leads to its target, counted from the end of the instruction, and the
/// instruction takes the bytes that were written.
#[verifier::rlimit(30)]
pub proof fn lemma_written_instruction(
    code: Seq<u8>,
    offset: u32,
    size: int,
    op: OpCode,
    operand: OperandModel,
)
    requires
        written_at(code, offset, size, op, operand),
        code.len() <= u32::MAX,
    ensures
        il::instruction_at(code, offset) == Ok::<InstructionModel, crate::error::Error>(
            InstructionModel { offset, size: size as u32, opcode: op, operand },
        ),
{
    reveal(reader::lies_at);
    let kind = operand_kind(table::code_of(op));
    let end = offset + size;
    let tail = operand_bytes(kind, operand, end);
    lemma_operand_len(kind, operand, end);
    reader::lemma_lies_in_parts(code, offset as int, opcode_bytes(op), tail);
    lemma_opcode_reads_back(code, offset, op);
    let at = offset + opcode_bytes(op).len();
    assert(end == at + operand_len(kind, operand));
    lemma_operand_reads_back(code, offset, at, op, operand);
    lemma_assembled(code, offset, op, opcode_bytes(op).len() as usize, operand, size);
}

/// The bytes of one prefix, if it is there.
pub open spec fn optional(present: bool, bytes: Seq<u8>) -> Seq<u8> {
    if present {
        bytes
    } else {
        seq![]
    }
}

/// The operand byte of `no.`: one bit for each check that it suppresses.
pub open spec fn no_bits(no: NoChecks) -> u8 {
    ((if no.typecheck {
        1int
    } else {
        0
    }) + (if no.rangecheck {
        2int
    } else {
        0
    }) + (if no.nullcheck {
        4int
    } else {
        0
    })) as u8
}

/// The prefixes `p` written one behind the other (III.2): `constrained.` and
/// its token, `unaligned.` and its alignment, `volatile.`, `tail.`, `readonly.`,
/// and `no.` and its checks.
pub open spec fn prefix_bytes(p: Prefixes) -> Seq<u8> {
    constrained_bytes(p) + (unaligned_bytes(p) + (optional(p.volatile, seq![0xFEu8, 0x13])
        + (optional(p.tail, seq![0xFEu8, 0x14]) + (optional(p.readonly, seq![0xFEu8, 0x1E])
        + optional(
        p.no.typecheck || p.no.rangecheck || p.no.nullcheck,
        seq![0xFEu8, 0x19, no_bits(p.no)],
    )))))
}

/// `constrained.` and its token.
pub open spec fn constrained_bytes(p: Prefixes) -> Seq<u8> {
    match p.constrained {
        Some(t) => seq![0xFEu8, 0x16] + reader::written32(t.0),
        None => seq![],
    }
}

/// `unaligned.` and its alignment.
pub open spec fn unaligned_bytes(p: Prefixes) -> Seq<u8> {
    match p.unaligned {
        Some(n) => seq![0xFEu8, 0x12, n],
        None => seq![],
    }
}

/// True when the prefixes `p` may stand before the instruction encoded as
/// `code`: `constrained.` before a call or `ldftn`, `tail.` before a call,
/// `readonly.` before a call or `ldelema`, `volatile.` and `unaligned.` before
/// the accesses through an address or to a field (`unaligned.` not to a static
/// one), and `no.` before what it can leave out a check of.
pub open spec fn may_precede(p: Prefixes, code: u16) -> bool {
    let through_address = 0x46 <= code <= 0x57 || code == 0xDF || code == 0x71 || code == 0x81
        || code == 0x7B || code == 0x7D || code == 0xFE17 || code == 0xFE18;
    &&& p.constrained is Some ==> code == 0x28 || code == 0x6F || code == 0xFE06
    &&& p.tail ==> code == 0x28 || code == 0x29 || code == 0x6F
    &&& p.readonly ==> code == 0x28 || code == 0x6F || code == 0x8F
    &&& p.unaligned is Some ==> through_address
    &&& p.volatile ==> through_address || code == 0x7E || code == 0x80
    &&& p.no.typecheck || p.no.rangecheck || p.no.nullcheck ==> code == 0x6F || code == 0x74
        || code == 0x75 || code == 0x79 || code == 0x7B || code == 0x7D || 0x8E <= code <= 0xA5
        || code == 0xFE07
}

/// A prefix may stand before the instructions that its encoding names.
proof fn lemma_may_precede(p: Prefixes, op: OpCode)
    ensures
        p.legal_on(op) == may_precede(p, table::code_of(op)),
{
}

/// Folding goes over a written prefix and adds it.
#[verifier::rlimit(30)]
proof fn lemma_prefix_step(
    c: CodeCursor,
    size: int,
    op: OpCode,
    operand: OperandModel,
    have: Prefixes,
    more: Prefixes,
    first: Option<u32>,
)
    requires
        !c.done,
        c.code.len() <= u32::MAX,
        written_at(c.code, c.offset, size, op, operand),
        op.prefixes_another(),
        have.with(
            (InstructionModel { offset: c.offset, size: size as u32, opcode: op, operand }),
        ) == Ok::<Prefixes, crate::error::Error>(more),
        size > 0,
    ensures
        c.fold(have, first) == (CodeCursor { offset: (c.offset + size) as u32, ..c }).fold(
            more,
            Some(
                match first {
                    Some(at) => at,
                    None => c.offset,
                },
            ),
        ),
{
    reveal(reader::lies_at);
    lemma_written_instruction(c.code, c.offset, size, op, operand);
    let i = InstructionModel { offset: c.offset, size: size as u32, opcode: op, operand };
    assert(c.current() == Ok::<InstructionModel, crate::error::Error>(i));
    assert(i.end() == c.offset + size);
    assert(c.open());
}

/// Folding goes over the prefixes that carry an operand.
#[verifier::rlimit(30)]
proof fn lemma_constrained_step(c: CodeCursor, t: crate::token::Token, have: Prefixes, first: Option<u32>)
    requires
        !c.done,
        c.code.len() <= u32::MAX,
        reader::lies_at(c.code, c.offset as int, seq![0xFEu8, 0x16] + reader::written32(t.0)),
        have.constrained is None,
    ensures
        c.fold(have, first) == (CodeCursor { offset: (c.offset + 6) as u32, ..c }).fold(
            Prefixes { constrained: Some(t), ..have },
            Some(
                match first {
                    Some(at) => at,
                    None => c.offset,
                },
            ),
        ),
{
    reveal(reader::lies_at);
    reveal(operand_kind);
    let operand = OperandModel::Type(t);
    assert(table::code_of(OpCode::Constrained) == 0xFE16);
    assert(opcode_bytes(OpCode::Constrained) =~= seq![0xFEu8, 0x16]);
    lemma_prefix_step(
        c,
        6,
        OpCode::Constrained,
        operand,
        have,
        Prefixes { constrained: Some(t), ..have },
        first,
    );
}

/// Folding goes over a prefix with one operand byte.
#[verifier::rlimit(30)]
proof fn lemma_byte_prefix_step(c: CodeCursor, op: OpCode, n: u8, have: Prefixes, more: Prefixes, first: Option<u32>)
    requires
        !c.done,
        c.code.len() <= u32::MAX,
        op is Unaligned && have.unaligned is None && (n == 1 || n == 2 || n == 4) && more == (
        Prefixes { unaligned: Some(n), ..have }) || op is No && have.no == Prefixes::absent().no
            && (exists|no: NoChecks| #[trigger] no_bits(no) == n && n != 0 && more == (Prefixes {
            no,
            ..have
        })),
        reader::lies_at(
            c.code,
            c.offset as int,
            seq![
                0xFEu8,
                if op is No {
                    0x19
                } else {
                    0x12
                },
                n,
            ],
        ),
    ensures
        c.fold(have, first) == (CodeCursor { offset: (c.offset + 3) as u32, ..c }).fold(
            more,
            Some(
                match first {
                    Some(at) => at,
                    None => c.offset,
                },
            ),
        ),
{
    reveal(reader::lies_at);
    reveal(operand_kind);
    let value = reader::signed8(n);
    let operand = OperandModel::I8(value);
    assert(reader::unsigned8(value) == n);
    assert(table::code_of(OpCode::Unaligned) == 0xFE12 && table::code_of(OpCode::No) == 0xFE19);
    assert(opcode_bytes(op) + operand_bytes(operand_kind(table::code_of(op)), operand, c.offset + 3)
        =~= seq![
        0xFEu8,
        if op is No {
            0x19
        } else {
            0x12
        },
        n,
    ]);
    lemma_prefix_step(c, 3, op, operand, have, more, first);
}

/// Folding goes over a prefix without an operand.
#[verifier::rlimit(30)]
proof fn lemma_bare_prefix_step(c: CodeCursor, op: OpCode, have: Prefixes, more: Prefixes, first: Option<u32>)
    requires
        !c.done,
        c.code.len() <= u32::MAX,
        ({
            ||| op is Volatile && !have.volatile && more == (Prefixes { volatile: true, ..have })
            ||| op is Tail && !have.tail && more == (Prefixes { tail: true, ..have })
            ||| op is Readonly && !have.readonly && more == (Prefixes { readonly: true, ..have })
        }),
        reader::lies_at(
            c.code,
            c.offset as int,
            seq![
                0xFEu8,
                if op is Volatile {
                    0x13
                } else if op is Tail {
                    0x14
                } else {
                    0x1E
                },
            ],
        ),
    ensures
        c.fold(have, first) == (CodeCursor { offset: (c.offset + 2) as u32, ..c }).fold(
            more,
            Some(
                match first {
                    Some(at) => at,
                    None => c.offset,
                },
            ),
        ),
{
    reveal(reader::lies_at);
    reveal(operand_kind);
    let operand = OperandModel::Absent;
    assert(table::code_of(OpCode::Volatile) == 0xFE13 && table::code_of(OpCode::Tail) == 0xFE14
        && table::code_of(OpCode::Readonly) == 0xFE1E);
    assert(opcode_bytes(op) + operand_bytes(operand_kind(table::code_of(op)), operand, c.offset + 2)
        =~= opcode_bytes(op));
    lemma_prefix_step(c, 2, op, operand, have, more, first);
}

/// Prefixes that are written before an instruction are folded into it, all of
/// them and no others, where the instruction is one that they may precede, and
/// are rejected where it is not. They count from where the first of them
/// stands.
#[verifier::rlimit(50)]
pub proof fn lemma_written_prefixes(code: Seq<u8>, offset: u32, p: Prefixes, i: InstructionModel)
    requires
        code.len() <= u32::MAX,
        reader::lies_at(code, offset as int, prefix_bytes(p)),
        p.unaligned matches Some(n) ==> n == 1 || n == 2 || n == 4,
        il::instruction_at(code, (offset + prefix_bytes(p).len()) as u32) == Ok::<
            InstructionModel,
            crate::error::Error,
        >(i),
        !i.opcode.prefixes_another(),
        offset + prefix_bytes(p).len() < code.len(),
    ensures
        ({
            let folded = (CodeCursor { code, offset, done: false }).next_folded().0;
            if may_precede(p, table::code_of(i.opcode)) {
                folded == Some(
                    Ok::<FoldedModel, crate::error::Error>(
                        FoldedModel { instruction: i, prefixes: p, first_offset: offset },
                    ),
                )
            } else {
                folded matches Some(Err(e)) && e.kind is InvalidPrefixTarget && e.offset
                    == Some(offset as usize)
            }
        }),
{
    reveal(reader::lies_at);
    let c0 = CodeCursor { code, offset, done: false };
    let b4 = optional(p.readonly, seq![0xFEu8, 0x1E]) + optional(
        p.no.typecheck || p.no.rangecheck || p.no.nullcheck,
        seq![0xFEu8, 0x19, no_bits(p.no)],
    );
    let b3 = optional(p.tail, seq![0xFEu8, 0x14]) + b4;
    let b2 = optional(p.volatile, seq![0xFEu8, 0x13]) + b3;
    lemma_operand_prefixes(c0, p, b2);
    let front = constrained_bytes(p).len() + unaligned_bytes(p).len();
    let c2 = CodeCursor { offset: (offset + front) as u32, ..c0 };
    let p2 = Prefixes {
        constrained: p.constrained,
        unaligned: p.unaligned,
        ..Prefixes::absent()
    };
    let f2 = if p.constrained is Some || p.unaligned is Some {
        Some(offset)
    } else {
        None
    };
    lemma_bare_prefixes(c2, p2, f2, p, offset, b4);
    let bare = optional(p.volatile, seq![0xFEu8, 0x13]).len() + optional(
        p.tail,
        seq![0xFEu8, 0x14],
    ).len();
    let c4 = CodeCursor { offset: (c2.offset + bare) as u32, ..c0 };
    let p4 = Prefixes { volatile: p.volatile, tail: p.tail, ..p2 };
    let f4 = if p.volatile || p.tail {
        Some(offset)
    } else {
        f2
    };
    lemma_last_prefixes(c4, p4, f4, p, offset);
    let c6 = CodeCursor { offset: (c4.offset + b4.len()) as u32, ..c0 };
    let f6 = if p.readonly || p.no.typecheck || p.no.rangecheck || p.no.nullcheck {
        Some(offset)
    } else {
        f4
    };
    assert(c6.offset == offset + prefix_bytes(p).len());
    lemma_fold_target(c6, p, f6, i, offset);
}

/// Folding ends at an instruction that is no prefix.
proof fn lemma_fold_target(
    c: CodeCursor,
    p: Prefixes,
    first: Option<u32>,
    i: InstructionModel,
    offset: u32,
)
    requires
        c.open(),
        c.code.len() <= u32::MAX,
        c.current() == Ok::<InstructionModel, crate::error::Error>(i),
        !i.opcode.prefixes_another(),
        first matches Some(at) ==> at == offset,
        first is None ==> c.offset == offset,
    ensures
        ({
            let folded = c.fold(p, first).0;
            if may_precede(p, table::code_of(i.opcode)) {
                folded == Some(
                    Ok::<FoldedModel, crate::error::Error>(
                        FoldedModel { instruction: i, prefixes: p, first_offset: offset },
                    ),
                )
            } else {
                folded matches Some(Err(e)) && e.kind is InvalidPrefixTarget && e.offset == Some(
                    offset as usize,
                )
            }
        }),
{
    lemma_may_precede(p, i.opcode);
    il::lemma_instruction_within_code(c.code, c.offset);
}

/// Folding goes over `constrained.` and `unaligned.`.
#[verifier::rlimit(30)]
proof fn lemma_operand_prefixes(c: CodeCursor, p: Prefixes, rest: Seq<u8>)
    requires
        !c.done,
        c.code.len() <= u32::MAX,
        p.unaligned matches Some(n) ==> n == 1 || n == 2 || n == 4,
        reader::lies_at(
            c.code,
            c.offset as int,
            constrained_bytes(p) + (unaligned_bytes(p) + rest),
        ),
    ensures
        ({
            let len = constrained_bytes(p).len() + unaligned_bytes(p).len();
            let d = CodeCursor { offset: (c.offset + len) as u32, ..c };
            &&& reader::lies_at(c.code, d.offset as int, rest)
            &&& d.offset == c.offset + len
            &&& c.fold(Prefixes::absent(), None) == d.fold(
                Prefixes {
                    constrained: p.constrained,
                    unaligned: p.unaligned,
                    ..Prefixes::absent()
                },
                if p.constrained is Some || p.unaligned is Some {
                    Some(c.offset)
                } else {
                    None
                },
            )
        }),
{
    reveal(reader::lies_at);
    let a = constrained_bytes(p);
    let b = unaligned_bytes(p);
    let have = Prefixes::absent();
    reader::lemma_lies_in_parts(c.code, c.offset as int, a, b + rest);
    reader::lemma_lies_in_parts(c.code, c.offset + a.len(), b, rest);
    let more = Prefixes { constrained: p.constrained, ..have };
    let mid = CodeCursor { offset: (c.offset + a.len()) as u32, ..c };
    let at = if p.constrained is Some {
        Some(c.offset)
    } else {
        None
    };
    if let Some(t) = p.constrained {
        lemma_constrained_step(c, t, have, None);
    }
    assert(c.fold(have, None) == mid.fold(more, at));
    if let Some(n) = p.unaligned {
        lemma_byte_prefix_step(
            mid,
            OpCode::Unaligned,
            n,
            more,
            Prefixes { unaligned: p.unaligned, ..more },
            at,
        );
    }
}

/// Folding goes over `volatile.` and `tail.`.
#[verifier::rlimit(30)]
proof fn lemma_bare_prefixes(
    c: CodeCursor,
    have: Prefixes,
    first: Option<u32>,
    p: Prefixes,
    offset: u32,
    rest: Seq<u8>,
)
    requires
        !c.done,
        c.code.len() <= u32::MAX,
        !have.volatile && !have.tail,
        first matches Some(at) ==> at == offset,
        first is None ==> c.offset == offset,
        reader::lies_at(
            c.code,
            c.offset as int,
            optional(p.volatile, seq![0xFEu8, 0x13]) + (optional(p.tail, seq![0xFEu8, 0x14])
                + rest),
        ),
    ensures
        ({
            let len = optional(p.volatile, seq![0xFEu8, 0x13]).len() + optional(
                p.tail,
                seq![0xFEu8, 0x14],
            ).len();
            let d = CodeCursor { offset: (c.offset + len) as u32, ..c };
            &&& reader::lies_at(c.code, d.offset as int, rest)
            &&& d.offset == c.offset + len
            &&& c.fold(have, first) == d.fold(
                Prefixes { volatile: p.volatile, tail: p.tail, ..have },
                if p.volatile || p.tail {
                    Some(offset)
                } else {
                    first
                },
            )
        }),
{
    reveal(reader::lies_at);
    let a = optional(p.volatile, seq![0xFEu8, 0x13]);
    let b = optional(p.tail, seq![0xFEu8, 0x14]);
    reader::lemma_lies_in_parts(c.code, c.offset as int, a, b + rest);
    reader::lemma_lies_in_parts(c.code, c.offset + a.len(), b, rest);
    let more = Prefixes { volatile: p.volatile, ..have };
    let mid = CodeCursor { offset: (c.offset + a.len()) as u32, ..c };
    let at = if p.volatile {
        Some(offset)
    } else {
        first
    };
    if p.volatile {
        lemma_bare_prefix_step(c, OpCode::Volatile, have, more, first);
    }
    assert(c.fold(have, first) == mid.fold(more, at));
    if p.tail {
        lemma_bare_prefix_step(mid, OpCode::Tail, more, Prefixes { tail: true, ..more }, at);
    }
}

/// Folding goes over `readonly.` and `no.`.
#[verifier::rlimit(30)]
proof fn lemma_last_prefixes(
    c: CodeCursor,
    have: Prefixes,
    first: Option<u32>,
    p: Prefixes,
    offset: u32,
)
    requires
        !c.done,
        c.code.len() <= u32::MAX,
        !have.readonly && have.no == Prefixes::absent().no,
        first matches Some(at) ==> at == offset,
        first is None ==> c.offset == offset,
        reader::lies_at(
            c.code,
            c.offset as int,
            optional(p.readonly, seq![0xFEu8, 0x1E]) + optional(
                p.no.typecheck || p.no.rangecheck || p.no.nullcheck,
                seq![0xFEu8, 0x19, no_bits(p.no)],
            ),
        ),
    ensures
        ({
            let some = p.no.typecheck || p.no.rangecheck || p.no.nullcheck;
            let len = optional(p.readonly, seq![0xFEu8, 0x1E]).len() + optional(
                some,
                seq![0xFEu8, 0x19, no_bits(p.no)],
            ).len();
            let d = CodeCursor { offset: (c.offset + len) as u32, ..c };
            &&& d.offset == c.offset + len
            &&& c.fold(have, first) == d.fold(
                Prefixes { readonly: p.readonly, no: p.no, ..have },
                if p.readonly || some {
                    Some(offset)
                } else {
                    first
                },
            )
        }),
{
    reveal(reader::lies_at);
    let some = p.no.typecheck || p.no.rangecheck || p.no.nullcheck;
    let a = optional(p.readonly, seq![0xFEu8, 0x1E]);
    let b = optional(some, seq![0xFEu8, 0x19, no_bits(p.no)]);
    reader::lemma_lies_in_parts(c.code, c.offset as int, a, b);
    let more = Prefixes { readonly: p.readonly, ..have };
    let mid = CodeCursor { offset: (c.offset + a.len()) as u32, ..c };
    let at = if p.readonly {
        Some(offset)
    } else {
        first
    };
    if p.readonly {
        lemma_bare_prefix_step(c, OpCode::Readonly, have, more, first);
    }
    assert(c.fold(have, first) == mid.fold(more, at));
    if some {
        lemma_byte_prefix_step(mid, OpCode::No, no_bits(p.no), more, Prefixes { no: p.no, ..more }, at);
    }
}

} // verus!
