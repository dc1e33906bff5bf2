//! The CIL instruction decoder (III, VI.C).
//!
//! Decoding is total over the code range: every step either yields an
//! instruction with an exact byte size, or an error naming the offset and the
//! cause. Bytes are never skipped silently, so the sizes of the instructions
//! a method yields sum to exactly the length of its code.
//!
//! Two walks are available. [`InstructionIter`] is the raw stream, where a
//! prefix such as `volatile.` is its own instruction and prefix placement is
//! never validated. [`FoldedIter`] attaches prefixes to the instruction they
//! modify and rejects a prefix that precedes an instruction it is not legal
//! on (III.2.1 to III.2.6).
//!
//! Branch operands are absolute IL offsets, computed from the offset of the
//! following instruction plus the encoded delta. Whether the target lands on
//! an instruction boundary is not checked here; use
//! [`MethodBody::instruction_offsets`](crate::body::MethodBody::instruction_offsets)
//! for that.
use vstd::prelude::*;

use crate::error::{Error, ErrorKind, Result};
use crate::reader;
use crate::reader::Reader;
use crate::token::{Token, UserStringToken};

pub mod encoding;
pub mod table;

pub use table::{OpCode, ALL_OPCODES, OPCODE_COUNT};

verus! {

/// The shape of an instruction operand (VI.C).
#[derive(Clone, Copy, PartialEq, Eq, PartialOrd, Ord, Hash, Debug, Structural)]
#[non_exhaustive]
pub enum OperandKind {
    /// No operand.
    InlineNone,
    /// A 4-byte signed integer.
    InlineI,
    /// A 1-byte signed integer.
    ShortInlineI,
    /// An 8-byte signed integer.
    InlineI8,
    /// A 4-byte IEEE float.
    ShortInlineR,
    /// An 8-byte IEEE float.
    InlineR,
    /// A 4-byte signed branch delta.
    InlineBrTarget,
    /// A 1-byte signed branch delta.
    ShortInlineBrTarget,
    /// A 4-byte count followed by that many 4-byte branch deltas.
    InlineSwitch,
    /// A `MethodDef`, `MemberRef` or `MethodSpec` token.
    InlineMethod,
    /// A `Field` or `MemberRef` token.
    InlineField,
    /// A `TypeDef`, `TypeRef` or `TypeSpec` token.
    InlineType,
    /// Any metadata token.
    InlineTok,
    /// A `#US` token.
    InlineString,
    /// A `StandAloneSig` token.
    InlineSig,
    /// A 2-byte local or argument index.
    InlineVar,
    /// A 1-byte local or argument index.
    ShortInlineVar,
}

impl OperandKind {
    /// The operand size in bytes, where it does not depend on the operand.
    pub open spec fn width(self) -> Option<usize> {
        match self {
            OperandKind::InlineNone => Some(0),
            OperandKind::ShortInlineI
            | OperandKind::ShortInlineBrTarget
            | OperandKind::ShortInlineVar => Some(1),
            OperandKind::InlineVar => Some(2),
            OperandKind::InlineI
            | OperandKind::ShortInlineR
            | OperandKind::InlineBrTarget
            | OperandKind::InlineMethod
            | OperandKind::InlineField
            | OperandKind::InlineType
            | OperandKind::InlineTok
            | OperandKind::InlineString
            | OperandKind::InlineSig => Some(4),
            OperandKind::InlineI8 | OperandKind::InlineR => Some(8),
            OperandKind::InlineSwitch => None,
        }
    }

    /// The fixed operand size in bytes, or `None` for [`OperandKind::InlineSwitch`],
    /// whose size depends on the encoded count.
    pub fn fixed_size(self) -> (size: Option<usize>)
        ensures
            size == self.width(),
    {
        match self {
            OperandKind::InlineNone => Some(0),
            OperandKind::ShortInlineI
            | OperandKind::ShortInlineBrTarget
            | OperandKind::ShortInlineVar => Some(1),
            OperandKind::InlineVar => Some(2),
            OperandKind::InlineI
            | OperandKind::ShortInlineR
            | OperandKind::InlineBrTarget
            | OperandKind::InlineMethod
            | OperandKind::InlineField
            | OperandKind::InlineType
            | OperandKind::InlineTok
            | OperandKind::InlineString
            | OperandKind::InlineSig => Some(4),
            OperandKind::InlineI8 | OperandKind::InlineR => Some(8),
            OperandKind::InlineSwitch => None,
        }
    }

    /// True when the operand is a metadata token.
    pub fn is_token(self) -> (token: bool)
        ensures
            token == (self is InlineMethod || self is InlineField || self is InlineType
                || self is InlineTok || self is InlineString || self is InlineSig),
    {
        matches!(
            self,
            OperandKind::InlineMethod
                | OperandKind::InlineField
                | OperandKind::InlineType
                | OperandKind::InlineTok
                | OperandKind::InlineString
                | OperandKind::InlineSig
        )
    }
}

/// How many operands an instruction pops (VI.C).
#[derive(Clone, Copy, PartialEq, Eq, PartialOrd, Ord, Hash, Debug, Structural)]
#[non_exhaustive]
pub enum StackBehaviourPop {
    Pop0,
    Pop1,
    Pop1Pop1,
    PopI,
    PopIPop1,
    PopIPopI,
    PopIPopI8,
    PopIPopIPopI,
    PopIPopR4,
    PopIPopR8,
    PopRef,
    PopRefPop1,
    PopRefPopI,
    PopRefPopIPop1,
    PopRefPopIPopI,
    PopRefPopIPopI8,
    PopRefPopIPopR4,
    PopRefPopIPopR8,
    PopRefPopIPopRef,
    /// The count depends on the call signature.
    VarPop,
}

impl StackBehaviourPop {
    /// The number of stack slots popped, where it is fixed.
    pub open spec fn slots(self) -> Option<u8> {
        match self {
            StackBehaviourPop::Pop0 => Some(0),
            StackBehaviourPop::Pop1 | StackBehaviourPop::PopI | StackBehaviourPop::PopRef => Some(
                1,
            ),
            StackBehaviourPop::Pop1Pop1
            | StackBehaviourPop::PopIPop1
            | StackBehaviourPop::PopIPopI
            | StackBehaviourPop::PopIPopI8
            | StackBehaviourPop::PopIPopR4
            | StackBehaviourPop::PopIPopR8
            | StackBehaviourPop::PopRefPop1
            | StackBehaviourPop::PopRefPopI => Some(2),
            StackBehaviourPop::PopIPopIPopI
            | StackBehaviourPop::PopRefPopIPop1
            | StackBehaviourPop::PopRefPopIPopI
            | StackBehaviourPop::PopRefPopIPopI8
            | StackBehaviourPop::PopRefPopIPopR4
            | StackBehaviourPop::PopRefPopIPopR8
            | StackBehaviourPop::PopRefPopIPopRef => Some(3),
            StackBehaviourPop::VarPop => None,
        }
    }

    /// The number of stack slots popped, or `None` for [`StackBehaviourPop::VarPop`].
    pub fn count(self) -> (n: Option<u8>)
        ensures
            n == self.slots(),
    {
        match self {
            StackBehaviourPop::Pop0 => Some(0),
            StackBehaviourPop::Pop1 | StackBehaviourPop::PopI | StackBehaviourPop::PopRef => Some(
                1,
            ),
            StackBehaviourPop::Pop1Pop1
            | StackBehaviourPop::PopIPop1
            | StackBehaviourPop::PopIPopI
            | StackBehaviourPop::PopIPopI8
            | StackBehaviourPop::PopIPopR4
            | StackBehaviourPop::PopIPopR8
            | StackBehaviourPop::PopRefPop1
            | StackBehaviourPop::PopRefPopI => Some(2),
            StackBehaviourPop::PopIPopIPopI
            | StackBehaviourPop::PopRefPopIPop1
            | StackBehaviourPop::PopRefPopIPopI
            | StackBehaviourPop::PopRefPopIPopI8
            | StackBehaviourPop::PopRefPopIPopR4
            | StackBehaviourPop::PopRefPopIPopR8
            | StackBehaviourPop::PopRefPopIPopRef => Some(3),
            StackBehaviourPop::VarPop => None,
        }
    }
}

/// How many results an instruction pushes (VI.C).
#[derive(Clone, Copy, PartialEq, Eq, PartialOrd, Ord, Hash, Debug, Structural)]
#[non_exhaustive]
pub enum StackBehaviourPush {
    Push0,
    Push1,
    Push1Push1,
    PushI,
    PushI8,
    PushR4,
    PushR8,
    PushRef,
    /// The count depends on the call signature.
    VarPush,
}

impl StackBehaviourPush {
    /// The number of stack slots pushed, where it is fixed.
    pub open spec fn slots(self) -> Option<u8> {
        match self {
            StackBehaviourPush::Push0 => Some(0),
            StackBehaviourPush::Push1Push1 => Some(2),
            StackBehaviourPush::VarPush => None,
            _ => Some(1),
        }
    }

    /// The number of stack slots pushed, or `None` for [`StackBehaviourPush::VarPush`].
    pub fn count(self) -> (n: Option<u8>)
        ensures
            n == self.slots(),
    {
        match self {
            StackBehaviourPush::Push0 => Some(0),
            StackBehaviourPush::Push1
            | StackBehaviourPush::PushI
            | StackBehaviourPush::PushI8
            | StackBehaviourPush::PushR4
            | StackBehaviourPush::PushR8
            | StackBehaviourPush::PushRef => Some(1),
            StackBehaviourPush::Push1Push1 => Some(2),
            StackBehaviourPush::VarPush => None,
        }
    }
}

/// How an instruction affects control flow (VI.C).
#[derive(Clone, Copy, PartialEq, Eq, PartialOrd, Ord, Hash, Debug, Structural)]
#[non_exhaustive]
pub enum FlowControl {
    /// Execution continues with the next instruction.
    Next,
    /// An unconditional transfer.
    Branch,
    /// A conditional transfer.
    CondBranch,
    /// A call, which normally returns to the next instruction.
    Call,
    /// A return from the method.
    Return,
    /// An exception is raised.
    Throw,
    /// A debugger breakpoint.
    Break,
    /// A prefix or other instruction that does not itself transfer control.
    Meta,
}

impl FlowControl {
    /// True when the next instruction in address order cannot be reached.
    pub fn is_unconditional_transfer(self) -> (leaves: bool)
        ensures
            leaves == (self is Branch || self is Return || self is Throw),
    {
        matches!(self, FlowControl::Branch | FlowControl::Return | FlowControl::Throw)
    }
}

/// The category an opcode belongs to (VI.C).
#[derive(Clone, Copy, PartialEq, Eq, PartialOrd, Ord, Hash, Debug, Structural)]
#[non_exhaustive]
pub enum OpCodeKind {
    /// A base instruction.
    Primitive,
    /// A short or implied-operand encoding of a primitive instruction.
    Macro,
    /// An object-model instruction.
    ObjModel,
    /// An instruction prefix.
    Prefix,
    /// Reserved for the runtime.
    Internal,
}

/// The static facts about one opcode.
#[derive(Clone, Copy, PartialEq, Eq, Hash, Debug)]
pub struct OpCodeInfo {
    /// The canonical mnemonic, e.g. `"ldarg.0"` or `"conv.ovf.i1.un"`.
    pub name: &'static str,
    /// The encoding bytes; for a one-byte opcode the second byte is 0.
    pub encoding: [u8; 2],
    /// The number of encoding bytes, 1 or 2.
    pub size: u8,
    /// The operand shape.
    pub operand: OperandKind,
    /// What the instruction pops.
    pub pop: StackBehaviourPop,
    /// What the instruction pushes.
    pub push: StackBehaviourPush,
    /// How the instruction affects control flow.
    pub flow: FlowControl,
    /// The opcode category.
    pub kind: OpCodeKind,
}

/// The context of decoding errors.
pub const CONTEXT: &'static str = "CIL";

/// The context of errors about prefixes.
pub const PREFIX_CONTEXT: &'static str = "CIL prefix";

impl OpCode {
    /// The static facts about this opcode.
    pub fn info(self) -> (info: OpCodeInfo)
        ensures
            info == table::facts_of(self),
    {
        table::info_of(self)
    }

    /// The canonical mnemonic.
    pub fn name(self) -> (name: &'static str)
        ensures
            name == table::traits_of(self).name,
    {
        self.info().name
    }

    /// True when this opcode is an instruction prefix.
    pub open spec fn prefixes_another(self) -> bool {
        table::traits_of(self).kind is Prefix
    }

    /// True when this opcode is an instruction prefix.
    pub fn is_prefix(self) -> (prefix: bool)
        ensures
            prefix == self.prefixes_another(),
    {
        matches!(self.info().kind, OpCodeKind::Prefix)
    }

    /// The general-purpose opcode a short or macro encoding stands for.
    ///
    /// `ldarg.0`, `ldarg.s` and `ldarg` all map to `ldarg`; `ldc.i4.m1` and
    /// `ldc.i4.s` map to `ldc.i4`; `br.s` maps to `br`. Every other opcode maps
    /// to itself, so this reduces the encodings to the distinct semantic
    /// operations a consumer needs to dispatch on.
    pub fn canonical(self) -> (general: OpCode)
        ensures
            general == table::general_form(self),
    {
        table::canonical_of(self)
    }

    /// The opcode at the front of `bytes` and how many bytes encode it.
    pub open spec fn decoded(bytes: Seq<u8>) -> Result<(OpCode, usize)> {
        if bytes.len() == 0 {
            Err(Error::at(ErrorKind::Truncated, 0, CONTEXT))
        } else if bytes[0] != 0xFE {
            match table::one_byte(bytes[0]) {
                Some(op) => Ok((op, 1)),
                None => Err(Error::at(ErrorKind::UnknownOpcode, 0, CONTEXT)),
            }
        } else if bytes.len() == 1 {
            Err(Error::at(ErrorKind::Truncated, 1, CONTEXT))
        } else {
            match table::two_byte(bytes[1]) {
                Some(op) => Ok((op, 2)),
                None => Err(Error::at(ErrorKind::UnknownOpcode, 0, CONTEXT)),
            }
        }
    }

    /// Decodes an opcode from the front of `bytes`.
    ///
    /// Returns the opcode and the number of bytes it occupies, 1 or 2.
    pub fn from_bytes(bytes: &[u8]) -> (r: Result<(OpCode, usize)>)
        ensures
            r == OpCode::decoded(bytes@),
    {
        if bytes.len() == 0 {
            return Err(Error::new(ErrorKind::Truncated, 0, CONTEXT));
        }
        let first: u8 = bytes[0];
        if first == 0xFE {
            if bytes.len() < 2 {
                return Err(Error::new(ErrorKind::Truncated, 1, CONTEXT));
            }
            match table::decode_two(bytes[1]) {
                Some(op) => Ok((op, 2)),
                None => Err(Error::new(ErrorKind::UnknownOpcode, 0, CONTEXT)),
            }
        } else {
            match table::decode_one(first) {
                Some(op) => Ok((op, 1)),
                None => Err(Error::new(ErrorKind::UnknownOpcode, 0, CONTEXT)),
            }
        }
    }
}

/// Decoding the encoding bytes of an opcode, whatever follows them, gives the
/// opcode and its size back.
pub proof fn lemma_opcode_round_trip(op: OpCode, rest: Seq<u8>)
    ensures
        ({
            let info = table::facts_of(op);
            OpCode::decoded(info.encoding@.take(info.size as int) + rest) == Ok::<
                (OpCode, usize),
                Error,
            >((op, info.size as usize))
        }),
{
    table::lemma_encoding_decodes(op);
}

/// An opcode that decodes from the front of `bytes` is encoded by them.
pub proof fn lemma_opcode_decoded(bytes: Seq<u8>)
    ensures
        OpCode::decoded(bytes) matches Ok((op, size)) ==> size == table::facts_of(op).size
            && size <= bytes.len() && bytes.take(size as int) == table::facts_of(
            op,
        ).encoding@.take(size as int),
{
    if let Ok((op, size)) = OpCode::decoded(bytes) {
        table::lemma_decoded_encoding(bytes[0]);
        if size == 2 {
            table::lemma_decoded_encoding(bytes[1]);
        }
        assert(bytes.take(size as int) =~= table::facts_of(op).encoding@.take(size as int));
    }
}

/// The value of an operand.
#[verifier::ext_equal]
pub enum OperandModel {
    /// No operand.
    Absent,
    /// A one-byte signed value.
    I8(i8),
    /// A 4-byte signed integer.
    I32(i32),
    /// An 8-byte signed integer.
    I64(i64),
    /// The bits of a 4-byte float.
    R32(u32),
    /// The bits of an 8-byte float.
    R64(u64),
    /// An absolute IL offset.
    BranchTarget(u32),
    /// Absolute IL offsets, in table order.
    Switch(Seq<u32>),
    /// A method token.
    Method(Token),
    /// A field token.
    Field(Token),
    /// A type token.
    Type(Token),
    /// An unrestricted token.
    Tok(Token),
    /// A signature token.
    Sig(Token),
    /// A user string token.
    UserString(UserStringToken),
    /// A local or argument index.
    Var(u16),
}

impl OperandModel {
    /// The token, for the operand kinds that carry one.
    pub open spec fn token(self) -> Option<Token> {
        match self {
            OperandModel::Method(t)
            | OperandModel::Field(t)
            | OperandModel::Type(t)
            | OperandModel::Tok(t)
            | OperandModel::Sig(t) => Some(t),
            _ => None,
        }
    }

    /// The absolute branch targets.
    pub open spec fn targets(self) -> Seq<u32> {
        match self {
            OperandModel::BranchTarget(target) => seq![target],
            OperandModel::Switch(targets) => targets,
            _ => Seq::empty(),
        }
    }

    /// The operand byte of a prefix that carries one, read unsigned; 0 for
    /// every other operand.
    pub open spec fn byte(self) -> u8 {
        match self {
            OperandModel::I8(value) => (if value < 0 {
                value + 0x100
            } else {
                value as int
            }) as u8,
            _ => 0,
        }
    }
}

/// A decoded instruction operand.
///
/// Floats are carried as their bits, so two decodes of the same `ldc.r4 NaN`
/// are equal.
#[derive(Clone, PartialEq, Eq, Debug)]
#[non_exhaustive]
pub enum Operand {
    /// No operand, or a macro encoding with no implied value.
    Absent,
    /// A one-byte signed value that is not a widened constant, i.e. the `no.`
    /// prefix check mask.
    I8(i8),
    /// A 4-byte signed integer, including the widened `ldc.i4.s` and the
    /// constants implied by `ldc.i4.0` through `ldc.i4.8` and `ldc.i4.m1`.
    I32(i32),
    /// An 8-byte signed integer.
    I64(i64),
    /// The bits of a 4-byte float.
    R32(u32),
    /// The bits of an 8-byte float.
    R64(u64),
    /// An absolute IL offset, already resolved from the encoded delta.
    BranchTarget(u32),
    /// Absolute IL offsets for a `switch`, in table order.
    Switch(Vec<u32>),
    /// A method token from `call`, `callvirt`, `newobj`, `ldftn`, `jmp`.
    Method(Token),
    /// A field token from `ldfld`, `stsfld`, `ldflda`.
    Field(Token),
    /// A type token from `castclass`, `newarr`, `box`, `constrained.`.
    Type(Token),
    /// An unrestricted token from `ldtoken`.
    Tok(Token),
    /// A `StandAloneSig` token from `calli`.
    Sig(Token),
    /// A `#US` token from `ldstr`.
    String(UserStringToken),
    /// A local or argument index, widened from the short and macro encodings.
    Var(u16),
}

impl View for Operand {
    type V = OperandModel;

    open spec fn view(&self) -> OperandModel {
        match *self {
            Operand::Absent => OperandModel::Absent,
            Operand::I8(v) => OperandModel::I8(v),
            Operand::I32(v) => OperandModel::I32(v),
            Operand::I64(v) => OperandModel::I64(v),
            Operand::R32(v) => OperandModel::R32(v),
            Operand::R64(v) => OperandModel::R64(v),
            Operand::BranchTarget(v) => OperandModel::BranchTarget(v),
            Operand::Switch(v) => OperandModel::Switch(v@),
            Operand::Method(t) => OperandModel::Method(t),
            Operand::Field(t) => OperandModel::Field(t),
            Operand::Type(t) => OperandModel::Type(t),
            Operand::Tok(t) => OperandModel::Tok(t),
            Operand::Sig(t) => OperandModel::Sig(t),
            Operand::String(t) => OperandModel::UserString(t),
            Operand::Var(v) => OperandModel::Var(v),
        }
    }
}

impl Operand {
    /// The token, for the operand kinds that carry one.
    pub fn token(&self) -> (token: Option<Token>)
        ensures
            token == self@.token(),
    {
        match self {
            Operand::Method(t)
            | Operand::Field(t)
            | Operand::Type(t)
            | Operand::Tok(t)
            | Operand::Sig(t) => Some(*t),
            _ => None,
        }
    }

    /// The absolute branch targets of this operand, if it has any.
    pub fn branch_targets(&self) -> (targets: Vec<u32>)
        ensures
            targets@ == self@.targets(),
    {
        match self {
            Operand::BranchTarget(target) => {
                let targets: Vec<u32> = vec![*target];
                assert(targets@ =~= self@.targets());
                targets
            },
            Operand::Switch(targets) => {
                let copied: Vec<u32> = targets.clone();
                assert(copied@ =~= self@.targets());
                copied
            },
            _ => Vec::new(),
        }
    }

    /// The operand byte of a prefix, read unsigned.
    fn byte(&self) -> (byte: u8)
        ensures
            byte == self@.byte(),
    {
        match self {
            Operand::I8(value) => {
                let v: i8 = *value;
                assert(v >= 0 ==> v as u8 == v) by (bit_vector);
                assert(v < 0 ==> v as u8 == v + 0x100) by (bit_vector);
                v as u8
            },
            _ => 0,
        }
    }
}

/// True when the two lists hold the same offsets.
fn same_targets(a: &Vec<u32>, b: &Vec<u32>) -> (same: bool)
    ensures
        same == (a@ == b@),
{
    if a.len() != b.len() {
        return false;
    }
    let mut i: usize = 0;
    while i < a.len()
        invariant
            i <= a.len(),
            a.len() == b.len(),
            forall|k: int| 0 <= k < i ==> a@[k] == b@[k],
        decreases a.len() - i,
    {
        if a[i] != b[i] {
            assert(a@[i as int] != b@[i as int]);
            return false;
        }
        i = i + 1;
    }
    assert(a@ =~= b@);
    true
}

/// Bitwise operand equality, so that NaN constants compare equal to themselves.
pub fn same_operand(a: &Operand, b: &Operand) -> (same: bool)
    ensures
        same == (a@ == b@),
{
    match (a, b) {
        (Operand::Absent, Operand::Absent) => true,
        (Operand::I8(a), Operand::I8(b)) => *a == *b,
        (Operand::I32(a), Operand::I32(b)) => *a == *b,
        (Operand::I64(a), Operand::I64(b)) => *a == *b,
        (Operand::R32(a), Operand::R32(b)) => *a == *b,
        (Operand::R64(a), Operand::R64(b)) => *a == *b,
        (Operand::BranchTarget(a), Operand::BranchTarget(b)) => *a == *b,
        (Operand::Switch(a), Operand::Switch(b)) => same_targets(a, b),
        (Operand::Method(a), Operand::Method(b)) => *a == *b,
        (Operand::Field(a), Operand::Field(b)) => *a == *b,
        (Operand::Type(a), Operand::Type(b)) => *a == *b,
        (Operand::Tok(a), Operand::Tok(b)) => *a == *b,
        (Operand::Sig(a), Operand::Sig(b)) => *a == *b,
        (Operand::String(a), Operand::String(b)) => *a == *b,
        (Operand::Var(a), Operand::Var(b)) => *a == *b,
        _ => false,
    }
}

/// The value of an instruction.
#[verifier::ext_equal]
pub struct InstructionModel {
    /// The IL offset of the first opcode byte.
    pub offset: u32,
    /// The total encoded size.
    pub size: u32,
    /// The opcode as encoded.
    pub opcode: OpCode,
    /// The operand.
    pub operand: OperandModel,
}

/// `n` cut to 32 bits.
pub open spec fn low32(n: int) -> u32 {
    (n % 0x1_0000_0000) as u32
}

impl InstructionModel {
    /// The IL offset of the following instruction.
    pub open spec fn end(self) -> u32 {
        low32(self.offset + self.size)
    }
}

/// One decoded instruction.
#[derive(Clone, PartialEq, Eq, Debug)]
pub struct Instruction {
    /// The IL offset of the first opcode byte.
    pub offset: u32,
    /// The total encoded size: opcode bytes plus operand bytes.
    ///
    /// This is wider than one byte because a `switch` with more than 62
    /// targets is longer than 255 bytes.
    pub size: u32,
    /// The exact opcode as encoded, short and macro forms included.
    pub opcode: OpCode,
    /// The decoded operand.
    pub operand: Operand,
}

impl View for Instruction {
    type V = InstructionModel;

    open spec fn view(&self) -> InstructionModel {
        InstructionModel {
            offset: self.offset,
            size: self.size,
            opcode: self.opcode,
            operand: self.operand@,
        }
    }
}

impl Instruction {
    /// The IL offset of the following instruction.
    pub fn next_offset(&self) -> (offset: u32)
        ensures
            offset == self@.end(),
    {
        self.offset.wrapping_add(self.size)
    }

    /// The static facts about this instruction opcode.
    pub fn info(&self) -> (info: OpCodeInfo)
        ensures
            info == table::facts_of(self.opcode),
    {
        self.opcode.info()
    }
}

/// Which runtime checks a `no.` prefix suppresses (III.2.2).
#[derive(Clone, Copy, PartialEq, Eq, Hash, Debug, Structural)]
pub struct NoChecks {
    /// Skip the type check.
    pub typecheck: bool,
    /// Skip the array range check.
    pub rangecheck: bool,
    /// Skip the null check.
    pub nullcheck: bool,
}

impl NoChecks {
    /// The checks that the operand byte `bits` names.
    pub open spec fn of_bits(bits: u8) -> NoChecks {
        NoChecks {
            typecheck: bits % 2 == 1,
            rangecheck: bits / 2 % 2 == 1,
            nullcheck: bits / 4 % 2 == 1,
        }
    }

    /// True when no check is suppressed.
    pub open spec fn none(self) -> bool {
        !self.typecheck && !self.rangecheck && !self.nullcheck
    }

    /// Decodes the `no.` operand byte.
    pub fn from_bits(bits: u8) -> (checks: Self)
        ensures
            checks == NoChecks::of_bits(bits),
    {
        NoChecks {
            typecheck: bits % 2 == 1,
            rangecheck: bits / 2 % 2 == 1,
            nullcheck: bits / 4 % 2 == 1,
        }
    }

    /// True when no check is suppressed.
    pub fn is_empty(self) -> (empty: bool)
        ensures
            empty == self.none(),
    {
        !self.typecheck && !self.rangecheck && !self.nullcheck
    }
}

impl Default for NoChecks {
    fn default() -> (checks: Self)
        ensures
            checks.none(),
    {
        NoChecks { typecheck: false, rangecheck: false, nullcheck: false }
    }
}

/// The prefixes attached to one instruction.
#[derive(Clone, Copy, PartialEq, Eq, Hash, Debug)]
pub struct Prefixes {
    /// `constrained.` and the type token it carries.
    pub constrained: Option<Token>,
    /// `volatile.`.
    pub volatile: bool,
    /// `unaligned.` and the declared alignment, 1, 2 or 4.
    pub unaligned: Option<u8>,
    /// `tail.`.
    pub tail: bool,
    /// `readonly.`.
    pub readonly: bool,
    /// `no.` and the checks it suppresses.
    pub no: NoChecks,
}

impl Prefixes {
    /// No prefix at all.
    pub open spec fn absent() -> Prefixes {
        Prefixes {
            constrained: None,
            volatile: false,
            unaligned: None,
            tail: false,
            readonly: false,
            no: NoChecks { typecheck: false, rangecheck: false, nullcheck: false },
        }
    }

    /// True when no prefix is present.
    pub fn is_empty(&self) -> (empty: bool)
        ensures
            empty == (*self == Prefixes::absent()),
    {
        self.constrained.is_none() && !self.volatile && self.unaligned.is_none() && !self.tail
            && !self.readonly && self.no.is_empty()
    }

    /// True when `n` is an alignment that an `unaligned.` can declare.
    pub open spec fn is_alignment(n: u8) -> bool {
        n == 1 || n == 2 || n == 4
    }

    /// These prefixes with the one that `i` is added; a prefix may not repeat,
    /// an `unaligned.` has to declare an alignment, and a `no.` has to suppress
    /// something.
    pub open spec fn with(self, i: InstructionModel) -> Result<Prefixes> {
        let malformed = Error::at(ErrorKind::Malformed, i.offset as usize, PREFIX_CONTEXT);
        match i.opcode {
            OpCode::Constrained => if self.constrained is Some {
                Err(malformed)
            } else {
                Ok(Prefixes { constrained: i.operand.token(), ..self })
            },
            OpCode::Volatile => if self.volatile {
                Err(malformed)
            } else {
                Ok(Prefixes { volatile: true, ..self })
            },
            OpCode::Unaligned => if self.unaligned is Some || !Prefixes::is_alignment(
                i.operand.byte(),
            ) {
                Err(malformed)
            } else {
                Ok(Prefixes { unaligned: Some(i.operand.byte()), ..self })
            },
            OpCode::Tail => if self.tail {
                Err(malformed)
            } else {
                Ok(Prefixes { tail: true, ..self })
            },
            OpCode::Readonly => if self.readonly {
                Err(malformed)
            } else {
                Ok(Prefixes { readonly: true, ..self })
            },
            OpCode::No => if !self.no.none() || NoChecks::of_bits(i.operand.byte()).none() {
                Err(malformed)
            } else {
                Ok(Prefixes { no: NoChecks::of_bits(i.operand.byte()), ..self })
            },
            _ => Err(Error::at(ErrorKind::Unsupported, i.offset as usize, PREFIX_CONTEXT)),
        }
    }

    /// True when all these prefixes may precede `target`.
    ///
    /// `constrained.` is accepted before `call` and `ldftn` besides `callvirt`:
    /// static abstract interface members make it ordinary compiler output.
    pub open spec fn legal_on(self, target: OpCode) -> bool {
        &&& self.constrained is Some ==> target is Callvirt || target is Call || target is Ldftn
        &&& self.tail ==> target is Call || target is Calli || target is Callvirt
        &&& self.readonly ==> target is Ldelema || target is Call || target is Callvirt
        &&& self.volatile ==> may_be_volatile(target)
        &&& self.unaligned is Some ==> may_be_unaligned(target)
        &&& !self.no.none() ==> may_skip_checks(target)
    }
}

impl Default for Prefixes {
    fn default() -> (p: Self)
        ensures
            p == Prefixes::absent(),
    {
        Prefixes {
            constrained: None,
            volatile: false,
            unaligned: None,
            tail: false,
            readonly: false,
            no: NoChecks { typecheck: false, rangecheck: false, nullcheck: false },
        }
    }
}

/// The value of an instruction with its prefixes.
#[verifier::ext_equal]
pub struct FoldedModel {
    /// The prefixed instruction.
    pub instruction: InstructionModel,
    /// The prefixes that preceded it.
    pub prefixes: Prefixes,
    /// The IL offset of the first prefix, or of the instruction.
    pub first_offset: u32,
}

/// An instruction with its prefixes folded in.
#[derive(Clone, PartialEq, Eq, Debug)]
pub struct FoldedInstruction {
    /// The prefixed instruction itself.
    pub instruction: Instruction,
    /// The prefixes that preceded it.
    pub prefixes: Prefixes,
    /// The IL offset of the first prefix byte, or of the instruction when there
    /// are no prefixes. Use this and [`FoldedInstruction::end_offset`] to
    /// account for every byte of the method.
    pub first_offset: u32,
}

impl View for FoldedInstruction {
    type V = FoldedModel;

    open spec fn view(&self) -> FoldedModel {
        FoldedModel {
            instruction: self.instruction@,
            prefixes: self.prefixes,
            first_offset: self.first_offset,
        }
    }
}

impl FoldedInstruction {
    /// The IL offset just past the instruction.
    pub fn end_offset(&self) -> (offset: u32)
        ensures
            offset == self@.instruction.end(),
    {
        self.instruction.next_offset()
    }

    /// The total byte span of the prefixes and the instruction.
    pub fn total_size(&self) -> (size: u32)
        ensures
            size == low32(self@.instruction.end() - self.first_offset),
    {
        self.end_offset().wrapping_sub(self.first_offset)
    }
}

/// The offset `delta` bytes away from `next`, cut to 32 bits.
pub open spec fn branch_target(next: int, delta: int) -> u32 {
    low32(next + delta)
}

/// The operand of `op` at `at` of `code`, for an operand of fixed width.
pub open spec fn fixed_operand(op: OpCode, code: Seq<u8>, at: int) -> OperandModel {
    match table::traits_of(op).operand {
        OperandKind::InlineNone => match (table::var_implied_by(op), table::i32_implied_by(op)) {
            (Some(index), _) => OperandModel::Var(index),
            (None, Some(value)) => OperandModel::I32(value),
            (None, None) => OperandModel::Absent,
        },
        OperandKind::ShortInlineI => if op is LdcI4S {
            OperandModel::I32(reader::signed8(code[at]) as i32)
        } else {
            OperandModel::I8(reader::signed8(code[at]))
        },
        OperandKind::InlineI => OperandModel::I32(reader::signed32(reader::le32(code, at))),
        OperandKind::InlineI8 => OperandModel::I64(reader::signed64(reader::le64(code, at))),
        OperandKind::ShortInlineR => OperandModel::R32(reader::le32(code, at)),
        OperandKind::InlineR => OperandModel::R64(reader::le64(code, at)),
        OperandKind::ShortInlineVar => OperandModel::Var(code[at] as u16),
        OperandKind::InlineVar => OperandModel::Var(reader::le16(code, at)),
        OperandKind::ShortInlineBrTarget => OperandModel::BranchTarget(
            branch_target(at + 1, reader::signed8(code[at]) as int),
        ),
        OperandKind::InlineBrTarget => OperandModel::BranchTarget(
            branch_target(at + 4, reader::signed32(reader::le32(code, at)) as int),
        ),
        OperandKind::InlineSwitch => OperandModel::Absent,
        OperandKind::InlineMethod => OperandModel::Method(Token(reader::le32(code, at))),
        OperandKind::InlineField => OperandModel::Field(Token(reader::le32(code, at))),
        OperandKind::InlineType => OperandModel::Type(Token(reader::le32(code, at))),
        OperandKind::InlineTok => OperandModel::Tok(Token(reader::le32(code, at))),
        OperandKind::InlineSig => OperandModel::Sig(Token(reader::le32(code, at))),
        OperandKind::InlineString => OperandModel::UserString(
            UserStringToken(reader::le32(code, at)),
        ),
    }
}

/// The targets of the `switch` table of `count` entries at `at` of `code`; they
/// are relative to the end of the table.
pub open spec fn switch_targets(code: Seq<u8>, at: int, count: nat) -> Seq<u32> {
    Seq::new(
        count,
        |i: int|
            branch_target(
                at + 4 * count,
                reader::signed32(reader::le32(code, at + 4 * i)) as int,
            ),
    )
}

/// The operand of `op` at `at` of `code`, and where it ends.
pub open spec fn operand_at(op: OpCode, code: Seq<u8>, offset: u32, at: int) -> Result<
    (OperandModel, int),
> {
    match table::traits_of(op).operand.width() {
        Some(width) => if at + width <= code.len() {
            Ok((fixed_operand(op, code, at), at + width))
        } else {
            Err(Error::at(ErrorKind::Truncated, at as usize, CONTEXT))
        },
        None => if at + 4 > code.len() {
            Err(Error::at(ErrorKind::Truncated, at as usize, CONTEXT))
        } else {
            let count = reader::le32(code, at) as nat;
            if at + 4 + 4 * count > code.len() {
                Err(Error::at(ErrorKind::Truncated, offset as usize, CONTEXT))
            } else {
                Ok(
                    (
                        OperandModel::Switch(switch_targets(code, at + 4, count)),
                        at + 4 + 4 * count,
                    ),
                )
            }
        },
    }
}

/// The instruction at `offset` of `code`.
pub open spec fn instruction_at(code: Seq<u8>, offset: u32) -> Result<InstructionModel> {
    if offset > code.len() {
        Err(Error::at(ErrorKind::OutOfRange, offset as usize, CONTEXT))
    } else {
        match OpCode::decoded(code.skip(offset as int)) {
            Err(e) => Err(e.rebased(offset as usize)),
            Ok((opcode, width)) => match operand_at(opcode, code, offset, offset + width) {
                Err(e) => Err(e),
                Ok((operand, end)) => Ok(
                    InstructionModel { offset, size: low32(end - offset), opcode, operand },
                ),
            },
        }
    }
}

/// True when `r` is what `m` describes.
pub open spec fn same_instruction(
    r: Result<Instruction>,
    m: Result<InstructionModel>,
) -> bool {
    match r {
        Ok(i) => m == Ok::<InstructionModel, Error>(i@),
        Err(e) => m == Err::<InstructionModel, Error>(e),
    }
}

/// `end` plus a delta, as an IL offset.
fn resolve(end: usize, delta: i32) -> (target: u32)
    ensures
        target == branch_target(end as int, delta as int),
{
    let next: u32 = (end as u64 % 0x1_0000_0000) as u32;
    if delta >= 0 {
        next.wrapping_add(delta as u32)
    } else {
        next.wrapping_sub((-(delta as i64)) as u32)
    }
}

/// Reads the operand of `opcode`, at which `r` is; the instruction starts at
/// `offset`.
#[verifier::rlimit(50)]
fn read_operand(r: &mut Reader, opcode: OpCode, offset: u32) -> (result: Result<Operand>)
    requires
        old(r).wf(),
        old(r).base == 0,
        old(r).context == CONTEXT,
    ensures
        result matches Ok(operand) ==> old(r).pos <= final(r).pos && final(r).wf() && operand_at(
            opcode,
            old(r).data@,
            offset,
            old(r).pos as int,
        ) == Ok::<(OperandModel, int), Error>((operand@, final(r).pos as int)),
        result matches Err(e) ==> operand_at(opcode, old(r).data@, offset, old(r).pos as int)
            == Err::<(OperandModel, int), Error>(e),
{
    let operand: Operand = match opcode.info().operand {
        OperandKind::InlineNone => match (table::implied_var(opcode), table::implied_i32(opcode)) {
            (Some(index), _) => Operand::Var(index),
            (None, Some(value)) => Operand::I32(value),
            (None, None) => Operand::Absent,
        },
        OperandKind::ShortInlineI => {
            let value: i8 = r.i8()?;
            if matches!(opcode, OpCode::LdcI4S) {
                Operand::I32(value as i32)
            } else {
                Operand::I8(value)
            }
        },
        OperandKind::InlineI => Operand::I32(r.i32()?),
        OperandKind::InlineI8 => Operand::I64(r.i64()?),
        OperandKind::ShortInlineR => Operand::R32(r.u32()?),
        OperandKind::InlineR => Operand::R64(r.u64()?),
        OperandKind::ShortInlineVar => Operand::Var(r.u8()? as u16),
        OperandKind::InlineVar => Operand::Var(r.u16()?),
        OperandKind::ShortInlineBrTarget => {
            let delta: i8 = r.i8()?;
            Operand::BranchTarget(resolve(r.position(), delta as i32))
        },
        OperandKind::InlineBrTarget => {
            let delta: i32 = r.i32()?;
            Operand::BranchTarget(resolve(r.position(), delta))
        },
        OperandKind::InlineSwitch => {
            let count: u32 = r.u32()?;
            // Each target costs 4 bytes, so a count larger than the remaining
            // code is a lie; reject it before reserving anything.
            if count as u64 > r.remaining() as u64 / 4 {
                return Err(Error::new(ErrorKind::Truncated, offset as usize, CONTEXT));
            }
            Operand::Switch(read_targets(r, count as usize))
        },
        OperandKind::InlineMethod => Operand::Method(Token(r.u32()?)),
        OperandKind::InlineField => Operand::Field(Token(r.u32()?)),
        OperandKind::InlineType => Operand::Type(Token(r.u32()?)),
        OperandKind::InlineTok => Operand::Tok(Token(r.u32()?)),
        OperandKind::InlineSig => Operand::Sig(Token(r.u32()?)),
        OperandKind::InlineString => Operand::String(UserStringToken(r.u32()?)),
    };
    Ok(operand)
}

/// Decodes one instruction at `offset` in `code`.
pub fn decode_at(code: &[u8], offset: u32) -> (r: Result<Instruction>)
    ensures
        same_instruction(r, instruction_at(code@, offset)),
{
    let start: usize = offset as usize;
    if start > code.len() {
        return Err(Error::new(ErrorKind::OutOfRange, start, CONTEXT));
    }
    let (opcode, width): (OpCode, usize) = match OpCode::from_bytes(&code[start..code.len()]) {
        Ok(pair) => pair,
        Err(e) => {
            return Err(e.rebase(start));
        },
    };
    assert(code@.subrange(start as int, code@.len() as int) =~= code@.skip(offset as int));
    let mut r = Reader { data: code, pos: start + width, base: 0, context: CONTEXT };
    let operand: Operand = read_operand(&mut r, opcode, offset)?;
    let size: u32 = ((r.position() - start) as u64 % 0x1_0000_0000) as u32;
    Ok(Instruction { offset, size, opcode, operand })
}

/// Reads `count` branch deltas and resolves them against the end of the table.
fn read_targets(r: &mut Reader, count: usize) -> (targets: Vec<u32>)
    requires
        old(r).wf(),
        old(r).has(4 * count),
    ensures
        final(r).wf(),
        *final(r) == old(r).moved_to(old(r).pos + 4 * count),
        targets@ == switch_targets(old(r).data@, old(r).pos as int, count as nat),
{
    let mut targets: Vec<u32> = Vec::with_capacity(count);
    let end: usize = r.pos + 4 * count;
    let ghost first = *r;
    let mut i: usize = 0;
    while i < count
        invariant
            i <= count,
            first.has(4 * count),
            end == first.pos + 4 * count,
            *r == first.moved_to(first.pos + 4 * i),
            r.wf(),
            targets@ == switch_targets(first.data@, first.pos as int, count as nat).take(i as int),
        decreases count - i,
    {
        assert(r.has(4));
        if let Ok(delta) = r.i32() {
            targets.push(resolve(end, delta));
        }
        assert(targets@ =~= switch_targets(first.data@, first.pos as int, count as nat).take(i + 1));
        i = i + 1;
    }
    assert(targets@ =~= switch_targets(first.data@, first.pos as int, count as nat));
    targets
}

/// III.2.6: `volatile.` may precede these instructions.
pub open spec fn may_be_volatile(op: OpCode) -> bool {
    match op {
        OpCode::LdindI1
        | OpCode::LdindU1
        | OpCode::LdindI2
        | OpCode::LdindU2
        | OpCode::LdindI4
        | OpCode::LdindU4
        | OpCode::LdindI8
        | OpCode::LdindI
        | OpCode::LdindR4
        | OpCode::LdindR8
        | OpCode::LdindRef
        | OpCode::StindRef
        | OpCode::StindI1
        | OpCode::StindI2
        | OpCode::StindI4
        | OpCode::StindI8
        | OpCode::StindR4
        | OpCode::StindR8
        | OpCode::StindI
        | OpCode::Ldfld
        | OpCode::Stfld
        | OpCode::Ldsfld
        | OpCode::Stsfld
        | OpCode::Ldobj
        | OpCode::Stobj
        | OpCode::Initblk
        | OpCode::Cpblk => true,
        _ => false,
    }
}

/// III.2.6: `volatile.` may precede these instructions.
fn allows_volatile(op: OpCode) -> (allowed: bool)
    ensures
        allowed == may_be_volatile(op),
{
    matches!(
        op,
        OpCode::LdindI1
            | OpCode::LdindU1
            | OpCode::LdindI2
            | OpCode::LdindU2
            | OpCode::LdindI4
            | OpCode::LdindU4
            | OpCode::LdindI8
            | OpCode::LdindI
            | OpCode::LdindR4
            | OpCode::LdindR8
            | OpCode::LdindRef
            | OpCode::StindRef
            | OpCode::StindI1
            | OpCode::StindI2
            | OpCode::StindI4
            | OpCode::StindI8
            | OpCode::StindR4
            | OpCode::StindR8
            | OpCode::StindI
            | OpCode::Ldfld
            | OpCode::Stfld
            | OpCode::Ldsfld
            | OpCode::Stsfld
            | OpCode::Ldobj
            | OpCode::Stobj
            | OpCode::Initblk
            | OpCode::Cpblk
    )
}

/// III.2.5: `unaligned.` may precede these instructions.
pub open spec fn may_be_unaligned(op: OpCode) -> bool {
    match op {
        OpCode::LdindI1
        | OpCode::LdindU1
        | OpCode::LdindI2
        | OpCode::LdindU2
        | OpCode::LdindI4
        | OpCode::LdindU4
        | OpCode::LdindI8
        | OpCode::LdindI
        | OpCode::LdindR4
        | OpCode::LdindR8
        | OpCode::LdindRef
        | OpCode::StindRef
        | OpCode::StindI1
        | OpCode::StindI2
        | OpCode::StindI4
        | OpCode::StindI8
        | OpCode::StindR4
        | OpCode::StindR8
        | OpCode::StindI
        | OpCode::Ldfld
        | OpCode::Stfld
        | OpCode::Ldobj
        | OpCode::Stobj
        | OpCode::Initblk
        | OpCode::Cpblk => true,
        _ => false,
    }
}

/// III.2.5: `unaligned.` may precede these instructions.
fn allows_unaligned(op: OpCode) -> (allowed: bool)
    ensures
        allowed == may_be_unaligned(op),
{
    matches!(
        op,
        OpCode::LdindI1
            | OpCode::LdindU1
            | OpCode::LdindI2
            | OpCode::LdindU2
            | OpCode::LdindI4
            | OpCode::LdindU4
            | OpCode::LdindI8
            | OpCode::LdindI
            | OpCode::LdindR4
            | OpCode::LdindR8
            | OpCode::LdindRef
            | OpCode::StindRef
            | OpCode::StindI1
            | OpCode::StindI2
            | OpCode::StindI4
            | OpCode::StindI8
            | OpCode::StindR4
            | OpCode::StindR8
            | OpCode::StindI
            | OpCode::Ldfld
            | OpCode::Stfld
            | OpCode::Ldobj
            | OpCode::Stobj
            | OpCode::Initblk
            | OpCode::Cpblk
    )
}

/// III.2.2: `no.` may precede the instructions whose checks it can suppress.
pub open spec fn may_skip_checks(op: OpCode) -> bool {
    match op {
        OpCode::Castclass
        | OpCode::Isinst
        | OpCode::Unbox
        | OpCode::UnboxAny
        | OpCode::Ldelema
        | OpCode::Ldelem
        | OpCode::LdelemI1
        | OpCode::LdelemU1
        | OpCode::LdelemI2
        | OpCode::LdelemU2
        | OpCode::LdelemI4
        | OpCode::LdelemU4
        | OpCode::LdelemI8
        | OpCode::LdelemI
        | OpCode::LdelemR4
        | OpCode::LdelemR8
        | OpCode::LdelemRef
        | OpCode::Stelem
        | OpCode::StelemI
        | OpCode::StelemI1
        | OpCode::StelemI2
        | OpCode::StelemI4
        | OpCode::StelemI8
        | OpCode::StelemR4
        | OpCode::StelemR8
        | OpCode::StelemRef
        | OpCode::Ldfld
        | OpCode::Stfld
        | OpCode::Callvirt
        | OpCode::Ldvirtftn
        | OpCode::Ldlen => true,
        _ => false,
    }
}

/// III.2.2: `no.` may precede the instructions whose checks it can suppress.
fn allows_no(op: OpCode) -> (allowed: bool)
    ensures
        allowed == may_skip_checks(op),
{
    matches!(
        op,
        OpCode::Castclass
            | OpCode::Isinst
            | OpCode::Unbox
            | OpCode::UnboxAny
            | OpCode::Ldelema
            | OpCode::Ldelem
            | OpCode::LdelemI1
            | OpCode::LdelemU1
            | OpCode::LdelemI2
            | OpCode::LdelemU2
            | OpCode::LdelemI4
            | OpCode::LdelemU4
            | OpCode::LdelemI8
            | OpCode::LdelemI
            | OpCode::LdelemR4
            | OpCode::LdelemR8
            | OpCode::LdelemRef
            | OpCode::Stelem
            | OpCode::StelemI
            | OpCode::StelemI1
            | OpCode::StelemI2
            | OpCode::StelemI4
            | OpCode::StelemI8
            | OpCode::StelemR4
            | OpCode::StelemR8
            | OpCode::StelemRef
            | OpCode::Ldfld
            | OpCode::Stfld
            | OpCode::Callvirt
            | OpCode::Ldvirtftn
            | OpCode::Ldlen
    )
}

/// Adds the prefix that `instruction` is to `prefixes`.
fn apply_prefix(prefixes: Prefixes, instruction: &Instruction) -> (r: Result<Prefixes>)
    ensures
        r == prefixes.with(instruction@),
{
    let at: usize = instruction.offset as usize;
    let mut folded: Prefixes = prefixes;
    let malformed: bool = match instruction.opcode {
        OpCode::Constrained => {
            folded.constrained = instruction.operand.token();
            prefixes.constrained.is_some()
        },
        OpCode::Volatile => {
            folded.volatile = true;
            prefixes.volatile
        },
        OpCode::Unaligned => {
            let alignment: u8 = instruction.operand.byte();
            folded.unaligned = Some(alignment);
            prefixes.unaligned.is_some() || (alignment != 1 && alignment != 2 && alignment != 4)
        },
        OpCode::Tail => {
            folded.tail = true;
            prefixes.tail
        },
        OpCode::Readonly => {
            folded.readonly = true;
            prefixes.readonly
        },
        OpCode::No => {
            folded.no = NoChecks::from_bits(instruction.operand.byte());
            // A `no.` that suppresses nothing would be indistinguishable from
            // no prefix at all, so it is a structural error too.
            !prefixes.no.is_empty() || folded.no.is_empty()
        },
        _ => {
            return Err(Error::new(ErrorKind::Unsupported, at, PREFIX_CONTEXT));
        },
    };
    if malformed {
        Err(Error::new(ErrorKind::Malformed, at, PREFIX_CONTEXT))
    } else {
        Ok(folded)
    }
}

/// Tells whether all of `prefixes` may precede `target`.
fn check_prefix_targets(prefixes: &Prefixes, target: OpCode) -> (legal: bool)
    ensures
        legal == prefixes.legal_on(target),
{
    if prefixes.constrained.is_some() && !matches!(
        target,
        OpCode::Callvirt | OpCode::Call | OpCode::Ldftn
    ) {
        return false;
    }
    if prefixes.tail && !matches!(target, OpCode::Call | OpCode::Calli | OpCode::Callvirt) {
        return false;
    }
    if prefixes.readonly && !matches!(target, OpCode::Ldelema | OpCode::Call | OpCode::Callvirt) {
        return false;
    }
    if prefixes.volatile && !allows_volatile(target) {
        return false;
    }
    if prefixes.unaligned.is_some() && !allows_unaligned(target) {
        return false;
    }
    prefixes.no.is_empty() || allows_no(target)
}

/// A position in a code range that is being decoded.
#[verifier::ext_equal]
pub struct CodeCursor {
    /// The code.
    pub code: Seq<u8>,
    /// Where the next instruction starts.
    pub offset: u32,
    /// True when nothing more is decoded.
    pub done: bool,
}

impl CodeCursor {
    /// The start of `code`.
    pub open spec fn start(code: Seq<u8>) -> CodeCursor {
        CodeCursor { code, offset: 0, done: false }
    }

    /// True when there is something left to decode.
    pub open spec fn open(self) -> bool {
        !self.done && self.offset < self.code.len()
    }

    /// How much may be left to decode.
    pub open spec fn left(self) -> nat {
        if self.open() {
            (self.code.len() - self.offset) as nat
        } else {
            0
        }
    }

    /// The cursor with nothing more to decode.
    pub open spec fn stopped(self) -> CodeCursor {
        CodeCursor { done: true, ..self }
    }

    /// The instruction at the cursor, or the error there.
    pub open spec fn current(self) -> Result<InstructionModel> {
        instruction_at(self.code, self.offset)
    }

    /// The cursor behind the instruction at the cursor. It stops at an error,
    /// and where offsets would wrap.
    pub open spec fn advanced(self) -> CodeCursor {
        match self.current() {
            Ok(i) => if i.end() > self.offset {
                CodeCursor { offset: i.end(), ..self }
            } else {
                self.stopped()
            },
            Err(_) => self.stopped(),
        }
    }

    /// Everything that is decoded from here on: instructions, and at most one
    /// error at the end.
    pub open spec fn items(self) -> Seq<Result<InstructionModel>>
        decreases self.left(),
    {
        if !self.open() {
            Seq::empty()
        } else {
            seq![self.current()] + self.advanced().items()
        }
    }

    /// The next instruction that is no prefix, with `prefixes` and those that
    /// stand before it; `first` is where the first of them was. Also the cursor
    /// behind it.
    pub open spec fn fold(self, prefixes: Prefixes, first: Option<u32>) -> (
        Option<Result<FoldedModel>>,
        CodeCursor,
    )
        decreases self.left(),
    {
        if !self.open() {
            match first {
                None => (None, self),
                Some(at) => (
                    Some(
                        Err(
                            Error::at(
                                ErrorKind::InvalidPrefixTarget,
                                at as usize,
                                PREFIX_CONTEXT,
                            ),
                        ),
                    ),
                    self.stopped(),
                ),
            }
        } else {
            match self.current() {
                Err(e) => (Some(Err(e)), self.stopped()),
                Ok(i) => {
                    let at = match first {
                        Some(at) => at,
                        None => i.offset,
                    };
                    if i.opcode.prefixes_another() {
                        match prefixes.with(i) {
                            Err(e) => (Some(Err(e)), self.advanced().stopped()),
                            Ok(more) => self.advanced().fold(more, Some(at)),
                        }
                    } else if prefixes.legal_on(i.opcode) {
                        (
                            Some(Ok(FoldedModel { instruction: i, prefixes, first_offset: at })),
                            self.advanced(),
                        )
                    } else {
                        (
                            Some(
                                Err(
                                    Error::at(
                                        ErrorKind::InvalidPrefixTarget,
                                        at as usize,
                                        PREFIX_CONTEXT,
                                    ),
                                ),
                            ),
                            self.advanced().stopped(),
                        )
                    }
                },
            }
        }
    }

    /// The next instruction with its prefixes, and the cursor behind it.
    pub open spec fn next_folded(self) -> (Option<Result<FoldedModel>>, CodeCursor) {
        self.fold(Prefixes::absent(), None)
    }
}

/// The raw instruction stream of a method body; see
/// [`MethodBody::instructions`](crate::body::MethodBody::instructions).
#[derive(Clone, Debug)]
pub struct InstructionIter<'a> {
    code: &'a [u8],
    offset: u32,
    done: bool,
}

impl<'a> View for InstructionIter<'a> {
    type V = CodeCursor;

    closed spec fn view(&self) -> CodeCursor {
        CodeCursor { code: self.code@, offset: self.offset, done: self.done }
    }
}

impl<'a> InstructionIter<'a> {
    /// Decodes `code` from offset 0.
    pub fn new(code: &'a [u8]) -> (it: Self)
        ensures
            it@ == CodeCursor::start(code@),
    {
        InstructionIter { code, offset: 0, done: false }
    }

    /// The offset the next instruction will be decoded at.
    pub fn offset(&self) -> (offset: u32)
        ensures
            offset == self@.offset,
    {
        self.offset
    }

    /// The next instruction, or the error that ends the stream.
    pub fn next(&mut self) -> (r: Option<Result<Instruction>>)
        ensures
            r is Some <==> old(self)@.open(),
            r is None ==> final(self)@ == old(self)@,
            r matches Some(item) ==> same_instruction(item, old(self)@.current()) && final(self)@
                == old(self)@.advanced(),
    {
        if self.done || self.offset as u64 >= self.code.len() as u64 {
            return None;
        }
        match decode_at(self.code, self.offset) {
            Ok(instruction) => {
                // Every opcode is at least one byte, so the offset advances on
                // every step. The only way it could not is a code range long
                // enough to wrap a `u32`, which would loop forever; stop
                // instead, after yielding the instruction just decoded.
                let next: u32 = instruction.next_offset();
                if next <= self.offset {
                    self.done = true;
                } else {
                    self.offset = next;
                }
                Some(Ok(instruction))
            },
            Err(e) => {
                self.done = true;
                Some(Err(e))
            },
        }
    }

    /// Ends the stream.
    fn stop(&mut self)
        ensures
            final(self)@ == old(self)@.stopped(),
    {
        self.done = true;
    }
}

/// True when `r` is what `m` describes.
pub open spec fn same_folded(
    r: Option<Result<FoldedInstruction>>,
    m: Option<Result<FoldedModel>>,
) -> bool {
    match r {
        None => m is None,
        Some(Ok(f)) => m == Some(Ok::<FoldedModel, Error>(f@)),
        Some(Err(e)) => m == Some(Err::<FoldedModel, Error>(e)),
    }
}

/// The instruction stream with prefixes folded onto their targets; see
/// [`MethodBody::folded_instructions`](crate::body::MethodBody::folded_instructions).
#[derive(Clone, Debug)]
pub struct FoldedIter<'a> {
    inner: InstructionIter<'a>,
}

impl<'a> View for FoldedIter<'a> {
    type V = CodeCursor;

    closed spec fn view(&self) -> CodeCursor {
        self.inner@
    }
}

impl<'a> FoldedIter<'a> {
    /// Decodes `code` from offset 0.
    pub fn new(code: &'a [u8]) -> (it: Self)
        ensures
            it@ == CodeCursor::start(code@),
    {
        FoldedIter { inner: InstructionIter::new(code) }
    }

    /// The next instruction with its prefixes, or the error that ends the
    /// stream.
    pub fn next(&mut self) -> (r: Option<Result<FoldedInstruction>>)
        ensures
            same_folded(r, old(self)@.next_folded().0),
            final(self)@ == old(self)@.next_folded().1,
    {
        let mut prefixes = Prefixes::default();
        let mut first_offset: Option<u32> = None;
        loop
            invariant
                self@.fold(prefixes, first_offset) == old(self)@.next_folded(),
            decreases self@.left(),
        {
            let ghost here = self@;
            let item = match self.inner.next() {
                Some(item) => item,
                None => {
                    // The code ended on a prefix, which modifies nothing.
                    return match first_offset {
                        Some(at) => {
                            self.inner.stop();
                            Some(
                                Err(
                                    Error::new(
                                        ErrorKind::InvalidPrefixTarget,
                                        at as usize,
                                        PREFIX_CONTEXT,
                                    ),
                                ),
                            )
                        },
                        None => None,
                    };
                },
            };
            let instruction: Instruction = match item {
                Ok(instruction) => instruction,
                Err(e) => {
                    return Some(Err(e));
                },
            };
            let first: u32 = match first_offset {
                Some(at) => at,
                None => instruction.offset,
            };
            if instruction.opcode.is_prefix() {
                match apply_prefix(prefixes, &instruction) {
                    Ok(more) => {
                        prefixes = more;
                        first_offset = Some(first);
                    },
                    Err(e) => {
                        self.inner.stop();
                        return Some(Err(e));
                    },
                }
            } else {
                if !check_prefix_targets(&prefixes, instruction.opcode) {
                    self.inner.stop();
                    return Some(
                        Err(
                            Error::new(
                                ErrorKind::InvalidPrefixTarget,
                                first as usize,
                                PREFIX_CONTEXT,
                            ),
                        ),
                    );
                }
                return Some(Ok(FoldedInstruction { instruction, prefixes, first_offset: first }));
            }
        }
    }
}

/// An instruction has at least one byte and lies within the code.
///
/// A code range past 4 GiB is left out: sizes and offsets have 32 bits.
#[verifier::rlimit(50)]
pub proof fn lemma_instruction_within_code(code: Seq<u8>, offset: u32)
    requires
        code.len() <= u32::MAX,
    ensures
        instruction_at(code, offset) matches Ok(i) ==> i.offset == offset && i.size >= 1 && offset
            + i.size <= code.len() && i.end() == offset + i.size,
{
}

/// The number of operand bytes of `i`.
pub open spec fn operand_size(i: InstructionModel) -> int {
    match table::traits_of(i.opcode).operand.width() {
        Some(width) => width as int,
        None => 4 + 4 * (i.operand->Switch_0.len() as int),
    }
}

/// Code that has the same opcode and the same operand at an offset has the same
/// instruction there.
proof fn lemma_same_parts(code: Seq<u8>, other: Seq<u8>, offset: u32, opcode: OpCode, width: usize)
    requires
        offset <= code.len(),
        offset <= other.len(),
        OpCode::decoded(code.skip(offset as int)) == Ok::<(OpCode, usize), Error>((opcode, width)),
        OpCode::decoded(other.skip(offset as int)) == Ok::<(OpCode, usize), Error>((opcode, width)),
        operand_at(opcode, code, offset, offset + width) == operand_at(
            opcode,
            other,
            offset,
            offset + width,
        ),
    ensures
        instruction_at(code, offset) == instruction_at(other, offset),
{
}

/// An instruction takes the bytes of its opcode and of its operand.
#[verifier::rlimit(50)]
proof fn lemma_instruction_size(code: Seq<u8>, offset: u32)
    requires
        code.len() <= u32::MAX,
    ensures
        instruction_at(code, offset) matches Ok(i) ==> i.size == table::facts_of(i.opcode).size
            + operand_size(i),
{
    if let Ok(i) = instruction_at(code, offset) {
        lemma_instruction_within_code(code, offset);
        lemma_opcode_decoded(code.skip(offset as int));
    }
}

/// An operand ends within the code, and not before it starts.
proof fn lemma_operand_within(op: OpCode, code: Seq<u8>, offset: u32, at: int)
    requires
        0 <= at,
    ensures
        operand_at(op, code, offset, at) matches Ok((_, end)) ==> at <= end <= code.len(),
{
}

/// An opcode takes one byte or two.
proof fn lemma_opcode_width(bytes: Seq<u8>)
    ensures
        OpCode::decoded(bytes) matches Ok((_, width)) ==> 1 <= width <= 2,
{
}

/// The opcode and the operand that an instruction is made of.
#[verifier::spinoff_prover]
#[verifier::rlimit(60)]
proof fn lemma_instruction_parts(code: Seq<u8>, offset: u32, i: InstructionModel)
    requires
        code.len() <= u32::MAX,
        instruction_at(code, offset) == Ok::<InstructionModel, Error>(i),
    ensures
        offset <= code.len(),
        OpCode::decoded(code.skip(offset as int)) matches Ok((op, width)) && op == i.opcode
            && 1 <= width <= i.size && operand_at(op, code, offset, offset + width) == Ok::<
            (OperandModel, int),
            Error,
        >((i.operand, offset + i.size)),
        offset + i.size <= code.len(),
        i.end() == offset + i.size,
{
    lemma_instruction_within_code(code, offset);
    let bytes = code.skip(offset as int);
    lemma_opcode_width(bytes);
    let width = OpCode::decoded(bytes)->Ok_0.1;
    lemma_operand_within(i.opcode, code, offset, offset + width);
}

/// An opcode is a matter of its own bytes.
proof fn lemma_opcode_is_its_bytes(bytes: Seq<u8>, n: int)
    requires
        OpCode::decoded(bytes) matches Ok((_, width)) && width <= n <= bytes.len(),
    ensures
        OpCode::decoded(bytes.take(n)) == OpCode::decoded(bytes),
{
}

/// An instruction is a matter of its own bytes: the code cut off behind it
/// decodes to the same. They are those of its opcode and its operand.
#[verifier::spinoff_prover]
#[verifier::rlimit(50)]
pub proof fn lemma_instruction_is_its_bytes(code: Seq<u8>, offset: u32)
    requires
        code.len() <= u32::MAX,
    ensures
        instruction_at(code, offset) matches Ok(i) ==> {
            &&& instruction_at(code.take(i.end() as int), offset) == Ok::<InstructionModel, Error>(
                i,
            )
            &&& i.size == table::facts_of(i.opcode).size + operand_size(i)
        },
{
    if instruction_at(code, offset) is Ok {
        let i = instruction_at(code, offset)->Ok_0;
        lemma_instruction_parts(code, offset, i);
        let cut = code.take(i.end() as int);
        let bytes = code.skip(offset as int);
        let width = OpCode::decoded(bytes)->Ok_0.1;
        lemma_opcode_is_its_bytes(bytes, i.size as int);
        assert(cut.skip(offset as int) =~= bytes.take(i.size as int));
        lemma_operand_is_its_bytes(i.opcode, code, offset, offset + width, i.end() as int);
        lemma_same_parts(code, cut, offset, i.opcode, width);
        lemma_instruction_size(code, offset);
    }
}

/// The same of an operand.
#[verifier::rlimit(50)]
proof fn lemma_operand_is_its_bytes(op: OpCode, code: Seq<u8>, offset: u32, at: int, end: int)
    requires
        0 <= at <= end <= code.len(),
        operand_at(op, code, offset, at) matches Ok((_, e)) && e == end,
    ensures
        operand_at(op, code.take(end), offset, at) == operand_at(op, code, offset, at),
{
    let cut = code.take(end);
    match table::traits_of(op).operand.width() {
        Some(width) => {
            assert(fixed_operand(op, cut, at) == fixed_operand(op, code, at));
        },
        None => {
            assert(reader::le32(cut, at) == reader::le32(code, at));
            let count = reader::le32(code, at) as nat;
            assert forall|i: int| 0 <= i < count implies reader::le32(cut, at + 4 + 4 * i)
                == #[trigger] reader::le32(code, at + 4 + 4 * i) by {}
            assert(switch_targets(cut, at + 4, count) =~= switch_targets(code, at + 4, count));
        },
    }
}

/// The sizes of the instructions among `items`, summed up.
pub open spec fn total_size(items: Seq<Result<InstructionModel>>) -> int
    decreases items.len(),
{
    if items.len() == 0 {
        0
    } else {
        total_size(items.skip(1)) + match items[0] {
            Ok(i) => i.size as int,
            Err(_) => 0,
        }
    }
}

/// True when the instructions among `items` follow each other from `from` on
/// without a gap, and only the last item can be an error.
pub open spec fn contiguous(items: Seq<Result<InstructionModel>>, from: int) -> bool
    decreases items.len(),
{
    items.len() == 0 || match items[0] {
        Ok(i) => i.size >= 1 && i.offset == from && contiguous(items.skip(1), i.end() as int),
        Err(_) => items.len() == 1,
    }
}

proof fn lemma_items_tile(cursor: CodeCursor)
    requires
        cursor.code.len() <= u32::MAX,
        !cursor.done,
        cursor.offset <= cursor.code.len(),
    ensures
        contiguous(cursor.items(), cursor.offset as int),
        cursor.offset + total_size(cursor.items()) <= cursor.code.len(),
        cursor.items().len() == 0 || cursor.items().last() is Ok ==> cursor.offset + total_size(
            cursor.items(),
        ) == cursor.code.len(),
    decreases cursor.left(),
{
    if cursor.open() {
        lemma_instruction_within_code(cursor.code, cursor.offset);
        let rest = cursor.advanced().items();
        assert(cursor.items() =~= seq![cursor.current()] + rest);
        match cursor.current() {
            Ok(i) => {
                lemma_items_tile(cursor.advanced());
                assert(cursor.items().skip(1) =~= rest);
                if rest.len() > 0 {
                    assert(cursor.items().last() == rest.last());
                }
            },
            Err(_) => {
                assert(rest =~= Seq::empty());
                assert(cursor.items().skip(1) =~= rest);
                assert(total_size(rest) == 0);
            },
        }
    }
}

/// The instructions of a code range follow each other without a gap from its
/// start, and only the last item of the stream can be an error. Where there is
/// none, their sizes sum to exactly the length of the code.
pub proof fn lemma_instructions_tile(code: Seq<u8>)
    requires
        code.len() <= u32::MAX,
    ensures
        ({
            let items = CodeCursor::start(code).items();
            &&& contiguous(items, 0)
            &&& total_size(items) <= code.len()
            &&& items.len() == 0 || items.last() is Ok ==> total_size(items) == code.len()
        }),
{
    lemma_items_tile(CodeCursor::start(code));
}

proof fn lemma_items_decode(cursor: CodeCursor, k: int)
    requires
        0 <= k < cursor.items().len(),
    ensures
        cursor.items()[k] matches Ok(i) ==> instruction_at(cursor.code, i.offset) == Ok::<
            InstructionModel,
            Error,
        >(i),
    decreases k,
{
    let rest = cursor.advanced().items();
    assert(cursor.items() =~= seq![cursor.current()] + rest);
    if k > 0 {
        assert(cursor.items()[k] == rest[k - 1]);
        lemma_items_decode(cursor.advanced(), k - 1);
    }
}

/// Every instruction of the stream is what its own offset decodes to.
pub proof fn lemma_stream_decodes_again(code: Seq<u8>, k: int)
    requires
        0 <= k < CodeCursor::start(code).items().len(),
    ensures
        CodeCursor::start(code).items()[k] matches Ok(i) ==> instruction_at(code, i.offset) == Ok::<
            InstructionModel,
            Error,
        >(i),
{
    lemma_items_decode(CodeCursor::start(code), k);
}

/// What folding makes of an open cursor: the instruction is no prefix and may
/// carry its prefixes, it spans from the first prefix to where the cursor is
/// left, and an error ends the stream.
pub proof fn lemma_fold_spans(cursor: CodeCursor, prefixes: Prefixes, first: Option<u32>)
    requires
        cursor.code.len() <= u32::MAX,
        cursor.open(),
    ensures
        ({
            let (item, next) = cursor.fold(prefixes, first);
            &&& item is Some
            &&& next.code == cursor.code
            &&& next.left() < cursor.left()
            &&& item->0 matches Ok(f) ==> {
                &&& f.first_offset == match first {
                    Some(at) => at,
                    None => cursor.offset,
                }
                &&& !f.instruction.opcode.prefixes_another()
                &&& f.prefixes.legal_on(f.instruction.opcode)
                &&& cursor.offset <= f.instruction.offset < f.instruction.end() <= cursor.code.len()
                &&& next.offset == f.instruction.end() && !next.done
                &&& instruction_at(cursor.code, f.instruction.offset) == Ok::<
                    InstructionModel,
                    Error,
                >(f.instruction)
            }
            &&& item->0 is Err ==> next.done
        }),
    decreases cursor.left(),
{
    reveal_with_fuel(CodeCursor::fold, 2);
    lemma_instruction_within_code(cursor.code, cursor.offset);
    if let Ok(i) = cursor.current() {
        if i.opcode.prefixes_another() {
            if let Ok(more) = prefixes.with(i) {
                let at = match first {
                    Some(at) => at,
                    None => i.offset,
                };
                let next = cursor.advanced();
                if next.open() {
                    lemma_fold_spans(next, more, Some(at));
                }
            }
        }
    }
}

/// A prefix instruction leaves its mark on the prefixes it is added to.
proof fn lemma_prefix_shows(prefixes: Prefixes, code: Seq<u8>, offset: u32)
    ensures
        instruction_at(code, offset) matches Ok(i) ==> (prefixes.with(i) matches Ok(more)
            ==> more != Prefixes::absent()),
{
    if let Ok(i) = instruction_at(code, offset) {
        if i.opcode is Constrained {
            assert(i.operand is Type);
        }
    }
}

/// The same as [`lemma_folded_prefixes`], from the midst of the prefixes.
proof fn lemma_fold_prefixes(cursor: CodeCursor, prefixes: Prefixes, first: Option<u32>)
    requires
        first is None <==> prefixes == Prefixes::absent(),
        first matches Some(at) ==> at < cursor.offset,
        prefixes.unaligned matches Some(n) ==> Prefixes::is_alignment(n),
    ensures
        cursor.fold(prefixes, first).0 matches Some(Ok(f)) ==> {
            &&& f.prefixes == Prefixes::absent() <==> f.first_offset == f.instruction.offset
            &&& f.prefixes.unaligned matches Some(n) ==> Prefixes::is_alignment(n)
        },
    decreases cursor.left(),
{
    reveal_with_fuel(CodeCursor::fold, 2);
    if cursor.open() {
        if let Ok(i) = cursor.current() {
            if i.opcode.prefixes_another() {
                if let Ok(more) = prefixes.with(i) {
                    lemma_prefix_shows(prefixes, cursor.code, cursor.offset);
                    let at = match first {
                        Some(at) => at,
                        None => i.offset,
                    };
                    if cursor.advanced().open() {
                        lemma_fold_prefixes(cursor.advanced(), more, Some(at));
                    }
                }
            }
        }
    }
}

/// A folded instruction has no prefix exactly when it starts at its own offset,
/// and an `unaligned.` of it declares an alignment of 1, 2 or 4.
pub proof fn lemma_folded_prefixes(cursor: CodeCursor)
    ensures
        cursor.next_folded().0 matches Some(Ok(f)) ==> {
            &&& f.prefixes == Prefixes::absent() <==> f.first_offset == f.instruction.offset
            &&& f.prefixes.unaligned matches Some(n) ==> Prefixes::is_alignment(n)
        },
{
    lemma_fold_prefixes(cursor, Prefixes::absent(), None);
}

impl CodeCursor {
    /// Everything that folding yields from here on: instructions with their
    /// prefixes, and at most one error at the end.
    pub open spec fn folded_items(self) -> Seq<Result<FoldedModel>>
        decreases self.left(),
    {
        let (item, next) = self.next_folded();
        match item {
            None => Seq::empty(),
            Some(item) => if next.left() < self.left() {
                seq![item] + next.folded_items()
            } else {
                seq![item]
            },
        }
    }
}

/// True when the spans of `items`, prefixes included, follow each other from
/// `from` on without a gap, no folded instruction is a prefix, and only the
/// last item can be an error.
pub open spec fn folded_contiguous(items: Seq<Result<FoldedModel>>, from: int) -> bool
    decreases items.len(),
{
    items.len() == 0 || match items[0] {
        Ok(f) => {
            &&& f.first_offset == from
            &&& f.first_offset < f.instruction.end()
            &&& !f.instruction.opcode.prefixes_another()
            &&& folded_contiguous(items.skip(1), f.instruction.end() as int)
        },
        Err(_) => items.len() == 1,
    }
}

/// An instruction before a stream that starts where it ends.
proof fn lemma_folded_prepended(f: FoldedModel, rest: Seq<Result<FoldedModel>>)
    requires
        folded_contiguous(rest, f.instruction.end() as int),
        f.first_offset < f.instruction.end(),
        !f.instruction.opcode.prefixes_another(),
    ensures
        folded_contiguous(seq![Ok::<FoldedModel, Error>(f)] + rest, f.first_offset as int),
{
    let items = seq![Ok::<FoldedModel, Error>(f)] + rest;
    assert(items.skip(1) =~= rest);
}

/// True when the folded items of `code` from `from` on account for every byte.
spec fn folded_tile(code: Seq<u8>, items: Seq<Result<FoldedModel>>, from: int) -> bool {
    &&& folded_contiguous(items, from)
    &&& items.len() == 0 ==> from == code.len()
    &&& items.len() > 0 ==> (items.last() matches Ok(f) ==> f.instruction.end() == code.len())
}

#[verifier::spinoff_prover]
#[verifier::rlimit(80)]
proof fn lemma_folded_items_tile(cursor: CodeCursor)
    requires
        cursor.code.len() <= u32::MAX,
        !cursor.done,
        cursor.offset <= cursor.code.len(),
    ensures
        folded_tile(cursor.code, cursor.folded_items(), cursor.offset as int),
    decreases cursor.left(),
{
    if cursor.open() {
        lemma_fold_spans(cursor, Prefixes::absent(), None);
        let (item, next) = cursor.next_folded();
        let rest = next.folded_items();
        assert(cursor.folded_items() == seq![item->0] + rest);
        match item->0 {
            Ok(f) => {
                lemma_folded_items_tile(next);
                lemma_folded_prepended(f, rest);
            },
            Err(_) => {
                assert(rest =~= Seq::empty());
            },
        }
    }
}

/// The folded instructions account for every byte of the code: their spans,
/// prefixes included, follow each other without a gap from its start, and where
/// no error ends the stream the last one ends with the code.
pub proof fn lemma_folded_instructions_tile(code: Seq<u8>)
    requires
        code.len() <= u32::MAX,
    ensures
        ({
            let items = CodeCursor::start(code).folded_items();
            &&& folded_contiguous(items, 0)
            &&& items.len() == 0 ==> code.len() == 0
            &&& items.len() > 0 ==> (items.last() matches Ok(f) ==> f.instruction.end()
                == code.len())
        }),
{
    lemma_folded_items_tile(CodeCursor::start(code));
}

} // verus!
