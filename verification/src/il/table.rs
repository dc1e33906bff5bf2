//! The CIL opcodes and the static facts about each of them (VI.C).
use vstd::prelude::*;

use crate::il::FlowControl::{Branch, Break, Call, CondBranch, Meta, Next, Return, Throw};
use crate::il::OpCodeKind::{Macro, ObjModel, Prefix, Primitive};
use crate::il::OperandKind::{
    InlineBrTarget, InlineField, InlineI, InlineI8, InlineMethod, InlineNone, InlineR, InlineSig,
    InlineString, InlineSwitch, InlineTok, InlineType, InlineVar, ShortInlineBrTarget,
    ShortInlineI, ShortInlineR, ShortInlineVar,
};
use crate::il::StackBehaviourPop::{
    Pop0, Pop1, Pop1Pop1, PopI, PopIPop1, PopIPopI, PopIPopI8, PopIPopIPopI, PopIPopR4, PopIPopR8,
    PopRef, PopRefPop1, PopRefPopI, PopRefPopIPop1, PopRefPopIPopI, PopRefPopIPopI8,
    PopRefPopIPopR4, PopRefPopIPopR8, PopRefPopIPopRef, VarPop,
};
use crate::il::StackBehaviourPush::{
    Push0, Push1, Push1Push1, PushI, PushI8, PushR4, PushR8, PushRef, VarPush,
};
use crate::il::{
    FlowControl, OpCodeInfo, OpCodeKind, OperandKind, StackBehaviourPop, StackBehaviourPush,
};

verus! {

/// How many opcodes are defined.
pub const OPCODE_COUNT: usize = 219;

/// A CIL opcode; short and macro encodings are opcodes of their own.
#[derive(Clone, Copy, PartialEq, Eq, PartialOrd, Ord, Hash, Debug, Structural)]
#[non_exhaustive]
pub enum OpCode {
    /// `nop`, encoded as `0x00`.
    Nop,
    /// `break`, encoded as `0x01`.
    Break,
    /// `ldarg.0`, encoded as `0x02`.
    Ldarg0,
    /// `ldarg.1`, encoded as `0x03`.
    Ldarg1,
    /// `ldarg.2`, encoded as `0x04`.
    Ldarg2,
    /// `ldarg.3`, encoded as `0x05`.
    Ldarg3,
    /// `ldloc.0`, encoded as `0x06`.
    Ldloc0,
    /// `ldloc.1`, encoded as `0x07`.
    Ldloc1,
    /// `ldloc.2`, encoded as `0x08`.
    Ldloc2,
    /// `ldloc.3`, encoded as `0x09`.
    Ldloc3,
    /// `stloc.0`, encoded as `0x0A`.
    Stloc0,
    /// `stloc.1`, encoded as `0x0B`.
    Stloc1,
    /// `stloc.2`, encoded as `0x0C`.
    Stloc2,
    /// `stloc.3`, encoded as `0x0D`.
    Stloc3,
    /// `ldarg.s`, encoded as `0x0E`.
    LdargS,
    /// `ldarga.s`, encoded as `0x0F`.
    LdargaS,
    /// `starg.s`, encoded as `0x10`.
    StargS,
    /// `ldloc.s`, encoded as `0x11`.
    LdlocS,
    /// `ldloca.s`, encoded as `0x12`.
    LdlocaS,
    /// `stloc.s`, encoded as `0x13`.
    StlocS,
    /// `ldnull`, encoded as `0x14`.
    Ldnull,
    /// `ldc.i4.m1`, encoded as `0x15`.
    LdcI4M1,
    /// `ldc.i4.0`, encoded as `0x16`.
    LdcI40,
    /// `ldc.i4.1`, encoded as `0x17`.
    LdcI41,
    /// `ldc.i4.2`, encoded as `0x18`.
    LdcI42,
    /// `ldc.i4.3`, encoded as `0x19`.
    LdcI43,
    /// `ldc.i4.4`, encoded as `0x1A`.
    LdcI44,
    /// `ldc.i4.5`, encoded as `0x1B`.
    LdcI45,
    /// `ldc.i4.6`, encoded as `0x1C`.
    LdcI46,
    /// `ldc.i4.7`, encoded as `0x1D`.
    LdcI47,
    /// `ldc.i4.8`, encoded as `0x1E`.
    LdcI48,
    /// `ldc.i4.s`, encoded as `0x1F`.
    LdcI4S,
    /// `ldc.i4`, encoded as `0x20`.
    LdcI4,
    /// `ldc.i8`, encoded as `0x21`.
    LdcI8,
    /// `ldc.r4`, encoded as `0x22`.
    LdcR4,
    /// `ldc.r8`, encoded as `0x23`.
    LdcR8,
    /// `dup`, encoded as `0x25`.
    Dup,
    /// `pop`, encoded as `0x26`.
    Pop,
    /// `jmp`, encoded as `0x27`.
    Jmp,
    /// `call`, encoded as `0x28`.
    Call,
    /// `calli`, encoded as `0x29`.
    Calli,
    /// `ret`, encoded as `0x2A`.
    Ret,
    /// `br.s`, encoded as `0x2B`.
    BrS,
    /// `brfalse.s`, encoded as `0x2C`.
    BrfalseS,
    /// `brtrue.s`, encoded as `0x2D`.
    BrtrueS,
    /// `beq.s`, encoded as `0x2E`.
    BeqS,
    /// `bge.s`, encoded as `0x2F`.
    BgeS,
    /// `bgt.s`, encoded as `0x30`.
    BgtS,
    /// `ble.s`, encoded as `0x31`.
    BleS,
    /// `blt.s`, encoded as `0x32`.
    BltS,
    /// `bne.un.s`, encoded as `0x33`.
    BneUnS,
    /// `bge.un.s`, encoded as `0x34`.
    BgeUnS,
    /// `bgt.un.s`, encoded as `0x35`.
    BgtUnS,
    /// `ble.un.s`, encoded as `0x36`.
    BleUnS,
    /// `blt.un.s`, encoded as `0x37`.
    BltUnS,
    /// `br`, encoded as `0x38`.
    Br,
    /// `brfalse`, encoded as `0x39`.
    Brfalse,
    /// `brtrue`, encoded as `0x3A`.
    Brtrue,
    /// `beq`, encoded as `0x3B`.
    Beq,
    /// `bge`, encoded as `0x3C`.
    Bge,
    /// `bgt`, encoded as `0x3D`.
    Bgt,
    /// `ble`, encoded as `0x3E`.
    Ble,
    /// `blt`, encoded as `0x3F`.
    Blt,
    /// `bne.un`, encoded as `0x40`.
    BneUn,
    /// `bge.un`, encoded as `0x41`.
    BgeUn,
    /// `bgt.un`, encoded as `0x42`.
    BgtUn,
    /// `ble.un`, encoded as `0x43`.
    BleUn,
    /// `blt.un`, encoded as `0x44`.
    BltUn,
    /// `switch`, encoded as `0x45`.
    Switch,
    /// `ldind.i1`, encoded as `0x46`.
    LdindI1,
    /// `ldind.u1`, encoded as `0x47`.
    LdindU1,
    /// `ldind.i2`, encoded as `0x48`.
    LdindI2,
    /// `ldind.u2`, encoded as `0x49`.
    LdindU2,
    /// `ldind.i4`, encoded as `0x4A`.
    LdindI4,
    /// `ldind.u4`, encoded as `0x4B`.
    LdindU4,
    /// `ldind.i8`, encoded as `0x4C`.
    LdindI8,
    /// `ldind.i`, encoded as `0x4D`.
    LdindI,
    /// `ldind.r4`, encoded as `0x4E`.
    LdindR4,
    /// `ldind.r8`, encoded as `0x4F`.
    LdindR8,
    /// `ldind.ref`, encoded as `0x50`.
    LdindRef,
    /// `stind.ref`, encoded as `0x51`.
    StindRef,
    /// `stind.i1`, encoded as `0x52`.
    StindI1,
    /// `stind.i2`, encoded as `0x53`.
    StindI2,
    /// `stind.i4`, encoded as `0x54`.
    StindI4,
    /// `stind.i8`, encoded as `0x55`.
    StindI8,
    /// `stind.r4`, encoded as `0x56`.
    StindR4,
    /// `stind.r8`, encoded as `0x57`.
    StindR8,
    /// `add`, encoded as `0x58`.
    Add,
    /// `sub`, encoded as `0x59`.
    Sub,
    /// `mul`, encoded as `0x5A`.
    Mul,
    /// `div`, encoded as `0x5B`.
    Div,
    /// `div.un`, encoded as `0x5C`.
    DivUn,
    /// `rem`, encoded as `0x5D`.
    Rem,
    /// `rem.un`, encoded as `0x5E`.
    RemUn,
    /// `and`, encoded as `0x5F`.
    And,
    /// `or`, encoded as `0x60`.
    Or,
    /// `xor`, encoded as `0x61`.
    Xor,
    /// `shl`, encoded as `0x62`.
    Shl,
    /// `shr`, encoded as `0x63`.
    Shr,
    /// `shr.un`, encoded as `0x64`.
    ShrUn,
    /// `neg`, encoded as `0x65`.
    Neg,
    /// `not`, encoded as `0x66`.
    Not,
    /// `conv.i1`, encoded as `0x67`.
    ConvI1,
    /// `conv.i2`, encoded as `0x68`.
    ConvI2,
    /// `conv.i4`, encoded as `0x69`.
    ConvI4,
    /// `conv.i8`, encoded as `0x6A`.
    ConvI8,
    /// `conv.r4`, encoded as `0x6B`.
    ConvR4,
    /// `conv.r8`, encoded as `0x6C`.
    ConvR8,
    /// `conv.u4`, encoded as `0x6D`.
    ConvU4,
    /// `conv.u8`, encoded as `0x6E`.
    ConvU8,
    /// `callvirt`, encoded as `0x6F`.
    Callvirt,
    /// `cpobj`, encoded as `0x70`.
    Cpobj,
    /// `ldobj`, encoded as `0x71`.
    Ldobj,
    /// `ldstr`, encoded as `0x72`.
    Ldstr,
    /// `newobj`, encoded as `0x73`.
    Newobj,
    /// `castclass`, encoded as `0x74`.
    Castclass,
    /// `isinst`, encoded as `0x75`.
    Isinst,
    /// `conv.r.un`, encoded as `0x76`.
    ConvRUn,
    /// `unbox`, encoded as `0x79`.
    Unbox,
    /// `throw`, encoded as `0x7A`.
    Throw,
    /// `ldfld`, encoded as `0x7B`.
    Ldfld,
    /// `ldflda`, encoded as `0x7C`.
    Ldflda,
    /// `stfld`, encoded as `0x7D`.
    Stfld,
    /// `ldsfld`, encoded as `0x7E`.
    Ldsfld,
    /// `ldsflda`, encoded as `0x7F`.
    Ldsflda,
    /// `stsfld`, encoded as `0x80`.
    Stsfld,
    /// `stobj`, encoded as `0x81`.
    Stobj,
    /// `conv.ovf.i1.un`, encoded as `0x82`.
    ConvOvfI1Un,
    /// `conv.ovf.i2.un`, encoded as `0x83`.
    ConvOvfI2Un,
    /// `conv.ovf.i4.un`, encoded as `0x84`.
    ConvOvfI4Un,
    /// `conv.ovf.i8.un`, encoded as `0x85`.
    ConvOvfI8Un,
    /// `conv.ovf.u1.un`, encoded as `0x86`.
    ConvOvfU1Un,
    /// `conv.ovf.u2.un`, encoded as `0x87`.
    ConvOvfU2Un,
    /// `conv.ovf.u4.un`, encoded as `0x88`.
    ConvOvfU4Un,
    /// `conv.ovf.u8.un`, encoded as `0x89`.
    ConvOvfU8Un,
    /// `conv.ovf.i.un`, encoded as `0x8A`.
    ConvOvfIUn,
    /// `conv.ovf.u.un`, encoded as `0x8B`.
    ConvOvfUUn,
    /// `box`, encoded as `0x8C`.
    Box,
    /// `newarr`, encoded as `0x8D`.
    Newarr,
    /// `ldlen`, encoded as `0x8E`.
    Ldlen,
    /// `ldelema`, encoded as `0x8F`.
    Ldelema,
    /// `ldelem.i1`, encoded as `0x90`.
    LdelemI1,
    /// `ldelem.u1`, encoded as `0x91`.
    LdelemU1,
    /// `ldelem.i2`, encoded as `0x92`.
    LdelemI2,
    /// `ldelem.u2`, encoded as `0x93`.
    LdelemU2,
    /// `ldelem.i4`, encoded as `0x94`.
    LdelemI4,
    /// `ldelem.u4`, encoded as `0x95`.
    LdelemU4,
    /// `ldelem.i8`, encoded as `0x96`.
    LdelemI8,
    /// `ldelem.i`, encoded as `0x97`.
    LdelemI,
    /// `ldelem.r4`, encoded as `0x98`.
    LdelemR4,
    /// `ldelem.r8`, encoded as `0x99`.
    LdelemR8,
    /// `ldelem.ref`, encoded as `0x9A`.
    LdelemRef,
    /// `stelem.i`, encoded as `0x9B`.
    StelemI,
    /// `stelem.i1`, encoded as `0x9C`.
    StelemI1,
    /// `stelem.i2`, encoded as `0x9D`.
    StelemI2,
    /// `stelem.i4`, encoded as `0x9E`.
    StelemI4,
    /// `stelem.i8`, encoded as `0x9F`.
    StelemI8,
    /// `stelem.r4`, encoded as `0xA0`.
    StelemR4,
    /// `stelem.r8`, encoded as `0xA1`.
    StelemR8,
    /// `stelem.ref`, encoded as `0xA2`.
    StelemRef,
    /// `ldelem`, encoded as `0xA3`.
    Ldelem,
    /// `stelem`, encoded as `0xA4`.
    Stelem,
    /// `unbox.any`, encoded as `0xA5`.
    UnboxAny,
    /// `conv.ovf.i1`, encoded as `0xB3`.
    ConvOvfI1,
    /// `conv.ovf.u1`, encoded as `0xB4`.
    ConvOvfU1,
    /// `conv.ovf.i2`, encoded as `0xB5`.
    ConvOvfI2,
    /// `conv.ovf.u2`, encoded as `0xB6`.
    ConvOvfU2,
    /// `conv.ovf.i4`, encoded as `0xB7`.
    ConvOvfI4,
    /// `conv.ovf.u4`, encoded as `0xB8`.
    ConvOvfU4,
    /// `conv.ovf.i8`, encoded as `0xB9`.
    ConvOvfI8,
    /// `conv.ovf.u8`, encoded as `0xBA`.
    ConvOvfU8,
    /// `refanyval`, encoded as `0xC2`.
    Refanyval,
    /// `ckfinite`, encoded as `0xC3`.
    Ckfinite,
    /// `mkrefany`, encoded as `0xC6`.
    Mkrefany,
    /// `ldtoken`, encoded as `0xD0`.
    Ldtoken,
    /// `conv.u2`, encoded as `0xD1`.
    ConvU2,
    /// `conv.u1`, encoded as `0xD2`.
    ConvU1,
    /// `conv.i`, encoded as `0xD3`.
    ConvI,
    /// `conv.ovf.i`, encoded as `0xD4`.
    ConvOvfI,
    /// `conv.ovf.u`, encoded as `0xD5`.
    ConvOvfU,
    /// `add.ovf`, encoded as `0xD6`.
    AddOvf,
    /// `add.ovf.un`, encoded as `0xD7`.
    AddOvfUn,
    /// `mul.ovf`, encoded as `0xD8`.
    MulOvf,
    /// `mul.ovf.un`, encoded as `0xD9`.
    MulOvfUn,
    /// `sub.ovf`, encoded as `0xDA`.
    SubOvf,
    /// `sub.ovf.un`, encoded as `0xDB`.
    SubOvfUn,
    /// `endfinally`, encoded as `0xDC`.
    Endfinally,
    /// `leave`, encoded as `0xDD`.
    Leave,
    /// `leave.s`, encoded as `0xDE`.
    LeaveS,
    /// `stind.i`, encoded as `0xDF`.
    StindI,
    /// `conv.u`, encoded as `0xE0`.
    ConvU,
    /// `arglist`, encoded as `0xFE 0x00`.
    Arglist,
    /// `ceq`, encoded as `0xFE 0x01`.
    Ceq,
    /// `cgt`, encoded as `0xFE 0x02`.
    Cgt,
    /// `cgt.un`, encoded as `0xFE 0x03`.
    CgtUn,
    /// `clt`, encoded as `0xFE 0x04`.
    Clt,
    /// `clt.un`, encoded as `0xFE 0x05`.
    CltUn,
    /// `ldftn`, encoded as `0xFE 0x06`.
    Ldftn,
    /// `ldvirtftn`, encoded as `0xFE 0x07`.
    Ldvirtftn,
    /// `ldarg`, encoded as `0xFE 0x09`.
    Ldarg,
    /// `ldarga`, encoded as `0xFE 0x0A`.
    Ldarga,
    /// `starg`, encoded as `0xFE 0x0B`.
    Starg,
    /// `ldloc`, encoded as `0xFE 0x0C`.
    Ldloc,
    /// `ldloca`, encoded as `0xFE 0x0D`.
    Ldloca,
    /// `stloc`, encoded as `0xFE 0x0E`.
    Stloc,
    /// `localloc`, encoded as `0xFE 0x0F`.
    Localloc,
    /// `endfilter`, encoded as `0xFE 0x11`.
    Endfilter,
    /// `unaligned.`, encoded as `0xFE 0x12`.
    Unaligned,
    /// `volatile.`, encoded as `0xFE 0x13`.
    Volatile,
    /// `tail.`, encoded as `0xFE 0x14`.
    Tail,
    /// `initobj`, encoded as `0xFE 0x15`.
    Initobj,
    /// `constrained.`, encoded as `0xFE 0x16`.
    Constrained,
    /// `cpblk`, encoded as `0xFE 0x17`.
    Cpblk,
    /// `initblk`, encoded as `0xFE 0x18`.
    Initblk,
    /// `no.`, encoded as `0xFE 0x19`.
    No,
    /// `rethrow`, encoded as `0xFE 0x1A`.
    Rethrow,
    /// `sizeof`, encoded as `0xFE 0x1C`.
    Sizeof,
    /// `refanytype`, encoded as `0xFE 0x1D`.
    Refanytype,
    /// `readonly.`, encoded as `0xFE 0x1E`.
    Readonly,
}

/// Every opcode, in ascending order of encoding.
pub const ALL_OPCODES: [OpCode; 219] = [
    OpCode::Nop,
    OpCode::Break,
    OpCode::Ldarg0,
    OpCode::Ldarg1,
    OpCode::Ldarg2,
    OpCode::Ldarg3,
    OpCode::Ldloc0,
    OpCode::Ldloc1,
    OpCode::Ldloc2,
    OpCode::Ldloc3,
    OpCode::Stloc0,
    OpCode::Stloc1,
    OpCode::Stloc2,
    OpCode::Stloc3,
    OpCode::LdargS,
    OpCode::LdargaS,
    OpCode::StargS,
    OpCode::LdlocS,
    OpCode::LdlocaS,
    OpCode::StlocS,
    OpCode::Ldnull,
    OpCode::LdcI4M1,
    OpCode::LdcI40,
    OpCode::LdcI41,
    OpCode::LdcI42,
    OpCode::LdcI43,
    OpCode::LdcI44,
    OpCode::LdcI45,
    OpCode::LdcI46,
    OpCode::LdcI47,
    OpCode::LdcI48,
    OpCode::LdcI4S,
    OpCode::LdcI4,
    OpCode::LdcI8,
    OpCode::LdcR4,
    OpCode::LdcR8,
    OpCode::Dup,
    OpCode::Pop,
    OpCode::Jmp,
    OpCode::Call,
    OpCode::Calli,
    OpCode::Ret,
    OpCode::BrS,
    OpCode::BrfalseS,
    OpCode::BrtrueS,
    OpCode::BeqS,
    OpCode::BgeS,
    OpCode::BgtS,
    OpCode::BleS,
    OpCode::BltS,
    OpCode::BneUnS,
    OpCode::BgeUnS,
    OpCode::BgtUnS,
    OpCode::BleUnS,
    OpCode::BltUnS,
    OpCode::Br,
    OpCode::Brfalse,
    OpCode::Brtrue,
    OpCode::Beq,
    OpCode::Bge,
    OpCode::Bgt,
    OpCode::Ble,
    OpCode::Blt,
    OpCode::BneUn,
    OpCode::BgeUn,
    OpCode::BgtUn,
    OpCode::BleUn,
    OpCode::BltUn,
    OpCode::Switch,
    OpCode::LdindI1,
    OpCode::LdindU1,
    OpCode::LdindI2,
    OpCode::LdindU2,
    OpCode::LdindI4,
    OpCode::LdindU4,
    OpCode::LdindI8,
    OpCode::LdindI,
    OpCode::LdindR4,
    OpCode::LdindR8,
    OpCode::LdindRef,
    OpCode::StindRef,
    OpCode::StindI1,
    OpCode::StindI2,
    OpCode::StindI4,
    OpCode::StindI8,
    OpCode::StindR4,
    OpCode::StindR8,
    OpCode::Add,
    OpCode::Sub,
    OpCode::Mul,
    OpCode::Div,
    OpCode::DivUn,
    OpCode::Rem,
    OpCode::RemUn,
    OpCode::And,
    OpCode::Or,
    OpCode::Xor,
    OpCode::Shl,
    OpCode::Shr,
    OpCode::ShrUn,
    OpCode::Neg,
    OpCode::Not,
    OpCode::ConvI1,
    OpCode::ConvI2,
    OpCode::ConvI4,
    OpCode::ConvI8,
    OpCode::ConvR4,
    OpCode::ConvR8,
    OpCode::ConvU4,
    OpCode::ConvU8,
    OpCode::Callvirt,
    OpCode::Cpobj,
    OpCode::Ldobj,
    OpCode::Ldstr,
    OpCode::Newobj,
    OpCode::Castclass,
    OpCode::Isinst,
    OpCode::ConvRUn,
    OpCode::Unbox,
    OpCode::Throw,
    OpCode::Ldfld,
    OpCode::Ldflda,
    OpCode::Stfld,
    OpCode::Ldsfld,
    OpCode::Ldsflda,
    OpCode::Stsfld,
    OpCode::Stobj,
    OpCode::ConvOvfI1Un,
    OpCode::ConvOvfI2Un,
    OpCode::ConvOvfI4Un,
    OpCode::ConvOvfI8Un,
    OpCode::ConvOvfU1Un,
    OpCode::ConvOvfU2Un,
    OpCode::ConvOvfU4Un,
    OpCode::ConvOvfU8Un,
    OpCode::ConvOvfIUn,
    OpCode::ConvOvfUUn,
    OpCode::Box,
    OpCode::Newarr,
    OpCode::Ldlen,
    OpCode::Ldelema,
    OpCode::LdelemI1,
    OpCode::LdelemU1,
    OpCode::LdelemI2,
    OpCode::LdelemU2,
    OpCode::LdelemI4,
    OpCode::LdelemU4,
    OpCode::LdelemI8,
    OpCode::LdelemI,
    OpCode::LdelemR4,
    OpCode::LdelemR8,
    OpCode::LdelemRef,
    OpCode::StelemI,
    OpCode::StelemI1,
    OpCode::StelemI2,
    OpCode::StelemI4,
    OpCode::StelemI8,
    OpCode::StelemR4,
    OpCode::StelemR8,
    OpCode::StelemRef,
    OpCode::Ldelem,
    OpCode::Stelem,
    OpCode::UnboxAny,
    OpCode::ConvOvfI1,
    OpCode::ConvOvfU1,
    OpCode::ConvOvfI2,
    OpCode::ConvOvfU2,
    OpCode::ConvOvfI4,
    OpCode::ConvOvfU4,
    OpCode::ConvOvfI8,
    OpCode::ConvOvfU8,
    OpCode::Refanyval,
    OpCode::Ckfinite,
    OpCode::Mkrefany,
    OpCode::Ldtoken,
    OpCode::ConvU2,
    OpCode::ConvU1,
    OpCode::ConvI,
    OpCode::ConvOvfI,
    OpCode::ConvOvfU,
    OpCode::AddOvf,
    OpCode::AddOvfUn,
    OpCode::MulOvf,
    OpCode::MulOvfUn,
    OpCode::SubOvf,
    OpCode::SubOvfUn,
    OpCode::Endfinally,
    OpCode::Leave,
    OpCode::LeaveS,
    OpCode::StindI,
    OpCode::ConvU,
    OpCode::Arglist,
    OpCode::Ceq,
    OpCode::Cgt,
    OpCode::CgtUn,
    OpCode::Clt,
    OpCode::CltUn,
    OpCode::Ldftn,
    OpCode::Ldvirtftn,
    OpCode::Ldarg,
    OpCode::Ldarga,
    OpCode::Starg,
    OpCode::Ldloc,
    OpCode::Ldloca,
    OpCode::Stloc,
    OpCode::Localloc,
    OpCode::Endfilter,
    OpCode::Unaligned,
    OpCode::Volatile,
    OpCode::Tail,
    OpCode::Initobj,
    OpCode::Constrained,
    OpCode::Cpblk,
    OpCode::Initblk,
    OpCode::No,
    OpCode::Rethrow,
    OpCode::Sizeof,
    OpCode::Refanytype,
    OpCode::Readonly,
];

/// The static facts about an opcode besides its encoding.
#[derive(Clone, Copy)]
pub struct OpCodeTraits {
    /// The canonical mnemonic.
    pub name: &'static str,
    /// The operand shape.
    pub operand: OperandKind,
    /// What the instruction pops.
    pub pop: StackBehaviourPop,
    /// What the instruction pushes.
    pub push: StackBehaviourPush,
    /// How the instruction affects control flow.
    pub flow: FlowControl,
    /// The opcode category.
    pub kind: OpCodeKind,
}

/// The facts gathered into one value.
pub open spec fn traits(
    name: &'static str,
    operand: OperandKind,
    pop: StackBehaviourPop,
    push: StackBehaviourPush,
    flow: FlowControl,
    kind: OpCodeKind,
) -> OpCodeTraits {
    OpCodeTraits { name, operand, pop, push, flow, kind }
}

fn listed(
    name: &'static str,
    operand: OperandKind,
    pop: StackBehaviourPop,
    push: StackBehaviourPush,
    flow: FlowControl,
    kind: OpCodeKind,
) -> (t: OpCodeTraits)
    ensures
        t == traits(name, operand, pop, push, flow, kind),
{
    OpCodeTraits { name, operand, pop, push, flow, kind }
}

/// The encoding of `op` as a number: its byte, or `0xFE` and its second byte.
pub open spec fn code_of(op: OpCode) -> u16 {
    match op {
        OpCode::Nop => 0x00,
        OpCode::Break => 0x01,
        OpCode::Ldarg0 => 0x02,
        OpCode::Ldarg1 => 0x03,
        OpCode::Ldarg2 => 0x04,
        OpCode::Ldarg3 => 0x05,
        OpCode::Ldloc0 => 0x06,
        OpCode::Ldloc1 => 0x07,
        OpCode::Ldloc2 => 0x08,
        OpCode::Ldloc3 => 0x09,
        OpCode::Stloc0 => 0x0A,
        OpCode::Stloc1 => 0x0B,
        OpCode::Stloc2 => 0x0C,
        OpCode::Stloc3 => 0x0D,
        OpCode::LdargS => 0x0E,
        OpCode::LdargaS => 0x0F,
        OpCode::StargS => 0x10,
        OpCode::LdlocS => 0x11,
        OpCode::LdlocaS => 0x12,
        OpCode::StlocS => 0x13,
        OpCode::Ldnull => 0x14,
        OpCode::LdcI4M1 => 0x15,
        OpCode::LdcI40 => 0x16,
        OpCode::LdcI41 => 0x17,
        OpCode::LdcI42 => 0x18,
        OpCode::LdcI43 => 0x19,
        OpCode::LdcI44 => 0x1A,
        OpCode::LdcI45 => 0x1B,
        OpCode::LdcI46 => 0x1C,
        OpCode::LdcI47 => 0x1D,
        OpCode::LdcI48 => 0x1E,
        OpCode::LdcI4S => 0x1F,
        OpCode::LdcI4 => 0x20,
        OpCode::LdcI8 => 0x21,
        OpCode::LdcR4 => 0x22,
        OpCode::LdcR8 => 0x23,
        OpCode::Dup => 0x25,
        OpCode::Pop => 0x26,
        OpCode::Jmp => 0x27,
        OpCode::Call => 0x28,
        OpCode::Calli => 0x29,
        OpCode::Ret => 0x2A,
        OpCode::BrS => 0x2B,
        OpCode::BrfalseS => 0x2C,
        OpCode::BrtrueS => 0x2D,
        OpCode::BeqS => 0x2E,
        OpCode::BgeS => 0x2F,
        OpCode::BgtS => 0x30,
        OpCode::BleS => 0x31,
        OpCode::BltS => 0x32,
        OpCode::BneUnS => 0x33,
        OpCode::BgeUnS => 0x34,
        OpCode::BgtUnS => 0x35,
        OpCode::BleUnS => 0x36,
        OpCode::BltUnS => 0x37,
        OpCode::Br => 0x38,
        OpCode::Brfalse => 0x39,
        OpCode::Brtrue => 0x3A,
        OpCode::Beq => 0x3B,
        OpCode::Bge => 0x3C,
        OpCode::Bgt => 0x3D,
        OpCode::Ble => 0x3E,
        OpCode::Blt => 0x3F,
        OpCode::BneUn => 0x40,
        OpCode::BgeUn => 0x41,
        OpCode::BgtUn => 0x42,
        OpCode::BleUn => 0x43,
        OpCode::BltUn => 0x44,
        OpCode::Switch => 0x45,
        OpCode::LdindI1 => 0x46,
        OpCode::LdindU1 => 0x47,
        OpCode::LdindI2 => 0x48,
        OpCode::LdindU2 => 0x49,
        OpCode::LdindI4 => 0x4A,
        OpCode::LdindU4 => 0x4B,
        OpCode::LdindI8 => 0x4C,
        OpCode::LdindI => 0x4D,
        OpCode::LdindR4 => 0x4E,
        OpCode::LdindR8 => 0x4F,
        OpCode::LdindRef => 0x50,
        OpCode::StindRef => 0x51,
        OpCode::StindI1 => 0x52,
        OpCode::StindI2 => 0x53,
        OpCode::StindI4 => 0x54,
        OpCode::StindI8 => 0x55,
        OpCode::StindR4 => 0x56,
        OpCode::StindR8 => 0x57,
        OpCode::Add => 0x58,
        OpCode::Sub => 0x59,
        OpCode::Mul => 0x5A,
        OpCode::Div => 0x5B,
        OpCode::DivUn => 0x5C,
        OpCode::Rem => 0x5D,
        OpCode::RemUn => 0x5E,
        OpCode::And => 0x5F,
        OpCode::Or => 0x60,
        OpCode::Xor => 0x61,
        OpCode::Shl => 0x62,
        OpCode::Shr => 0x63,
        OpCode::ShrUn => 0x64,
        OpCode::Neg => 0x65,
        OpCode::Not => 0x66,
        OpCode::ConvI1 => 0x67,
        OpCode::ConvI2 => 0x68,
        OpCode::ConvI4 => 0x69,
        OpCode::ConvI8 => 0x6A,
        OpCode::ConvR4 => 0x6B,
        OpCode::ConvR8 => 0x6C,
        OpCode::ConvU4 => 0x6D,
        OpCode::ConvU8 => 0x6E,
        OpCode::Callvirt => 0x6F,
        OpCode::Cpobj => 0x70,
        OpCode::Ldobj => 0x71,
        OpCode::Ldstr => 0x72,
        OpCode::Newobj => 0x73,
        OpCode::Castclass => 0x74,
        OpCode::Isinst => 0x75,
        OpCode::ConvRUn => 0x76,
        OpCode::Unbox => 0x79,
        OpCode::Throw => 0x7A,
        OpCode::Ldfld => 0x7B,
        OpCode::Ldflda => 0x7C,
        OpCode::Stfld => 0x7D,
        OpCode::Ldsfld => 0x7E,
        OpCode::Ldsflda => 0x7F,
        OpCode::Stsfld => 0x80,
        OpCode::Stobj => 0x81,
        OpCode::ConvOvfI1Un => 0x82,
        OpCode::ConvOvfI2Un => 0x83,
        OpCode::ConvOvfI4Un => 0x84,
        OpCode::ConvOvfI8Un => 0x85,
        OpCode::ConvOvfU1Un => 0x86,
        OpCode::ConvOvfU2Un => 0x87,
        OpCode::ConvOvfU4Un => 0x88,
        OpCode::ConvOvfU8Un => 0x89,
        OpCode::ConvOvfIUn => 0x8A,
        OpCode::ConvOvfUUn => 0x8B,
        OpCode::Box => 0x8C,
        OpCode::Newarr => 0x8D,
        OpCode::Ldlen => 0x8E,
        OpCode::Ldelema => 0x8F,
        OpCode::LdelemI1 => 0x90,
        OpCode::LdelemU1 => 0x91,
        OpCode::LdelemI2 => 0x92,
        OpCode::LdelemU2 => 0x93,
        OpCode::LdelemI4 => 0x94,
        OpCode::LdelemU4 => 0x95,
        OpCode::LdelemI8 => 0x96,
        OpCode::LdelemI => 0x97,
        OpCode::LdelemR4 => 0x98,
        OpCode::LdelemR8 => 0x99,
        OpCode::LdelemRef => 0x9A,
        OpCode::StelemI => 0x9B,
        OpCode::StelemI1 => 0x9C,
        OpCode::StelemI2 => 0x9D,
        OpCode::StelemI4 => 0x9E,
        OpCode::StelemI8 => 0x9F,
        OpCode::StelemR4 => 0xA0,
        OpCode::StelemR8 => 0xA1,
        OpCode::StelemRef => 0xA2,
        OpCode::Ldelem => 0xA3,
        OpCode::Stelem => 0xA4,
        OpCode::UnboxAny => 0xA5,
        OpCode::ConvOvfI1 => 0xB3,
        OpCode::ConvOvfU1 => 0xB4,
        OpCode::ConvOvfI2 => 0xB5,
        OpCode::ConvOvfU2 => 0xB6,
        OpCode::ConvOvfI4 => 0xB7,
        OpCode::ConvOvfU4 => 0xB8,
        OpCode::ConvOvfI8 => 0xB9,
        OpCode::ConvOvfU8 => 0xBA,
        OpCode::Refanyval => 0xC2,
        OpCode::Ckfinite => 0xC3,
        OpCode::Mkrefany => 0xC6,
        OpCode::Ldtoken => 0xD0,
        OpCode::ConvU2 => 0xD1,
        OpCode::ConvU1 => 0xD2,
        OpCode::ConvI => 0xD3,
        OpCode::ConvOvfI => 0xD4,
        OpCode::ConvOvfU => 0xD5,
        OpCode::AddOvf => 0xD6,
        OpCode::AddOvfUn => 0xD7,
        OpCode::MulOvf => 0xD8,
        OpCode::MulOvfUn => 0xD9,
        OpCode::SubOvf => 0xDA,
        OpCode::SubOvfUn => 0xDB,
        OpCode::Endfinally => 0xDC,
        OpCode::Leave => 0xDD,
        OpCode::LeaveS => 0xDE,
        OpCode::StindI => 0xDF,
        OpCode::ConvU => 0xE0,
        OpCode::Arglist => 0xFE00,
        OpCode::Ceq => 0xFE01,
        OpCode::Cgt => 0xFE02,
        OpCode::CgtUn => 0xFE03,
        OpCode::Clt => 0xFE04,
        OpCode::CltUn => 0xFE05,
        OpCode::Ldftn => 0xFE06,
        OpCode::Ldvirtftn => 0xFE07,
        OpCode::Ldarg => 0xFE09,
        OpCode::Ldarga => 0xFE0A,
        OpCode::Starg => 0xFE0B,
        OpCode::Ldloc => 0xFE0C,
        OpCode::Ldloca => 0xFE0D,
        OpCode::Stloc => 0xFE0E,
        OpCode::Localloc => 0xFE0F,
        OpCode::Endfilter => 0xFE11,
        OpCode::Unaligned => 0xFE12,
        OpCode::Volatile => 0xFE13,
        OpCode::Tail => 0xFE14,
        OpCode::Initobj => 0xFE15,
        OpCode::Constrained => 0xFE16,
        OpCode::Cpblk => 0xFE17,
        OpCode::Initblk => 0xFE18,
        OpCode::No => 0xFE19,
        OpCode::Rethrow => 0xFE1A,
        OpCode::Sizeof => 0xFE1C,
        OpCode::Refanytype => 0xFE1D,
        OpCode::Readonly => 0xFE1E,
    }
}

/// The static facts about `op` besides its encoding.
pub open spec fn traits_of(op: OpCode) -> OpCodeTraits {
    match op {
        OpCode::Nop => traits("nop", InlineNone, Pop0, Push0, Next, Primitive),
        OpCode::Break => traits("break", InlineNone, Pop0, Push0, Break, Primitive),
        OpCode::Ldarg0 => traits("ldarg.0", InlineNone, Pop0, Push1, Next, Macro),
        OpCode::Ldarg1 => traits("ldarg.1", InlineNone, Pop0, Push1, Next, Macro),
        OpCode::Ldarg2 => traits("ldarg.2", InlineNone, Pop0, Push1, Next, Macro),
        OpCode::Ldarg3 => traits("ldarg.3", InlineNone, Pop0, Push1, Next, Macro),
        OpCode::Ldloc0 => traits("ldloc.0", InlineNone, Pop0, Push1, Next, Macro),
        OpCode::Ldloc1 => traits("ldloc.1", InlineNone, Pop0, Push1, Next, Macro),
        OpCode::Ldloc2 => traits("ldloc.2", InlineNone, Pop0, Push1, Next, Macro),
        OpCode::Ldloc3 => traits("ldloc.3", InlineNone, Pop0, Push1, Next, Macro),
        OpCode::Stloc0 => traits("stloc.0", InlineNone, Pop1, Push0, Next, Macro),
        OpCode::Stloc1 => traits("stloc.1", InlineNone, Pop1, Push0, Next, Macro),
        OpCode::Stloc2 => traits("stloc.2", InlineNone, Pop1, Push0, Next, Macro),
        OpCode::Stloc3 => traits("stloc.3", InlineNone, Pop1, Push0, Next, Macro),
        OpCode::LdargS => traits("ldarg.s", ShortInlineVar, Pop0, Push1, Next, Macro),
        OpCode::LdargaS => traits("ldarga.s", ShortInlineVar, Pop0, PushI, Next, Macro),
        OpCode::StargS => traits("starg.s", ShortInlineVar, Pop1, Push0, Next, Macro),
        OpCode::LdlocS => traits("ldloc.s", ShortInlineVar, Pop0, Push1, Next, Macro),
        OpCode::LdlocaS => traits("ldloca.s", ShortInlineVar, Pop0, PushI, Next, Macro),
        OpCode::StlocS => traits("stloc.s", ShortInlineVar, Pop1, Push0, Next, Macro),
        OpCode::Ldnull => traits("ldnull", InlineNone, Pop0, PushRef, Next, Primitive),
        OpCode::LdcI4M1 => traits("ldc.i4.m1", InlineNone, Pop0, PushI, Next, Macro),
        OpCode::LdcI40 => traits("ldc.i4.0", InlineNone, Pop0, PushI, Next, Macro),
        OpCode::LdcI41 => traits("ldc.i4.1", InlineNone, Pop0, PushI, Next, Macro),
        OpCode::LdcI42 => traits("ldc.i4.2", InlineNone, Pop0, PushI, Next, Macro),
        OpCode::LdcI43 => traits("ldc.i4.3", InlineNone, Pop0, PushI, Next, Macro),
        OpCode::LdcI44 => traits("ldc.i4.4", InlineNone, Pop0, PushI, Next, Macro),
        OpCode::LdcI45 => traits("ldc.i4.5", InlineNone, Pop0, PushI, Next, Macro),
        OpCode::LdcI46 => traits("ldc.i4.6", InlineNone, Pop0, PushI, Next, Macro),
        OpCode::LdcI47 => traits("ldc.i4.7", InlineNone, Pop0, PushI, Next, Macro),
        OpCode::LdcI48 => traits("ldc.i4.8", InlineNone, Pop0, PushI, Next, Macro),
        OpCode::LdcI4S => traits("ldc.i4.s", ShortInlineI, Pop0, PushI, Next, Macro),
        OpCode::LdcI4 => traits("ldc.i4", InlineI, Pop0, PushI, Next, Primitive),
        OpCode::LdcI8 => traits("ldc.i8", InlineI8, Pop0, PushI8, Next, Primitive),
        OpCode::LdcR4 => traits("ldc.r4", ShortInlineR, Pop0, PushR4, Next, Primitive),
        OpCode::LdcR8 => traits("ldc.r8", InlineR, Pop0, PushR8, Next, Primitive),
        OpCode::Dup => traits("dup", InlineNone, Pop1, Push1Push1, Next, Primitive),
        OpCode::Pop => traits("pop", InlineNone, Pop1, Push0, Next, Primitive),
        OpCode::Jmp => traits("jmp", InlineMethod, Pop0, Push0, Call, Primitive),
        OpCode::Call => traits("call", InlineMethod, VarPop, VarPush, Call, Primitive),
        OpCode::Calli => traits("calli", InlineSig, VarPop, VarPush, Call, Primitive),
        OpCode::Ret => traits("ret", InlineNone, VarPop, Push0, Return, Primitive),
        OpCode::BrS => traits("br.s", ShortInlineBrTarget, Pop0, Push0, Branch, Macro),
        OpCode::BrfalseS => traits(
            "brfalse.s", ShortInlineBrTarget, PopI, Push0, CondBranch, Macro,
        ),
        OpCode::BrtrueS => traits("brtrue.s", ShortInlineBrTarget, PopI, Push0, CondBranch, Macro),
        OpCode::BeqS => traits("beq.s", ShortInlineBrTarget, Pop1Pop1, Push0, CondBranch, Macro),
        OpCode::BgeS => traits("bge.s", ShortInlineBrTarget, Pop1Pop1, Push0, CondBranch, Macro),
        OpCode::BgtS => traits("bgt.s", ShortInlineBrTarget, Pop1Pop1, Push0, CondBranch, Macro),
        OpCode::BleS => traits("ble.s", ShortInlineBrTarget, Pop1Pop1, Push0, CondBranch, Macro),
        OpCode::BltS => traits("blt.s", ShortInlineBrTarget, Pop1Pop1, Push0, CondBranch, Macro),
        OpCode::BneUnS => traits(
            "bne.un.s", ShortInlineBrTarget, Pop1Pop1, Push0, CondBranch, Macro,
        ),
        OpCode::BgeUnS => traits(
            "bge.un.s", ShortInlineBrTarget, Pop1Pop1, Push0, CondBranch, Macro,
        ),
        OpCode::BgtUnS => traits(
            "bgt.un.s", ShortInlineBrTarget, Pop1Pop1, Push0, CondBranch, Macro,
        ),
        OpCode::BleUnS => traits(
            "ble.un.s", ShortInlineBrTarget, Pop1Pop1, Push0, CondBranch, Macro,
        ),
        OpCode::BltUnS => traits(
            "blt.un.s", ShortInlineBrTarget, Pop1Pop1, Push0, CondBranch, Macro,
        ),
        OpCode::Br => traits("br", InlineBrTarget, Pop0, Push0, Branch, Primitive),
        OpCode::Brfalse => traits("brfalse", InlineBrTarget, PopI, Push0, CondBranch, Primitive),
        OpCode::Brtrue => traits("brtrue", InlineBrTarget, PopI, Push0, CondBranch, Primitive),
        OpCode::Beq => traits("beq", InlineBrTarget, Pop1Pop1, Push0, CondBranch, Macro),
        OpCode::Bge => traits("bge", InlineBrTarget, Pop1Pop1, Push0, CondBranch, Macro),
        OpCode::Bgt => traits("bgt", InlineBrTarget, Pop1Pop1, Push0, CondBranch, Macro),
        OpCode::Ble => traits("ble", InlineBrTarget, Pop1Pop1, Push0, CondBranch, Macro),
        OpCode::Blt => traits("blt", InlineBrTarget, Pop1Pop1, Push0, CondBranch, Macro),
        OpCode::BneUn => traits("bne.un", InlineBrTarget, Pop1Pop1, Push0, CondBranch, Macro),
        OpCode::BgeUn => traits("bge.un", InlineBrTarget, Pop1Pop1, Push0, CondBranch, Macro),
        OpCode::BgtUn => traits("bgt.un", InlineBrTarget, Pop1Pop1, Push0, CondBranch, Macro),
        OpCode::BleUn => traits("ble.un", InlineBrTarget, Pop1Pop1, Push0, CondBranch, Macro),
        OpCode::BltUn => traits("blt.un", InlineBrTarget, Pop1Pop1, Push0, CondBranch, Macro),
        OpCode::Switch => traits("switch", InlineSwitch, PopI, Push0, CondBranch, Primitive),
        OpCode::LdindI1 => traits("ldind.i1", InlineNone, PopI, PushI, Next, Primitive),
        OpCode::LdindU1 => traits("ldind.u1", InlineNone, PopI, PushI, Next, Primitive),
        OpCode::LdindI2 => traits("ldind.i2", InlineNone, PopI, PushI, Next, Primitive),
        OpCode::LdindU2 => traits("ldind.u2", InlineNone, PopI, PushI, Next, Primitive),
        OpCode::LdindI4 => traits("ldind.i4", InlineNone, PopI, PushI, Next, Primitive),
        OpCode::LdindU4 => traits("ldind.u4", InlineNone, PopI, PushI, Next, Primitive),
        OpCode::LdindI8 => traits("ldind.i8", InlineNone, PopI, PushI8, Next, Primitive),
        OpCode::LdindI => traits("ldind.i", InlineNone, PopI, PushI, Next, Primitive),
        OpCode::LdindR4 => traits("ldind.r4", InlineNone, PopI, PushR4, Next, Primitive),
        OpCode::LdindR8 => traits("ldind.r8", InlineNone, PopI, PushR8, Next, Primitive),
        OpCode::LdindRef => traits("ldind.ref", InlineNone, PopI, PushRef, Next, Primitive),
        OpCode::StindRef => traits("stind.ref", InlineNone, PopIPopI, Push0, Next, Primitive),
        OpCode::StindI1 => traits("stind.i1", InlineNone, PopIPopI, Push0, Next, Primitive),
        OpCode::StindI2 => traits("stind.i2", InlineNone, PopIPopI, Push0, Next, Primitive),
        OpCode::StindI4 => traits("stind.i4", InlineNone, PopIPopI, Push0, Next, Primitive),
        OpCode::StindI8 => traits("stind.i8", InlineNone, PopIPopI8, Push0, Next, Primitive),
        OpCode::StindR4 => traits("stind.r4", InlineNone, PopIPopR4, Push0, Next, Primitive),
        OpCode::StindR8 => traits("stind.r8", InlineNone, PopIPopR8, Push0, Next, Primitive),
        OpCode::Add => traits("add", InlineNone, Pop1Pop1, Push1, Next, Primitive),
        OpCode::Sub => traits("sub", InlineNone, Pop1Pop1, Push1, Next, Primitive),
        OpCode::Mul => traits("mul", InlineNone, Pop1Pop1, Push1, Next, Primitive),
        OpCode::Div => traits("div", InlineNone, Pop1Pop1, Push1, Next, Primitive),
        OpCode::DivUn => traits("div.un", InlineNone, Pop1Pop1, Push1, Next, Primitive),
        OpCode::Rem => traits("rem", InlineNone, Pop1Pop1, Push1, Next, Primitive),
        OpCode::RemUn => traits("rem.un", InlineNone, Pop1Pop1, Push1, Next, Primitive),
        OpCode::And => traits("and", InlineNone, Pop1Pop1, Push1, Next, Primitive),
        OpCode::Or => traits("or", InlineNone, Pop1Pop1, Push1, Next, Primitive),
        OpCode::Xor => traits("xor", InlineNone, Pop1Pop1, Push1, Next, Primitive),
        OpCode::Shl => traits("shl", InlineNone, Pop1Pop1, Push1, Next, Primitive),
        OpCode::Shr => traits("shr", InlineNone, Pop1Pop1, Push1, Next, Primitive),
        OpCode::ShrUn => traits("shr.un", InlineNone, Pop1Pop1, Push1, Next, Primitive),
        OpCode::Neg => traits("neg", InlineNone, Pop1, Push1, Next, Primitive),
        OpCode::Not => traits("not", InlineNone, Pop1, Push1, Next, Primitive),
        OpCode::ConvI1 => traits("conv.i1", InlineNone, Pop1, PushI, Next, Primitive),
        OpCode::ConvI2 => traits("conv.i2", InlineNone, Pop1, PushI, Next, Primitive),
        OpCode::ConvI4 => traits("conv.i4", InlineNone, Pop1, PushI, Next, Primitive),
        OpCode::ConvI8 => traits("conv.i8", InlineNone, Pop1, PushI8, Next, Primitive),
        OpCode::ConvR4 => traits("conv.r4", InlineNone, Pop1, PushR4, Next, Primitive),
        OpCode::ConvR8 => traits("conv.r8", InlineNone, Pop1, PushR8, Next, Primitive),
        OpCode::ConvU4 => traits("conv.u4", InlineNone, Pop1, PushI, Next, Primitive),
        OpCode::ConvU8 => traits("conv.u8", InlineNone, Pop1, PushI8, Next, Primitive),
        OpCode::Callvirt => traits("callvirt", InlineMethod, VarPop, VarPush, Call, ObjModel),
        OpCode::Cpobj => traits("cpobj", InlineType, PopIPopI, Push0, Next, ObjModel),
        OpCode::Ldobj => traits("ldobj", InlineType, PopI, Push1, Next, ObjModel),
        OpCode::Ldstr => traits("ldstr", InlineString, Pop0, PushRef, Next, ObjModel),
        OpCode::Newobj => traits("newobj", InlineMethod, VarPop, PushRef, Call, ObjModel),
        OpCode::Castclass => traits("castclass", InlineType, PopRef, PushRef, Next, ObjModel),
        OpCode::Isinst => traits("isinst", InlineType, PopRef, PushI, Next, ObjModel),
        OpCode::ConvRUn => traits("conv.r.un", InlineNone, Pop1, PushR8, Next, Primitive),
        OpCode::Unbox => traits("unbox", InlineType, PopRef, PushI, Next, Primitive),
        OpCode::Throw => traits("throw", InlineNone, PopRef, Push0, Throw, ObjModel),
        OpCode::Ldfld => traits("ldfld", InlineField, PopRef, Push1, Next, ObjModel),
        OpCode::Ldflda => traits("ldflda", InlineField, PopRef, PushI, Next, ObjModel),
        OpCode::Stfld => traits("stfld", InlineField, PopRefPop1, Push0, Next, ObjModel),
        OpCode::Ldsfld => traits("ldsfld", InlineField, Pop0, Push1, Next, ObjModel),
        OpCode::Ldsflda => traits("ldsflda", InlineField, Pop0, PushI, Next, ObjModel),
        OpCode::Stsfld => traits("stsfld", InlineField, Pop1, Push0, Next, ObjModel),
        OpCode::Stobj => traits("stobj", InlineType, PopIPop1, Push0, Next, Primitive),
        OpCode::ConvOvfI1Un => traits("conv.ovf.i1.un", InlineNone, Pop1, PushI, Next, Primitive),
        OpCode::ConvOvfI2Un => traits("conv.ovf.i2.un", InlineNone, Pop1, PushI, Next, Primitive),
        OpCode::ConvOvfI4Un => traits("conv.ovf.i4.un", InlineNone, Pop1, PushI, Next, Primitive),
        OpCode::ConvOvfI8Un => traits("conv.ovf.i8.un", InlineNone, Pop1, PushI8, Next, Primitive),
        OpCode::ConvOvfU1Un => traits("conv.ovf.u1.un", InlineNone, Pop1, PushI, Next, Primitive),
        OpCode::ConvOvfU2Un => traits("conv.ovf.u2.un", InlineNone, Pop1, PushI, Next, Primitive),
        OpCode::ConvOvfU4Un => traits("conv.ovf.u4.un", InlineNone, Pop1, PushI, Next, Primitive),
        OpCode::ConvOvfU8Un => traits("conv.ovf.u8.un", InlineNone, Pop1, PushI8, Next, Primitive),
        OpCode::ConvOvfIUn => traits("conv.ovf.i.un", InlineNone, Pop1, PushI, Next, Primitive),
        OpCode::ConvOvfUUn => traits("conv.ovf.u.un", InlineNone, Pop1, PushI, Next, Primitive),
        OpCode::Box => traits("box", InlineType, Pop1, PushRef, Next, Primitive),
        OpCode::Newarr => traits("newarr", InlineType, PopI, PushRef, Next, ObjModel),
        OpCode::Ldlen => traits("ldlen", InlineNone, PopRef, PushI, Next, ObjModel),
        OpCode::Ldelema => traits("ldelema", InlineType, PopRefPopI, PushI, Next, ObjModel),
        OpCode::LdelemI1 => traits("ldelem.i1", InlineNone, PopRefPopI, PushI, Next, ObjModel),
        OpCode::LdelemU1 => traits("ldelem.u1", InlineNone, PopRefPopI, PushI, Next, ObjModel),
        OpCode::LdelemI2 => traits("ldelem.i2", InlineNone, PopRefPopI, PushI, Next, ObjModel),
        OpCode::LdelemU2 => traits("ldelem.u2", InlineNone, PopRefPopI, PushI, Next, ObjModel),
        OpCode::LdelemI4 => traits("ldelem.i4", InlineNone, PopRefPopI, PushI, Next, ObjModel),
        OpCode::LdelemU4 => traits("ldelem.u4", InlineNone, PopRefPopI, PushI, Next, ObjModel),
        OpCode::LdelemI8 => traits("ldelem.i8", InlineNone, PopRefPopI, PushI8, Next, ObjModel),
        OpCode::LdelemI => traits("ldelem.i", InlineNone, PopRefPopI, PushI, Next, ObjModel),
        OpCode::LdelemR4 => traits("ldelem.r4", InlineNone, PopRefPopI, PushR4, Next, ObjModel),
        OpCode::LdelemR8 => traits("ldelem.r8", InlineNone, PopRefPopI, PushR8, Next, ObjModel),
        OpCode::LdelemRef => traits("ldelem.ref", InlineNone, PopRefPopI, PushRef, Next, ObjModel),
        OpCode::StelemI => traits("stelem.i", InlineNone, PopRefPopIPopI, Push0, Next, ObjModel),
        OpCode::StelemI1 => traits("stelem.i1", InlineNone, PopRefPopIPopI, Push0, Next, ObjModel),
        OpCode::StelemI2 => traits("stelem.i2", InlineNone, PopRefPopIPopI, Push0, Next, ObjModel),
        OpCode::StelemI4 => traits("stelem.i4", InlineNone, PopRefPopIPopI, Push0, Next, ObjModel),
        OpCode::StelemI8 => traits("stelem.i8", InlineNone, PopRefPopIPopI8, Push0, Next, ObjModel),
        OpCode::StelemR4 => traits("stelem.r4", InlineNone, PopRefPopIPopR4, Push0, Next, ObjModel),
        OpCode::StelemR8 => traits("stelem.r8", InlineNone, PopRefPopIPopR8, Push0, Next, ObjModel),
        OpCode::StelemRef => traits(
            "stelem.ref", InlineNone, PopRefPopIPopRef, Push0, Next, ObjModel,
        ),
        OpCode::Ldelem => traits("ldelem", InlineType, PopRefPopI, Push1, Next, ObjModel),
        OpCode::Stelem => traits("stelem", InlineType, PopRefPopIPop1, Push0, Next, ObjModel),
        OpCode::UnboxAny => traits("unbox.any", InlineType, PopRef, Push1, Next, ObjModel),
        OpCode::ConvOvfI1 => traits("conv.ovf.i1", InlineNone, Pop1, PushI, Next, Primitive),
        OpCode::ConvOvfU1 => traits("conv.ovf.u1", InlineNone, Pop1, PushI, Next, Primitive),
        OpCode::ConvOvfI2 => traits("conv.ovf.i2", InlineNone, Pop1, PushI, Next, Primitive),
        OpCode::ConvOvfU2 => traits("conv.ovf.u2", InlineNone, Pop1, PushI, Next, Primitive),
        OpCode::ConvOvfI4 => traits("conv.ovf.i4", InlineNone, Pop1, PushI, Next, Primitive),
        OpCode::ConvOvfU4 => traits("conv.ovf.u4", InlineNone, Pop1, PushI, Next, Primitive),
        OpCode::ConvOvfI8 => traits("conv.ovf.i8", InlineNone, Pop1, PushI8, Next, Primitive),
        OpCode::ConvOvfU8 => traits("conv.ovf.u8", InlineNone, Pop1, PushI8, Next, Primitive),
        OpCode::Refanyval => traits("refanyval", InlineType, Pop1, PushI, Next, Primitive),
        OpCode::Ckfinite => traits("ckfinite", InlineNone, Pop1, PushR8, Next, Primitive),
        OpCode::Mkrefany => traits("mkrefany", InlineType, PopI, Push1, Next, Primitive),
        OpCode::Ldtoken => traits("ldtoken", InlineTok, Pop0, PushI, Next, Primitive),
        OpCode::ConvU2 => traits("conv.u2", InlineNone, Pop1, PushI, Next, Primitive),
        OpCode::ConvU1 => traits("conv.u1", InlineNone, Pop1, PushI, Next, Primitive),
        OpCode::ConvI => traits("conv.i", InlineNone, Pop1, PushI, Next, Primitive),
        OpCode::ConvOvfI => traits("conv.ovf.i", InlineNone, Pop1, PushI, Next, Primitive),
        OpCode::ConvOvfU => traits("conv.ovf.u", InlineNone, Pop1, PushI, Next, Primitive),
        OpCode::AddOvf => traits("add.ovf", InlineNone, Pop1Pop1, Push1, Next, Primitive),
        OpCode::AddOvfUn => traits("add.ovf.un", InlineNone, Pop1Pop1, Push1, Next, Primitive),
        OpCode::MulOvf => traits("mul.ovf", InlineNone, Pop1Pop1, Push1, Next, Primitive),
        OpCode::MulOvfUn => traits("mul.ovf.un", InlineNone, Pop1Pop1, Push1, Next, Primitive),
        OpCode::SubOvf => traits("sub.ovf", InlineNone, Pop1Pop1, Push1, Next, Primitive),
        OpCode::SubOvfUn => traits("sub.ovf.un", InlineNone, Pop1Pop1, Push1, Next, Primitive),
        OpCode::Endfinally => traits("endfinally", InlineNone, Pop0, Push0, Return, Primitive),
        OpCode::Leave => traits("leave", InlineBrTarget, Pop0, Push0, Branch, Primitive),
        OpCode::LeaveS => traits("leave.s", ShortInlineBrTarget, Pop0, Push0, Branch, Primitive),
        OpCode::StindI => traits("stind.i", InlineNone, PopIPopI, Push0, Next, Primitive),
        OpCode::ConvU => traits("conv.u", InlineNone, Pop1, PushI, Next, Primitive),
        OpCode::Arglist => traits("arglist", InlineNone, Pop0, PushI, Next, Primitive),
        OpCode::Ceq => traits("ceq", InlineNone, Pop1Pop1, PushI, Next, Primitive),
        OpCode::Cgt => traits("cgt", InlineNone, Pop1Pop1, PushI, Next, Primitive),
        OpCode::CgtUn => traits("cgt.un", InlineNone, Pop1Pop1, PushI, Next, Primitive),
        OpCode::Clt => traits("clt", InlineNone, Pop1Pop1, PushI, Next, Primitive),
        OpCode::CltUn => traits("clt.un", InlineNone, Pop1Pop1, PushI, Next, Primitive),
        OpCode::Ldftn => traits("ldftn", InlineMethod, Pop0, PushI, Next, Primitive),
        OpCode::Ldvirtftn => traits("ldvirtftn", InlineMethod, PopRef, PushI, Next, Primitive),
        OpCode::Ldarg => traits("ldarg", InlineVar, Pop0, Push1, Next, Primitive),
        OpCode::Ldarga => traits("ldarga", InlineVar, Pop0, PushI, Next, Primitive),
        OpCode::Starg => traits("starg", InlineVar, Pop1, Push0, Next, Primitive),
        OpCode::Ldloc => traits("ldloc", InlineVar, Pop0, Push1, Next, Primitive),
        OpCode::Ldloca => traits("ldloca", InlineVar, Pop0, PushI, Next, Primitive),
        OpCode::Stloc => traits("stloc", InlineVar, Pop1, Push0, Next, Primitive),
        OpCode::Localloc => traits("localloc", InlineNone, PopI, PushI, Next, Primitive),
        OpCode::Endfilter => traits("endfilter", InlineNone, PopI, Push0, Return, Primitive),
        OpCode::Unaligned => traits("unaligned.", ShortInlineI, Pop0, Push0, Meta, Prefix),
        OpCode::Volatile => traits("volatile.", InlineNone, Pop0, Push0, Meta, Prefix),
        OpCode::Tail => traits("tail.", InlineNone, Pop0, Push0, Meta, Prefix),
        OpCode::Initobj => traits("initobj", InlineType, PopI, Push0, Next, ObjModel),
        OpCode::Constrained => traits("constrained.", InlineType, Pop0, Push0, Meta, Prefix),
        OpCode::Cpblk => traits("cpblk", InlineNone, PopIPopIPopI, Push0, Next, Primitive),
        OpCode::Initblk => traits("initblk", InlineNone, PopIPopIPopI, Push0, Next, Primitive),
        OpCode::No => traits("no.", ShortInlineI, Pop0, Push0, Meta, Prefix),
        OpCode::Rethrow => traits("rethrow", InlineNone, Pop0, Push0, Throw, ObjModel),
        OpCode::Sizeof => traits("sizeof", InlineType, Pop0, PushI, Next, Primitive),
        OpCode::Refanytype => traits("refanytype", InlineNone, Pop1, PushI, Next, Primitive),
        OpCode::Readonly => traits("readonly.", InlineNone, Pop0, Push0, Meta, Prefix),
    }
}

/// The static facts about `op`.
pub open spec fn facts_of(op: OpCode) -> OpCodeInfo {
    let t = traits_of(op);
    let code = code_of(op);
    OpCodeInfo {
        name: t.name,
        encoding: if code < 0x100 {
            [code as u8, 0]
        } else {
            [0xFE, (code - 0xFE00) as u8]
        },
        size: if code < 0x100 {
            1
        } else {
            2
        },
        operand: t.operand,
        pop: t.pop,
        push: t.push,
        flow: t.flow,
        kind: t.kind,
    }
}

fn code(op: OpCode) -> (code: u16)
    ensures
        code == code_of(op),
        code < 0x100 || 0xFE00 <= code <= 0xFEFF,
{
    match op {
        OpCode::Nop => 0x00,
        OpCode::Break => 0x01,
        OpCode::Ldarg0 => 0x02,
        OpCode::Ldarg1 => 0x03,
        OpCode::Ldarg2 => 0x04,
        OpCode::Ldarg3 => 0x05,
        OpCode::Ldloc0 => 0x06,
        OpCode::Ldloc1 => 0x07,
        OpCode::Ldloc2 => 0x08,
        OpCode::Ldloc3 => 0x09,
        OpCode::Stloc0 => 0x0A,
        OpCode::Stloc1 => 0x0B,
        OpCode::Stloc2 => 0x0C,
        OpCode::Stloc3 => 0x0D,
        OpCode::LdargS => 0x0E,
        OpCode::LdargaS => 0x0F,
        OpCode::StargS => 0x10,
        OpCode::LdlocS => 0x11,
        OpCode::LdlocaS => 0x12,
        OpCode::StlocS => 0x13,
        OpCode::Ldnull => 0x14,
        OpCode::LdcI4M1 => 0x15,
        OpCode::LdcI40 => 0x16,
        OpCode::LdcI41 => 0x17,
        OpCode::LdcI42 => 0x18,
        OpCode::LdcI43 => 0x19,
        OpCode::LdcI44 => 0x1A,
        OpCode::LdcI45 => 0x1B,
        OpCode::LdcI46 => 0x1C,
        OpCode::LdcI47 => 0x1D,
        OpCode::LdcI48 => 0x1E,
        OpCode::LdcI4S => 0x1F,
        OpCode::LdcI4 => 0x20,
        OpCode::LdcI8 => 0x21,
        OpCode::LdcR4 => 0x22,
        OpCode::LdcR8 => 0x23,
        OpCode::Dup => 0x25,
        OpCode::Pop => 0x26,
        OpCode::Jmp => 0x27,
        OpCode::Call => 0x28,
        OpCode::Calli => 0x29,
        OpCode::Ret => 0x2A,
        OpCode::BrS => 0x2B,
        OpCode::BrfalseS => 0x2C,
        OpCode::BrtrueS => 0x2D,
        OpCode::BeqS => 0x2E,
        OpCode::BgeS => 0x2F,
        OpCode::BgtS => 0x30,
        OpCode::BleS => 0x31,
        OpCode::BltS => 0x32,
        OpCode::BneUnS => 0x33,
        OpCode::BgeUnS => 0x34,
        OpCode::BgtUnS => 0x35,
        OpCode::BleUnS => 0x36,
        OpCode::BltUnS => 0x37,
        OpCode::Br => 0x38,
        OpCode::Brfalse => 0x39,
        OpCode::Brtrue => 0x3A,
        OpCode::Beq => 0x3B,
        OpCode::Bge => 0x3C,
        OpCode::Bgt => 0x3D,
        OpCode::Ble => 0x3E,
        OpCode::Blt => 0x3F,
        OpCode::BneUn => 0x40,
        OpCode::BgeUn => 0x41,
        OpCode::BgtUn => 0x42,
        OpCode::BleUn => 0x43,
        OpCode::BltUn => 0x44,
        OpCode::Switch => 0x45,
        OpCode::LdindI1 => 0x46,
        OpCode::LdindU1 => 0x47,
        OpCode::LdindI2 => 0x48,
        OpCode::LdindU2 => 0x49,
        OpCode::LdindI4 => 0x4A,
        OpCode::LdindU4 => 0x4B,
        OpCode::LdindI8 => 0x4C,
        OpCode::LdindI => 0x4D,
        OpCode::LdindR4 => 0x4E,
        OpCode::LdindR8 => 0x4F,
        OpCode::LdindRef => 0x50,
        OpCode::StindRef => 0x51,
        OpCode::StindI1 => 0x52,
        OpCode::StindI2 => 0x53,
        OpCode::StindI4 => 0x54,
        OpCode::StindI8 => 0x55,
        OpCode::StindR4 => 0x56,
        OpCode::StindR8 => 0x57,
        OpCode::Add => 0x58,
        OpCode::Sub => 0x59,
        OpCode::Mul => 0x5A,
        OpCode::Div => 0x5B,
        OpCode::DivUn => 0x5C,
        OpCode::Rem => 0x5D,
        OpCode::RemUn => 0x5E,
        OpCode::And => 0x5F,
        OpCode::Or => 0x60,
        OpCode::Xor => 0x61,
        OpCode::Shl => 0x62,
        OpCode::Shr => 0x63,
        OpCode::ShrUn => 0x64,
        OpCode::Neg => 0x65,
        OpCode::Not => 0x66,
        OpCode::ConvI1 => 0x67,
        OpCode::ConvI2 => 0x68,
        OpCode::ConvI4 => 0x69,
        OpCode::ConvI8 => 0x6A,
        OpCode::ConvR4 => 0x6B,
        OpCode::ConvR8 => 0x6C,
        OpCode::ConvU4 => 0x6D,
        OpCode::ConvU8 => 0x6E,
        OpCode::Callvirt => 0x6F,
        OpCode::Cpobj => 0x70,
        OpCode::Ldobj => 0x71,
        OpCode::Ldstr => 0x72,
        OpCode::Newobj => 0x73,
        OpCode::Castclass => 0x74,
        OpCode::Isinst => 0x75,
        OpCode::ConvRUn => 0x76,
        OpCode::Unbox => 0x79,
        OpCode::Throw => 0x7A,
        OpCode::Ldfld => 0x7B,
        OpCode::Ldflda => 0x7C,
        OpCode::Stfld => 0x7D,
        OpCode::Ldsfld => 0x7E,
        OpCode::Ldsflda => 0x7F,
        OpCode::Stsfld => 0x80,
        OpCode::Stobj => 0x81,
        OpCode::ConvOvfI1Un => 0x82,
        OpCode::ConvOvfI2Un => 0x83,
        OpCode::ConvOvfI4Un => 0x84,
        OpCode::ConvOvfI8Un => 0x85,
        OpCode::ConvOvfU1Un => 0x86,
        OpCode::ConvOvfU2Un => 0x87,
        OpCode::ConvOvfU4Un => 0x88,
        OpCode::ConvOvfU8Un => 0x89,
        OpCode::ConvOvfIUn => 0x8A,
        OpCode::ConvOvfUUn => 0x8B,
        OpCode::Box => 0x8C,
        OpCode::Newarr => 0x8D,
        OpCode::Ldlen => 0x8E,
        OpCode::Ldelema => 0x8F,
        OpCode::LdelemI1 => 0x90,
        OpCode::LdelemU1 => 0x91,
        OpCode::LdelemI2 => 0x92,
        OpCode::LdelemU2 => 0x93,
        OpCode::LdelemI4 => 0x94,
        OpCode::LdelemU4 => 0x95,
        OpCode::LdelemI8 => 0x96,
        OpCode::LdelemI => 0x97,
        OpCode::LdelemR4 => 0x98,
        OpCode::LdelemR8 => 0x99,
        OpCode::LdelemRef => 0x9A,
        OpCode::StelemI => 0x9B,
        OpCode::StelemI1 => 0x9C,
        OpCode::StelemI2 => 0x9D,
        OpCode::StelemI4 => 0x9E,
        OpCode::StelemI8 => 0x9F,
        OpCode::StelemR4 => 0xA0,
        OpCode::StelemR8 => 0xA1,
        OpCode::StelemRef => 0xA2,
        OpCode::Ldelem => 0xA3,
        OpCode::Stelem => 0xA4,
        OpCode::UnboxAny => 0xA5,
        OpCode::ConvOvfI1 => 0xB3,
        OpCode::ConvOvfU1 => 0xB4,
        OpCode::ConvOvfI2 => 0xB5,
        OpCode::ConvOvfU2 => 0xB6,
        OpCode::ConvOvfI4 => 0xB7,
        OpCode::ConvOvfU4 => 0xB8,
        OpCode::ConvOvfI8 => 0xB9,
        OpCode::ConvOvfU8 => 0xBA,
        OpCode::Refanyval => 0xC2,
        OpCode::Ckfinite => 0xC3,
        OpCode::Mkrefany => 0xC6,
        OpCode::Ldtoken => 0xD0,
        OpCode::ConvU2 => 0xD1,
        OpCode::ConvU1 => 0xD2,
        OpCode::ConvI => 0xD3,
        OpCode::ConvOvfI => 0xD4,
        OpCode::ConvOvfU => 0xD5,
        OpCode::AddOvf => 0xD6,
        OpCode::AddOvfUn => 0xD7,
        OpCode::MulOvf => 0xD8,
        OpCode::MulOvfUn => 0xD9,
        OpCode::SubOvf => 0xDA,
        OpCode::SubOvfUn => 0xDB,
        OpCode::Endfinally => 0xDC,
        OpCode::Leave => 0xDD,
        OpCode::LeaveS => 0xDE,
        OpCode::StindI => 0xDF,
        OpCode::ConvU => 0xE0,
        OpCode::Arglist => 0xFE00,
        OpCode::Ceq => 0xFE01,
        OpCode::Cgt => 0xFE02,
        OpCode::CgtUn => 0xFE03,
        OpCode::Clt => 0xFE04,
        OpCode::CltUn => 0xFE05,
        OpCode::Ldftn => 0xFE06,
        OpCode::Ldvirtftn => 0xFE07,
        OpCode::Ldarg => 0xFE09,
        OpCode::Ldarga => 0xFE0A,
        OpCode::Starg => 0xFE0B,
        OpCode::Ldloc => 0xFE0C,
        OpCode::Ldloca => 0xFE0D,
        OpCode::Stloc => 0xFE0E,
        OpCode::Localloc => 0xFE0F,
        OpCode::Endfilter => 0xFE11,
        OpCode::Unaligned => 0xFE12,
        OpCode::Volatile => 0xFE13,
        OpCode::Tail => 0xFE14,
        OpCode::Initobj => 0xFE15,
        OpCode::Constrained => 0xFE16,
        OpCode::Cpblk => 0xFE17,
        OpCode::Initblk => 0xFE18,
        OpCode::No => 0xFE19,
        OpCode::Rethrow => 0xFE1A,
        OpCode::Sizeof => 0xFE1C,
        OpCode::Refanytype => 0xFE1D,
        OpCode::Readonly => 0xFE1E,
    }
}

fn listed_traits(op: OpCode) -> (t: OpCodeTraits)
    ensures
        t == traits_of(op),
{
    match op {
        OpCode::Nop => listed("nop", InlineNone, Pop0, Push0, Next, Primitive),
        OpCode::Break => listed("break", InlineNone, Pop0, Push0, Break, Primitive),
        OpCode::Ldarg0 => listed("ldarg.0", InlineNone, Pop0, Push1, Next, Macro),
        OpCode::Ldarg1 => listed("ldarg.1", InlineNone, Pop0, Push1, Next, Macro),
        OpCode::Ldarg2 => listed("ldarg.2", InlineNone, Pop0, Push1, Next, Macro),
        OpCode::Ldarg3 => listed("ldarg.3", InlineNone, Pop0, Push1, Next, Macro),
        OpCode::Ldloc0 => listed("ldloc.0", InlineNone, Pop0, Push1, Next, Macro),
        OpCode::Ldloc1 => listed("ldloc.1", InlineNone, Pop0, Push1, Next, Macro),
        OpCode::Ldloc2 => listed("ldloc.2", InlineNone, Pop0, Push1, Next, Macro),
        OpCode::Ldloc3 => listed("ldloc.3", InlineNone, Pop0, Push1, Next, Macro),
        OpCode::Stloc0 => listed("stloc.0", InlineNone, Pop1, Push0, Next, Macro),
        OpCode::Stloc1 => listed("stloc.1", InlineNone, Pop1, Push0, Next, Macro),
        OpCode::Stloc2 => listed("stloc.2", InlineNone, Pop1, Push0, Next, Macro),
        OpCode::Stloc3 => listed("stloc.3", InlineNone, Pop1, Push0, Next, Macro),
        OpCode::LdargS => listed("ldarg.s", ShortInlineVar, Pop0, Push1, Next, Macro),
        OpCode::LdargaS => listed("ldarga.s", ShortInlineVar, Pop0, PushI, Next, Macro),
        OpCode::StargS => listed("starg.s", ShortInlineVar, Pop1, Push0, Next, Macro),
        OpCode::LdlocS => listed("ldloc.s", ShortInlineVar, Pop0, Push1, Next, Macro),
        OpCode::LdlocaS => listed("ldloca.s", ShortInlineVar, Pop0, PushI, Next, Macro),
        OpCode::StlocS => listed("stloc.s", ShortInlineVar, Pop1, Push0, Next, Macro),
        OpCode::Ldnull => listed("ldnull", InlineNone, Pop0, PushRef, Next, Primitive),
        OpCode::LdcI4M1 => listed("ldc.i4.m1", InlineNone, Pop0, PushI, Next, Macro),
        OpCode::LdcI40 => listed("ldc.i4.0", InlineNone, Pop0, PushI, Next, Macro),
        OpCode::LdcI41 => listed("ldc.i4.1", InlineNone, Pop0, PushI, Next, Macro),
        OpCode::LdcI42 => listed("ldc.i4.2", InlineNone, Pop0, PushI, Next, Macro),
        OpCode::LdcI43 => listed("ldc.i4.3", InlineNone, Pop0, PushI, Next, Macro),
        OpCode::LdcI44 => listed("ldc.i4.4", InlineNone, Pop0, PushI, Next, Macro),
        OpCode::LdcI45 => listed("ldc.i4.5", InlineNone, Pop0, PushI, Next, Macro),
        OpCode::LdcI46 => listed("ldc.i4.6", InlineNone, Pop0, PushI, Next, Macro),
        OpCode::LdcI47 => listed("ldc.i4.7", InlineNone, Pop0, PushI, Next, Macro),
        OpCode::LdcI48 => listed("ldc.i4.8", InlineNone, Pop0, PushI, Next, Macro),
        OpCode::LdcI4S => listed("ldc.i4.s", ShortInlineI, Pop0, PushI, Next, Macro),
        OpCode::LdcI4 => listed("ldc.i4", InlineI, Pop0, PushI, Next, Primitive),
        OpCode::LdcI8 => listed("ldc.i8", InlineI8, Pop0, PushI8, Next, Primitive),
        OpCode::LdcR4 => listed("ldc.r4", ShortInlineR, Pop0, PushR4, Next, Primitive),
        OpCode::LdcR8 => listed("ldc.r8", InlineR, Pop0, PushR8, Next, Primitive),
        OpCode::Dup => listed("dup", InlineNone, Pop1, Push1Push1, Next, Primitive),
        OpCode::Pop => listed("pop", InlineNone, Pop1, Push0, Next, Primitive),
        OpCode::Jmp => listed("jmp", InlineMethod, Pop0, Push0, Call, Primitive),
        OpCode::Call => listed("call", InlineMethod, VarPop, VarPush, Call, Primitive),
        OpCode::Calli => listed("calli", InlineSig, VarPop, VarPush, Call, Primitive),
        OpCode::Ret => listed("ret", InlineNone, VarPop, Push0, Return, Primitive),
        OpCode::BrS => listed("br.s", ShortInlineBrTarget, Pop0, Push0, Branch, Macro),
        OpCode::BrfalseS => listed(
            "brfalse.s", ShortInlineBrTarget, PopI, Push0, CondBranch, Macro,
        ),
        OpCode::BrtrueS => listed("brtrue.s", ShortInlineBrTarget, PopI, Push0, CondBranch, Macro),
        OpCode::BeqS => listed("beq.s", ShortInlineBrTarget, Pop1Pop1, Push0, CondBranch, Macro),
        OpCode::BgeS => listed("bge.s", ShortInlineBrTarget, Pop1Pop1, Push0, CondBranch, Macro),
        OpCode::BgtS => listed("bgt.s", ShortInlineBrTarget, Pop1Pop1, Push0, CondBranch, Macro),
        OpCode::BleS => listed("ble.s", ShortInlineBrTarget, Pop1Pop1, Push0, CondBranch, Macro),
        OpCode::BltS => listed("blt.s", ShortInlineBrTarget, Pop1Pop1, Push0, CondBranch, Macro),
        OpCode::BneUnS => listed(
            "bne.un.s", ShortInlineBrTarget, Pop1Pop1, Push0, CondBranch, Macro,
        ),
        OpCode::BgeUnS => listed(
            "bge.un.s", ShortInlineBrTarget, Pop1Pop1, Push0, CondBranch, Macro,
        ),
        OpCode::BgtUnS => listed(
            "bgt.un.s", ShortInlineBrTarget, Pop1Pop1, Push0, CondBranch, Macro,
        ),
        OpCode::BleUnS => listed(
            "ble.un.s", ShortInlineBrTarget, Pop1Pop1, Push0, CondBranch, Macro,
        ),
        OpCode::BltUnS => listed(
            "blt.un.s", ShortInlineBrTarget, Pop1Pop1, Push0, CondBranch, Macro,
        ),
        OpCode::Br => listed("br", InlineBrTarget, Pop0, Push0, Branch, Primitive),
        OpCode::Brfalse => listed("brfalse", InlineBrTarget, PopI, Push0, CondBranch, Primitive),
        OpCode::Brtrue => listed("brtrue", InlineBrTarget, PopI, Push0, CondBranch, Primitive),
        OpCode::Beq => listed("beq", InlineBrTarget, Pop1Pop1, Push0, CondBranch, Macro),
        OpCode::Bge => listed("bge", InlineBrTarget, Pop1Pop1, Push0, CondBranch, Macro),
        OpCode::Bgt => listed("bgt", InlineBrTarget, Pop1Pop1, Push0, CondBranch, Macro),
        OpCode::Ble => listed("ble", InlineBrTarget, Pop1Pop1, Push0, CondBranch, Macro),
        OpCode::Blt => listed("blt", InlineBrTarget, Pop1Pop1, Push0, CondBranch, Macro),
        OpCode::BneUn => listed("bne.un", InlineBrTarget, Pop1Pop1, Push0, CondBranch, Macro),
        OpCode::BgeUn => listed("bge.un", InlineBrTarget, Pop1Pop1, Push0, CondBranch, Macro),
        OpCode::BgtUn => listed("bgt.un", InlineBrTarget, Pop1Pop1, Push0, CondBranch, Macro),
        OpCode::BleUn => listed("ble.un", InlineBrTarget, Pop1Pop1, Push0, CondBranch, Macro),
        OpCode::BltUn => listed("blt.un", InlineBrTarget, Pop1Pop1, Push0, CondBranch, Macro),
        OpCode::Switch => listed("switch", InlineSwitch, PopI, Push0, CondBranch, Primitive),
        OpCode::LdindI1 => listed("ldind.i1", InlineNone, PopI, PushI, Next, Primitive),
        OpCode::LdindU1 => listed("ldind.u1", InlineNone, PopI, PushI, Next, Primitive),
        OpCode::LdindI2 => listed("ldind.i2", InlineNone, PopI, PushI, Next, Primitive),
        OpCode::LdindU2 => listed("ldind.u2", InlineNone, PopI, PushI, Next, Primitive),
        OpCode::LdindI4 => listed("ldind.i4", InlineNone, PopI, PushI, Next, Primitive),
        OpCode::LdindU4 => listed("ldind.u4", InlineNone, PopI, PushI, Next, Primitive),
        OpCode::LdindI8 => listed("ldind.i8", InlineNone, PopI, PushI8, Next, Primitive),
        OpCode::LdindI => listed("ldind.i", InlineNone, PopI, PushI, Next, Primitive),
        OpCode::LdindR4 => listed("ldind.r4", InlineNone, PopI, PushR4, Next, Primitive),
        OpCode::LdindR8 => listed("ldind.r8", InlineNone, PopI, PushR8, Next, Primitive),
        OpCode::LdindRef => listed("ldind.ref", InlineNone, PopI, PushRef, Next, Primitive),
        OpCode::StindRef => listed("stind.ref", InlineNone, PopIPopI, Push0, Next, Primitive),
        OpCode::StindI1 => listed("stind.i1", InlineNone, PopIPopI, Push0, Next, Primitive),
        OpCode::StindI2 => listed("stind.i2", InlineNone, PopIPopI, Push0, Next, Primitive),
        OpCode::StindI4 => listed("stind.i4", InlineNone, PopIPopI, Push0, Next, Primitive),
        OpCode::StindI8 => listed("stind.i8", InlineNone, PopIPopI8, Push0, Next, Primitive),
        OpCode::StindR4 => listed("stind.r4", InlineNone, PopIPopR4, Push0, Next, Primitive),
        OpCode::StindR8 => listed("stind.r8", InlineNone, PopIPopR8, Push0, Next, Primitive),
        OpCode::Add => listed("add", InlineNone, Pop1Pop1, Push1, Next, Primitive),
        OpCode::Sub => listed("sub", InlineNone, Pop1Pop1, Push1, Next, Primitive),
        OpCode::Mul => listed("mul", InlineNone, Pop1Pop1, Push1, Next, Primitive),
        OpCode::Div => listed("div", InlineNone, Pop1Pop1, Push1, Next, Primitive),
        OpCode::DivUn => listed("div.un", InlineNone, Pop1Pop1, Push1, Next, Primitive),
        OpCode::Rem => listed("rem", InlineNone, Pop1Pop1, Push1, Next, Primitive),
        OpCode::RemUn => listed("rem.un", InlineNone, Pop1Pop1, Push1, Next, Primitive),
        OpCode::And => listed("and", InlineNone, Pop1Pop1, Push1, Next, Primitive),
        OpCode::Or => listed("or", InlineNone, Pop1Pop1, Push1, Next, Primitive),
        OpCode::Xor => listed("xor", InlineNone, Pop1Pop1, Push1, Next, Primitive),
        OpCode::Shl => listed("shl", InlineNone, Pop1Pop1, Push1, Next, Primitive),
        OpCode::Shr => listed("shr", InlineNone, Pop1Pop1, Push1, Next, Primitive),
        OpCode::ShrUn => listed("shr.un", InlineNone, Pop1Pop1, Push1, Next, Primitive),
        OpCode::Neg => listed("neg", InlineNone, Pop1, Push1, Next, Primitive),
        OpCode::Not => listed("not", InlineNone, Pop1, Push1, Next, Primitive),
        OpCode::ConvI1 => listed("conv.i1", InlineNone, Pop1, PushI, Next, Primitive),
        OpCode::ConvI2 => listed("conv.i2", InlineNone, Pop1, PushI, Next, Primitive),
        OpCode::ConvI4 => listed("conv.i4", InlineNone, Pop1, PushI, Next, Primitive),
        OpCode::ConvI8 => listed("conv.i8", InlineNone, Pop1, PushI8, Next, Primitive),
        OpCode::ConvR4 => listed("conv.r4", InlineNone, Pop1, PushR4, Next, Primitive),
        OpCode::ConvR8 => listed("conv.r8", InlineNone, Pop1, PushR8, Next, Primitive),
        OpCode::ConvU4 => listed("conv.u4", InlineNone, Pop1, PushI, Next, Primitive),
        OpCode::ConvU8 => listed("conv.u8", InlineNone, Pop1, PushI8, Next, Primitive),
        OpCode::Callvirt => listed("callvirt", InlineMethod, VarPop, VarPush, Call, ObjModel),
        OpCode::Cpobj => listed("cpobj", InlineType, PopIPopI, Push0, Next, ObjModel),
        OpCode::Ldobj => listed("ldobj", InlineType, PopI, Push1, Next, ObjModel),
        OpCode::Ldstr => listed("ldstr", InlineString, Pop0, PushRef, Next, ObjModel),
        OpCode::Newobj => listed("newobj", InlineMethod, VarPop, PushRef, Call, ObjModel),
        OpCode::Castclass => listed("castclass", InlineType, PopRef, PushRef, Next, ObjModel),
        OpCode::Isinst => listed("isinst", InlineType, PopRef, PushI, Next, ObjModel),
        OpCode::ConvRUn => listed("conv.r.un", InlineNone, Pop1, PushR8, Next, Primitive),
        OpCode::Unbox => listed("unbox", InlineType, PopRef, PushI, Next, Primitive),
        OpCode::Throw => listed("throw", InlineNone, PopRef, Push0, Throw, ObjModel),
        OpCode::Ldfld => listed("ldfld", InlineField, PopRef, Push1, Next, ObjModel),
        OpCode::Ldflda => listed("ldflda", InlineField, PopRef, PushI, Next, ObjModel),
        OpCode::Stfld => listed("stfld", InlineField, PopRefPop1, Push0, Next, ObjModel),
        OpCode::Ldsfld => listed("ldsfld", InlineField, Pop0, Push1, Next, ObjModel),
        OpCode::Ldsflda => listed("ldsflda", InlineField, Pop0, PushI, Next, ObjModel),
        OpCode::Stsfld => listed("stsfld", InlineField, Pop1, Push0, Next, ObjModel),
        OpCode::Stobj => listed("stobj", InlineType, PopIPop1, Push0, Next, Primitive),
        OpCode::ConvOvfI1Un => listed("conv.ovf.i1.un", InlineNone, Pop1, PushI, Next, Primitive),
        OpCode::ConvOvfI2Un => listed("conv.ovf.i2.un", InlineNone, Pop1, PushI, Next, Primitive),
        OpCode::ConvOvfI4Un => listed("conv.ovf.i4.un", InlineNone, Pop1, PushI, Next, Primitive),
        OpCode::ConvOvfI8Un => listed("conv.ovf.i8.un", InlineNone, Pop1, PushI8, Next, Primitive),
        OpCode::ConvOvfU1Un => listed("conv.ovf.u1.un", InlineNone, Pop1, PushI, Next, Primitive),
        OpCode::ConvOvfU2Un => listed("conv.ovf.u2.un", InlineNone, Pop1, PushI, Next, Primitive),
        OpCode::ConvOvfU4Un => listed("conv.ovf.u4.un", InlineNone, Pop1, PushI, Next, Primitive),
        OpCode::ConvOvfU8Un => listed("conv.ovf.u8.un", InlineNone, Pop1, PushI8, Next, Primitive),
        OpCode::ConvOvfIUn => listed("conv.ovf.i.un", InlineNone, Pop1, PushI, Next, Primitive),
        OpCode::ConvOvfUUn => listed("conv.ovf.u.un", InlineNone, Pop1, PushI, Next, Primitive),
        OpCode::Box => listed("box", InlineType, Pop1, PushRef, Next, Primitive),
        OpCode::Newarr => listed("newarr", InlineType, PopI, PushRef, Next, ObjModel),
        OpCode::Ldlen => listed("ldlen", InlineNone, PopRef, PushI, Next, ObjModel),
        OpCode::Ldelema => listed("ldelema", InlineType, PopRefPopI, PushI, Next, ObjModel),
        OpCode::LdelemI1 => listed("ldelem.i1", InlineNone, PopRefPopI, PushI, Next, ObjModel),
        OpCode::LdelemU1 => listed("ldelem.u1", InlineNone, PopRefPopI, PushI, Next, ObjModel),
        OpCode::LdelemI2 => listed("ldelem.i2", InlineNone, PopRefPopI, PushI, Next, ObjModel),
        OpCode::LdelemU2 => listed("ldelem.u2", InlineNone, PopRefPopI, PushI, Next, ObjModel),
        OpCode::LdelemI4 => listed("ldelem.i4", InlineNone, PopRefPopI, PushI, Next, ObjModel),
        OpCode::LdelemU4 => listed("ldelem.u4", InlineNone, PopRefPopI, PushI, Next, ObjModel),
        OpCode::LdelemI8 => listed("ldelem.i8", InlineNone, PopRefPopI, PushI8, Next, ObjModel),
        OpCode::LdelemI => listed("ldelem.i", InlineNone, PopRefPopI, PushI, Next, ObjModel),
        OpCode::LdelemR4 => listed("ldelem.r4", InlineNone, PopRefPopI, PushR4, Next, ObjModel),
        OpCode::LdelemR8 => listed("ldelem.r8", InlineNone, PopRefPopI, PushR8, Next, ObjModel),
        OpCode::LdelemRef => listed("ldelem.ref", InlineNone, PopRefPopI, PushRef, Next, ObjModel),
        OpCode::StelemI => listed("stelem.i", InlineNone, PopRefPopIPopI, Push0, Next, ObjModel),
        OpCode::StelemI1 => listed("stelem.i1", InlineNone, PopRefPopIPopI, Push0, Next, ObjModel),
        OpCode::StelemI2 => listed("stelem.i2", InlineNone, PopRefPopIPopI, Push0, Next, ObjModel),
        OpCode::StelemI4 => listed("stelem.i4", InlineNone, PopRefPopIPopI, Push0, Next, ObjModel),
        OpCode::StelemI8 => listed("stelem.i8", InlineNone, PopRefPopIPopI8, Push0, Next, ObjModel),
        OpCode::StelemR4 => listed("stelem.r4", InlineNone, PopRefPopIPopR4, Push0, Next, ObjModel),
        OpCode::StelemR8 => listed("stelem.r8", InlineNone, PopRefPopIPopR8, Push0, Next, ObjModel),
        OpCode::StelemRef => listed(
            "stelem.ref", InlineNone, PopRefPopIPopRef, Push0, Next, ObjModel,
        ),
        OpCode::Ldelem => listed("ldelem", InlineType, PopRefPopI, Push1, Next, ObjModel),
        OpCode::Stelem => listed("stelem", InlineType, PopRefPopIPop1, Push0, Next, ObjModel),
        OpCode::UnboxAny => listed("unbox.any", InlineType, PopRef, Push1, Next, ObjModel),
        OpCode::ConvOvfI1 => listed("conv.ovf.i1", InlineNone, Pop1, PushI, Next, Primitive),
        OpCode::ConvOvfU1 => listed("conv.ovf.u1", InlineNone, Pop1, PushI, Next, Primitive),
        OpCode::ConvOvfI2 => listed("conv.ovf.i2", InlineNone, Pop1, PushI, Next, Primitive),
        OpCode::ConvOvfU2 => listed("conv.ovf.u2", InlineNone, Pop1, PushI, Next, Primitive),
        OpCode::ConvOvfI4 => listed("conv.ovf.i4", InlineNone, Pop1, PushI, Next, Primitive),
        OpCode::ConvOvfU4 => listed("conv.ovf.u4", InlineNone, Pop1, PushI, Next, Primitive),
        OpCode::ConvOvfI8 => listed("conv.ovf.i8", InlineNone, Pop1, PushI8, Next, Primitive),
        OpCode::ConvOvfU8 => listed("conv.ovf.u8", InlineNone, Pop1, PushI8, Next, Primitive),
        OpCode::Refanyval => listed("refanyval", InlineType, Pop1, PushI, Next, Primitive),
        OpCode::Ckfinite => listed("ckfinite", InlineNone, Pop1, PushR8, Next, Primitive),
        OpCode::Mkrefany => listed("mkrefany", InlineType, PopI, Push1, Next, Primitive),
        OpCode::Ldtoken => listed("ldtoken", InlineTok, Pop0, PushI, Next, Primitive),
        OpCode::ConvU2 => listed("conv.u2", InlineNone, Pop1, PushI, Next, Primitive),
        OpCode::ConvU1 => listed("conv.u1", InlineNone, Pop1, PushI, Next, Primitive),
        OpCode::ConvI => listed("conv.i", InlineNone, Pop1, PushI, Next, Primitive),
        OpCode::ConvOvfI => listed("conv.ovf.i", InlineNone, Pop1, PushI, Next, Primitive),
        OpCode::ConvOvfU => listed("conv.ovf.u", InlineNone, Pop1, PushI, Next, Primitive),
        OpCode::AddOvf => listed("add.ovf", InlineNone, Pop1Pop1, Push1, Next, Primitive),
        OpCode::AddOvfUn => listed("add.ovf.un", InlineNone, Pop1Pop1, Push1, Next, Primitive),
        OpCode::MulOvf => listed("mul.ovf", InlineNone, Pop1Pop1, Push1, Next, Primitive),
        OpCode::MulOvfUn => listed("mul.ovf.un", InlineNone, Pop1Pop1, Push1, Next, Primitive),
        OpCode::SubOvf => listed("sub.ovf", InlineNone, Pop1Pop1, Push1, Next, Primitive),
        OpCode::SubOvfUn => listed("sub.ovf.un", InlineNone, Pop1Pop1, Push1, Next, Primitive),
        OpCode::Endfinally => listed("endfinally", InlineNone, Pop0, Push0, Return, Primitive),
        OpCode::Leave => listed("leave", InlineBrTarget, Pop0, Push0, Branch, Primitive),
        OpCode::LeaveS => listed("leave.s", ShortInlineBrTarget, Pop0, Push0, Branch, Primitive),
        OpCode::StindI => listed("stind.i", InlineNone, PopIPopI, Push0, Next, Primitive),
        OpCode::ConvU => listed("conv.u", InlineNone, Pop1, PushI, Next, Primitive),
        OpCode::Arglist => listed("arglist", InlineNone, Pop0, PushI, Next, Primitive),
        OpCode::Ceq => listed("ceq", InlineNone, Pop1Pop1, PushI, Next, Primitive),
        OpCode::Cgt => listed("cgt", InlineNone, Pop1Pop1, PushI, Next, Primitive),
        OpCode::CgtUn => listed("cgt.un", InlineNone, Pop1Pop1, PushI, Next, Primitive),
        OpCode::Clt => listed("clt", InlineNone, Pop1Pop1, PushI, Next, Primitive),
        OpCode::CltUn => listed("clt.un", InlineNone, Pop1Pop1, PushI, Next, Primitive),
        OpCode::Ldftn => listed("ldftn", InlineMethod, Pop0, PushI, Next, Primitive),
        OpCode::Ldvirtftn => listed("ldvirtftn", InlineMethod, PopRef, PushI, Next, Primitive),
        OpCode::Ldarg => listed("ldarg", InlineVar, Pop0, Push1, Next, Primitive),
        OpCode::Ldarga => listed("ldarga", InlineVar, Pop0, PushI, Next, Primitive),
        OpCode::Starg => listed("starg", InlineVar, Pop1, Push0, Next, Primitive),
        OpCode::Ldloc => listed("ldloc", InlineVar, Pop0, Push1, Next, Primitive),
        OpCode::Ldloca => listed("ldloca", InlineVar, Pop0, PushI, Next, Primitive),
        OpCode::Stloc => listed("stloc", InlineVar, Pop1, Push0, Next, Primitive),
        OpCode::Localloc => listed("localloc", InlineNone, PopI, PushI, Next, Primitive),
        OpCode::Endfilter => listed("endfilter", InlineNone, PopI, Push0, Return, Primitive),
        OpCode::Unaligned => listed("unaligned.", ShortInlineI, Pop0, Push0, Meta, Prefix),
        OpCode::Volatile => listed("volatile.", InlineNone, Pop0, Push0, Meta, Prefix),
        OpCode::Tail => listed("tail.", InlineNone, Pop0, Push0, Meta, Prefix),
        OpCode::Initobj => listed("initobj", InlineType, PopI, Push0, Next, ObjModel),
        OpCode::Constrained => listed("constrained.", InlineType, Pop0, Push0, Meta, Prefix),
        OpCode::Cpblk => listed("cpblk", InlineNone, PopIPopIPopI, Push0, Next, Primitive),
        OpCode::Initblk => listed("initblk", InlineNone, PopIPopIPopI, Push0, Next, Primitive),
        OpCode::No => listed("no.", ShortInlineI, Pop0, Push0, Meta, Prefix),
        OpCode::Rethrow => listed("rethrow", InlineNone, Pop0, Push0, Throw, ObjModel),
        OpCode::Sizeof => listed("sizeof", InlineType, Pop0, PushI, Next, Primitive),
        OpCode::Refanytype => listed("refanytype", InlineNone, Pop1, PushI, Next, Primitive),
        OpCode::Readonly => listed("readonly.", InlineNone, Pop0, Push0, Meta, Prefix),
    }
}

/// The static facts about `op`.
pub fn info_of(op: OpCode) -> (info: OpCodeInfo)
    ensures
        info == facts_of(op),
{
    let t = listed_traits(op);
    let code: u16 = code(op);
    let (encoding, size): ([u8; 2], u8) = if code < 0x100 {
        ([code as u8, 0], 1)
    } else {
        ([0xFE, (code - 0xFE00) as u8], 2)
    };
    OpCodeInfo {
        name: t.name,
        encoding,
        size,
        operand: t.operand,
        pop: t.pop,
        push: t.push,
        flow: t.flow,
        kind: t.kind,
    }
}

/// The opcode encoded as the one byte `byte`.
pub open spec fn one_byte(byte: u8) -> Option<OpCode> {
    match byte {
        0x00 => Some(OpCode::Nop),
        0x01 => Some(OpCode::Break),
        0x02 => Some(OpCode::Ldarg0),
        0x03 => Some(OpCode::Ldarg1),
        0x04 => Some(OpCode::Ldarg2),
        0x05 => Some(OpCode::Ldarg3),
        0x06 => Some(OpCode::Ldloc0),
        0x07 => Some(OpCode::Ldloc1),
        0x08 => Some(OpCode::Ldloc2),
        0x09 => Some(OpCode::Ldloc3),
        0x0A => Some(OpCode::Stloc0),
        0x0B => Some(OpCode::Stloc1),
        0x0C => Some(OpCode::Stloc2),
        0x0D => Some(OpCode::Stloc3),
        0x0E => Some(OpCode::LdargS),
        0x0F => Some(OpCode::LdargaS),
        0x10 => Some(OpCode::StargS),
        0x11 => Some(OpCode::LdlocS),
        0x12 => Some(OpCode::LdlocaS),
        0x13 => Some(OpCode::StlocS),
        0x14 => Some(OpCode::Ldnull),
        0x15 => Some(OpCode::LdcI4M1),
        0x16 => Some(OpCode::LdcI40),
        0x17 => Some(OpCode::LdcI41),
        0x18 => Some(OpCode::LdcI42),
        0x19 => Some(OpCode::LdcI43),
        0x1A => Some(OpCode::LdcI44),
        0x1B => Some(OpCode::LdcI45),
        0x1C => Some(OpCode::LdcI46),
        0x1D => Some(OpCode::LdcI47),
        0x1E => Some(OpCode::LdcI48),
        0x1F => Some(OpCode::LdcI4S),
        0x20 => Some(OpCode::LdcI4),
        0x21 => Some(OpCode::LdcI8),
        0x22 => Some(OpCode::LdcR4),
        0x23 => Some(OpCode::LdcR8),
        0x25 => Some(OpCode::Dup),
        0x26 => Some(OpCode::Pop),
        0x27 => Some(OpCode::Jmp),
        0x28 => Some(OpCode::Call),
        0x29 => Some(OpCode::Calli),
        0x2A => Some(OpCode::Ret),
        0x2B => Some(OpCode::BrS),
        0x2C => Some(OpCode::BrfalseS),
        0x2D => Some(OpCode::BrtrueS),
        0x2E => Some(OpCode::BeqS),
        0x2F => Some(OpCode::BgeS),
        0x30 => Some(OpCode::BgtS),
        0x31 => Some(OpCode::BleS),
        0x32 => Some(OpCode::BltS),
        0x33 => Some(OpCode::BneUnS),
        0x34 => Some(OpCode::BgeUnS),
        0x35 => Some(OpCode::BgtUnS),
        0x36 => Some(OpCode::BleUnS),
        0x37 => Some(OpCode::BltUnS),
        0x38 => Some(OpCode::Br),
        0x39 => Some(OpCode::Brfalse),
        0x3A => Some(OpCode::Brtrue),
        0x3B => Some(OpCode::Beq),
        0x3C => Some(OpCode::Bge),
        0x3D => Some(OpCode::Bgt),
        0x3E => Some(OpCode::Ble),
        0x3F => Some(OpCode::Blt),
        0x40 => Some(OpCode::BneUn),
        0x41 => Some(OpCode::BgeUn),
        0x42 => Some(OpCode::BgtUn),
        0x43 => Some(OpCode::BleUn),
        0x44 => Some(OpCode::BltUn),
        0x45 => Some(OpCode::Switch),
        0x46 => Some(OpCode::LdindI1),
        0x47 => Some(OpCode::LdindU1),
        0x48 => Some(OpCode::LdindI2),
        0x49 => Some(OpCode::LdindU2),
        0x4A => Some(OpCode::LdindI4),
        0x4B => Some(OpCode::LdindU4),
        0x4C => Some(OpCode::LdindI8),
        0x4D => Some(OpCode::LdindI),
        0x4E => Some(OpCode::LdindR4),
        0x4F => Some(OpCode::LdindR8),
        0x50 => Some(OpCode::LdindRef),
        0x51 => Some(OpCode::StindRef),
        0x52 => Some(OpCode::StindI1),
        0x53 => Some(OpCode::StindI2),
        0x54 => Some(OpCode::StindI4),
        0x55 => Some(OpCode::StindI8),
        0x56 => Some(OpCode::StindR4),
        0x57 => Some(OpCode::StindR8),
        0x58 => Some(OpCode::Add),
        0x59 => Some(OpCode::Sub),
        0x5A => Some(OpCode::Mul),
        0x5B => Some(OpCode::Div),
        0x5C => Some(OpCode::DivUn),
        0x5D => Some(OpCode::Rem),
        0x5E => Some(OpCode::RemUn),
        0x5F => Some(OpCode::And),
        0x60 => Some(OpCode::Or),
        0x61 => Some(OpCode::Xor),
        0x62 => Some(OpCode::Shl),
        0x63 => Some(OpCode::Shr),
        0x64 => Some(OpCode::ShrUn),
        0x65 => Some(OpCode::Neg),
        0x66 => Some(OpCode::Not),
        0x67 => Some(OpCode::ConvI1),
        0x68 => Some(OpCode::ConvI2),
        0x69 => Some(OpCode::ConvI4),
        0x6A => Some(OpCode::ConvI8),
        0x6B => Some(OpCode::ConvR4),
        0x6C => Some(OpCode::ConvR8),
        0x6D => Some(OpCode::ConvU4),
        0x6E => Some(OpCode::ConvU8),
        0x6F => Some(OpCode::Callvirt),
        0x70 => Some(OpCode::Cpobj),
        0x71 => Some(OpCode::Ldobj),
        0x72 => Some(OpCode::Ldstr),
        0x73 => Some(OpCode::Newobj),
        0x74 => Some(OpCode::Castclass),
        0x75 => Some(OpCode::Isinst),
        0x76 => Some(OpCode::ConvRUn),
        0x79 => Some(OpCode::Unbox),
        0x7A => Some(OpCode::Throw),
        0x7B => Some(OpCode::Ldfld),
        0x7C => Some(OpCode::Ldflda),
        0x7D => Some(OpCode::Stfld),
        0x7E => Some(OpCode::Ldsfld),
        0x7F => Some(OpCode::Ldsflda),
        0x80 => Some(OpCode::Stsfld),
        0x81 => Some(OpCode::Stobj),
        0x82 => Some(OpCode::ConvOvfI1Un),
        0x83 => Some(OpCode::ConvOvfI2Un),
        0x84 => Some(OpCode::ConvOvfI4Un),
        0x85 => Some(OpCode::ConvOvfI8Un),
        0x86 => Some(OpCode::ConvOvfU1Un),
        0x87 => Some(OpCode::ConvOvfU2Un),
        0x88 => Some(OpCode::ConvOvfU4Un),
        0x89 => Some(OpCode::ConvOvfU8Un),
        0x8A => Some(OpCode::ConvOvfIUn),
        0x8B => Some(OpCode::ConvOvfUUn),
        0x8C => Some(OpCode::Box),
        0x8D => Some(OpCode::Newarr),
        0x8E => Some(OpCode::Ldlen),
        0x8F => Some(OpCode::Ldelema),
        0x90 => Some(OpCode::LdelemI1),
        0x91 => Some(OpCode::LdelemU1),
        0x92 => Some(OpCode::LdelemI2),
        0x93 => Some(OpCode::LdelemU2),
        0x94 => Some(OpCode::LdelemI4),
        0x95 => Some(OpCode::LdelemU4),
        0x96 => Some(OpCode::LdelemI8),
        0x97 => Some(OpCode::LdelemI),
        0x98 => Some(OpCode::LdelemR4),
        0x99 => Some(OpCode::LdelemR8),
        0x9A => Some(OpCode::LdelemRef),
        0x9B => Some(OpCode::StelemI),
        0x9C => Some(OpCode::StelemI1),
        0x9D => Some(OpCode::StelemI2),
        0x9E => Some(OpCode::StelemI4),
        0x9F => Some(OpCode::StelemI8),
        0xA0 => Some(OpCode::StelemR4),
        0xA1 => Some(OpCode::StelemR8),
        0xA2 => Some(OpCode::StelemRef),
        0xA3 => Some(OpCode::Ldelem),
        0xA4 => Some(OpCode::Stelem),
        0xA5 => Some(OpCode::UnboxAny),
        0xB3 => Some(OpCode::ConvOvfI1),
        0xB4 => Some(OpCode::ConvOvfU1),
        0xB5 => Some(OpCode::ConvOvfI2),
        0xB6 => Some(OpCode::ConvOvfU2),
        0xB7 => Some(OpCode::ConvOvfI4),
        0xB8 => Some(OpCode::ConvOvfU4),
        0xB9 => Some(OpCode::ConvOvfI8),
        0xBA => Some(OpCode::ConvOvfU8),
        0xC2 => Some(OpCode::Refanyval),
        0xC3 => Some(OpCode::Ckfinite),
        0xC6 => Some(OpCode::Mkrefany),
        0xD0 => Some(OpCode::Ldtoken),
        0xD1 => Some(OpCode::ConvU2),
        0xD2 => Some(OpCode::ConvU1),
        0xD3 => Some(OpCode::ConvI),
        0xD4 => Some(OpCode::ConvOvfI),
        0xD5 => Some(OpCode::ConvOvfU),
        0xD6 => Some(OpCode::AddOvf),
        0xD7 => Some(OpCode::AddOvfUn),
        0xD8 => Some(OpCode::MulOvf),
        0xD9 => Some(OpCode::MulOvfUn),
        0xDA => Some(OpCode::SubOvf),
        0xDB => Some(OpCode::SubOvfUn),
        0xDC => Some(OpCode::Endfinally),
        0xDD => Some(OpCode::Leave),
        0xDE => Some(OpCode::LeaveS),
        0xDF => Some(OpCode::StindI),
        0xE0 => Some(OpCode::ConvU),
        _ => None,
    }
}

/// The opcode encoded as `0xFE` and `byte`.
pub open spec fn two_byte(byte: u8) -> Option<OpCode> {
    match byte {
        0x00 => Some(OpCode::Arglist),
        0x01 => Some(OpCode::Ceq),
        0x02 => Some(OpCode::Cgt),
        0x03 => Some(OpCode::CgtUn),
        0x04 => Some(OpCode::Clt),
        0x05 => Some(OpCode::CltUn),
        0x06 => Some(OpCode::Ldftn),
        0x07 => Some(OpCode::Ldvirtftn),
        0x09 => Some(OpCode::Ldarg),
        0x0A => Some(OpCode::Ldarga),
        0x0B => Some(OpCode::Starg),
        0x0C => Some(OpCode::Ldloc),
        0x0D => Some(OpCode::Ldloca),
        0x0E => Some(OpCode::Stloc),
        0x0F => Some(OpCode::Localloc),
        0x11 => Some(OpCode::Endfilter),
        0x12 => Some(OpCode::Unaligned),
        0x13 => Some(OpCode::Volatile),
        0x14 => Some(OpCode::Tail),
        0x15 => Some(OpCode::Initobj),
        0x16 => Some(OpCode::Constrained),
        0x17 => Some(OpCode::Cpblk),
        0x18 => Some(OpCode::Initblk),
        0x19 => Some(OpCode::No),
        0x1A => Some(OpCode::Rethrow),
        0x1C => Some(OpCode::Sizeof),
        0x1D => Some(OpCode::Refanytype),
        0x1E => Some(OpCode::Readonly),
        _ => None,
    }
}

/// The opcode encoded as the one byte `byte`.
pub fn decode_one(byte: u8) -> (op: Option<OpCode>)
    ensures
        op == one_byte(byte),
{
    match byte {
        0x00 => Some(OpCode::Nop),
        0x01 => Some(OpCode::Break),
        0x02 => Some(OpCode::Ldarg0),
        0x03 => Some(OpCode::Ldarg1),
        0x04 => Some(OpCode::Ldarg2),
        0x05 => Some(OpCode::Ldarg3),
        0x06 => Some(OpCode::Ldloc0),
        0x07 => Some(OpCode::Ldloc1),
        0x08 => Some(OpCode::Ldloc2),
        0x09 => Some(OpCode::Ldloc3),
        0x0A => Some(OpCode::Stloc0),
        0x0B => Some(OpCode::Stloc1),
        0x0C => Some(OpCode::Stloc2),
        0x0D => Some(OpCode::Stloc3),
        0x0E => Some(OpCode::LdargS),
        0x0F => Some(OpCode::LdargaS),
        0x10 => Some(OpCode::StargS),
        0x11 => Some(OpCode::LdlocS),
        0x12 => Some(OpCode::LdlocaS),
        0x13 => Some(OpCode::StlocS),
        0x14 => Some(OpCode::Ldnull),
        0x15 => Some(OpCode::LdcI4M1),
        0x16 => Some(OpCode::LdcI40),
        0x17 => Some(OpCode::LdcI41),
        0x18 => Some(OpCode::LdcI42),
        0x19 => Some(OpCode::LdcI43),
        0x1A => Some(OpCode::LdcI44),
        0x1B => Some(OpCode::LdcI45),
        0x1C => Some(OpCode::LdcI46),
        0x1D => Some(OpCode::LdcI47),
        0x1E => Some(OpCode::LdcI48),
        0x1F => Some(OpCode::LdcI4S),
        0x20 => Some(OpCode::LdcI4),
        0x21 => Some(OpCode::LdcI8),
        0x22 => Some(OpCode::LdcR4),
        0x23 => Some(OpCode::LdcR8),
        0x25 => Some(OpCode::Dup),
        0x26 => Some(OpCode::Pop),
        0x27 => Some(OpCode::Jmp),
        0x28 => Some(OpCode::Call),
        0x29 => Some(OpCode::Calli),
        0x2A => Some(OpCode::Ret),
        0x2B => Some(OpCode::BrS),
        0x2C => Some(OpCode::BrfalseS),
        0x2D => Some(OpCode::BrtrueS),
        0x2E => Some(OpCode::BeqS),
        0x2F => Some(OpCode::BgeS),
        0x30 => Some(OpCode::BgtS),
        0x31 => Some(OpCode::BleS),
        0x32 => Some(OpCode::BltS),
        0x33 => Some(OpCode::BneUnS),
        0x34 => Some(OpCode::BgeUnS),
        0x35 => Some(OpCode::BgtUnS),
        0x36 => Some(OpCode::BleUnS),
        0x37 => Some(OpCode::BltUnS),
        0x38 => Some(OpCode::Br),
        0x39 => Some(OpCode::Brfalse),
        0x3A => Some(OpCode::Brtrue),
        0x3B => Some(OpCode::Beq),
        0x3C => Some(OpCode::Bge),
        0x3D => Some(OpCode::Bgt),
        0x3E => Some(OpCode::Ble),
        0x3F => Some(OpCode::Blt),
        0x40 => Some(OpCode::BneUn),
        0x41 => Some(OpCode::BgeUn),
        0x42 => Some(OpCode::BgtUn),
        0x43 => Some(OpCode::BleUn),
        0x44 => Some(OpCode::BltUn),
        0x45 => Some(OpCode::Switch),
        0x46 => Some(OpCode::LdindI1),
        0x47 => Some(OpCode::LdindU1),
        0x48 => Some(OpCode::LdindI2),
        0x49 => Some(OpCode::LdindU2),
        0x4A => Some(OpCode::LdindI4),
        0x4B => Some(OpCode::LdindU4),
        0x4C => Some(OpCode::LdindI8),
        0x4D => Some(OpCode::LdindI),
        0x4E => Some(OpCode::LdindR4),
        0x4F => Some(OpCode::LdindR8),
        0x50 => Some(OpCode::LdindRef),
        0x51 => Some(OpCode::StindRef),
        0x52 => Some(OpCode::StindI1),
        0x53 => Some(OpCode::StindI2),
        0x54 => Some(OpCode::StindI4),
        0x55 => Some(OpCode::StindI8),
        0x56 => Some(OpCode::StindR4),
        0x57 => Some(OpCode::StindR8),
        0x58 => Some(OpCode::Add),
        0x59 => Some(OpCode::Sub),
        0x5A => Some(OpCode::Mul),
        0x5B => Some(OpCode::Div),
        0x5C => Some(OpCode::DivUn),
        0x5D => Some(OpCode::Rem),
        0x5E => Some(OpCode::RemUn),
        0x5F => Some(OpCode::And),
        0x60 => Some(OpCode::Or),
        0x61 => Some(OpCode::Xor),
        0x62 => Some(OpCode::Shl),
        0x63 => Some(OpCode::Shr),
        0x64 => Some(OpCode::ShrUn),
        0x65 => Some(OpCode::Neg),
        0x66 => Some(OpCode::Not),
        0x67 => Some(OpCode::ConvI1),
        0x68 => Some(OpCode::ConvI2),
        0x69 => Some(OpCode::ConvI4),
        0x6A => Some(OpCode::ConvI8),
        0x6B => Some(OpCode::ConvR4),
        0x6C => Some(OpCode::ConvR8),
        0x6D => Some(OpCode::ConvU4),
        0x6E => Some(OpCode::ConvU8),
        0x6F => Some(OpCode::Callvirt),
        0x70 => Some(OpCode::Cpobj),
        0x71 => Some(OpCode::Ldobj),
        0x72 => Some(OpCode::Ldstr),
        0x73 => Some(OpCode::Newobj),
        0x74 => Some(OpCode::Castclass),
        0x75 => Some(OpCode::Isinst),
        0x76 => Some(OpCode::ConvRUn),
        0x79 => Some(OpCode::Unbox),
        0x7A => Some(OpCode::Throw),
        0x7B => Some(OpCode::Ldfld),
        0x7C => Some(OpCode::Ldflda),
        0x7D => Some(OpCode::Stfld),
        0x7E => Some(OpCode::Ldsfld),
        0x7F => Some(OpCode::Ldsflda),
        0x80 => Some(OpCode::Stsfld),
        0x81 => Some(OpCode::Stobj),
        0x82 => Some(OpCode::ConvOvfI1Un),
        0x83 => Some(OpCode::ConvOvfI2Un),
        0x84 => Some(OpCode::ConvOvfI4Un),
        0x85 => Some(OpCode::ConvOvfI8Un),
        0x86 => Some(OpCode::ConvOvfU1Un),
        0x87 => Some(OpCode::ConvOvfU2Un),
        0x88 => Some(OpCode::ConvOvfU4Un),
        0x89 => Some(OpCode::ConvOvfU8Un),
        0x8A => Some(OpCode::ConvOvfIUn),
        0x8B => Some(OpCode::ConvOvfUUn),
        0x8C => Some(OpCode::Box),
        0x8D => Some(OpCode::Newarr),
        0x8E => Some(OpCode::Ldlen),
        0x8F => Some(OpCode::Ldelema),
        0x90 => Some(OpCode::LdelemI1),
        0x91 => Some(OpCode::LdelemU1),
        0x92 => Some(OpCode::LdelemI2),
        0x93 => Some(OpCode::LdelemU2),
        0x94 => Some(OpCode::LdelemI4),
        0x95 => Some(OpCode::LdelemU4),
        0x96 => Some(OpCode::LdelemI8),
        0x97 => Some(OpCode::LdelemI),
        0x98 => Some(OpCode::LdelemR4),
        0x99 => Some(OpCode::LdelemR8),
        0x9A => Some(OpCode::LdelemRef),
        0x9B => Some(OpCode::StelemI),
        0x9C => Some(OpCode::StelemI1),
        0x9D => Some(OpCode::StelemI2),
        0x9E => Some(OpCode::StelemI4),
        0x9F => Some(OpCode::StelemI8),
        0xA0 => Some(OpCode::StelemR4),
        0xA1 => Some(OpCode::StelemR8),
        0xA2 => Some(OpCode::StelemRef),
        0xA3 => Some(OpCode::Ldelem),
        0xA4 => Some(OpCode::Stelem),
        0xA5 => Some(OpCode::UnboxAny),
        0xB3 => Some(OpCode::ConvOvfI1),
        0xB4 => Some(OpCode::ConvOvfU1),
        0xB5 => Some(OpCode::ConvOvfI2),
        0xB6 => Some(OpCode::ConvOvfU2),
        0xB7 => Some(OpCode::ConvOvfI4),
        0xB8 => Some(OpCode::ConvOvfU4),
        0xB9 => Some(OpCode::ConvOvfI8),
        0xBA => Some(OpCode::ConvOvfU8),
        0xC2 => Some(OpCode::Refanyval),
        0xC3 => Some(OpCode::Ckfinite),
        0xC6 => Some(OpCode::Mkrefany),
        0xD0 => Some(OpCode::Ldtoken),
        0xD1 => Some(OpCode::ConvU2),
        0xD2 => Some(OpCode::ConvU1),
        0xD3 => Some(OpCode::ConvI),
        0xD4 => Some(OpCode::ConvOvfI),
        0xD5 => Some(OpCode::ConvOvfU),
        0xD6 => Some(OpCode::AddOvf),
        0xD7 => Some(OpCode::AddOvfUn),
        0xD8 => Some(OpCode::MulOvf),
        0xD9 => Some(OpCode::MulOvfUn),
        0xDA => Some(OpCode::SubOvf),
        0xDB => Some(OpCode::SubOvfUn),
        0xDC => Some(OpCode::Endfinally),
        0xDD => Some(OpCode::Leave),
        0xDE => Some(OpCode::LeaveS),
        0xDF => Some(OpCode::StindI),
        0xE0 => Some(OpCode::ConvU),
        _ => None,
    }
}

/// The opcode encoded as `0xFE` and `byte`.
pub fn decode_two(byte: u8) -> (op: Option<OpCode>)
    ensures
        op == two_byte(byte),
{
    match byte {
        0x00 => Some(OpCode::Arglist),
        0x01 => Some(OpCode::Ceq),
        0x02 => Some(OpCode::Cgt),
        0x03 => Some(OpCode::CgtUn),
        0x04 => Some(OpCode::Clt),
        0x05 => Some(OpCode::CltUn),
        0x06 => Some(OpCode::Ldftn),
        0x07 => Some(OpCode::Ldvirtftn),
        0x09 => Some(OpCode::Ldarg),
        0x0A => Some(OpCode::Ldarga),
        0x0B => Some(OpCode::Starg),
        0x0C => Some(OpCode::Ldloc),
        0x0D => Some(OpCode::Ldloca),
        0x0E => Some(OpCode::Stloc),
        0x0F => Some(OpCode::Localloc),
        0x11 => Some(OpCode::Endfilter),
        0x12 => Some(OpCode::Unaligned),
        0x13 => Some(OpCode::Volatile),
        0x14 => Some(OpCode::Tail),
        0x15 => Some(OpCode::Initobj),
        0x16 => Some(OpCode::Constrained),
        0x17 => Some(OpCode::Cpblk),
        0x18 => Some(OpCode::Initblk),
        0x19 => Some(OpCode::No),
        0x1A => Some(OpCode::Rethrow),
        0x1C => Some(OpCode::Sizeof),
        0x1D => Some(OpCode::Refanytype),
        0x1E => Some(OpCode::Readonly),
        _ => None,
    }
}

/// The general-purpose opcode that a short or macro encoding stands for.
pub open spec fn general_form(op: OpCode) -> OpCode {
    match op {
        OpCode::Ldarg0
        | OpCode::Ldarg1
        | OpCode::Ldarg2
        | OpCode::Ldarg3
        | OpCode::LdargS => OpCode::Ldarg,
        OpCode::Ldloc0
        | OpCode::Ldloc1
        | OpCode::Ldloc2
        | OpCode::Ldloc3
        | OpCode::LdlocS => OpCode::Ldloc,
        OpCode::Stloc0
        | OpCode::Stloc1
        | OpCode::Stloc2
        | OpCode::Stloc3
        | OpCode::StlocS => OpCode::Stloc,
        OpCode::LdargaS => OpCode::Ldarga,
        OpCode::StargS => OpCode::Starg,
        OpCode::LdlocaS => OpCode::Ldloca,
        OpCode::LdcI4M1
        | OpCode::LdcI40
        | OpCode::LdcI41
        | OpCode::LdcI42
        | OpCode::LdcI43
        | OpCode::LdcI44
        | OpCode::LdcI45
        | OpCode::LdcI46
        | OpCode::LdcI47
        | OpCode::LdcI48
        | OpCode::LdcI4S => OpCode::LdcI4,
        OpCode::BrS => OpCode::Br,
        OpCode::BrfalseS => OpCode::Brfalse,
        OpCode::BrtrueS => OpCode::Brtrue,
        OpCode::BeqS => OpCode::Beq,
        OpCode::BgeS => OpCode::Bge,
        OpCode::BgtS => OpCode::Bgt,
        OpCode::BleS => OpCode::Ble,
        OpCode::BltS => OpCode::Blt,
        OpCode::BneUnS => OpCode::BneUn,
        OpCode::BgeUnS => OpCode::BgeUn,
        OpCode::BgtUnS => OpCode::BgtUn,
        OpCode::BleUnS => OpCode::BleUn,
        OpCode::BltUnS => OpCode::BltUn,
        OpCode::LeaveS => OpCode::Leave,
        _ => op,
    }
}

/// The general-purpose opcode that a short or macro encoding stands for.
pub fn canonical_of(op: OpCode) -> (general: OpCode)
    ensures
        general == general_form(op),
{
    match op {
        OpCode::Ldarg0
        | OpCode::Ldarg1
        | OpCode::Ldarg2
        | OpCode::Ldarg3
        | OpCode::LdargS => OpCode::Ldarg,
        OpCode::Ldloc0
        | OpCode::Ldloc1
        | OpCode::Ldloc2
        | OpCode::Ldloc3
        | OpCode::LdlocS => OpCode::Ldloc,
        OpCode::Stloc0
        | OpCode::Stloc1
        | OpCode::Stloc2
        | OpCode::Stloc3
        | OpCode::StlocS => OpCode::Stloc,
        OpCode::LdargaS => OpCode::Ldarga,
        OpCode::StargS => OpCode::Starg,
        OpCode::LdlocaS => OpCode::Ldloca,
        OpCode::LdcI4M1
        | OpCode::LdcI40
        | OpCode::LdcI41
        | OpCode::LdcI42
        | OpCode::LdcI43
        | OpCode::LdcI44
        | OpCode::LdcI45
        | OpCode::LdcI46
        | OpCode::LdcI47
        | OpCode::LdcI48
        | OpCode::LdcI4S => OpCode::LdcI4,
        OpCode::BrS => OpCode::Br,
        OpCode::BrfalseS => OpCode::Brfalse,
        OpCode::BrtrueS => OpCode::Brtrue,
        OpCode::BeqS => OpCode::Beq,
        OpCode::BgeS => OpCode::Bge,
        OpCode::BgtS => OpCode::Bgt,
        OpCode::BleS => OpCode::Ble,
        OpCode::BltS => OpCode::Blt,
        OpCode::BneUnS => OpCode::BneUn,
        OpCode::BgeUnS => OpCode::BgeUn,
        OpCode::BgtUnS => OpCode::BgtUn,
        OpCode::BleUnS => OpCode::BleUn,
        OpCode::BltUnS => OpCode::BltUn,
        OpCode::LeaveS => OpCode::Leave,
        _ => op,
    }
}

/// The local or argument index that a macro encoding implies.
pub open spec fn var_implied_by(op: OpCode) -> Option<u16> {
    match op {
        OpCode::Ldarg0 | OpCode::Ldloc0 | OpCode::Stloc0 => Some(0),
        OpCode::Ldarg1 | OpCode::Ldloc1 | OpCode::Stloc1 => Some(1),
        OpCode::Ldarg2 | OpCode::Ldloc2 | OpCode::Stloc2 => Some(2),
        OpCode::Ldarg3 | OpCode::Ldloc3 | OpCode::Stloc3 => Some(3),
        _ => None,
    }
}

/// The local or argument index that a macro encoding implies.
pub fn implied_var(op: OpCode) -> (index: Option<u16>)
    ensures
        index == var_implied_by(op),
{
    match op {
        OpCode::Ldarg0 | OpCode::Ldloc0 | OpCode::Stloc0 => Some(0),
        OpCode::Ldarg1 | OpCode::Ldloc1 | OpCode::Stloc1 => Some(1),
        OpCode::Ldarg2 | OpCode::Ldloc2 | OpCode::Stloc2 => Some(2),
        OpCode::Ldarg3 | OpCode::Ldloc3 | OpCode::Stloc3 => Some(3),
        _ => None,
    }
}

/// The constant that a macro encoding implies.
pub open spec fn i32_implied_by(op: OpCode) -> Option<i32> {
    match op {
        OpCode::LdcI4M1 => Some(-1i32),
        OpCode::LdcI40 => Some(0),
        OpCode::LdcI41 => Some(1),
        OpCode::LdcI42 => Some(2),
        OpCode::LdcI43 => Some(3),
        OpCode::LdcI44 => Some(4),
        OpCode::LdcI45 => Some(5),
        OpCode::LdcI46 => Some(6),
        OpCode::LdcI47 => Some(7),
        OpCode::LdcI48 => Some(8),
        _ => None,
    }
}

/// The constant that a macro encoding implies.
pub fn implied_i32(op: OpCode) -> (value: Option<i32>)
    ensures
        value == i32_implied_by(op),
{
    match op {
        OpCode::LdcI4M1 => Some(-1),
        OpCode::LdcI40 => Some(0),
        OpCode::LdcI41 => Some(1),
        OpCode::LdcI42 => Some(2),
        OpCode::LdcI43 => Some(3),
        OpCode::LdcI44 => Some(4),
        OpCode::LdcI45 => Some(5),
        OpCode::LdcI46 => Some(6),
        OpCode::LdcI47 => Some(7),
        OpCode::LdcI48 => Some(8),
        _ => None,
    }
}

/// The opcode that `byte` encodes, alone or behind `0xFE`, has that encoding.
#[verifier::rlimit(50)]
pub proof fn lemma_decoded_encoding(byte: u8)
    ensures
        one_byte(byte) matches Some(op) ==> code_of(op) == byte,
        two_byte(byte) matches Some(op) ==> code_of(op) == 0xFE00 + byte,
{
}

/// Decoding the encoding of an opcode gives the opcode back.
pub proof fn lemma_encoding_decodes(op: OpCode)
    ensures
        ({
            let code = code_of(op);
            ||| code < 0xFE && one_byte(code as u8) == Some(op)
            ||| 0xFE00 <= code <= 0xFEFF && two_byte((code - 0xFE00) as u8) == Some(op)
        }),
{
}

/// A general-purpose opcode stands for itself.
pub proof fn lemma_canonical_idempotent(op: OpCode)
    ensures
        general_form(general_form(op)) == general_form(op),
{
}

/// How many bytes below `byte` encode no opcode on their own.
spec fn one_byte_gaps(byte: int) -> int {
    if byte <= 0x24 {
        0
    } else if byte <= 0x77 {
        1
    } else if byte <= 0xA6 {
        3
    } else if byte <= 0xBB {
        16
    } else if byte <= 0xC4 {
        23
    } else if byte <= 0xC7 {
        25
    } else {
        34
    }
}

/// How many bytes below `byte` encode no opcode behind `0xFE`.
spec fn two_byte_gaps(byte: int) -> int {
    if byte <= 0x08 {
        0
    } else if byte <= 0x10 {
        1
    } else if byte <= 0x1B {
        2
    } else {
        3
    }
}

/// The place of the opcode encoded as `code` in the list of all opcodes.
spec fn place(code: int) -> int {
    if code < 0x100 {
        code - one_byte_gaps(code)
    } else {
        191 + (code - 0xFE00) - two_byte_gaps(code - 0xFE00)
    }
}

/// Every opcode is in the list of all opcodes, whose length is their count.
pub proof fn lemma_all_opcodes(op: OpCode)
    ensures
        ALL_OPCODES@.len() == OPCODE_COUNT,
        ALL_OPCODES@.contains(op),
{
    assert(ALL_OPCODES@[place(code_of(op) as int)] == op);
}

/// A short or macro form affects control flow and the stack as its general
/// form does.
pub proof fn lemma_canonical_keeps_effects(op: OpCode)
    ensures
        traits_of(general_form(op)).flow == traits_of(op).flow,
        traits_of(general_form(op)).pop == traits_of(op).pop,
        traits_of(general_form(op)).push == traits_of(op).push,
{
}

} // verus!
