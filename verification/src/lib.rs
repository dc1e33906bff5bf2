//! A decoder for CLI metadata and CIL method bodies.
//!
//! `cildec` reads a managed PE image, or a bare metadata blob, and exposes its
//! tables, heaps, signatures, method bodies and exception-handling tables as
//! typed, bounds-checked values. It then decodes CIL method bodies into a typed
//! instruction stream with exact byte offsets and sizes, absolute branch
//! targets, folded prefixes and the static facts of each opcode.
//!
//! Every decoder is a function of its input bytes. Its contract equates what it
//! returns, each error with its offset and context included, with a
//! mathematical description of the format.
use vstd::prelude::*;

pub mod body;
pub mod compressed;
pub mod display;
pub mod error;
pub mod heaps;
pub mod il;
pub mod metadata;
pub mod pe;
pub mod reader;
pub mod signature;
pub mod tables;
pub mod text;
pub mod token;

pub use body::{ExceptionHandler, FatFlags, HandlerKind, HeaderKind, MethodBody, RawSection};
pub use compressed::{read_i32 as read_compressed_i32, read_u32 as read_compressed_u32};
pub use display::Names;
pub use error::{Diagnostic, DiagnosticCode, Error, ErrorKind, Result, Strictness};
pub use heaps::{BlobHeap, Guid, GuidHeap, StringsHeap, UserString, UserStringsHeap};
pub use il::{
    FlowControl, FoldedInstruction, FoldedIter, Instruction, InstructionIter, NoChecks, OpCode,
    OpCodeInfo, OpCodeKind, Operand, OperandKind, Prefixes, StackBehaviourPop, StackBehaviourPush,
};
pub use metadata::{Metadata, StreamHeader};
pub use pe::{CliFlags, CliHeader, DataDirectory, EntryPoint, PeImage, Section};
pub use signature::{
    ArrayShape, CallConv, CustomMod, FieldSig, LocalVar, LocalVarSig, MethodSig, MethodSpecSig, Param,
    PropertySig, SignatureOptions, Type, TypeSpecSig,
};
pub use tables::{CodedIndex, ColumnKind, TableLayout, TableRow, Tables};
pub use token::{
    marker, BlobIndex, GuidIndex, Rid, StringIndex, TableId, Token, UserStringToken,
};

verus! {

} // verus!
