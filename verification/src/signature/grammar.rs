//! The grammar of signatures (II.23.2), as a function of the bytes of a blob.
use vstd::prelude::*;

use super::calling_convention as cc;
use super::element_type as et;
use super::{CallConv, CustomMod, SignatureOptions, CONTEXT};
use crate::compressed;
use crate::error::{Error, ErrorKind, Result};
use crate::token::{TableId, Token};

verus! {

/// The shape of a multi-dimensional array.
#[verifier::ext_equal]
pub struct ShapeModel {
    /// The number of dimensions.
    pub rank: u32,
    /// The declared sizes.
    pub sizes: Seq<u32>,
    /// The declared lower bounds.
    pub lo_bounds: Seq<i32>,
}

/// A type signature.
#[verifier::ext_equal]
pub enum TypeModel {
    /// A type that its element type byte alone names.
    Plain(u8),
    /// A pointer.
    Ptr(Seq<CustomMod>, Box<TypeModel>),
    /// A managed reference.
    ByRef(Box<TypeModel>),
    /// A value type.
    ValueType(Token),
    /// A class.
    Class(Token),
    /// A generic type parameter.
    Var(u32),
    /// A generic method parameter.
    MVar(u32),
    /// A multi-dimensional array.
    Array(Box<TypeModel>, ShapeModel),
    /// A zero-based one-dimensional array.
    SzArray(Seq<CustomMod>, Box<TypeModel>),
    /// A generic instantiation.
    GenericInst {
        /// The definition is a value type.
        is_value_type: bool,
        /// The definition.
        def: Token,
        /// The arguments.
        args: Seq<TypeModel>,
    },
    /// A function pointer.
    FnPtr(Box<MethodSigModel>),
    /// A type with custom modifiers.
    Modified(Seq<CustomMod>, Box<TypeModel>),
    /// A pinned type.
    Pinned(Box<TypeModel>),
    /// The sentinel of a vararg call.
    Sentinel,
    /// A runtime-internal type handle.
    Internal(usize),
}

/// A parameter or return type.
#[verifier::ext_equal]
pub struct ParamModel {
    /// The modifiers.
    pub custom_mods: Seq<CustomMod>,
    /// Passed by reference.
    pub by_ref: bool,
    /// The type.
    pub ty: TypeModel,
}

/// A method signature.
#[verifier::ext_equal]
pub struct MethodSigModel {
    /// The bytes.
    pub raw: Seq<u8>,
    /// The calling convention.
    pub calling_convention: CallConv,
    /// `HASTHIS` is set.
    pub has_this: bool,
    /// `EXPLICITTHIS` is set.
    pub explicit_this: bool,
    /// The return type.
    pub return_type: ParamModel,
    /// The parameters before a sentinel.
    pub params: Seq<ParamModel>,
    /// The parameters behind a sentinel.
    pub vararg_params: Seq<ParamModel>,
}

/// True when the element type byte `b` alone names a type.
pub open spec fn is_plain(b: u8) -> bool {
    et::VOID <= b <= et::STRING || b == et::TYPEDBYREF || b == et::I || b == et::U || b
        == et::OBJECT
}

/// The width in bits of the type that the element type byte `b` names.
pub open spec fn plain_width(b: u8, pointer_bits: u16) -> Option<u16> {
    if b == et::BOOLEAN || b == et::I1 || b == et::U1 {
        Some(8)
    } else if b == et::CHAR || b == et::I2 || b == et::U2 {
        Some(16)
    } else if b == et::I4 || b == et::U4 || b == et::R4 {
        Some(32)
    } else if b == et::I8 || b == et::U8 || b == et::R8 {
        Some(64)
    } else if b == et::I || b == et::U || b == et::STRING || b == et::OBJECT {
        Some(pointer_bits)
    } else {
        None
    }
}

impl TypeModel {
    /// The width in bits of a primitive, pointer or reference type.
    pub open spec fn width(self, pointer_bits: u16) -> Option<u16>
        decreases self,
    {
        match self {
            TypeModel::Plain(b) => plain_width(b, pointer_bits),
            TypeModel::Ptr(_, _) => Some(pointer_bits),
            TypeModel::ByRef(_) => Some(pointer_bits),
            TypeModel::FnPtr(_) => Some(pointer_bits),
            TypeModel::Class(_) => Some(pointer_bits),
            TypeModel::Modified(_, inner) => inner.width(pointer_bits),
            TypeModel::Pinned(inner) => inner.width(pointer_bits),
            _ => None,
        }
    }

    /// The type without `Modified` and `Pinned` wrappers.
    pub open spec fn bare(self) -> TypeModel
        decreases self,
    {
        match self {
            TypeModel::Modified(_, inner) => inner.bare(),
            TypeModel::Pinned(inner) => inner.bare(),
            _ => self,
        }
    }
}

/// The grammar of signatures (II.23.2), applied to the bytes of a blob. Its
/// functions take a position in the blob, and give what stands there and the
/// position behind it.
#[verifier::ext_equal]
pub struct Grammar {
    /// The blob.
    pub data: Seq<u8>,
    /// How deep types may nest.
    pub limit: int,
    /// How deep they nest around the position.
    pub depth: int,
    /// The position is inside a pinned type.
    pub pinned: bool,
}

/// The calling convention that the byte `b` names; `count` is the number of
/// generic parameters.
pub open spec fn convention(b: u8, count: u32) -> Option<CallConv> {
    let c = b as int % 0x10;
    if c == cc::DEFAULT {
        if b as int / 0x10 % 2 == 1 {
            Some(CallConv::Generic(count))
        } else {
            Some(CallConv::Default)
        }
    } else if c == cc::C {
        Some(CallConv::C)
    } else if c == cc::STDCALL {
        Some(CallConv::StdCall)
    } else if c == cc::THISCALL {
        Some(CallConv::ThisCall)
    } else if c == cc::FASTCALL {
        Some(CallConv::FastCall)
    } else if c == cc::VARARG {
        Some(CallConv::VarArg)
    } else if c == cc::UNMANAGED {
        Some(CallConv::Unmanaged)
    } else if c == cc::NATIVEVARARG {
        Some(CallConv::NativeVarArg)
    } else {
        None
    }
}

/// True when a call under the convention may pass more arguments than the
/// method declares: the vararg ones, and unmanaged C (II.23.2.3).
pub open spec fn takes_varargs(convention: CallConv) -> bool {
    convention is VarArg || convention is NativeVarArg || convention is C
}

/// The arguments of a method signature read so far.
#[verifier::ext_equal]
pub struct Arguments {
    /// Those before a sentinel.
    pub fixed: Seq<ParamModel>,
    /// Those behind it.
    pub extra: Seq<ParamModel>,
    /// A sentinel was read.
    pub past: bool,
}

impl Arguments {
    /// The arguments with one more; it lies behind a sentinel where `past`.
    pub open spec fn with(self, param: ParamModel, past: bool) -> Arguments {
        if past {
            Arguments { extra: self.extra.push(param), past, ..self }
        } else {
            Arguments { fixed: self.fixed.push(param), past, ..self }
        }
    }
}

impl Grammar {
    /// The grammar at the outset of a blob.
    pub open spec fn of(data: Seq<u8>, options: SignatureOptions) -> Grammar {
        Grammar { data, limit: options.recursion_limit as int, depth: 0, pinned: false }
    }

    /// An error at `pos`.
    pub open spec fn failure(self, kind: ErrorKind, pos: int) -> Error {
        Error::at(kind, pos as usize, CONTEXT)
    }

    /// The byte at `pos`.
    pub open spec fn byte(self, pos: int) -> Result<(u8, int)> {
        if pos < self.data.len() {
            Ok((self.data[pos], pos + 1))
        } else {
            Err(self.failure(ErrorKind::Truncated, pos))
        }
    }

    /// True when the byte at `pos` is `b`.
    pub open spec fn is_byte(self, pos: int, b: u8) -> bool {
        0 <= pos < self.data.len() && self.data[pos] == b
    }

    /// The compressed integer at `pos`.
    pub open spec fn number(self, pos: int) -> Result<(u32, int)> {
        match compressed::decoded_u32(self.data.skip(pos)) {
            Ok((value, width)) => Ok((value, pos + width)),
            Err(e) => Err(e.rebased(pos as usize)),
        }
    }

    /// The compressed signed integer at `pos`.
    pub open spec fn signed(self, pos: int) -> Result<(i32, int)> {
        match compressed::decoded_i32(self.data.skip(pos)) {
            Ok((value, width)) => Ok((value, pos + width)),
            Err(e) => Err(e.rebased(pos as usize)),
        }
    }

    /// The count at `pos`. It cannot exceed the number of bytes left, since
    /// every item takes at least one.
    pub open spec fn count(self, pos: int) -> Result<(u32, int)> {
        match self.number(pos) {
            Ok((n, p)) => if n > self.data.len() - p {
                Err(self.failure(ErrorKind::Malformed, pos))
            } else {
                Ok((n, p))
            },
            Err(e) => Err(e),
        }
    }

    /// The `TypeDefOrRefOrSpecEncoded` at `pos` (II.23.2.8).
    pub open spec fn type_token(self, pos: int) -> Result<(Token, int)> {
        match self.number(pos) {
            Ok((value, p)) => if value % 4 == 0 {
                Ok((Token::of(TableId::TypeDef, value / 4), p))
            } else if value % 4 == 1 {
                Ok((Token::of(TableId::TypeRef, value / 4), p))
            } else if value % 4 == 2 {
                Ok((Token::of(TableId::TypeSpec, value / 4), p))
            } else {
                Err(self.failure(ErrorKind::Malformed, pos))
            },
            Err(e) => Err(e),
        }
    }

    /// The custom modifiers from `pos` on, behind those in `have`.
    pub open spec fn mods_from(self, pos: int, have: Seq<CustomMod>) -> Result<
        (Seq<CustomMod>, int),
    >
        decreases self.data.len() - pos,
    {
        if self.is_byte(pos, et::CMOD_REQD) || self.is_byte(pos, et::CMOD_OPT) {
            match self.type_token(pos + 1) {
                Ok((type_token, p)) => {
                    let required = self.data[pos] == et::CMOD_REQD;
                    let mods = have.push(CustomMod { required, type_token });
                    if mods.len() > self.limit {
                        Err(self.failure(ErrorKind::RecursionLimit, p))
                    } else {
                        self.mods_from(p, mods)
                    }
                },
                Err(e) => Err(e),
            }
        } else {
            Ok((have, pos))
        }
    }

    /// The custom modifiers at `pos`.
    pub open spec fn mods(self, pos: int) -> Result<(Seq<CustomMod>, int)> {
        self.mods_from(pos, Seq::empty())
    }

    /// The `n` compressed integers at `pos`.
    pub open spec fn numbers(self, pos: int, n: nat) -> Result<(Seq<u32>, int)>
        decreases n,
    {
        if n == 0 {
            Ok((Seq::empty(), pos))
        } else {
            match self.numbers(pos, (n - 1) as nat) {
                Ok((list, p)) => match self.number(p) {
                    Ok((value, q)) => Ok((list.push(value), q)),
                    Err(e) => Err(e),
                },
                Err(e) => Err(e),
            }
        }
    }

    /// The `n` compressed signed integers at `pos`.
    pub open spec fn signeds(self, pos: int, n: nat) -> Result<(Seq<i32>, int)>
        decreases n,
    {
        if n == 0 {
            Ok((Seq::empty(), pos))
        } else {
            match self.signeds(pos, (n - 1) as nat) {
                Ok((list, p)) => match self.signed(p) {
                    Ok((value, q)) => Ok((list.push(value), q)),
                    Err(e) => Err(e),
                },
                Err(e) => Err(e),
            }
        }
    }

    /// The counted compressed integers at `pos`.
    pub open spec fn sizes(self, pos: int) -> Result<(Seq<u32>, int)> {
        match self.count(pos) {
            Ok((n, p)) => self.numbers(p, n as nat),
            Err(e) => Err(e),
        }
    }

    /// The counted compressed signed integers at `pos`.
    pub open spec fn lo_bounds(self, pos: int) -> Result<(Seq<i32>, int)> {
        match self.count(pos) {
            Ok((n, p)) => self.signeds(p, n as nat),
            Err(e) => Err(e),
        }
    }

    /// The array shape at `pos` (II.23.2.13).
    pub open spec fn shape(self, pos: int) -> Result<(ShapeModel, int)> {
        match self.number(pos) {
            Ok((rank, p)) => match self.sizes(p) {
                Ok((sizes, q)) => match self.lo_bounds(q) {
                    Ok((lo_bounds, r)) => Ok((ShapeModel { rank, sizes, lo_bounds }, r)),
                    Err(e) => Err(e),
                },
                Err(e) => Err(e),
            },
            Err(e) => Err(e),
        }
    }

    /// The byte at `pos`, which must hold the convention `expected`.
    pub open spec fn leading(self, pos: int, expected: u8) -> Result<(u8, int)> {
        match self.byte(pos) {
            Ok((b, p)) => if b % 0x10 == expected {
                Ok((b, p))
            } else {
                Err(self.failure(ErrorKind::Malformed, pos))
            },
            Err(e) => Err(e),
        }
    }

    /// One level deeper.
    pub open spec fn deeper(self) -> Grammar {
        Grammar { depth: self.depth + 1, ..self }
    }

    /// Inside a pinned type.
    pub open spec fn pinning(self) -> Grammar {
        Grammar { pinned: true, ..self }
    }

    /// The type at `pos`.
    pub open spec fn type_at(self, pos: int) -> Result<(TypeModel, int)>
        decreases self.limit - self.depth, 0int, 0int,
    {
        if self.depth >= self.limit {
            Err(self.failure(ErrorKind::RecursionLimit, pos))
        } else {
            self.deeper().type_body(pos)
        }
    }

    /// The type at `pos`, the level being counted.
    pub open spec fn type_body(self, pos: int) -> Result<(TypeModel, int)>
        decreases self.limit - self.depth, 4int, 0int,
    {
        match self.mods(pos) {
            Ok((mods, p)) => if mods.len() > 0 {
                match self.type_at(p) {
                    Ok((t, q)) => Ok((TypeModel::Modified(mods, Box::new(t)), q)),
                    Err(e) => Err(e),
                }
            } else {
                match self.byte(p) {
                    Ok((b, q)) => self.type_of(b, p, q),
                    Err(e) => Err(e),
                }
            },
            Err(e) => Err(e),
        }
    }

    /// The custom modifiers and the type at `pos`.
    pub open spec fn modified_type(self, pos: int) -> Result<(Seq<CustomMod>, TypeModel, int)>
        decreases self.limit - self.depth, 1int, 0int,
    {
        match self.mods(pos) {
            Ok((mods, p)) => match self.type_at(p) {
                Ok((t, q)) => Ok((mods, t, q)),
                Err(e) => Err(e),
            },
            Err(e) => Err(e),
        }
    }

    /// The type that the element type byte `b`, which is at `at`, starts; the
    /// rest of it is at `pos`.
    pub open spec fn type_of(self, b: u8, at: int, pos: int) -> Result<(TypeModel, int)>
        decreases self.limit - self.depth, 3int, 0int,
    {
        if is_plain(b) {
            Ok((TypeModel::Plain(b), pos))
        } else if b == et::PTR {
            match self.modified_type(pos) {
                Ok((mods, t, q)) => Ok((TypeModel::Ptr(mods, Box::new(t)), q)),
                Err(e) => Err(e),
            }
        } else if b == et::SZARRAY {
            match self.modified_type(pos) {
                Ok((mods, t, q)) => Ok((TypeModel::SzArray(mods, Box::new(t)), q)),
                Err(e) => Err(e),
            }
        } else if b == et::BYREF {
            match self.type_at(pos) {
                Ok((t, q)) => Ok((TypeModel::ByRef(Box::new(t)), q)),
                Err(e) => Err(e),
            }
        } else if b == et::VALUETYPE {
            match self.type_token(pos) {
                Ok((token, q)) => Ok((TypeModel::ValueType(token), q)),
                Err(e) => Err(e),
            }
        } else if b == et::CLASS {
            match self.type_token(pos) {
                Ok((token, q)) => Ok((TypeModel::Class(token), q)),
                Err(e) => Err(e),
            }
        } else if b == et::VAR {
            match self.number(pos) {
                Ok((index, q)) => Ok((TypeModel::Var(index), q)),
                Err(e) => Err(e),
            }
        } else if b == et::MVAR {
            match self.number(pos) {
                Ok((index, q)) => Ok((TypeModel::MVar(index), q)),
                Err(e) => Err(e),
            }
        } else if b == et::ARRAY {
            match self.type_at(pos) {
                Ok((t, p)) => match self.shape(p) {
                    Ok((shape, q)) => Ok((TypeModel::Array(Box::new(t), shape), q)),
                    Err(e) => Err(e),
                },
                Err(e) => Err(e),
            }
        } else if b == et::GENERICINST {
            self.instantiation(pos)
        } else if b == et::FNPTR {
            match self.method_at(pos) {
                Ok((sig, q)) => Ok((TypeModel::FnPtr(Box::new(sig)), q)),
                Err(e) => Err(e),
            }
        } else if b == et::PINNED && !self.pinned {
            match self.pinning().type_at(pos) {
                Ok((t, q)) => Ok((TypeModel::Pinned(Box::new(t)), q)),
                Err(e) => Err(e),
            }
        } else if b == et::INTERNAL {
            Err(self.failure(ErrorKind::Unsupported, at))
        } else {
            Err(self.failure(ErrorKind::Malformed, at))
        }
    }

    /// The generic instantiation whose kind is at `pos`.
    pub open spec fn instantiation(self, pos: int) -> Result<(TypeModel, int)>
        decreases self.limit - self.depth, 2int, 0int,
    {
        match self.byte(pos) {
            Ok((kind, p)) => if kind != et::VALUETYPE && kind != et::CLASS {
                Err(self.failure(ErrorKind::Malformed, pos))
            } else {
                match self.type_token(p) {
                    Ok((def, q)) => match self.count(q) {
                        Ok((n, r)) => match self.types(r, n as nat) {
                            Ok((args, end)) => Ok(
                                (
                                    TypeModel::GenericInst {
                                        is_value_type: kind == et::VALUETYPE,
                                        def,
                                        args,
                                    },
                                    end,
                                ),
                            ),
                            Err(e) => Err(e),
                        },
                        Err(e) => Err(e),
                    },
                    Err(e) => Err(e),
                }
            },
            Err(e) => Err(e),
        }
    }

    /// The `n` types at `pos`.
    pub open spec fn types(self, pos: int, n: nat) -> Result<(Seq<TypeModel>, int)>
        decreases self.limit - self.depth, 1int, n,
    {
        if n == 0 {
            Ok((Seq::empty(), pos))
        } else {
            match self.types(pos, (n - 1) as nat) {
                Ok((list, p)) => match self.type_at(p) {
                    Ok((t, q)) => Ok((list.push(t), q)),
                    Err(e) => Err(e),
                },
                Err(e) => Err(e),
            }
        }
    }

    /// The parameter or return type at `pos` (II.23.2.10, II.23.2.11).
    pub open spec fn param(self, pos: int) -> Result<(ParamModel, int)>
        decreases self.limit - self.depth, 1int, 0int,
    {
        match self.mods(pos) {
            Ok((custom_mods, p)) => match self.byte(p) {
                Ok((b, q)) => {
                    let by_ref = b == et::BYREF;
                    match self.type_at(if by_ref {
                        q
                    } else {
                        p
                    }) {
                        Ok((ty, end)) => Ok((ParamModel { custom_mods, by_ref, ty }, end)),
                        Err(e) => Err(e),
                    }
                },
                Err(e) => Err(e),
            },
            Err(e) => Err(e),
        }
    }

    /// The parameter at `pos`, which is not void.
    pub open spec fn value_param(self, pos: int) -> Result<(ParamModel, int)>
        decreases self.limit - self.depth, 1int, 1int,
    {
        match self.param(pos) {
            Ok((param, end)) => if param.ty == TypeModel::Plain(et::VOID) {
                Err(self.failure(ErrorKind::Malformed, end - 1))
            } else {
                Ok((param, end))
            },
            Err(e) => Err(e),
        }
    }

    /// The `n` parameters at `pos`.
    pub open spec fn params(self, pos: int, n: nat) -> Result<(Seq<ParamModel>, int)>
        decreases self.limit - self.depth, 2int, n,
    {
        if n == 0 {
            Ok((Seq::empty(), pos))
        } else {
            match self.params(pos, (n - 1) as nat) {
                Ok((list, p)) => match self.value_param(p) {
                    Ok((param, q)) => Ok((list.push(param), q)),
                    Err(e) => Err(e),
                },
                Err(e) => Err(e),
            }
        }
    }

    /// The argument at `pos`, and whether it lies behind a sentinel. One may
    /// stand before it where the signature is a vararg one, unless one did
    /// already, which is `past`.
    pub open spec fn argument(self, vararg: bool, pos: int, past: bool) -> Result<
        ((ParamModel, bool), int),
    >
        decreases self.limit - self.depth, 2int, 0int,
    {
        match self.byte(pos) {
            Ok((b, p)) => if b == et::SENTINEL && (past || !vararg) {
                Err(self.failure(ErrorKind::Malformed, pos))
            } else {
                match self.value_param(if b == et::SENTINEL {
                    p
                } else {
                    pos
                }) {
                    Ok((param, q)) => Ok(((param, past || b == et::SENTINEL), q)),
                    Err(e) => Err(e),
                }
            },
            Err(e) => Err(e),
        }
    }

    /// The `n` arguments at `pos`.
    pub open spec fn arguments(self, vararg: bool, pos: int, n: nat) -> Result<(Arguments, int)>
        decreases self.limit - self.depth, 3int, n,
    {
        if n == 0 {
            Ok((Arguments { fixed: Seq::empty(), extra: Seq::empty(), past: false }, pos))
        } else {
            match self.arguments(vararg, pos, (n - 1) as nat) {
                Ok((list, p)) => match self.argument(vararg, p, list.past) {
                    Ok(((param, past), q)) => Ok((list.with(param, past), q)),
                    Err(e) => Err(e),
                },
                Err(e) => Err(e),
            }
        }
    }

    /// The method signature at `pos`.
    pub open spec fn method_at(self, pos: int) -> Result<(MethodSigModel, int)>
        decreases self.limit - self.depth, 0int, 0int,
    {
        if self.depth >= self.limit {
            Err(self.failure(ErrorKind::RecursionLimit, pos))
        } else {
            self.deeper().method_body(pos)
        }
    }

    /// The number of generic parameters at `pos`, where the convention `b` has
    /// one.
    pub open spec fn generic_count(self, b: u8, pos: int) -> Result<(u32, int)> {
        if b as int / 0x10 % 2 == 1 {
            self.number(pos)
        } else {
            Ok((0, pos))
        }
    }

    /// The method signature at `pos`, the level being counted (II.23.2.1).
    pub open spec fn method_body(self, pos: int) -> Result<(MethodSigModel, int)>
        decreases self.limit - self.depth, 4int, 0int,
    {
        match self.byte(pos) {
            Ok((b, p)) => match self.generic_count(b, p) {
                Ok((generic, q)) => match convention(b, generic) {
                    Some(calling_convention) => match self.count(q) {
                        Ok((n, r)) => match self.param(r) {
                            Ok((return_type, s)) => match self.arguments(
                                takes_varargs(calling_convention),
                                s,
                                n as nat,
                            ) {
                                Ok((list, end)) => Ok(
                                    (
                                        MethodSigModel {
                                            raw: self.data.subrange(pos, end),
                                            calling_convention,
                                            has_this: b as int / 0x20 % 2 == 1,
                                            explicit_this: b as int / 0x40 % 2 == 1,
                                            return_type,
                                            params: list.fixed,
                                            vararg_params: list.extra,
                                        },
                                        end,
                                    ),
                                ),
                                Err(e) => Err(e),
                            },
                            Err(e) => Err(e),
                        },
                        Err(e) => Err(e),
                    },
                    None => Err(self.failure(ErrorKind::Malformed, pos)),
                },
                Err(e) => Err(e),
            },
            Err(e) => Err(e),
        }
    }
}

pub(crate) proof fn lemma_numbers_stay(g: Grammar, pos: int, n: nat, k: nat)
    requires
        n <= k,
        g.numbers(pos, n) is Err,
    ensures
        g.numbers(pos, k) is Err,
        g.numbers(pos, k)->Err_0 == g.numbers(pos, n)->Err_0,
    decreases k,
{
    if n < k {
        lemma_numbers_stay(g, pos, n, (k - 1) as nat);
    }
}

pub(crate) proof fn lemma_signeds_stay(g: Grammar, pos: int, n: nat, k: nat)
    requires
        n <= k,
        g.signeds(pos, n) is Err,
    ensures
        g.signeds(pos, k) is Err,
        g.signeds(pos, k)->Err_0 == g.signeds(pos, n)->Err_0,
    decreases k,
{
    if n < k {
        lemma_signeds_stay(g, pos, n, (k - 1) as nat);
    }
}

pub(crate) proof fn lemma_types_stay(g: Grammar, pos: int, n: nat, k: nat)
    requires
        n <= k,
        g.types(pos, n) is Err,
    ensures
        g.types(pos, k) is Err,
        g.types(pos, k)->Err_0 == g.types(pos, n)->Err_0,
    decreases k,
{
    if n < k {
        lemma_types_stay(g, pos, n, (k - 1) as nat);
    }
}

pub(crate) proof fn lemma_params_stay(g: Grammar, pos: int, n: nat, k: nat)
    requires
        n <= k,
        g.params(pos, n) is Err,
    ensures
        g.params(pos, k) is Err,
        g.params(pos, k)->Err_0 == g.params(pos, n)->Err_0,
    decreases k,
{
    if n < k {
        lemma_params_stay(g, pos, n, (k - 1) as nat);
    }
}

pub(crate) proof fn lemma_arguments_stay(g: Grammar, vararg: bool, pos: int, n: nat, k: nat)
    requires
        n <= k,
        g.arguments(vararg, pos, n) is Err,
    ensures
        g.arguments(vararg, pos, k) is Err,
        g.arguments(vararg, pos, k)->Err_0 == g.arguments(vararg, pos, n)->Err_0,
    decreases k,
{
    if n < k {
        lemma_arguments_stay(g, vararg, pos, n, (k - 1) as nat);
    }
}

/// A field signature.
#[verifier::ext_equal]
pub struct FieldSigModel {
    /// The bytes.
    pub raw: Seq<u8>,
    /// The modifiers.
    pub custom_mods: Seq<CustomMod>,
    /// The type.
    pub ty: TypeModel,
}

/// A local variable.
#[verifier::ext_equal]
pub struct LocalVarModel {
    /// The modifiers.
    pub custom_mods: Seq<CustomMod>,
    /// Pinned.
    pub pinned: bool,
    /// A managed reference.
    pub by_ref: bool,
    /// The type.
    pub ty: TypeModel,
}

/// A signature of local variables.
#[verifier::ext_equal]
pub struct LocalVarSigModel {
    /// The bytes.
    pub raw: Seq<u8>,
    /// The locals.
    pub locals: Seq<LocalVarModel>,
}

/// A property signature.
#[verifier::ext_equal]
pub struct PropertySigModel {
    /// The bytes.
    pub raw: Seq<u8>,
    /// An instance property.
    pub has_this: bool,
    /// The property type.
    pub return_type: ParamModel,
    /// The index parameters.
    pub params: Seq<ParamModel>,
}

/// The type arguments of a generic method.
#[verifier::ext_equal]
pub struct MethodSpecSigModel {
    /// The bytes.
    pub raw: Seq<u8>,
    /// The arguments.
    pub args: Seq<TypeModel>,
}

/// A signature of a single type.
#[verifier::ext_equal]
pub struct TypeSpecSigModel {
    /// The bytes.
    pub raw: Seq<u8>,
    /// The type.
    pub ty: TypeModel,
}

impl Grammar {
    /// The method signature that the blob starts with.
    pub open spec fn method_sig(self) -> Result<MethodSigModel> {
        match self.method_at(0) {
            Ok((sig, _)) => Ok(sig),
            Err(e) => Err(e),
        }
    }

    /// The field signature that the blob starts with (II.23.2.4).
    pub open spec fn field_sig(self) -> Result<FieldSigModel> {
        match self.leading(0, cc::FIELD) {
            Ok((_, p)) => match self.modified_type(p) {
                Ok((custom_mods, ty, _)) => Ok(FieldSigModel { raw: self.data, custom_mods, ty }),
                Err(e) => Err(e),
            },
            Err(e) => Err(e),
        }
    }

    /// The modifiers of a local variable at `pos`, and whether it is pinned.
    /// More modifiers may follow the constraint.
    pub open spec fn constraint(self, pos: int) -> Result<((Seq<CustomMod>, bool), int)> {
        match self.mods(pos) {
            Ok((mods, p)) => match self.byte(p) {
                Ok((b, q)) => if b == et::PINNED {
                    match self.mods(q) {
                        Ok((more, r)) => Ok(((mods + more, true), r)),
                        Err(e) => Err(e),
                    }
                } else {
                    Ok(((mods, false), p))
                },
                Err(e) => Err(e),
            },
            Err(e) => Err(e),
        }
    }

    /// The local variable at `pos` (II.23.2.6).
    pub open spec fn local_var(self, pos: int) -> Result<(LocalVarModel, int)> {
        match self.byte(pos) {
            Err(e) => Err(e),
            Ok((b, p)) => if b == et::TYPEDBYREF {
                Ok(
                    (
                        LocalVarModel {
                            custom_mods: Seq::empty(),
                            pinned: false,
                            by_ref: false,
                            ty: TypeModel::Plain(et::TYPEDBYREF),
                        },
                        p,
                    ),
                )
            } else {
                match self.constraint(pos) {
                    Err(e) => Err(e),
                    Ok(((custom_mods, pinned), q)) => match self.byte(q) {
                        Err(e) => Err(e),
                        Ok((c, r)) => {
                            let by_ref = c == et::BYREF;
                            let inside = if pinned {
                                self.pinning()
                            } else {
                                self
                            };
                            match inside.type_at(if by_ref {
                                r
                            } else {
                                q
                            }) {
                                Err(e) => Err(e),
                                Ok((ty, end)) => if ty is Pinned {
                                    Err(self.failure(ErrorKind::Malformed, end))
                                } else {
                                    Ok((LocalVarModel { custom_mods, pinned, by_ref, ty }, end))
                                },
                            }
                        },
                    },
                }
            },
        }
    }

    /// The `n` local variables at `pos`.
    pub open spec fn locals(self, pos: int, n: nat) -> Result<(Seq<LocalVarModel>, int)>
        decreases n,
    {
        if n == 0 {
            Ok((Seq::empty(), pos))
        } else {
            match self.locals(pos, (n - 1) as nat) {
                Ok((list, p)) => match self.local_var(p) {
                    Ok((local, q)) => Ok((list.push(local), q)),
                    Err(e) => Err(e),
                },
                Err(e) => Err(e),
            }
        }
    }

    /// The signature of local variables that the blob starts with (II.23.2.6).
    pub open spec fn local_var_sig(self) -> Result<LocalVarSigModel> {
        match self.leading(0, cc::LOCAL_SIG) {
            Ok((_, p)) => match self.count(p) {
                Ok((n, q)) => match self.locals(q, n as nat) {
                    Ok((locals, _)) => Ok(LocalVarSigModel { raw: self.data, locals }),
                    Err(e) => Err(e),
                },
                Err(e) => Err(e),
            },
            Err(e) => Err(e),
        }
    }

    /// The property signature that the blob starts with (II.23.2.5).
    pub open spec fn property_sig(self) -> Result<PropertySigModel> {
        match self.leading(0, cc::PROPERTY) {
            Ok((b, p)) => match self.count(p) {
                Ok((n, q)) => match self.param(q) {
                    Ok((return_type, r)) => match self.params(r, n as nat) {
                        Ok((params, _)) => Ok(
                            PropertySigModel {
                                raw: self.data,
                                has_this: b as int / 0x20 % 2 == 1,
                                return_type,
                                params,
                            },
                        ),
                        Err(e) => Err(e),
                    },
                    Err(e) => Err(e),
                },
                Err(e) => Err(e),
            },
            Err(e) => Err(e),
        }
    }

    /// The type arguments that the blob starts with (II.23.2.15).
    pub open spec fn method_spec_sig(self) -> Result<MethodSpecSigModel> {
        match self.leading(0, cc::GENERICINST) {
            Ok((_, p)) => match self.count(p) {
                Ok((n, q)) => match self.types(q, n as nat) {
                    Ok((args, _)) => Ok(MethodSpecSigModel { raw: self.data, args }),
                    Err(e) => Err(e),
                },
                Err(e) => Err(e),
            },
            Err(e) => Err(e),
        }
    }

    /// The type that the blob starts with (II.23.2.14).
    pub open spec fn type_spec_sig(self) -> Result<TypeSpecSigModel> {
        match self.type_at(0) {
            Ok((ty, _)) => Ok(TypeSpecSigModel { raw: self.data, ty }),
            Err(e) => Err(e),
        }
    }
}

pub(crate) proof fn lemma_locals_stay(g: Grammar, pos: int, n: nat, k: nat)
    requires
        n <= k,
        g.locals(pos, n) is Err,
    ensures
        g.locals(pos, k) is Err,
        g.locals(pos, k)->Err_0 == g.locals(pos, n)->Err_0,
    decreases k,
{
    if n < k {
        lemma_locals_stay(g, pos, n, (k - 1) as nat);
    }
}

/// True when the type nests at most `room` levels deep and was put together by
/// the grammar: no sentinel and no internal handle occurs in it, and no pinned
/// type inside another; `pinned` says that it is inside one itself.
pub open spec fn fits(t: TypeModel, room: int, pinned: bool) -> bool
    decreases t,
{
    room >= 1 && match t {
        TypeModel::Plain(b) => is_plain(b),
        TypeModel::Ptr(_, inner) => fits(*inner, room - 1, pinned),
        TypeModel::ByRef(inner) => fits(*inner, room - 1, pinned),
        TypeModel::Array(inner, _) => fits(*inner, room - 1, pinned),
        TypeModel::SzArray(_, inner) => fits(*inner, room - 1, pinned),
        TypeModel::GenericInst { is_value_type, def, args } => forall|i: int|
            0 <= i < args.len() ==> fits(#[trigger] args[i], room - 1, pinned),
        TypeModel::FnPtr(sig) => sig_fits(*sig, room - 1, pinned),
        TypeModel::Modified(_, inner) => fits(*inner, room - 1, pinned),
        TypeModel::Pinned(inner) => !pinned && fits(*inner, room - 1, true),
        TypeModel::Sentinel => false,
        TypeModel::Internal(_) => false,
        _ => true,
    }
}

/// The same of the types in a method signature, which is a level of its own. No
/// parameter of it is void, and none lies behind a sentinel unless the
/// convention is a vararg one.
pub open spec fn sig_fits(sig: MethodSigModel, room: int, pinned: bool) -> bool
    decreases sig,
{
    &&& room >= 1
    &&& fits(sig.return_type.ty, room - 1, pinned)
    &&& forall|i: int|
        0 <= i < sig.params.len() ==> fits((#[trigger] sig.params[i]).ty, room - 1, pinned)
            && sig.params[i].ty != TypeModel::Plain(et::VOID)
    &&& forall|i: int|
        0 <= i < sig.vararg_params.len() ==> fits(
            (#[trigger] sig.vararg_params[i]).ty,
            room - 1,
            pinned,
        ) && sig.vararg_params[i].ty != TypeModel::Plain(et::VOID)
    &&& sig.vararg_params.len() > 0 ==> takes_varargs(sig.calling_convention)
}

/// A compressed integer takes at least one byte and ends within the blob.
proof fn lemma_number_advances(g: Grammar, pos: int)
    requires
        0 <= pos <= g.data.len(),
    ensures
        g.number(pos) matches Ok((_, q)) ==> pos < q <= g.data.len(),
        g.signed(pos) matches Ok((_, q)) ==> pos < q <= g.data.len(),
        g.count(pos) matches Ok((n, q)) ==> pos < q && q + n <= g.data.len(),
        g.type_token(pos) matches Ok((_, q)) ==> pos < q <= g.data.len(),
{
}

proof fn lemma_mods_advance(g: Grammar, pos: int, have: Seq<CustomMod>)
    requires
        0 <= pos <= g.data.len(),
    ensures
        g.mods_from(pos, have) matches Ok((mods, q)) ==> pos <= q <= g.data.len() && (mods.len()
            > have.len() ==> pos < q),
        g.mods_from(pos, have) matches Ok((mods, q)) ==> mods.len() >= have.len(),
    decreases g.data.len() - pos,
{
    if g.is_byte(pos, et::CMOD_REQD) || g.is_byte(pos, et::CMOD_OPT) {
        lemma_number_advances(g, pos + 1);
        if let Ok((type_token, p)) = g.type_token(pos + 1) {
            let required = g.data[pos] == et::CMOD_REQD;
            lemma_mods_advance(g, p, have.push(CustomMod { required, type_token }));
        }
    }
}

proof fn lemma_numbers_advance(g: Grammar, pos: int, n: nat)
    requires
        0 <= pos <= g.data.len(),
    ensures
        g.numbers(pos, n) matches Ok((list, q)) ==> pos <= q <= g.data.len() && list.len() == n,
        g.signeds(pos, n) matches Ok((list, q)) ==> pos <= q <= g.data.len() && list.len() == n,
    decreases n,
{
    if n > 0 {
        lemma_numbers_advance(g, pos, (n - 1) as nat);
        if let Ok((_, p)) = g.numbers(pos, (n - 1) as nat) {
            lemma_number_advances(g, p);
        }
        if let Ok((_, p)) = g.signeds(pos, (n - 1) as nat) {
            lemma_number_advances(g, p);
        }
    }
}

/// An array shape ends within the blob, and has no more sizes and lower bounds
/// than the blob has bytes.
proof fn lemma_shape_advances(g: Grammar, pos: int)
    requires
        0 <= pos <= g.data.len(),
    ensures
        g.shape(pos) matches Ok((shape, q)) ==> pos < q <= g.data.len() && shape.sizes.len()
            <= g.data.len() && shape.lo_bounds.len() <= g.data.len(),
{
    lemma_number_advances(g, pos);
    if let Ok((_, p)) = g.number(pos) {
        lemma_number_advances(g, p);
        if let Ok((n, q)) = g.count(p) {
            lemma_numbers_advance(g, q, n as nat);
        }
        if let Ok((_, q)) = g.sizes(p) {
            lemma_number_advances(g, q);
            if let Ok((n, r)) = g.count(q) {
                lemma_numbers_advance(g, r, n as nat);
            }
        }
    }
}

/// A parsed type takes at least one byte and ends within the blob. It nests no
/// deeper than the recursion limit allows, and neither a sentinel, nor an
/// internal handle, nor a pinned type inside another occurs in it.
pub proof fn lemma_parsed_type(g: Grammar, pos: int)
    requires
        0 <= pos <= g.data.len(),
    ensures
        g.type_at(pos) matches Ok((t, q)) ==> pos < q <= g.data.len() && fits(
            t,
            g.limit - g.depth,
            g.pinned,
        ),
    decreases g.limit - g.depth, 0int, 0int,
{
    if g.depth < g.limit {
        lemma_type_body(g.deeper(), pos);
    }
}

proof fn lemma_type_body(g: Grammar, pos: int)
    requires
        0 <= pos <= g.data.len(),
        g.depth <= g.limit,
    ensures
        g.type_body(pos) matches Ok((t, q)) ==> pos < q <= g.data.len() && fits(
            t,
            g.limit - g.depth + 1,
            g.pinned,
        ),
    decreases g.limit - g.depth, 4int, 0int,
{
    lemma_mods_advance(g, pos, Seq::empty());
    if let Ok((mods, p)) = g.mods(pos) {
        if mods.len() > 0 {
            lemma_parsed_type(g, p);
        } else if let Ok((b, q)) = g.byte(p) {
            lemma_type_of(g, b, p, q);
        }
    }
}

proof fn lemma_modified_type(g: Grammar, pos: int)
    requires
        0 <= pos <= g.data.len(),
    ensures
        g.modified_type(pos) matches Ok((_, t, q)) ==> pos < q <= g.data.len() && fits(
            t,
            g.limit - g.depth,
            g.pinned,
        ),
    decreases g.limit - g.depth, 1int, 0int,
{
    lemma_mods_advance(g, pos, Seq::empty());
    if let Ok((_, p)) = g.mods(pos) {
        lemma_parsed_type(g, p);
    }
}

#[verifier::rlimit(50)]
proof fn lemma_type_of(g: Grammar, b: u8, at: int, pos: int)
    requires
        0 <= pos <= g.data.len(),
        g.depth <= g.limit,
    ensures
        g.type_of(b, at, pos) matches Ok((t, q)) ==> pos <= q <= g.data.len() && fits(
            t,
            g.limit - g.depth + 1,
            g.pinned,
        ),
    decreases g.limit - g.depth, 3int, 0int,
{
    if is_plain(b) {
    } else if b == et::PTR || b == et::SZARRAY {
        lemma_modified_type(g, pos);
    } else if b == et::BYREF || b == et::ARRAY {
        lemma_parsed_type(g, pos);
        if let Ok((_, p)) = g.type_at(pos) {
            lemma_shape_advances(g, p);
        }
    } else if b == et::GENERICINST {
        lemma_instantiation(g, pos);
    } else if b == et::FNPTR {
        lemma_parsed_method(g, pos);
    } else if b == et::PINNED {
        lemma_parsed_type(g.pinning(), pos);
    } else {
        lemma_number_advances(g, pos);
    }
}

#[verifier::rlimit(50)]
proof fn lemma_instantiation(g: Grammar, pos: int)
    requires
        0 <= pos <= g.data.len(),
        g.depth <= g.limit,
    ensures
        g.instantiation(pos) matches Ok((t, q)) ==> pos < q <= g.data.len() && fits(
            t,
            g.limit - g.depth + 1,
            g.pinned,
        ),
    decreases g.limit - g.depth, 2int, 0int,
{
    if let Ok((_, p)) = g.byte(pos) {
        lemma_number_advances(g, p);
        if let Ok((_, q)) = g.type_token(p) {
            lemma_number_advances(g, q);
            if let Ok((n, r)) = g.count(q) {
                lemma_types(g, r, n as nat);
            }
        }
    }
}

proof fn lemma_types(g: Grammar, pos: int, n: nat)
    requires
        0 <= pos <= g.data.len(),
    ensures
        g.types(pos, n) matches Ok((list, q)) ==> pos <= q <= g.data.len() && list.len() == n
            && forall|i: int|
            0 <= i < n ==> fits(#[trigger] list[i], g.limit - g.depth, g.pinned),
    decreases g.limit - g.depth, 1int, n,
{
    if n > 0 {
        lemma_types(g, pos, (n - 1) as nat);
        if let Ok((_, p)) = g.types(pos, (n - 1) as nat) {
            lemma_parsed_type(g, p);
        }
    }
}

/// A parsed parameter takes at least one byte and ends within the blob, and its
/// type is one that a parsed type can be.
pub proof fn lemma_parsed_param(g: Grammar, pos: int)
    requires
        0 <= pos <= g.data.len(),
    ensures
        g.param(pos) matches Ok((param, q)) ==> pos < q <= g.data.len() && fits(
            param.ty,
            g.limit - g.depth,
            g.pinned,
        ),
    decreases g.limit - g.depth, 1int, 0int,
{
    lemma_mods_advance(g, pos, Seq::empty());
    if let Ok((_, p)) = g.mods(pos) {
        if let Ok((b, q)) = g.byte(p) {
            lemma_parsed_type(
                g,
                if b == et::BYREF {
                    q
                } else {
                    p
                },
            );
        }
    }
}

proof fn lemma_params(g: Grammar, pos: int, n: nat)
    requires
        0 <= pos <= g.data.len(),
    ensures
        g.params(pos, n) matches Ok((list, q)) ==> pos <= q <= g.data.len() && list.len() == n
            && none_void(list),
    decreases n,
{
    if n > 0 {
        lemma_params(g, pos, (n - 1) as nat);
        if let Ok((_, p)) = g.params(pos, (n - 1) as nat) {
            lemma_parsed_param(g, p);
        }
    }
}

proof fn lemma_argument(g: Grammar, vararg: bool, pos: int, past: bool)
    requires
        0 <= pos <= g.data.len(),
    ensures
        g.argument(vararg, pos, past) matches Ok(((param, behind), q)) ==> {
            &&& pos < q <= g.data.len()
            &&& fits(param.ty, g.limit - g.depth, g.pinned)
            &&& param.ty != TypeModel::Plain(et::VOID)
            &&& behind ==> past || vararg
        },
    decreases g.limit - g.depth, 2int, 0int,
{
    if let Ok((b, q)) = g.byte(pos) {
        lemma_parsed_param(
            g,
            if b == et::SENTINEL {
                q
            } else {
                pos
            },
        );
    }
}

/// True when none of `params` is void.
pub open spec fn none_void(params: Seq<ParamModel>) -> bool {
    forall|i: int|
        0 <= i < params.len() ==> (#[trigger] params[i]).ty != TypeModel::Plain(et::VOID)
}

/// True when the types of `params` fit.
spec fn all_fit(params: Seq<ParamModel>, room: int, pinned: bool) -> bool {
    forall|i: int| 0 <= i < params.len() ==> fits((#[trigger] params[i]).ty, room, pinned)
}

proof fn lemma_arguments(g: Grammar, vararg: bool, pos: int, n: nat)
    requires
        0 <= pos <= g.data.len(),
    ensures
        g.arguments(vararg, pos, n) matches Ok((list, q)) ==> {
            &&& pos <= q <= g.data.len()
            &&& list.fixed.len() + list.extra.len() == n
            &&& all_fit(list.fixed, g.limit - g.depth, g.pinned)
            &&& all_fit(list.extra, g.limit - g.depth, g.pinned)
            &&& none_void(list.fixed)
            &&& none_void(list.extra)
            &&& list.past ==> vararg
            &&& list.extra.len() > 0 ==> list.past
        },
    decreases g.limit - g.depth, 3int, n,
{
    if n > 0 {
        lemma_arguments(g, vararg, pos, (n - 1) as nat);
        if let Ok((list, p)) = g.arguments(vararg, pos, (n - 1) as nat) {
            lemma_argument(g, vararg, p, list.past);
        }
    }
}

/// What a parsed method signature keeps of the blob is exactly the bytes that
/// it was parsed from. It ends within the blob and nests no deeper than the
/// recursion limit allows; no parameter is void, and only a vararg signature
/// has parameters behind a sentinel.
pub proof fn lemma_parsed_method(g: Grammar, pos: int)
    requires
        0 <= pos <= g.data.len(),
    ensures
        g.method_at(pos) matches Ok((sig, q)) ==> {
            &&& pos < q <= g.data.len()
            &&& sig.raw == g.data.subrange(pos, q)
            &&& sig.params.len() + sig.vararg_params.len() <= g.data.len()
            &&& sig_fits(sig, g.limit - g.depth, g.pinned)
        },
    decreases g.limit - g.depth, 0int, 0int,
{
    if g.depth < g.limit {
        lemma_method_body(g.deeper(), pos);
    }
}

#[verifier::rlimit(50)]
proof fn lemma_method_body(g: Grammar, pos: int)
    requires
        0 <= pos <= g.data.len(),
        g.depth <= g.limit,
    ensures
        g.method_body(pos) matches Ok((sig, q)) ==> {
            &&& pos < q <= g.data.len()
            &&& sig.raw == g.data.subrange(pos, q)
            &&& sig.params.len() + sig.vararg_params.len() <= g.data.len()
            &&& sig_fits(sig, g.limit - g.depth + 1, g.pinned)
        },
    decreases g.limit - g.depth, 4int, 0int,
{
    if let Ok((b, p)) = g.byte(pos) {
        lemma_number_advances(g, p);
        if let Ok((generic, q)) = g.generic_count(b, p) {
            lemma_number_advances(g, q);
            if let Ok((n, r)) = g.count(q) {
                lemma_parsed_param(g, r);
                if let Ok((_, s)) = g.param(r) {
                    if let Some(c) = convention(b, generic) {
                        lemma_arguments(g, takes_varargs(c), s, n as nat);
                    }
                }
            }
        }
    }
}

proof fn lemma_locals(g: Grammar, pos: int, n: nat)
    requires
        0 <= pos <= g.data.len(),
    ensures
        g.locals(pos, n) matches Ok((list, q)) ==> {
            &&& pos <= q <= g.data.len()
            &&& list.len() == n
            &&& forall|i: int|
                0 <= i < n ==> !((#[trigger] list[i]).ty is Pinned) && (list[i].pinned ==> fits(
                    list[i].ty,
                    g.limit - g.depth,
                    true,
                ))
        },
    decreases n,
{
    if n > 0 {
        lemma_locals(g, pos, (n - 1) as nat);
        if let Ok((_, p)) = g.locals(pos, (n - 1) as nat) {
            lemma_local_var(g, p);
        }
    }
}

proof fn lemma_local_var(g: Grammar, pos: int)
    requires
        0 <= pos <= g.data.len(),
    ensures
        g.local_var(pos) matches Ok((local, q)) ==> pos < q <= g.data.len() && !(
        local.ty is Pinned) && (local.pinned ==> fits(local.ty, g.limit - g.depth, true)),
{
    lemma_mods_advance(g, pos, Seq::empty());
    if let Ok((_, p)) = g.mods(pos) {
        if let Ok((_, q)) = g.byte(p) {
            lemma_mods_advance(g, q, Seq::empty());
        }
    }
    if let Ok(((_, pinned), q)) = g.constraint(pos) {
        if let Ok((b, r)) = g.byte(q) {
            lemma_parsed_type(
                if pinned {
                    g.pinning()
                } else {
                    g
                },
                if b == et::BYREF {
                    r
                } else {
                    q
                },
            );
        }
    }
}

/// A signature never holds more items than its blob has bytes, whatever count
/// it declares.
pub proof fn lemma_counts_within_blob(g: Grammar)
    ensures
        g.method_sig() matches Ok(sig) ==> sig.params.len() + sig.vararg_params.len()
            <= g.data.len(),
        g.local_var_sig() matches Ok(sig) ==> sig.locals.len() <= g.data.len(),
        g.property_sig() matches Ok(sig) ==> sig.params.len() <= g.data.len(),
        g.method_spec_sig() matches Ok(sig) ==> sig.args.len() <= g.data.len(),
{
    lemma_parsed_method(g, 0);
    if let Ok((_, p)) = g.byte(0) {
        lemma_number_advances(g, p);
        if let Ok((n, q)) = g.count(p) {
            lemma_locals(g, q, n as nat);
            lemma_types(g, q, n as nat);
            lemma_parsed_param(g, q);
            if let Ok((_, r)) = g.param(q) {
                lemma_params(g, r, n as nat);
            }
        }
    }
}

/// No parameter of a method signature or a property signature is void; only a
/// return type can be.
pub proof fn lemma_no_void_parameters(g: Grammar)
    ensures
        g.method_sig() matches Ok(sig) ==> none_void(sig.params) && none_void(sig.vararg_params),
        g.property_sig() matches Ok(sig) ==> none_void(sig.params),
{
    lemma_parsed_method(g, 0);
    if let Ok((_, p)) = g.byte(0) {
        lemma_number_advances(g, p);
        if let Ok((n, q)) = g.count(p) {
            lemma_parsed_param(g, q);
            if let Ok((_, r)) = g.param(q) {
                lemma_params(g, r, n as nat);
            }
        }
    }
}

/// A method signature has parameters behind a sentinel only where its calling
/// convention takes varargs.
pub proof fn lemma_sentinel_is_vararg(g: Grammar)
    ensures
        g.method_sig() matches Ok(sig) ==> sig.vararg_params.len() > 0 ==> takes_varargs(
            sig.calling_convention,
        ),
{
    lemma_parsed_method(g, 0);
}

/// No local variable has a pinned type: that a local is pinned is said of the
/// local itself. Where it is, no pinned type occurs anywhere in its type.
pub proof fn lemma_locals_not_pinned_types(g: Grammar)
    ensures
        g.local_var_sig() matches Ok(sig) ==> forall|i: int|
            0 <= i < sig.locals.len() ==> !((#[trigger] sig.locals[i]).ty is Pinned) && (
            sig.locals[i].pinned ==> fits(sig.locals[i].ty, g.limit - g.depth, true)),
{
    if let Ok((_, p)) = g.byte(0) {
        lemma_number_advances(g, p);
        if let Ok((n, q)) = g.count(p) {
            lemma_locals(g, q, n as nat);
        }
    }
}

/// A blob of nothing but pointers from `pos` on, more of them than the
/// recursion limit leaves levels, is rejected for its nesting.
#[verifier::rlimit(50)]
pub proof fn lemma_pointers_are_bounded(g: Grammar, pos: int)
    requires
        0 <= pos <= g.data.len(),
        g.depth <= g.limit,
        g.limit - g.depth <= g.data.len() - pos,
        forall|i: int| pos <= i < g.data.len() ==> #[trigger] g.data[i] == et::PTR,
    ensures
        g.type_at(pos) == Err::<(TypeModel, int), Error>(
            g.failure(ErrorKind::RecursionLimit, pos + (g.limit - g.depth)),
        ),
    decreases g.limit - g.depth,
{
    if g.depth < g.limit {
        let inner = g.deeper();
        assert(g.data[pos] == et::PTR);
        assert(!inner.is_byte(pos + 1, et::CMOD_REQD) && !inner.is_byte(pos + 1, et::CMOD_OPT));
        lemma_pointers_are_bounded(inner, pos + 1);
        assert(inner.mods(pos) == Ok::<(Seq<CustomMod>, int), Error>((Seq::empty(), pos)));
        assert(inner.mods(pos + 1) == Ok::<(Seq<CustomMod>, int), Error>((Seq::empty(), pos + 1)));
        let e = g.failure(ErrorKind::RecursionLimit, pos + (g.limit - g.depth));
        assert(inner.modified_type(pos + 1) == Err::<(Seq<CustomMod>, TypeModel, int), Error>(e));
        assert(inner.type_of(et::PTR, pos, pos + 1) == Err::<(TypeModel, int), Error>(e));
        assert(inner.type_body(pos) == Err::<(TypeModel, int), Error>(e));
    }
}

impl Grammar {
    /// The same grammar with another recursion limit.
    pub open spec fn with_limit(self, limit: int) -> Grammar {
        Grammar { limit, ..self }
    }
}

proof fn lemma_mods_with_limit(g: Grammar, limit: int, pos: int, have: Seq<CustomMod>)
    requires
        g.limit <= limit,
        g.mods_from(pos, have) is Ok,
    ensures
        g.with_limit(limit).mods_from(pos, have) == g.mods_from(pos, have),
    decreases g.data.len() - pos,
{
    let h = g.with_limit(limit);
    if g.is_byte(pos, et::CMOD_REQD) || g.is_byte(pos, et::CMOD_OPT) {
        assert(h.type_token(pos + 1) == g.type_token(pos + 1));
        lemma_number_advances(g, pos + 1);
        if let Ok((type_token, p)) = g.type_token(pos + 1) {
            let required = g.data[pos] == et::CMOD_REQD;
            lemma_mods_with_limit(g, limit, p, have.push(CustomMod { required, type_token }));
        }
    }
}

proof fn lemma_numbers_with_limit(g: Grammar, limit: int, pos: int, n: nat)
    ensures
        g.with_limit(limit).numbers(pos, n) == g.numbers(pos, n),
        g.with_limit(limit).signeds(pos, n) == g.signeds(pos, n),
    decreases n,
{
    if n > 0 {
        lemma_numbers_with_limit(g, limit, pos, (n - 1) as nat);
    }
}

proof fn lemma_shape_with_limit(g: Grammar, limit: int, pos: int)
    ensures
        g.with_limit(limit).shape(pos) == g.shape(pos),
{
    if let Ok((_, p)) = g.number(pos) {
        if let Ok((n, q)) = g.count(p) {
            lemma_numbers_with_limit(g, limit, q, n as nat);
        }
        if let Ok((_, q)) = g.sizes(p) {
            if let Ok((n, r)) = g.count(q) {
                lemma_numbers_with_limit(g, limit, r, n as nat);
            }
        }
    }
}

/// A type that parses under a recursion limit parses to the same under any
/// higher one.
pub proof fn lemma_type_with_limit(g: Grammar, limit: int, pos: int)
    requires
        g.limit <= limit,
        g.type_at(pos) is Ok,
    ensures
        g.with_limit(limit).type_at(pos) == g.type_at(pos),
    decreases g.limit - g.depth, 0int, 0int,
{
    assert(g.deeper().with_limit(limit) == g.with_limit(limit).deeper());
    lemma_type_body_with_limit(g.deeper(), limit, pos);
}

proof fn lemma_type_body_with_limit(g: Grammar, limit: int, pos: int)
    requires
        g.limit <= limit,
        g.type_body(pos) is Ok,
    ensures
        g.with_limit(limit).type_body(pos) == g.type_body(pos),
    decreases g.limit - g.depth, 4int, 0int,
{
    lemma_mods_with_limit(g, limit, pos, Seq::empty());
    if let Ok((mods, p)) = g.mods(pos) {
        if mods.len() > 0 {
            lemma_type_with_limit(g, limit, p);
        } else if let Ok((b, q)) = g.byte(p) {
            assert(g.with_limit(limit).byte(p) == g.byte(p));
            lemma_type_of_with_limit(g, limit, b, p, q);
        }
    }
}

proof fn lemma_modified_type_with_limit(g: Grammar, limit: int, pos: int)
    requires
        g.limit <= limit,
        g.modified_type(pos) is Ok,
    ensures
        g.with_limit(limit).modified_type(pos) == g.modified_type(pos),
    decreases g.limit - g.depth, 1int, 0int,
{
    lemma_mods_with_limit(g, limit, pos, Seq::empty());
    if let Ok((_, p)) = g.mods(pos) {
        lemma_type_with_limit(g, limit, p);
    }
}

#[verifier::rlimit(50)]
proof fn lemma_type_of_with_limit(g: Grammar, limit: int, b: u8, at: int, pos: int)
    requires
        g.limit <= limit,
        g.type_of(b, at, pos) is Ok,
    ensures
        g.with_limit(limit).type_of(b, at, pos) == g.type_of(b, at, pos),
    decreases g.limit - g.depth, 3int, 0int,
{
    let h = g.with_limit(limit);
    assert(h.number(pos) == g.number(pos));
    assert(h.type_token(pos) == g.type_token(pos));
    if is_plain(b) {
    } else if b == et::PTR || b == et::SZARRAY {
        lemma_modified_type_with_limit(g, limit, pos);
    } else if b == et::BYREF || b == et::ARRAY {
        lemma_type_with_limit(g, limit, pos);
        if let Ok((_, p)) = g.type_at(pos) {
            lemma_shape_with_limit(g, limit, p);
        }
    } else if b == et::GENERICINST {
        lemma_instantiation_with_limit(g, limit, pos);
    } else if b == et::FNPTR {
        lemma_method_with_limit(g, limit, pos);
    } else if b == et::PINNED {
        assert(g.pinning().with_limit(limit) == h.pinning());
        lemma_type_with_limit(g.pinning(), limit, pos);
    }
}

#[verifier::rlimit(50)]
proof fn lemma_instantiation_with_limit(g: Grammar, limit: int, pos: int)
    requires
        g.limit <= limit,
        g.instantiation(pos) is Ok,
    ensures
        g.with_limit(limit).instantiation(pos) == g.instantiation(pos),
    decreases g.limit - g.depth, 2int, 0int,
{
    let h = g.with_limit(limit);
    assert(h.byte(pos) == g.byte(pos));
    if let Ok((_, p)) = g.byte(pos) {
        assert(h.type_token(p) == g.type_token(p));
        if let Ok((_, q)) = g.type_token(p) {
            assert(h.count(q) == g.count(q));
            if let Ok((n, r)) = g.count(q) {
                lemma_types_with_limit(g, limit, r, n as nat);
            }
        }
    }
}

proof fn lemma_types_with_limit(g: Grammar, limit: int, pos: int, n: nat)
    requires
        g.limit <= limit,
        g.types(pos, n) is Ok,
    ensures
        g.with_limit(limit).types(pos, n) == g.types(pos, n),
    decreases g.limit - g.depth, 1int, n,
{
    if n > 0 {
        lemma_types_with_limit(g, limit, pos, (n - 1) as nat);
        if let Ok((_, p)) = g.types(pos, (n - 1) as nat) {
            lemma_type_with_limit(g, limit, p);
        }
    }
}

proof fn lemma_param_with_limit(g: Grammar, limit: int, pos: int)
    requires
        g.limit <= limit,
        g.param(pos) is Ok,
    ensures
        g.with_limit(limit).param(pos) == g.param(pos),
    decreases g.limit - g.depth, 1int, 0int,
{
    lemma_mods_with_limit(g, limit, pos, Seq::empty());
    if let Ok((_, p)) = g.mods(pos) {
        assert(g.with_limit(limit).byte(p) == g.byte(p));
        if let Ok((b, q)) = g.byte(p) {
            lemma_type_with_limit(
                g,
                limit,
                if b == et::BYREF {
                    q
                } else {
                    p
                },
            );
        }
    }
}

proof fn lemma_argument_with_limit(g: Grammar, limit: int, vararg: bool, pos: int, past: bool)
    requires
        g.limit <= limit,
        g.argument(vararg, pos, past) is Ok,
    ensures
        g.with_limit(limit).argument(vararg, pos, past) == g.argument(vararg, pos, past),
    decreases g.limit - g.depth, 2int, 0int,
{
    assert(g.with_limit(limit).byte(pos) == g.byte(pos));
    if let Ok((b, q)) = g.byte(pos) {
        lemma_param_with_limit(
            g,
            limit,
            if b == et::SENTINEL {
                q
            } else {
                pos
            },
        );
    }
}

proof fn lemma_arguments_with_limit(g: Grammar, limit: int, vararg: bool, pos: int, n: nat)
    requires
        g.limit <= limit,
        g.arguments(vararg, pos, n) is Ok,
    ensures
        g.with_limit(limit).arguments(vararg, pos, n) == g.arguments(vararg, pos, n),
    decreases g.limit - g.depth, 3int, n,
{
    if n > 0 {
        lemma_arguments_with_limit(g, limit, vararg, pos, (n - 1) as nat);
        if let Ok((list, p)) = g.arguments(vararg, pos, (n - 1) as nat) {
            lemma_argument_with_limit(g, limit, vararg, p, list.past);
        }
    }
}

/// A method signature that parses under a recursion limit parses to the same
/// under any higher one.
pub proof fn lemma_method_with_limit(g: Grammar, limit: int, pos: int)
    requires
        g.limit <= limit,
        g.method_at(pos) is Ok,
    ensures
        g.with_limit(limit).method_at(pos) == g.method_at(pos),
    decreases g.limit - g.depth, 0int, 0int,
{
    assert(g.deeper().with_limit(limit) == g.with_limit(limit).deeper());
    lemma_method_body_with_limit(g.deeper(), limit, pos);
}

#[verifier::rlimit(50)]
proof fn lemma_method_body_with_limit(g: Grammar, limit: int, pos: int)
    requires
        g.limit <= limit,
        g.method_body(pos) is Ok,
    ensures
        g.with_limit(limit).method_body(pos) == g.method_body(pos),
    decreases g.limit - g.depth, 4int, 0int,
{
    let h = g.with_limit(limit);
    assert(h.byte(pos) == g.byte(pos));
    if let Ok((b, p)) = g.byte(pos) {
        assert(h.generic_count(b, p) == g.generic_count(b, p));
        if let Ok((generic, q)) = g.generic_count(b, p) {
            assert(h.count(q) == g.count(q));
            if let Ok((n, r)) = g.count(q) {
                lemma_param_with_limit(g, limit, r);
                if let Ok((_, s)) = g.param(r) {
                    if let Some(c) = convention(b, generic) {
                        lemma_arguments_with_limit(g, limit, takes_varargs(c), s, n as nat);
                    }
                }
            }
        }
    }
}

} // verus!
