//! Blob signatures (II.23.1.16, II.23.2).
//!
//! Every parser in this module takes the *body* of a `#Blob` entry, without its
//! length prefix, and reports failures at a byte offset inside that body.
//!
//! Parsing is strict about structure and permissive about semantic legality: an
//! undefined element type byte, a misplaced sentinel or a nested `PINNED` is an
//! error, while a `VAR` in a non-generic context or a `MVAR` index past the
//! method arity is the caller's problem to detect.
//!
//! Recursion is bounded by [`SignatureOptions::recursion_limit`], so a blob of
//! nothing but `PTR` bytes produces [`ErrorKind::RecursionLimit`] rather than a
//! stack overflow.
use vstd::prelude::*;

use crate::compressed;
use crate::error::{Error, ErrorKind, Result};
use crate::token::{TableId, Token};

pub mod calling_convention;
pub mod element_type;
pub mod encoding;
pub mod grammar;

use calling_convention as cc;
use element_type as et;
use grammar::{
    Arguments, FieldSigModel, Grammar, LocalVarModel, LocalVarSigModel, MethodSigModel,
    MethodSpecSigModel, ParamModel, PropertySigModel, ShapeModel, TypeModel, TypeSpecSigModel,
};

verus! {

/// The context of errors about signatures.
pub const CONTEXT: &'static str = "signature";

/// Knobs for the signature parsers.
#[derive(Clone, Copy, PartialEq, Eq, Debug, Structural)]
pub struct SignatureOptions {
    /// The maximum nesting depth of a type before parsing fails.
    pub recursion_limit: u32,
}

impl Default for SignatureOptions {
    fn default() -> (options: Self)
        ensures
            options.recursion_limit == 64,
    {
        SignatureOptions { recursion_limit: 64 }
    }
}

/// A `modreq` or `modopt` custom modifier (II.23.2.7).
#[derive(Clone, Copy, PartialEq, Eq, Hash, Debug, Structural)]
pub struct CustomMod {
    /// True for `CMOD_REQD`, false for `CMOD_OPT`.
    pub required: bool,
    /// The modifier type, a `TypeDefOrRefOrSpec` token.
    pub type_token: Token,
}

/// The shape of a multi-dimensional array (II.23.2.13).
#[derive(PartialEq, Eq, Hash, Debug)]
pub struct ArrayShape {
    /// The number of dimensions.
    pub rank: u32,
    /// Declared sizes, for a prefix of the dimensions.
    pub sizes: Vec<u32>,
    /// Declared lower bounds, for a prefix of the dimensions.
    pub lo_bounds: Vec<i32>,
}

impl View for ArrayShape {
    type V = ShapeModel;

    open spec fn view(&self) -> ShapeModel {
        ShapeModel { rank: self.rank, sizes: self.sizes@, lo_bounds: self.lo_bounds@ }
    }
}

/// A decoded type signature (II.23.2.12).
#[derive(PartialEq, Debug)]
#[non_exhaustive]
pub enum Type<'a> {
    /// `ELEMENT_TYPE_VOID`.
    Void,
    /// `ELEMENT_TYPE_BOOLEAN`.
    Boolean,
    /// `ELEMENT_TYPE_CHAR`, a UTF-16 code unit.
    Char,
    /// `ELEMENT_TYPE_I1`.
    I1,
    /// `ELEMENT_TYPE_U1`.
    U1,
    /// `ELEMENT_TYPE_I2`.
    I2,
    /// `ELEMENT_TYPE_U2`.
    U2,
    /// `ELEMENT_TYPE_I4`.
    I4,
    /// `ELEMENT_TYPE_U4`.
    U4,
    /// `ELEMENT_TYPE_I8`.
    I8,
    /// `ELEMENT_TYPE_U8`.
    U8,
    /// `ELEMENT_TYPE_R4`.
    R4,
    /// `ELEMENT_TYPE_R8`.
    R8,
    /// `ELEMENT_TYPE_STRING`.
    String,
    /// `ELEMENT_TYPE_OBJECT`.
    Object,
    /// `ELEMENT_TYPE_TYPEDBYREF`.
    TypedByRef,
    /// `ELEMENT_TYPE_I`, a native signed integer.
    IntPtr,
    /// `ELEMENT_TYPE_U`, a native unsigned integer.
    UIntPtr,
    /// `ELEMENT_TYPE_PTR CustomMod* (Type | VOID)`.
    Ptr(Vec<CustomMod>, Box<Type<'a>>),
    /// `ELEMENT_TYPE_BYREF Type`.
    ByRef(Box<Type<'a>>),
    /// `ELEMENT_TYPE_VALUETYPE TypeDefOrRefOrSpec`.
    ValueType(Token),
    /// `ELEMENT_TYPE_CLASS TypeDefOrRefOrSpec`.
    Class(Token),
    /// `ELEMENT_TYPE_VAR`, a generic type parameter by position.
    Var(u32),
    /// `ELEMENT_TYPE_MVAR`, a generic method parameter by position.
    MVar(u32),
    /// `ELEMENT_TYPE_ARRAY Type ArrayShape`.
    Array(Box<Type<'a>>, ArrayShape),
    /// `ELEMENT_TYPE_SZARRAY CustomMod* Type`, a zero-based one-dimensional array.
    SzArray(Vec<CustomMod>, Box<Type<'a>>),
    /// `ELEMENT_TYPE_GENERICINST (CLASS | VALUETYPE) TypeDefOrRefOrSpec GenArgCount Type*`.
    GenericInst {
        /// True when the instantiated definition is a value type.
        is_value_type: bool,
        /// The generic type definition or reference.
        def: Token,
        /// The type arguments.
        args: Vec<Type<'a>>,
    },
    /// `ELEMENT_TYPE_FNPTR MethodDefSig | MethodRefSig`.
    FnPtr(Box<MethodSig<'a>>),
    /// Custom modifiers found in a type position that the grammar does not
    /// attach to `PTR` or `SZARRAY`.
    Modified(Vec<CustomMod>, Box<Type<'a>>),
    /// `ELEMENT_TYPE_PINNED Type`, legal only in a `LocalVarSig`.
    Pinned(Box<Type<'a>>),
    /// `ELEMENT_TYPE_SENTINEL`.
    ///
    /// Never produced by the parsers here: a sentinel in a vararg signature
    /// splits [`MethodSig::params`] from [`MethodSig::vararg_params`], and a
    /// sentinel anywhere else is an error. The variant exists so that callers
    /// can build signatures of their own.
    Sentinel,
    /// `ELEMENT_TYPE_INTERNAL`, a runtime-internal type handle.
    ///
    /// Never produced by the parsers here; a blob containing `0x21` fails with
    /// [`ErrorKind::Unsupported`] rather than being misparsed.
    Internal(usize),
}

/// A calling convention (II.23.2.3).
#[derive(Clone, Copy, PartialEq, Eq, Hash, Debug, Structural)]
#[non_exhaustive]
pub enum CallConv {
    /// `DEFAULT`.
    Default,
    /// `VARARG`.
    VarArg,
    /// `DEFAULT` with the `GENERIC` bit, carrying the generic parameter count.
    Generic(u32),
    /// `C`, the unmanaged cdecl convention.
    C,
    /// `STDCALL`.
    StdCall,
    /// `THISCALL`.
    ThisCall,
    /// `FASTCALL`.
    FastCall,
    /// `UNMANAGED`, whose details live in a `modopt` on the return type.
    Unmanaged,
    /// `NATIVEVARARG`.
    NativeVarArg,
    /// `FIELD`.
    Field,
    /// `LOCAL_SIG`.
    LocalSig,
    /// `PROPERTY`.
    Property,
    /// `GENERICINST`, used by `MethodSpec` signatures.
    GenericInst,
}

/// A parameter or return type, with its custom modifiers (II.23.2.10).
#[derive(PartialEq, Debug)]
pub struct Param<'a> {
    /// Modifiers that precede the type.
    pub custom_mods: Vec<CustomMod>,
    /// True when the parameter is passed by reference.
    pub by_ref: bool,
    /// The parameter type; `Void` only ever appears on a return type.
    pub type_: Type<'a>,
}

/// A method signature: `MethodDefSig`, `MethodRefSig` or `StandAloneMethodSig`
/// (II.23.2.1 to II.23.2.3).
#[derive(PartialEq, Debug)]
pub struct MethodSig<'a> {
    /// The signature bytes this was decoded from.
    pub raw: &'a [u8],
    /// The calling convention, including the generic parameter count.
    pub calling_convention: CallConv,
    /// True when the `HASTHIS` bit is set.
    pub has_this: bool,
    /// True when the `EXPLICITTHIS` bit is set.
    pub explicit_this: bool,
    /// The return type.
    pub return_type: Param<'a>,
    /// Parameters before any `SENTINEL`.
    pub params: Vec<Param<'a>>,
    /// Parameters after a `SENTINEL`, for a vararg call site.
    pub vararg_params: Vec<Param<'a>>,
}

/// What `types` are.
pub open spec fn type_models(types: Seq<Type>) -> Seq<TypeModel>
    decreases types,
{
    Seq::new(
        types.len(),
        |i: int|
            if 0 <= i < types.len() {
                types[i].model()
            } else {
                TypeModel::Sentinel
            },
    )
}

/// What `params` are.
pub open spec fn param_models(params: Seq<Param>) -> Seq<ParamModel>
    decreases params,
{
    Seq::new(
        params.len(),
        |i: int|
            if 0 <= i < params.len() {
                params[i].model()
            } else {
                arbitrary()
            },
    )
}

impl<'a> Type<'a> {
    /// What the type is.
    pub open spec fn model(self) -> TypeModel
        decreases self,
    {
        match self {
            Type::Void => TypeModel::Plain(et::VOID),
            Type::Boolean => TypeModel::Plain(et::BOOLEAN),
            Type::Char => TypeModel::Plain(et::CHAR),
            Type::I1 => TypeModel::Plain(et::I1),
            Type::U1 => TypeModel::Plain(et::U1),
            Type::I2 => TypeModel::Plain(et::I2),
            Type::U2 => TypeModel::Plain(et::U2),
            Type::I4 => TypeModel::Plain(et::I4),
            Type::U4 => TypeModel::Plain(et::U4),
            Type::I8 => TypeModel::Plain(et::I8),
            Type::U8 => TypeModel::Plain(et::U8),
            Type::R4 => TypeModel::Plain(et::R4),
            Type::R8 => TypeModel::Plain(et::R8),
            Type::String => TypeModel::Plain(et::STRING),
            Type::Object => TypeModel::Plain(et::OBJECT),
            Type::TypedByRef => TypeModel::Plain(et::TYPEDBYREF),
            Type::IntPtr => TypeModel::Plain(et::I),
            Type::UIntPtr => TypeModel::Plain(et::U),
            Type::Ptr(mods, inner) => TypeModel::Ptr(mods@, Box::new(inner.model())),
            Type::ByRef(inner) => TypeModel::ByRef(Box::new(inner.model())),
            Type::ValueType(token) => TypeModel::ValueType(token),
            Type::Class(token) => TypeModel::Class(token),
            Type::Var(index) => TypeModel::Var(index),
            Type::MVar(index) => TypeModel::MVar(index),
            Type::Array(inner, shape) => TypeModel::Array(Box::new(inner.model()), shape@),
            Type::SzArray(mods, inner) => TypeModel::SzArray(mods@, Box::new(inner.model())),
            Type::GenericInst { is_value_type, def, args } => TypeModel::GenericInst {
                is_value_type,
                def,
                args: type_models(args@),
            },
            Type::FnPtr(sig) => TypeModel::FnPtr(Box::new(sig.model())),
            Type::Modified(mods, inner) => TypeModel::Modified(mods@, Box::new(inner.model())),
            Type::Pinned(inner) => TypeModel::Pinned(Box::new(inner.model())),
            Type::Sentinel => TypeModel::Sentinel,
            Type::Internal(value) => TypeModel::Internal(value),
        }
    }
}

impl<'a> Param<'a> {
    /// What the parameter is.
    pub open spec fn model(self) -> ParamModel
        decreases self,
    {
        ParamModel {
            custom_mods: self.custom_mods@,
            by_ref: self.by_ref,
            ty: self.type_.model(),
        }
    }
}

impl<'a> MethodSig<'a> {
    /// What the signature is.
    pub open spec fn model(self) -> MethodSigModel
        decreases self,
    {
        MethodSigModel {
            raw: self.raw@,
            calling_convention: self.calling_convention,
            has_this: self.has_this,
            explicit_this: self.explicit_this,
            return_type: self.return_type.model(),
            params: param_models(self.params@),
            vararg_params: param_models(self.vararg_params@),
        }
    }
}

/// A copy of `mods`.
fn copy_mods(mods: &Vec<CustomMod>) -> (copy: Vec<CustomMod>)
    ensures
        copy@ == mods@,
{
    let copy: Vec<CustomMod> = mods.clone();
    assert(copy@ =~= mods@);
    copy
}

/// A copy of `types`.
fn copy_types<'a>(types: &Vec<Type<'a>>) -> (copy: Vec<Type<'a>>)
    ensures
        type_models(copy@) == type_models(types@),
    decreases types,
{
    let mut copy: Vec<Type<'a>> = Vec::with_capacity(types.len());
    let mut i: usize = 0;
    while i < types.len()
        invariant
            i <= types.len(),
            copy@.len() == i,
            forall|k: int| 0 <= k < i ==> (#[trigger] copy@[k]).model() == types@[k].model(),
        decreases types.len() - i,
    {
        let t = types[i].clone();
        copy.push(t);
        i = i + 1;
    }
    assert(type_models(copy@) =~= type_models(types@));
    copy
}

/// A copy of `params`.
fn copy_params<'a>(params: &Vec<Param<'a>>) -> (copy: Vec<Param<'a>>)
    ensures
        param_models(copy@) == param_models(params@),
    decreases params,
{
    let mut copy: Vec<Param<'a>> = Vec::with_capacity(params.len());
    let mut i: usize = 0;
    while i < params.len()
        invariant
            i <= params.len(),
            copy@.len() == i,
            forall|k: int| 0 <= k < i ==> (#[trigger] copy@[k]).model() == params@[k].model(),
        decreases params.len() - i,
    {
        let p = params[i].clone();
        copy.push(p);
        i = i + 1;
    }
    assert(param_models(copy@) =~= param_models(params@));
    copy
}

impl<'a> Clone for Type<'a> {
    fn clone(&self) -> (copy: Self)
        ensures
            copy.model() == self.model(),
        decreases self,
    {
        match self {
            Type::Void => Type::Void,
            Type::Boolean => Type::Boolean,
            Type::Char => Type::Char,
            Type::I1 => Type::I1,
            Type::U1 => Type::U1,
            Type::I2 => Type::I2,
            Type::U2 => Type::U2,
            Type::I4 => Type::I4,
            Type::U4 => Type::U4,
            Type::I8 => Type::I8,
            Type::U8 => Type::U8,
            Type::R4 => Type::R4,
            Type::R8 => Type::R8,
            Type::String => Type::String,
            Type::Object => Type::Object,
            Type::TypedByRef => Type::TypedByRef,
            Type::IntPtr => Type::IntPtr,
            Type::UIntPtr => Type::UIntPtr,
            Type::Ptr(mods, inner) => Type::Ptr(copy_mods(mods), Box::new((&**inner).clone())),
            Type::ByRef(inner) => Type::ByRef(Box::new((&**inner).clone())),
            Type::ValueType(token) => Type::ValueType(*token),
            Type::Class(token) => Type::Class(*token),
            Type::Var(index) => Type::Var(*index),
            Type::MVar(index) => Type::MVar(*index),
            Type::Array(inner, shape) => Type::Array(Box::new((&**inner).clone()), shape.clone()),
            Type::SzArray(mods, inner) => Type::SzArray(
                copy_mods(mods),
                Box::new((&**inner).clone()),
            ),
            Type::GenericInst { is_value_type, def, args } => Type::GenericInst {
                is_value_type: *is_value_type,
                def: *def,
                args: copy_types(args),
            },
            Type::FnPtr(sig) => Type::FnPtr(Box::new((&**sig).clone())),
            Type::Modified(mods, inner) => Type::Modified(
                copy_mods(mods),
                Box::new((&**inner).clone()),
            ),
            Type::Pinned(inner) => Type::Pinned(Box::new((&**inner).clone())),
            Type::Sentinel => Type::Sentinel,
            Type::Internal(value) => Type::Internal(*value),
        }
    }
}

impl<'a> Clone for Param<'a> {
    fn clone(&self) -> (copy: Self)
        ensures
            copy.model() == self.model(),
        decreases self,
    {
        Param {
            custom_mods: copy_mods(&self.custom_mods),
            by_ref: self.by_ref,
            type_: self.type_.clone(),
        }
    }
}

impl<'a> Clone for MethodSig<'a> {
    fn clone(&self) -> (copy: Self)
        ensures
            copy.model() == self.model(),
        decreases self,
    {
        MethodSig {
            raw: self.raw,
            calling_convention: self.calling_convention,
            has_this: self.has_this,
            explicit_this: self.explicit_this,
            return_type: self.return_type.clone(),
            params: copy_params(&self.params),
            vararg_params: copy_params(&self.vararg_params),
        }
    }
}

impl Clone for ArrayShape {
    fn clone(&self) -> (copy: Self)
        ensures
            copy@ == self@,
    {
        let sizes: Vec<u32> = self.sizes.clone();
        let lo_bounds: Vec<i32> = self.lo_bounds.clone();
        assert(sizes@ =~= self.sizes@);
        assert(lo_bounds@ =~= self.lo_bounds@);
        ArrayShape { rank: self.rank, sizes, lo_bounds }
    }
}

impl Default for ArrayShape {
    fn default() -> (shape: Self)
        ensures
            shape@ == (ShapeModel { rank: 0, sizes: Seq::empty(), lo_bounds: Seq::empty() }),
    {
        ArrayShape { rank: 0, sizes: Vec::new(), lo_bounds: Vec::new() }
    }
}

impl<'a> Type<'a> {
    /// The width in bits of a primitive, pointer or reference type.
    ///
    /// `pointer_bits` is the platform pointer width, normally 32 or 64.
    /// Value types, generic parameters and arrays return `None` because their
    /// width is not determined by the signature alone.
    pub fn primitive_width(&self, pointer_bits: u16) -> (width: Option<u16>)
        ensures
            width == self.model().width(pointer_bits),
        decreases self,
    {
        match self {
            Type::Boolean | Type::I1 | Type::U1 => Some(8),
            Type::Char | Type::I2 | Type::U2 => Some(16),
            Type::I4 | Type::U4 | Type::R4 => Some(32),
            Type::I8 | Type::U8 | Type::R8 => Some(64),
            Type::IntPtr | Type::UIntPtr | Type::Ptr(_, _) | Type::ByRef(_) | Type::FnPtr(
                _,
            ) => Some(pointer_bits),
            Type::String | Type::Object | Type::Class(_) => Some(pointer_bits),
            Type::Modified(_, inner) => (&**inner).primitive_width(pointer_bits),
            Type::Pinned(inner) => (&**inner).primitive_width(pointer_bits),
            _ => None,
        }
    }

    /// True for the built-in primitive element types.
    pub fn is_primitive(&self) -> (primitive: bool)
        ensures
            primitive == (self.model() matches TypeModel::Plain(b) && (et::BOOLEAN <= b <= et::R8
                || b == et::I || b == et::U)),
    {
        matches!(
            self,
            Type::Boolean
                | Type::Char
                | Type::I1
                | Type::U1
                | Type::I2
                | Type::U2
                | Type::I4
                | Type::U4
                | Type::I8
                | Type::U8
                | Type::R4
                | Type::R8
                | Type::IntPtr
                | Type::UIntPtr
        )
    }

    /// Strips `Modified` and `Pinned` wrappers.
    pub fn unwrap_modifiers(&self) -> (bare: &Type<'a>)
        ensures
            bare.model() == self.model().bare(),
        decreases self,
    {
        match self {
            Type::Modified(_, inner) => (&**inner).unwrap_modifiers(),
            Type::Pinned(inner) => (&**inner).unwrap_modifiers(),
            other => other,
        }
    }
}

impl CallConv {
    /// True when the convention is one of the unmanaged ones.
    pub fn is_unmanaged(self) -> (unmanaged: bool)
        ensures
            unmanaged == (self is C || self is StdCall || self is ThisCall || self is FastCall
                || self is Unmanaged || self is NativeVarArg),
    {
        matches!(
            self,
            CallConv::C
                | CallConv::StdCall
                | CallConv::ThisCall
                | CallConv::FastCall
                | CallConv::Unmanaged
                | CallConv::NativeVarArg
        )
    }

    /// The generic parameter count, for a generic method signature.
    pub fn generic_param_count(self) -> (count: u32)
        ensures
            count == (match self {
                CallConv::Generic(n) => n,
                _ => 0,
            }),
    {
        match self {
            CallConv::Generic(n) => n,
            _ => 0,
        }
    }
}

impl<'a> Param<'a> {
    /// True when this is a `void` return.
    pub fn is_void(&self) -> (void: bool)
        ensures
            void == (self.model().ty == TypeModel::Plain(et::VOID)),
    {
        matches!(self.type_, Type::Void)
    }
}

/// The recursive-descent signature parser.
struct Parser<'a> {
    data: &'a [u8],
    pos: usize,
    depth: u32,
    options: SignatureOptions,
    pinned_seen: bool,
}

impl<'a> Parser<'a> {
    /// The cursor lies within the blob.
    spec fn wf(self) -> bool {
        self.pos <= self.data.len()
    }

    /// The grammar at the cursor.
    spec fn grammar(self) -> Grammar {
        Grammar {
            data: self.data@,
            limit: self.options.recursion_limit as int,
            depth: self.depth as int,
            pinned: self.pinned_seen,
        }
    }

    /// True when `next` is this parser, moved.
    spec fn moved(self, next: Parser<'a>) -> bool {
        &&& self.pos <= next.pos <= next.data.len()
        &&& next.data == self.data
        &&& next.depth == self.depth
        &&& next.options == self.options
        &&& next.pinned_seen == self.pinned_seen
    }

    fn new(data: &'a [u8], options: SignatureOptions) -> (p: Self)
        ensures
            p.wf(),
            p.pos == 0,
            p.data == data,
            p.grammar() == Grammar::of(data@, options),
    {
        Parser { data, pos: 0, depth: 0, options, pinned_seen: false }
    }

    fn error(&self, kind: ErrorKind) -> (e: Error)
        ensures
            e == self.grammar().failure(kind, self.pos as int),
    {
        Error::new(kind, self.pos, CONTEXT)
    }

    fn error_at(&self, kind: ErrorKind, pos: usize) -> (e: Error)
        ensures
            e == self.grammar().failure(kind, pos as int),
    {
        Error::new(kind, pos, CONTEXT)
    }

    fn remaining(&self) -> (n: usize)
        requires
            self.wf(),
        ensures
            n == self.data.len() - self.pos,
    {
        self.data.len() - self.pos
    }

    fn u8(&mut self) -> (r: Result<u8>)
        requires
            old(self).wf(),
        ensures
            r matches Ok(b) ==> old(self).moved(*final(self)) && old(self).grammar().byte(
                old(self).pos as int,
            ) == Ok::<(u8, int), Error>((b, final(self).pos as int)),
            r matches Err(e) ==> old(self).grammar().byte(old(self).pos as int) == Err::<
                (u8, int),
                Error,
            >(e),
    {
        let b: u8 = self.peek()?;
        self.pos = self.pos + 1;
        Ok(b)
    }

    fn peek(&self) -> (r: Result<u8>)
        requires
            self.wf(),
        ensures
            r matches Ok(b) ==> self.pos < self.data.len() && self.grammar().byte(self.pos as int)
                == Ok::<(u8, int), Error>((b, self.pos + 1)),
            r matches Err(e) ==> self.grammar().byte(self.pos as int) == Err::<(u8, int), Error>(
                e,
            ),
    {
        if self.pos < self.data.len() {
            Ok(self.data[self.pos])
        } else {
            Err(self.error(ErrorKind::Truncated))
        }
    }

    fn cu32(&mut self) -> (r: Result<u32>)
        requires
            old(self).wf(),
        ensures
            r matches Ok(n) ==> old(self).moved(*final(self)) && old(self).grammar().number(
                old(self).pos as int,
            ) == Ok::<(u32, int), Error>((n, final(self).pos as int)),
            r matches Err(e) ==> old(self).grammar().number(old(self).pos as int) == Err::<
                (u32, int),
                Error,
            >(e),
    {
        let rest: &[u8] = &self.data[self.pos..self.data.len()];
        assert(rest@ =~= self.data@.skip(self.pos as int));
        match compressed::read_u32(rest) {
            Ok((value, used)) => {
                self.pos = self.pos + used;
                Ok(value)
            },
            Err(e) => Err(e.rebase(self.pos)),
        }
    }

    fn ci32(&mut self) -> (r: Result<i32>)
        requires
            old(self).wf(),
        ensures
            r matches Ok(n) ==> old(self).moved(*final(self)) && old(self).grammar().signed(
                old(self).pos as int,
            ) == Ok::<(i32, int), Error>((n, final(self).pos as int)),
            r matches Err(e) ==> old(self).grammar().signed(old(self).pos as int) == Err::<
                (i32, int),
                Error,
            >(e),
    {
        let rest: &[u8] = &self.data[self.pos..self.data.len()];
        assert(rest@ =~= self.data@.skip(self.pos as int));
        match compressed::read_i32(rest) {
            Ok((value, used)) => {
                self.pos = self.pos + used;
                Ok(value)
            },
            Err(e) => Err(e.rebase(self.pos)),
        }
    }

    /// A count that cannot exceed the number of bytes left, since every item
    /// takes at least one byte. This is what keeps `Vec::with_capacity` safe.
    fn bounded_count(&mut self) -> (r: Result<u32>)
        requires
            old(self).wf(),
        ensures
            r matches Ok(n) ==> old(self).moved(*final(self)) && old(self).grammar().count(
                old(self).pos as int,
            ) == Ok::<(u32, int), Error>((n, final(self).pos as int)),
            r matches Err(e) ==> old(self).grammar().count(old(self).pos as int) == Err::<
                (u32, int),
                Error,
            >(e),
    {
        let at: usize = self.pos;
        let count: u32 = self.cu32()?;
        if count as u64 > self.remaining() as u64 {
            return Err(self.error_at(ErrorKind::Malformed, at));
        }
        Ok(count)
    }

    /// Reads the convention byte that every other kind of signature starts
    /// with.
    fn expect_convention(&mut self, expected: u8) -> (r: Result<u8>)
        requires
            old(self).wf(),
        ensures
            r matches Ok(b) ==> old(self).moved(*final(self)) && old(self).grammar().leading(
                old(self).pos as int,
                expected,
            ) == Ok::<(u8, int), Error>((b, final(self).pos as int)),
            r matches Err(e) ==> old(self).grammar().leading(old(self).pos as int, expected)
                == Err::<(u8, int), Error>(e),
    {
        let at: usize = self.pos;
        let byte: u8 = self.u8()?;
        if byte % 0x10 != expected {
            return Err(self.error_at(ErrorKind::Malformed, at));
        }
        Ok(byte)
    }

    /// `TypeDefOrRefOrSpecEncoded` (II.23.2.8).
    fn type_token(&mut self) -> (r: Result<Token>)
        requires
            old(self).wf(),
        ensures
            r matches Ok(t) ==> old(self).moved(*final(self)) && old(self).grammar().type_token(
                old(self).pos as int,
            ) == Ok::<(Token, int), Error>((t, final(self).pos as int)),
            r matches Err(e) ==> old(self).grammar().type_token(old(self).pos as int) == Err::<
                (Token, int),
                Error,
            >(e),
    {
        let at: usize = self.pos;
        let value: u32 = self.cu32()?;
        let tag: u32 = value % 4;
        let table: TableId = if tag == 0 {
            TableId::TypeDef
        } else if tag == 1 {
            TableId::TypeRef
        } else if tag == 2 {
            TableId::TypeSpec
        } else {
            return Err(self.error_at(ErrorKind::Malformed, at));
        };
        Ok(Token::new(table, value / 4))
    }

    fn custom_mods(&mut self) -> (r: Result<Vec<CustomMod>>)
        requires
            old(self).wf(),
        ensures
            r matches Ok(mods) ==> old(self).moved(*final(self)) && old(self).grammar().mods(
                old(self).pos as int,
            ) == Ok::<(Seq<CustomMod>, int), Error>((mods@, final(self).pos as int)),
            r matches Err(e) ==> old(self).grammar().mods(old(self).pos as int) == Err::<
                (Seq<CustomMod>, int),
                Error,
            >(e),
    {
        let ghost g = self.grammar();
        let ghost first = *self;
        let mut mods: Vec<CustomMod> = Vec::new();
        assert(mods@ =~= Seq::empty());
        while self.pos < self.data.len() && (self.data[self.pos] == et::CMOD_REQD
            || self.data[self.pos] == et::CMOD_OPT)
            invariant
                self.wf(),
                first.moved(*self),
                g == self.grammar(),
                *old(self) == first,
                g.mods_from(self.pos as int, mods@) == g.mods(first.pos as int),
            decreases self.data.len() - self.pos,
        {
            let required: bool = self.data[self.pos] == et::CMOD_REQD;
            let ghost at = self.pos as int;
            self.pos = self.pos + 1;
            let type_token: Token = self.type_token()?;
            mods.push(CustomMod { required, type_token });
            assert(self.pos > at);
            if mods.len() as u64 > self.options.recursion_limit as u64 {
                return Err(self.error(ErrorKind::RecursionLimit));
            }
        }
        Ok(mods)
    }

    fn array_shape(&mut self) -> (r: Result<ArrayShape>)
        requires
            old(self).wf(),
        ensures
            r matches Ok(shape) ==> old(self).moved(*final(self)) && old(self).grammar().shape(
                old(self).pos as int,
            ) == Ok::<(ShapeModel, int), Error>((shape@, final(self).pos as int)),
            r matches Err(e) ==> old(self).grammar().shape(old(self).pos as int) == Err::<
                (ShapeModel, int),
                Error,
            >(e),
    {
        let rank: u32 = self.cu32()?;
        let sizes = self.sizes()?;
        let lo_bounds = self.lo_bounds()?;
        Ok(ArrayShape { rank, sizes, lo_bounds })
    }

    fn sizes(&mut self) -> (r: Result<Vec<u32>>)
        requires
            old(self).wf(),
        ensures
            r matches Ok(list) ==> old(self).moved(*final(self)) && old(self).grammar().sizes(
                old(self).pos as int,
            ) == Ok::<(Seq<u32>, int), Error>((list@, final(self).pos as int)),
            r matches Err(e) ==> old(self).grammar().sizes(old(self).pos as int) == Err::<
                (Seq<u32>, int),
                Error,
            >(e),
    {
        let ghost g = self.grammar();
        let ghost first = *self;
        let count: u32 = self.bounded_count()?;
        let mut list: Vec<u32> = Vec::with_capacity(count as usize);
        let ghost start = self.pos as int;
        let mut i: u32 = 0;
        while i < count
            invariant
                i <= count,
                self.wf(),
                first.moved(*self),
                g == self.grammar(),
                *old(self) == first,
                g == first.grammar(),
                g.sizes(first.pos as int) == g.numbers(start, count as nat),
                g.numbers(start, i as nat) == Ok::<(Seq<u32>, int), Error>(
                    (list@, self.pos as int),
                ),
            decreases count - i,
        {
            proof {
                if g.numbers(start, (i + 1) as nat) is Err {
                    grammar::lemma_numbers_stay(g, start, (i + 1) as nat, count as nat);
                }
            }
            let value: u32 = self.cu32()?;
            list.push(value);
            i = i + 1;
        }
        Ok(list)
    }

    fn lo_bounds(&mut self) -> (r: Result<Vec<i32>>)
        requires
            old(self).wf(),
        ensures
            r matches Ok(list) ==> old(self).moved(*final(self)) && old(self).grammar().lo_bounds(
                old(self).pos as int,
            ) == Ok::<(Seq<i32>, int), Error>((list@, final(self).pos as int)),
            r matches Err(e) ==> old(self).grammar().lo_bounds(old(self).pos as int) == Err::<
                (Seq<i32>, int),
                Error,
            >(e),
    {
        let ghost g = self.grammar();
        let ghost first = *self;
        let count: u32 = self.bounded_count()?;
        let mut list: Vec<i32> = Vec::with_capacity(count as usize);
        let ghost start = self.pos as int;
        let mut i: u32 = 0;
        while i < count
            invariant
                i <= count,
                self.wf(),
                first.moved(*self),
                g == self.grammar(),
                *old(self) == first,
                g == first.grammar(),
                g.lo_bounds(first.pos as int) == g.signeds(start, count as nat),
                g.signeds(start, i as nat) == Ok::<(Seq<i32>, int), Error>(
                    (list@, self.pos as int),
                ),
            decreases count - i,
        {
            proof {
                if g.signeds(start, (i + 1) as nat) is Err {
                    grammar::lemma_signeds_stay(g, start, (i + 1) as nat, count as nat);
                }
            }
            let value: i32 = self.ci32()?;
            list.push(value);
            i = i + 1;
        }
        Ok(list)
    }
}

/// The type that the element type byte `b` alone names.
fn plain_type<'a>(b: u8) -> (t: Option<Type<'a>>)
    ensures
        t is Some <==> grammar::is_plain(b),
        t matches Some(x) ==> x.model() == TypeModel::Plain(b),
{
    if b == et::VOID {
        Some(Type::Void)
    } else if b == et::BOOLEAN {
        Some(Type::Boolean)
    } else if b == et::CHAR {
        Some(Type::Char)
    } else if b == et::I1 {
        Some(Type::I1)
    } else if b == et::U1 {
        Some(Type::U1)
    } else if b == et::I2 {
        Some(Type::I2)
    } else if b == et::U2 {
        Some(Type::U2)
    } else if b == et::I4 {
        Some(Type::I4)
    } else if b == et::U4 {
        Some(Type::U4)
    } else if b == et::I8 {
        Some(Type::I8)
    } else if b == et::U8 {
        Some(Type::U8)
    } else if b == et::R4 {
        Some(Type::R4)
    } else if b == et::R8 {
        Some(Type::R8)
    } else if b == et::STRING {
        Some(Type::String)
    } else if b == et::OBJECT {
        Some(Type::Object)
    } else if b == et::TYPEDBYREF {
        Some(Type::TypedByRef)
    } else if b == et::I {
        Some(Type::IntPtr)
    } else if b == et::U {
        Some(Type::UIntPtr)
    } else {
        None
    }
}

impl<'a> Parser<'a> {
    /// Counts a level in, if there is one left.
    fn enter(&mut self) -> (r: Result<()>)
        requires
            old(self).wf(),
        ensures
            r matches Ok(_) ==> old(self).depth < old(self).options.recursion_limit
                && final(self).wf() && final(self).pos == old(self).pos && final(self).data == old(
                self,
            ).data && final(self).depth == old(self).depth + 1 && final(self).options == old(
                self,
            ).options && final(self).pinned_seen == old(self).pinned_seen,
            r matches Err(e) ==> old(self).depth >= old(self).options.recursion_limit && e == old(
                self,
            ).grammar().failure(ErrorKind::RecursionLimit, old(self).pos as int),
    {
        if self.depth >= self.options.recursion_limit {
            return Err(self.error(ErrorKind::RecursionLimit));
        }
        self.depth = self.depth + 1;
        Ok(())
    }

    fn type_(&mut self) -> (r: Result<Type<'a>>)
        requires
            old(self).wf(),
        ensures
            r matches Ok(x) ==> old(self).moved(*final(self)) && old(self).grammar().type_at(
                old(self).pos as int,
            ) == Ok::<(TypeModel, int), Error>((x.model(), final(self).pos as int)),
            r matches Err(e) ==> old(self).grammar().type_at(old(self).pos as int) == Err::<
                (TypeModel, int),
                Error,
            >(e),
        decreases old(self).options.recursion_limit - old(self).depth, 0int,
    {
        self.enter()?;
        let t = self.type_inner()?;
        self.depth = self.depth - 1;
        Ok(t)
    }

    fn type_inner(&mut self) -> (r: Result<Type<'a>>)
        requires
            old(self).wf(),
        ensures
            r matches Ok(x) ==> old(self).moved(*final(self)) && old(self).grammar().type_body(
                old(self).pos as int,
            ) == Ok::<(TypeModel, int), Error>((x.model(), final(self).pos as int)),
            r matches Err(e) ==> old(self).grammar().type_body(old(self).pos as int) == Err::<
                (TypeModel, int),
                Error,
            >(e),
        decreases old(self).options.recursion_limit - old(self).depth, 4int,
    {
        // Modifiers that the grammar does not attach to a specific constructor.
        let leading = self.custom_mods()?;
        if leading.len() > 0 {
            let inner = self.type_()?;
            return Ok(Type::Modified(leading, Box::new(inner)));
        }
        let at: usize = self.pos;
        let byte: u8 = self.u8()?;
        match plain_type(byte) {
            Some(t) => Ok(t),
            None => self.compound(byte, at),
        }
    }

    /// The rest of the type that the byte `b`, which is at `at`, starts.
    #[verifier::rlimit(60)]
    fn compound(&mut self, b: u8, at: usize) -> (r: Result<Type<'a>>)
        requires
            old(self).wf(),
            !grammar::is_plain(b),
        ensures
            r matches Ok(x) ==> old(self).moved(*final(self)) && old(self).grammar().type_of(
                b,
                at as int,
                old(self).pos as int,
            ) == Ok::<(TypeModel, int), Error>((x.model(), final(self).pos as int)),
            r matches Err(e) ==> old(self).grammar().type_of(b, at as int, old(self).pos as int)
                == Err::<(TypeModel, int), Error>(e),
        decreases old(self).options.recursion_limit - old(self).depth, 3int,
    {
        if b == et::PTR {
            let mods = self.custom_mods()?;
            let inner = self.type_()?;
            Ok(Type::Ptr(mods, Box::new(inner)))
        } else if b == et::SZARRAY {
            let mods = self.custom_mods()?;
            let inner = self.type_()?;
            Ok(Type::SzArray(mods, Box::new(inner)))
        } else if b == et::BYREF {
            let inner = self.type_()?;
            Ok(Type::ByRef(Box::new(inner)))
        } else if b == et::VALUETYPE {
            Ok(Type::ValueType(self.type_token()?))
        } else if b == et::CLASS {
            Ok(Type::Class(self.type_token()?))
        } else if b == et::VAR {
            Ok(Type::Var(self.cu32()?))
        } else if b == et::MVAR {
            Ok(Type::MVar(self.cu32()?))
        } else if b == et::ARRAY {
            let element = self.type_()?;
            let shape = self.array_shape()?;
            Ok(Type::Array(Box::new(element), shape))
        } else if b == et::GENERICINST {
            self.instantiation()
        } else if b == et::FNPTR {
            let sig = self.method_sig()?;
            Ok(Type::FnPtr(Box::new(sig)))
        } else if b == et::PINNED && !self.pinned_seen {
            self.pinned_seen = true;
            let inner = self.type_()?;
            self.pinned_seen = false;
            Ok(Type::Pinned(Box::new(inner)))
        } else if b == et::INTERNAL {
            Err(self.error_at(ErrorKind::Unsupported, at))
        } else {
            Err(self.error_at(ErrorKind::Malformed, at))
        }
    }

    /// The rest of a generic instantiation.
    fn instantiation(&mut self) -> (r: Result<Type<'a>>)
        requires
            old(self).wf(),
        ensures
            r matches Ok(x) ==> old(self).moved(*final(self)) && old(self).grammar().instantiation(
                old(self).pos as int,
            ) == Ok::<(TypeModel, int), Error>((x.model(), final(self).pos as int)),
            r matches Err(e) ==> old(self).grammar().instantiation(old(self).pos as int) == Err::<
                (TypeModel, int),
                Error,
            >(e),
        decreases old(self).options.recursion_limit - old(self).depth, 2int,
    {
        let at: usize = self.pos;
        let kind: u8 = self.u8()?;
        if kind != et::VALUETYPE && kind != et::CLASS {
            return Err(self.error_at(ErrorKind::Malformed, at));
        }
        let def: Token = self.type_token()?;
        let count: u32 = self.bounded_count()?;
        let args = self.types(count)?;
        Ok(Type::GenericInst { is_value_type: kind == et::VALUETYPE, def, args })
    }

    fn types(&mut self, count: u32) -> (r: Result<Vec<Type<'a>>>)
        requires
            old(self).wf(),
        ensures
            r matches Ok(x) ==> old(self).moved(*final(self)) && old(self).grammar().types(
                old(self).pos as int,
                count as nat,
            ) == Ok::<(Seq<TypeModel>, int), Error>((type_models(x@), final(self).pos as int)),
            r matches Err(e) ==> old(self).grammar().types(old(self).pos as int, count as nat)
                == Err::<(Seq<TypeModel>, int), Error>(e),
        decreases old(self).options.recursion_limit - old(self).depth, 1int,
    {
        let ghost g = self.grammar();
        let ghost first = *self;
        let ghost start = self.pos as int;
        let mut list: Vec<Type<'a>> = Vec::with_capacity(count as usize);
        let mut i: u32 = 0;
        assert(type_models(list@) =~= Seq::empty());
        while i < count
            invariant
                i <= count,
                self.wf(),
                first.moved(*self),
                g == self.grammar(),
                g == first.grammar(),
                *old(self) == first,
                start == first.pos,
                g.types(start, i as nat) == Ok::<(Seq<TypeModel>, int), Error>(
                    (type_models(list@), self.pos as int),
                ),
            decreases count - i,
        {
            proof {
                if g.types(start, (i + 1) as nat) is Err {
                    grammar::lemma_types_stay(g, start, (i + 1) as nat, count as nat);
                }
            }
            let ghost had = type_models(list@);
            let t = self.type_()?;
            list.push(t);
            assert(type_models(list@) =~= had.push(t.model()));
            i = i + 1;
        }
        Ok(list)
    }

    fn param(&mut self) -> (r: Result<Param<'a>>)
        requires
            old(self).wf(),
        ensures
            r matches Ok(x) ==> old(self).moved(*final(self)) && old(self).grammar().param(
                old(self).pos as int,
            ) == Ok::<(ParamModel, int), Error>((x.model(), final(self).pos as int)),
            r matches Err(e) ==> old(self).grammar().param(old(self).pos as int) == Err::<
                (ParamModel, int),
                Error,
            >(e),
        decreases old(self).options.recursion_limit - old(self).depth, 1int,
    {
        let custom_mods = self.custom_mods()?;
        let by_ref: bool = self.peek()? == et::BYREF;
        if by_ref {
            self.pos = self.pos + 1;
        }
        let type_ = self.type_()?;
        Ok(Param { custom_mods, by_ref, type_ })
    }

    /// A parameter, which is not void.
    fn value_param(&mut self) -> (r: Result<Param<'a>>)
        requires
            old(self).wf(),
        ensures
            r matches Ok(x) ==> old(self).moved(*final(self)) && old(self).grammar().value_param(
                old(self).pos as int,
            ) == Ok::<(ParamModel, int), Error>((x.model(), final(self).pos as int)),
            r matches Err(e) ==> old(self).grammar().value_param(old(self).pos as int) == Err::<
                (ParamModel, int),
                Error,
            >(e),
        decreases old(self).options.recursion_limit - old(self).depth, 2int,
    {
        proof {
            grammar::lemma_parsed_param(self.grammar(), self.pos as int);
        }
        let param = self.param()?;
        if param.is_void() {
            return Err(self.error_at(ErrorKind::Malformed, self.pos - 1));
        }
        Ok(param)
    }

    #[verifier::rlimit(60)]
    fn params(&mut self, count: u32) -> (r: Result<Vec<Param<'a>>>)
        requires
            old(self).wf(),
        ensures
            r matches Ok(x) ==> old(self).moved(*final(self)) && old(self).grammar().params(
                old(self).pos as int,
                count as nat,
            ) == Ok::<(Seq<ParamModel>, int), Error>((param_models(x@), final(self).pos as int)),
            r matches Err(e) ==> old(self).grammar().params(old(self).pos as int, count as nat)
                == Err::<(Seq<ParamModel>, int), Error>(e),
    {
        let ghost g = self.grammar();
        let ghost first = *self;
        let ghost start = self.pos as int;
        let mut list: Vec<Param<'a>> = Vec::with_capacity(count as usize);
        let mut i: u32 = 0;
        assert(param_models(list@) =~= Seq::empty());
        while i < count
            invariant
                i <= count,
                self.wf(),
                first.moved(*self),
                g == self.grammar(),
                g == first.grammar(),
                *old(self) == first,
                start == first.pos,
                g.params(start, i as nat) == Ok::<(Seq<ParamModel>, int), Error>(
                    (param_models(list@), self.pos as int),
                ),
            decreases count - i,
        {
            proof {
                if g.params(start, (i + 1) as nat) is Err {
                    grammar::lemma_params_stay(g, start, (i + 1) as nat, count as nat);
                }
            }
            let ghost had = param_models(list@);
            let p = self.value_param()?;
            list.push(p);
            assert(param_models(list@) =~= had.push(p.model()));
            i = i + 1;
        }
        Ok(list)
    }

    /// One argument of a method signature, and whether it lies behind a
    /// sentinel; `past` says so of the one before. Only a vararg signature has
    /// one.
    fn argument(&mut self, vararg: bool, past: bool) -> (r: Result<(Param<'a>, bool)>)
        requires
            old(self).wf(),
        ensures
            r matches Ok(x) ==> old(self).moved(*final(self)) && old(self).grammar().argument(
                vararg,
                old(self).pos as int,
                past,
            ) == Ok::<((ParamModel, bool), int), Error>(
                ((x.0.model(), x.1), final(self).pos as int),
            ),
            r matches Err(e) ==> old(self).grammar().argument(vararg, old(self).pos as int, past)
                == Err::<((ParamModel, bool), int), Error>(e),
        decreases old(self).options.recursion_limit - old(self).depth, 3int,
    {
        let sentinel: bool = self.peek()? == et::SENTINEL;
        if sentinel {
            if past || !vararg {
                return Err(self.error(ErrorKind::Malformed));
            }
            self.pos = self.pos + 1;
        }
        let param = self.value_param()?;
        Ok((param, past || sentinel))
    }

    /// The arguments of a method signature: those before a sentinel, and those
    /// behind it.
    fn arguments(&mut self, vararg: bool, count: u32) -> (r: Result<
        (Vec<Param<'a>>, Vec<Param<'a>>),
    >)
        requires
            old(self).wf(),
        ensures
            r matches Ok(x) ==> old(self).moved(*final(self)) && (old(self).grammar().arguments(
                vararg,
                old(self).pos as int,
                count as nat,
            ) matches Ok((list, end)) && list.fixed == param_models(x.0@) && list.extra
                == param_models(x.1@) && end == final(self).pos),
            r matches Err(e) ==> old(self).grammar().arguments(
                vararg,
                old(self).pos as int,
                count as nat,
            ) == Err::<(Arguments, int), Error>(e),
        decreases old(self).options.recursion_limit - old(self).depth, 4int,
    {
        let ghost g = self.grammar();
        let ghost first = *self;
        let ghost start = self.pos as int;
        let mut fixed: Vec<Param<'a>> = Vec::with_capacity(count as usize);
        let mut extra: Vec<Param<'a>> = Vec::new();
        let mut past: bool = false;
        let mut i: u32 = 0;
        assert(param_models(fixed@) =~= Seq::empty());
        assert(param_models(extra@) =~= Seq::empty());
        while i < count
            invariant
                i <= count,
                self.wf(),
                first.moved(*self),
                g == self.grammar(),
                g == first.grammar(),
                *old(self) == first,
                start == first.pos,
                g.arguments(vararg, start, i as nat) == Ok::<(Arguments, int), Error>(
                    (
                        Arguments {
                            fixed: param_models(fixed@),
                            extra: param_models(extra@),
                            past,
                        },
                        self.pos as int,
                    ),
                ),
            decreases count - i,
        {
            proof {
                if g.arguments(vararg, start, (i + 1) as nat) is Err {
                    grammar::lemma_arguments_stay(g, vararg, start, (i + 1) as nat, count as nat);
                }
            }
            let ghost had_fixed = param_models(fixed@);
            let ghost had_extra = param_models(extra@);
            let (param, behind) = self.argument(vararg, past)?;
            past = behind;
            if past {
                extra.push(param);
                assert(param_models(extra@) =~= had_extra.push(param.model()));
            } else {
                fixed.push(param);
                assert(param_models(fixed@) =~= had_fixed.push(param.model()));
            }
            i = i + 1;
        }
        Ok((fixed, extra))
    }

    fn method_sig(&mut self) -> (r: Result<MethodSig<'a>>)
        requires
            old(self).wf(),
        ensures
            r matches Ok(x) ==> old(self).moved(*final(self)) && old(self).grammar().method_at(
                old(self).pos as int,
            ) == Ok::<(MethodSigModel, int), Error>((x.model(), final(self).pos as int)),
            r matches Err(e) ==> old(self).grammar().method_at(old(self).pos as int) == Err::<
                (MethodSigModel, int),
                Error,
            >(e),
        decreases old(self).options.recursion_limit - old(self).depth, 0int,
    {
        self.enter()?;
        let sig = self.method_sig_inner()?;
        self.depth = self.depth - 1;
        Ok(sig)
    }

    #[verifier::rlimit(60)]
    fn method_sig_inner(&mut self) -> (r: Result<MethodSig<'a>>)
        requires
            old(self).wf(),
        ensures
            r matches Ok(x) ==> old(self).moved(*final(self)) && old(self).grammar().method_body(
                old(self).pos as int,
            ) == Ok::<(MethodSigModel, int), Error>((x.model(), final(self).pos as int)),
            r matches Err(e) ==> old(self).grammar().method_body(old(self).pos as int) == Err::<
                (MethodSigModel, int),
                Error,
            >(e),
        decreases old(self).options.recursion_limit - old(self).depth, 5int,
    {
        let start: usize = self.pos;
        let byte: u8 = self.u8()?;
        let generic: bool = byte / cc::GENERIC % 2 == 1;
        let generic_count: u32 = if generic {
            self.cu32()?
        } else {
            0
        };
        let calling_convention: CallConv = match call_conv(byte, generic_count) {
            Some(calling_convention) => calling_convention,
            None => {
                return Err(self.error_at(ErrorKind::Malformed, start));
            },
        };
        let count: u32 = self.bounded_count()?;
        let return_type = self.param()?;
        let vararg: bool = matches!(
            calling_convention,
            CallConv::VarArg | CallConv::NativeVarArg | CallConv::C
        );
        let (params, vararg_params) = self.arguments(vararg, count)?;
        Ok(
            MethodSig {
                raw: &self.data[start..self.pos],
                calling_convention,
                has_this: byte / cc::HASTHIS % 2 == 1,
                explicit_this: byte / cc::EXPLICITTHIS % 2 == 1,
                return_type,
                params,
                vararg_params,
            },
        )
    }
}

/// The calling convention that the byte `b` names; `count` is the number of
/// generic parameters.
fn call_conv(b: u8, count: u32) -> (c: Option<CallConv>)
    ensures
        c == grammar::convention(b, count),
{
    let c: u8 = b % 0x10;
    if c == cc::DEFAULT {
        if b / cc::GENERIC % 2 == 1 {
            Some(CallConv::Generic(count))
        } else {
            Some(CallConv::Default)
        }
    } else if c == cc::C {
        Some(CallConv::C)
    } else if c == cc::STDCALL {
        Some(CallConv::StdCall)
    } else if c == cc::THISCALL {
        Some(CallConv::ThisCall)
    } else if c == cc::FASTCALL {
        Some(CallConv::FastCall)
    } else if c == cc::VARARG {
        Some(CallConv::VarArg)
    } else if c == cc::UNMANAGED {
        Some(CallConv::Unmanaged)
    } else if c == cc::NATIVEVARARG {
        Some(CallConv::NativeVarArg)
    } else {
        None
    }
}

impl<'a> MethodSig<'a> {
    /// The total number of parameters, including varargs.
    pub fn param_count(&self) -> (count: usize)
        requires
            self.params.len() + self.vararg_params.len() <= usize::MAX,
        ensures
            count == self.model().params.len() + self.model().vararg_params.len(),
    {
        self.params.len() + self.vararg_params.len()
    }

    /// True when the method returns something other than `void`.
    pub fn has_return(&self) -> (yes: bool)
        ensures
            yes == (self.model().return_type.ty != TypeModel::Plain(et::VOID)),
    {
        !self.return_type.is_void()
    }

    /// The number of arguments a call site pushes, including `this`.
    pub fn arg_count_with_this(&self) -> (count: usize)
        requires
            self.params.len() + self.vararg_params.len() < usize::MAX,
        ensures
            count == self.model().params.len() + self.model().vararg_params.len() + if self.has_this {
                1int
            } else {
                0int
            },
    {
        if self.has_this {
            self.param_count() + 1
        } else {
            self.param_count()
        }
    }

    /// Parses a `MethodDefSig`, `MethodRefSig` or `StandAloneMethodSig`.
    ///
    /// The three share a grammar, so one parser reads all of them: a
    /// `MethodDef` signature never carries a `SENTINEL`, a `MethodRef` one may,
    /// and the `StandAloneMethodSig` that a `calli` names is distinguished only
    /// by its calling convention, which [`MethodSig::calling_convention`]
    /// reports.
    pub fn parse(blob: &'a [u8]) -> (r: Result<Self>)
        ensures
            match r {
                Ok(sig) => Grammar::of(blob@, (SignatureOptions { recursion_limit: 64 })).method_sig()
                    == Ok::<MethodSigModel, Error>(sig.model()),
                Err(e) => Grammar::of(blob@, (SignatureOptions { recursion_limit: 64 })).method_sig()
                    == Err::<MethodSigModel, Error>(e),
            },
    {
        Self::parse_with(blob, SignatureOptions::default())
    }

    /// Parses a method signature with explicit options.
    pub fn parse_with(blob: &'a [u8], options: SignatureOptions) -> (r: Result<Self>)
        ensures
            match r {
                Ok(sig) => Grammar::of(blob@, options).method_sig() == Ok::<MethodSigModel, Error>(
                    sig.model(),
                ),
                Err(e) => Grammar::of(blob@, options).method_sig() == Err::<MethodSigModel, Error>(e),
            },
    {
        let mut p = Parser::new(blob, options);
        p.method_sig()
    }
}

/// A `FieldSig` (II.23.2.4).
#[derive(Clone, PartialEq, Debug)]
pub struct FieldSig<'a> {
    /// The signature bytes this was decoded from.
    pub raw: &'a [u8],
    /// Modifiers that precede the field type.
    pub custom_mods: Vec<CustomMod>,
    /// The field type.
    pub type_: Type<'a>,
}

impl<'a> FieldSig<'a> {
    /// What the signature is.
    pub open spec fn model(self) -> FieldSigModel {
        FieldSigModel {
            raw: self.raw@,
            custom_mods: self.custom_mods@,
            ty: self.type_.model(),
        }
    }

    /// Parses a `FieldSig`.
    pub fn parse(blob: &'a [u8]) -> (r: Result<Self>)
        ensures
            match r {
                Ok(sig) => Grammar::of(blob@, (SignatureOptions { recursion_limit: 64 })).field_sig()
                    == Ok::<FieldSigModel, Error>(sig.model()),
                Err(e) => Grammar::of(blob@, (SignatureOptions { recursion_limit: 64 })).field_sig()
                    == Err::<FieldSigModel, Error>(e),
            },
    {
        Self::parse_with(blob, SignatureOptions::default())
    }

    /// Parses a `FieldSig` with explicit options.
    pub fn parse_with(blob: &'a [u8], options: SignatureOptions) -> (r: Result<Self>)
        ensures
            match r {
                Ok(sig) => Grammar::of(blob@, options).field_sig() == Ok::<FieldSigModel, Error>(
                    sig.model(),
                ),
                Err(e) => Grammar::of(blob@, options).field_sig() == Err::<FieldSigModel, Error>(e),
            },
    {
        let mut p = Parser::new(blob, options);
        p.expect_convention(cc::FIELD)?;
        let custom_mods = p.custom_mods()?;
        let type_ = p.type_()?;
        Ok(FieldSig { raw: blob, custom_mods, type_ })
    }
}

/// One entry of a `LocalVarSig` (II.23.2.6).
#[derive(Clone, PartialEq, Debug)]
pub struct LocalVar<'a> {
    /// Modifiers that precede the local type.
    pub custom_mods: Vec<CustomMod>,
    /// True when the local is pinned for the duration of its scope.
    pub pinned: bool,
    /// True when the local holds a managed reference.
    pub by_ref: bool,
    /// The local type.
    pub type_: Type<'a>,
}

impl<'a> LocalVar<'a> {
    /// What the local is.
    pub open spec fn model(self) -> LocalVarModel {
        LocalVarModel {
            custom_mods: self.custom_mods@,
            pinned: self.pinned,
            by_ref: self.by_ref,
            ty: self.type_.model(),
        }
    }
}

/// What `locals` are.
pub open spec fn local_models(locals: Seq<LocalVar>) -> Seq<LocalVarModel> {
    Seq::new(locals.len(), |i: int| locals[i].model())
}

impl<'a> Parser<'a> {
    /// The modifiers of a local variable, and whether it is pinned.
    fn constraint(&mut self) -> (r: Result<(Vec<CustomMod>, bool)>)
        requires
            old(self).wf(),
        ensures
            r matches Ok(x) ==> old(self).moved(*final(self)) && old(self).grammar().constraint(
                old(self).pos as int,
            ) == Ok::<((Seq<CustomMod>, bool), int), Error>(
                ((x.0@, x.1), final(self).pos as int),
            ),
            r matches Err(e) ==> old(self).grammar().constraint(old(self).pos as int) == Err::<
                ((Seq<CustomMod>, bool), int),
                Error,
            >(e),
    {
        let mut mods = self.custom_mods()?;
        if self.peek()? != et::PINNED {
            return Ok((mods, false));
        }
        self.pos = self.pos + 1;
        let mut more = self.custom_mods()?;
        mods.append(&mut more);
        Ok((mods, true))
    }

    #[verifier::rlimit(50)]
    fn local_var(&mut self) -> (r: Result<LocalVar<'a>>)
        requires
            old(self).wf(),
        ensures
            r matches Ok(x) ==> old(self).moved(*final(self)) && old(self).grammar().local_var(
                old(self).pos as int,
            ) == Ok::<(LocalVarModel, int), Error>((x.model(), final(self).pos as int)),
            r matches Err(e) ==> old(self).grammar().local_var(old(self).pos as int) == Err::<
                (LocalVarModel, int),
                Error,
            >(e),
    {
        // `TYPEDBYREF` stands alone, without modifiers or `BYREF`.
        if self.peek()? == et::TYPEDBYREF {
            self.pos = self.pos + 1;
            let custom_mods: Vec<CustomMod> = Vec::new();
            assert(custom_mods@ =~= Seq::empty());
            return Ok(
                LocalVar { custom_mods, pinned: false, by_ref: false, type_: Type::TypedByRef },
            );
        }
        let (custom_mods, pinned) = self.constraint()?;
        let by_ref: bool = self.peek()? == et::BYREF;
        if by_ref {
            self.pos = self.pos + 1;
        }
        let outer: bool = self.pinned_seen;
        self.pinned_seen = outer || pinned;
        let type_ = self.type_()?;
        self.pinned_seen = outer;
        if matches!(type_, Type::Pinned(_)) {
            return Err(self.error(ErrorKind::Malformed));
        }
        Ok(LocalVar { custom_mods, pinned, by_ref, type_ })
    }

    fn locals(&mut self, count: u32) -> (r: Result<Vec<LocalVar<'a>>>)
        requires
            old(self).wf(),
        ensures
            r matches Ok(x) ==> old(self).moved(*final(self)) && old(self).grammar().locals(
                old(self).pos as int,
                count as nat,
            ) == Ok::<(Seq<LocalVarModel>, int), Error>(
                (local_models(x@), final(self).pos as int),
            ),
            r matches Err(e) ==> old(self).grammar().locals(old(self).pos as int, count as nat)
                == Err::<(Seq<LocalVarModel>, int), Error>(e),
    {
        let ghost g = self.grammar();
        let ghost first = *self;
        let ghost start = self.pos as int;
        let mut list: Vec<LocalVar<'a>> = Vec::with_capacity(count as usize);
        let mut i: u32 = 0;
        assert(local_models(list@) =~= Seq::empty());
        while i < count
            invariant
                i <= count,
                self.wf(),
                first.moved(*self),
                g == self.grammar(),
                g == first.grammar(),
                *old(self) == first,
                start == first.pos,
                g.locals(start, i as nat) == Ok::<(Seq<LocalVarModel>, int), Error>(
                    (local_models(list@), self.pos as int),
                ),
            decreases count - i,
        {
            proof {
                if g.locals(start, (i + 1) as nat) is Err {
                    grammar::lemma_locals_stay(g, start, (i + 1) as nat, count as nat);
                }
            }
            let ghost had = local_models(list@);
            let local = self.local_var()?;
            list.push(local);
            assert(local_models(list@) =~= had.push(local.model()));
            i = i + 1;
        }
        Ok(list)
    }
}

/// A `LocalVarSig` (II.23.2.6).
#[derive(Clone, PartialEq, Debug)]
pub struct LocalVarSig<'a> {
    /// The signature bytes this was decoded from.
    pub raw: &'a [u8],
    /// The locals, in slot order.
    pub locals: Vec<LocalVar<'a>>,
}

impl<'a> LocalVarSig<'a> {
    /// What the signature is.
    pub open spec fn model(self) -> LocalVarSigModel {
        LocalVarSigModel { raw: self.raw@, locals: local_models(self.locals@) }
    }

    /// Parses a `LocalVarSig`.
    pub fn parse(blob: &'a [u8]) -> (r: Result<Self>)
        ensures
            match r {
                Ok(sig) => Grammar::of(blob@, (SignatureOptions { recursion_limit: 64 })).local_var_sig()
                    == Ok::<LocalVarSigModel, Error>(sig.model()),
                Err(e) => Grammar::of(blob@, (SignatureOptions { recursion_limit: 64 })).local_var_sig()
                    == Err::<LocalVarSigModel, Error>(e),
            },
    {
        Self::parse_with(blob, SignatureOptions::default())
    }

    /// Parses a `LocalVarSig` with explicit options.
    pub fn parse_with(blob: &'a [u8], options: SignatureOptions) -> (r: Result<Self>)
        ensures
            match r {
                Ok(sig) => Grammar::of(blob@, options).local_var_sig() == Ok::<LocalVarSigModel, Error>(
                    sig.model(),
                ),
                Err(e) => Grammar::of(blob@, options).local_var_sig() == Err::<LocalVarSigModel, Error>(e),
            },
    {
        let mut p = Parser::new(blob, options);
        p.expect_convention(cc::LOCAL_SIG)?;
        let count: u32 = p.bounded_count()?;
        let locals = p.locals(count)?;
        Ok(LocalVarSig { raw: blob, locals })
    }
}

/// A `PropertySig` (II.23.2.5).
#[derive(Clone, PartialEq, Debug)]
pub struct PropertySig<'a> {
    /// The signature bytes this was decoded from.
    pub raw: &'a [u8],
    /// True when the property is an instance property.
    pub has_this: bool,
    /// The property type, with any modifiers.
    pub return_type: Param<'a>,
    /// The index parameters of an indexer.
    pub params: Vec<Param<'a>>,
}

impl<'a> PropertySig<'a> {
    /// What the signature is.
    pub open spec fn model(self) -> PropertySigModel {
        PropertySigModel {
            raw: self.raw@,
            has_this: self.has_this,
            return_type: self.return_type.model(),
            params: param_models(self.params@),
        }
    }

    /// Parses a `PropertySig`.
    pub fn parse(blob: &'a [u8]) -> (r: Result<Self>)
        ensures
            match r {
                Ok(sig) => Grammar::of(blob@, (SignatureOptions { recursion_limit: 64 })).property_sig()
                    == Ok::<PropertySigModel, Error>(sig.model()),
                Err(e) => Grammar::of(blob@, (SignatureOptions { recursion_limit: 64 })).property_sig()
                    == Err::<PropertySigModel, Error>(e),
            },
    {
        Self::parse_with(blob, SignatureOptions::default())
    }

    /// Parses a `PropertySig` with explicit options.
    pub fn parse_with(blob: &'a [u8], options: SignatureOptions) -> (r: Result<Self>)
        ensures
            match r {
                Ok(sig) => Grammar::of(blob@, options).property_sig() == Ok::<PropertySigModel, Error>(
                    sig.model(),
                ),
                Err(e) => Grammar::of(blob@, options).property_sig() == Err::<PropertySigModel, Error>(e),
            },
    {
        let mut p = Parser::new(blob, options);
        let byte: u8 = p.expect_convention(cc::PROPERTY)?;
        let count: u32 = p.bounded_count()?;
        let return_type = p.param()?;
        let params = p.params(count)?;
        Ok(
            PropertySig {
                raw: blob,
                has_this: byte / cc::HASTHIS % 2 == 1,
                return_type,
                params,
            },
        )
    }
}

/// A `MethodSpec` signature: the type arguments of a generic instantiation
/// (II.23.2.15).
#[derive(Clone, PartialEq, Debug)]
pub struct MethodSpecSig<'a> {
    /// The signature bytes this was decoded from.
    pub raw: &'a [u8],
    /// The type arguments.
    pub args: Vec<Type<'a>>,
}

impl<'a> MethodSpecSig<'a> {
    /// What the signature is.
    pub open spec fn model(self) -> MethodSpecSigModel {
        MethodSpecSigModel { raw: self.raw@, args: type_models(self.args@) }
    }

    /// Parses a `MethodSpec` signature.
    pub fn parse(blob: &'a [u8]) -> (r: Result<Self>)
        ensures
            match r {
                Ok(sig) => Grammar::of(blob@, (SignatureOptions { recursion_limit: 64 })).method_spec_sig()
                    == Ok::<MethodSpecSigModel, Error>(sig.model()),
                Err(e) => Grammar::of(blob@, (SignatureOptions { recursion_limit: 64 })).method_spec_sig()
                    == Err::<MethodSpecSigModel, Error>(e),
            },
    {
        Self::parse_with(blob, SignatureOptions::default())
    }

    /// Parses a `MethodSpec` signature with explicit options.
    pub fn parse_with(blob: &'a [u8], options: SignatureOptions) -> (r: Result<Self>)
        ensures
            match r {
                Ok(sig) => Grammar::of(blob@, options).method_spec_sig() == Ok::<MethodSpecSigModel, Error>(
                    sig.model(),
                ),
                Err(e) => Grammar::of(blob@, options).method_spec_sig() == Err::<MethodSpecSigModel, Error>(e),
            },
    {
        let mut p = Parser::new(blob, options);
        p.expect_convention(cc::GENERICINST)?;
        let count: u32 = p.bounded_count()?;
        let args = p.types(count)?;
        Ok(MethodSpecSig { raw: blob, args })
    }
}

/// A `TypeSpec` signature: a single type (II.23.2.14).
#[derive(Clone, PartialEq, Debug)]
pub struct TypeSpecSig<'a> {
    /// The signature bytes this was decoded from.
    pub raw: &'a [u8],
    /// The type.
    pub type_: Type<'a>,
}

impl<'a> TypeSpecSig<'a> {
    /// What the signature is.
    pub open spec fn model(self) -> TypeSpecSigModel {
        TypeSpecSigModel { raw: self.raw@, ty: self.type_.model() }
    }

    /// Parses a `TypeSpec` signature.
    pub fn parse(blob: &'a [u8]) -> (r: Result<Self>)
        ensures
            match r {
                Ok(sig) => Grammar::of(blob@, (SignatureOptions { recursion_limit: 64 })).type_spec_sig()
                    == Ok::<TypeSpecSigModel, Error>(sig.model()),
                Err(e) => Grammar::of(blob@, (SignatureOptions { recursion_limit: 64 })).type_spec_sig()
                    == Err::<TypeSpecSigModel, Error>(e),
            },
    {
        Self::parse_with(blob, SignatureOptions::default())
    }

    /// Parses a `TypeSpec` signature with explicit options.
    pub fn parse_with(blob: &'a [u8], options: SignatureOptions) -> (r: Result<Self>)
        ensures
            match r {
                Ok(sig) => Grammar::of(blob@, options).type_spec_sig() == Ok::<TypeSpecSigModel, Error>(
                    sig.model(),
                ),
                Err(e) => Grammar::of(blob@, options).type_spec_sig() == Err::<TypeSpecSigModel, Error>(e),
            },
    {
        let mut p = Parser::new(blob, options);
        let type_ = p.type_()?;
        Ok(TypeSpecSig { raw: blob, type_ })
    }
}

} // verus!
