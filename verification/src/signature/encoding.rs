//! Signatures written out as bytes (II.23.2), and the laws that tie what is
//! written to what is parsed.

use vstd::prelude::*;

use super::grammar::{
    Arguments, FieldSigModel, Grammar, LocalVarModel, LocalVarSigModel, MethodSigModel,
    MethodSpecSigModel, ParamModel, PropertySigModel, ShapeModel, TypeModel, TypeSpecSigModel,
};
use super::{CallConv, CustomMod, Type};
use crate::compressed;
use crate::error::Error;
use crate::reader;
use crate::token::Token;

verus! {

/// True when `t` names a row of `TypeDef`, `TypeRef` or `TypeSpec`.
pub open spec fn names_type(t: Token) -> bool {
    let table = t.0 / 0x100_0000;
    table == 0x02 || table == 0x01 || table == 0x1B
}

/// The number that stands for a type token (II.23.2.8): the row, and in the low
/// two bits 0 for `TypeDef`, 1 for `TypeRef` and 2 for `TypeSpec`.
pub open spec fn token_number(t: Token) -> int {
    let row = t.0 as int % 0x100_0000;
    let table = t.0 / 0x100_0000;
    row * 4 + if table == 0x02 {
        0int
    } else if table == 0x01 {
        1
    } else {
        2
    }
}

/// The bytes of a type token.
pub open spec fn token_bytes(t: Token) -> Seq<u8> {
    compressed::encoded(token_number(t))
}

/// The bytes of custom modifiers (II.23.2.7): each is 0x1F, or 0x20 where it is
/// optional, and a type.
#[verifier::opaque]
pub open spec fn mods_bytes(mods: Seq<CustomMod>) -> Seq<u8>
    decreases mods.len(),
{
    if mods.len() == 0 {
        seq![]
    } else {
        (seq![
            if mods[0].required {
                0x1Fu8
            } else {
                0x20
            },
        ] + token_bytes(mods[0].type_token)) + mods_bytes(mods.drop_first())
    }
}

/// True when custom modifiers can be written.
pub open spec fn mods_ok(mods: Seq<CustomMod>, limit: int) -> bool {
    &&& mods.len() <= limit
    &&& forall|i: int| 0 <= i < mods.len() ==> names_type((#[trigger] mods[i]).type_token)
}

/// The first `n` compressed integers.
pub open spec fn numbers_bytes(list: Seq<u32>, n: nat) -> Seq<u8>
    decreases n,
{
    if n == 0 {
        seq![]
    } else {
        numbers_bytes(list, (n - 1) as nat) + compressed::encoded(list[n - 1] as int)
    }
}

/// The first `n` compressed signed integers.
pub open spec fn signeds_bytes(list: Seq<i32>, n: nat) -> Seq<u8>
    decreases n,
{
    if n == 0 {
        seq![]
    } else {
        signeds_bytes(list, (n - 1) as nat) + compressed::encoded_signed(list[n - 1] as int)
    }
}

/// The bytes of an array shape (II.23.2.13): the rank, the counted sizes and
/// the counted lower bounds.
pub open spec fn shape_bytes(s: ShapeModel) -> Seq<u8> {
    compressed::encoded(s.rank as int) + ((compressed::encoded(s.sizes.len() as int)
        + numbers_bytes(s.sizes, s.sizes.len())) + (compressed::encoded(s.lo_bounds.len() as int)
        + signeds_bytes(s.lo_bounds, s.lo_bounds.len())))
}

/// True when an array shape can be written.
pub open spec fn shape_ok(s: ShapeModel) -> bool {
    &&& s.rank <= 0x1FFF_FFFF
    &&& s.sizes.len() <= 0x1FFF_FFFF
    &&& s.lo_bounds.len() <= 0x1FFF_FFFF
    &&& forall|i: int| 0 <= i < s.sizes.len() ==> #[trigger] s.sizes[i] <= 0x1FFF_FFFF
    &&& forall|i: int|
        0 <= i < s.lo_bounds.len() ==> -0x1000_0000 <= #[trigger] s.lo_bounds[i] < 0x1000_0000
}

/// The low bits of the leading byte of a method signature (II.15.3, II.23.2.3);
/// the conventions of other signatures have none.
pub open spec fn convention_number(c: CallConv) -> Option<u8> {
    match c {
        CallConv::Default => Some(0x00),
        CallConv::C => Some(0x01),
        CallConv::StdCall => Some(0x02),
        CallConv::ThisCall => Some(0x03),
        CallConv::FastCall => Some(0x04),
        CallConv::VarArg => Some(0x05),
        CallConv::Unmanaged => Some(0x09),
        CallConv::NativeVarArg => Some(0x0B),
        CallConv::Generic(_) => Some(0x10),
        _ => None,
    }
}

/// The bytes of a type (II.23.2.12, II.23.1.16).
pub open spec fn type_bytes(t: TypeModel) -> Seq<u8>
    decreases t, 0nat,
{
    match t {
        TypeModel::Plain(b) => seq![b],
        TypeModel::Ptr(mods, inner) => seq![0x0Fu8] + (mods_bytes(mods) + type_bytes(*inner)),
        TypeModel::ByRef(inner) => seq![0x10u8] + type_bytes(*inner),
        TypeModel::ValueType(token) => seq![0x11u8] + token_bytes(token),
        TypeModel::Class(token) => seq![0x12u8] + token_bytes(token),
        TypeModel::Var(n) => seq![0x13u8] + compressed::encoded(n as int),
        TypeModel::Array(inner, shape) => seq![0x14u8] + (type_bytes(*inner) + shape_bytes(shape)),
        TypeModel::GenericInst { is_value_type, def, args } => seq![
            0x15u8,
            if is_value_type {
                0x11
            } else {
                0x12
            },
        ] + (token_bytes(def) + (compressed::encoded(args.len() as int) + types_bytes(
            args,
            args.len(),
        ))),
        TypeModel::FnPtr(sig) => seq![0x1Bu8] + sig_bytes(*sig),
        TypeModel::SzArray(mods, inner) => seq![0x1Du8] + (mods_bytes(mods) + type_bytes(*inner)),
        TypeModel::MVar(n) => seq![0x1Eu8] + compressed::encoded(n as int),
        TypeModel::Modified(mods, inner) => mods_bytes(mods) + type_bytes(*inner),
        TypeModel::Pinned(inner) => seq![0x45u8] + type_bytes(*inner),
        TypeModel::Sentinel => seq![0x41u8],
        TypeModel::Internal(_) => seq![0x21u8],
    }
}

/// The bytes of the first `n` types.
pub open spec fn types_bytes(list: Seq<TypeModel>, n: nat) -> Seq<u8>
    decreases list, n,
{
    if n == 0 || n > list.len() {
        seq![]
    } else {
        types_bytes(list, (n - 1) as nat) + type_bytes(list[n - 1])
    }
}

/// The bytes of a parameter or return type (II.23.2.10, II.23.2.11): modifiers,
/// 0x10 where it is passed by reference, and the type.
pub open spec fn param_bytes(p: ParamModel) -> Seq<u8>
    decreases p, 0nat,
{
    mods_bytes(p.custom_mods) + (if p.by_ref {
        seq![0x10u8] + type_bytes(p.ty)
    } else {
        type_bytes(p.ty)
    })
}

/// The bytes of the first `n` parameters.
pub open spec fn params_bytes(list: Seq<ParamModel>, n: nat) -> Seq<u8>
    decreases list, n,
{
    if n == 0 || n > list.len() {
        seq![]
    } else {
        params_bytes(list, (n - 1) as nat) + param_bytes(list[n - 1])
    }
}

/// The leading byte of a method signature: the convention, 0x20 for an instance
/// method and 0x40 where `this` is among the parameters.
pub open spec fn leading_byte(sig: MethodSigModel) -> u8 {
    (convention_number(sig.calling_convention)->0 + if sig.has_this {
        0x20int
    } else {
        0
    } + if sig.explicit_this {
        0x40int
    } else {
        0
    }) as u8
}

/// The number of generic parameters, where the convention has one.
pub open spec fn arity_bytes(c: CallConv) -> Seq<u8> {
    match c {
        CallConv::Generic(n) => compressed::encoded(n as int),
        _ => seq![],
    }
}

/// The bytes of a method signature (II.23.2.1 to II.23.2.3): the leading byte,
/// the number of generic parameters of a generic one, the number of parameters,
/// the return type, the parameters, and behind a sentinel (0x41) those that a
/// vararg call adds.
pub open spec fn sig_bytes(sig: MethodSigModel) -> Seq<u8>
    decreases sig, 0nat,
{
    seq![leading_byte(sig)] + (arity_bytes(sig.calling_convention) + (compressed::encoded(
        (sig.params.len() + sig.vararg_params.len()) as int,
    ) + (param_bytes(sig.return_type) + (params_bytes(sig.params, sig.params.len()) + (
    if sig.vararg_params.len() > 0 {
        seq![0x41u8] + params_bytes(sig.vararg_params, sig.vararg_params.len())
    } else {
        seq![]
    })))))
}

/// True when the type can be written so that it nests at most `room` levels
/// deep: its tokens name types, its numbers can be compressed, and modifiers
/// are not split over two of its parts. `pinned` says that it is inside a
/// pinned type, which holds no other.
pub open spec fn type_ok(t: TypeModel, room: int, pinned: bool, limit: int) -> bool
    decreases t, 0nat,
{
    room >= 1 && match t {
        TypeModel::Plain(b) => 0x01 <= b <= 0x0E || b == 0x16 || b == 0x18 || b == 0x19 || b
            == 0x1C,
        TypeModel::Ptr(mods, inner) => mods_ok(mods, limit) && !(*inner is Modified) && type_ok(
            *inner,
            room - 1,
            pinned,
            limit,
        ),
        TypeModel::ByRef(inner) => type_ok(*inner, room - 1, pinned, limit),
        TypeModel::ValueType(token) => names_type(token),
        TypeModel::Class(token) => names_type(token),
        TypeModel::Var(n) => n <= 0x1FFF_FFFF,
        TypeModel::Array(inner, shape) => shape_ok(shape) && type_ok(
            *inner,
            room - 1,
            pinned,
            limit,
        ),
        TypeModel::GenericInst { is_value_type, def, args } => names_type(def) && args.len()
            <= 0x1FFF_FFFF && forall|i: int|
            0 <= i < args.len() ==> type_ok(#[trigger] args[i], room - 1, pinned, limit),
        TypeModel::FnPtr(sig) => sig_ok(*sig, room - 1, pinned, limit),
        TypeModel::SzArray(mods, inner) => mods_ok(mods, limit) && !(*inner is Modified) && type_ok(
            *inner,
            room - 1,
            pinned,
            limit,
        ),
        TypeModel::MVar(n) => n <= 0x1FFF_FFFF,
        TypeModel::Modified(mods, inner) => mods.len() > 0 && mods_ok(mods, limit) && !(
        *inner is Modified) && type_ok(*inner, room - 1, pinned, limit),
        TypeModel::Pinned(inner) => !pinned && type_ok(*inner, room - 1, true, limit),
        TypeModel::Sentinel => false,
        TypeModel::Internal(_) => false,
    }
}

/// The same of a parameter or return type.
pub open spec fn param_ok(p: ParamModel, room: int, pinned: bool, limit: int) -> bool
    decreases p, 0nat,
{
    &&& mods_ok(p.custom_mods, limit)
    &&& type_ok(p.ty, room, pinned, limit)
    &&& !p.by_ref ==> !(p.ty is ByRef) && !(p.ty is Modified)
}

/// The same of a method signature: no parameter is void, some lie behind a
/// sentinel only where the convention is `C` or a vararg one, and `raw` holds
/// its bytes.
pub open spec fn sig_ok(sig: MethodSigModel, room: int, pinned: bool, limit: int) -> bool
    decreases sig, 0nat,
{
    &&& room >= 1
    &&& convention_number(sig.calling_convention) is Some
    &&& sig.calling_convention matches CallConv::Generic(n) ==> n <= 0x1FFF_FFFF
    &&& sig.params.len() + sig.vararg_params.len() <= 0x1FFF_FFFF
    &&& sig.vararg_params.len() > 0 ==> sig.calling_convention is C
        || sig.calling_convention is VarArg || sig.calling_convention is NativeVarArg
    &&& param_ok(sig.return_type, room - 1, pinned, limit)
    &&& forall|i: int|
        0 <= i < sig.params.len() ==> param_ok(
            #[trigger] sig.params[i],
            room - 1,
            pinned,
            limit,
        ) && sig.params[i].ty != TypeModel::Plain(0x01)
    &&& forall|i: int|
        0 <= i < sig.vararg_params.len() ==> param_ok(
            #[trigger] sig.vararg_params[i],
            room - 1,
            pinned,
            limit,
        ) && sig.vararg_params[i].ty != TypeModel::Plain(0x01)
    &&& sig.raw == sig_bytes(sig)
}

/// A compressed integer that is written is read back.
proof fn lemma_number(g: Grammar, pos: int, n: int)
    requires
        0 <= n <= 0x1FFF_FFFF,
        reader::lies_at(g.data, pos, compressed::encoded(n)),
    ensures
        compressed::encoded(n).len() >= 1,
        g.number(pos) == Ok::<(u32, int), Error>((n as u32, pos + compressed::encoded(n).len())),
{
    let bytes = compressed::encoded(n);
    let rest = g.data.skip(pos + bytes.len());
    reveal(reader::lies_at);
    assert(g.data.skip(pos) =~= bytes + rest) by {
        assert forall|i: int| 0 <= i < bytes.len() implies g.data.skip(pos)[i] == bytes[i] by {
            assert(g.data.subrange(pos, pos + bytes.len())[i] == bytes[i]);
        }
    }
    compressed::lemma_write_then_read(n as u32, rest);
}

/// A compressed signed integer that is written is read back.
proof fn lemma_signed(g: Grammar, pos: int, n: int)
    requires
        -0x1000_0000 <= n < 0x1000_0000,
        reader::lies_at(g.data, pos, compressed::encoded_signed(n)),
    ensures
        compressed::encoded_signed(n).len() >= 1,
        g.signed(pos) == Ok::<(i32, int), Error>(
            (n as i32, pos + compressed::encoded_signed(n).len()),
        ),
{
    let bytes = compressed::encoded_signed(n);
    let rest = g.data.skip(pos + bytes.len());
    reveal(reader::lies_at);
    assert(g.data.skip(pos) =~= bytes + rest) by {
        assert forall|i: int| 0 <= i < bytes.len() implies g.data.skip(pos)[i] == bytes[i] by {
            assert(g.data.subrange(pos, pos + bytes.len())[i] == bytes[i]);
        }
    }
    compressed::lemma_signed_round_trip(n as i32, rest);
}

/// A type token that is written is read back.
pub proof fn lemma_written_token(g: Grammar, pos: int, t: Token)
    requires
        names_type(t),
        reader::lies_at(g.data, pos, token_bytes(t)),
    ensures
        token_bytes(t).len() >= 1,
        g.type_token(pos) == Ok::<(Token, int), Error>((t, pos + token_bytes(t).len())),
{
    lemma_number(g, pos, token_number(t));
}

/// One modifier is read, and the others behind it.
proof fn lemma_mods_step(g: Grammar, pos: int, have: Seq<CustomMod>, m: CustomMod, p: int)
    requires
        g.is_byte(
            pos,
            if m.required {
                0x1F
            } else {
                0x20
            },
        ),
        g.type_token(pos + 1) == Ok::<(Token, int), Error>((m.type_token, p)),
        have.len() < g.limit,
        pos < p <= g.data.len(),
    ensures
        g.mods_from(pos, have) == g.mods_from(p, have.push(m)),
{
    assert(m == CustomMod { required: m.required, type_token: m.type_token });
}

/// Custom modifiers that are written are read back, where no other follows.
proof fn lemma_mods(g: Grammar, pos: int, have: Seq<CustomMod>, mods: Seq<CustomMod>)
    requires
        have.len() + mods.len() <= g.limit,
        forall|i: int| 0 <= i < mods.len() ==> names_type((#[trigger] mods[i]).type_token),
        reader::lies_at(g.data, pos, mods_bytes(mods)),
        pos + mods_bytes(mods).len() < g.data.len(),
        ({
            let next = g.data[pos + mods_bytes(mods).len()];
            next != 0x1F && next != 0x20
        }),
    ensures
        g.mods_from(pos, have) == Ok::<(Seq<CustomMod>, int), Error>(
            (have + mods, pos + mods_bytes(mods).len()),
        ),
    decreases mods.len(),
{
    reveal_with_fuel(mods_bytes, 1);
    if mods.len() == 0 {
        assert(have + mods =~= have);
    } else {
        let m = mods[0];
        let rest = mods.drop_first();
        let tag = if m.required {
            0x1Fu8
        } else {
            0x20
        };
        let token = token_bytes(m.type_token);
        reader::lemma_lies_in_parts(g.data, pos, seq![tag] + token, mods_bytes(rest));
        reader::lemma_lies_in_parts(g.data, pos, seq![tag], token);
        reader::lemma_byte_reads_back(g.data, pos, tag);
        lemma_written_token(g, pos + 1, m.type_token);
        let more = have.push(m);
        assert(more + rest =~= have + mods);
        let p = pos + 1 + token.len();
        lemma_mods_step(g, pos, have, m, p);
        lemma_mods(g, p, more, rest);
    }
}

/// Custom modifiers that are written before something else are read back.
proof fn lemma_mods_before(g: Grammar, pos: int, mods: Seq<CustomMod>, tail: Seq<u8>)
    requires
        mods_ok(mods, g.limit),
        reader::lies_at(g.data, pos, mods_bytes(mods)),
        reader::lies_at(g.data, pos + mods_bytes(mods).len(), tail),
        tail.len() > 0,
        tail[0] != 0x1F && tail[0] != 0x20,
    ensures
        g.mods(pos) == Ok::<(Seq<CustomMod>, int), Error>((mods, pos + mods_bytes(mods).len())),
{
    reader::lemma_lies_first(g.data, pos + mods_bytes(mods).len(), tail);
    lemma_mods(g, pos, Seq::empty(), mods);
    assert(Seq::<CustomMod>::empty() + mods =~= mods);
}

/// Compressed integers that are written are read back in order.
proof fn lemma_numbers(g: Grammar, pos: int, list: Seq<u32>, n: nat)
    requires
        n <= list.len(),
        forall|i: int| 0 <= i < list.len() ==> #[trigger] list[i] <= 0x1FFF_FFFF,
        reader::lies_at(g.data, pos, numbers_bytes(list, n)),
    ensures
        numbers_bytes(list, n).len() >= n,
        g.numbers(pos, n) == Ok::<(Seq<u32>, int), Error>(
            (list.take(n as int), pos + numbers_bytes(list, n).len()),
        ),
    decreases n,
{
    if n == 0 {
        assert(list.take(0) =~= Seq::empty());
    } else {
        let front = numbers_bytes(list, (n - 1) as nat);
        reader::lemma_lies_in_parts(g.data, pos, front, compressed::encoded(list[n - 1] as int));
        lemma_numbers(g, pos, list, (n - 1) as nat);
        lemma_number(g, pos + front.len(), list[n - 1] as int);
        assert(list.take(n - 1).push(list[n - 1]) =~= list.take(n as int));
    }
}

/// Compressed signed integers that are written are read back in order.
proof fn lemma_signeds(g: Grammar, pos: int, list: Seq<i32>, n: nat)
    requires
        n <= list.len(),
        forall|i: int|
            0 <= i < list.len() ==> -0x1000_0000 <= #[trigger] list[i] < 0x1000_0000,
        reader::lies_at(g.data, pos, signeds_bytes(list, n)),
    ensures
        signeds_bytes(list, n).len() >= n,
        g.signeds(pos, n) == Ok::<(Seq<i32>, int), Error>(
            (list.take(n as int), pos + signeds_bytes(list, n).len()),
        ),
    decreases n,
{
    if n == 0 {
        assert(list.take(0) =~= Seq::empty());
    } else {
        let front = signeds_bytes(list, (n - 1) as nat);
        reader::lemma_lies_in_parts(
            g.data,
            pos,
            front,
            compressed::encoded_signed(list[n - 1] as int),
        );
        lemma_signeds(g, pos, list, (n - 1) as nat);
        lemma_signed(g, pos + front.len(), list[n - 1] as int);
        assert(list.take(n - 1).push(list[n - 1]) =~= list.take(n as int));
    }
}

/// An array shape that is written is read back.
pub proof fn lemma_written_shape(g: Grammar, pos: int, s: ShapeModel)
    requires
        shape_ok(s),
        reader::lies_at(g.data, pos, shape_bytes(s)),
    ensures
        g.shape(pos) == Ok::<(ShapeModel, int), Error>((s, pos + shape_bytes(s).len())),
{
    let rank = compressed::encoded(s.rank as int);
    let n = compressed::encoded(s.sizes.len() as int);
    let sizes = numbers_bytes(s.sizes, s.sizes.len());
    let m = compressed::encoded(s.lo_bounds.len() as int);
    let bounds = signeds_bytes(s.lo_bounds, s.lo_bounds.len());
    reader::lemma_lies_in_parts(g.data, pos, rank, (n + sizes) + (m + bounds));
    let p = pos + rank.len();
    reader::lemma_lies_in_parts(g.data, p, n + sizes, m + bounds);
    reader::lemma_lies_in_parts(g.data, p, n, sizes);
    let q = p + (n + sizes).len();
    reader::lemma_lies_in_parts(g.data, q, m, bounds);
    lemma_number(g, pos, s.rank as int);
    lemma_number(g, p, s.sizes.len() as int);
    lemma_numbers(g, p + n.len(), s.sizes, s.sizes.len());
    lemma_number(g, q, s.lo_bounds.len() as int);
    lemma_signeds(g, q + m.len(), s.lo_bounds, s.lo_bounds.len());
    assert(s.sizes.take(s.sizes.len() as int) =~= s.sizes);
    assert(s.lo_bounds.take(s.lo_bounds.len() as int) =~= s.lo_bounds);
}

/// [`type_bytes`], taken as a whole.
#[verifier::opaque]
spec fn bytes_of_type(t: TypeModel) -> Seq<u8> {
    type_bytes(t)
}

/// [`types_bytes`], taken as a whole.
#[verifier::opaque]
spec fn bytes_of_types(list: Seq<TypeModel>, n: nat) -> Seq<u8> {
    types_bytes(list, n)
}

/// [`param_bytes`], taken as a whole.
#[verifier::opaque]
spec fn bytes_of_param(p: ParamModel) -> Seq<u8> {
    param_bytes(p)
}

/// [`params_bytes`], taken as a whole.
#[verifier::opaque]
spec fn bytes_of_params(list: Seq<ParamModel>, n: nat) -> Seq<u8> {
    params_bytes(list, n)
}

/// [`sig_bytes`], taken as a whole.
#[verifier::opaque]
spec fn bytes_of_sig(sig: MethodSigModel) -> Seq<u8> {
    sig_bytes(sig)
}

/// [`type_ok`], taken as a whole.
#[verifier::opaque]
spec fn good_type(t: TypeModel, room: int, pinned: bool, limit: int) -> bool {
    type_ok(t, room, pinned, limit)
}

/// [`param_ok`], taken as a whole.
#[verifier::opaque]
spec fn good_param(p: ParamModel, room: int, pinned: bool, limit: int) -> bool {
    param_ok(p, room, pinned, limit)
}

/// [`sig_ok`], taken as a whole.
#[verifier::opaque]
spec fn good_sig(sig: MethodSigModel, room: int, pinned: bool, limit: int) -> bool {
    sig_ok(sig, room, pinned, limit)
}

/// The parts of a written type.
proof fn lemma_type_parts(t: TypeModel)
    ensures
        bytes_of_type(t) == match t {
            TypeModel::Plain(b) => seq![b],
            TypeModel::Ptr(mods, inner) => seq![0x0Fu8] + (mods_bytes(mods) + bytes_of_type(
                *inner,
            )),
            TypeModel::ByRef(inner) => seq![0x10u8] + bytes_of_type(*inner),
            TypeModel::ValueType(token) => seq![0x11u8] + token_bytes(token),
            TypeModel::Class(token) => seq![0x12u8] + token_bytes(token),
            TypeModel::Var(n) => seq![0x13u8] + compressed::encoded(n as int),
            TypeModel::Array(inner, shape) => seq![0x14u8] + (bytes_of_type(*inner) + shape_bytes(
                shape,
            )),
            TypeModel::GenericInst { is_value_type, def, args } => seq![
                0x15u8,
                if is_value_type {
                    0x11
                } else {
                    0x12
                },
            ] + (token_bytes(def) + (compressed::encoded(args.len() as int) + bytes_of_types(
                args,
                args.len(),
            ))),
            TypeModel::FnPtr(sig) => seq![0x1Bu8] + bytes_of_sig(*sig),
            TypeModel::SzArray(mods, inner) => seq![0x1Du8] + (mods_bytes(mods) + bytes_of_type(
                *inner,
            )),
            TypeModel::MVar(n) => seq![0x1Eu8] + compressed::encoded(n as int),
            TypeModel::Modified(mods, inner) => mods_bytes(mods) + bytes_of_type(*inner),
            TypeModel::Pinned(inner) => seq![0x45u8] + bytes_of_type(*inner),
            TypeModel::Sentinel => seq![0x41u8],
            TypeModel::Internal(_) => seq![0x21u8],
        },
{
    reveal(bytes_of_type);
    reveal(bytes_of_types);
    reveal(bytes_of_sig);
}

/// The parts of written types.
proof fn lemma_types_parts(list: Seq<TypeModel>, n: nat)
    requires
        n <= list.len(),
    ensures
        bytes_of_types(list, n) == if n == 0 {
            seq![]
        } else {
            bytes_of_types(list, (n - 1) as nat) + bytes_of_type(list[n - 1])
        },
{
    reveal(bytes_of_type);
    reveal(bytes_of_types);
}

/// The parts of a written parameter.
proof fn lemma_param_parts(p: ParamModel)
    ensures
        bytes_of_param(p) == mods_bytes(p.custom_mods) + (if p.by_ref {
            seq![0x10u8] + bytes_of_type(p.ty)
        } else {
            bytes_of_type(p.ty)
        }),
{
    reveal(bytes_of_type);
    reveal(bytes_of_param);
}

/// The parts of written parameters.
proof fn lemma_params_parts(list: Seq<ParamModel>, n: nat)
    requires
        n <= list.len(),
    ensures
        bytes_of_params(list, n) == if n == 0 {
            seq![]
        } else {
            bytes_of_params(list, (n - 1) as nat) + bytes_of_param(list[n - 1])
        },
{
    reveal(bytes_of_param);
    reveal(bytes_of_params);
}

/// The parts of a written method signature.
proof fn lemma_sig_parts(sig: MethodSigModel)
    ensures
        bytes_of_sig(sig) == seq![leading_byte(sig)] + (arity_bytes(sig.calling_convention) + (
        compressed::encoded((sig.params.len() + sig.vararg_params.len()) as int) + (bytes_of_param(
            sig.return_type,
        ) + (bytes_of_params(sig.params, sig.params.len()) + extra_bytes(sig.vararg_params))))),
{
    reveal(bytes_of_sig);
    reveal(bytes_of_param);
    reveal(bytes_of_params);
}

/// What a type that can be written is made of.
proof fn lemma_type_good(t: TypeModel, room: int, pinned: bool, limit: int)
    requires
        good_type(t, room, pinned, limit),
    ensures
        room >= 1,
        match t {
            TypeModel::Plain(b) => 0x01 <= b <= 0x0E || b == 0x16 || b == 0x18 || b == 0x19 || b
                == 0x1C,
            TypeModel::Ptr(mods, inner) => mods_ok(mods, limit) && !(*inner is Modified)
                && good_type(*inner, room - 1, pinned, limit),
            TypeModel::ByRef(inner) => good_type(*inner, room - 1, pinned, limit),
            TypeModel::ValueType(token) => names_type(token),
            TypeModel::Class(token) => names_type(token),
            TypeModel::Var(n) => n <= 0x1FFF_FFFF,
            TypeModel::Array(inner, shape) => shape_ok(shape) && good_type(
                *inner,
                room - 1,
                pinned,
                limit,
            ),
            TypeModel::GenericInst { is_value_type, def, args } => names_type(def) && args.len()
                <= 0x1FFF_FFFF && forall|i: int|
                0 <= i < args.len() ==> good_type(#[trigger] args[i], room - 1, pinned, limit),
            TypeModel::FnPtr(sig) => good_sig(*sig, room - 1, pinned, limit),
            TypeModel::SzArray(mods, inner) => mods_ok(mods, limit) && !(*inner is Modified)
                && good_type(*inner, room - 1, pinned, limit),
            TypeModel::MVar(n) => n <= 0x1FFF_FFFF,
            TypeModel::Modified(mods, inner) => mods.len() > 0 && mods_ok(mods, limit) && !(
            *inner is Modified) && good_type(*inner, room - 1, pinned, limit),
            TypeModel::Pinned(inner) => !pinned && good_type(*inner, room - 1, true, limit),
            TypeModel::Sentinel => false,
            TypeModel::Internal(_) => false,
        },
{
    reveal(good_type);
    reveal(good_sig);
}

/// What a parameter that can be written is made of.
proof fn lemma_param_good(p: ParamModel, room: int, pinned: bool, limit: int)
    requires
        good_param(p, room, pinned, limit),
    ensures
        mods_ok(p.custom_mods, limit),
        good_type(p.ty, room, pinned, limit),
        !p.by_ref ==> !(p.ty is ByRef) && !(p.ty is Modified),
{
    reveal(good_type);
    reveal(good_param);
}

/// What a method signature that can be written is made of.
proof fn lemma_sig_good(sig: MethodSigModel, room: int, pinned: bool, limit: int)
    requires
        good_sig(sig, room, pinned, limit),
    ensures
        room >= 1,
        convention_number(sig.calling_convention) is Some,
        sig.calling_convention matches CallConv::Generic(n) ==> n <= 0x1FFF_FFFF,
        sig.params.len() + sig.vararg_params.len() <= 0x1FFF_FFFF,
        sig.vararg_params.len() > 0 ==> sig.calling_convention is C
            || sig.calling_convention is VarArg || sig.calling_convention is NativeVarArg,
        good_param(sig.return_type, room - 1, pinned, limit),
        forall|i: int|
            0 <= i < sig.params.len() ==> good_param(
                #[trigger] sig.params[i],
                room - 1,
                pinned,
                limit,
            ) && sig.params[i].ty != TypeModel::Plain(0x01),
        forall|i: int|
            0 <= i < sig.vararg_params.len() ==> good_param(
                #[trigger] sig.vararg_params[i],
                room - 1,
                pinned,
                limit,
            ) && sig.vararg_params[i].ty != TypeModel::Plain(0x01),
        sig.raw == bytes_of_sig(sig),
{
    reveal(good_param);
    reveal(good_sig);
    reveal(bytes_of_sig);
}

/// The type at `pos` is `t`, and ends at `end`.
#[verifier::opaque]
spec fn reads_type(g: Grammar, pos: int, t: TypeModel, end: int) -> bool {
    g.type_at(pos) == Ok::<(TypeModel, int), Error>((t, end))
}

/// What the byte `b`, which is at `at`, starts is `t`.
#[verifier::opaque]
spec fn reads_element(g: Grammar, b: u8, at: int, pos: int, t: TypeModel, end: int) -> bool {
    g.type_of(b, at, pos) == Ok::<(TypeModel, int), Error>((t, end))
}

/// The modifiers and the type at `pos` are `mods` and `t`.
#[verifier::opaque]
spec fn reads_modified(
    g: Grammar,
    pos: int,
    mods: Seq<CustomMod>,
    t: TypeModel,
    end: int,
) -> bool {
    g.modified_type(pos) == Ok::<(Seq<CustomMod>, TypeModel, int), Error>((mods, t, end))
}

/// The `n` types at `pos` are those in `list`.
#[verifier::opaque]
spec fn reads_types(g: Grammar, pos: int, n: nat, list: Seq<TypeModel>, end: int) -> bool {
    g.types(pos, n) == Ok::<(Seq<TypeModel>, int), Error>((list, end))
}

/// The parameter at `pos` is `p`.
#[verifier::opaque]
spec fn reads_param(g: Grammar, pos: int, p: ParamModel, end: int) -> bool {
    g.param(pos) == Ok::<(ParamModel, int), Error>((p, end))
}

/// The `n` parameters at `pos` are those in `list`.
#[verifier::opaque]
spec fn reads_params(g: Grammar, pos: int, n: nat, list: Seq<ParamModel>, end: int) -> bool {
    g.params(pos, n) == Ok::<(Seq<ParamModel>, int), Error>((list, end))
}

/// The `n` arguments at `pos` are `list`.
#[verifier::opaque]
spec fn reads_arguments(
    g: Grammar,
    vararg: bool,
    pos: int,
    n: nat,
    list: Arguments,
    end: int,
) -> bool {
    g.arguments(vararg, pos, n) == Ok::<(Arguments, int), Error>((list, end))
}

/// The method signature at `pos` is `sig`.
#[verifier::opaque]
spec fn reads_method(g: Grammar, pos: int, sig: MethodSigModel, end: int) -> bool {
    g.method_at(pos) == Ok::<(MethodSigModel, int), Error>((sig, end))
}

/// The first byte of a type: it is no modifier and no sentinel, and says
/// whether the type is a reference or pinned.
proof fn lemma_first_byte(t: TypeModel, room: int, pinned: bool, limit: int)
    requires
        good_type(t, room, pinned, limit),
        !(t is Modified),
    ensures
        bytes_of_type(t).len() >= 1,
        bytes_of_type(t)[0] != 0x1F,
        bytes_of_type(t)[0] != 0x20,
        bytes_of_type(t)[0] != 0x41,
        bytes_of_type(t)[0] == 0x10 <==> t is ByRef,
        bytes_of_type(t)[0] == 0x45 <==> t is Pinned,
        bytes_of_type(t)[0] == 0x16 <==> t == TypeModel::Plain(0x16),
{
    lemma_type_parts(t);
    lemma_type_good(t, room, pinned, limit);
}

/// A type without modifiers is what its first byte starts.
proof fn lemma_bare_step(g: Grammar, pos: int, b: u8, t: TypeModel, end: int)
    requires
        g.depth < g.limit,
        0 <= pos < g.data.len(),
        g.data[pos] == b,
        b != 0x1F && b != 0x20,
        reads_element(g.deeper(), b, pos, pos + 1, t, end),
    ensures
        reads_type(g, pos, t, end),
{
    reveal(reads_type);
    reveal(reads_element);
    let d = g.deeper();
    assert(d.mods(pos) == Ok::<(Seq<CustomMod>, int), Error>((Seq::empty(), pos)));
    assert(d.byte(pos) == Ok::<(u8, int), Error>((b, pos + 1)));
}

/// A type with modifiers is read as such.
proof fn lemma_modified_step(
    g: Grammar,
    pos: int,
    mods: Seq<CustomMod>,
    p: int,
    t: TypeModel,
    end: int,
)
    requires
        g.depth < g.limit,
        mods.len() > 0,
        g.deeper().mods(pos) == Ok::<(Seq<CustomMod>, int), Error>((mods, p)),
        reads_type(g.deeper(), p, t, end),
    ensures
        reads_type(g, pos, TypeModel::Modified(mods, Box::new(t)), end),
{
    reveal(reads_type);
}

/// A type that is written is read back.
proof fn lemma_type(g: Grammar, pos: int, t: TypeModel)
    requires
        good_type(t, g.limit - g.depth, g.pinned, g.limit),
        reader::lies_at(g.data, pos, bytes_of_type(t)),
    ensures
        bytes_of_type(t).len() >= 1,
        reads_type(g, pos, t, pos + bytes_of_type(t).len()),
    decreases t, 1nat,
{
    let d = g.deeper();
    let room = g.limit - g.depth;
    match t {
        TypeModel::Modified(mods, inner) => {
            lemma_type_parts(t);
            lemma_type_good(t, room, g.pinned, g.limit);
            reader::lemma_lies_in_parts(g.data, pos, mods_bytes(mods), bytes_of_type(*inner));
            let p = pos + mods_bytes(mods).len();
            lemma_first_byte(*inner, room - 1, g.pinned, g.limit);
            lemma_mods_before(d, pos, mods, bytes_of_type(*inner));
            lemma_type(d, p, *inner);
            lemma_modified_step(g, pos, mods, p, *inner, p + bytes_of_type(*inner).len());
        },
        _ => {
            assert(room >= 1) by {
                lemma_type_good(t, room, g.pinned, g.limit);
            }
            lemma_first_byte(t, room, g.pinned, g.limit);
            reader::lemma_lies_first(g.data, pos, bytes_of_type(t));
            lemma_type_behind(d, pos, t);
            lemma_bare_step(g, pos, bytes_of_type(t)[0], t, pos + bytes_of_type(t).len());
        },
    }
}

/// The same of what follows the first byte of a type.
proof fn lemma_type_behind(d: Grammar, pos: int, t: TypeModel)
    requires
        good_type(t, d.limit - d.depth + 1, d.pinned, d.limit),
        !(t is Modified),
        d.depth <= d.limit,
        reader::lies_at(d.data, pos, bytes_of_type(t)),
    ensures
        reads_element(d, bytes_of_type(t)[0], pos, pos + 1, t, pos + bytes_of_type(t).len()),
    decreases t, 0nat,
{
    lemma_type_good(t, d.limit - d.depth + 1, d.pinned, d.limit);
    lemma_type_parts(t);
    let at = pos + 1;
    match t {
        TypeModel::Ptr(mods, inner) => {
            lemma_element_lies(d.data, pos, t);
            lemma_modified(d, at, mods, *inner);
            lemma_pointer_step(d, pos, mods, *inner, pos + bytes_of_type(t).len());
        },
        TypeModel::SzArray(mods, inner) => {
            lemma_element_lies(d.data, pos, t);
            lemma_modified(d, at, mods, *inner);
            lemma_pointer_step(d, pos, mods, *inner, pos + bytes_of_type(t).len());
        },
        TypeModel::ByRef(inner) => {
            lemma_element_lies(d.data, pos, t);
            lemma_type(d, at, *inner);
            lemma_reference_step(d, pos, *inner, pos + bytes_of_type(t).len());
        },
        TypeModel::Array(inner, shape) => {
            lemma_element_lies(d.data, pos, t);
            lemma_type(d, at, *inner);
            lemma_written_shape(d, at + bytes_of_type(*inner).len(), shape);
            let p = at + bytes_of_type(*inner).len();
            lemma_array_step(d, pos, *inner, p, shape, pos + bytes_of_type(t).len());
        },
        TypeModel::Pinned(inner) => {
            lemma_element_lies(d.data, pos, t);
            lemma_type(d.pinning(), at, *inner);
            lemma_pinned_step(d, pos, *inner, pos + bytes_of_type(t).len());
        },
        TypeModel::FnPtr(sig) => {
            lemma_element_lies(d.data, pos, t);
            lemma_method(d, at, *sig);
            lemma_function_step(d, pos, *sig, pos + bytes_of_type(t).len());
        },
        TypeModel::GenericInst { is_value_type, def, args } => {
            lemma_instantiation_lies(d.data, pos, is_value_type, def, args);
            let q = pos + 2 + token_bytes(def).len();
            let count = compressed::encoded(args.len() as int);
            lemma_types(d, q + count.len(), args, args.len());
            lemma_instantiation(d, pos, is_value_type, def, args);
        },
        _ => {
            lemma_leaf(d, pos, t);
        },
    }
}

/// The types that hold no other.
proof fn lemma_leaf(d: Grammar, pos: int, t: TypeModel)
    requires
        good_type(t, d.limit - d.depth + 1, d.pinned, d.limit),
        t is Plain || t is ValueType || t is Class || t is Var || t is MVar,
        reader::lies_at(d.data, pos, bytes_of_type(t)),
    ensures
        reads_element(d, bytes_of_type(t)[0], pos, pos + 1, t, pos + bytes_of_type(t).len()),
{
    reveal(reads_element);
    lemma_type_good(t, d.limit - d.depth + 1, d.pinned, d.limit);
    lemma_type_parts(t);
    let at = pos + 1;
    match t {
        TypeModel::ValueType(token) => {
            reader::lemma_lies_in_parts(d.data, pos, seq![0x11u8], token_bytes(token));
            lemma_written_token(d, at, token);
        },
        TypeModel::Class(token) => {
            reader::lemma_lies_in_parts(d.data, pos, seq![0x12u8], token_bytes(token));
            lemma_written_token(d, at, token);
        },
        TypeModel::Var(n) => {
            reader::lemma_lies_in_parts(d.data, pos, seq![0x13u8], compressed::encoded(n as int));
            lemma_number(d, at, n as int);
        },
        TypeModel::MVar(n) => {
            reader::lemma_lies_in_parts(d.data, pos, seq![0x1Eu8], compressed::encoded(n as int));
            lemma_number(d, at, n as int);
        },
        _ => {},
    }
}

/// Where the parts of a type that holds another lie.
proof fn lemma_element_lies(data: Seq<u8>, pos: int, t: TypeModel)
    requires
        reader::lies_at(data, pos, bytes_of_type(t)),
    ensures
        match t {
            TypeModel::Ptr(mods, inner) => reader::lies_at(
                data,
                pos + 1,
                mods_bytes(mods) + bytes_of_type(*inner),
            ),
            TypeModel::SzArray(mods, inner) => reader::lies_at(
                data,
                pos + 1,
                mods_bytes(mods) + bytes_of_type(*inner),
            ),
            TypeModel::ByRef(inner) => reader::lies_at(data, pos + 1, bytes_of_type(*inner)),
            TypeModel::Pinned(inner) => reader::lies_at(data, pos + 1, bytes_of_type(*inner)),
            TypeModel::FnPtr(sig) => reader::lies_at(data, pos + 1, bytes_of_sig(*sig)),
            TypeModel::Array(inner, shape) => reader::lies_at(data, pos + 1, bytes_of_type(*inner))
                && reader::lies_at(data, pos + 1 + bytes_of_type(*inner).len(), shape_bytes(shape)),
            _ => true,
        },
{
    lemma_type_parts(t);
    match t {
        TypeModel::Ptr(mods, inner) => {
            let tail = mods_bytes(mods) + bytes_of_type(*inner);
            reader::lemma_lies_in_parts(data, pos, seq![0x0Fu8], tail);
        },
        TypeModel::SzArray(mods, inner) => {
            let tail = mods_bytes(mods) + bytes_of_type(*inner);
            reader::lemma_lies_in_parts(data, pos, seq![0x1Du8], tail);
        },
        TypeModel::ByRef(inner) => {
            reader::lemma_lies_in_parts(data, pos, seq![0x10u8], bytes_of_type(*inner));
        },
        TypeModel::Pinned(inner) => {
            reader::lemma_lies_in_parts(data, pos, seq![0x45u8], bytes_of_type(*inner));
        },
        TypeModel::FnPtr(sig) => {
            reader::lemma_lies_in_parts(data, pos, seq![0x1Bu8], bytes_of_sig(*sig));
        },
        TypeModel::Array(inner, shape) => {
            let tail = bytes_of_type(*inner) + shape_bytes(shape);
            reader::lemma_lies_in_parts(data, pos, seq![0x14u8], tail);
            reader::lemma_lies_in_parts(data, pos + 1, bytes_of_type(*inner), shape_bytes(shape));
        },
        _ => {},
    }
}

/// A pointer or an array of another type is read once the other is.
proof fn lemma_pointer_step(
    d: Grammar,
    pos: int,
    mods: Seq<CustomMod>,
    t: TypeModel,
    end: int,
)
    requires
        reads_modified(d, pos + 1, mods, t, end),
    ensures
        reads_element(d, 0x0F, pos, pos + 1, TypeModel::Ptr(mods, Box::new(t)), end),
        reads_element(d, 0x1D, pos, pos + 1, TypeModel::SzArray(mods, Box::new(t)), end),
{
    reveal(reads_modified);
    reveal(reads_element);
}

/// A reference to another type is read once the other is.
proof fn lemma_reference_step(d: Grammar, pos: int, t: TypeModel, end: int)
    requires
        reads_type(d, pos + 1, t, end),
    ensures
        reads_element(d, 0x10, pos, pos + 1, TypeModel::ByRef(Box::new(t)), end),
{
    reveal(reads_type);
    reveal(reads_element);
}

/// A pinned type is read once what it pins is.
proof fn lemma_pinned_step(d: Grammar, pos: int, t: TypeModel, end: int)
    requires
        !d.pinned,
        reads_type(d.pinning(), pos + 1, t, end),
    ensures
        reads_element(d, 0x45, pos, pos + 1, TypeModel::Pinned(Box::new(t)), end),
{
    reveal(reads_type);
    reveal(reads_element);
}

/// A shaped array of another type is read once the other is.
proof fn lemma_array_step(
    d: Grammar,
    pos: int,
    t: TypeModel,
    p: int,
    shape: ShapeModel,
    end: int,
)
    requires
        reads_type(d, pos + 1, t, p),
        d.shape(p) == Ok::<(ShapeModel, int), Error>((shape, end)),
    ensures
        reads_element(d, 0x14, pos, pos + 1, TypeModel::Array(Box::new(t), shape), end),
{
    reveal(reads_type);
    reveal(reads_element);
}

/// A function pointer is read once its signature is.
proof fn lemma_function_step(d: Grammar, pos: int, sig: MethodSigModel, end: int)
    requires
        reads_method(d, pos + 1, sig, end),
    ensures
        reads_element(d, 0x1B, pos, pos + 1, TypeModel::FnPtr(Box::new(sig)), end),
{
    reveal(reads_method);
    reveal(reads_element);
}

/// Modifiers and a type are read one behind the other.
proof fn lemma_modified_type_step(
    g: Grammar,
    pos: int,
    mods: Seq<CustomMod>,
    p: int,
    t: TypeModel,
    end: int,
)
    requires
        g.mods(pos) == Ok::<(Seq<CustomMod>, int), Error>((mods, p)),
        reads_type(g, p, t, end),
    ensures
        reads_modified(g, pos, mods, t, end),
{
    reveal(reads_type);
    reveal(reads_modified);
}

/// The same of modifiers and the type behind them.
proof fn lemma_modified(g: Grammar, pos: int, mods: Seq<CustomMod>, t: TypeModel)
    requires
        mods_ok(mods, g.limit),
        !(t is Modified),
        good_type(t, g.limit - g.depth, g.pinned, g.limit),
        reader::lies_at(g.data, pos, mods_bytes(mods) + bytes_of_type(t)),
    ensures
        reads_modified(g, pos, mods, t, pos + mods_bytes(mods).len() + bytes_of_type(t).len()),
    decreases t, 2nat,
{
    reader::lemma_lies_in_parts(g.data, pos, mods_bytes(mods), bytes_of_type(t));
    lemma_first_byte(t, g.limit - g.depth, g.pinned, g.limit);
    lemma_mods_before(g, pos, mods, bytes_of_type(t));
    let p = pos + mods_bytes(mods).len();
    lemma_type(g, p, t);
    lemma_modified_type_step(g, pos, mods, p, t, p + bytes_of_type(t).len());
}

/// Where the parts of a generic instantiation lie.
proof fn lemma_instantiation_lies(
    data: Seq<u8>,
    pos: int,
    is_value_type: bool,
    def: Token,
    args: Seq<TypeModel>,
)
    requires
        reader::lies_at(
            data,
            pos,
            bytes_of_type(TypeModel::GenericInst { is_value_type, def, args }),
        ),
    ensures
        ({
            let kind = if is_value_type {
                0x11u8
            } else {
                0x12
            };
            let q = pos + 2 + token_bytes(def).len();
            let count = compressed::encoded(args.len() as int);
            let list = bytes_of_types(args, args.len());
            &&& 0 <= pos
            &&& pos + 1 < data.len()
            &&& data[pos + 1] == kind
            &&& reader::lies_at(data, pos + 2, token_bytes(def))
            &&& reader::lies_at(data, q, count)
            &&& reader::lies_at(data, q + count.len(), list)
            &&& q + count.len() + list.len() <= data.len()
        }),
{
    lemma_type_parts(TypeModel::GenericInst { is_value_type, def, args });
    let kind = if is_value_type {
        0x11u8
    } else {
        0x12
    };
    let count = compressed::encoded(args.len() as int);
    let list = bytes_of_types(args, args.len());
    let a = token_bytes(def);
    assert(seq![0x15u8, kind] =~= seq![0x15u8] + seq![kind]);
    reader::lemma_lies_in_parts(data, pos, seq![0x15u8, kind], a + (count + list));
    reader::lemma_lies_in_parts(data, pos, seq![0x15u8], seq![kind]);
    reader::lemma_byte_reads_back(data, pos + 1, kind);
    reader::lemma_lies_in_parts(data, pos + 2, a, count + list);
    reader::lemma_lies_in_parts(data, pos + 2 + a.len(), count, list);
}

/// A generic instantiation is read once its arguments are.
proof fn lemma_instantiation(
    d: Grammar,
    pos: int,
    is_value_type: bool,
    def: Token,
    args: Seq<TypeModel>,
)
    requires
        names_type(def),
        args.len() <= 0x1FFF_FFFF,
        reader::lies_at(
            d.data,
            pos,
            bytes_of_type(TypeModel::GenericInst { is_value_type, def, args }),
        ),
        bytes_of_types(args, args.len()).len() >= args.len(),
        ({
            let r = pos + 2 + token_bytes(def).len() + compressed::encoded(
                args.len() as int,
            ).len();
            reads_types(d, r, args.len(), args.take(args.len() as int), r + bytes_of_types(args, args.len()).len())
        }),
    ensures
        ({
            let t = TypeModel::GenericInst { is_value_type, def, args };
            reads_element(d, bytes_of_type(t)[0], pos, pos + 1, t, pos + bytes_of_type(t).len())
        }),
{
    let t = TypeModel::GenericInst { is_value_type, def, args };
    lemma_instantiation_lies(d.data, pos, is_value_type, def, args);
    let q = pos + 2 + token_bytes(def).len();
    lemma_written_token(d, pos + 2, def);
    lemma_number(d, q, args.len() as int);
    assert(args.take(args.len() as int) =~= args);
    assert(bytes_of_type(t)[0] == 0x15 && bytes_of_type(t).len() == 2 + token_bytes(def).len()
        + compressed::encoded(args.len() as int).len() + bytes_of_types(args, args.len()).len()) by {
        lemma_type_parts(t);
    }
    lemma_instantiation_step(
        d,
        pos + 1,
        if is_value_type {
            0x11u8
        } else {
            0x12
        },
        def,
        q,
        args.len() as u32,
        q + compressed::encoded(args.len() as int).len(),
        args,
        pos + bytes_of_type(t).len(),
    );
}

/// The parts of a generic instantiation make it up.
proof fn lemma_instantiation_step(
    d: Grammar,
    pos: int,
    kind: u8,
    def: Token,
    q: int,
    n: u32,
    r: int,
    args: Seq<TypeModel>,
    end: int,
)
    requires
        kind == 0x11 || kind == 0x12,
        d.byte(pos) == Ok::<(u8, int), Error>((kind, pos + 1)),
        d.type_token(pos + 1) == Ok::<(Token, int), Error>((def, q)),
        d.count(q) == Ok::<(u32, int), Error>((n, r)),
        reads_types(d, r, n as nat, args, end),
    ensures
        reads_element(d, 0x15, pos - 1, pos, TypeModel::GenericInst { is_value_type: kind == 0x11, def, args }, end),
{
    reveal(reads_element);
    reveal(reads_types);
    assert(d.type_of(0x15, pos - 1, pos) == d.instantiation(pos));
    reveal_with_fuel(Grammar::instantiation, 1);
}

/// One more type is read behind others.
proof fn lemma_types_step(
    g: Grammar,
    pos: int,
    n: nat,
    list: Seq<TypeModel>,
    q: int,
    t: TypeModel,
    end: int,
)
    requires
        n > 0,
        reads_types(g, pos, (n - 1) as nat, list, q),
        reads_type(g, q, t, end),
    ensures
        reads_types(g, pos, n, list.push(t), end),
{
    reveal(reads_type);
    reveal(reads_types);
}

/// Nothing is read of no items.
proof fn lemma_nothing(g: Grammar, pos: int, vararg: bool)
    ensures
        reads_types(g, pos, 0, Seq::empty(), pos),
        reads_params(g, pos, 0, Seq::empty(), pos),
        reads_arguments(
            g,
            vararg,
            pos,
            0,
            Arguments { fixed: Seq::empty(), extra: Seq::empty(), past: false },
            pos,
        ),
{
    reveal(reads_types);
    reveal(reads_params);
    reveal(reads_arguments);
}

/// The same of types one behind the other.
proof fn lemma_types(g: Grammar, pos: int, list: Seq<TypeModel>, n: nat)
    requires
        n <= list.len(),
        forall|i: int|
            0 <= i < list.len() ==> good_type(
                #[trigger] list[i],
                g.limit - g.depth,
                g.pinned,
                g.limit,
            ),
        reader::lies_at(g.data, pos, bytes_of_types(list, n)),
    ensures
        bytes_of_types(list, n).len() >= n,
        reads_types(g, pos, n, list.take(n as int), pos + bytes_of_types(list, n).len()),
    decreases list, n,
{
    lemma_types_parts(list, n);
    if n == 0 {
        assert(list.take(0) =~= Seq::empty());
        lemma_nothing(g, pos, false);
    } else {
        let front = bytes_of_types(list, (n - 1) as nat);
        reader::lemma_lies_in_parts(g.data, pos, front, bytes_of_type(list[n - 1]));
        lemma_types(g, pos, list, (n - 1) as nat);
        lemma_type(g, pos + front.len(), list[n - 1]);
        let q = pos + front.len();
        let end = q + bytes_of_type(list[n - 1]).len();
        lemma_types_step(g, pos, n, list.take(n - 1), q, list[n - 1], end);
        assert(list.take(n - 1).push(list[n - 1]) =~= list.take(n as int));
    }
}

/// A parameter is made up of modifiers, a mark and a type.
proof fn lemma_param_step(g: Grammar, pos: int, p: ParamModel, q: int, b: u8, end: int)
    requires
        g.mods(pos) == Ok::<(Seq<CustomMod>, int), Error>((p.custom_mods, q)),
        g.byte(q) == Ok::<(u8, int), Error>((b, q + 1)),
        p.by_ref == (b == 0x10),
        reads_type(g, if p.by_ref {
                q + 1
            } else {
                q
            }, p.ty, end),
    ensures
        reads_param(g, pos, p, end),
{
    reveal(reads_param);
    reveal(reads_type);
}

/// The same of a parameter or return type; it does not start with a sentinel.
proof fn lemma_param(g: Grammar, pos: int, p: ParamModel)
    requires
        good_param(p, g.limit - g.depth, g.pinned, g.limit),
        reader::lies_at(g.data, pos, bytes_of_param(p)),
    ensures
        bytes_of_param(p).len() >= 1,
        bytes_of_param(p)[0] != 0x41,
        reads_param(g, pos, p, pos + bytes_of_param(p).len()),
    decreases p, 0nat,
{
    lemma_param_parts(p);
    lemma_param_good(p, g.limit - g.depth, g.pinned, g.limit);
    let mods = p.custom_mods;
    let front = mods_bytes(mods);
    let tail = if p.by_ref {
        seq![0x10u8] + bytes_of_type(p.ty)
    } else {
        bytes_of_type(p.ty)
    };
    reader::lemma_lies_in_parts(g.data, pos, front, tail);
    let q = pos + front.len();
    if p.by_ref {
        reader::lemma_lies_in_parts(g.data, q, seq![0x10u8], bytes_of_type(p.ty));
        lemma_type(g, q + 1, p.ty);
    } else {
        lemma_first_byte(p.ty, g.limit - g.depth, g.pinned, g.limit);
        lemma_type(g, q, p.ty);
    }
    reader::lemma_lies_first(g.data, q, tail);
    lemma_mods_before(g, pos, mods, tail);
    lemma_param_step(g, pos, p, q, tail[0], q + tail.len());
    assert(mods.len() > 0 ==> front.len() > 0 && (front[0] == 0x1F || front[0] == 0x20)) by {
        reveal_with_fuel(mods_bytes, 1);
    }
    assert(mods.len() == 0 ==> front.len() == 0) by {
        reveal_with_fuel(mods_bytes, 1);
    }
    assert(bytes_of_param(p)[0] == if mods.len() > 0 {
        front[0]
    } else {
        tail[0]
    });
}

/// One more parameter is read behind others.
proof fn lemma_params_step(
    g: Grammar,
    pos: int,
    vararg: bool,
    n: nat,
    list: Seq<ParamModel>,
    q: int,
    p: ParamModel,
    end: int,
)
    requires
        n > 0,
        reads_params(g, pos, (n - 1) as nat, list, q),
        reads_arguments(g, vararg, pos, (n - 1) as nat, Arguments { fixed: list, extra: Seq::empty(), past: false }, q),
        0 <= q < g.data.len(),
        g.data[q] != 0x41,
        p.ty != TypeModel::Plain(0x01),
        reads_param(g, q, p, end),
    ensures
        reads_params(g, pos, n, list.push(p), end),
        reads_arguments(g, vararg, pos, n, Arguments { fixed: list.push(p), extra: Seq::empty(), past: false }, end),
{
    reveal(reads_param);
    reveal(reads_params);
    reveal(reads_arguments);
    assert(g.value_param(q) == Ok::<(ParamModel, int), Error>((p, end)));
    assert(g.argument(vararg, q, false) == Ok::<((ParamModel, bool), int), Error>(
        ((p, false), end),
    ));
}

/// One more argument is read behind a sentinel.
proof fn lemma_vararg_step(
    g: Grammar,
    pos: int,
    n: nat,
    list: Arguments,
    at: int,
    p: ParamModel,
    end: int,
)
    requires
        n > 0,
        reads_arguments(g, true, pos, (n - 1) as nat, list, at),
        0 <= at < g.data.len(),
        (g.data[at] == 0x41) == !list.past,
        p.ty != TypeModel::Plain(0x01),
        reads_param(g, if list.past {
                at
            } else {
                at + 1
            }, p, end),
    ensures
        reads_arguments(g, true, pos, n, Arguments { fixed: list.fixed, extra: list.extra.push(p), past: true }, end),
{
    reveal(reads_param);
    reveal(reads_arguments);
    let q = if list.past {
        at
    } else {
        at + 1
    };
    assert(g.value_param(q) == Ok::<(ParamModel, int), Error>((p, end)));
    assert(g.argument(true, at, list.past) == Ok::<((ParamModel, bool), int), Error>(
        ((p, true), end),
    ));
}

/// The same of parameters one behind the other, as of arguments without a
/// sentinel.
proof fn lemma_params(g: Grammar, pos: int, list: Seq<ParamModel>, n: nat, vararg: bool)
    requires
        n <= list.len(),
        forall|i: int|
            0 <= i < list.len() ==> good_param(
                #[trigger] list[i],
                g.limit - g.depth,
                g.pinned,
                g.limit,
            ) && list[i].ty != TypeModel::Plain(0x01),
        reader::lies_at(g.data, pos, bytes_of_params(list, n)),
    ensures
        bytes_of_params(list, n).len() >= n,
        reads_params(g, pos, n, list.take(n as int), pos + bytes_of_params(list, n).len()),
        reads_arguments(g, vararg, pos, n, Arguments { fixed: list.take(n as int), extra: Seq::empty(), past: false }, pos + bytes_of_params(list, n).len()),
    decreases list, n,
{
    lemma_params_parts(list, n);
    if n == 0 {
        assert(list.take(0) =~= Seq::empty());
        lemma_nothing(g, pos, vararg);
    } else {
        let front = bytes_of_params(list, (n - 1) as nat);
        let p = list[n - 1];
        reader::lemma_lies_in_parts(g.data, pos, front, bytes_of_param(p));
        let q = pos + front.len();
        lemma_params(g, pos, list, (n - 1) as nat, vararg);
        lemma_param(g, q, p);
        reader::lemma_lies_first(g.data, q, bytes_of_param(p));
        let before = list.take(n - 1);
        lemma_params_step(g, pos, vararg, n, before, q, p, q + bytes_of_param(p).len());
        assert(before.push(p) =~= list.take(n as int));
    }
}

/// The same of arguments behind a sentinel.
proof fn lemma_varargs(
    g: Grammar,
    pos: int,
    fixed: Seq<ParamModel>,
    at: int,
    list: Seq<ParamModel>,
    n: nat,
)
    requires
        1 <= n <= list.len(),
        forall|i: int|
            0 <= i < list.len() ==> good_param(
                #[trigger] list[i],
                g.limit - g.depth,
                g.pinned,
                g.limit,
            ) && list[i].ty != TypeModel::Plain(0x01),
        reads_arguments(g, true, pos, fixed.len(), Arguments { fixed, extra: Seq::empty(), past: false }, at),
        reader::lies_at(g.data, at, seq![0x41u8]),
        reader::lies_at(g.data, at + 1, bytes_of_params(list, n)),
    ensures
        bytes_of_params(list, n).len() >= n,
        reads_arguments(g, true, pos, fixed.len() + n, Arguments { fixed, extra: list.take(n as int), past: true }, at + 1 + bytes_of_params(list, n).len()),
    decreases list, n,
{
    lemma_params_parts(list, n);
    lemma_params_parts(list, (n - 1) as nat);
    let front = bytes_of_params(list, (n - 1) as nat);
    let p = list[n - 1];
    reader::lemma_byte_reads_back(g.data, at, 0x41u8);
    reader::lemma_lies_in_parts(g.data, at + 1, front, bytes_of_param(p));
    let q = at + 1 + front.len();
    lemma_param(g, q, p);
    reader::lemma_lies_first(g.data, q, bytes_of_param(p));
    let before = list.take(n - 1);
    assert(before.push(p) =~= list.take(n as int));
    if n > 1 {
        lemma_varargs(g, pos, fixed, at, list, (n - 1) as nat);
        let have = Arguments { fixed, extra: before, past: true };
        lemma_vararg_step(g, pos, fixed.len() + n, have, q, p, q + bytes_of_param(p).len());
    } else {
        assert(before =~= Seq::empty());
        assert(front.len() == 0);
        let have = Arguments { fixed, extra: Seq::empty(), past: false };
        lemma_vararg_step(g, pos, fixed.len() + n, have, at, p, q + bytes_of_param(p).len());
    }
}

/// What follows a sentinel, where one is written.
spec fn extra_bytes(list: Seq<ParamModel>) -> Seq<u8> {
    if list.len() > 0 {
        seq![0x41u8] + bytes_of_params(list, list.len())
    } else {
        seq![]
    }
}

/// The arguments of a method signature that is written are read back.
proof fn lemma_arguments(g: Grammar, pos: int, sig: MethodSigModel, vararg: bool)
    requires
        forall|i: int|
            0 <= i < sig.params.len() ==> good_param(
                #[trigger] sig.params[i],
                g.limit - g.depth,
                g.pinned,
                g.limit,
            ) && sig.params[i].ty != TypeModel::Plain(0x01),
        forall|i: int|
            0 <= i < sig.vararg_params.len() ==> good_param(
                #[trigger] sig.vararg_params[i],
                g.limit - g.depth,
                g.pinned,
                g.limit,
            ) && sig.vararg_params[i].ty != TypeModel::Plain(0x01),
        sig.vararg_params.len() > 0 ==> vararg,
        reader::lies_at(
            g.data,
            pos,
            bytes_of_params(sig.params, sig.params.len()) + extra_bytes(sig.vararg_params),
        ),
    ensures
        bytes_of_params(sig.params, sig.params.len()).len() + extra_bytes(sig.vararg_params).len()
            >= sig.params.len() + sig.vararg_params.len(),
        reads_arguments(g, vararg, pos, sig.params.len() + sig.vararg_params.len(), Arguments {
                    fixed: sig.params,
                    extra: sig.vararg_params,
                    past: sig.vararg_params.len() > 0,
                }, pos + bytes_of_params(sig.params, sig.params.len()).len() + extra_bytes(
                    sig.vararg_params,
                ).len()),
    decreases sig, 0nat,
{
    let k = sig.params.len();
    let m = sig.vararg_params.len();
    let fixed = bytes_of_params(sig.params, k);
    reader::lemma_lies_in_parts(g.data, pos, fixed, extra_bytes(sig.vararg_params));
    lemma_params(g, pos, sig.params, k, vararg);
    assert(sig.params.take(k as int) =~= sig.params);
    assert(sig.vararg_params.take(m as int) =~= sig.vararg_params);
    let at = pos + fixed.len();
    if m > 0 {
        let extra = bytes_of_params(sig.vararg_params, m);
        reader::lemma_lies_in_parts(g.data, at, seq![0x41u8], extra);
        lemma_varargs(g, pos, sig.params, at, sig.vararg_params, m);
    } else {
        assert(sig.vararg_params =~= Seq::empty());
    }
}

/// A method signature that is written is read back.
proof fn lemma_method(g: Grammar, pos: int, sig: MethodSigModel)
    requires
        good_sig(sig, g.limit - g.depth, g.pinned, g.limit),
        reader::lies_at(g.data, pos, bytes_of_sig(sig)),
    ensures
        reads_method(g, pos, sig, pos + bytes_of_sig(sig).len()),
    decreases sig, 1nat,
{
    lemma_sig_good(sig, g.limit - g.depth, g.pinned, g.limit);
    let d = g.deeper();
    let convention = sig.calling_convention;
    let arity = arity_bytes(convention);
    let total = (sig.params.len() + sig.vararg_params.len()) as int;
    let count = compressed::encoded(total);
    let ret = bytes_of_param(sig.return_type);
    let list = bytes_of_params(sig.params, sig.params.len()) + extra_bytes(sig.vararg_params);
    let q = pos + 1 + arity.len();
    let r = q + count.len();
    let s = r + ret.len();
    lemma_method_lies(g.data, pos, sig);
    if let CallConv::Generic(n) = convention {
        lemma_number(d, pos + 1, n as int);
    }
    lemma_number(d, q, total);
    lemma_param(d, r, sig.return_type);
    let vararg = convention is C || convention is VarArg || convention is NativeVarArg;
    lemma_arguments(d, s, sig, vararg);
    let end = s + list.len();
    assert(sig.raw == d.data.subrange(pos, end)) by {
        reveal(reader::lies_at);
    }
    lemma_leading_byte(sig, convention);
    lemma_method_assembled(g, d, pos, sig, q, total as u32, r, s, end, sig.vararg_params.len() > 0);
}

/// Where the parts of a method signature lie.
proof fn lemma_method_lies(data: Seq<u8>, pos: int, sig: MethodSigModel)
    requires
        reader::lies_at(data, pos, bytes_of_sig(sig)),
    ensures
        ({
            let arity = arity_bytes(sig.calling_convention);
            let count = compressed::encoded(
                (sig.params.len() + sig.vararg_params.len()) as int,
            );
            let ret = bytes_of_param(sig.return_type);
            let list = bytes_of_params(sig.params, sig.params.len()) + extra_bytes(
                sig.vararg_params,
            );
            let q = pos + 1 + arity.len();
            &&& 0 <= pos < data.len()
            &&& data[pos] == leading_byte(sig)
            &&& reader::lies_at(data, pos + 1, arity)
            &&& reader::lies_at(data, q, count)
            &&& reader::lies_at(data, q + count.len(), ret)
            &&& reader::lies_at(data, q + count.len() + ret.len(), list)
            &&& bytes_of_sig(sig).len() == 1 + arity.len() + count.len() + ret.len() + list.len()
            &&& pos + bytes_of_sig(sig).len() <= data.len()
        }),
{
    lemma_sig_parts(sig);
    let lead = seq![leading_byte(sig)];
    let arity = arity_bytes(sig.calling_convention);
    let count = compressed::encoded((sig.params.len() + sig.vararg_params.len()) as int);
    let ret = bytes_of_param(sig.return_type);
    let list = bytes_of_params(sig.params, sig.params.len()) + extra_bytes(sig.vararg_params);
    reader::lemma_lies_in_parts(data, pos, lead, arity + (count + (ret + list)));
    reader::lemma_byte_reads_back(data, pos, leading_byte(sig));
    reader::lemma_lies_in_parts(data, pos + 1, arity, count + (ret + list));
    let q = pos + 1 + arity.len();
    reader::lemma_lies_in_parts(data, q, count, ret + list);
    reader::lemma_lies_in_parts(data, q + count.len(), ret, list);
}

/// The leading byte holds the convention and the two bits.
proof fn lemma_leading_byte(sig: MethodSigModel, convention: CallConv)
    requires
        sig.calling_convention == convention,
        convention_number(convention) is Some,
    ensures
        ({
            let b = leading_byte(sig);
            let arity = match convention {
                CallConv::Generic(n) => n,
                _ => 0,
            };
            &&& super::grammar::convention(b, arity) == Some(convention)
            &&& (b as int / 0x10 % 2 == 1) == (convention is Generic)
            &&& (b as int / 0x20 % 2 == 1) == sig.has_this
            &&& (b as int / 0x40 % 2 == 1) == sig.explicit_this
        }),
{
}

/// The parts of a method signature make it up.
proof fn lemma_method_assembled(
    g: Grammar,
    d: Grammar,
    pos: int,
    sig: MethodSigModel,
    q: int,
    n: u32,
    r: int,
    s: int,
    end: int,
    past: bool,
)
    requires
        g.depth < g.limit,
        d == g.deeper(),
        d.byte(pos) == Ok::<(u8, int), Error>((leading_byte(sig), pos + 1)),
        ({
            let b = leading_byte(sig);
            let arity = match sig.calling_convention {
                CallConv::Generic(n) => n,
                _ => 0,
            };
            &&& d.generic_count(b, pos + 1) == Ok::<(u32, int), Error>((arity, q))
            &&& super::grammar::convention(b, arity) == Some(sig.calling_convention)
            &&& (b as int / 0x20 % 2 == 1) == sig.has_this
            &&& (b as int / 0x40 % 2 == 1) == sig.explicit_this
        }),
        d.count(q) == Ok::<(u32, int), Error>((n, r)),
        reads_param(d, r, sig.return_type, s),
        ({
            let c = sig.calling_convention;
            reads_arguments(d, c is C || c is VarArg || c is NativeVarArg, s, n as nat, Arguments { fixed: sig.params, extra: sig.vararg_params, past }, end)
        }),
        sig.raw == d.data.subrange(pos, end),
    ensures
        reads_method(g, pos, sig, end),
{
    reveal(reads_param);
    reveal(reads_arguments);
    reveal(reads_method);
    assert(d.method_body(pos) == Ok::<(MethodSigModel, int), Error>((sig, end)));
}

/// What is written of a type is the type again, at any place of a blob and
/// whatever follows it: parsing gives back the type and stops behind its bytes.
pub proof fn lemma_written_type(g: Grammar, pos: int, t: TypeModel)
    requires
        type_ok(t, g.limit - g.depth, g.pinned, g.limit),
        reader::lies_at(g.data, pos, type_bytes(t)),
    ensures
        g.type_at(pos) == Ok::<(TypeModel, int), Error>((t, pos + type_bytes(t).len())),
{
    assert(bytes_of_type(t) == type_bytes(t)) by {
        reveal(bytes_of_type);
    }
    assert(good_type(t, g.limit - g.depth, g.pinned, g.limit)) by {
        reveal(good_type);
    }
    reveal(reads_type);
    lemma_type(g, pos, t);
}

/// What is written of a parameter or return type is the same again.
pub proof fn lemma_written_param(g: Grammar, pos: int, p: ParamModel)
    requires
        param_ok(p, g.limit - g.depth, g.pinned, g.limit),
        reader::lies_at(g.data, pos, param_bytes(p)),
    ensures
        g.param(pos) == Ok::<(ParamModel, int), Error>((p, pos + param_bytes(p).len())),
{
    assert(bytes_of_param(p) == param_bytes(p)) by {
        reveal(bytes_of_param);
    }
    assert(good_param(p, g.limit - g.depth, g.pinned, g.limit)) by {
        reveal(good_param);
    }
    reveal(reads_param);
    lemma_param(g, pos, p);
}

/// What is written of a method signature is the signature again, with the
/// bytes it was written in, at any place of a blob and whatever follows it.
pub proof fn lemma_written_method(g: Grammar, pos: int, sig: MethodSigModel)
    requires
        sig_ok(sig, g.limit - g.depth, g.pinned, g.limit),
        reader::lies_at(g.data, pos, sig_bytes(sig)),
    ensures
        g.method_at(pos) == Ok::<(MethodSigModel, int), Error>((sig, pos + sig_bytes(sig).len())),
{
    assert(bytes_of_sig(sig) == sig_bytes(sig)) by {
        reveal(bytes_of_sig);
    }
    assert(good_sig(sig, g.limit - g.depth, g.pinned, g.limit)) by {
        reveal(good_sig);
    }
    reveal(reads_method);
    lemma_method(g, pos, sig);
}

/// A blob that starts with a type is the signature of that type.
pub proof fn lemma_written_type_spec(g: Grammar, t: TypeModel)
    requires
        type_ok(t, g.limit - g.depth, g.pinned, g.limit),
        reader::lies_at(g.data, 0, type_bytes(t)),
    ensures
        g.type_spec_sig() == Ok::<TypeSpecSigModel, Error>(
            TypeSpecSigModel { raw: g.data, ty: t },
        ),
{
    lemma_written_type(g, 0, t);
}

/// A blob that starts with a method signature is that signature.
pub proof fn lemma_written_method_sig(g: Grammar, sig: MethodSigModel)
    requires
        sig_ok(sig, g.limit - g.depth, g.pinned, g.limit),
        reader::lies_at(g.data, 0, sig_bytes(sig)),
    ensures
        g.method_sig() == Ok::<MethodSigModel, Error>(sig),
{
    lemma_written_method(g, 0, sig);
}

/// The bytes of a field signature (II.23.2.4): 6, modifiers and a type.
pub open spec fn field_bytes(mods: Seq<CustomMod>, t: TypeModel) -> Seq<u8> {
    seq![0x06u8] + (mods_bytes(mods) + type_bytes(t))
}

/// What is written of a field signature is the signature again.
pub proof fn lemma_written_field(g: Grammar, mods: Seq<CustomMod>, t: TypeModel)
    requires
        mods_ok(mods, g.limit),
        !(t is Modified),
        type_ok(t, g.limit - g.depth, g.pinned, g.limit),
        reader::lies_at(g.data, 0, field_bytes(mods, t)),
    ensures
        g.field_sig() == Ok::<FieldSigModel, Error>(
            FieldSigModel { raw: g.data, custom_mods: mods, ty: t },
        ),
{
    assert(bytes_of_type(t) == type_bytes(t)) by {
        reveal(bytes_of_type);
    }
    assert(good_type(t, g.limit - g.depth, g.pinned, g.limit)) by {
        reveal(good_type);
    }
    reader::lemma_lies_in_parts(g.data, 0, seq![0x06u8], mods_bytes(mods) + type_bytes(t));
    reader::lemma_byte_reads_back(g.data, 0, 0x06);
    lemma_modified(g, 1, mods, t);
    reveal(reads_modified);
}

/// The bytes of the type arguments of a generic method (II.23.2.15): 10, the
/// number of types and the types.
pub open spec fn method_spec_bytes(args: Seq<TypeModel>) -> Seq<u8> {
    seq![0x0Au8] + (compressed::encoded(args.len() as int) + types_bytes(args, args.len()))
}

/// What is written of the type arguments of a generic method is the same again.
pub proof fn lemma_written_method_spec(g: Grammar, args: Seq<TypeModel>)
    requires
        args.len() <= 0x1FFF_FFFF,
        forall|i: int|
            0 <= i < args.len() ==> type_ok(
                #[trigger] args[i],
                g.limit - g.depth,
                g.pinned,
                g.limit,
            ),
        reader::lies_at(g.data, 0, method_spec_bytes(args)),
    ensures
        g.method_spec_sig() == Ok::<MethodSpecSigModel, Error>(
            MethodSpecSigModel { raw: g.data, args },
        ),
{
    let n = args.len();
    assert(bytes_of_types(args, n) == types_bytes(args, n)) by {
        reveal(bytes_of_types);
    }
    assert forall|i: int| 0 <= i < n implies good_type(
        #[trigger] args[i],
        g.limit - g.depth,
        g.pinned,
        g.limit,
    ) by {
        reveal(good_type);
    }
    let count = compressed::encoded(n as int);
    reader::lemma_lies_in_parts(g.data, 0, seq![0x0Au8], count + types_bytes(args, n));
    reader::lemma_byte_reads_back(g.data, 0, 0x0A);
    reader::lemma_lies_in_parts(g.data, 1, count, types_bytes(args, n));
    lemma_number(g, 1, n as int);
    lemma_types(g, (1 + count.len()) as int, args, n);
    assert(args.take(n as int) =~= args);
    reveal(reads_types);
}

/// The bytes of a property signature (II.23.2.5): 8, or 0x28 for an instance
/// property, the number of parameters, the property type and the parameters.
pub open spec fn property_bytes(
    has_this: bool,
    return_type: ParamModel,
    params: Seq<ParamModel>,
) -> Seq<u8> {
    seq![
        if has_this {
            0x28u8
        } else {
            0x08
        },
    ] + (compressed::encoded(params.len() as int) + (param_bytes(return_type) + params_bytes(
        params,
        params.len(),
    )))
}

/// What is written of a property signature is the signature again.
pub proof fn lemma_written_property(
    g: Grammar,
    has_this: bool,
    return_type: ParamModel,
    params: Seq<ParamModel>,
)
    requires
        params.len() <= 0x1FFF_FFFF,
        param_ok(return_type, g.limit - g.depth, g.pinned, g.limit),
        forall|i: int|
            0 <= i < params.len() ==> param_ok(
                #[trigger] params[i],
                g.limit - g.depth,
                g.pinned,
                g.limit,
            ) && params[i].ty != TypeModel::Plain(0x01),
        reader::lies_at(g.data, 0, property_bytes(has_this, return_type, params)),
    ensures
        g.property_sig() == Ok::<PropertySigModel, Error>(
            PropertySigModel { raw: g.data, has_this, return_type, params },
        ),
{
    let n = params.len();
    let room = g.limit - g.depth;
    let lead = if has_this {
        0x28u8
    } else {
        0x08
    };
    assert(bytes_of_params(params, n) == params_bytes(params, n)) by {
        reveal(bytes_of_params);
    }
    assert(bytes_of_param(return_type) == param_bytes(return_type)) by {
        reveal(bytes_of_param);
    }
    assert(good_param(return_type, room, g.pinned, g.limit)) by {
        reveal(good_param);
    }
    assert forall|i: int| 0 <= i < n implies good_param(
        #[trigger] params[i],
        room,
        g.pinned,
        g.limit,
    ) && params[i].ty != TypeModel::Plain(0x01) by {
        reveal(good_param);
    }
    let count = compressed::encoded(n as int);
    let ret = bytes_of_param(return_type);
    let list = bytes_of_params(params, n);
    reader::lemma_lies_in_parts(g.data, 0, seq![lead], count + (ret + list));
    reader::lemma_byte_reads_back(g.data, 0, lead);
    reader::lemma_lies_in_parts(g.data, 1, count, ret + list);
    let r = (1 + count.len()) as int;
    reader::lemma_lies_in_parts(g.data, r, ret, list);
    lemma_number(g, 1, n as int);
    lemma_param(g, r, return_type);
    let s = r + ret.len();
    lemma_params(g, s, params, n, false);
    assert(params.take(n as int) =~= params);
    lemma_property_step(g, lead, n as u32, r, return_type, s, params, s + list.len());
    reveal(reads_property);
}

/// The blob is a property signature of these parts.
#[verifier::opaque]
spec fn reads_property(
    g: Grammar,
    has_this: bool,
    return_type: ParamModel,
    params: Seq<ParamModel>,
) -> bool {
    g.property_sig() == Ok::<PropertySigModel, Error>(
        PropertySigModel { raw: g.data, has_this, return_type, params },
    )
}

/// The parts of a property signature make it up.
proof fn lemma_property_step(
    g: Grammar,
    b: u8,
    n: u32,
    r: int,
    return_type: ParamModel,
    s: int,
    params: Seq<ParamModel>,
    end: int,
)
    requires
        b == 0x08 || b == 0x28,
        g.byte(0) == Ok::<(u8, int), Error>((b, 1)),
        g.count(1) == Ok::<(u32, int), Error>((n, r)),
        reads_param(g, r, return_type, s),
        reads_params(g, s, n as nat, params, end),
    ensures
        reads_property(g, b == 0x28, return_type, params),
{
    reveal(reads_property);
    assert(g.leading(0, 0x08) == Ok::<(u8, int), Error>((b, 1)));
    assert((b as int / 0x20 % 2 == 1) == (b == 0x28));
    reveal(reads_param);
    reveal(reads_params);
}

/// The bytes of a local variable (II.23.2.6): modifiers, 0x45 where it is
/// pinned, 0x10 where it is a reference, and the type.
pub open spec fn local_bytes(v: LocalVarModel) -> Seq<u8> {
    mods_bytes(v.custom_mods) + ((if v.pinned {
        seq![0x45u8]
    } else {
        seq![]
    }) + ((if v.by_ref {
        seq![0x10u8]
    } else {
        seq![]
    }) + type_bytes(v.ty)))
}

/// True when a local variable can be written.
pub open spec fn local_ok(v: LocalVarModel, room: int, limit: int) -> bool {
    &&& mods_ok(v.custom_mods, limit)
    &&& type_ok(v.ty, room, v.pinned, limit)
    &&& !(v.ty is Pinned)
    &&& !v.by_ref ==> !(v.ty is ByRef) && !(v.ty is Modified)
}

/// The parts of a local variable make it up.
proof fn lemma_local_step(g: Grammar, pos: int, v: LocalVarModel, p: int, q: int, c: u8, end: int)
    requires
        0 <= pos <= p < g.data.len(),
        g.data[pos] == 0x16 ==> v == (LocalVarModel {
            custom_mods: Seq::empty(),
            pinned: false,
            by_ref: false,
            ty: TypeModel::Plain(0x16),
        }) && end == pos + 1,
        g.data[pos] != 0x16 ==> {
            &&& g.mods(pos) == Ok::<(Seq<CustomMod>, int), Error>((v.custom_mods, p))
            &&& v.pinned == (g.data[p] == 0x45)
            &&& q == if v.pinned {
                p + 1
            } else {
                p
            }
            &&& v.pinned ==> g.mods(q) == Ok::<(Seq<CustomMod>, int), Error>((Seq::empty(), q))
            &&& g.byte(q) == Ok::<(u8, int), Error>((c, q + 1))
            &&& v.by_ref == (c == 0x10)
            &&& reads_type(
                Grammar { pinned: v.pinned || g.pinned, ..g },
                if v.by_ref {
                    q + 1
                } else {
                    q
                },
                v.ty,
                end,
            )
            &&& !(v.ty is Pinned)
        },
    ensures
        g.local_var(pos) == Ok::<(LocalVarModel, int), Error>((v, end)),
{
    reveal(reads_type);
    if g.data[pos] != 0x16 {
        assert(v.custom_mods + Seq::<CustomMod>::empty() =~= v.custom_mods);
        assert(g.constraint(pos) == Ok::<((Seq<CustomMod>, bool), int), Error>(
            ((v.custom_mods, v.pinned), q),
        ));
        let inside = if v.pinned {
            g.pinning()
        } else {
            g
        };
        assert(inside == Grammar { pinned: v.pinned || g.pinned, ..g });
    }
}

/// What is written of a local variable is the variable again.
pub proof fn lemma_written_local(g: Grammar, pos: int, v: LocalVarModel)
    requires
        !g.pinned,
        local_ok(v, g.limit - g.depth, g.limit),
        reader::lies_at(g.data, pos, local_bytes(v)),
    ensures
        local_bytes(v).len() >= 1,
        g.local_var(pos) == Ok::<(LocalVarModel, int), Error>((v, pos + local_bytes(v).len())),
{
    let room = g.limit - g.depth;
    let mods = v.custom_mods;
    let ty = bytes_of_type(v.ty);
    assert(ty == type_bytes(v.ty)) by {
        reveal(bytes_of_type);
    }
    assert(good_type(v.ty, room, v.pinned, g.limit)) by {
        reveal(good_type);
    }
    let pin: Seq<u8> = if v.pinned {
        seq![0x45u8]
    } else {
        seq![]
    };
    let mark: Seq<u8> = if v.by_ref {
        seq![0x10u8]
    } else {
        seq![]
    };
    reader::lemma_lies_in_parts(g.data, pos, mods_bytes(mods), pin + (mark + ty));
    let p = pos + mods_bytes(mods).len();
    reader::lemma_lies_in_parts(g.data, p, pin, mark + ty);
    let q = p + pin.len();
    reader::lemma_lies_in_parts(g.data, q, mark, ty);
    let inside = Grammar { pinned: v.pinned, ..g };
    lemma_type(inside, q + mark.len(), v.ty);
    if !v.by_ref {
        lemma_first_byte(v.ty, room, v.pinned, g.limit);
        assert(mark + ty =~= ty);
    }
    let c = (mark + ty)[0];
    assert(c != 0x1F && c != 0x20 && c != 0x45 && (c == 0x10) == v.by_ref);
    reader::lemma_lies_first(g.data, q, mark + ty);
    assert((pin + (mark + ty))[0] == if v.pinned {
        0x45
    } else {
        c
    });
    reader::lemma_lies_first(g.data, p, pin + (mark + ty));
    lemma_mods_before(g, pos, mods, pin + (mark + ty));
    assert(g.mods(q) == Ok::<(Seq<CustomMod>, int), Error>((Seq::empty(), q)));
    let end = pos + local_bytes(v).len();
    reveal_with_fuel(mods_bytes, 1);
    if mods.len() > 0 {
        reader::lemma_lies_first(g.data, pos, mods_bytes(mods));
    } else {
        assert(mods =~= Seq::empty());
        if g.data[pos] == 0x16 {
            assert(ty[0] == 0x16);
            lemma_type_parts(v.ty);
        }
    }
    lemma_local_step(g, pos, v, p, q, c, end);
}

/// The bytes of the first `n` local variables.
pub open spec fn locals_bytes(list: Seq<LocalVarModel>, n: nat) -> Seq<u8>
    decreases n,
{
    if n == 0 {
        seq![]
    } else {
        locals_bytes(list, (n - 1) as nat) + local_bytes(list[n - 1])
    }
}

/// Local variables that are written are read back in order.
proof fn lemma_locals(g: Grammar, pos: int, list: Seq<LocalVarModel>, n: nat)
    requires
        !g.pinned,
        n <= list.len(),
        forall|i: int|
            0 <= i < list.len() ==> local_ok(#[trigger] list[i], g.limit - g.depth, g.limit),
        reader::lies_at(g.data, pos, locals_bytes(list, n)),
    ensures
        locals_bytes(list, n).len() >= n,
        g.locals(pos, n) == Ok::<(Seq<LocalVarModel>, int), Error>(
            (list.take(n as int), pos + locals_bytes(list, n).len()),
        ),
    decreases n,
{
    if n == 0 {
        assert(list.take(0) =~= Seq::empty());
    } else {
        let front = locals_bytes(list, (n - 1) as nat);
        reader::lemma_lies_in_parts(g.data, pos, front, local_bytes(list[n - 1]));
        lemma_locals(g, pos, list, (n - 1) as nat);
        lemma_written_local(g, pos + front.len(), list[n - 1]);
        assert(list.take(n - 1).push(list[n - 1]) =~= list.take(n as int));
    }
}

/// What is written of a signature of local variables (7, their number and the
/// variables) is the signature again.
pub proof fn lemma_written_locals(g: Grammar, list: Seq<LocalVarModel>)
    requires
        !g.pinned,
        list.len() <= 0x1FFF_FFFF,
        forall|i: int|
            0 <= i < list.len() ==> local_ok(#[trigger] list[i], g.limit - g.depth, g.limit),
        reader::lies_at(
            g.data,
            0,
            seq![0x07u8] + (compressed::encoded(list.len() as int) + locals_bytes(
                list,
                list.len(),
            )),
        ),
    ensures
        g.local_var_sig() == Ok::<LocalVarSigModel, Error>(
            LocalVarSigModel { raw: g.data, locals: list },
        ),
{
    let n = list.len();
    let count = compressed::encoded(n as int);
    reader::lemma_lies_in_parts(g.data, 0, seq![0x07u8], count + locals_bytes(list, n));
    reader::lemma_byte_reads_back(g.data, 0, 0x07);
    reader::lemma_lies_in_parts(g.data, 1, count, locals_bytes(list, n));
    lemma_number(g, 1, n as int);
    lemma_locals(g, (1 + count.len()) as int, list, n);
    assert(list.take(n as int) =~= list);
}

/// What a parsed type is, told by the bytes that it would be written in: each
/// kind of type has its element type (II.23.1.16), and what a type holds lies
/// behind it.
pub proof fn lemma_type_is_its_bytes(t: Type)
    ensures
        type_bytes(t.model()) == match t {
            Type::Void => seq![0x01u8],
            Type::Boolean => seq![0x02u8],
            Type::Char => seq![0x03u8],
            Type::I1 => seq![0x04u8],
            Type::U1 => seq![0x05u8],
            Type::I2 => seq![0x06u8],
            Type::U2 => seq![0x07u8],
            Type::I4 => seq![0x08u8],
            Type::U4 => seq![0x09u8],
            Type::I8 => seq![0x0Au8],
            Type::U8 => seq![0x0Bu8],
            Type::R4 => seq![0x0Cu8],
            Type::R8 => seq![0x0Du8],
            Type::String => seq![0x0Eu8],
            Type::Ptr(mods, inner) => seq![0x0Fu8] + (mods_bytes(mods@) + type_bytes(
                inner.model(),
            )),
            Type::ByRef(inner) => seq![0x10u8] + type_bytes(inner.model()),
            Type::ValueType(token) => seq![0x11u8] + token_bytes(token),
            Type::Class(token) => seq![0x12u8] + token_bytes(token),
            Type::Var(n) => seq![0x13u8] + compressed::encoded(n as int),
            Type::Array(inner, shape) => seq![0x14u8] + (type_bytes(inner.model()) + (
            compressed::encoded(shape.rank as int) + ((compressed::encoded(
                shape.sizes@.len() as int,
            ) + numbers_bytes(shape.sizes@, shape.sizes@.len())) + (compressed::encoded(
                shape.lo_bounds@.len() as int,
            ) + signeds_bytes(shape.lo_bounds@, shape.lo_bounds@.len()))))),
            Type::GenericInst { is_value_type, def, args } => seq![
                0x15u8,
                if is_value_type {
                    0x11
                } else {
                    0x12
                },
            ] + (token_bytes(def) + (compressed::encoded(args@.len() as int) + types_bytes(
                super::type_models(args@),
                args@.len(),
            ))),
            Type::TypedByRef => seq![0x16u8],
            Type::IntPtr => seq![0x18u8],
            Type::UIntPtr => seq![0x19u8],
            Type::FnPtr(sig) => seq![0x1Bu8] + sig_bytes(sig.model()),
            Type::Object => seq![0x1Cu8],
            Type::SzArray(mods, inner) => seq![0x1Du8] + (mods_bytes(mods@) + type_bytes(
                inner.model(),
            )),
            Type::MVar(n) => seq![0x1Eu8] + compressed::encoded(n as int),
            Type::Modified(mods, inner) => mods_bytes(mods@) + type_bytes(inner.model()),
            Type::Pinned(inner) => seq![0x45u8] + type_bytes(inner.model()),
            Type::Sentinel => seq![0x41u8],
            Type::Internal(_) => seq![0x21u8],
        },
{
    reveal(bytes_of_type);
    reveal(bytes_of_types);
    reveal(bytes_of_sig);
    lemma_type_parts(t.model());
}

/// The widths of the plain types: a boolean and a character, then the integers
/// in pairs, each pair twice as wide as the one before, the two floats, and what
/// is as wide as a pointer. The other element types alone have none.
pub proof fn lemma_plain_widths(b: u8, pointer_bits: u16)
    ensures
        TypeModel::Plain(b).width(pointer_bits) == if b == 0x02 {
            Some(8u16)
        } else if b == 0x03 {
            Some(16u16)
        } else if 0x04 <= b <= 0x05 {
            Some(8u16)
        } else if 0x06 <= b <= 0x07 {
            Some(16u16)
        } else if 0x08 <= b <= 0x09 {
            Some(32u16)
        } else if 0x0A <= b <= 0x0B {
            Some(64u16)
        } else if b == 0x0C {
            Some(32u16)
        } else if b == 0x0D {
            Some(64u16)
        } else if b == 0x0E || b == 0x18 || b == 0x19 || b == 0x1C {
            Some(pointer_bits)
        } else {
            None
        },
{
}

} // verus!
