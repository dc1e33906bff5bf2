//! Readable names for tokens and signatures.
//!
//! This module exists so that errors, test assertions and dumps are legible.
//! It is deliberately small and is not a disassembler: names are spelled as the
//! metadata encodes them, including the generic arity suffix on a type name
//! (`` List`1 ``), and types are printed in ILAsm style.
use vstd::prelude::*;
use vstd::string::StringExecFns;

use crate::error::{Error, ErrorKind, Result};
use crate::metadata::{Metadata, MetadataModel};
use crate::signature::element_type as et;
use crate::signature::grammar::{
    FieldSigModel, Grammar, LocalVarModel, MethodSigModel, ParamModel, ShapeModel, TypeModel,
};
use crate::signature::{
    ArrayShape, CallConv, CustomMod, FieldSig, LocalVar, MethodSig, MethodSpecSig, Param,
    SignatureOptions, Type, TypeSpecSig,
};
use crate::tables::{
    AssemblyRefRow, FieldRow, MemberRefRow, MethodDefRow, MethodSpecRow, ModuleRefRow, TypeDefRow,
    TypeRefRow, TypeSpecRow,
};
use crate::text;
use crate::token::{marker, Rid, StringIndex, TableId, Token};

verus! {

/// A name with its namespace.
pub open spec fn qualified(namespace: Seq<char>, name: Seq<char>) -> Seq<char> {
    if namespace.len() == 0 {
        name
    } else {
        namespace + "."@ + name
    }
}

/// Puts a name behind its namespace.
pub fn qualify(namespace: &str, name: &str) -> (s: String)
    ensures
        s@ == qualified(namespace@, name@),
{
    if namespace.unicode_len() == 0 {
        return String::from_str(name);
    }
    let mut out = String::from_str(namespace);
    out.append(".");
    out.append(name);
    out
}

/// One dimension of an array: `lo...hi`, `lo...`, the size, or nothing, as far
/// as its bounds are declared.
pub open spec fn dimension_text(shape: ShapeModel, i: int) -> Seq<char> {
    if i < shape.lo_bounds.len() {
        let lo = shape.lo_bounds[i] as int;
        if i < shape.sizes.len() {
            text::signed_decimal(lo) + "..."@ + text::signed_decimal(lo + shape.sizes[i] - 1)
        } else {
            text::signed_decimal(lo) + "..."@
        }
    } else if i < shape.sizes.len() {
        text::decimal(shape.sizes[i] as nat)
    } else {
        Seq::empty()
    }
}

/// The shape of an array.
pub open spec fn shape_text(shape: ShapeModel) -> Seq<char> {
    "["@ + text::joined(Seq::new(shape.rank as nat, |i: int| dimension_text(shape, i)), ","@)
        + "]"@
}

/// Renders one dimension of an array.
fn dimension_string(shape: &ArrayShape, i: usize) -> (s: String)
    ensures
        s@ == dimension_text(shape@, i as int),
{
    let mut out = String::new();
    if i < shape.lo_bounds.len() {
        let lo: i64 = shape.lo_bounds[i] as i64;
        text::push_signed_decimal(&mut out, lo);
        out.append("...");
        if i < shape.sizes.len() {
            text::push_signed_decimal(&mut out, lo + shape.sizes[i] as i64 - 1);
        }
    } else if i < shape.sizes.len() {
        text::push_decimal(&mut out, shape.sizes[i] as u64);
    }
    assert(out@ =~= dimension_text(shape@, i as int));
    out
}

/// Renders the shape of an array.
pub fn shape_string(shape: &ArrayShape) -> (s: String)
    ensures
        s@ == shape_text(shape@),
{
    let ghost all = Seq::new(shape.rank as nat, |i: int| dimension_text(shape@, i));
    let mut out = String::from_str("[");
    let mut i: u32 = 0;
    assert(out@ =~= "["@ + text::joined(all.take(0), ","@));
    while i < shape.rank
        invariant
            i <= shape.rank,
            all == Seq::new(shape.rank as nat, |i: int| dimension_text(shape@, i)),
            out@ == "["@ + text::joined(all.take(i as int), ","@),
        decreases shape.rank - i,
    {
        let part = dimension_string(shape, i as usize);
        if i > 0 {
            out.append(",");
        }
        out.append(part.as_str());
        assert(all.take(i + 1).drop_last() =~= all.take(i as int));
        assert(all.take(i + 1).last() == part@);
        assert(out@ =~= "["@ + text::joined(all.take(i + 1), ","@));
        i = i + 1;
    }
    assert(all.take(i as int) =~= all);
    out.append("]");
    out
}

/// The type that the element type byte `b` alone names.
pub open spec fn plain_text(b: u8) -> Seq<char> {
    if b == et::VOID {
        "void"@
    } else if b == et::BOOLEAN {
        "bool"@
    } else if b == et::CHAR {
        "char"@
    } else if b == et::I1 {
        "int8"@
    } else if b == et::U1 {
        "uint8"@
    } else if b == et::I2 {
        "int16"@
    } else if b == et::U2 {
        "uint16"@
    } else if b == et::I4 {
        "int32"@
    } else if b == et::U4 {
        "uint32"@
    } else if b == et::I8 {
        "int64"@
    } else if b == et::U8 {
        "uint64"@
    } else if b == et::R4 {
        "float32"@
    } else if b == et::R8 {
        "float64"@
    } else if b == et::STRING {
        "string"@
    } else if b == et::OBJECT {
        "object"@
    } else if b == et::TYPEDBYREF {
        "typedref"@
    } else if b == et::I {
        "native int"@
    } else {
        "native uint"@
    }
}

/// The name of a type that its element type byte alone names.
fn plain_name(t: &Type<'_>) -> (name: Option<&'static str>)
    ensures
        match t.model() {
            TypeModel::Plain(b) => name matches Some(s) && s@ == plain_text(b),
            _ => name is None,
        },
{
    match t {
        Type::Void => Some("void"),
        Type::Boolean => Some("bool"),
        Type::Char => Some("char"),
        Type::I1 => Some("int8"),
        Type::U1 => Some("uint8"),
        Type::I2 => Some("int16"),
        Type::U2 => Some("uint16"),
        Type::I4 => Some("int32"),
        Type::U4 => Some("uint32"),
        Type::I8 => Some("int64"),
        Type::U8 => Some("uint64"),
        Type::R4 => Some("float32"),
        Type::R8 => Some("float64"),
        Type::String => Some("string"),
        Type::Object => Some("object"),
        Type::TypedByRef => Some("typedref"),
        Type::IntPtr => Some("native int"),
        Type::UIntPtr => Some("native uint"),
        _ => None,
    }
}

/// What the calling convention is spelled as.
pub open spec fn convention_text(c: CallConv) -> Seq<char> {
    match c {
        CallConv::Default => Seq::empty(),
        CallConv::Generic(_) => Seq::empty(),
        CallConv::VarArg => "vararg "@,
        CallConv::C => "unmanaged cdecl "@,
        CallConv::StdCall => "unmanaged stdcall "@,
        CallConv::ThisCall => "unmanaged thiscall "@,
        CallConv::FastCall => "unmanaged fastcall "@,
        CallConv::Unmanaged => "unmanaged "@,
        CallConv::NativeVarArg => "unmanaged vararg "@,
        CallConv::Field => "field "@,
        CallConv::LocalSig => "locals "@,
        CallConv::Property => "property "@,
        CallConv::GenericInst => "generic "@,
    }
}

/// Appends what the calling convention is spelled as.
fn push_convention(out: &mut String, c: CallConv)
    ensures
        final(out)@ == old(out)@ + convention_text(c),
{
    match c {
        CallConv::Default | CallConv::Generic(_) => {
            assert(out@ =~= old(out)@ + Seq::empty());
        },
        CallConv::VarArg => out.append("vararg "),
        CallConv::C => out.append("unmanaged cdecl "),
        CallConv::StdCall => out.append("unmanaged stdcall "),
        CallConv::ThisCall => out.append("unmanaged thiscall "),
        CallConv::FastCall => out.append("unmanaged fastcall "),
        CallConv::Unmanaged => out.append("unmanaged "),
        CallConv::NativeVarArg => out.append("unmanaged vararg "),
        CallConv::Field => out.append("field "),
        CallConv::LocalSig => out.append("locals "),
        CallConv::Property => out.append("property "),
        CallConv::GenericInst => out.append("generic "),
    }
}

/// What stands before the return type of a method signature.
pub open spec fn leading_text(sig: MethodSigModel) -> Seq<char> {
    (if sig.has_this {
        "instance "@
    } else {
        Seq::empty()
    }) + (if sig.explicit_this {
        "explicit "@
    } else {
        Seq::empty()
    }) + convention_text(sig.calling_convention)
}

/// The number of generic parameters behind the name of a method.
pub open spec fn arity_text(c: CallConv) -> Seq<char> {
    match c {
        CallConv::Generic(count) => "<"@ + text::decimal(count as nat) + ">"@,
        _ => Seq::empty(),
    }
}

/// A row as `Table[rid]`.
pub open spec fn row_text(table: TableId, rid: u32) -> Seq<char> {
    table.title()@ + "["@ + text::decimal(rid as nat) + "]"@
}

/// Renders a row as `Table[rid]`.
fn row_string(table: TableId, rid: u32) -> (s: String)
    ensures
        s@ == row_text(table, rid),
{
    let mut out = String::from_str(table.name());
    out.append("[");
    text::push_decimal(&mut out, rid as u64);
    out.append("]");
    out
}

/// The name of a token whose row cannot be resolved.
pub open spec fn unresolved(token: Token) -> Seq<char> {
    match TableId::of_number(token.high()) {
        Some(table) => row_text(table, token.row()),
        None => token.rendered(),
    }
}

/// A naming helper and how many token hops it has followed.
#[verifier::ext_equal]
pub struct NamesModel {
    /// The metadata.
    pub metadata: MetadataModel,
    /// The hops.
    pub depth: int,
}

/// The error for too many token hops.
pub open spec fn too_deep(context: &'static str) -> Error {
    Error { kind: ErrorKind::RecursionLimit, offset: None, context }
}

/// The grammar of a blob, with the recursion limit that is usual.
pub open spec fn grammar_of(blob: Seq<u8>) -> Grammar {
    Grammar::of(blob, (SignatureOptions { recursion_limit: 64 }))
}

impl NamesModel {
    /// The same helper, one hop deeper.
    pub open spec fn deeper(self) -> NamesModel {
        NamesModel { depth: self.depth + 1, ..self }
    }

    /// The string at `index`. One that cannot be read is an error, or where
    /// `lenient` empty.
    pub open spec fn string(self, lenient: bool, index: StringIndex) -> Result<Seq<char>> {
        match self.metadata.strings.lossy_text(index.0) {
            Err(_) if lenient => Ok(Seq::empty()),
            r => r,
        }
    }

    /// The blob at `index`.
    pub open spec fn blob(self, index: u32) -> Result<Seq<u8>> {
        match self.metadata.blobs.entry(index, "#Blob") {
            Ok((bytes, _)) => Ok(bytes),
            Err(e) => Err(e),
        }
    }

    /// The strings at `namespace` and at `name`, as one qualified name.
    pub open spec fn own_name(
        self,
        lenient: bool,
        namespace: StringIndex,
        name: StringIndex,
    ) -> Result<Seq<char>> {
        match self.string(lenient, namespace) {
            Err(e) => Err(e),
            Ok(space) => match self.string(lenient, name) {
                Err(e) => Err(e),
                Ok(own) => Ok(qualified(space, own)),
            },
        }
    }

    /// `before`, the string at `index`, and `after`.
    pub open spec fn around(
        self,
        lenient: bool,
        before: Seq<char>,
        index: StringIndex,
        after: Seq<char>,
    ) -> Result<Seq<char>> {
        match self.string(lenient, index) {
            Err(e) => Err(e),
            Ok(s) => Ok(before + s + after),
        }
    }

    /// `name` behind the types that enclose the type `current`, of which at
    /// most `hops` are followed.
    pub open spec fn enclosed(
        self,
        lenient: bool,
        name: Seq<char>,
        current: u32,
        hops: nat,
    ) -> Result<Seq<char>>
        decreases hops,
    {
        if hops == 0 {
            Ok(name)
        } else {
            match self.metadata.tables.first_with_key(TableId::NestedClass, current, 1) {
                None => Ok(name),
                Some(outer) => if outer == 0 || outer == current {
                    Ok(name)
                } else {
                    match self.metadata.tables.row_indirect::<TypeDefRow>(outer) {
                        Err(e) => Err(e),
                        Ok(row) => match self.own_name(lenient, row.type_namespace, row.name) {
                            Err(e) => Err(e),
                            Ok(own) => self.enclosed(
                                lenient,
                                own + "/"@ + name,
                                outer,
                                (hops - 1) as nat,
                            ),
                        },
                    }
                },
            }
        }
    }

    /// The qualified name of a `TypeDef`. Enclosing types are followed no more
    /// often than there are `NestedClass` rows.
    pub open spec fn type_def(self, lenient: bool, rid: u32) -> Result<Seq<char>> {
        match self.metadata.tables.row_indirect::<TypeDefRow>(rid) {
            Err(e) => Err(e),
            Ok(row) => match self.own_name(lenient, row.type_namespace, row.name) {
                Err(e) => Err(e),
                Ok(own) => self.enclosed(
                    lenient,
                    own,
                    rid,
                    self.metadata.tables.row_count(TableId::NestedClass) as nat,
                ),
            },
        }
    }

    /// The qualified name of a `TypeRef`, behind its scope.
    pub open spec fn type_ref(self, lenient: bool, rid: u32) -> Result<Seq<char>>
        decreases 33 - self.depth,
    {
        if self.depth >= 32 {
            Err(too_deep("TypeRef"))
        } else {
            match self.metadata.tables.row_indirect::<TypeRefRow>(rid) {
                Err(e) => Err(e),
                Ok(row) => match self.own_name(lenient, row.type_namespace, row.name) {
                    Err(e) => Err(e),
                    Ok(name) => {
                        let scope = row.resolution_scope;
                        let table = TableId::of_number(scope.high());
                        if scope.row() == 0 {
                            Ok(name)
                        } else if table == Some(TableId::AssemblyRef) {
                            match self.assembly_ref(lenient, scope.row()) {
                                Err(e) => Err(e),
                                Ok(assembly) => Ok(assembly + name),
                            }
                        } else if table == Some(TableId::ModuleRef) {
                            match self.module_ref(lenient, scope.row()) {
                                Err(e) => Err(e),
                                Ok(module) => Ok(module + name),
                            }
                        } else if table == Some(TableId::TypeRef) {
                            match self.deeper().type_ref(lenient, scope.row()) {
                                Err(e) => Err(e),
                                Ok(outer) => Ok(outer + "/"@ + name),
                            }
                        } else {
                            Ok(name)
                        }
                    },
                },
            }
        }
    }

    /// The type that owns a member, named; `?` where there is none.
    pub open spec fn owner(self, owner: Option<u32>) -> Result<Seq<char>> {
        match owner {
            Some(rid) => self.type_def(false, rid),
            None => Ok("?"@),
        }
    }

    /// The type that owns a member, named, and behind it the string at `name`.
    pub open spec fn member(self, owner: Option<u32>, name: StringIndex) -> Result<Seq<char>> {
        match self.owner(owner) {
            Err(e) => Err(e),
            Ok(o) => self.around(false, o + "::"@, name, Seq::empty()),
        }
    }

    /// The name of a method.
    pub open spec fn method_def(self, rid: u32) -> Result<Seq<char>> {
        match self.metadata.tables.row_indirect::<MethodDefRow>(rid) {
            Err(e) => Err(e),
            Ok(row) => self.member(
                self.metadata.tables.owner(TableId::TypeDef, 5, TableId::MethodDef, rid),
                row.name,
            ),
        }
    }

    /// The name of a field.
    pub open spec fn field(self, rid: u32) -> Result<Seq<char>> {
        match self.metadata.tables.row_indirect::<FieldRow>(rid) {
            Err(e) => Err(e),
            Ok(row) => self.member(
                self.metadata.tables.owner(TableId::TypeDef, 4, TableId::Field, rid),
                row.name,
            ),
        }
    }

    /// The name of a `ModuleRef`.
    pub open spec fn module_ref(self, lenient: bool, rid: u32) -> Result<Seq<char>> {
        match self.metadata.tables.row_indirect::<ModuleRefRow>(rid) {
            Err(e) => Err(e),
            Ok(row) => self.around(lenient, "[.module "@, row.name, "]"@),
        }
    }

    /// The name of an `AssemblyRef`.
    pub open spec fn assembly_ref(self, lenient: bool, rid: u32) -> Result<Seq<char>> {
        match self.metadata.tables.row_indirect::<AssemblyRefRow>(rid) {
            Err(e) => Err(e),
            Ok(row) => self.around(lenient, "["@, row.name, "]"@),
        }
    }

    /// The name of any token. One that cannot be resolved is named by its row.
    pub open spec fn token(self, token: Token) -> Seq<char>
        decreases 33 - self.depth, 1int, 0int, TypeModel::Sentinel,
    {
        match self.resolved(token) {
            Ok(name) => name,
            Err(_) => unresolved(token),
        }
    }

    /// The name of a `TypeSpec`: its type, where its signature can be parsed.
    pub open spec fn type_spec(self, rid: u32) -> Result<Seq<char>>
        decreases 33 - self.depth, 4int, 0int, TypeModel::Sentinel,
    {
        match self.metadata.tables.row_indirect::<TypeSpecRow>(rid) {
            Err(e) => Err(e),
            Ok(row) => match self.blob(row.signature.0) {
                Err(e) => Err(e),
                Ok(blob) => match grammar_of(blob).type_spec_sig() {
                    Ok(sig) => Ok(self.type_text(sig.ty)),
                    Err(_) => Ok(row_text(TableId::TypeSpec, rid)),
                },
            },
        }
    }

    /// The name of a `MemberRef`.
    pub open spec fn member_ref(self, rid: u32) -> Result<Seq<char>>
        decreases 33 - self.depth, 4int, 0int, TypeModel::Sentinel,
    {
        match self.metadata.tables.row_indirect::<MemberRefRow>(rid) {
            Err(e) => Err(e),
            Ok(row) => self.around(false, self.token(row.class) + "::"@, row.name, Seq::empty()),
        }
    }

    /// The name of a `MethodSpec`: the method, and the type arguments where
    /// their signature can be parsed.
    pub open spec fn method_spec(self, rid: u32) -> Result<Seq<char>>
        decreases 33 - self.depth, 4int, 0int, TypeModel::Sentinel,
    {
        match self.metadata.tables.row_indirect::<MethodSpecRow>(rid) {
            Err(e) => Err(e),
            Ok(row) => match self.blob(row.instantiation.0) {
                Err(e) => Err(e),
                Ok(blob) => match grammar_of(blob).method_spec_sig() {
                    Ok(sig) => Ok(
                        self.token(row.method) + "<"@ + text::joined(
                            self.type_texts(sig.args),
                            ", "@,
                        ) + ">"@,
                    ),
                    Err(_) => Ok(self.token(row.method)),
                },
            },
        }
    }

    /// The name of a token, or why its row or heap entry cannot be read.
    pub open spec fn resolved(self, token: Token) -> Result<Seq<char>>
        decreases 33 - self.depth, 0int, 0int, TypeModel::Sentinel,
    {
        let rid = token.row();
        if self.depth >= 32 {
            Err(too_deep("token"))
        } else {
            match TableId::of_number(token.high()) {
                Some(TableId::TypeDef) => self.type_def(false, rid),
                Some(TableId::TypeRef) => self.deeper().type_ref(false, rid),
                Some(TableId::TypeSpec) => self.deeper().type_spec(rid),
                Some(TableId::MethodDef) => self.method_def(rid),
                Some(TableId::Field) => self.field(rid),
                Some(TableId::MemberRef) => self.deeper().member_ref(rid),
                Some(TableId::MethodSpec) => self.deeper().method_spec(rid),
                Some(TableId::ModuleRef) => self.module_ref(false, rid),
                Some(TableId::AssemblyRef) => self.assembly_ref(false, rid),
                _ => Ok(unresolved(token)),
            }
        }
    }

    /// A modifier in suffix position.
    pub open spec fn mod_text(self, m: CustomMod) -> Seq<char>
        decreases 33 - self.depth, 2int, 0int, TypeModel::Sentinel,
    {
        (if m.required {
            " modreq("@
        } else {
            " modopt("@
        }) + self.token(m.type_token) + ")"@
    }

    /// The first `n` of `mods` in suffix position: the first modifier of the
    /// blob is the outermost, and so comes last.
    pub open spec fn mods_text(self, mods: Seq<CustomMod>, n: nat) -> Seq<char>
        decreases 33 - self.depth, 2int, n + 1, TypeModel::Sentinel,
    {
        if n == 0 {
            Seq::empty()
        } else {
            self.mod_text(mods[n - 1]) + self.mods_text(mods, (n - 1) as nat)
        }
    }

    /// All of `mods` in suffix position.
    pub open spec fn all_mods_text(self, mods: Seq<CustomMod>) -> Seq<char> {
        self.mods_text(mods, mods.len())
    }

    /// Each of `types`.
    pub open spec fn type_texts(self, types: Seq<TypeModel>) -> Seq<Seq<char>>
        decreases 33 - self.depth, 3int, 0int, types,
    {
        Seq::new(
            types.len(),
            |i: int|
                if 0 <= i < types.len() {
                    self.type_text(types[i])
                } else {
                    Seq::empty()
                },
        )
    }

    /// A type in ILAsm style.
    pub open spec fn type_text(self, t: TypeModel) -> Seq<char>
        decreases 33 - self.depth, 3int, 0int, t,
    {
        match t {
            TypeModel::Plain(b) => plain_text(b),
            TypeModel::Ptr(mods, inner) => self.type_text(*inner) + self.mods_text(
                mods,
                mods.len(),
            ) + "*"@,
            TypeModel::ByRef(inner) => self.type_text(*inner) + "&"@,
            TypeModel::ValueType(token) => "valuetype "@ + self.token(token),
            TypeModel::Class(token) => "class "@ + self.token(token),
            TypeModel::Var(index) => "!"@ + text::decimal(index as nat),
            TypeModel::MVar(index) => "!!"@ + text::decimal(index as nat),
            TypeModel::SzArray(mods, inner) => self.type_text(*inner) + self.mods_text(
                mods,
                mods.len(),
            ) + "[]"@,
            TypeModel::Array(inner, shape) => self.type_text(*inner) + shape_text(shape),
            TypeModel::GenericInst { is_value_type, def, args } => (if is_value_type {
                "valuetype "@
            } else {
                "class "@
            }) + self.token(def) + "<"@ + text::joined(self.type_texts(args), ", "@) + ">"@,
            TypeModel::FnPtr(sig) => "method "@ + self.method_sig_text(*sig, ""@),
            TypeModel::Modified(mods, inner) => self.type_text(*inner) + self.mods_text(
                mods,
                mods.len(),
            ),
            TypeModel::Pinned(inner) => self.type_text(*inner) + " pinned"@,
            TypeModel::Sentinel => "..."@,
            TypeModel::Internal(value) => "internal("@ + text::hex(value as nat) + ")"@,
        }
    }

    /// A parameter or return type. Its modifiers modify the reference rather
    /// than the type, and so come last.
    pub open spec fn param_text(self, param: ParamModel) -> Seq<char>
        decreases 33 - self.depth, 3int, 0int, param,
    {
        self.type_text(param.ty) + (if param.by_ref {
            "&"@
        } else {
            Seq::empty()
        }) + self.mods_text(param.custom_mods, param.custom_mods.len())
    }

    /// Each of `params`.
    pub open spec fn param_texts(self, params: Seq<ParamModel>) -> Seq<Seq<char>>
        decreases 33 - self.depth, 3int, 0int, params,
    {
        Seq::new(
            params.len(),
            |i: int|
                if 0 <= i < params.len() {
                    self.param_text(params[i])
                } else {
                    Seq::empty()
                },
        )
    }

    /// A method signature in ILAsm style, with the given name.
    pub open spec fn method_sig_text(self, sig: MethodSigModel, name: Seq<char>) -> Seq<char>
        decreases 33 - self.depth, 3int, 0int, sig,
    {
        let fixed = self.param_texts(sig.params);
        let parts = if sig.vararg_params.len() == 0 {
            fixed
        } else {
            fixed.push("..."@) + self.param_texts(sig.vararg_params)
        };
        leading_text(sig) + self.param_text(sig.return_type) + " "@ + name + arity_text(
            sig.calling_convention,
        ) + "("@ + text::joined(parts, ", "@) + ")"@
    }

    /// A field type, modifiers behind.
    pub open spec fn field_sig_text(self, sig: FieldSigModel) -> Seq<char> {
        self.type_text(sig.ty) + self.all_mods_text(sig.custom_mods)
    }

    /// A local variable: the type, the reference, the constraint, and outermost
    /// the modifiers before it.
    pub open spec fn local_text(self, local: LocalVarModel) -> Seq<char> {
        self.type_text(local.ty) + (if local.by_ref {
            "&"@
        } else {
            Seq::empty()
        }) + (if local.pinned {
            " pinned"@
        } else {
            Seq::empty()
        }) + self.all_mods_text(local.custom_mods)
    }

    /// The full name of a method, its signature around it where that can be
    /// parsed.
    pub open spec fn method_def_full(self, rid: u32) -> Result<Seq<char>> {
        match self.metadata.tables.row_indirect::<MethodDefRow>(rid) {
            Err(e) => Err(e),
            Ok(row) => match self.blob(row.signature.0) {
                Err(e) => Err(e),
                Ok(blob) => {
                    let name = self.token(Token::of(TableId::MethodDef, rid));
                    match grammar_of(blob).method_sig() {
                        Ok(sig) => Ok(self.method_sig_text(sig, name)),
                        Err(_) => Ok(name),
                    }
                },
            },
        }
    }
}

/// A naming helper bound to one metadata region.
///
/// Token resolution is recursive: a `TypeSpec` names types that may be other
/// `TypeSpec`s, and a `TypeRef` may be scoped to another `TypeRef`. Hostile
/// metadata can make those references cyclic, so every step carries a depth
/// that is capped at [`Names::MAX_DEPTH`]; beyond it a name renders as
/// `Table[rid]` rather than recursing again.
#[derive(Clone, Copy, Debug)]
pub struct Names<'m, 'a> {
    metadata: &'m Metadata<'a>,
    depth: u32,
}

impl<'m, 'a> View for Names<'m, 'a> {
    type V = NamesModel;

    closed spec fn view(&self) -> NamesModel {
        NamesModel { metadata: self.metadata@, depth: self.depth as int }
    }
}

impl<'m, 'a> Names<'m, 'a> {
    /// The maximum number of token hops a single name may follow.
    pub const MAX_DEPTH: u32 = 32;

    /// Binds the helper to a metadata region.
    pub fn new(metadata: &'m Metadata<'a>) -> (names: Self)
        ensures
            names@ == (NamesModel { metadata: metadata@, depth: 0 }),
    {
        Names { metadata, depth: 0 }
    }

    /// The same helper, one hop deeper.
    fn deeper(&self) -> (names: Self)
        requires
            self.depth < Self::MAX_DEPTH,
        ensures
            names@ == self@.deeper(),
            names.depth == self.depth + 1,
    {
        Names { metadata: self.metadata, depth: self.depth + 1 }
    }

    /// The string at `index`. One that cannot be read is an error, or where
    /// `lenient` empty.
    fn string(&self, lenient: bool, index: StringIndex) -> (r: Result<String>)
        ensures
            r matches Ok(s) ==> self@.string(lenient, index) == Ok::<Seq<char>, Error>(s@),
            r matches Err(e) ==> self@.string(lenient, index) == Err::<Seq<char>, Error>(e),
    {
        match self.metadata.strings().lossy(index) {
            Ok(s) => Ok(s),
            Err(e) => if lenient {
                Ok(String::new())
            } else {
                Err(e)
            },
        }
    }

    /// The strings at `namespace` and at `name`, as one qualified name.
    fn own_name(&self, lenient: bool, namespace: StringIndex, name: StringIndex) -> (r: Result<
        String,
    >)
        ensures
            r matches Ok(s) ==> self@.own_name(lenient, namespace, name) == Ok::<Seq<char>, Error>(
                s@,
            ),
            r matches Err(e) ==> self@.own_name(lenient, namespace, name) == Err::<
                Seq<char>,
                Error,
            >(e),
    {
        let space = self.string(lenient, namespace)?;
        let own = self.string(lenient, name)?;
        Ok(qualify(space.as_str(), own.as_str()))
    }

    /// The qualified name of a `TypeDef`, with `/` separating nested types.
    ///
    /// It fails when a row cannot be read; a part of the name whose heap entry
    /// cannot be read is empty.
    pub fn type_def(&self, rid: Rid<marker::TypeDef>) -> (r: Result<String>)
        ensures
            r matches Ok(s) ==> self@.type_def(true, rid.number()) == Ok::<Seq<char>, Error>(s@),
            r matches Err(e) ==> self@.type_def(true, rid.number()) == Err::<Seq<char>, Error>(e),
    {
        self.type_def_name(true, rid)
    }

    fn type_def_name(&self, lenient: bool, rid: Rid<marker::TypeDef>) -> (r: Result<String>)
        ensures
            r matches Ok(s) ==> self@.type_def(lenient, rid.number()) == Ok::<Seq<char>, Error>(s@),
            r matches Err(e) ==> self@.type_def(lenient, rid.number()) == Err::<Seq<char>, Error>(
                e,
            ),
    {
        let tables = self.metadata.tables();
        let row: TypeDefRow = tables.type_def(rid.get())?;
        let mut name = self.own_name(lenient, row.type_namespace, row.name)?;
        // Walk outwards through `NestedClass`, bounded by the table row count
        // so that a cycle cannot loop forever.
        let mut current: u32 = rid.get();
        let mut hops: u32 = tables.row_count(TableId::NestedClass);
        let ghost model = self@;
        while hops > 0
            invariant
                model == self@,
                tables@ == model.metadata.tables,
                model.type_def(lenient, rid.number()) == model.enclosed(
                    lenient,
                    name@,
                    current,
                    hops as nat,
                ),
            decreases hops,
        {
            broadcast use crate::token::lemma_rid_number;

            let outer: u32 = match tables.enclosing_type(Rid::new(current))? {
                Some(outer) => outer.get(),
                None => {
                    return Ok(name);
                },
            };
            if outer == 0 || outer == current {
                return Ok(name);
            }
            let outer_row: TypeDefRow = tables.type_def(outer)?;
            let mut longer = self.own_name(lenient, outer_row.type_namespace, outer_row.name)?;
            longer.append("/");
            longer.append(name.as_str());
            name = longer;
            current = outer;
            hops = hops - 1;
        }
        Ok(name)
    }

    /// The qualified name of a `TypeRef`, prefixed with its scope.
    ///
    /// It fails when a row cannot be read; a part of the name whose heap entry
    /// cannot be read is empty.
    pub fn type_ref(&self, rid: Rid<marker::TypeRef>) -> (r: Result<String>)
        ensures
            r matches Ok(s) ==> self@.type_ref(true, rid.number()) == Ok::<Seq<char>, Error>(s@),
            r matches Err(e) ==> self@.type_ref(true, rid.number()) == Err::<Seq<char>, Error>(e),
    {
        self.type_ref_name(true, rid)
    }

    fn type_ref_name(&self, lenient: bool, rid: Rid<marker::TypeRef>) -> (r: Result<String>)
        ensures
            r matches Ok(s) ==> self@.type_ref(lenient, rid.number()) == Ok::<Seq<char>, Error>(s@),
            r matches Err(e) ==> self@.type_ref(lenient, rid.number()) == Err::<Seq<char>, Error>(
                e,
            ),
        decreases 33 - self@.depth,
    {
        if self.depth >= Self::MAX_DEPTH {
            return Err(Error::detached(ErrorKind::RecursionLimit, "TypeRef"));
        }
        let tables = self.metadata.tables();
        let row: TypeRefRow = tables.type_ref(rid.get())?;
        let name = self.own_name(lenient, row.type_namespace, row.name)?;
        let scope: Token = row.resolution_scope;
        if scope.is_null() {
            return Ok(name);
        }
        match scope.table() {
            Some(TableId::AssemblyRef) => {
                let mut out = self.assembly_ref(lenient, scope.rid())?;
                out.append(name.as_str());
                Ok(out)
            },
            Some(TableId::ModuleRef) => {
                let mut out = self.module_ref(lenient, scope.rid())?;
                out.append(name.as_str());
                Ok(out)
            },
            Some(TableId::TypeRef) => {
                let mut out = self.deeper().type_ref_name(lenient, Rid::new(scope.rid()))?;
                out.append("/");
                out.append(name.as_str());
                Ok(out)
            },
            _ => Ok(name),
        }
    }

    /// The name of the type that owns a member, and behind it that of the
    /// member.
    fn member(&self, owner: Option<Rid<marker::TypeDef>>, name: StringIndex) -> (r: Result<String>)
        ensures
            r matches Ok(s) ==> self@.member(rid_number(owner), name) == Ok::<Seq<char>, Error>(s@),
            r matches Err(e) ==> self@.member(rid_number(owner), name) == Err::<Seq<char>, Error>(e),
    {
        let mut out = match owner {
            Some(type_def) => self.type_def_name(false, type_def)?,
            None => String::from_str("?"),
        };
        out.append("::");
        out.append(self.string(false, name)?.as_str());
        assert(out@ =~= out@ + Seq::<char>::empty());
        Ok(out)
    }

    fn method_def(&self, rid: u32) -> (r: Result<String>)
        ensures
            r matches Ok(s) ==> self@.method_def(rid) == Ok::<Seq<char>, Error>(s@),
            r matches Err(e) ==> self@.method_def(rid) == Err::<Seq<char>, Error>(e),
    {
        broadcast use crate::token::lemma_rid_number;

        let tables = self.metadata.tables();
        let row: MethodDefRow = tables.method_def(rid)?;
        let owner = tables.type_of_method(Rid::new(rid))?;
        self.member(owner, row.name)
    }

    fn field(&self, rid: u32) -> (r: Result<String>)
        ensures
            r matches Ok(s) ==> self@.field(rid) == Ok::<Seq<char>, Error>(s@),
            r matches Err(e) ==> self@.field(rid) == Err::<Seq<char>, Error>(e),
    {
        broadcast use crate::token::lemma_rid_number;

        let tables = self.metadata.tables();
        let row: FieldRow = tables.field(rid)?;
        let owner = tables.type_of_field(Rid::new(rid))?;
        self.member(owner, row.name)
    }

    fn module_ref(&self, lenient: bool, rid: u32) -> (r: Result<String>)
        ensures
            r matches Ok(s) ==> self@.module_ref(lenient, rid) == Ok::<Seq<char>, Error>(s@),
            r matches Err(e) ==> self@.module_ref(lenient, rid) == Err::<Seq<char>, Error>(e),
    {
        let row: ModuleRefRow = self.metadata.tables().module_ref(rid)?;
        let mut out = String::from_str("[.module ");
        out.append(self.string(lenient, row.name)?.as_str());
        out.append("]");
        Ok(out)
    }

    fn assembly_ref(&self, lenient: bool, rid: u32) -> (r: Result<String>)
        ensures
            r matches Ok(s) ==> self@.assembly_ref(lenient, rid) == Ok::<Seq<char>, Error>(s@),
            r matches Err(e) ==> self@.assembly_ref(lenient, rid) == Err::<Seq<char>, Error>(e),
    {
        let row: AssemblyRefRow = self.metadata.tables().assembly_ref(rid)?;
        let mut out = String::from_str("[");
        out.append(self.string(lenient, row.name)?.as_str());
        out.append("]");
        Ok(out)
    }

    /// The name of any token this crate can resolve.
    ///
    /// Unresolvable tokens render as `Table[rid]` rather than failing, so this
    /// is safe to call from an error path.
    pub fn token(&self, token: Token) -> (s: String)
        ensures
            s@ == self@.token(token),
        decreases 33 - self@.depth, 1int, 0int, TypeModel::Sentinel,
    {
        match self.try_token(token) {
            Ok(name) => name,
            Err(_) => unresolved_string(token),
        }
    }

    fn type_spec(&self, rid: u32) -> (r: Result<String>)
        ensures
            r matches Ok(s) ==> self@.type_spec(rid) == Ok::<Seq<char>, Error>(s@),
            r matches Err(e) ==> self@.type_spec(rid) == Err::<Seq<char>, Error>(e),
        decreases 33 - self@.depth, 4int, 0int, TypeModel::Sentinel,
    {
        let row: TypeSpecRow = self.metadata.tables().type_spec(rid)?;
        let blob = self.metadata.blobs().get(row.signature)?;
        match TypeSpecSig::parse(blob) {
            Ok(sig) => Ok(self.type_(&sig.type_)),
            Err(_) => Ok(row_string(TableId::TypeSpec, rid)),
        }
    }

    fn member_ref(&self, rid: u32) -> (r: Result<String>)
        ensures
            r matches Ok(s) ==> self@.member_ref(rid) == Ok::<Seq<char>, Error>(s@),
            r matches Err(e) ==> self@.member_ref(rid) == Err::<Seq<char>, Error>(e),
        decreases 33 - self@.depth, 4int, 0int, TypeModel::Sentinel,
    {
        let row: MemberRefRow = self.metadata.tables().member_ref(rid)?;
        let mut out = self.token(row.class);
        out.append("::");
        out.append(self.string(false, row.name)?.as_str());
        assert(out@ =~= out@ + Seq::<char>::empty());
        Ok(out)
    }

    fn method_spec(&self, rid: u32) -> (r: Result<String>)
        ensures
            r matches Ok(s) ==> self@.method_spec(rid) == Ok::<Seq<char>, Error>(s@),
            r matches Err(e) ==> self@.method_spec(rid) == Err::<Seq<char>, Error>(e),
        decreases 33 - self@.depth, 4int, 0int, TypeModel::Sentinel,
    {
        let row: MethodSpecRow = self.metadata.tables().method_spec(rid)?;
        let mut out = self.token(row.method);
        let blob = self.metadata.blobs().get(row.instantiation)?;
        match MethodSpecSig::parse(blob) {
            Ok(sig) => {
                out.append("<");
                out.append(text::join(&self.types(&sig.args), ", ").as_str());
                out.append(">");
                Ok(out)
            },
            Err(_) => Ok(out),
        }
    }

    /// The name of a token, failing when a row or heap entry cannot be read.
    pub fn try_token(&self, token: Token) -> (r: Result<String>)
        ensures
            r matches Ok(s) ==> self@.resolved(token) == Ok::<Seq<char>, Error>(s@),
            r matches Err(e) ==> self@.resolved(token) == Err::<Seq<char>, Error>(e),
        decreases 33 - self@.depth, 0int, 0int, TypeModel::Sentinel,
    {
        if self.depth >= Self::MAX_DEPTH {
            return Err(Error::detached(ErrorKind::RecursionLimit, "token"));
        }
        let deeper = self.deeper();
        let rid: u32 = token.rid();
        match token.table() {
            Some(TableId::TypeDef) => self.type_def_name(false, Rid::new(rid)),
            Some(TableId::TypeRef) => deeper.type_ref_name(false, Rid::new(rid)),
            Some(TableId::TypeSpec) => deeper.type_spec(rid),
            Some(TableId::MethodDef) => self.method_def(rid),
            Some(TableId::Field) => self.field(rid),
            Some(TableId::MemberRef) => deeper.member_ref(rid),
            Some(TableId::MethodSpec) => deeper.method_spec(rid),
            Some(TableId::ModuleRef) => self.module_ref(false, rid),
            Some(TableId::AssemblyRef) => self.assembly_ref(false, rid),
            _ => Ok(unresolved_string(token)),
        }
    }

    /// Renders a modifier in suffix position.
    #[verifier::rlimit(50)]
    fn push_mod(&self, out: &mut String, m: CustomMod)
        ensures
            final(out)@ == old(out)@ + self@.mod_text(m),
        decreases 33 - self@.depth, 2int, 0int, TypeModel::Sentinel,
    {
        out.append(
            if m.required {
                " modreq("
            } else {
                " modopt("
            },
        );
        out.append(self.token(m.type_token).as_str());
        out.append(")");
        assert(out@ =~= old(out)@ + self@.mod_text(m));
    }

    /// Renders a modifier list in suffix position.
    ///
    /// `CustomMod* Type` nests: the first modifier in the blob wraps everything
    /// after it, so it is the outermost and is spelled *last* in the ILAsm
    /// suffix form. `20 47 20 32 12 17` therefore prints as
    /// `class T modopt(32) modopt(47)`, which is the order ILDASM and
    /// System.Reflection.Metadata both use.
    ///
    /// [`CustomMod`] lists stay in blob order, so a caller that needs the
    /// encoded order still has it.
    fn push_mods(&self, out: &mut String, mods: &Vec<CustomMod>)
        ensures
            final(out)@ == old(out)@ + self@.all_mods_text(mods@),
        decreases 33 - self@.depth, 2int, 1int, TypeModel::Sentinel,
    {
        let ghost before = out@;
        let ghost all = self@.all_mods_text(mods@);
        let ghost model = self@;
        let mut i: usize = mods.len();
        assert(out@ + all =~= before + all);
        while i > 0
            invariant
                i <= mods.len(),
                model == self@,
                out@ + model.mods_text(mods@, i as nat) == before + all,
            decreases i,
        {
            let ghost had = out@;
            self.push_mod(out, mods[i - 1]);
            assert(out@ + model.mods_text(mods@, (i - 1) as nat) =~= had + model.mods_text(
                mods@,
                i as nat,
            ));
            i = i - 1;
        }
        assert(out@ =~= out@ + model.mods_text(mods@, 0));
    }

    /// Renders each of `types`.
    fn types(&self, types: &Vec<Type<'_>>) -> (list: Vec<String>)
        ensures
            text::texts(list@) == self@.type_texts(crate::signature::type_models(types@)),
        decreases 33 - self@.depth, 3int, 0int, types,
    {
        let ghost models = crate::signature::type_models(types@);
        let ghost model = self@;
        let mut list: Vec<String> = Vec::new();
        let mut i: usize = 0;
        while i < types.len()
            invariant
                i <= types.len(),
                model == self@,
                models == crate::signature::type_models(types@),
                list@.len() == i,
                forall|k: int| 0 <= k < i ==> (#[trigger] list@[k])@ == model.type_text(models[k]),
            decreases types.len() - i,
        {
            let s = self.type_(&types[i]);
            list.push(s);
            i = i + 1;
        }
        assert(text::texts(list@) =~= model.type_texts(models));
        list
    }

    /// An ILAsm-style rendering of a type.
    pub fn type_(&self, type_: &Type<'_>) -> (s: String)
        ensures
            s@ == self@.type_text(type_.model()),
        decreases 33 - self@.depth, 3int, 0int, type_,
    {
        if let Some(name) = plain_name(type_) {
            return String::from_str(name);
        }
        match type_ {
            Type::Ptr(mods, inner) => {
                let mut out = self.type_(&**inner);
                self.push_mods(&mut out, mods);
                out.append("*");
                out
            },
            Type::ByRef(inner) => {
                let mut out = self.type_(&**inner);
                out.append("&");
                out
            },
            Type::SzArray(mods, inner) => {
                let mut out = self.type_(&**inner);
                self.push_mods(&mut out, mods);
                out.append("[]");
                out
            },
            Type::Array(inner, shape) => {
                let mut out = self.type_(&**inner);
                out.append(shape_string(shape).as_str());
                out
            },
            Type::Modified(mods, inner) => {
                let mut out = self.type_(&**inner);
                self.push_mods(&mut out, mods);
                out
            },
            Type::Pinned(inner) => {
                let mut out = self.type_(&**inner);
                out.append(" pinned");
                out
            },
            Type::GenericInst { is_value_type, def, args } => {
                let mut out = String::from_str(
                    if *is_value_type {
                        "valuetype "
                    } else {
                        "class "
                    },
                );
                out.append(self.token(*def).as_str());
                out.append("<");
                out.append(text::join(&self.types(args), ", ").as_str());
                out.append(">");
                out
            },
            // A function-pointer type has no name of its own, so the
            // signature is rendered with an empty one.
            Type::FnPtr(sig) => {
                let mut out = String::from_str("method ");
                out.append(self.method_sig(&**sig, "").as_str());
                out
            },
            _ => self.leaf(type_),
        }
    }

    /// Renders a type that holds no other.
    fn leaf(&self, type_: &Type<'_>) -> (s: String)
        requires
            type_ is ValueType || type_ is Class || type_ is Var || type_ is MVar
                || type_ is Sentinel || type_ is Internal,
        ensures
            s@ == self@.type_text(type_.model()),
        decreases 33 - self@.depth, 2int, 0int, TypeModel::Sentinel,
    {
        let mut out = String::new();
        match type_ {
            Type::ValueType(token) => {
                out.append("valuetype ");
                out.append(self.token(*token).as_str());
            },
            Type::Class(token) => {
                out.append("class ");
                out.append(self.token(*token).as_str());
            },
            Type::Var(index) => {
                out.append("!");
                text::push_decimal(&mut out, *index as u64);
            },
            Type::MVar(index) => {
                out.append("!!");
                text::push_decimal(&mut out, *index as u64);
            },
            Type::Internal(value) => {
                out.append("internal(");
                text::push_hex(&mut out, *value as u64);
                out.append(")");
            },
            _ => {
                out.append("...");
            },
        }
        assert(out@ =~= self@.type_text(type_.model()));
        out
    }

    /// An ILAsm-style rendering of a field type, modifiers included.
    pub fn field_sig(&self, sig: &FieldSig<'_>) -> (s: String)
        ensures
            s@ == self@.field_sig_text(sig.model()),
    {
        let mut out = self.type_(&sig.type_);
        self.push_mods(&mut out, &sig.custom_mods);
        out
    }

    /// An ILAsm-style rendering of a local variable slot.
    ///
    /// `LocalVar ::= CustomMod* Constraint* [BYREF] Type` (II.23.2.6), so the
    /// pieces nest outward from the type: any modifiers that follow the `BYREF`
    /// belong to the type itself and [`Names::type_`] prints them, then the
    /// `&`, then `pinned`, and outermost the modifiers that preceded it.
    ///
    /// A C++/CLI pinned local reads `char modopt(IsConst)& pinned
    /// modopt(IsExplicitlyDereferenced)`: two modifier groups on opposite sides
    /// of the `&`. Getting that order wrong is easy and silent, which is why it
    /// lives here rather than in each caller.
    pub fn local(&self, local: &LocalVar<'_>) -> (s: String)
        ensures
            s@ == self@.local_text(local.model()),
    {
        let mut out = self.type_(&local.type_);
        let ghost name = out@;
        if local.by_ref {
            out.append("&");
        }
        if local.pinned {
            out.append(" pinned");
        }
        self.push_mods(&mut out, &local.custom_mods);
        assert(out@ =~= self@.local_text(local.model()));
        out
    }

    /// An ILAsm-style rendering of one parameter or return type.
    pub fn param(&self, param: &Param<'_>) -> (s: String)
        ensures
            s@ == self@.param_text(param.model()),
        decreases 33 - self@.depth, 3int, 0int, param,
    {
        // `Param ::= CustomMod* [BYREF] Type` (II.23.2.10): the modifiers
        // precede the `BYREF`, so they modify the managed reference rather than
        // the type it points at, and ILAsm spells them after the `&`.
        let mut out = self.type_(&param.type_);
        if param.by_ref {
            out.append("&");
        }
        self.push_mods(&mut out, &param.custom_mods);
        assert(out@ =~= self@.param_text(param.model()));
        out
    }

    /// Renders each of `params`.
    fn params(&self, params: &Vec<Param<'_>>) -> (list: Vec<String>)
        ensures
            text::texts(list@) == self@.param_texts(crate::signature::param_models(params@)),
        decreases 33 - self@.depth, 3int, 0int, params,
    {
        let ghost models = crate::signature::param_models(params@);
        let ghost model = self@;
        let mut list: Vec<String> = Vec::new();
        let mut i: usize = 0;
        while i < params.len()
            invariant
                i <= params.len(),
                model == self@,
                models == crate::signature::param_models(params@),
                list@.len() == i,
                forall|k: int| 0 <= k < i ==> (#[trigger] list@[k])@ == model.param_text(models[k]),
            decreases params.len() - i,
        {
            let s = self.param(&params[i]);
            list.push(s);
            i = i + 1;
        }
        assert(text::texts(list@) =~= model.param_texts(models));
        list
    }

    /// An ILAsm-style rendering of a method signature with the given name.
    pub fn method_sig(&self, sig: &MethodSig<'_>, name: &str) -> (s: String)
        ensures
            s@ == self@.method_sig_text(sig.model(), name@),
        decreases 33 - self@.depth, 3int, 0int, sig,
    {
        let mut out = String::new();
        if sig.has_this {
            out.append("instance ");
        }
        if sig.explicit_this {
            out.append("explicit ");
        }
        push_convention(&mut out, sig.calling_convention);
        assert(out@ =~= leading_text(sig.model()));
        out.append(self.param(&sig.return_type).as_str());
        out.append(" ");
        out.append(name);
        let ghost named = out@;
        if let CallConv::Generic(count) = sig.calling_convention {
            out.append("<");
            text::push_decimal(&mut out, count as u64);
            out.append(">");
        }
        assert(out@ =~= named + arity_text(sig.calling_convention));
        let mut parts = self.params(&sig.params);
        if sig.vararg_params.len() > 0 {
            let ghost fixed = text::texts(parts@);
            let dots = String::from_str("...");
            parts.push(dots);
            assert(text::texts(parts@) =~= fixed.push("..."@));
            let ghost dotted = text::texts(parts@);
            let mut extra = self.params(&sig.vararg_params);
            let ghost behind = text::texts(extra@);
            parts.append(&mut extra);
            assert(text::texts(parts@) =~= dotted + behind);
        }
        out.append("(");
        out.append(text::join(&parts, ", ").as_str());
        out.append(")");
        out
    }

    /// The full ILAsm-style name of a `MethodDef`, signature included.
    pub fn method_def_full(&self, rid: Rid<marker::MethodDef>) -> (r: Result<String>)
        ensures
            r matches Ok(s) ==> self@.method_def_full(rid.number()) == Ok::<Seq<char>, Error>(s@),
            r matches Err(e) ==> self@.method_def_full(rid.number()) == Err::<Seq<char>, Error>(e),
    {
        let row: MethodDefRow = self.metadata.tables().method_def(rid.get())?;
        let blob = self.metadata.blobs().get(row.signature)?;
        let name = self.token(Token::new(TableId::MethodDef, rid.get()));
        match MethodSig::parse(blob) {
            Ok(sig) => Ok(self.method_sig(&sig, name.as_str())),
            Err(_) => Ok(name),
        }
    }
}

/// Renders the name of a token whose row cannot be resolved.
fn unresolved_string(token: Token) -> (s: String)
    ensures
        s@ == unresolved(token),
{
    match token.table() {
        Some(table) => row_string(table, token.rid()),
        None => token.to_string(),
    }
}

/// The row number of a typed row id.
pub open spec fn rid_number(rid: Option<Rid<marker::TypeDef>>) -> Option<u32> {
    match rid {
        Some(rid) => Some(rid.number()),
        None => None,
    }
}

proof fn lemma_mods_of_concatenation(
    names: NamesModel,
    a: Seq<CustomMod>,
    b: Seq<CustomMod>,
    n: nat,
)
    requires
        n <= a.len() + b.len(),
    ensures
        n <= a.len() ==> names.mods_text(a + b, n) == names.mods_text(a, n),
        n >= a.len() ==> names.mods_text(a + b, n) == names.mods_text(b, (n - a.len()) as nat)
            + names.mods_text(a, a.len()),
    decreases n,
{
    if n == 0 {
        assert(names.mods_text(b, 0) + names.mods_text(a, 0) =~= names.mods_text(a + b, 0));
    } else {
        lemma_mods_of_concatenation(names, a, b, (n - 1) as nat);
        if n == a.len() {
            assert(names.mods_text(b, 0) + names.mods_text(a, n) =~= names.mods_text(a, n));
        } else if n > a.len() {
            let k = (n - a.len()) as nat;
            assert((a + b)[n - 1] == b[k - 1]);
            assert(names.mods_text(a + b, n) =~= names.mods_text(b, k) + names.mods_text(
                a,
                a.len(),
            ));
        }
    }
}

/// Modifiers nest: those that come later in the blob are spelled first.
pub proof fn lemma_mods_nest(names: NamesModel, a: Seq<CustomMod>, b: Seq<CustomMod>)
    ensures
        names.all_mods_text(a + b) == names.all_mods_text(b) + names.all_mods_text(a),
{
    lemma_mods_of_concatenation(names, a, b, a.len() + b.len());
}

/// However far the references of hostile metadata lead in a circle, a name
/// follows no more than 32 hops: past them it is the row that is named.
pub proof fn lemma_hops_are_bounded(names: NamesModel, token: Token)
    requires
        names.depth >= 32,
    ensures
        names.resolved(token) is Err,
        names.token(token) == unresolved(token),
{
}

} // verus!
