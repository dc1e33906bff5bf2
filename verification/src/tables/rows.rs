//! Typed metadata table rows (II.22) and the Portable PDB tables.
//!
//! Every row is a `Copy` struct with named fields whose types record what the
//! column means: [`StringIndex`], [`BlobIndex`], [`GuidIndex`], a typed
//! [`Rid`] for a simple index, or a [`Token`] for a coded index. Nothing here
//! dereferences a heap or follows a token; that is the caller decision.
use vstd::prelude::*;

use crate::error::{Error, Result};
use crate::tables;
use crate::tables::coded::CodedIndex;
use crate::tables::{ColumnKind, RowCursor, RowModel, TableRow, Tables};
use crate::token::{marker, BlobIndex, GuidIndex, Rid, StringIndex, TableId, Token};

verus! {

/// `Module` (II.22.30).
#[derive(Clone, Copy, PartialEq, Eq, Hash, Debug)]
pub struct ModuleRow {
    /// `Generation`, always 0 outside edit-and-continue deltas.
    pub generation: u16,
    /// The module file name.
    pub name: StringIndex,
    /// The module version id.
    pub mvid: GuidIndex,
    /// `EncId`.
    pub enc_id: GuidIndex,
    /// `EncBaseId`.
    pub enc_base_id: GuidIndex,
}

impl Default for ModuleRow {
    fn default() -> (row: Self)
        ensures
            row == (ModuleRow {
                generation: 0,
                name: StringIndex(0),
                mvid: GuidIndex(0),
                enc_id: GuidIndex(0),
                enc_base_id: GuidIndex(0),
            }),
    {
        ModuleRow {
            generation: 0,
            name: StringIndex(0),
            mvid: GuidIndex(0),
            enc_id: GuidIndex(0),
            enc_base_id: GuidIndex(0),
        }
    }
}

impl TableRow for ModuleRow {
    const TABLE: TableId = TableId::Module;

    open spec fn table() -> TableId {
        TableId::Module
    }

    proof fn lemma_table() {
    }

    open spec fn column_list() -> Seq<ColumnKind> {
        seq![
            ColumnKind::U16,
            ColumnKind::String,
            ColumnKind::Guid,
            ColumnKind::Guid,
            ColumnKind::Guid,
        ]
    }

    open spec fn fields(row: RowModel) -> ModuleRow {
        ModuleRow {
            generation: row.half(0),
            name: StringIndex(row.value(1)),
            mvid: GuidIndex(row.value(2)),
            enc_id: GuidIndex(row.value(3)),
            enc_base_id: GuidIndex(row.value(4)),
        }
    }

    fn columns() -> (list: &'static [ColumnKind]) {
        &[
            ColumnKind::U16,
            ColumnKind::String,
            ColumnKind::Guid,
            ColumnKind::Guid,
            ColumnKind::Guid,
        ]
    }

    fn decode(cursor: &mut RowCursor<'_>) -> (r: Result<Self>) {
        let columns = Self::columns();
        let cells = cursor.cells(columns)?;
        Ok(
            ModuleRow {
                generation: cells.half(0),
                name: StringIndex(cells.value(1)),
                mvid: GuidIndex(cells.value(2)),
                enc_id: GuidIndex(cells.value(3)),
                enc_base_id: GuidIndex(cells.value(4)),
            },
        )
    }
}

/// `TypeRef` (II.22.38).
#[derive(Clone, Copy, PartialEq, Eq, Hash, Debug)]
pub struct TypeRefRow {
    /// Where the referenced type is defined.
    pub resolution_scope: Token,
    /// The type name, including any generic arity suffix.
    pub name: StringIndex,
    /// The namespace, empty for the global namespace.
    pub type_namespace: StringIndex,
}

impl Default for TypeRefRow {
    fn default() -> (row: Self)
        ensures
            row == (TypeRefRow {
                resolution_scope: Token(0),
                name: StringIndex(0),
                type_namespace: StringIndex(0),
            }),
    {
        TypeRefRow {
            resolution_scope: Token(0),
            name: StringIndex(0),
            type_namespace: StringIndex(0),
        }
    }
}

impl TableRow for TypeRefRow {
    const TABLE: TableId = TableId::TypeRef;

    open spec fn table() -> TableId {
        TableId::TypeRef
    }

    proof fn lemma_table() {
    }

    open spec fn column_list() -> Seq<ColumnKind> {
        seq![
            ColumnKind::Coded(CodedIndex::ResolutionScope),
            ColumnKind::String,
            ColumnKind::String,
        ]
    }

    open spec fn fields(row: RowModel) -> TypeRefRow {
        TypeRefRow {
            resolution_scope: row.token(0, CodedIndex::ResolutionScope),
            name: StringIndex(row.value(1)),
            type_namespace: StringIndex(row.value(2)),
        }
    }

    fn columns() -> (list: &'static [ColumnKind]) {
        &[
            ColumnKind::Coded(CodedIndex::ResolutionScope),
            ColumnKind::String,
            ColumnKind::String,
        ]
    }

    fn decode(cursor: &mut RowCursor<'_>) -> (r: Result<Self>) {
        let columns = Self::columns();
        let cells = cursor.cells(columns)?;
        Ok(
            TypeRefRow {
                resolution_scope: cells.token(0, CodedIndex::ResolutionScope),
                name: StringIndex(cells.value(1)),
                type_namespace: StringIndex(cells.value(2)),
            },
        )
    }
}

/// `TypeDef` (II.22.37).
#[derive(Clone, Copy, PartialEq, Eq, Hash, Debug)]
pub struct TypeDefRow {
    /// `TypeAttributes`.
    pub flags: u32,
    /// The type name, including any generic arity suffix.
    pub name: StringIndex,
    /// The namespace, empty for nested types and the global namespace.
    pub type_namespace: StringIndex,
    /// The base type, null for `System.Object` and interfaces.
    pub extends: Token,
    /// The first field owned by this type; the run ends where the next type starts.
    pub field_list: Rid<marker::Field>,
    /// The first method owned by this type; the run ends where the next type starts.
    pub method_list: Rid<marker::MethodDef>,
}

impl Default for TypeDefRow {
    fn default() -> (row: Self)
        ensures
            row == (TypeDefRow {
                flags: 0,
                name: StringIndex(0),
                type_namespace: StringIndex(0),
                extends: Token(0),
                field_list: Rid::<marker::Field>::of(0),
                method_list: Rid::<marker::MethodDef>::of(0),
            }),
    {
        TypeDefRow {
            flags: 0,
            name: StringIndex(0),
            type_namespace: StringIndex(0),
            extends: Token(0),
            field_list: Rid::new(0),
            method_list: Rid::new(0),
        }
    }
}

impl TableRow for TypeDefRow {
    const TABLE: TableId = TableId::TypeDef;

    open spec fn table() -> TableId {
        TableId::TypeDef
    }

    proof fn lemma_table() {
    }

    open spec fn column_list() -> Seq<ColumnKind> {
        seq![
            ColumnKind::U32,
            ColumnKind::String,
            ColumnKind::String,
            ColumnKind::Coded(CodedIndex::TypeDefOrRef),
            ColumnKind::Rid(TableId::Field),
            ColumnKind::Rid(TableId::MethodDef),
        ]
    }

    open spec fn fields(row: RowModel) -> TypeDefRow {
        TypeDefRow {
            flags: row.value(0),
            name: StringIndex(row.value(1)),
            type_namespace: StringIndex(row.value(2)),
            extends: row.token(3, CodedIndex::TypeDefOrRef),
            field_list: Rid::<marker::Field>::of(row.value(4)),
            method_list: Rid::<marker::MethodDef>::of(row.value(5)),
        }
    }

    fn columns() -> (list: &'static [ColumnKind]) {
        &[
            ColumnKind::U32,
            ColumnKind::String,
            ColumnKind::String,
            ColumnKind::Coded(CodedIndex::TypeDefOrRef),
            ColumnKind::Rid(TableId::Field),
            ColumnKind::Rid(TableId::MethodDef),
        ]
    }

    fn decode(cursor: &mut RowCursor<'_>) -> (r: Result<Self>) {
        let columns = Self::columns();
        let cells = cursor.cells(columns)?;
        Ok(
            TypeDefRow {
                flags: cells.value(0),
                name: StringIndex(cells.value(1)),
                type_namespace: StringIndex(cells.value(2)),
                extends: cells.token(3, CodedIndex::TypeDefOrRef),
                field_list: Rid::<marker::Field>::new(cells.value(4)),
                method_list: Rid::<marker::MethodDef>::new(cells.value(5)),
            },
        )
    }
}

/// `FieldPtr`, an indirection table present only in `#-` streams.
#[derive(Clone, Copy, PartialEq, Eq, Hash, Debug)]
pub struct FieldPtrRow {
    /// The physical `Field` row this logical RID maps to.
    pub field: Rid<marker::Field>,
}

impl Default for FieldPtrRow {
    fn default() -> (row: Self)
        ensures
            row == (FieldPtrRow {
                field: Rid::<marker::Field>::of(0),
            }),
    {
        FieldPtrRow {
            field: Rid::new(0),
        }
    }
}

impl TableRow for FieldPtrRow {
    const TABLE: TableId = TableId::FieldPtr;

    open spec fn table() -> TableId {
        TableId::FieldPtr
    }

    proof fn lemma_table() {
    }

    open spec fn column_list() -> Seq<ColumnKind> {
        seq![ColumnKind::Rid(TableId::Field)]
    }

    open spec fn fields(row: RowModel) -> FieldPtrRow {
        FieldPtrRow {
            field: Rid::<marker::Field>::of(row.value(0)),
        }
    }

    fn columns() -> (list: &'static [ColumnKind]) {
        &[ColumnKind::Rid(TableId::Field)]
    }

    fn decode(cursor: &mut RowCursor<'_>) -> (r: Result<Self>) {
        let columns = Self::columns();
        let cells = cursor.cells(columns)?;
        Ok(
            FieldPtrRow {
                field: Rid::<marker::Field>::new(cells.value(0)),
            },
        )
    }
}

/// `Field` (II.22.15).
#[derive(Clone, Copy, PartialEq, Eq, Hash, Debug)]
pub struct FieldRow {
    /// `FieldAttributes`.
    pub flags: u16,
    /// The field name.
    pub name: StringIndex,
    /// A `FieldSig` blob.
    pub signature: BlobIndex,
}

impl Default for FieldRow {
    fn default() -> (row: Self)
        ensures
            row == (FieldRow {
                flags: 0,
                name: StringIndex(0),
                signature: BlobIndex(0),
            }),
    {
        FieldRow {
            flags: 0,
            name: StringIndex(0),
            signature: BlobIndex(0),
        }
    }
}

impl TableRow for FieldRow {
    const TABLE: TableId = TableId::Field;

    open spec fn table() -> TableId {
        TableId::Field
    }

    proof fn lemma_table() {
    }

    open spec fn column_list() -> Seq<ColumnKind> {
        seq![ColumnKind::U16, ColumnKind::String, ColumnKind::Blob]
    }

    open spec fn fields(row: RowModel) -> FieldRow {
        FieldRow {
            flags: row.half(0),
            name: StringIndex(row.value(1)),
            signature: BlobIndex(row.value(2)),
        }
    }

    fn columns() -> (list: &'static [ColumnKind]) {
        &[ColumnKind::U16, ColumnKind::String, ColumnKind::Blob]
    }

    fn decode(cursor: &mut RowCursor<'_>) -> (r: Result<Self>) {
        let columns = Self::columns();
        let cells = cursor.cells(columns)?;
        Ok(
            FieldRow {
                flags: cells.half(0),
                name: StringIndex(cells.value(1)),
                signature: BlobIndex(cells.value(2)),
            },
        )
    }
}

/// `MethodPtr`, an indirection table present only in `#-` streams.
#[derive(Clone, Copy, PartialEq, Eq, Hash, Debug)]
pub struct MethodPtrRow {
    /// The physical `MethodDef` row this logical RID maps to.
    pub method: Rid<marker::MethodDef>,
}

impl Default for MethodPtrRow {
    fn default() -> (row: Self)
        ensures
            row == (MethodPtrRow {
                method: Rid::<marker::MethodDef>::of(0),
            }),
    {
        MethodPtrRow {
            method: Rid::new(0),
        }
    }
}

impl TableRow for MethodPtrRow {
    const TABLE: TableId = TableId::MethodPtr;

    open spec fn table() -> TableId {
        TableId::MethodPtr
    }

    proof fn lemma_table() {
    }

    open spec fn column_list() -> Seq<ColumnKind> {
        seq![ColumnKind::Rid(TableId::MethodDef)]
    }

    open spec fn fields(row: RowModel) -> MethodPtrRow {
        MethodPtrRow {
            method: Rid::<marker::MethodDef>::of(row.value(0)),
        }
    }

    fn columns() -> (list: &'static [ColumnKind]) {
        &[ColumnKind::Rid(TableId::MethodDef)]
    }

    fn decode(cursor: &mut RowCursor<'_>) -> (r: Result<Self>) {
        let columns = Self::columns();
        let cells = cursor.cells(columns)?;
        Ok(
            MethodPtrRow {
                method: Rid::<marker::MethodDef>::new(cells.value(0)),
            },
        )
    }
}

/// `MethodDef` (II.22.26).
#[derive(Clone, Copy, PartialEq, Eq, Hash, Debug)]
pub struct MethodDefRow {
    /// The RVA of the method body, or 0 when there is none.
    pub rva: u32,
    /// `MethodImplAttributes`.
    pub impl_flags: u16,
    /// `MethodAttributes`.
    pub flags: u16,
    /// The method name.
    pub name: StringIndex,
    /// A `MethodDefSig` blob.
    pub signature: BlobIndex,
    /// The first parameter row owned by this method.
    pub param_list: Rid<marker::Param>,
}

impl Default for MethodDefRow {
    fn default() -> (row: Self)
        ensures
            row == (MethodDefRow {
                rva: 0,
                impl_flags: 0,
                flags: 0,
                name: StringIndex(0),
                signature: BlobIndex(0),
                param_list: Rid::<marker::Param>::of(0),
            }),
    {
        MethodDefRow {
            rva: 0,
            impl_flags: 0,
            flags: 0,
            name: StringIndex(0),
            signature: BlobIndex(0),
            param_list: Rid::new(0),
        }
    }
}

impl TableRow for MethodDefRow {
    const TABLE: TableId = TableId::MethodDef;

    open spec fn table() -> TableId {
        TableId::MethodDef
    }

    proof fn lemma_table() {
    }

    open spec fn column_list() -> Seq<ColumnKind> {
        seq![
            ColumnKind::U32,
            ColumnKind::U16,
            ColumnKind::U16,
            ColumnKind::String,
            ColumnKind::Blob,
            ColumnKind::Rid(TableId::Param),
        ]
    }

    open spec fn fields(row: RowModel) -> MethodDefRow {
        MethodDefRow {
            rva: row.value(0),
            impl_flags: row.half(1),
            flags: row.half(2),
            name: StringIndex(row.value(3)),
            signature: BlobIndex(row.value(4)),
            param_list: Rid::<marker::Param>::of(row.value(5)),
        }
    }

    fn columns() -> (list: &'static [ColumnKind]) {
        &[
            ColumnKind::U32,
            ColumnKind::U16,
            ColumnKind::U16,
            ColumnKind::String,
            ColumnKind::Blob,
            ColumnKind::Rid(TableId::Param),
        ]
    }

    fn decode(cursor: &mut RowCursor<'_>) -> (r: Result<Self>) {
        let columns = Self::columns();
        let cells = cursor.cells(columns)?;
        Ok(
            MethodDefRow {
                rva: cells.value(0),
                impl_flags: cells.half(1),
                flags: cells.half(2),
                name: StringIndex(cells.value(3)),
                signature: BlobIndex(cells.value(4)),
                param_list: Rid::<marker::Param>::new(cells.value(5)),
            },
        )
    }
}

/// `ParamPtr`, an indirection table present only in `#-` streams.
#[derive(Clone, Copy, PartialEq, Eq, Hash, Debug)]
pub struct ParamPtrRow {
    /// The physical `Param` row this logical RID maps to.
    pub param: Rid<marker::Param>,
}

impl Default for ParamPtrRow {
    fn default() -> (row: Self)
        ensures
            row == (ParamPtrRow {
                param: Rid::<marker::Param>::of(0),
            }),
    {
        ParamPtrRow {
            param: Rid::new(0),
        }
    }
}

impl TableRow for ParamPtrRow {
    const TABLE: TableId = TableId::ParamPtr;

    open spec fn table() -> TableId {
        TableId::ParamPtr
    }

    proof fn lemma_table() {
    }

    open spec fn column_list() -> Seq<ColumnKind> {
        seq![ColumnKind::Rid(TableId::Param)]
    }

    open spec fn fields(row: RowModel) -> ParamPtrRow {
        ParamPtrRow {
            param: Rid::<marker::Param>::of(row.value(0)),
        }
    }

    fn columns() -> (list: &'static [ColumnKind]) {
        &[ColumnKind::Rid(TableId::Param)]
    }

    fn decode(cursor: &mut RowCursor<'_>) -> (r: Result<Self>) {
        let columns = Self::columns();
        let cells = cursor.cells(columns)?;
        Ok(
            ParamPtrRow {
                param: Rid::<marker::Param>::new(cells.value(0)),
            },
        )
    }
}

/// `Param` (II.22.33).
#[derive(Clone, Copy, PartialEq, Eq, Hash, Debug)]
pub struct ParamRow {
    /// `ParamAttributes`.
    pub flags: u16,
    /// 1-based parameter position; 0 denotes the return value.
    pub sequence: u16,
    /// The parameter name, which may be empty.
    pub name: StringIndex,
}

impl Default for ParamRow {
    fn default() -> (row: Self)
        ensures
            row == (ParamRow {
                flags: 0,
                sequence: 0,
                name: StringIndex(0),
            }),
    {
        ParamRow {
            flags: 0,
            sequence: 0,
            name: StringIndex(0),
        }
    }
}

impl TableRow for ParamRow {
    const TABLE: TableId = TableId::Param;

    open spec fn table() -> TableId {
        TableId::Param
    }

    proof fn lemma_table() {
    }

    open spec fn column_list() -> Seq<ColumnKind> {
        seq![ColumnKind::U16, ColumnKind::U16, ColumnKind::String]
    }

    open spec fn fields(row: RowModel) -> ParamRow {
        ParamRow {
            flags: row.half(0),
            sequence: row.half(1),
            name: StringIndex(row.value(2)),
        }
    }

    fn columns() -> (list: &'static [ColumnKind]) {
        &[ColumnKind::U16, ColumnKind::U16, ColumnKind::String]
    }

    fn decode(cursor: &mut RowCursor<'_>) -> (r: Result<Self>) {
        let columns = Self::columns();
        let cells = cursor.cells(columns)?;
        Ok(
            ParamRow {
                flags: cells.half(0),
                sequence: cells.half(1),
                name: StringIndex(cells.value(2)),
            },
        )
    }
}

/// `InterfaceImpl` (II.22.23).
#[derive(Clone, Copy, PartialEq, Eq, Hash, Debug)]
pub struct InterfaceImplRow {
    /// The implementing type.
    pub class: Rid<marker::TypeDef>,
    /// The implemented interface.
    pub interface: Token,
}

impl Default for InterfaceImplRow {
    fn default() -> (row: Self)
        ensures
            row == (InterfaceImplRow {
                class: Rid::<marker::TypeDef>::of(0),
                interface: Token(0),
            }),
    {
        InterfaceImplRow {
            class: Rid::new(0),
            interface: Token(0),
        }
    }
}

impl TableRow for InterfaceImplRow {
    const TABLE: TableId = TableId::InterfaceImpl;

    open spec fn table() -> TableId {
        TableId::InterfaceImpl
    }

    proof fn lemma_table() {
    }

    open spec fn column_list() -> Seq<ColumnKind> {
        seq![ColumnKind::Rid(TableId::TypeDef), ColumnKind::Coded(CodedIndex::TypeDefOrRef)]
    }

    open spec fn fields(row: RowModel) -> InterfaceImplRow {
        InterfaceImplRow {
            class: Rid::<marker::TypeDef>::of(row.value(0)),
            interface: row.token(1, CodedIndex::TypeDefOrRef),
        }
    }

    fn columns() -> (list: &'static [ColumnKind]) {
        &[ColumnKind::Rid(TableId::TypeDef), ColumnKind::Coded(CodedIndex::TypeDefOrRef)]
    }

    fn decode(cursor: &mut RowCursor<'_>) -> (r: Result<Self>) {
        let columns = Self::columns();
        let cells = cursor.cells(columns)?;
        Ok(
            InterfaceImplRow {
                class: Rid::<marker::TypeDef>::new(cells.value(0)),
                interface: cells.token(1, CodedIndex::TypeDefOrRef),
            },
        )
    }
}

/// `MemberRef` (II.22.25).
#[derive(Clone, Copy, PartialEq, Eq, Hash, Debug)]
pub struct MemberRefRow {
    /// The scope the member is looked up in.
    pub class: Token,
    /// The member name.
    pub name: StringIndex,
    /// A `MethodRefSig` or `FieldSig` blob.
    pub signature: BlobIndex,
}

impl Default for MemberRefRow {
    fn default() -> (row: Self)
        ensures
            row == (MemberRefRow {
                class: Token(0),
                name: StringIndex(0),
                signature: BlobIndex(0),
            }),
    {
        MemberRefRow {
            class: Token(0),
            name: StringIndex(0),
            signature: BlobIndex(0),
        }
    }
}

impl TableRow for MemberRefRow {
    const TABLE: TableId = TableId::MemberRef;

    open spec fn table() -> TableId {
        TableId::MemberRef
    }

    proof fn lemma_table() {
    }

    open spec fn column_list() -> Seq<ColumnKind> {
        seq![
            ColumnKind::Coded(CodedIndex::MemberRefParent),
            ColumnKind::String,
            ColumnKind::Blob,
        ]
    }

    open spec fn fields(row: RowModel) -> MemberRefRow {
        MemberRefRow {
            class: row.token(0, CodedIndex::MemberRefParent),
            name: StringIndex(row.value(1)),
            signature: BlobIndex(row.value(2)),
        }
    }

    fn columns() -> (list: &'static [ColumnKind]) {
        &[
            ColumnKind::Coded(CodedIndex::MemberRefParent),
            ColumnKind::String,
            ColumnKind::Blob,
        ]
    }

    fn decode(cursor: &mut RowCursor<'_>) -> (r: Result<Self>) {
        let columns = Self::columns();
        let cells = cursor.cells(columns)?;
        Ok(
            MemberRefRow {
                class: cells.token(0, CodedIndex::MemberRefParent),
                name: StringIndex(cells.value(1)),
                signature: BlobIndex(cells.value(2)),
            },
        )
    }
}

/// `Constant` (II.22.9).
#[derive(Clone, Copy, PartialEq, Eq, Hash, Debug)]
pub struct ConstantRow {
    /// The low byte is an `ELEMENT_TYPE_*` code; the high byte is padding.
    pub type_raw: u16,
    /// The field, parameter or property this value belongs to.
    pub parent: Token,
    /// The little-endian encoded value.
    pub value: BlobIndex,
}

impl Default for ConstantRow {
    fn default() -> (row: Self)
        ensures
            row == (ConstantRow {
                type_raw: 0,
                parent: Token(0),
                value: BlobIndex(0),
            }),
    {
        ConstantRow {
            type_raw: 0,
            parent: Token(0),
            value: BlobIndex(0),
        }
    }
}

impl TableRow for ConstantRow {
    const TABLE: TableId = TableId::Constant;

    open spec fn table() -> TableId {
        TableId::Constant
    }

    proof fn lemma_table() {
    }

    open spec fn column_list() -> Seq<ColumnKind> {
        seq![ColumnKind::U16, ColumnKind::Coded(CodedIndex::HasConstant), ColumnKind::Blob]
    }

    open spec fn fields(row: RowModel) -> ConstantRow {
        ConstantRow {
            type_raw: row.half(0),
            parent: row.token(1, CodedIndex::HasConstant),
            value: BlobIndex(row.value(2)),
        }
    }

    fn columns() -> (list: &'static [ColumnKind]) {
        &[ColumnKind::U16, ColumnKind::Coded(CodedIndex::HasConstant), ColumnKind::Blob]
    }

    fn decode(cursor: &mut RowCursor<'_>) -> (r: Result<Self>) {
        let columns = Self::columns();
        let cells = cursor.cells(columns)?;
        Ok(
            ConstantRow {
                type_raw: cells.half(0),
                parent: cells.token(1, CodedIndex::HasConstant),
                value: BlobIndex(cells.value(2)),
            },
        )
    }
}

/// `CustomAttribute` (II.22.10).
#[derive(Clone, Copy, PartialEq, Eq, Hash, Debug)]
pub struct CustomAttributeRow {
    /// The metadata item the attribute is attached to.
    pub parent: Token,
    /// The attribute constructor.
    pub constructor: Token,
    /// The raw attribute blob; it is not decoded.
    pub value: BlobIndex,
}

impl Default for CustomAttributeRow {
    fn default() -> (row: Self)
        ensures
            row == (CustomAttributeRow {
                parent: Token(0),
                constructor: Token(0),
                value: BlobIndex(0),
            }),
    {
        CustomAttributeRow {
            parent: Token(0),
            constructor: Token(0),
            value: BlobIndex(0),
        }
    }
}

impl TableRow for CustomAttributeRow {
    const TABLE: TableId = TableId::CustomAttribute;

    open spec fn table() -> TableId {
        TableId::CustomAttribute
    }

    proof fn lemma_table() {
    }

    open spec fn column_list() -> Seq<ColumnKind> {
        seq![
            ColumnKind::Coded(CodedIndex::HasCustomAttribute),
            ColumnKind::Coded(CodedIndex::CustomAttributeType),
            ColumnKind::Blob,
        ]
    }

    open spec fn fields(row: RowModel) -> CustomAttributeRow {
        CustomAttributeRow {
            parent: row.token(0, CodedIndex::HasCustomAttribute),
            constructor: row.token(1, CodedIndex::CustomAttributeType),
            value: BlobIndex(row.value(2)),
        }
    }

    fn columns() -> (list: &'static [ColumnKind]) {
        &[
            ColumnKind::Coded(CodedIndex::HasCustomAttribute),
            ColumnKind::Coded(CodedIndex::CustomAttributeType),
            ColumnKind::Blob,
        ]
    }

    fn decode(cursor: &mut RowCursor<'_>) -> (r: Result<Self>) {
        let columns = Self::columns();
        let cells = cursor.cells(columns)?;
        Ok(
            CustomAttributeRow {
                parent: cells.token(0, CodedIndex::HasCustomAttribute),
                constructor: cells.token(1, CodedIndex::CustomAttributeType),
                value: BlobIndex(cells.value(2)),
            },
        )
    }
}

/// `FieldMarshal` (II.22.17).
#[derive(Clone, Copy, PartialEq, Eq, Hash, Debug)]
pub struct FieldMarshalRow {
    /// The field or parameter being marshalled.
    pub parent: Token,
    /// The raw marshalling descriptor; it is not decoded.
    pub native_type: BlobIndex,
}

impl Default for FieldMarshalRow {
    fn default() -> (row: Self)
        ensures
            row == (FieldMarshalRow {
                parent: Token(0),
                native_type: BlobIndex(0),
            }),
    {
        FieldMarshalRow {
            parent: Token(0),
            native_type: BlobIndex(0),
        }
    }
}

impl TableRow for FieldMarshalRow {
    const TABLE: TableId = TableId::FieldMarshal;

    open spec fn table() -> TableId {
        TableId::FieldMarshal
    }

    proof fn lemma_table() {
    }

    open spec fn column_list() -> Seq<ColumnKind> {
        seq![ColumnKind::Coded(CodedIndex::HasFieldMarshal), ColumnKind::Blob]
    }

    open spec fn fields(row: RowModel) -> FieldMarshalRow {
        FieldMarshalRow {
            parent: row.token(0, CodedIndex::HasFieldMarshal),
            native_type: BlobIndex(row.value(1)),
        }
    }

    fn columns() -> (list: &'static [ColumnKind]) {
        &[ColumnKind::Coded(CodedIndex::HasFieldMarshal), ColumnKind::Blob]
    }

    fn decode(cursor: &mut RowCursor<'_>) -> (r: Result<Self>) {
        let columns = Self::columns();
        let cells = cursor.cells(columns)?;
        Ok(
            FieldMarshalRow {
                parent: cells.token(0, CodedIndex::HasFieldMarshal),
                native_type: BlobIndex(cells.value(1)),
            },
        )
    }
}

/// `DeclSecurity` (II.22.11).
#[derive(Clone, Copy, PartialEq, Eq, Hash, Debug)]
pub struct DeclSecurityRow {
    /// `SecurityAction`.
    pub action: u16,
    /// The type, method or assembly the declaration applies to.
    pub parent: Token,
    /// The raw permission set blob.
    pub permission_set: BlobIndex,
}

impl Default for DeclSecurityRow {
    fn default() -> (row: Self)
        ensures
            row == (DeclSecurityRow {
                action: 0,
                parent: Token(0),
                permission_set: BlobIndex(0),
            }),
    {
        DeclSecurityRow {
            action: 0,
            parent: Token(0),
            permission_set: BlobIndex(0),
        }
    }
}

impl TableRow for DeclSecurityRow {
    const TABLE: TableId = TableId::DeclSecurity;

    open spec fn table() -> TableId {
        TableId::DeclSecurity
    }

    proof fn lemma_table() {
    }

    open spec fn column_list() -> Seq<ColumnKind> {
        seq![
            ColumnKind::U16,
            ColumnKind::Coded(CodedIndex::HasDeclSecurity),
            ColumnKind::Blob,
        ]
    }

    open spec fn fields(row: RowModel) -> DeclSecurityRow {
        DeclSecurityRow {
            action: row.half(0),
            parent: row.token(1, CodedIndex::HasDeclSecurity),
            permission_set: BlobIndex(row.value(2)),
        }
    }

    fn columns() -> (list: &'static [ColumnKind]) {
        &[ColumnKind::U16, ColumnKind::Coded(CodedIndex::HasDeclSecurity), ColumnKind::Blob]
    }

    fn decode(cursor: &mut RowCursor<'_>) -> (r: Result<Self>) {
        let columns = Self::columns();
        let cells = cursor.cells(columns)?;
        Ok(
            DeclSecurityRow {
                action: cells.half(0),
                parent: cells.token(1, CodedIndex::HasDeclSecurity),
                permission_set: BlobIndex(cells.value(2)),
            },
        )
    }
}

/// `ClassLayout` (II.22.8).
#[derive(Clone, Copy, PartialEq, Eq, Hash, Debug)]
pub struct ClassLayoutRow {
    /// `PackingSize`.
    pub packing_size: u16,
    /// `ClassSize`.
    pub class_size: u32,
    /// The type being laid out.
    pub parent: Rid<marker::TypeDef>,
}

impl Default for ClassLayoutRow {
    fn default() -> (row: Self)
        ensures
            row == (ClassLayoutRow {
                packing_size: 0,
                class_size: 0,
                parent: Rid::<marker::TypeDef>::of(0),
            }),
    {
        ClassLayoutRow {
            packing_size: 0,
            class_size: 0,
            parent: Rid::new(0),
        }
    }
}

impl TableRow for ClassLayoutRow {
    const TABLE: TableId = TableId::ClassLayout;

    open spec fn table() -> TableId {
        TableId::ClassLayout
    }

    proof fn lemma_table() {
    }

    open spec fn column_list() -> Seq<ColumnKind> {
        seq![ColumnKind::U16, ColumnKind::U32, ColumnKind::Rid(TableId::TypeDef)]
    }

    open spec fn fields(row: RowModel) -> ClassLayoutRow {
        ClassLayoutRow {
            packing_size: row.half(0),
            class_size: row.value(1),
            parent: Rid::<marker::TypeDef>::of(row.value(2)),
        }
    }

    fn columns() -> (list: &'static [ColumnKind]) {
        &[ColumnKind::U16, ColumnKind::U32, ColumnKind::Rid(TableId::TypeDef)]
    }

    fn decode(cursor: &mut RowCursor<'_>) -> (r: Result<Self>) {
        let columns = Self::columns();
        let cells = cursor.cells(columns)?;
        Ok(
            ClassLayoutRow {
                packing_size: cells.half(0),
                class_size: cells.value(1),
                parent: Rid::<marker::TypeDef>::new(cells.value(2)),
            },
        )
    }
}

/// `FieldLayout` (II.22.16).
#[derive(Clone, Copy, PartialEq, Eq, Hash, Debug)]
pub struct FieldLayoutRow {
    /// The byte offset of the field within its type.
    pub offset: u32,
    /// The field.
    pub field: Rid<marker::Field>,
}

impl Default for FieldLayoutRow {
    fn default() -> (row: Self)
        ensures
            row == (FieldLayoutRow {
                offset: 0,
                field: Rid::<marker::Field>::of(0),
            }),
    {
        FieldLayoutRow {
            offset: 0,
            field: Rid::new(0),
        }
    }
}

impl TableRow for FieldLayoutRow {
    const TABLE: TableId = TableId::FieldLayout;

    open spec fn table() -> TableId {
        TableId::FieldLayout
    }

    proof fn lemma_table() {
    }

    open spec fn column_list() -> Seq<ColumnKind> {
        seq![ColumnKind::U32, ColumnKind::Rid(TableId::Field)]
    }

    open spec fn fields(row: RowModel) -> FieldLayoutRow {
        FieldLayoutRow {
            offset: row.value(0),
            field: Rid::<marker::Field>::of(row.value(1)),
        }
    }

    fn columns() -> (list: &'static [ColumnKind]) {
        &[ColumnKind::U32, ColumnKind::Rid(TableId::Field)]
    }

    fn decode(cursor: &mut RowCursor<'_>) -> (r: Result<Self>) {
        let columns = Self::columns();
        let cells = cursor.cells(columns)?;
        Ok(
            FieldLayoutRow {
                offset: cells.value(0),
                field: Rid::<marker::Field>::new(cells.value(1)),
            },
        )
    }
}

/// `StandAloneSig` (II.22.36).
#[derive(Clone, Copy, PartialEq, Eq, Hash, Debug)]
pub struct StandAloneSigRow {
    /// A `LocalVarSig` or `StandAloneMethodSig` blob.
    pub signature: BlobIndex,
}

impl Default for StandAloneSigRow {
    fn default() -> (row: Self)
        ensures
            row == (StandAloneSigRow {
                signature: BlobIndex(0),
            }),
    {
        StandAloneSigRow {
            signature: BlobIndex(0),
        }
    }
}

impl TableRow for StandAloneSigRow {
    const TABLE: TableId = TableId::StandAloneSig;

    open spec fn table() -> TableId {
        TableId::StandAloneSig
    }

    proof fn lemma_table() {
    }

    open spec fn column_list() -> Seq<ColumnKind> {
        seq![ColumnKind::Blob]
    }

    open spec fn fields(row: RowModel) -> StandAloneSigRow {
        StandAloneSigRow {
            signature: BlobIndex(row.value(0)),
        }
    }

    fn columns() -> (list: &'static [ColumnKind]) {
        &[ColumnKind::Blob]
    }

    fn decode(cursor: &mut RowCursor<'_>) -> (r: Result<Self>) {
        let columns = Self::columns();
        let cells = cursor.cells(columns)?;
        Ok(
            StandAloneSigRow {
                signature: BlobIndex(cells.value(0)),
            },
        )
    }
}

/// `EventMap` (II.22.12).
#[derive(Clone, Copy, PartialEq, Eq, Hash, Debug)]
pub struct EventMapRow {
    /// The type that owns the events.
    pub parent: Rid<marker::TypeDef>,
    /// The first event owned by the type.
    pub event_list: Rid<marker::Event>,
}

impl Default for EventMapRow {
    fn default() -> (row: Self)
        ensures
            row == (EventMapRow {
                parent: Rid::<marker::TypeDef>::of(0),
                event_list: Rid::<marker::Event>::of(0),
            }),
    {
        EventMapRow {
            parent: Rid::new(0),
            event_list: Rid::new(0),
        }
    }
}

impl TableRow for EventMapRow {
    const TABLE: TableId = TableId::EventMap;

    open spec fn table() -> TableId {
        TableId::EventMap
    }

    proof fn lemma_table() {
    }

    open spec fn column_list() -> Seq<ColumnKind> {
        seq![ColumnKind::Rid(TableId::TypeDef), ColumnKind::Rid(TableId::Event)]
    }

    open spec fn fields(row: RowModel) -> EventMapRow {
        EventMapRow {
            parent: Rid::<marker::TypeDef>::of(row.value(0)),
            event_list: Rid::<marker::Event>::of(row.value(1)),
        }
    }

    fn columns() -> (list: &'static [ColumnKind]) {
        &[ColumnKind::Rid(TableId::TypeDef), ColumnKind::Rid(TableId::Event)]
    }

    fn decode(cursor: &mut RowCursor<'_>) -> (r: Result<Self>) {
        let columns = Self::columns();
        let cells = cursor.cells(columns)?;
        Ok(
            EventMapRow {
                parent: Rid::<marker::TypeDef>::new(cells.value(0)),
                event_list: Rid::<marker::Event>::new(cells.value(1)),
            },
        )
    }
}

/// `EventPtr`, an indirection table present only in `#-` streams.
#[derive(Clone, Copy, PartialEq, Eq, Hash, Debug)]
pub struct EventPtrRow {
    /// The physical `Event` row this logical RID maps to.
    pub event: Rid<marker::Event>,
}

impl Default for EventPtrRow {
    fn default() -> (row: Self)
        ensures
            row == (EventPtrRow {
                event: Rid::<marker::Event>::of(0),
            }),
    {
        EventPtrRow {
            event: Rid::new(0),
        }
    }
}

impl TableRow for EventPtrRow {
    const TABLE: TableId = TableId::EventPtr;

    open spec fn table() -> TableId {
        TableId::EventPtr
    }

    proof fn lemma_table() {
    }

    open spec fn column_list() -> Seq<ColumnKind> {
        seq![ColumnKind::Rid(TableId::Event)]
    }

    open spec fn fields(row: RowModel) -> EventPtrRow {
        EventPtrRow {
            event: Rid::<marker::Event>::of(row.value(0)),
        }
    }

    fn columns() -> (list: &'static [ColumnKind]) {
        &[ColumnKind::Rid(TableId::Event)]
    }

    fn decode(cursor: &mut RowCursor<'_>) -> (r: Result<Self>) {
        let columns = Self::columns();
        let cells = cursor.cells(columns)?;
        Ok(
            EventPtrRow {
                event: Rid::<marker::Event>::new(cells.value(0)),
            },
        )
    }
}

/// `Event` (II.22.13).
#[derive(Clone, Copy, PartialEq, Eq, Hash, Debug)]
pub struct EventRow {
    /// `EventAttributes`.
    pub event_flags: u16,
    /// The event name.
    pub name: StringIndex,
    /// The delegate type of the event.
    pub event_type: Token,
}

impl Default for EventRow {
    fn default() -> (row: Self)
        ensures
            row == (EventRow {
                event_flags: 0,
                name: StringIndex(0),
                event_type: Token(0),
            }),
    {
        EventRow {
            event_flags: 0,
            name: StringIndex(0),
            event_type: Token(0),
        }
    }
}

impl TableRow for EventRow {
    const TABLE: TableId = TableId::Event;

    open spec fn table() -> TableId {
        TableId::Event
    }

    proof fn lemma_table() {
    }

    open spec fn column_list() -> Seq<ColumnKind> {
        seq![
            ColumnKind::U16,
            ColumnKind::String,
            ColumnKind::Coded(CodedIndex::TypeDefOrRef),
        ]
    }

    open spec fn fields(row: RowModel) -> EventRow {
        EventRow {
            event_flags: row.half(0),
            name: StringIndex(row.value(1)),
            event_type: row.token(2, CodedIndex::TypeDefOrRef),
        }
    }

    fn columns() -> (list: &'static [ColumnKind]) {
        &[ColumnKind::U16, ColumnKind::String, ColumnKind::Coded(CodedIndex::TypeDefOrRef)]
    }

    fn decode(cursor: &mut RowCursor<'_>) -> (r: Result<Self>) {
        let columns = Self::columns();
        let cells = cursor.cells(columns)?;
        Ok(
            EventRow {
                event_flags: cells.half(0),
                name: StringIndex(cells.value(1)),
                event_type: cells.token(2, CodedIndex::TypeDefOrRef),
            },
        )
    }
}

/// `PropertyMap` (II.22.35).
#[derive(Clone, Copy, PartialEq, Eq, Hash, Debug)]
pub struct PropertyMapRow {
    /// The type that owns the properties.
    pub parent: Rid<marker::TypeDef>,
    /// The first property owned by the type.
    pub property_list: Rid<marker::Property>,
}

impl Default for PropertyMapRow {
    fn default() -> (row: Self)
        ensures
            row == (PropertyMapRow {
                parent: Rid::<marker::TypeDef>::of(0),
                property_list: Rid::<marker::Property>::of(0),
            }),
    {
        PropertyMapRow {
            parent: Rid::new(0),
            property_list: Rid::new(0),
        }
    }
}

impl TableRow for PropertyMapRow {
    const TABLE: TableId = TableId::PropertyMap;

    open spec fn table() -> TableId {
        TableId::PropertyMap
    }

    proof fn lemma_table() {
    }

    open spec fn column_list() -> Seq<ColumnKind> {
        seq![ColumnKind::Rid(TableId::TypeDef), ColumnKind::Rid(TableId::Property)]
    }

    open spec fn fields(row: RowModel) -> PropertyMapRow {
        PropertyMapRow {
            parent: Rid::<marker::TypeDef>::of(row.value(0)),
            property_list: Rid::<marker::Property>::of(row.value(1)),
        }
    }

    fn columns() -> (list: &'static [ColumnKind]) {
        &[ColumnKind::Rid(TableId::TypeDef), ColumnKind::Rid(TableId::Property)]
    }

    fn decode(cursor: &mut RowCursor<'_>) -> (r: Result<Self>) {
        let columns = Self::columns();
        let cells = cursor.cells(columns)?;
        Ok(
            PropertyMapRow {
                parent: Rid::<marker::TypeDef>::new(cells.value(0)),
                property_list: Rid::<marker::Property>::new(cells.value(1)),
            },
        )
    }
}

/// `PropertyPtr`, an indirection table present only in `#-` streams.
#[derive(Clone, Copy, PartialEq, Eq, Hash, Debug)]
pub struct PropertyPtrRow {
    /// The physical `Property` row this logical RID maps to.
    pub property: Rid<marker::Property>,
}

impl Default for PropertyPtrRow {
    fn default() -> (row: Self)
        ensures
            row == (PropertyPtrRow {
                property: Rid::<marker::Property>::of(0),
            }),
    {
        PropertyPtrRow {
            property: Rid::new(0),
        }
    }
}

impl TableRow for PropertyPtrRow {
    const TABLE: TableId = TableId::PropertyPtr;

    open spec fn table() -> TableId {
        TableId::PropertyPtr
    }

    proof fn lemma_table() {
    }

    open spec fn column_list() -> Seq<ColumnKind> {
        seq![ColumnKind::Rid(TableId::Property)]
    }

    open spec fn fields(row: RowModel) -> PropertyPtrRow {
        PropertyPtrRow {
            property: Rid::<marker::Property>::of(row.value(0)),
        }
    }

    fn columns() -> (list: &'static [ColumnKind]) {
        &[ColumnKind::Rid(TableId::Property)]
    }

    fn decode(cursor: &mut RowCursor<'_>) -> (r: Result<Self>) {
        let columns = Self::columns();
        let cells = cursor.cells(columns)?;
        Ok(
            PropertyPtrRow {
                property: Rid::<marker::Property>::new(cells.value(0)),
            },
        )
    }
}

/// `Property` (II.22.34).
#[derive(Clone, Copy, PartialEq, Eq, Hash, Debug)]
pub struct PropertyRow {
    /// `PropertyAttributes`.
    pub flags: u16,
    /// The property name.
    pub name: StringIndex,
    /// A `PropertySig` blob.
    pub type_signature: BlobIndex,
}

impl Default for PropertyRow {
    fn default() -> (row: Self)
        ensures
            row == (PropertyRow {
                flags: 0,
                name: StringIndex(0),
                type_signature: BlobIndex(0),
            }),
    {
        PropertyRow {
            flags: 0,
            name: StringIndex(0),
            type_signature: BlobIndex(0),
        }
    }
}

impl TableRow for PropertyRow {
    const TABLE: TableId = TableId::Property;

    open spec fn table() -> TableId {
        TableId::Property
    }

    proof fn lemma_table() {
    }

    open spec fn column_list() -> Seq<ColumnKind> {
        seq![ColumnKind::U16, ColumnKind::String, ColumnKind::Blob]
    }

    open spec fn fields(row: RowModel) -> PropertyRow {
        PropertyRow {
            flags: row.half(0),
            name: StringIndex(row.value(1)),
            type_signature: BlobIndex(row.value(2)),
        }
    }

    fn columns() -> (list: &'static [ColumnKind]) {
        &[ColumnKind::U16, ColumnKind::String, ColumnKind::Blob]
    }

    fn decode(cursor: &mut RowCursor<'_>) -> (r: Result<Self>) {
        let columns = Self::columns();
        let cells = cursor.cells(columns)?;
        Ok(
            PropertyRow {
                flags: cells.half(0),
                name: StringIndex(cells.value(1)),
                type_signature: BlobIndex(cells.value(2)),
            },
        )
    }
}

/// `MethodSemantics` (II.22.28).
#[derive(Clone, Copy, PartialEq, Eq, Hash, Debug)]
pub struct MethodSemanticsRow {
    /// `MethodSemanticsAttributes`: getter, setter, adder, remover, fire, other.
    pub semantics: u16,
    /// The method that implements the semantic.
    pub method: Rid<marker::MethodDef>,
    /// The event or property the method belongs to.
    pub association: Token,
}

impl Default for MethodSemanticsRow {
    fn default() -> (row: Self)
        ensures
            row == (MethodSemanticsRow {
                semantics: 0,
                method: Rid::<marker::MethodDef>::of(0),
                association: Token(0),
            }),
    {
        MethodSemanticsRow {
            semantics: 0,
            method: Rid::new(0),
            association: Token(0),
        }
    }
}

impl TableRow for MethodSemanticsRow {
    const TABLE: TableId = TableId::MethodSemantics;

    open spec fn table() -> TableId {
        TableId::MethodSemantics
    }

    proof fn lemma_table() {
    }

    open spec fn column_list() -> Seq<ColumnKind> {
        seq![
            ColumnKind::U16,
            ColumnKind::Rid(TableId::MethodDef),
            ColumnKind::Coded(CodedIndex::HasSemantics),
        ]
    }

    open spec fn fields(row: RowModel) -> MethodSemanticsRow {
        MethodSemanticsRow {
            semantics: row.half(0),
            method: Rid::<marker::MethodDef>::of(row.value(1)),
            association: row.token(2, CodedIndex::HasSemantics),
        }
    }

    fn columns() -> (list: &'static [ColumnKind]) {
        &[
            ColumnKind::U16,
            ColumnKind::Rid(TableId::MethodDef),
            ColumnKind::Coded(CodedIndex::HasSemantics),
        ]
    }

    fn decode(cursor: &mut RowCursor<'_>) -> (r: Result<Self>) {
        let columns = Self::columns();
        let cells = cursor.cells(columns)?;
        Ok(
            MethodSemanticsRow {
                semantics: cells.half(0),
                method: Rid::<marker::MethodDef>::new(cells.value(1)),
                association: cells.token(2, CodedIndex::HasSemantics),
            },
        )
    }
}

/// `MethodImpl` (II.22.27).
#[derive(Clone, Copy, PartialEq, Eq, Hash, Debug)]
pub struct MethodImplRow {
    /// The type providing the implementation.
    pub class: Rid<marker::TypeDef>,
    /// The implementing method.
    pub method_body: Token,
    /// The method being overridden.
    pub method_declaration: Token,
}

impl Default for MethodImplRow {
    fn default() -> (row: Self)
        ensures
            row == (MethodImplRow {
                class: Rid::<marker::TypeDef>::of(0),
                method_body: Token(0),
                method_declaration: Token(0),
            }),
    {
        MethodImplRow {
            class: Rid::new(0),
            method_body: Token(0),
            method_declaration: Token(0),
        }
    }
}

impl TableRow for MethodImplRow {
    const TABLE: TableId = TableId::MethodImpl;

    open spec fn table() -> TableId {
        TableId::MethodImpl
    }

    proof fn lemma_table() {
    }

    open spec fn column_list() -> Seq<ColumnKind> {
        seq![
            ColumnKind::Rid(TableId::TypeDef),
            ColumnKind::Coded(CodedIndex::MethodDefOrRef),
            ColumnKind::Coded(CodedIndex::MethodDefOrRef),
        ]
    }

    open spec fn fields(row: RowModel) -> MethodImplRow {
        MethodImplRow {
            class: Rid::<marker::TypeDef>::of(row.value(0)),
            method_body: row.token(1, CodedIndex::MethodDefOrRef),
            method_declaration: row.token(2, CodedIndex::MethodDefOrRef),
        }
    }

    fn columns() -> (list: &'static [ColumnKind]) {
        &[
            ColumnKind::Rid(TableId::TypeDef),
            ColumnKind::Coded(CodedIndex::MethodDefOrRef),
            ColumnKind::Coded(CodedIndex::MethodDefOrRef),
        ]
    }

    fn decode(cursor: &mut RowCursor<'_>) -> (r: Result<Self>) {
        let columns = Self::columns();
        let cells = cursor.cells(columns)?;
        Ok(
            MethodImplRow {
                class: Rid::<marker::TypeDef>::new(cells.value(0)),
                method_body: cells.token(1, CodedIndex::MethodDefOrRef),
                method_declaration: cells.token(2, CodedIndex::MethodDefOrRef),
            },
        )
    }
}

/// `ModuleRef` (II.22.31).
#[derive(Clone, Copy, PartialEq, Eq, Hash, Debug)]
pub struct ModuleRefRow {
    /// The referenced module file name.
    pub name: StringIndex,
}

impl Default for ModuleRefRow {
    fn default() -> (row: Self)
        ensures
            row == (ModuleRefRow {
                name: StringIndex(0),
            }),
    {
        ModuleRefRow {
            name: StringIndex(0),
        }
    }
}

impl TableRow for ModuleRefRow {
    const TABLE: TableId = TableId::ModuleRef;

    open spec fn table() -> TableId {
        TableId::ModuleRef
    }

    proof fn lemma_table() {
    }

    open spec fn column_list() -> Seq<ColumnKind> {
        seq![ColumnKind::String]
    }

    open spec fn fields(row: RowModel) -> ModuleRefRow {
        ModuleRefRow {
            name: StringIndex(row.value(0)),
        }
    }

    fn columns() -> (list: &'static [ColumnKind]) {
        &[ColumnKind::String]
    }

    fn decode(cursor: &mut RowCursor<'_>) -> (r: Result<Self>) {
        let columns = Self::columns();
        let cells = cursor.cells(columns)?;
        Ok(
            ModuleRefRow {
                name: StringIndex(cells.value(0)),
            },
        )
    }
}

/// `TypeSpec` (II.22.39).
#[derive(Clone, Copy, PartialEq, Eq, Hash, Debug)]
pub struct TypeSpecRow {
    /// A `TypeSpec` signature blob.
    pub signature: BlobIndex,
}

impl Default for TypeSpecRow {
    fn default() -> (row: Self)
        ensures
            row == (TypeSpecRow {
                signature: BlobIndex(0),
            }),
    {
        TypeSpecRow {
            signature: BlobIndex(0),
        }
    }
}

impl TableRow for TypeSpecRow {
    const TABLE: TableId = TableId::TypeSpec;

    open spec fn table() -> TableId {
        TableId::TypeSpec
    }

    proof fn lemma_table() {
    }

    open spec fn column_list() -> Seq<ColumnKind> {
        seq![ColumnKind::Blob]
    }

    open spec fn fields(row: RowModel) -> TypeSpecRow {
        TypeSpecRow {
            signature: BlobIndex(row.value(0)),
        }
    }

    fn columns() -> (list: &'static [ColumnKind]) {
        &[ColumnKind::Blob]
    }

    fn decode(cursor: &mut RowCursor<'_>) -> (r: Result<Self>) {
        let columns = Self::columns();
        let cells = cursor.cells(columns)?;
        Ok(
            TypeSpecRow {
                signature: BlobIndex(cells.value(0)),
            },
        )
    }
}

/// `ImplMap` (II.22.22), the P/Invoke mapping.
#[derive(Clone, Copy, PartialEq, Eq, Hash, Debug)]
pub struct ImplMapRow {
    /// `PInvokeAttributes`.
    pub mapping_flags: u16,
    /// The managed method or field the mapping applies to.
    pub member_forwarded: Token,
    /// The unmanaged entry point name.
    pub import_name: StringIndex,
    /// The module the entry point lives in.
    pub import_scope: Rid<marker::ModuleRef>,
}

impl Default for ImplMapRow {
    fn default() -> (row: Self)
        ensures
            row == (ImplMapRow {
                mapping_flags: 0,
                member_forwarded: Token(0),
                import_name: StringIndex(0),
                import_scope: Rid::<marker::ModuleRef>::of(0),
            }),
    {
        ImplMapRow {
            mapping_flags: 0,
            member_forwarded: Token(0),
            import_name: StringIndex(0),
            import_scope: Rid::new(0),
        }
    }
}

impl TableRow for ImplMapRow {
    const TABLE: TableId = TableId::ImplMap;

    open spec fn table() -> TableId {
        TableId::ImplMap
    }

    proof fn lemma_table() {
    }

    open spec fn column_list() -> Seq<ColumnKind> {
        seq![
            ColumnKind::U16,
            ColumnKind::Coded(CodedIndex::MemberForwarded),
            ColumnKind::String,
            ColumnKind::Rid(TableId::ModuleRef),
        ]
    }

    open spec fn fields(row: RowModel) -> ImplMapRow {
        ImplMapRow {
            mapping_flags: row.half(0),
            member_forwarded: row.token(1, CodedIndex::MemberForwarded),
            import_name: StringIndex(row.value(2)),
            import_scope: Rid::<marker::ModuleRef>::of(row.value(3)),
        }
    }

    fn columns() -> (list: &'static [ColumnKind]) {
        &[
            ColumnKind::U16,
            ColumnKind::Coded(CodedIndex::MemberForwarded),
            ColumnKind::String,
            ColumnKind::Rid(TableId::ModuleRef),
        ]
    }

    fn decode(cursor: &mut RowCursor<'_>) -> (r: Result<Self>) {
        let columns = Self::columns();
        let cells = cursor.cells(columns)?;
        Ok(
            ImplMapRow {
                mapping_flags: cells.half(0),
                member_forwarded: cells.token(1, CodedIndex::MemberForwarded),
                import_name: StringIndex(cells.value(2)),
                import_scope: Rid::<marker::ModuleRef>::new(cells.value(3)),
            },
        )
    }
}

/// `FieldRVA` (II.22.18).
#[derive(Clone, Copy, PartialEq, Eq, Hash, Debug)]
pub struct FieldRvaRow {
    /// The RVA of the initial data.
    pub rva: u32,
    /// The field the data initialises.
    pub field: Rid<marker::Field>,
}

impl Default for FieldRvaRow {
    fn default() -> (row: Self)
        ensures
            row == (FieldRvaRow {
                rva: 0,
                field: Rid::<marker::Field>::of(0),
            }),
    {
        FieldRvaRow {
            rva: 0,
            field: Rid::new(0),
        }
    }
}

impl TableRow for FieldRvaRow {
    const TABLE: TableId = TableId::FieldRva;

    open spec fn table() -> TableId {
        TableId::FieldRva
    }

    proof fn lemma_table() {
    }

    open spec fn column_list() -> Seq<ColumnKind> {
        seq![ColumnKind::U32, ColumnKind::Rid(TableId::Field)]
    }

    open spec fn fields(row: RowModel) -> FieldRvaRow {
        FieldRvaRow {
            rva: row.value(0),
            field: Rid::<marker::Field>::of(row.value(1)),
        }
    }

    fn columns() -> (list: &'static [ColumnKind]) {
        &[ColumnKind::U32, ColumnKind::Rid(TableId::Field)]
    }

    fn decode(cursor: &mut RowCursor<'_>) -> (r: Result<Self>) {
        let columns = Self::columns();
        let cells = cursor.cells(columns)?;
        Ok(
            FieldRvaRow {
                rva: cells.value(0),
                field: Rid::<marker::Field>::new(cells.value(1)),
            },
        )
    }
}

/// `ENCLog`, present only in `#-` streams.
#[derive(Clone, Copy, PartialEq, Eq, Hash, Debug)]
pub struct EncLogRow {
    /// The token affected by the delta.
    pub token: u32,
    /// The function code describing the change.
    pub func_code: u32,
}

impl Default for EncLogRow {
    fn default() -> (row: Self)
        ensures
            row == (EncLogRow {
                token: 0,
                func_code: 0,
            }),
    {
        EncLogRow {
            token: 0,
            func_code: 0,
        }
    }
}

impl TableRow for EncLogRow {
    const TABLE: TableId = TableId::EncLog;

    open spec fn table() -> TableId {
        TableId::EncLog
    }

    proof fn lemma_table() {
    }

    open spec fn column_list() -> Seq<ColumnKind> {
        seq![ColumnKind::U32, ColumnKind::U32]
    }

    open spec fn fields(row: RowModel) -> EncLogRow {
        EncLogRow {
            token: row.value(0),
            func_code: row.value(1),
        }
    }

    fn columns() -> (list: &'static [ColumnKind]) {
        &[ColumnKind::U32, ColumnKind::U32]
    }

    fn decode(cursor: &mut RowCursor<'_>) -> (r: Result<Self>) {
        let columns = Self::columns();
        let cells = cursor.cells(columns)?;
        Ok(
            EncLogRow {
                token: cells.value(0),
                func_code: cells.value(1),
            },
        )
    }
}

/// `ENCMap`, present only in `#-` streams.
#[derive(Clone, Copy, PartialEq, Eq, Hash, Debug)]
pub struct EncMapRow {
    /// The token this map entry describes.
    pub token: u32,
}

impl Default for EncMapRow {
    fn default() -> (row: Self)
        ensures
            row == (EncMapRow {
                token: 0,
            }),
    {
        EncMapRow {
            token: 0,
        }
    }
}

impl TableRow for EncMapRow {
    const TABLE: TableId = TableId::EncMap;

    open spec fn table() -> TableId {
        TableId::EncMap
    }

    proof fn lemma_table() {
    }

    open spec fn column_list() -> Seq<ColumnKind> {
        seq![ColumnKind::U32]
    }

    open spec fn fields(row: RowModel) -> EncMapRow {
        EncMapRow {
            token: row.value(0),
        }
    }

    fn columns() -> (list: &'static [ColumnKind]) {
        &[ColumnKind::U32]
    }

    fn decode(cursor: &mut RowCursor<'_>) -> (r: Result<Self>) {
        let columns = Self::columns();
        let cells = cursor.cells(columns)?;
        Ok(
            EncMapRow {
                token: cells.value(0),
            },
        )
    }
}

/// `Assembly` (II.22.2).
#[derive(Clone, Copy, PartialEq, Eq, Hash, Debug)]
pub struct AssemblyRow {
    /// `AssemblyHashAlgorithm`.
    pub hash_alg_id: u32,
    /// Version major.
    pub major_version: u16,
    /// Version minor.
    pub minor_version: u16,
    /// Version build.
    pub build_number: u16,
    /// Version revision.
    pub revision_number: u16,
    /// `AssemblyFlags`.
    pub flags: u32,
    /// The public key, empty when the assembly is not strong-named.
    pub public_key: BlobIndex,
    /// The simple assembly name.
    pub name: StringIndex,
    /// The culture name, empty for a culture-neutral assembly.
    pub culture: StringIndex,
}

impl Default for AssemblyRow {
    fn default() -> (row: Self)
        ensures
            row == (AssemblyRow {
                hash_alg_id: 0,
                major_version: 0,
                minor_version: 0,
                build_number: 0,
                revision_number: 0,
                flags: 0,
                public_key: BlobIndex(0),
                name: StringIndex(0),
                culture: StringIndex(0),
            }),
    {
        AssemblyRow {
            hash_alg_id: 0,
            major_version: 0,
            minor_version: 0,
            build_number: 0,
            revision_number: 0,
            flags: 0,
            public_key: BlobIndex(0),
            name: StringIndex(0),
            culture: StringIndex(0),
        }
    }
}

impl TableRow for AssemblyRow {
    const TABLE: TableId = TableId::Assembly;

    open spec fn table() -> TableId {
        TableId::Assembly
    }

    proof fn lemma_table() {
    }

    open spec fn column_list() -> Seq<ColumnKind> {
        seq![
            ColumnKind::U32,
            ColumnKind::U16,
            ColumnKind::U16,
            ColumnKind::U16,
            ColumnKind::U16,
            ColumnKind::U32,
            ColumnKind::Blob,
            ColumnKind::String,
            ColumnKind::String,
        ]
    }

    open spec fn fields(row: RowModel) -> AssemblyRow {
        AssemblyRow {
            hash_alg_id: row.value(0),
            major_version: row.half(1),
            minor_version: row.half(2),
            build_number: row.half(3),
            revision_number: row.half(4),
            flags: row.value(5),
            public_key: BlobIndex(row.value(6)),
            name: StringIndex(row.value(7)),
            culture: StringIndex(row.value(8)),
        }
    }

    fn columns() -> (list: &'static [ColumnKind]) {
        &[
            ColumnKind::U32,
            ColumnKind::U16,
            ColumnKind::U16,
            ColumnKind::U16,
            ColumnKind::U16,
            ColumnKind::U32,
            ColumnKind::Blob,
            ColumnKind::String,
            ColumnKind::String,
        ]
    }

    fn decode(cursor: &mut RowCursor<'_>) -> (r: Result<Self>) {
        let columns = Self::columns();
        let cells = cursor.cells(columns)?;
        Ok(
            AssemblyRow {
                hash_alg_id: cells.value(0),
                major_version: cells.half(1),
                minor_version: cells.half(2),
                build_number: cells.half(3),
                revision_number: cells.half(4),
                flags: cells.value(5),
                public_key: BlobIndex(cells.value(6)),
                name: StringIndex(cells.value(7)),
                culture: StringIndex(cells.value(8)),
            },
        )
    }
}

/// `AssemblyProcessor` (II.22.4); the runtime ignores this table.
#[derive(Clone, Copy, PartialEq, Eq, Hash, Debug)]
pub struct AssemblyProcessorRow {
    /// The processor id.
    pub processor: u32,
}

impl Default for AssemblyProcessorRow {
    fn default() -> (row: Self)
        ensures
            row == (AssemblyProcessorRow {
                processor: 0,
            }),
    {
        AssemblyProcessorRow {
            processor: 0,
        }
    }
}

impl TableRow for AssemblyProcessorRow {
    const TABLE: TableId = TableId::AssemblyProcessor;

    open spec fn table() -> TableId {
        TableId::AssemblyProcessor
    }

    proof fn lemma_table() {
    }

    open spec fn column_list() -> Seq<ColumnKind> {
        seq![ColumnKind::U32]
    }

    open spec fn fields(row: RowModel) -> AssemblyProcessorRow {
        AssemblyProcessorRow {
            processor: row.value(0),
        }
    }

    fn columns() -> (list: &'static [ColumnKind]) {
        &[ColumnKind::U32]
    }

    fn decode(cursor: &mut RowCursor<'_>) -> (r: Result<Self>) {
        let columns = Self::columns();
        let cells = cursor.cells(columns)?;
        Ok(
            AssemblyProcessorRow {
                processor: cells.value(0),
            },
        )
    }
}

/// `AssemblyOS` (II.22.3); the runtime ignores this table.
#[derive(Clone, Copy, PartialEq, Eq, Hash, Debug)]
pub struct AssemblyOsRow {
    /// The platform id.
    pub os_platform_id: u32,
    /// The major OS version.
    pub os_major_version: u32,
    /// The minor OS version.
    pub os_minor_version: u32,
}

impl Default for AssemblyOsRow {
    fn default() -> (row: Self)
        ensures
            row == (AssemblyOsRow {
                os_platform_id: 0,
                os_major_version: 0,
                os_minor_version: 0,
            }),
    {
        AssemblyOsRow {
            os_platform_id: 0,
            os_major_version: 0,
            os_minor_version: 0,
        }
    }
}

impl TableRow for AssemblyOsRow {
    const TABLE: TableId = TableId::AssemblyOs;

    open spec fn table() -> TableId {
        TableId::AssemblyOs
    }

    proof fn lemma_table() {
    }

    open spec fn column_list() -> Seq<ColumnKind> {
        seq![ColumnKind::U32, ColumnKind::U32, ColumnKind::U32]
    }

    open spec fn fields(row: RowModel) -> AssemblyOsRow {
        AssemblyOsRow {
            os_platform_id: row.value(0),
            os_major_version: row.value(1),
            os_minor_version: row.value(2),
        }
    }

    fn columns() -> (list: &'static [ColumnKind]) {
        &[ColumnKind::U32, ColumnKind::U32, ColumnKind::U32]
    }

    fn decode(cursor: &mut RowCursor<'_>) -> (r: Result<Self>) {
        let columns = Self::columns();
        let cells = cursor.cells(columns)?;
        Ok(
            AssemblyOsRow {
                os_platform_id: cells.value(0),
                os_major_version: cells.value(1),
                os_minor_version: cells.value(2),
            },
        )
    }
}

/// `AssemblyRef` (II.22.5).
#[derive(Clone, Copy, PartialEq, Eq, Hash, Debug)]
pub struct AssemblyRefRow {
    /// Version major.
    pub major_version: u16,
    /// Version minor.
    pub minor_version: u16,
    /// Version build.
    pub build_number: u16,
    /// Version revision.
    pub revision_number: u16,
    /// `AssemblyFlags`.
    pub flags: u32,
    /// The full public key or its 8-byte token.
    pub public_key_or_token: BlobIndex,
    /// The simple assembly name.
    pub name: StringIndex,
    /// The culture name.
    pub culture: StringIndex,
    /// The hash of the referenced assembly, usually empty.
    pub hash_value: BlobIndex,
}

impl Default for AssemblyRefRow {
    fn default() -> (row: Self)
        ensures
            row == (AssemblyRefRow {
                major_version: 0,
                minor_version: 0,
                build_number: 0,
                revision_number: 0,
                flags: 0,
                public_key_or_token: BlobIndex(0),
                name: StringIndex(0),
                culture: StringIndex(0),
                hash_value: BlobIndex(0),
            }),
    {
        AssemblyRefRow {
            major_version: 0,
            minor_version: 0,
            build_number: 0,
            revision_number: 0,
            flags: 0,
            public_key_or_token: BlobIndex(0),
            name: StringIndex(0),
            culture: StringIndex(0),
            hash_value: BlobIndex(0),
        }
    }
}

impl TableRow for AssemblyRefRow {
    const TABLE: TableId = TableId::AssemblyRef;

    open spec fn table() -> TableId {
        TableId::AssemblyRef
    }

    proof fn lemma_table() {
    }

    open spec fn column_list() -> Seq<ColumnKind> {
        seq![
            ColumnKind::U16,
            ColumnKind::U16,
            ColumnKind::U16,
            ColumnKind::U16,
            ColumnKind::U32,
            ColumnKind::Blob,
            ColumnKind::String,
            ColumnKind::String,
            ColumnKind::Blob,
        ]
    }

    open spec fn fields(row: RowModel) -> AssemblyRefRow {
        AssemblyRefRow {
            major_version: row.half(0),
            minor_version: row.half(1),
            build_number: row.half(2),
            revision_number: row.half(3),
            flags: row.value(4),
            public_key_or_token: BlobIndex(row.value(5)),
            name: StringIndex(row.value(6)),
            culture: StringIndex(row.value(7)),
            hash_value: BlobIndex(row.value(8)),
        }
    }

    fn columns() -> (list: &'static [ColumnKind]) {
        &[
            ColumnKind::U16,
            ColumnKind::U16,
            ColumnKind::U16,
            ColumnKind::U16,
            ColumnKind::U32,
            ColumnKind::Blob,
            ColumnKind::String,
            ColumnKind::String,
            ColumnKind::Blob,
        ]
    }

    fn decode(cursor: &mut RowCursor<'_>) -> (r: Result<Self>) {
        let columns = Self::columns();
        let cells = cursor.cells(columns)?;
        Ok(
            AssemblyRefRow {
                major_version: cells.half(0),
                minor_version: cells.half(1),
                build_number: cells.half(2),
                revision_number: cells.half(3),
                flags: cells.value(4),
                public_key_or_token: BlobIndex(cells.value(5)),
                name: StringIndex(cells.value(6)),
                culture: StringIndex(cells.value(7)),
                hash_value: BlobIndex(cells.value(8)),
            },
        )
    }
}

/// `AssemblyRefProcessor` (II.22.7); the runtime ignores this table.
#[derive(Clone, Copy, PartialEq, Eq, Hash, Debug)]
pub struct AssemblyRefProcessorRow {
    /// The processor id.
    pub processor: u32,
    /// The assembly reference.
    pub assembly_ref: Rid<marker::AssemblyRef>,
}

impl Default for AssemblyRefProcessorRow {
    fn default() -> (row: Self)
        ensures
            row == (AssemblyRefProcessorRow {
                processor: 0,
                assembly_ref: Rid::<marker::AssemblyRef>::of(0),
            }),
    {
        AssemblyRefProcessorRow {
            processor: 0,
            assembly_ref: Rid::new(0),
        }
    }
}

impl TableRow for AssemblyRefProcessorRow {
    const TABLE: TableId = TableId::AssemblyRefProcessor;

    open spec fn table() -> TableId {
        TableId::AssemblyRefProcessor
    }

    proof fn lemma_table() {
    }

    open spec fn column_list() -> Seq<ColumnKind> {
        seq![ColumnKind::U32, ColumnKind::Rid(TableId::AssemblyRef)]
    }

    open spec fn fields(row: RowModel) -> AssemblyRefProcessorRow {
        AssemblyRefProcessorRow {
            processor: row.value(0),
            assembly_ref: Rid::<marker::AssemblyRef>::of(row.value(1)),
        }
    }

    fn columns() -> (list: &'static [ColumnKind]) {
        &[ColumnKind::U32, ColumnKind::Rid(TableId::AssemblyRef)]
    }

    fn decode(cursor: &mut RowCursor<'_>) -> (r: Result<Self>) {
        let columns = Self::columns();
        let cells = cursor.cells(columns)?;
        Ok(
            AssemblyRefProcessorRow {
                processor: cells.value(0),
                assembly_ref: Rid::<marker::AssemblyRef>::new(cells.value(1)),
            },
        )
    }
}

/// `AssemblyRefOS` (II.22.6); the runtime ignores this table.
#[derive(Clone, Copy, PartialEq, Eq, Hash, Debug)]
pub struct AssemblyRefOsRow {
    /// The platform id.
    pub os_platform_id: u32,
    /// The major OS version.
    pub os_major_version: u32,
    /// The minor OS version.
    pub os_minor_version: u32,
    /// The assembly reference.
    pub assembly_ref: Rid<marker::AssemblyRef>,
}

impl Default for AssemblyRefOsRow {
    fn default() -> (row: Self)
        ensures
            row == (AssemblyRefOsRow {
                os_platform_id: 0,
                os_major_version: 0,
                os_minor_version: 0,
                assembly_ref: Rid::<marker::AssemblyRef>::of(0),
            }),
    {
        AssemblyRefOsRow {
            os_platform_id: 0,
            os_major_version: 0,
            os_minor_version: 0,
            assembly_ref: Rid::new(0),
        }
    }
}

impl TableRow for AssemblyRefOsRow {
    const TABLE: TableId = TableId::AssemblyRefOs;

    open spec fn table() -> TableId {
        TableId::AssemblyRefOs
    }

    proof fn lemma_table() {
    }

    open spec fn column_list() -> Seq<ColumnKind> {
        seq![
            ColumnKind::U32,
            ColumnKind::U32,
            ColumnKind::U32,
            ColumnKind::Rid(TableId::AssemblyRef),
        ]
    }

    open spec fn fields(row: RowModel) -> AssemblyRefOsRow {
        AssemblyRefOsRow {
            os_platform_id: row.value(0),
            os_major_version: row.value(1),
            os_minor_version: row.value(2),
            assembly_ref: Rid::<marker::AssemblyRef>::of(row.value(3)),
        }
    }

    fn columns() -> (list: &'static [ColumnKind]) {
        &[
            ColumnKind::U32,
            ColumnKind::U32,
            ColumnKind::U32,
            ColumnKind::Rid(TableId::AssemblyRef),
        ]
    }

    fn decode(cursor: &mut RowCursor<'_>) -> (r: Result<Self>) {
        let columns = Self::columns();
        let cells = cursor.cells(columns)?;
        Ok(
            AssemblyRefOsRow {
                os_platform_id: cells.value(0),
                os_major_version: cells.value(1),
                os_minor_version: cells.value(2),
                assembly_ref: Rid::<marker::AssemblyRef>::new(cells.value(3)),
            },
        )
    }
}

/// `File` (II.22.19).
#[derive(Clone, Copy, PartialEq, Eq, Hash, Debug)]
pub struct FileRow {
    /// `FileAttributes`.
    pub flags: u32,
    /// The file name.
    pub name: StringIndex,
    /// The file hash.
    pub hash_value: BlobIndex,
}

impl Default for FileRow {
    fn default() -> (row: Self)
        ensures
            row == (FileRow {
                flags: 0,
                name: StringIndex(0),
                hash_value: BlobIndex(0),
            }),
    {
        FileRow {
            flags: 0,
            name: StringIndex(0),
            hash_value: BlobIndex(0),
        }
    }
}

impl TableRow for FileRow {
    const TABLE: TableId = TableId::File;

    open spec fn table() -> TableId {
        TableId::File
    }

    proof fn lemma_table() {
    }

    open spec fn column_list() -> Seq<ColumnKind> {
        seq![ColumnKind::U32, ColumnKind::String, ColumnKind::Blob]
    }

    open spec fn fields(row: RowModel) -> FileRow {
        FileRow {
            flags: row.value(0),
            name: StringIndex(row.value(1)),
            hash_value: BlobIndex(row.value(2)),
        }
    }

    fn columns() -> (list: &'static [ColumnKind]) {
        &[ColumnKind::U32, ColumnKind::String, ColumnKind::Blob]
    }

    fn decode(cursor: &mut RowCursor<'_>) -> (r: Result<Self>) {
        let columns = Self::columns();
        let cells = cursor.cells(columns)?;
        Ok(
            FileRow {
                flags: cells.value(0),
                name: StringIndex(cells.value(1)),
                hash_value: BlobIndex(cells.value(2)),
            },
        )
    }
}

/// `ExportedType` (II.22.14).
#[derive(Clone, Copy, PartialEq, Eq, Hash, Debug)]
pub struct ExportedTypeRow {
    /// `TypeAttributes`.
    pub flags: u32,
    /// A hint at the `TypeDef` RID in the target file.
    pub type_def_id: u32,
    /// The type name.
    pub name: StringIndex,
    /// The namespace.
    pub type_namespace: StringIndex,
    /// The file or assembly the type lives in.
    pub implementation: Token,
}

impl Default for ExportedTypeRow {
    fn default() -> (row: Self)
        ensures
            row == (ExportedTypeRow {
                flags: 0,
                type_def_id: 0,
                name: StringIndex(0),
                type_namespace: StringIndex(0),
                implementation: Token(0),
            }),
    {
        ExportedTypeRow {
            flags: 0,
            type_def_id: 0,
            name: StringIndex(0),
            type_namespace: StringIndex(0),
            implementation: Token(0),
        }
    }
}

impl TableRow for ExportedTypeRow {
    const TABLE: TableId = TableId::ExportedType;

    open spec fn table() -> TableId {
        TableId::ExportedType
    }

    proof fn lemma_table() {
    }

    open spec fn column_list() -> Seq<ColumnKind> {
        seq![
            ColumnKind::U32,
            ColumnKind::U32,
            ColumnKind::String,
            ColumnKind::String,
            ColumnKind::Coded(CodedIndex::Implementation),
        ]
    }

    open spec fn fields(row: RowModel) -> ExportedTypeRow {
        ExportedTypeRow {
            flags: row.value(0),
            type_def_id: row.value(1),
            name: StringIndex(row.value(2)),
            type_namespace: StringIndex(row.value(3)),
            implementation: row.token(4, CodedIndex::Implementation),
        }
    }

    fn columns() -> (list: &'static [ColumnKind]) {
        &[
            ColumnKind::U32,
            ColumnKind::U32,
            ColumnKind::String,
            ColumnKind::String,
            ColumnKind::Coded(CodedIndex::Implementation),
        ]
    }

    fn decode(cursor: &mut RowCursor<'_>) -> (r: Result<Self>) {
        let columns = Self::columns();
        let cells = cursor.cells(columns)?;
        Ok(
            ExportedTypeRow {
                flags: cells.value(0),
                type_def_id: cells.value(1),
                name: StringIndex(cells.value(2)),
                type_namespace: StringIndex(cells.value(3)),
                implementation: cells.token(4, CodedIndex::Implementation),
            },
        )
    }
}

/// `ManifestResource` (II.22.24).
#[derive(Clone, Copy, PartialEq, Eq, Hash, Debug)]
pub struct ManifestResourceRow {
    /// The offset into the resources directory, when embedded.
    pub offset: u32,
    /// `ManifestResourceAttributes`.
    pub flags: u32,
    /// The resource name.
    pub name: StringIndex,
    /// The file or assembly holding the resource; null means this file.
    pub implementation: Token,
}

impl Default for ManifestResourceRow {
    fn default() -> (row: Self)
        ensures
            row == (ManifestResourceRow {
                offset: 0,
                flags: 0,
                name: StringIndex(0),
                implementation: Token(0),
            }),
    {
        ManifestResourceRow {
            offset: 0,
            flags: 0,
            name: StringIndex(0),
            implementation: Token(0),
        }
    }
}

impl TableRow for ManifestResourceRow {
    const TABLE: TableId = TableId::ManifestResource;

    open spec fn table() -> TableId {
        TableId::ManifestResource
    }

    proof fn lemma_table() {
    }

    open spec fn column_list() -> Seq<ColumnKind> {
        seq![
            ColumnKind::U32,
            ColumnKind::U32,
            ColumnKind::String,
            ColumnKind::Coded(CodedIndex::Implementation),
        ]
    }

    open spec fn fields(row: RowModel) -> ManifestResourceRow {
        ManifestResourceRow {
            offset: row.value(0),
            flags: row.value(1),
            name: StringIndex(row.value(2)),
            implementation: row.token(3, CodedIndex::Implementation),
        }
    }

    fn columns() -> (list: &'static [ColumnKind]) {
        &[
            ColumnKind::U32,
            ColumnKind::U32,
            ColumnKind::String,
            ColumnKind::Coded(CodedIndex::Implementation),
        ]
    }

    fn decode(cursor: &mut RowCursor<'_>) -> (r: Result<Self>) {
        let columns = Self::columns();
        let cells = cursor.cells(columns)?;
        Ok(
            ManifestResourceRow {
                offset: cells.value(0),
                flags: cells.value(1),
                name: StringIndex(cells.value(2)),
                implementation: cells.token(3, CodedIndex::Implementation),
            },
        )
    }
}

/// `NestedClass` (II.22.32).
#[derive(Clone, Copy, PartialEq, Eq, Hash, Debug)]
pub struct NestedClassRow {
    /// The nested type.
    pub nested_class: Rid<marker::TypeDef>,
    /// The enclosing type.
    pub enclosing_class: Rid<marker::TypeDef>,
}

impl Default for NestedClassRow {
    fn default() -> (row: Self)
        ensures
            row == (NestedClassRow {
                nested_class: Rid::<marker::TypeDef>::of(0),
                enclosing_class: Rid::<marker::TypeDef>::of(0),
            }),
    {
        NestedClassRow {
            nested_class: Rid::new(0),
            enclosing_class: Rid::new(0),
        }
    }
}

impl TableRow for NestedClassRow {
    const TABLE: TableId = TableId::NestedClass;

    open spec fn table() -> TableId {
        TableId::NestedClass
    }

    proof fn lemma_table() {
    }

    open spec fn column_list() -> Seq<ColumnKind> {
        seq![ColumnKind::Rid(TableId::TypeDef), ColumnKind::Rid(TableId::TypeDef)]
    }

    open spec fn fields(row: RowModel) -> NestedClassRow {
        NestedClassRow {
            nested_class: Rid::<marker::TypeDef>::of(row.value(0)),
            enclosing_class: Rid::<marker::TypeDef>::of(row.value(1)),
        }
    }

    fn columns() -> (list: &'static [ColumnKind]) {
        &[ColumnKind::Rid(TableId::TypeDef), ColumnKind::Rid(TableId::TypeDef)]
    }

    fn decode(cursor: &mut RowCursor<'_>) -> (r: Result<Self>) {
        let columns = Self::columns();
        let cells = cursor.cells(columns)?;
        Ok(
            NestedClassRow {
                nested_class: Rid::<marker::TypeDef>::new(cells.value(0)),
                enclosing_class: Rid::<marker::TypeDef>::new(cells.value(1)),
            },
        )
    }
}

/// `GenericParam` (II.22.20).
#[derive(Clone, Copy, PartialEq, Eq, Hash, Debug)]
pub struct GenericParamRow {
    /// The 0-based position of the parameter in its owner list.
    pub number: u16,
    /// `GenericParamAttributes`: variance and special constraints.
    pub flags: u16,
    /// The generic type or method that declares the parameter.
    pub owner: Token,
    /// The parameter name.
    pub name: StringIndex,
}

impl Default for GenericParamRow {
    fn default() -> (row: Self)
        ensures
            row == (GenericParamRow {
                number: 0,
                flags: 0,
                owner: Token(0),
                name: StringIndex(0),
            }),
    {
        GenericParamRow {
            number: 0,
            flags: 0,
            owner: Token(0),
            name: StringIndex(0),
        }
    }
}

impl TableRow for GenericParamRow {
    const TABLE: TableId = TableId::GenericParam;

    open spec fn table() -> TableId {
        TableId::GenericParam
    }

    proof fn lemma_table() {
    }

    open spec fn column_list() -> Seq<ColumnKind> {
        seq![
            ColumnKind::U16,
            ColumnKind::U16,
            ColumnKind::Coded(CodedIndex::TypeOrMethodDef),
            ColumnKind::String,
        ]
    }

    open spec fn fields(row: RowModel) -> GenericParamRow {
        GenericParamRow {
            number: row.half(0),
            flags: row.half(1),
            owner: row.token(2, CodedIndex::TypeOrMethodDef),
            name: StringIndex(row.value(3)),
        }
    }

    fn columns() -> (list: &'static [ColumnKind]) {
        &[
            ColumnKind::U16,
            ColumnKind::U16,
            ColumnKind::Coded(CodedIndex::TypeOrMethodDef),
            ColumnKind::String,
        ]
    }

    fn decode(cursor: &mut RowCursor<'_>) -> (r: Result<Self>) {
        let columns = Self::columns();
        let cells = cursor.cells(columns)?;
        Ok(
            GenericParamRow {
                number: cells.half(0),
                flags: cells.half(1),
                owner: cells.token(2, CodedIndex::TypeOrMethodDef),
                name: StringIndex(cells.value(3)),
            },
        )
    }
}

/// `MethodSpec` (II.22.29).
#[derive(Clone, Copy, PartialEq, Eq, Hash, Debug)]
pub struct MethodSpecRow {
    /// The generic method being instantiated.
    pub method: Token,
    /// A `MethodSpec` signature blob holding the type arguments.
    pub instantiation: BlobIndex,
}

impl Default for MethodSpecRow {
    fn default() -> (row: Self)
        ensures
            row == (MethodSpecRow {
                method: Token(0),
                instantiation: BlobIndex(0),
            }),
    {
        MethodSpecRow {
            method: Token(0),
            instantiation: BlobIndex(0),
        }
    }
}

impl TableRow for MethodSpecRow {
    const TABLE: TableId = TableId::MethodSpec;

    open spec fn table() -> TableId {
        TableId::MethodSpec
    }

    proof fn lemma_table() {
    }

    open spec fn column_list() -> Seq<ColumnKind> {
        seq![ColumnKind::Coded(CodedIndex::MethodDefOrRef), ColumnKind::Blob]
    }

    open spec fn fields(row: RowModel) -> MethodSpecRow {
        MethodSpecRow {
            method: row.token(0, CodedIndex::MethodDefOrRef),
            instantiation: BlobIndex(row.value(1)),
        }
    }

    fn columns() -> (list: &'static [ColumnKind]) {
        &[ColumnKind::Coded(CodedIndex::MethodDefOrRef), ColumnKind::Blob]
    }

    fn decode(cursor: &mut RowCursor<'_>) -> (r: Result<Self>) {
        let columns = Self::columns();
        let cells = cursor.cells(columns)?;
        Ok(
            MethodSpecRow {
                method: cells.token(0, CodedIndex::MethodDefOrRef),
                instantiation: BlobIndex(cells.value(1)),
            },
        )
    }
}

/// `GenericParamConstraint` (II.22.21).
#[derive(Clone, Copy, PartialEq, Eq, Hash, Debug)]
pub struct GenericParamConstraintRow {
    /// The constrained generic parameter.
    pub owner: Rid<marker::GenericParam>,
    /// The constraining type.
    pub constraint: Token,
}

impl Default for GenericParamConstraintRow {
    fn default() -> (row: Self)
        ensures
            row == (GenericParamConstraintRow {
                owner: Rid::<marker::GenericParam>::of(0),
                constraint: Token(0),
            }),
    {
        GenericParamConstraintRow {
            owner: Rid::new(0),
            constraint: Token(0),
        }
    }
}

impl TableRow for GenericParamConstraintRow {
    const TABLE: TableId = TableId::GenericParamConstraint;

    open spec fn table() -> TableId {
        TableId::GenericParamConstraint
    }

    proof fn lemma_table() {
    }

    open spec fn column_list() -> Seq<ColumnKind> {
        seq![
            ColumnKind::Rid(TableId::GenericParam),
            ColumnKind::Coded(CodedIndex::TypeDefOrRef),
        ]
    }

    open spec fn fields(row: RowModel) -> GenericParamConstraintRow {
        GenericParamConstraintRow {
            owner: Rid::<marker::GenericParam>::of(row.value(0)),
            constraint: row.token(1, CodedIndex::TypeDefOrRef),
        }
    }

    fn columns() -> (list: &'static [ColumnKind]) {
        &[
            ColumnKind::Rid(TableId::GenericParam),
            ColumnKind::Coded(CodedIndex::TypeDefOrRef),
        ]
    }

    fn decode(cursor: &mut RowCursor<'_>) -> (r: Result<Self>) {
        let columns = Self::columns();
        let cells = cursor.cells(columns)?;
        Ok(
            GenericParamConstraintRow {
                owner: Rid::<marker::GenericParam>::new(cells.value(0)),
                constraint: cells.token(1, CodedIndex::TypeDefOrRef),
            },
        )
    }
}

/// Portable PDB `Document`.
#[derive(Clone, Copy, PartialEq, Eq, Hash, Debug)]
pub struct DocumentRow {
    /// The blob-encoded document path.
    pub name: BlobIndex,
    /// The hash algorithm GUID.
    pub hash_algorithm: GuidIndex,
    /// The document hash.
    pub hash: BlobIndex,
    /// The source language GUID.
    pub language: GuidIndex,
}

impl Default for DocumentRow {
    fn default() -> (row: Self)
        ensures
            row == (DocumentRow {
                name: BlobIndex(0),
                hash_algorithm: GuidIndex(0),
                hash: BlobIndex(0),
                language: GuidIndex(0),
            }),
    {
        DocumentRow {
            name: BlobIndex(0),
            hash_algorithm: GuidIndex(0),
            hash: BlobIndex(0),
            language: GuidIndex(0),
        }
    }
}

impl TableRow for DocumentRow {
    const TABLE: TableId = TableId::Document;

    open spec fn table() -> TableId {
        TableId::Document
    }

    proof fn lemma_table() {
    }

    open spec fn column_list() -> Seq<ColumnKind> {
        seq![ColumnKind::Blob, ColumnKind::Guid, ColumnKind::Blob, ColumnKind::Guid]
    }

    open spec fn fields(row: RowModel) -> DocumentRow {
        DocumentRow {
            name: BlobIndex(row.value(0)),
            hash_algorithm: GuidIndex(row.value(1)),
            hash: BlobIndex(row.value(2)),
            language: GuidIndex(row.value(3)),
        }
    }

    fn columns() -> (list: &'static [ColumnKind]) {
        &[ColumnKind::Blob, ColumnKind::Guid, ColumnKind::Blob, ColumnKind::Guid]
    }

    fn decode(cursor: &mut RowCursor<'_>) -> (r: Result<Self>) {
        let columns = Self::columns();
        let cells = cursor.cells(columns)?;
        Ok(
            DocumentRow {
                name: BlobIndex(cells.value(0)),
                hash_algorithm: GuidIndex(cells.value(1)),
                hash: BlobIndex(cells.value(2)),
                language: GuidIndex(cells.value(3)),
            },
        )
    }
}

/// Portable PDB `MethodDebugInformation`.
#[derive(Clone, Copy, PartialEq, Eq, Hash, Debug)]
pub struct MethodDebugInformationRow {
    /// The single document, when all sequence points share one.
    pub document: Rid<marker::Document>,
    /// The sequence point blob; it is not decoded.
    pub sequence_points: BlobIndex,
}

impl Default for MethodDebugInformationRow {
    fn default() -> (row: Self)
        ensures
            row == (MethodDebugInformationRow {
                document: Rid::<marker::Document>::of(0),
                sequence_points: BlobIndex(0),
            }),
    {
        MethodDebugInformationRow {
            document: Rid::new(0),
            sequence_points: BlobIndex(0),
        }
    }
}

impl TableRow for MethodDebugInformationRow {
    const TABLE: TableId = TableId::MethodDebugInformation;

    open spec fn table() -> TableId {
        TableId::MethodDebugInformation
    }

    proof fn lemma_table() {
    }

    open spec fn column_list() -> Seq<ColumnKind> {
        seq![ColumnKind::Rid(TableId::Document), ColumnKind::Blob]
    }

    open spec fn fields(row: RowModel) -> MethodDebugInformationRow {
        MethodDebugInformationRow {
            document: Rid::<marker::Document>::of(row.value(0)),
            sequence_points: BlobIndex(row.value(1)),
        }
    }

    fn columns() -> (list: &'static [ColumnKind]) {
        &[ColumnKind::Rid(TableId::Document), ColumnKind::Blob]
    }

    fn decode(cursor: &mut RowCursor<'_>) -> (r: Result<Self>) {
        let columns = Self::columns();
        let cells = cursor.cells(columns)?;
        Ok(
            MethodDebugInformationRow {
                document: Rid::<marker::Document>::new(cells.value(0)),
                sequence_points: BlobIndex(cells.value(1)),
            },
        )
    }
}

/// Portable PDB `LocalScope`.
#[derive(Clone, Copy, PartialEq, Eq, Hash, Debug)]
pub struct LocalScopeRow {
    /// The method the scope belongs to.
    pub method: Rid<marker::MethodDef>,
    /// The import scope in effect.
    pub import_scope: Rid<marker::ImportScope>,
    /// The first local variable in the scope.
    pub variable_list: Rid<marker::LocalVariable>,
    /// The first local constant in the scope.
    pub constant_list: Rid<marker::LocalConstant>,
    /// The IL offset the scope starts at.
    pub start_offset: u32,
    /// The length of the scope in IL bytes.
    pub length: u32,
}

impl Default for LocalScopeRow {
    fn default() -> (row: Self)
        ensures
            row == (LocalScopeRow {
                method: Rid::<marker::MethodDef>::of(0),
                import_scope: Rid::<marker::ImportScope>::of(0),
                variable_list: Rid::<marker::LocalVariable>::of(0),
                constant_list: Rid::<marker::LocalConstant>::of(0),
                start_offset: 0,
                length: 0,
            }),
    {
        LocalScopeRow {
            method: Rid::new(0),
            import_scope: Rid::new(0),
            variable_list: Rid::new(0),
            constant_list: Rid::new(0),
            start_offset: 0,
            length: 0,
        }
    }
}

impl TableRow for LocalScopeRow {
    const TABLE: TableId = TableId::LocalScope;

    open spec fn table() -> TableId {
        TableId::LocalScope
    }

    proof fn lemma_table() {
    }

    open spec fn column_list() -> Seq<ColumnKind> {
        seq![
            ColumnKind::Rid(TableId::MethodDef),
            ColumnKind::Rid(TableId::ImportScope),
            ColumnKind::Rid(TableId::LocalVariable),
            ColumnKind::Rid(TableId::LocalConstant),
            ColumnKind::U32,
            ColumnKind::U32,
        ]
    }

    open spec fn fields(row: RowModel) -> LocalScopeRow {
        LocalScopeRow {
            method: Rid::<marker::MethodDef>::of(row.value(0)),
            import_scope: Rid::<marker::ImportScope>::of(row.value(1)),
            variable_list: Rid::<marker::LocalVariable>::of(row.value(2)),
            constant_list: Rid::<marker::LocalConstant>::of(row.value(3)),
            start_offset: row.value(4),
            length: row.value(5),
        }
    }

    fn columns() -> (list: &'static [ColumnKind]) {
        &[
            ColumnKind::Rid(TableId::MethodDef),
            ColumnKind::Rid(TableId::ImportScope),
            ColumnKind::Rid(TableId::LocalVariable),
            ColumnKind::Rid(TableId::LocalConstant),
            ColumnKind::U32,
            ColumnKind::U32,
        ]
    }

    fn decode(cursor: &mut RowCursor<'_>) -> (r: Result<Self>) {
        let columns = Self::columns();
        let cells = cursor.cells(columns)?;
        Ok(
            LocalScopeRow {
                method: Rid::<marker::MethodDef>::new(cells.value(0)),
                import_scope: Rid::<marker::ImportScope>::new(cells.value(1)),
                variable_list: Rid::<marker::LocalVariable>::new(cells.value(2)),
                constant_list: Rid::<marker::LocalConstant>::new(cells.value(3)),
                start_offset: cells.value(4),
                length: cells.value(5),
            },
        )
    }
}

/// Portable PDB `LocalVariable`.
#[derive(Clone, Copy, PartialEq, Eq, Hash, Debug)]
pub struct LocalVariableRow {
    /// `LocalVariableAttributes`.
    pub attributes: u16,
    /// The slot index in the `LocalVarSig`.
    pub index: u16,
    /// The variable name.
    pub name: StringIndex,
}

impl Default for LocalVariableRow {
    fn default() -> (row: Self)
        ensures
            row == (LocalVariableRow {
                attributes: 0,
                index: 0,
                name: StringIndex(0),
            }),
    {
        LocalVariableRow {
            attributes: 0,
            index: 0,
            name: StringIndex(0),
        }
    }
}

impl TableRow for LocalVariableRow {
    const TABLE: TableId = TableId::LocalVariable;

    open spec fn table() -> TableId {
        TableId::LocalVariable
    }

    proof fn lemma_table() {
    }

    open spec fn column_list() -> Seq<ColumnKind> {
        seq![ColumnKind::U16, ColumnKind::U16, ColumnKind::String]
    }

    open spec fn fields(row: RowModel) -> LocalVariableRow {
        LocalVariableRow {
            attributes: row.half(0),
            index: row.half(1),
            name: StringIndex(row.value(2)),
        }
    }

    fn columns() -> (list: &'static [ColumnKind]) {
        &[ColumnKind::U16, ColumnKind::U16, ColumnKind::String]
    }

    fn decode(cursor: &mut RowCursor<'_>) -> (r: Result<Self>) {
        let columns = Self::columns();
        let cells = cursor.cells(columns)?;
        Ok(
            LocalVariableRow {
                attributes: cells.half(0),
                index: cells.half(1),
                name: StringIndex(cells.value(2)),
            },
        )
    }
}

/// Portable PDB `LocalConstant`.
#[derive(Clone, Copy, PartialEq, Eq, Hash, Debug)]
pub struct LocalConstantRow {
    /// The constant name.
    pub name: StringIndex,
    /// The constant signature blob.
    pub signature: BlobIndex,
}

impl Default for LocalConstantRow {
    fn default() -> (row: Self)
        ensures
            row == (LocalConstantRow {
                name: StringIndex(0),
                signature: BlobIndex(0),
            }),
    {
        LocalConstantRow {
            name: StringIndex(0),
            signature: BlobIndex(0),
        }
    }
}

impl TableRow for LocalConstantRow {
    const TABLE: TableId = TableId::LocalConstant;

    open spec fn table() -> TableId {
        TableId::LocalConstant
    }

    proof fn lemma_table() {
    }

    open spec fn column_list() -> Seq<ColumnKind> {
        seq![ColumnKind::String, ColumnKind::Blob]
    }

    open spec fn fields(row: RowModel) -> LocalConstantRow {
        LocalConstantRow {
            name: StringIndex(row.value(0)),
            signature: BlobIndex(row.value(1)),
        }
    }

    fn columns() -> (list: &'static [ColumnKind]) {
        &[ColumnKind::String, ColumnKind::Blob]
    }

    fn decode(cursor: &mut RowCursor<'_>) -> (r: Result<Self>) {
        let columns = Self::columns();
        let cells = cursor.cells(columns)?;
        Ok(
            LocalConstantRow {
                name: StringIndex(cells.value(0)),
                signature: BlobIndex(cells.value(1)),
            },
        )
    }
}

/// Portable PDB `ImportScope`.
#[derive(Clone, Copy, PartialEq, Eq, Hash, Debug)]
pub struct ImportScopeRow {
    /// The enclosing scope, or null at the top.
    pub parent: Rid<marker::ImportScope>,
    /// The imports blob; it is not decoded.
    pub imports: BlobIndex,
}

impl Default for ImportScopeRow {
    fn default() -> (row: Self)
        ensures
            row == (ImportScopeRow {
                parent: Rid::<marker::ImportScope>::of(0),
                imports: BlobIndex(0),
            }),
    {
        ImportScopeRow {
            parent: Rid::new(0),
            imports: BlobIndex(0),
        }
    }
}

impl TableRow for ImportScopeRow {
    const TABLE: TableId = TableId::ImportScope;

    open spec fn table() -> TableId {
        TableId::ImportScope
    }

    proof fn lemma_table() {
    }

    open spec fn column_list() -> Seq<ColumnKind> {
        seq![ColumnKind::Rid(TableId::ImportScope), ColumnKind::Blob]
    }

    open spec fn fields(row: RowModel) -> ImportScopeRow {
        ImportScopeRow {
            parent: Rid::<marker::ImportScope>::of(row.value(0)),
            imports: BlobIndex(row.value(1)),
        }
    }

    fn columns() -> (list: &'static [ColumnKind]) {
        &[ColumnKind::Rid(TableId::ImportScope), ColumnKind::Blob]
    }

    fn decode(cursor: &mut RowCursor<'_>) -> (r: Result<Self>) {
        let columns = Self::columns();
        let cells = cursor.cells(columns)?;
        Ok(
            ImportScopeRow {
                parent: Rid::<marker::ImportScope>::new(cells.value(0)),
                imports: BlobIndex(cells.value(1)),
            },
        )
    }
}

/// Portable PDB `StateMachineMethod`.
#[derive(Clone, Copy, PartialEq, Eq, Hash, Debug)]
pub struct StateMachineMethodRow {
    /// The generated `MoveNext` method.
    pub move_next_method: Rid<marker::MethodDef>,
    /// The original method the state machine came from.
    pub kickoff_method: Rid<marker::MethodDef>,
}

impl Default for StateMachineMethodRow {
    fn default() -> (row: Self)
        ensures
            row == (StateMachineMethodRow {
                move_next_method: Rid::<marker::MethodDef>::of(0),
                kickoff_method: Rid::<marker::MethodDef>::of(0),
            }),
    {
        StateMachineMethodRow {
            move_next_method: Rid::new(0),
            kickoff_method: Rid::new(0),
        }
    }
}

impl TableRow for StateMachineMethodRow {
    const TABLE: TableId = TableId::StateMachineMethod;

    open spec fn table() -> TableId {
        TableId::StateMachineMethod
    }

    proof fn lemma_table() {
    }

    open spec fn column_list() -> Seq<ColumnKind> {
        seq![ColumnKind::Rid(TableId::MethodDef), ColumnKind::Rid(TableId::MethodDef)]
    }

    open spec fn fields(row: RowModel) -> StateMachineMethodRow {
        StateMachineMethodRow {
            move_next_method: Rid::<marker::MethodDef>::of(row.value(0)),
            kickoff_method: Rid::<marker::MethodDef>::of(row.value(1)),
        }
    }

    fn columns() -> (list: &'static [ColumnKind]) {
        &[ColumnKind::Rid(TableId::MethodDef), ColumnKind::Rid(TableId::MethodDef)]
    }

    fn decode(cursor: &mut RowCursor<'_>) -> (r: Result<Self>) {
        let columns = Self::columns();
        let cells = cursor.cells(columns)?;
        Ok(
            StateMachineMethodRow {
                move_next_method: Rid::<marker::MethodDef>::new(cells.value(0)),
                kickoff_method: Rid::<marker::MethodDef>::new(cells.value(1)),
            },
        )
    }
}

/// Portable PDB `CustomDebugInformation`.
#[derive(Clone, Copy, PartialEq, Eq, Hash, Debug)]
pub struct CustomDebugInformationRow {
    /// The item the information is attached to.
    pub parent: Token,
    /// The kind GUID.
    pub kind: GuidIndex,
    /// The raw value blob.
    pub value: BlobIndex,
}

impl Default for CustomDebugInformationRow {
    fn default() -> (row: Self)
        ensures
            row == (CustomDebugInformationRow {
                parent: Token(0),
                kind: GuidIndex(0),
                value: BlobIndex(0),
            }),
    {
        CustomDebugInformationRow {
            parent: Token(0),
            kind: GuidIndex(0),
            value: BlobIndex(0),
        }
    }
}

impl TableRow for CustomDebugInformationRow {
    const TABLE: TableId = TableId::CustomDebugInformation;

    open spec fn table() -> TableId {
        TableId::CustomDebugInformation
    }

    proof fn lemma_table() {
    }

    open spec fn column_list() -> Seq<ColumnKind> {
        seq![
            ColumnKind::Coded(CodedIndex::HasCustomDebugInformation),
            ColumnKind::Guid,
            ColumnKind::Blob,
        ]
    }

    open spec fn fields(row: RowModel) -> CustomDebugInformationRow {
        CustomDebugInformationRow {
            parent: row.token(0, CodedIndex::HasCustomDebugInformation),
            kind: GuidIndex(row.value(1)),
            value: BlobIndex(row.value(2)),
        }
    }

    fn columns() -> (list: &'static [ColumnKind]) {
        &[
            ColumnKind::Coded(CodedIndex::HasCustomDebugInformation),
            ColumnKind::Guid,
            ColumnKind::Blob,
        ]
    }

    fn decode(cursor: &mut RowCursor<'_>) -> (r: Result<Self>) {
        let columns = Self::columns();
        let cells = cursor.cells(columns)?;
        Ok(
            CustomDebugInformationRow {
                parent: cells.token(0, CodedIndex::HasCustomDebugInformation),
                kind: GuidIndex(cells.value(1)),
                value: BlobIndex(cells.value(2)),
            },
        )
    }
}

impl<'a> Tables<'a> {
    /// Reads one `Module` row by 1-based RID, following the `*Ptr` indirection
    /// when the image has one.
    pub fn module(&self, rid: u32) -> (r: Result<ModuleRow>)
        ensures
            r == self@.row_indirect::<ModuleRow>(rid),
    {
        self.row_indirect::<ModuleRow>(rid)
    }

    /// Reads one `TypeRef` row by 1-based RID, following the `*Ptr` indirection
    /// when the image has one.
    pub fn type_ref(&self, rid: u32) -> (r: Result<TypeRefRow>)
        ensures
            r == self@.row_indirect::<TypeRefRow>(rid),
    {
        self.row_indirect::<TypeRefRow>(rid)
    }

    /// Reads one `TypeDef` row by 1-based RID, following the `*Ptr` indirection
    /// when the image has one.
    pub fn type_def(&self, rid: u32) -> (r: Result<TypeDefRow>)
        ensures
            r == self@.row_indirect::<TypeDefRow>(rid),
    {
        self.row_indirect::<TypeDefRow>(rid)
    }

    /// Reads one `FieldPtr` row by 1-based RID, following the `*Ptr` indirection
    /// when the image has one.
    pub fn field_ptr(&self, rid: u32) -> (r: Result<FieldPtrRow>)
        ensures
            r == self@.row_indirect::<FieldPtrRow>(rid),
    {
        self.row_indirect::<FieldPtrRow>(rid)
    }

    /// Reads one `Field` row by 1-based RID, following the `*Ptr` indirection
    /// when the image has one.
    pub fn field(&self, rid: u32) -> (r: Result<FieldRow>)
        ensures
            r == self@.row_indirect::<FieldRow>(rid),
    {
        self.row_indirect::<FieldRow>(rid)
    }

    /// Reads one `MethodPtr` row by 1-based RID, following the `*Ptr` indirection
    /// when the image has one.
    pub fn method_ptr(&self, rid: u32) -> (r: Result<MethodPtrRow>)
        ensures
            r == self@.row_indirect::<MethodPtrRow>(rid),
    {
        self.row_indirect::<MethodPtrRow>(rid)
    }

    /// Reads one `MethodDef` row by 1-based RID, following the `*Ptr` indirection
    /// when the image has one.
    pub fn method_def(&self, rid: u32) -> (r: Result<MethodDefRow>)
        ensures
            r == self@.row_indirect::<MethodDefRow>(rid),
    {
        self.row_indirect::<MethodDefRow>(rid)
    }

    /// Reads one `ParamPtr` row by 1-based RID, following the `*Ptr` indirection
    /// when the image has one.
    pub fn param_ptr(&self, rid: u32) -> (r: Result<ParamPtrRow>)
        ensures
            r == self@.row_indirect::<ParamPtrRow>(rid),
    {
        self.row_indirect::<ParamPtrRow>(rid)
    }

    /// Reads one `Param` row by 1-based RID, following the `*Ptr` indirection
    /// when the image has one.
    pub fn param(&self, rid: u32) -> (r: Result<ParamRow>)
        ensures
            r == self@.row_indirect::<ParamRow>(rid),
    {
        self.row_indirect::<ParamRow>(rid)
    }

    /// Reads one `InterfaceImpl` row by 1-based RID, following the `*Ptr` indirection
    /// when the image has one.
    pub fn interface_impl(&self, rid: u32) -> (r: Result<InterfaceImplRow>)
        ensures
            r == self@.row_indirect::<InterfaceImplRow>(rid),
    {
        self.row_indirect::<InterfaceImplRow>(rid)
    }

    /// Reads one `MemberRef` row by 1-based RID, following the `*Ptr` indirection
    /// when the image has one.
    pub fn member_ref(&self, rid: u32) -> (r: Result<MemberRefRow>)
        ensures
            r == self@.row_indirect::<MemberRefRow>(rid),
    {
        self.row_indirect::<MemberRefRow>(rid)
    }

    /// Reads one `Constant` row by 1-based RID, following the `*Ptr` indirection
    /// when the image has one.
    pub fn constant(&self, rid: u32) -> (r: Result<ConstantRow>)
        ensures
            r == self@.row_indirect::<ConstantRow>(rid),
    {
        self.row_indirect::<ConstantRow>(rid)
    }

    /// Reads one `CustomAttribute` row by 1-based RID, following the `*Ptr` indirection
    /// when the image has one.
    pub fn custom_attribute(&self, rid: u32) -> (r: Result<CustomAttributeRow>)
        ensures
            r == self@.row_indirect::<CustomAttributeRow>(rid),
    {
        self.row_indirect::<CustomAttributeRow>(rid)
    }

    /// Reads one `FieldMarshal` row by 1-based RID, following the `*Ptr` indirection
    /// when the image has one.
    pub fn field_marshal(&self, rid: u32) -> (r: Result<FieldMarshalRow>)
        ensures
            r == self@.row_indirect::<FieldMarshalRow>(rid),
    {
        self.row_indirect::<FieldMarshalRow>(rid)
    }

    /// Reads one `DeclSecurity` row by 1-based RID, following the `*Ptr` indirection
    /// when the image has one.
    pub fn decl_security(&self, rid: u32) -> (r: Result<DeclSecurityRow>)
        ensures
            r == self@.row_indirect::<DeclSecurityRow>(rid),
    {
        self.row_indirect::<DeclSecurityRow>(rid)
    }

    /// Reads one `ClassLayout` row by 1-based RID, following the `*Ptr` indirection
    /// when the image has one.
    pub fn class_layout(&self, rid: u32) -> (r: Result<ClassLayoutRow>)
        ensures
            r == self@.row_indirect::<ClassLayoutRow>(rid),
    {
        self.row_indirect::<ClassLayoutRow>(rid)
    }

    /// Reads one `FieldLayout` row by 1-based RID, following the `*Ptr` indirection
    /// when the image has one.
    pub fn field_layout(&self, rid: u32) -> (r: Result<FieldLayoutRow>)
        ensures
            r == self@.row_indirect::<FieldLayoutRow>(rid),
    {
        self.row_indirect::<FieldLayoutRow>(rid)
    }

    /// Reads one `StandAloneSig` row by 1-based RID, following the `*Ptr` indirection
    /// when the image has one.
    pub fn stand_alone_sig(&self, rid: u32) -> (r: Result<StandAloneSigRow>)
        ensures
            r == self@.row_indirect::<StandAloneSigRow>(rid),
    {
        self.row_indirect::<StandAloneSigRow>(rid)
    }

    /// Reads one `EventMap` row by 1-based RID, following the `*Ptr` indirection
    /// when the image has one.
    pub fn event_map(&self, rid: u32) -> (r: Result<EventMapRow>)
        ensures
            r == self@.row_indirect::<EventMapRow>(rid),
    {
        self.row_indirect::<EventMapRow>(rid)
    }

    /// Reads one `EventPtr` row by 1-based RID, following the `*Ptr` indirection
    /// when the image has one.
    pub fn event_ptr(&self, rid: u32) -> (r: Result<EventPtrRow>)
        ensures
            r == self@.row_indirect::<EventPtrRow>(rid),
    {
        self.row_indirect::<EventPtrRow>(rid)
    }

    /// Reads one `Event` row by 1-based RID, following the `*Ptr` indirection
    /// when the image has one.
    pub fn event(&self, rid: u32) -> (r: Result<EventRow>)
        ensures
            r == self@.row_indirect::<EventRow>(rid),
    {
        self.row_indirect::<EventRow>(rid)
    }

    /// Reads one `PropertyMap` row by 1-based RID, following the `*Ptr` indirection
    /// when the image has one.
    pub fn property_map(&self, rid: u32) -> (r: Result<PropertyMapRow>)
        ensures
            r == self@.row_indirect::<PropertyMapRow>(rid),
    {
        self.row_indirect::<PropertyMapRow>(rid)
    }

    /// Reads one `PropertyPtr` row by 1-based RID, following the `*Ptr` indirection
    /// when the image has one.
    pub fn property_ptr(&self, rid: u32) -> (r: Result<PropertyPtrRow>)
        ensures
            r == self@.row_indirect::<PropertyPtrRow>(rid),
    {
        self.row_indirect::<PropertyPtrRow>(rid)
    }

    /// Reads one `Property` row by 1-based RID, following the `*Ptr` indirection
    /// when the image has one.
    pub fn property(&self, rid: u32) -> (r: Result<PropertyRow>)
        ensures
            r == self@.row_indirect::<PropertyRow>(rid),
    {
        self.row_indirect::<PropertyRow>(rid)
    }

    /// Reads one `MethodSemantics` row by 1-based RID, following the `*Ptr` indirection
    /// when the image has one.
    pub fn method_semantics(&self, rid: u32) -> (r: Result<MethodSemanticsRow>)
        ensures
            r == self@.row_indirect::<MethodSemanticsRow>(rid),
    {
        self.row_indirect::<MethodSemanticsRow>(rid)
    }

    /// Reads one `MethodImpl` row by 1-based RID, following the `*Ptr` indirection
    /// when the image has one.
    pub fn method_impl(&self, rid: u32) -> (r: Result<MethodImplRow>)
        ensures
            r == self@.row_indirect::<MethodImplRow>(rid),
    {
        self.row_indirect::<MethodImplRow>(rid)
    }

    /// Reads one `ModuleRef` row by 1-based RID, following the `*Ptr` indirection
    /// when the image has one.
    pub fn module_ref(&self, rid: u32) -> (r: Result<ModuleRefRow>)
        ensures
            r == self@.row_indirect::<ModuleRefRow>(rid),
    {
        self.row_indirect::<ModuleRefRow>(rid)
    }

    /// Reads one `TypeSpec` row by 1-based RID, following the `*Ptr` indirection
    /// when the image has one.
    pub fn type_spec(&self, rid: u32) -> (r: Result<TypeSpecRow>)
        ensures
            r == self@.row_indirect::<TypeSpecRow>(rid),
    {
        self.row_indirect::<TypeSpecRow>(rid)
    }

    /// Reads one `ImplMap` row by 1-based RID, following the `*Ptr` indirection
    /// when the image has one.
    pub fn impl_map(&self, rid: u32) -> (r: Result<ImplMapRow>)
        ensures
            r == self@.row_indirect::<ImplMapRow>(rid),
    {
        self.row_indirect::<ImplMapRow>(rid)
    }

    /// Reads one `FieldRva` row by 1-based RID, following the `*Ptr` indirection
    /// when the image has one.
    pub fn field_rva(&self, rid: u32) -> (r: Result<FieldRvaRow>)
        ensures
            r == self@.row_indirect::<FieldRvaRow>(rid),
    {
        self.row_indirect::<FieldRvaRow>(rid)
    }

    /// Reads one `EncLog` row by 1-based RID, following the `*Ptr` indirection
    /// when the image has one.
    pub fn enc_log(&self, rid: u32) -> (r: Result<EncLogRow>)
        ensures
            r == self@.row_indirect::<EncLogRow>(rid),
    {
        self.row_indirect::<EncLogRow>(rid)
    }

    /// Reads one `EncMap` row by 1-based RID, following the `*Ptr` indirection
    /// when the image has one.
    pub fn enc_map(&self, rid: u32) -> (r: Result<EncMapRow>)
        ensures
            r == self@.row_indirect::<EncMapRow>(rid),
    {
        self.row_indirect::<EncMapRow>(rid)
    }

    /// Reads one `Assembly` row by 1-based RID, following the `*Ptr` indirection
    /// when the image has one.
    pub fn assembly(&self, rid: u32) -> (r: Result<AssemblyRow>)
        ensures
            r == self@.row_indirect::<AssemblyRow>(rid),
    {
        self.row_indirect::<AssemblyRow>(rid)
    }

    /// Reads one `AssemblyProcessor` row by 1-based RID, following the `*Ptr` indirection
    /// when the image has one.
    pub fn assembly_processor(&self, rid: u32) -> (r: Result<AssemblyProcessorRow>)
        ensures
            r == self@.row_indirect::<AssemblyProcessorRow>(rid),
    {
        self.row_indirect::<AssemblyProcessorRow>(rid)
    }

    /// Reads one `AssemblyOs` row by 1-based RID, following the `*Ptr` indirection
    /// when the image has one.
    pub fn assembly_os(&self, rid: u32) -> (r: Result<AssemblyOsRow>)
        ensures
            r == self@.row_indirect::<AssemblyOsRow>(rid),
    {
        self.row_indirect::<AssemblyOsRow>(rid)
    }

    /// Reads one `AssemblyRef` row by 1-based RID, following the `*Ptr` indirection
    /// when the image has one.
    pub fn assembly_ref(&self, rid: u32) -> (r: Result<AssemblyRefRow>)
        ensures
            r == self@.row_indirect::<AssemblyRefRow>(rid),
    {
        self.row_indirect::<AssemblyRefRow>(rid)
    }

    /// Reads one `AssemblyRefProcessor` row by 1-based RID, following the `*Ptr` indirection
    /// when the image has one.
    pub fn assembly_ref_processor(&self, rid: u32) -> (r: Result<AssemblyRefProcessorRow>)
        ensures
            r == self@.row_indirect::<AssemblyRefProcessorRow>(rid),
    {
        self.row_indirect::<AssemblyRefProcessorRow>(rid)
    }

    /// Reads one `AssemblyRefOs` row by 1-based RID, following the `*Ptr` indirection
    /// when the image has one.
    pub fn assembly_ref_os(&self, rid: u32) -> (r: Result<AssemblyRefOsRow>)
        ensures
            r == self@.row_indirect::<AssemblyRefOsRow>(rid),
    {
        self.row_indirect::<AssemblyRefOsRow>(rid)
    }

    /// Reads one `File` row by 1-based RID, following the `*Ptr` indirection
    /// when the image has one.
    pub fn file(&self, rid: u32) -> (r: Result<FileRow>)
        ensures
            r == self@.row_indirect::<FileRow>(rid),
    {
        self.row_indirect::<FileRow>(rid)
    }

    /// Reads one `ExportedType` row by 1-based RID, following the `*Ptr` indirection
    /// when the image has one.
    pub fn exported_type(&self, rid: u32) -> (r: Result<ExportedTypeRow>)
        ensures
            r == self@.row_indirect::<ExportedTypeRow>(rid),
    {
        self.row_indirect::<ExportedTypeRow>(rid)
    }

    /// Reads one `ManifestResource` row by 1-based RID, following the `*Ptr` indirection
    /// when the image has one.
    pub fn manifest_resource(&self, rid: u32) -> (r: Result<ManifestResourceRow>)
        ensures
            r == self@.row_indirect::<ManifestResourceRow>(rid),
    {
        self.row_indirect::<ManifestResourceRow>(rid)
    }

    /// Reads one `NestedClass` row by 1-based RID, following the `*Ptr` indirection
    /// when the image has one.
    pub fn nested_class(&self, rid: u32) -> (r: Result<NestedClassRow>)
        ensures
            r == self@.row_indirect::<NestedClassRow>(rid),
    {
        self.row_indirect::<NestedClassRow>(rid)
    }

    /// Reads one `GenericParam` row by 1-based RID, following the `*Ptr` indirection
    /// when the image has one.
    pub fn generic_param(&self, rid: u32) -> (r: Result<GenericParamRow>)
        ensures
            r == self@.row_indirect::<GenericParamRow>(rid),
    {
        self.row_indirect::<GenericParamRow>(rid)
    }

    /// Reads one `MethodSpec` row by 1-based RID, following the `*Ptr` indirection
    /// when the image has one.
    pub fn method_spec(&self, rid: u32) -> (r: Result<MethodSpecRow>)
        ensures
            r == self@.row_indirect::<MethodSpecRow>(rid),
    {
        self.row_indirect::<MethodSpecRow>(rid)
    }

    /// Reads one `GenericParamConstraint` row by 1-based RID, following the `*Ptr` indirection
    /// when the image has one.
    pub fn generic_param_constraint(&self, rid: u32) -> (r: Result<GenericParamConstraintRow>)
        ensures
            r == self@.row_indirect::<GenericParamConstraintRow>(rid),
    {
        self.row_indirect::<GenericParamConstraintRow>(rid)
    }

    /// Reads one `Document` row by 1-based RID, following the `*Ptr` indirection
    /// when the image has one.
    pub fn document(&self, rid: u32) -> (r: Result<DocumentRow>)
        ensures
            r == self@.row_indirect::<DocumentRow>(rid),
    {
        self.row_indirect::<DocumentRow>(rid)
    }

    /// Reads one `MethodDebugInformation` row by 1-based RID, following the `*Ptr` indirection
    /// when the image has one.
    pub fn method_debug_information(&self, rid: u32) -> (r: Result<MethodDebugInformationRow>)
        ensures
            r == self@.row_indirect::<MethodDebugInformationRow>(rid),
    {
        self.row_indirect::<MethodDebugInformationRow>(rid)
    }

    /// Reads one `LocalScope` row by 1-based RID, following the `*Ptr` indirection
    /// when the image has one.
    pub fn local_scope(&self, rid: u32) -> (r: Result<LocalScopeRow>)
        ensures
            r == self@.row_indirect::<LocalScopeRow>(rid),
    {
        self.row_indirect::<LocalScopeRow>(rid)
    }

    /// Reads one `LocalVariable` row by 1-based RID, following the `*Ptr` indirection
    /// when the image has one.
    pub fn local_variable(&self, rid: u32) -> (r: Result<LocalVariableRow>)
        ensures
            r == self@.row_indirect::<LocalVariableRow>(rid),
    {
        self.row_indirect::<LocalVariableRow>(rid)
    }

    /// Reads one `LocalConstant` row by 1-based RID, following the `*Ptr` indirection
    /// when the image has one.
    pub fn local_constant(&self, rid: u32) -> (r: Result<LocalConstantRow>)
        ensures
            r == self@.row_indirect::<LocalConstantRow>(rid),
    {
        self.row_indirect::<LocalConstantRow>(rid)
    }

    /// Reads one `ImportScope` row by 1-based RID, following the `*Ptr` indirection
    /// when the image has one.
    pub fn import_scope(&self, rid: u32) -> (r: Result<ImportScopeRow>)
        ensures
            r == self@.row_indirect::<ImportScopeRow>(rid),
    {
        self.row_indirect::<ImportScopeRow>(rid)
    }

    /// Reads one `StateMachineMethod` row by 1-based RID, following the `*Ptr` indirection
    /// when the image has one.
    pub fn state_machine_method(&self, rid: u32) -> (r: Result<StateMachineMethodRow>)
        ensures
            r == self@.row_indirect::<StateMachineMethodRow>(rid),
    {
        self.row_indirect::<StateMachineMethodRow>(rid)
    }

    /// Reads one `CustomDebugInformation` row by 1-based RID, following the `*Ptr` indirection
    /// when the image has one.
    pub fn custom_debug_information(&self, rid: u32) -> (r: Result<CustomDebugInformationRow>)
        ensures
            r == self@.row_indirect::<CustomDebugInformationRow>(rid),
    {
        self.row_indirect::<CustomDebugInformationRow>(rid)
    }

}

/// The column layout of a table.
pub open spec fn columns(table: TableId) -> Seq<ColumnKind> {
    match table {
        TableId::Module => ModuleRow::column_list(),
        TableId::TypeRef => TypeRefRow::column_list(),
        TableId::TypeDef => TypeDefRow::column_list(),
        TableId::FieldPtr => FieldPtrRow::column_list(),
        TableId::Field => FieldRow::column_list(),
        TableId::MethodPtr => MethodPtrRow::column_list(),
        TableId::MethodDef => MethodDefRow::column_list(),
        TableId::ParamPtr => ParamPtrRow::column_list(),
        TableId::Param => ParamRow::column_list(),
        TableId::InterfaceImpl => InterfaceImplRow::column_list(),
        TableId::MemberRef => MemberRefRow::column_list(),
        TableId::Constant => ConstantRow::column_list(),
        TableId::CustomAttribute => CustomAttributeRow::column_list(),
        TableId::FieldMarshal => FieldMarshalRow::column_list(),
        TableId::DeclSecurity => DeclSecurityRow::column_list(),
        TableId::ClassLayout => ClassLayoutRow::column_list(),
        TableId::FieldLayout => FieldLayoutRow::column_list(),
        TableId::StandAloneSig => StandAloneSigRow::column_list(),
        TableId::EventMap => EventMapRow::column_list(),
        TableId::EventPtr => EventPtrRow::column_list(),
        TableId::Event => EventRow::column_list(),
        TableId::PropertyMap => PropertyMapRow::column_list(),
        TableId::PropertyPtr => PropertyPtrRow::column_list(),
        TableId::Property => PropertyRow::column_list(),
        TableId::MethodSemantics => MethodSemanticsRow::column_list(),
        TableId::MethodImpl => MethodImplRow::column_list(),
        TableId::ModuleRef => ModuleRefRow::column_list(),
        TableId::TypeSpec => TypeSpecRow::column_list(),
        TableId::ImplMap => ImplMapRow::column_list(),
        TableId::FieldRva => FieldRvaRow::column_list(),
        TableId::EncLog => EncLogRow::column_list(),
        TableId::EncMap => EncMapRow::column_list(),
        TableId::Assembly => AssemblyRow::column_list(),
        TableId::AssemblyProcessor => AssemblyProcessorRow::column_list(),
        TableId::AssemblyOs => AssemblyOsRow::column_list(),
        TableId::AssemblyRef => AssemblyRefRow::column_list(),
        TableId::AssemblyRefProcessor => AssemblyRefProcessorRow::column_list(),
        TableId::AssemblyRefOs => AssemblyRefOsRow::column_list(),
        TableId::File => FileRow::column_list(),
        TableId::ExportedType => ExportedTypeRow::column_list(),
        TableId::ManifestResource => ManifestResourceRow::column_list(),
        TableId::NestedClass => NestedClassRow::column_list(),
        TableId::GenericParam => GenericParamRow::column_list(),
        TableId::MethodSpec => MethodSpecRow::column_list(),
        TableId::GenericParamConstraint => GenericParamConstraintRow::column_list(),
        TableId::Document => DocumentRow::column_list(),
        TableId::MethodDebugInformation => MethodDebugInformationRow::column_list(),
        TableId::LocalScope => LocalScopeRow::column_list(),
        TableId::LocalVariable => LocalVariableRow::column_list(),
        TableId::LocalConstant => LocalConstantRow::column_list(),
        TableId::ImportScope => ImportScopeRow::column_list(),
        TableId::StateMachineMethod => StateMachineMethodRow::column_list(),
        TableId::CustomDebugInformation => CustomDebugInformationRow::column_list(),
    }
}

/// The column layout of a table id, from its row type.
pub fn columns_of(table: TableId) -> (list: &'static [ColumnKind])
    ensures
        list@ == columns(table),
{
    match table {
        TableId::Module => ModuleRow::columns(),
        TableId::TypeRef => TypeRefRow::columns(),
        TableId::TypeDef => TypeDefRow::columns(),
        TableId::FieldPtr => FieldPtrRow::columns(),
        TableId::Field => FieldRow::columns(),
        TableId::MethodPtr => MethodPtrRow::columns(),
        TableId::MethodDef => MethodDefRow::columns(),
        TableId::ParamPtr => ParamPtrRow::columns(),
        TableId::Param => ParamRow::columns(),
        TableId::InterfaceImpl => InterfaceImplRow::columns(),
        TableId::MemberRef => MemberRefRow::columns(),
        TableId::Constant => ConstantRow::columns(),
        TableId::CustomAttribute => CustomAttributeRow::columns(),
        TableId::FieldMarshal => FieldMarshalRow::columns(),
        TableId::DeclSecurity => DeclSecurityRow::columns(),
        TableId::ClassLayout => ClassLayoutRow::columns(),
        TableId::FieldLayout => FieldLayoutRow::columns(),
        TableId::StandAloneSig => StandAloneSigRow::columns(),
        TableId::EventMap => EventMapRow::columns(),
        TableId::EventPtr => EventPtrRow::columns(),
        TableId::Event => EventRow::columns(),
        TableId::PropertyMap => PropertyMapRow::columns(),
        TableId::PropertyPtr => PropertyPtrRow::columns(),
        TableId::Property => PropertyRow::columns(),
        TableId::MethodSemantics => MethodSemanticsRow::columns(),
        TableId::MethodImpl => MethodImplRow::columns(),
        TableId::ModuleRef => ModuleRefRow::columns(),
        TableId::TypeSpec => TypeSpecRow::columns(),
        TableId::ImplMap => ImplMapRow::columns(),
        TableId::FieldRva => FieldRvaRow::columns(),
        TableId::EncLog => EncLogRow::columns(),
        TableId::EncMap => EncMapRow::columns(),
        TableId::Assembly => AssemblyRow::columns(),
        TableId::AssemblyProcessor => AssemblyProcessorRow::columns(),
        TableId::AssemblyOs => AssemblyOsRow::columns(),
        TableId::AssemblyRef => AssemblyRefRow::columns(),
        TableId::AssemblyRefProcessor => AssemblyRefProcessorRow::columns(),
        TableId::AssemblyRefOs => AssemblyRefOsRow::columns(),
        TableId::File => FileRow::columns(),
        TableId::ExportedType => ExportedTypeRow::columns(),
        TableId::ManifestResource => ManifestResourceRow::columns(),
        TableId::NestedClass => NestedClassRow::columns(),
        TableId::GenericParam => GenericParamRow::columns(),
        TableId::MethodSpec => MethodSpecRow::columns(),
        TableId::GenericParamConstraint => GenericParamConstraintRow::columns(),
        TableId::Document => DocumentRow::columns(),
        TableId::MethodDebugInformation => MethodDebugInformationRow::columns(),
        TableId::LocalScope => LocalScopeRow::columns(),
        TableId::LocalVariable => LocalVariableRow::columns(),
        TableId::LocalConstant => LocalConstantRow::columns(),
        TableId::ImportScope => ImportScopeRow::columns(),
        TableId::StateMachineMethod => StateMachineMethodRow::columns(),
        TableId::CustomDebugInformation => CustomDebugInformationRow::columns(),
    }
}

/// Every table has a column, and none has more than the largest.
pub proof fn lemma_column_counts(table: TableId)
    ensures
        1 <= columns(table).len() <= tables::MAX_COLUMNS,
{
}

impl ConstantRow {
    /// The `ELEMENT_TYPE_*` code of the constant.
    pub fn element_type(self) -> (code: u8)
        ensures
            code == self.type_raw % 0x100,
    {
        (self.type_raw % 0x100) as u8
    }

    /// The padding byte, which has to be zero.
    pub fn padding(self) -> (byte: u8)
        ensures
            byte == self.type_raw / 0x100,
    {
        (self.type_raw / 0x100) as u8
    }
}

impl MethodDefRow {
    /// True when `CodeTypeMask` of `ImplFlags` selects CIL (`IL`, value 0).
    pub open spec fn cil(self) -> bool {
        self.impl_flags % 4 == 0
    }

    /// True when `CodeTypeMask` of `ImplFlags` selects CIL (`IL`, value 0).
    pub fn is_il(self) -> (il: bool)
        ensures
            il == self.cil(),
    {
        self.impl_flags % 4 == 0
    }

    /// True when `ImplFlags` marks the method as native code.
    pub fn is_native(self) -> (native: bool)
        ensures
            native == (self.impl_flags % 4 == 1),
    {
        self.impl_flags % 4 == 1
    }

    /// True when `ImplFlags` marks the method as runtime-provided.
    pub fn is_runtime(self) -> (runtime: bool)
        ensures
            runtime == (self.impl_flags % 4 == 3),
    {
        self.impl_flags % 4 == 3
    }

    /// True when `MethodAttributes` marks the method `static`.
    pub fn is_static(self) -> (yes: bool)
        ensures
            yes == (self.flags / 0x0010 % 2 == 1),
    {
        self.flags / 0x0010 % 2 == 1
    }

    /// True when `MethodAttributes` marks the method abstract.
    pub fn is_abstract(self) -> (yes: bool)
        ensures
            yes == (self.flags / 0x0400 % 2 == 1),
    {
        self.flags / 0x0400 % 2 == 1
    }

    /// True when `MethodAttributes` sets `PInvokeImpl`.
    pub fn is_pinvoke(self) -> (yes: bool)
        ensures
            yes == (self.flags / 0x2000 % 2 == 1),
    {
        self.flags / 0x2000 % 2 == 1
    }

    /// True when the method has no body: RVA 0, or a non-CIL implementation.
    pub fn has_no_body(self) -> (none: bool)
        ensures
            none == (self.rva == 0 || !self.cil()),
    {
        self.rva == 0 || !self.is_il()
    }
}

impl TypeDefRow {
    /// The `ClassLayout` part of `TypeAttributes`: 0 auto, 1 sequential, 2 explicit.
    pub fn layout_kind(self) -> (kind: u8)
        ensures
            kind == self.flags / 8 % 4,
    {
        (self.flags / 8 % 4) as u8
    }

    /// True when `TypeAttributes` marks the type an interface.
    pub fn is_interface(self) -> (yes: bool)
        ensures
            yes == (self.flags / 0x20 % 2 == 1),
    {
        self.flags / 0x20 % 2 == 1
    }

    /// True when the type is nested (any of the nested visibility values).
    pub open spec fn nested(self) -> bool {
        self.flags % 8 >= 2
    }

    /// True when the type is nested (any of the nested visibility values).
    pub fn is_nested(self) -> (yes: bool)
        ensures
            yes == self.nested(),
    {
        self.flags % 8 >= 2
    }
}

impl FieldRow {
    /// True when `FieldAttributes` marks the field `static`.
    pub fn is_static(self) -> (yes: bool)
        ensures
            yes == (self.flags / 0x0010 % 2 == 1),
    {
        self.flags / 0x0010 % 2 == 1
    }

    /// True when `FieldAttributes` sets `HasFieldRVA`.
    pub fn has_rva(self) -> (yes: bool)
        ensures
            yes == (self.flags / 0x0100 % 2 == 1),
    {
        self.flags / 0x0100 % 2 == 1
    }

    /// True when `FieldAttributes` sets `Literal`.
    pub fn is_literal(self) -> (yes: bool)
        ensures
            yes == (self.flags / 0x0040 % 2 == 1),
    {
        self.flags / 0x0040 % 2 == 1
    }
}

} // verus!
