//! What the lookups find, told by the fields of the rows: which rows belong to
//! a parent, which run of members a row owns, and which types are nested in
//! which.

use core::ops::Range;

use vstd::prelude::*;

use crate::error::{Error, Result};
use crate::tables::coded;
use crate::tables::coded::CodedIndex;
use crate::tables::lookup;
use crate::tables::rows;
use crate::tables::rows::{
    ClassLayoutRow, ConstantRow, CustomAttributeRow, CustomDebugInformationRow,
    DeclSecurityRow, EventMapRow, FieldLayoutRow, FieldMarshalRow, FieldRvaRow,
    GenericParamConstraintRow, GenericParamRow, ImplMapRow, InterfaceImplRow, LocalScopeRow,
    MethodDefRow, MethodImplRow, MethodSemanticsRow, NestedClassRow, PropertyMapRow,
    StateMachineMethodRow, TypeDefRow,
};
use crate::tables::{ColumnKind, RowModel, TableRow, TablesModel};
use crate::token;
use crate::token::{TableId, Token};

verus! {

/// True when the row of a coded index fits in a token.
pub open spec fn row_fits(kind: CodedIndex, value: u32) -> bool {
    value as int / kind.tags() as int <= 0xFF_FFFF
}

impl TablesModel {
    /// True when `rids` are the rows of the attributes of `parent`: those of
    /// `CustomAttribute` whose field says so, in ascending order.
    pub open spec fn attribute_rows(self, parent: Token, rids: Seq<u32>) -> bool {
        &&& forall|i: int, j: int| 0 <= i < j < rids.len() ==> rids[i] < rids[j]
        &&& forall|i: int|
            0 <= i < rids.len() ==> self.has_row(TableId::CustomAttribute, #[trigger] rids[i]) && (self.row::<
                CustomAttributeRow,
            >(rids[i]) matches Ok(row) ==> row.parent == parent)
        &&& forall|rid: u32|
            ((#[trigger] self.row::<CustomAttributeRow>(rid)) matches Ok(row) && row.parent == parent && row_fits(
                CodedIndex::HasCustomAttribute,
                self.cell(TableId::CustomAttribute, rid, 0),
            ))
                ==> rids.contains(rid)
    }

    /// True when `rids` are the rows of the interfaces of the type `class`: those of
    /// `InterfaceImpl` whose field says so, in ascending order.
    pub open spec fn interface_rows(self, class: u32, rids: Seq<u32>) -> bool {
        &&& forall|i: int, j: int| 0 <= i < j < rids.len() ==> rids[i] < rids[j]
        &&& forall|i: int|
            0 <= i < rids.len() ==> self.has_row(TableId::InterfaceImpl, #[trigger] rids[i]) && (self.row::<
                InterfaceImplRow,
            >(rids[i]) matches Ok(row) ==> row.class.number() == class)
        &&& forall|rid: u32|
            ((#[trigger] self.row::<InterfaceImplRow>(rid)) matches Ok(row) && row.class.number() == class)
                ==> rids.contains(rid)
    }

    /// True when `rids` are the rows of the overrides of the type `class`: those of
    /// `MethodImpl` whose field says so, in ascending order.
    pub open spec fn override_rows(self, class: u32, rids: Seq<u32>) -> bool {
        &&& forall|i: int, j: int| 0 <= i < j < rids.len() ==> rids[i] < rids[j]
        &&& forall|i: int|
            0 <= i < rids.len() ==> self.has_row(TableId::MethodImpl, #[trigger] rids[i]) && (self.row::<
                MethodImplRow,
            >(rids[i]) matches Ok(row) ==> row.class.number() == class)
        &&& forall|rid: u32|
            ((#[trigger] self.row::<MethodImplRow>(rid)) matches Ok(row) && row.class.number() == class)
                ==> rids.contains(rid)
    }

    /// True when `rids` are the rows of the methods of the property or event `association`: those of
    /// `MethodSemantics` whose field says so, in ascending order.
    pub open spec fn semantics_rows(self, association: Token, rids: Seq<u32>) -> bool {
        &&& forall|i: int, j: int| 0 <= i < j < rids.len() ==> rids[i] < rids[j]
        &&& forall|i: int|
            0 <= i < rids.len() ==> self.has_row(TableId::MethodSemantics, #[trigger] rids[i]) && (self.row::<
                MethodSemanticsRow,
            >(rids[i]) matches Ok(row) ==> row.association == association)
        &&& forall|rid: u32|
            ((#[trigger] self.row::<MethodSemanticsRow>(rid)) matches Ok(row) && row.association == association && row_fits(
                CodedIndex::HasSemantics,
                self.cell(TableId::MethodSemantics, rid, 2),
            ))
                ==> rids.contains(rid)
    }

    /// True when `rids` are the rows of the security declarations of `parent`: those of
    /// `DeclSecurity` whose field says so, in ascending order.
    pub open spec fn security_rows(self, parent: Token, rids: Seq<u32>) -> bool {
        &&& forall|i: int, j: int| 0 <= i < j < rids.len() ==> rids[i] < rids[j]
        &&& forall|i: int|
            0 <= i < rids.len() ==> self.has_row(TableId::DeclSecurity, #[trigger] rids[i]) && (self.row::<
                DeclSecurityRow,
            >(rids[i]) matches Ok(row) ==> row.parent == parent)
        &&& forall|rid: u32|
            ((#[trigger] self.row::<DeclSecurityRow>(rid)) matches Ok(row) && row.parent == parent && row_fits(
                CodedIndex::HasDeclSecurity,
                self.cell(TableId::DeclSecurity, rid, 1),
            ))
                ==> rids.contains(rid)
    }

    /// True when `rids` are the rows of the generic parameters of `owner`: those of
    /// `GenericParam` whose field says so, in ascending order.
    pub open spec fn generic_rows(self, owner: Token, rids: Seq<u32>) -> bool {
        &&& forall|i: int, j: int| 0 <= i < j < rids.len() ==> rids[i] < rids[j]
        &&& forall|i: int|
            0 <= i < rids.len() ==> self.has_row(TableId::GenericParam, #[trigger] rids[i]) && (self.row::<
                GenericParamRow,
            >(rids[i]) matches Ok(row) ==> row.owner == owner)
        &&& forall|rid: u32|
            ((#[trigger] self.row::<GenericParamRow>(rid)) matches Ok(row) && row.owner == owner && row_fits(
                CodedIndex::TypeOrMethodDef,
                self.cell(TableId::GenericParam, rid, 2),
            ))
                ==> rids.contains(rid)
    }

    /// True when `rids` are the rows of the constraints of the generic parameter `owner`: those of
    /// `GenericParamConstraint` whose field says so, in ascending order.
    pub open spec fn constraint_rows(self, owner: u32, rids: Seq<u32>) -> bool {
        &&& forall|i: int, j: int| 0 <= i < j < rids.len() ==> rids[i] < rids[j]
        &&& forall|i: int|
            0 <= i < rids.len() ==> self.has_row(TableId::GenericParamConstraint, #[trigger] rids[i]) && (self.row::<
                GenericParamConstraintRow,
            >(rids[i]) matches Ok(row) ==> row.owner.number() == owner)
        &&& forall|rid: u32|
            ((#[trigger] self.row::<GenericParamConstraintRow>(rid)) matches Ok(row) && row.owner.number() == owner)
                ==> rids.contains(rid)
    }

    /// True when `rids` are the rows of the event maps of the type `parent`: those of
    /// `EventMap` whose field says so, in ascending order.
    pub open spec fn event_map_rows(self, parent: u32, rids: Seq<u32>) -> bool {
        &&& forall|i: int, j: int| 0 <= i < j < rids.len() ==> rids[i] < rids[j]
        &&& forall|i: int|
            0 <= i < rids.len() ==> self.has_row(TableId::EventMap, #[trigger] rids[i]) && (self.row::<
                EventMapRow,
            >(rids[i]) matches Ok(row) ==> row.parent.number() == parent)
        &&& forall|rid: u32|
            ((#[trigger] self.row::<EventMapRow>(rid)) matches Ok(row) && row.parent.number() == parent)
                ==> rids.contains(rid)
    }

    /// True when `rids` are the rows of the property maps of the type `parent`: those of
    /// `PropertyMap` whose field says so, in ascending order.
    pub open spec fn property_map_rows(self, parent: u32, rids: Seq<u32>) -> bool {
        &&& forall|i: int, j: int| 0 <= i < j < rids.len() ==> rids[i] < rids[j]
        &&& forall|i: int|
            0 <= i < rids.len() ==> self.has_row(TableId::PropertyMap, #[trigger] rids[i]) && (self.row::<
                PropertyMapRow,
            >(rids[i]) matches Ok(row) ==> row.parent.number() == parent)
        &&& forall|rid: u32|
            ((#[trigger] self.row::<PropertyMapRow>(rid)) matches Ok(row) && row.parent.number() == parent)
                ==> rids.contains(rid)
    }

    /// True when `rids` are the rows of the constants of `parent`: those of
    /// `Constant` whose field says so, in ascending order.
    pub open spec fn constant_rows(self, parent: Token, rids: Seq<u32>) -> bool {
        &&& forall|i: int, j: int| 0 <= i < j < rids.len() ==> rids[i] < rids[j]
        &&& forall|i: int|
            0 <= i < rids.len() ==> self.has_row(TableId::Constant, #[trigger] rids[i]) && (self.row::<
                ConstantRow,
            >(rids[i]) matches Ok(row) ==> row.parent == parent)
        &&& forall|rid: u32|
            ((#[trigger] self.row::<ConstantRow>(rid)) matches Ok(row) && row.parent == parent && row_fits(
                CodedIndex::HasConstant,
                self.cell(TableId::Constant, rid, 1),
            ))
                ==> rids.contains(rid)
    }

    /// True when `rids` are the rows of the marshalling of `parent`: those of
    /// `FieldMarshal` whose field says so, in ascending order.
    pub open spec fn marshal_rows(self, parent: Token, rids: Seq<u32>) -> bool {
        &&& forall|i: int, j: int| 0 <= i < j < rids.len() ==> rids[i] < rids[j]
        &&& forall|i: int|
            0 <= i < rids.len() ==> self.has_row(TableId::FieldMarshal, #[trigger] rids[i]) && (self.row::<
                FieldMarshalRow,
            >(rids[i]) matches Ok(row) ==> row.parent == parent)
        &&& forall|rid: u32|
            ((#[trigger] self.row::<FieldMarshalRow>(rid)) matches Ok(row) && row.parent == parent && row_fits(
                CodedIndex::HasFieldMarshal,
                self.cell(TableId::FieldMarshal, rid, 0),
            ))
                ==> rids.contains(rid)
    }

    /// True when `rids` are the rows of the initial data of `field`: those of
    /// `FieldRva` whose field says so, in ascending order.
    pub open spec fn rva_rows(self, field: u32, rids: Seq<u32>) -> bool {
        &&& forall|i: int, j: int| 0 <= i < j < rids.len() ==> rids[i] < rids[j]
        &&& forall|i: int|
            0 <= i < rids.len() ==> self.has_row(TableId::FieldRva, #[trigger] rids[i]) && (self.row::<
                FieldRvaRow,
            >(rids[i]) matches Ok(row) ==> row.field.number() == field)
        &&& forall|rid: u32|
            ((#[trigger] self.row::<FieldRvaRow>(rid)) matches Ok(row) && row.field.number() == field)
                ==> rids.contains(rid)
    }

    /// True when `rids` are the rows of the offsets of `field`: those of
    /// `FieldLayout` whose field says so, in ascending order.
    pub open spec fn offset_rows(self, field: u32, rids: Seq<u32>) -> bool {
        &&& forall|i: int, j: int| 0 <= i < j < rids.len() ==> rids[i] < rids[j]
        &&& forall|i: int|
            0 <= i < rids.len() ==> self.has_row(TableId::FieldLayout, #[trigger] rids[i]) && (self.row::<
                FieldLayoutRow,
            >(rids[i]) matches Ok(row) ==> row.field.number() == field)
        &&& forall|rid: u32|
            ((#[trigger] self.row::<FieldLayoutRow>(rid)) matches Ok(row) && row.field.number() == field)
                ==> rids.contains(rid)
    }

    /// True when `rids` are the rows of the layouts of the type `parent`: those of
    /// `ClassLayout` whose field says so, in ascending order.
    pub open spec fn layout_rows(self, parent: u32, rids: Seq<u32>) -> bool {
        &&& forall|i: int, j: int| 0 <= i < j < rids.len() ==> rids[i] < rids[j]
        &&& forall|i: int|
            0 <= i < rids.len() ==> self.has_row(TableId::ClassLayout, #[trigger] rids[i]) && (self.row::<
                ClassLayoutRow,
            >(rids[i]) matches Ok(row) ==> row.parent.number() == parent)
        &&& forall|rid: u32|
            ((#[trigger] self.row::<ClassLayoutRow>(rid)) matches Ok(row) && row.parent.number() == parent)
                ==> rids.contains(rid)
    }

    /// True when `rids` are the rows of the imports of `member_forwarded`: those of
    /// `ImplMap` whose field says so, in ascending order.
    pub open spec fn import_rows(self, member_forwarded: Token, rids: Seq<u32>) -> bool {
        &&& forall|i: int, j: int| 0 <= i < j < rids.len() ==> rids[i] < rids[j]
        &&& forall|i: int|
            0 <= i < rids.len() ==> self.has_row(TableId::ImplMap, #[trigger] rids[i]) && (self.row::<
                ImplMapRow,
            >(rids[i]) matches Ok(row) ==> row.member_forwarded == member_forwarded)
        &&& forall|rid: u32|
            ((#[trigger] self.row::<ImplMapRow>(rid)) matches Ok(row) && row.member_forwarded == member_forwarded && row_fits(
                CodedIndex::MemberForwarded,
                self.cell(TableId::ImplMap, rid, 1),
            ))
                ==> rids.contains(rid)
    }

    /// True when `rids` are the rows of the scopes of `method`: those of
    /// `LocalScope` whose field says so, in ascending order.
    pub open spec fn scope_rows(self, method: u32, rids: Seq<u32>) -> bool {
        &&& forall|i: int, j: int| 0 <= i < j < rids.len() ==> rids[i] < rids[j]
        &&& forall|i: int|
            0 <= i < rids.len() ==> self.has_row(TableId::LocalScope, #[trigger] rids[i]) && (self.row::<
                LocalScopeRow,
            >(rids[i]) matches Ok(row) ==> row.method.number() == method)
        &&& forall|rid: u32|
            ((#[trigger] self.row::<LocalScopeRow>(rid)) matches Ok(row) && row.method.number() == method)
                ==> rids.contains(rid)
    }

    /// True when `rids` are the rows of the state machine of `move_next_method`: those of
    /// `StateMachineMethod` whose field says so, in ascending order.
    pub open spec fn machine_rows(self, move_next_method: u32, rids: Seq<u32>) -> bool {
        &&& forall|i: int, j: int| 0 <= i < j < rids.len() ==> rids[i] < rids[j]
        &&& forall|i: int|
            0 <= i < rids.len() ==> self.has_row(TableId::StateMachineMethod, #[trigger] rids[i]) && (self.row::<
                StateMachineMethodRow,
            >(rids[i]) matches Ok(row) ==> row.move_next_method.number() == move_next_method)
        &&& forall|rid: u32|
            ((#[trigger] self.row::<StateMachineMethodRow>(rid)) matches Ok(row) && row.move_next_method.number() == move_next_method)
                ==> rids.contains(rid)
    }

    /// True when `rids` are the rows of the debug information of `parent`: those of
    /// `CustomDebugInformation` whose field says so, in ascending order.
    pub open spec fn debug_rows(self, parent: Token, rids: Seq<u32>) -> bool {
        &&& forall|i: int, j: int| 0 <= i < j < rids.len() ==> rids[i] < rids[j]
        &&& forall|i: int|
            0 <= i < rids.len() ==> self.has_row(TableId::CustomDebugInformation, #[trigger] rids[i]) && (self.row::<
                CustomDebugInformationRow,
            >(rids[i]) matches Ok(row) ==> row.parent == parent)
        &&& forall|rid: u32|
            ((#[trigger] self.row::<CustomDebugInformationRow>(rid)) matches Ok(row) && row.parent == parent && row_fits(
                CodedIndex::HasCustomDebugInformation,
                self.cell(TableId::CustomDebugInformation, rid, 0),
            ))
                ==> rids.contains(rid)
    }

    /// True when `rids` are the rows of the enclosing types of `nested_class`: those of
    /// `NestedClass` whose field says so, in ascending order.
    pub open spec fn enclosed_rows(self, nested_class: u32, rids: Seq<u32>) -> bool {
        &&& forall|i: int, j: int| 0 <= i < j < rids.len() ==> rids[i] < rids[j]
        &&& forall|i: int|
            0 <= i < rids.len() ==> self.has_row(TableId::NestedClass, #[trigger] rids[i]) && (self.row::<
                NestedClassRow,
            >(rids[i]) matches Ok(row) ==> row.nested_class.number() == nested_class)
        &&& forall|rid: u32|
            ((#[trigger] self.row::<NestedClassRow>(rid)) matches Ok(row) && row.nested_class.number() == nested_class)
                ==> rids.contains(rid)
    }

    /// True when `rids` are the rows of the types in `enclosing_class`: those of
    /// `NestedClass` whose field says so, in ascending order.
    pub open spec fn enclosing_rows(self, enclosing_class: u32, rids: Seq<u32>) -> bool {
        &&& forall|i: int, j: int| 0 <= i < j < rids.len() ==> rids[i] < rids[j]
        &&& forall|i: int|
            0 <= i < rids.len() ==> self.has_row(TableId::NestedClass, #[trigger] rids[i]) && (self.row::<
                NestedClassRow,
            >(rids[i]) matches Ok(row) ==> row.enclosing_class.number() == enclosing_class)
        &&& forall|rid: u32|
            ((#[trigger] self.row::<NestedClassRow>(rid)) matches Ok(row) && row.enclosing_class.number() == enclosing_class)
                ==> rids.contains(rid)
    }

    /// True when row `rid` of `TypeDef` owns `run`: it starts where the
    /// `field_list` of the row says and ends where that of the next one does, or
    /// with the members for the last, kept within them.
    pub open spec fn fields_run(self, rid: u32, run: Range<u32>) -> bool {
        let limit = self.list_limit(TableId::Field);
        &&& self.has_row(TableId::TypeDef, rid)
        &&& run.start <= run.end
        &&& self.row::<TypeDefRow>(rid) matches Ok(row) ==> run.start == lookup::clamped(
            row.field_list.number(),
            limit,
        )
        &&& rid == self.row_count(TableId::TypeDef) ==> run.end == limit
        &&& rid < self.row_count(TableId::TypeDef) ==> (self.row::<TypeDefRow>(
            (rid + 1) as u32,
        ) matches Ok(next) ==> {
            let end = lookup::clamped(next.field_list.number(), limit);
            run.end == if end < run.start {
                run.start
            } else {
                end
            }
        })
    }

    /// True when `owner` is a row whose run holds `member`, or there is none.
    pub open spec fn fields_run_owner(self, member: u32, owner: Option<u32>) -> bool {
        match owner {
            Some(rid) => exists|run: Range<u32>| #[trigger]
                self.fields_run(rid, run) && run.start <= member < run.end,
            None => forall|rid: u32|
                #[trigger] self.has_row(TableId::TypeDef, rid) ==> exists|run: Range<u32>| #[trigger]
                    self.fields_run(rid, run) && !(run.start <= member < run.end),
        }
    }

    /// True when row `rid` of `TypeDef` owns `run`: it starts where the
    /// `method_list` of the row says and ends where that of the next one does, or
    /// with the members for the last, kept within them.
    pub open spec fn methods_run(self, rid: u32, run: Range<u32>) -> bool {
        let limit = self.list_limit(TableId::MethodDef);
        &&& self.has_row(TableId::TypeDef, rid)
        &&& run.start <= run.end
        &&& self.row::<TypeDefRow>(rid) matches Ok(row) ==> run.start == lookup::clamped(
            row.method_list.number(),
            limit,
        )
        &&& rid == self.row_count(TableId::TypeDef) ==> run.end == limit
        &&& rid < self.row_count(TableId::TypeDef) ==> (self.row::<TypeDefRow>(
            (rid + 1) as u32,
        ) matches Ok(next) ==> {
            let end = lookup::clamped(next.method_list.number(), limit);
            run.end == if end < run.start {
                run.start
            } else {
                end
            }
        })
    }

    /// True when `owner` is a row whose run holds `member`, or there is none.
    pub open spec fn methods_run_owner(self, member: u32, owner: Option<u32>) -> bool {
        match owner {
            Some(rid) => exists|run: Range<u32>| #[trigger]
                self.methods_run(rid, run) && run.start <= member < run.end,
            None => forall|rid: u32|
                #[trigger] self.has_row(TableId::TypeDef, rid) ==> exists|run: Range<u32>| #[trigger]
                    self.methods_run(rid, run) && !(run.start <= member < run.end),
        }
    }

    /// True when row `rid` of `MethodDef` owns `run`: it starts where the
    /// `param_list` of the row says and ends where that of the next one does, or
    /// with the members for the last, kept within them.
    pub open spec fn params_run(self, rid: u32, run: Range<u32>) -> bool {
        let limit = self.list_limit(TableId::Param);
        &&& self.has_row(TableId::MethodDef, rid)
        &&& run.start <= run.end
        &&& self.row::<MethodDefRow>(rid) matches Ok(row) ==> run.start == lookup::clamped(
            row.param_list.number(),
            limit,
        )
        &&& rid == self.row_count(TableId::MethodDef) ==> run.end == limit
        &&& rid < self.row_count(TableId::MethodDef) ==> (self.row::<MethodDefRow>(
            (rid + 1) as u32,
        ) matches Ok(next) ==> {
            let end = lookup::clamped(next.param_list.number(), limit);
            run.end == if end < run.start {
                run.start
            } else {
                end
            }
        })
    }

    /// True when `owner` is a row whose run holds `member`, or there is none.
    pub open spec fn params_run_owner(self, member: u32, owner: Option<u32>) -> bool {
        match owner {
            Some(rid) => exists|run: Range<u32>| #[trigger]
                self.params_run(rid, run) && run.start <= member < run.end,
            None => forall|rid: u32|
                #[trigger] self.has_row(TableId::MethodDef, rid) ==> exists|run: Range<u32>| #[trigger]
                    self.params_run(rid, run) && !(run.start <= member < run.end),
        }
    }

    /// True when row `rid` of `EventMap` owns `run`: it starts where the
    /// `event_list` of the row says and ends where that of the next one does, or
    /// with the members for the last, kept within them.
    pub open spec fn events_run(self, rid: u32, run: Range<u32>) -> bool {
        let limit = self.list_limit(TableId::Event);
        &&& self.has_row(TableId::EventMap, rid)
        &&& run.start <= run.end
        &&& self.row::<EventMapRow>(rid) matches Ok(row) ==> run.start == lookup::clamped(
            row.event_list.number(),
            limit,
        )
        &&& rid == self.row_count(TableId::EventMap) ==> run.end == limit
        &&& rid < self.row_count(TableId::EventMap) ==> (self.row::<EventMapRow>(
            (rid + 1) as u32,
        ) matches Ok(next) ==> {
            let end = lookup::clamped(next.event_list.number(), limit);
            run.end == if end < run.start {
                run.start
            } else {
                end
            }
        })
    }

    /// True when `owner` is a row whose run holds `member`, or there is none.
    pub open spec fn events_run_owner(self, member: u32, owner: Option<u32>) -> bool {
        match owner {
            Some(rid) => exists|run: Range<u32>| #[trigger]
                self.events_run(rid, run) && run.start <= member < run.end,
            None => forall|rid: u32|
                #[trigger] self.has_row(TableId::EventMap, rid) ==> exists|run: Range<u32>| #[trigger]
                    self.events_run(rid, run) && !(run.start <= member < run.end),
        }
    }

    /// True when row `rid` of `PropertyMap` owns `run`: it starts where the
    /// `property_list` of the row says and ends where that of the next one does, or
    /// with the members for the last, kept within them.
    pub open spec fn properties_run(self, rid: u32, run: Range<u32>) -> bool {
        let limit = self.list_limit(TableId::Property);
        &&& self.has_row(TableId::PropertyMap, rid)
        &&& run.start <= run.end
        &&& self.row::<PropertyMapRow>(rid) matches Ok(row) ==> run.start == lookup::clamped(
            row.property_list.number(),
            limit,
        )
        &&& rid == self.row_count(TableId::PropertyMap) ==> run.end == limit
        &&& rid < self.row_count(TableId::PropertyMap) ==> (self.row::<PropertyMapRow>(
            (rid + 1) as u32,
        ) matches Ok(next) ==> {
            let end = lookup::clamped(next.property_list.number(), limit);
            run.end == if end < run.start {
                run.start
            } else {
                end
            }
        })
    }

    /// True when `owner` is a row whose run holds `member`, or there is none.
    pub open spec fn properties_run_owner(self, member: u32, owner: Option<u32>) -> bool {
        match owner {
            Some(rid) => exists|run: Range<u32>| #[trigger]
                self.properties_run(rid, run) && run.start <= member < run.end,
            None => forall|rid: u32|
                #[trigger] self.has_row(TableId::PropertyMap, rid) ==> exists|run: Range<u32>| #[trigger]
                    self.properties_run(rid, run) && !(run.start <= member < run.end),
        }
    }

    /// True when `found` is what the first of the rows of `field` says.
    pub open spec fn rva_is(self, field: u32, found: Option<u32>) -> bool {
        exists|rids: Seq<u32>| #[trigger]
            self.rva_rows(field, rids) && match found {
                Some(value) => rids.len() > 0 && (self.row::<FieldRvaRow>(rids[0]) matches Ok(row)
                    && row.rva == value),
                None => rids.len() == 0,
            }
    }

    /// True when `found` is what the first of the rows of `field` says.
    pub open spec fn offset_is(self, field: u32, found: Option<u32>) -> bool {
        exists|rids: Seq<u32>| #[trigger]
            self.offset_rows(field, rids) && match found {
                Some(value) => rids.len() > 0 && (self.row::<FieldLayoutRow>(rids[0]) matches Ok(row)
                    && row.offset == value),
                None => rids.len() == 0,
            }
    }

    /// True when `found` is what the first of the rows of `parent` says.
    pub open spec fn native_type_is(self, parent: Token, found: Option<u32>) -> bool {
        exists|rids: Seq<u32>| #[trigger]
            self.marshal_rows(parent, rids) && match found {
                Some(value) => rids.len() > 0 && (self.row::<FieldMarshalRow>(rids[0]) matches Ok(row)
                    && row.native_type.0 == value),
                None => rids.len() == 0,
            }
    }

    /// True when `found` is what the first of the rows of `nested_class` says.
    pub open spec fn enclosing_is(self, nested_class: u32, found: Option<u32>) -> bool {
        exists|rids: Seq<u32>| #[trigger]
            self.enclosed_rows(nested_class, rids) && match found {
                Some(value) => rids.len() > 0 && (self.row::<NestedClassRow>(rids[0]) matches Ok(row)
                    && row.enclosing_class.number() == value),
                None => rids.len() == 0,
            }
    }

    /// True when `found` is the first of the rows of `parent`.
    pub open spec fn event_map_is(self, parent: u32, found: Option<u32>) -> bool {
        exists|rids: Seq<u32>| #[trigger]
            self.event_map_rows(parent, rids) && found == lookup::first_of(rids)
    }

    /// True when `found` is the first of the rows of `parent`.
    pub open spec fn property_map_is(self, parent: u32, found: Option<u32>) -> bool {
        exists|rids: Seq<u32>| #[trigger]
            self.property_map_rows(parent, rids) && found == lookup::first_of(rids)
    }

    /// True when `found` is the first of the rows of `parent`.
    pub open spec fn constant_is(self, parent: Token, found: Result<Option<ConstantRow>>) -> bool {
        exists|rids: Seq<u32>| #[trigger]
            self.constant_rows(parent, rids) && match found {
                Ok(Some(row)) => rids.len() > 0 && self.row::<ConstantRow>(rids[0]) == Ok::<ConstantRow, Error>(
                    row,
                ),
                Ok(None) => rids.len() == 0,
                Err(e) => rids.len() > 0 && self.row::<ConstantRow>(rids[0]) == Err::<ConstantRow, Error>(e),
            }
    }

    /// True when `found` is the first of the rows of `parent`.
    pub open spec fn layout_is(self, parent: u32, found: Result<Option<ClassLayoutRow>>) -> bool {
        exists|rids: Seq<u32>| #[trigger]
            self.layout_rows(parent, rids) && match found {
                Ok(Some(row)) => rids.len() > 0 && self.row::<ClassLayoutRow>(rids[0]) == Ok::<ClassLayoutRow, Error>(
                    row,
                ),
                Ok(None) => rids.len() == 0,
                Err(e) => rids.len() > 0 && self.row::<ClassLayoutRow>(rids[0]) == Err::<ClassLayoutRow, Error>(e),
            }
    }

    /// True when `found` is the first of the rows of `member_forwarded`.
    pub open spec fn import_is(self, member_forwarded: Token, found: Result<Option<ImplMapRow>>) -> bool {
        exists|rids: Seq<u32>| #[trigger]
            self.import_rows(member_forwarded, rids) && match found {
                Ok(Some(row)) => rids.len() > 0 && self.row::<ImplMapRow>(rids[0]) == Ok::<ImplMapRow, Error>(
                    row,
                ),
                Ok(None) => rids.len() == 0,
                Err(e) => rids.len() > 0 && self.row::<ImplMapRow>(rids[0]) == Err::<ImplMapRow, Error>(e),
            }
    }

    /// True when `rids` are the rows of the generic parameters of `owner`, in some
    /// order.
    pub open spec fn generic_members(self, owner: Token, rids: Seq<u32>) -> bool {
        &&& forall|i: int|
            0 <= i < rids.len() ==> self.has_row(TableId::GenericParam, #[trigger] rids[i]) && (
            self.row::<GenericParamRow>(rids[i]) matches Ok(row) ==> row.owner == owner)
        &&& forall|rid: u32|
            ((#[trigger] self.row::<GenericParamRow>(rid)) matches Ok(row) && row.owner == owner
                && row_fits(
                CodedIndex::TypeOrMethodDef,
                self.cell(TableId::GenericParam, rid, 2),
            )) ==> rids.contains(rid)
    }

    /// True when `types` are the types nested in `enclosing_class`, in the order
    /// of the rows that say so.
    pub open spec fn nested_are(self, enclosing_class: u32, types: Seq<u32>) -> bool {
        exists|rids: Seq<u32>| #[trigger]
            self.enclosing_rows(enclosing_class, rids) && rids.len() == types.len() && forall|i: int|
                0 <= i < rids.len() ==> (self.row::<NestedClassRow>(#[trigger] rids[i]) matches Ok(
                    row,
                ) && row.nested_class.number() == types[i])
    }
}

/// A row that is read has no coded index without a table.
proof fn lemma_read_tags(row: RowModel, kinds: Seq<ColumnKind>, i: int)
    requires
        0 <= i <= kinds.len(),
        row.column == 0,
        row.first_error(kinds, i) is None,
    ensures
        forall|k: int|
            i <= k < kinds.len() ==> ((#[trigger] kinds[k]) matches ColumnKind::Coded(kind)
                ==> kind.table_of(row.cells[k]) is Some),
    decreases kinds.len() - i,
{
    if i < kinds.len() {
        lemma_read_tags(row, kinds, i + 1);
    }
}

/// A row whose coded indices all have tables is read.
proof fn lemma_tags_read(row: RowModel, kinds: Seq<ColumnKind>, i: int)
    requires
        0 <= i <= kinds.len(),
        row.column == 0,
        kinds.len() <= row.cells.len(),
        forall|k: int|
            0 <= k < kinds.len() ==> ((#[trigger] kinds[k]) matches ColumnKind::Coded(kind)
                ==> kind.table_of(row.cells[k]) is Some),
    ensures
        row.first_error(kinds, i) is None,
    decreases kinds.len() - i,
{
    if i < kinds.len() {
        assert(kinds[i] is Coded ==> kinds[i]->Coded_0.table_of(row.cells[i]) is Some);
        lemma_tags_read(row, kinds, i + 1);
    }
}

/// The fields of a row of `ClassLayout` are its columns; it is read where it is
/// there.
proof fn lemma_class_layout_columns(m: TablesModel, rid: u32)
    requires
        m.wf(),
    ensures
        m.row::<ClassLayoutRow>(rid) matches Ok(row) ==> m.has_row(TableId::ClassLayout, rid) && row.class_size == m.cell(TableId::ClassLayout, rid, 1) && row.parent.number() == m.cell(TableId::ClassLayout, rid, 2),
        m.has_row(TableId::ClassLayout, rid) ==> m.row::<ClassLayoutRow>(rid) is Ok,
{
    let row = m.row_model(TableId::ClassLayout, rid);
    let columns = ClassLayoutRow::column_list();
    assert(columns == rows::columns(TableId::ClassLayout));
    if m.has_row(TableId::ClassLayout, rid) {
        assert(m.layout(TableId::ClassLayout).column_count == columns.len());
        assert(row.value(0) == m.cell(TableId::ClassLayout, rid, 0) && row.value(1) == m.cell(TableId::ClassLayout, rid, 1) && row.value(2) == m.cell(TableId::ClassLayout, rid, 2));

        token::lemma_rid_number(token::Rid::<token::marker::TypeDef>::of(m.cell(TableId::ClassLayout, rid, 2)), m.cell(TableId::ClassLayout, rid, 2));
        if m.row::<ClassLayoutRow>(rid) is Ok {
            lemma_read_tags(row, columns, 0);
        }
        lemma_tags_read(row, columns, 0);
    }
}

/// The fields of a row of `Constant` are its columns; it is read where it is
/// there and its coded indices have tables.
proof fn lemma_constant_columns(m: TablesModel, rid: u32)
    requires
        m.wf(),
    ensures
        m.row::<ConstantRow>(rid) matches Ok(row) ==> m.has_row(TableId::Constant, rid) && CodedIndex::HasConstant.decoded(m.cell(TableId::Constant, rid, 1), 0) == Ok::<Token, Error>(row.parent) && row.value.0 == m.cell(TableId::Constant, rid, 2),
        m.has_row(TableId::Constant, rid) && CodedIndex::HasConstant.table_of(m.cell(TableId::Constant, rid, 1)) is Some ==> m.row::<ConstantRow>(rid) is Ok,
{
    let row = m.row_model(TableId::Constant, rid);
    let columns = ConstantRow::column_list();
    assert(columns == rows::columns(TableId::Constant));
    if m.has_row(TableId::Constant, rid) {
        assert(m.layout(TableId::Constant).column_count == columns.len());
        assert(row.value(0) == m.cell(TableId::Constant, rid, 0) && row.value(1) == m.cell(TableId::Constant, rid, 1) && row.value(2) == m.cell(TableId::Constant, rid, 2));

        if m.row::<ConstantRow>(rid) is Ok {
            lemma_read_tags(row, columns, 0);
            assert(columns[1] is Coded);
        }
        if CodedIndex::HasConstant.table_of(m.cell(TableId::Constant, rid, 1)) is Some {
            lemma_tags_read(row, columns, 0);
        }
    }
}

/// The fields of a row of `CustomAttribute` are its columns; it is read where it is
/// there and its coded indices have tables.
proof fn lemma_custom_attribute_columns(m: TablesModel, rid: u32)
    requires
        m.wf(),
    ensures
        m.row::<CustomAttributeRow>(rid) matches Ok(row) ==> m.has_row(TableId::CustomAttribute, rid) && CodedIndex::HasCustomAttribute.decoded(m.cell(TableId::CustomAttribute, rid, 0), 0) == Ok::<Token, Error>(row.parent) && CodedIndex::CustomAttributeType.decoded(m.cell(TableId::CustomAttribute, rid, 1), 0) == Ok::<Token, Error>(row.constructor) && row.value.0 == m.cell(TableId::CustomAttribute, rid, 2),
        m.has_row(TableId::CustomAttribute, rid) && CodedIndex::HasCustomAttribute.table_of(m.cell(TableId::CustomAttribute, rid, 0)) is Some && CodedIndex::CustomAttributeType.table_of(m.cell(TableId::CustomAttribute, rid, 1)) is Some ==> m.row::<CustomAttributeRow>(rid) is Ok,
{
    let row = m.row_model(TableId::CustomAttribute, rid);
    let columns = CustomAttributeRow::column_list();
    assert(columns == rows::columns(TableId::CustomAttribute));
    if m.has_row(TableId::CustomAttribute, rid) {
        assert(m.layout(TableId::CustomAttribute).column_count == columns.len());
        assert(row.value(0) == m.cell(TableId::CustomAttribute, rid, 0) && row.value(1) == m.cell(TableId::CustomAttribute, rid, 1) && row.value(2) == m.cell(TableId::CustomAttribute, rid, 2));

        if m.row::<CustomAttributeRow>(rid) is Ok {
            lemma_read_tags(row, columns, 0);
            assert(columns[0] is Coded);
            assert(columns[1] is Coded);
        }
        if CodedIndex::HasCustomAttribute.table_of(m.cell(TableId::CustomAttribute, rid, 0)) is Some && CodedIndex::CustomAttributeType.table_of(m.cell(TableId::CustomAttribute, rid, 1)) is Some {
            lemma_tags_read(row, columns, 0);
        }
    }
}

/// The fields of a row of `CustomDebugInformation` are its columns; it is read where it is
/// there and its coded indices have tables.
proof fn lemma_custom_debug_information_columns(m: TablesModel, rid: u32)
    requires
        m.wf(),
    ensures
        m.row::<CustomDebugInformationRow>(rid) matches Ok(row) ==> m.has_row(TableId::CustomDebugInformation, rid) && CodedIndex::HasCustomDebugInformation.decoded(m.cell(TableId::CustomDebugInformation, rid, 0), 0) == Ok::<Token, Error>(row.parent) && row.kind.0 == m.cell(TableId::CustomDebugInformation, rid, 1) && row.value.0 == m.cell(TableId::CustomDebugInformation, rid, 2),
        m.has_row(TableId::CustomDebugInformation, rid) && CodedIndex::HasCustomDebugInformation.table_of(m.cell(TableId::CustomDebugInformation, rid, 0)) is Some ==> m.row::<CustomDebugInformationRow>(rid) is Ok,
{
    let row = m.row_model(TableId::CustomDebugInformation, rid);
    let columns = CustomDebugInformationRow::column_list();
    assert(columns == rows::columns(TableId::CustomDebugInformation));
    if m.has_row(TableId::CustomDebugInformation, rid) {
        assert(m.layout(TableId::CustomDebugInformation).column_count == columns.len());
        assert(row.value(0) == m.cell(TableId::CustomDebugInformation, rid, 0) && row.value(1) == m.cell(TableId::CustomDebugInformation, rid, 1) && row.value(2) == m.cell(TableId::CustomDebugInformation, rid, 2));

        if m.row::<CustomDebugInformationRow>(rid) is Ok {
            lemma_read_tags(row, columns, 0);
            assert(columns[0] is Coded);
        }
        if CodedIndex::HasCustomDebugInformation.table_of(m.cell(TableId::CustomDebugInformation, rid, 0)) is Some {
            lemma_tags_read(row, columns, 0);
        }
    }
}

/// The fields of a row of `DeclSecurity` are its columns; it is read where it is
/// there and its coded indices have tables.
proof fn lemma_decl_security_columns(m: TablesModel, rid: u32)
    requires
        m.wf(),
    ensures
        m.row::<DeclSecurityRow>(rid) matches Ok(row) ==> m.has_row(TableId::DeclSecurity, rid) && CodedIndex::HasDeclSecurity.decoded(m.cell(TableId::DeclSecurity, rid, 1), 0) == Ok::<Token, Error>(row.parent) && row.permission_set.0 == m.cell(TableId::DeclSecurity, rid, 2),
        m.has_row(TableId::DeclSecurity, rid) && CodedIndex::HasDeclSecurity.table_of(m.cell(TableId::DeclSecurity, rid, 1)) is Some ==> m.row::<DeclSecurityRow>(rid) is Ok,
{
    let row = m.row_model(TableId::DeclSecurity, rid);
    let columns = DeclSecurityRow::column_list();
    assert(columns == rows::columns(TableId::DeclSecurity));
    if m.has_row(TableId::DeclSecurity, rid) {
        assert(m.layout(TableId::DeclSecurity).column_count == columns.len());
        assert(row.value(0) == m.cell(TableId::DeclSecurity, rid, 0) && row.value(1) == m.cell(TableId::DeclSecurity, rid, 1) && row.value(2) == m.cell(TableId::DeclSecurity, rid, 2));

        if m.row::<DeclSecurityRow>(rid) is Ok {
            lemma_read_tags(row, columns, 0);
            assert(columns[1] is Coded);
        }
        if CodedIndex::HasDeclSecurity.table_of(m.cell(TableId::DeclSecurity, rid, 1)) is Some {
            lemma_tags_read(row, columns, 0);
        }
    }
}

/// The fields of a row of `EventMap` are its columns; it is read where it is
/// there.
proof fn lemma_event_map_columns(m: TablesModel, rid: u32)
    requires
        m.wf(),
    ensures
        m.row::<EventMapRow>(rid) matches Ok(row) ==> m.has_row(TableId::EventMap, rid) && row.parent.number() == m.cell(TableId::EventMap, rid, 0) && row.event_list.number() == m.cell(TableId::EventMap, rid, 1),
        m.has_row(TableId::EventMap, rid) ==> m.row::<EventMapRow>(rid) is Ok,
{
    let row = m.row_model(TableId::EventMap, rid);
    let columns = EventMapRow::column_list();
    assert(columns == rows::columns(TableId::EventMap));
    if m.has_row(TableId::EventMap, rid) {
        assert(m.layout(TableId::EventMap).column_count == columns.len());
        assert(row.value(0) == m.cell(TableId::EventMap, rid, 0) && row.value(1) == m.cell(TableId::EventMap, rid, 1));

        token::lemma_rid_number(token::Rid::<token::marker::TypeDef>::of(m.cell(TableId::EventMap, rid, 0)), m.cell(TableId::EventMap, rid, 0));
        token::lemma_rid_number(token::Rid::<token::marker::Event>::of(m.cell(TableId::EventMap, rid, 1)), m.cell(TableId::EventMap, rid, 1));
        if m.row::<EventMapRow>(rid) is Ok {
            lemma_read_tags(row, columns, 0);
        }
        lemma_tags_read(row, columns, 0);
    }
}

/// The fields of a row of `FieldLayout` are its columns; it is read where it is
/// there.
proof fn lemma_field_layout_columns(m: TablesModel, rid: u32)
    requires
        m.wf(),
    ensures
        m.row::<FieldLayoutRow>(rid) matches Ok(row) ==> m.has_row(TableId::FieldLayout, rid) && row.offset == m.cell(TableId::FieldLayout, rid, 0) && row.field.number() == m.cell(TableId::FieldLayout, rid, 1),
        m.has_row(TableId::FieldLayout, rid) ==> m.row::<FieldLayoutRow>(rid) is Ok,
{
    let row = m.row_model(TableId::FieldLayout, rid);
    let columns = FieldLayoutRow::column_list();
    assert(columns == rows::columns(TableId::FieldLayout));
    if m.has_row(TableId::FieldLayout, rid) {
        assert(m.layout(TableId::FieldLayout).column_count == columns.len());
        assert(row.value(0) == m.cell(TableId::FieldLayout, rid, 0) && row.value(1) == m.cell(TableId::FieldLayout, rid, 1));

        token::lemma_rid_number(token::Rid::<token::marker::Field>::of(m.cell(TableId::FieldLayout, rid, 1)), m.cell(TableId::FieldLayout, rid, 1));
        if m.row::<FieldLayoutRow>(rid) is Ok {
            lemma_read_tags(row, columns, 0);
        }
        lemma_tags_read(row, columns, 0);
    }
}

/// The fields of a row of `FieldMarshal` are its columns; it is read where it is
/// there and its coded indices have tables.
proof fn lemma_field_marshal_columns(m: TablesModel, rid: u32)
    requires
        m.wf(),
    ensures
        m.row::<FieldMarshalRow>(rid) matches Ok(row) ==> m.has_row(TableId::FieldMarshal, rid) && CodedIndex::HasFieldMarshal.decoded(m.cell(TableId::FieldMarshal, rid, 0), 0) == Ok::<Token, Error>(row.parent) && row.native_type.0 == m.cell(TableId::FieldMarshal, rid, 1),
        m.has_row(TableId::FieldMarshal, rid) && CodedIndex::HasFieldMarshal.table_of(m.cell(TableId::FieldMarshal, rid, 0)) is Some ==> m.row::<FieldMarshalRow>(rid) is Ok,
{
    let row = m.row_model(TableId::FieldMarshal, rid);
    let columns = FieldMarshalRow::column_list();
    assert(columns == rows::columns(TableId::FieldMarshal));
    if m.has_row(TableId::FieldMarshal, rid) {
        assert(m.layout(TableId::FieldMarshal).column_count == columns.len());
        assert(row.value(0) == m.cell(TableId::FieldMarshal, rid, 0) && row.value(1) == m.cell(TableId::FieldMarshal, rid, 1));

        if m.row::<FieldMarshalRow>(rid) is Ok {
            lemma_read_tags(row, columns, 0);
            assert(columns[0] is Coded);
        }
        if CodedIndex::HasFieldMarshal.table_of(m.cell(TableId::FieldMarshal, rid, 0)) is Some {
            lemma_tags_read(row, columns, 0);
        }
    }
}

/// The fields of a row of `FieldRva` are its columns; it is read where it is
/// there.
proof fn lemma_field_rva_columns(m: TablesModel, rid: u32)
    requires
        m.wf(),
    ensures
        m.row::<FieldRvaRow>(rid) matches Ok(row) ==> m.has_row(TableId::FieldRva, rid) && row.rva == m.cell(TableId::FieldRva, rid, 0) && row.field.number() == m.cell(TableId::FieldRva, rid, 1),
        m.has_row(TableId::FieldRva, rid) ==> m.row::<FieldRvaRow>(rid) is Ok,
{
    let row = m.row_model(TableId::FieldRva, rid);
    let columns = FieldRvaRow::column_list();
    assert(columns == rows::columns(TableId::FieldRva));
    if m.has_row(TableId::FieldRva, rid) {
        assert(m.layout(TableId::FieldRva).column_count == columns.len());
        assert(row.value(0) == m.cell(TableId::FieldRva, rid, 0) && row.value(1) == m.cell(TableId::FieldRva, rid, 1));

        token::lemma_rid_number(token::Rid::<token::marker::Field>::of(m.cell(TableId::FieldRva, rid, 1)), m.cell(TableId::FieldRva, rid, 1));
        if m.row::<FieldRvaRow>(rid) is Ok {
            lemma_read_tags(row, columns, 0);
        }
        lemma_tags_read(row, columns, 0);
    }
}

/// The fields of a row of `GenericParam` are its columns; it is read where it is
/// there and its coded indices have tables.
proof fn lemma_generic_param_columns(m: TablesModel, rid: u32)
    requires
        m.wf(),
    ensures
        m.row::<GenericParamRow>(rid) matches Ok(row) ==> m.has_row(TableId::GenericParam, rid) && CodedIndex::TypeOrMethodDef.decoded(m.cell(TableId::GenericParam, rid, 2), 0) == Ok::<Token, Error>(row.owner) && row.name.0 == m.cell(TableId::GenericParam, rid, 3),
        m.has_row(TableId::GenericParam, rid) && CodedIndex::TypeOrMethodDef.table_of(m.cell(TableId::GenericParam, rid, 2)) is Some ==> m.row::<GenericParamRow>(rid) is Ok,
{
    let row = m.row_model(TableId::GenericParam, rid);
    let columns = GenericParamRow::column_list();
    assert(columns == rows::columns(TableId::GenericParam));
    if m.has_row(TableId::GenericParam, rid) {
        assert(m.layout(TableId::GenericParam).column_count == columns.len());
        assert(row.value(0) == m.cell(TableId::GenericParam, rid, 0) && row.value(1) == m.cell(TableId::GenericParam, rid, 1) && row.value(2) == m.cell(TableId::GenericParam, rid, 2) && row.value(3) == m.cell(TableId::GenericParam, rid, 3));

        if m.row::<GenericParamRow>(rid) is Ok {
            lemma_read_tags(row, columns, 0);
            assert(columns[2] is Coded);
        }
        if CodedIndex::TypeOrMethodDef.table_of(m.cell(TableId::GenericParam, rid, 2)) is Some {
            lemma_tags_read(row, columns, 0);
        }
    }
}

/// The fields of a row of `GenericParamConstraint` are its columns; it is read where it is
/// there and its coded indices have tables.
proof fn lemma_generic_param_constraint_columns(m: TablesModel, rid: u32)
    requires
        m.wf(),
    ensures
        m.row::<GenericParamConstraintRow>(rid) matches Ok(row) ==> m.has_row(TableId::GenericParamConstraint, rid) && row.owner.number() == m.cell(TableId::GenericParamConstraint, rid, 0) && CodedIndex::TypeDefOrRef.decoded(m.cell(TableId::GenericParamConstraint, rid, 1), 0) == Ok::<Token, Error>(row.constraint),
        m.has_row(TableId::GenericParamConstraint, rid) && CodedIndex::TypeDefOrRef.table_of(m.cell(TableId::GenericParamConstraint, rid, 1)) is Some ==> m.row::<GenericParamConstraintRow>(rid) is Ok,
{
    let row = m.row_model(TableId::GenericParamConstraint, rid);
    let columns = GenericParamConstraintRow::column_list();
    assert(columns == rows::columns(TableId::GenericParamConstraint));
    if m.has_row(TableId::GenericParamConstraint, rid) {
        assert(m.layout(TableId::GenericParamConstraint).column_count == columns.len());
        assert(row.value(0) == m.cell(TableId::GenericParamConstraint, rid, 0) && row.value(1) == m.cell(TableId::GenericParamConstraint, rid, 1));

        token::lemma_rid_number(token::Rid::<token::marker::GenericParam>::of(m.cell(TableId::GenericParamConstraint, rid, 0)), m.cell(TableId::GenericParamConstraint, rid, 0));
        if m.row::<GenericParamConstraintRow>(rid) is Ok {
            lemma_read_tags(row, columns, 0);
            assert(columns[1] is Coded);
        }
        if CodedIndex::TypeDefOrRef.table_of(m.cell(TableId::GenericParamConstraint, rid, 1)) is Some {
            lemma_tags_read(row, columns, 0);
        }
    }
}

/// The fields of a row of `ImplMap` are its columns; it is read where it is
/// there and its coded indices have tables.
proof fn lemma_impl_map_columns(m: TablesModel, rid: u32)
    requires
        m.wf(),
    ensures
        m.row::<ImplMapRow>(rid) matches Ok(row) ==> m.has_row(TableId::ImplMap, rid) && CodedIndex::MemberForwarded.decoded(m.cell(TableId::ImplMap, rid, 1), 0) == Ok::<Token, Error>(row.member_forwarded) && row.import_name.0 == m.cell(TableId::ImplMap, rid, 2) && row.import_scope.number() == m.cell(TableId::ImplMap, rid, 3),
        m.has_row(TableId::ImplMap, rid) && CodedIndex::MemberForwarded.table_of(m.cell(TableId::ImplMap, rid, 1)) is Some ==> m.row::<ImplMapRow>(rid) is Ok,
{
    let row = m.row_model(TableId::ImplMap, rid);
    let columns = ImplMapRow::column_list();
    assert(columns == rows::columns(TableId::ImplMap));
    if m.has_row(TableId::ImplMap, rid) {
        assert(m.layout(TableId::ImplMap).column_count == columns.len());
        assert(row.value(0) == m.cell(TableId::ImplMap, rid, 0) && row.value(1) == m.cell(TableId::ImplMap, rid, 1) && row.value(2) == m.cell(TableId::ImplMap, rid, 2) && row.value(3) == m.cell(TableId::ImplMap, rid, 3));

        token::lemma_rid_number(token::Rid::<token::marker::ModuleRef>::of(m.cell(TableId::ImplMap, rid, 3)), m.cell(TableId::ImplMap, rid, 3));
        if m.row::<ImplMapRow>(rid) is Ok {
            lemma_read_tags(row, columns, 0);
            assert(columns[1] is Coded);
        }
        if CodedIndex::MemberForwarded.table_of(m.cell(TableId::ImplMap, rid, 1)) is Some {
            lemma_tags_read(row, columns, 0);
        }
    }
}

/// The fields of a row of `InterfaceImpl` are its columns; it is read where it is
/// there and its coded indices have tables.
proof fn lemma_interface_impl_columns(m: TablesModel, rid: u32)
    requires
        m.wf(),
    ensures
        m.row::<InterfaceImplRow>(rid) matches Ok(row) ==> m.has_row(TableId::InterfaceImpl, rid) && row.class.number() == m.cell(TableId::InterfaceImpl, rid, 0) && CodedIndex::TypeDefOrRef.decoded(m.cell(TableId::InterfaceImpl, rid, 1), 0) == Ok::<Token, Error>(row.interface),
        m.has_row(TableId::InterfaceImpl, rid) && CodedIndex::TypeDefOrRef.table_of(m.cell(TableId::InterfaceImpl, rid, 1)) is Some ==> m.row::<InterfaceImplRow>(rid) is Ok,
{
    let row = m.row_model(TableId::InterfaceImpl, rid);
    let columns = InterfaceImplRow::column_list();
    assert(columns == rows::columns(TableId::InterfaceImpl));
    if m.has_row(TableId::InterfaceImpl, rid) {
        assert(m.layout(TableId::InterfaceImpl).column_count == columns.len());
        assert(row.value(0) == m.cell(TableId::InterfaceImpl, rid, 0) && row.value(1) == m.cell(TableId::InterfaceImpl, rid, 1));

        token::lemma_rid_number(token::Rid::<token::marker::TypeDef>::of(m.cell(TableId::InterfaceImpl, rid, 0)), m.cell(TableId::InterfaceImpl, rid, 0));
        if m.row::<InterfaceImplRow>(rid) is Ok {
            lemma_read_tags(row, columns, 0);
            assert(columns[1] is Coded);
        }
        if CodedIndex::TypeDefOrRef.table_of(m.cell(TableId::InterfaceImpl, rid, 1)) is Some {
            lemma_tags_read(row, columns, 0);
        }
    }
}

/// The fields of a row of `LocalScope` are its columns; it is read where it is
/// there.
proof fn lemma_local_scope_columns(m: TablesModel, rid: u32)
    requires
        m.wf(),
    ensures
        m.row::<LocalScopeRow>(rid) matches Ok(row) ==> m.has_row(TableId::LocalScope, rid) && row.method.number() == m.cell(TableId::LocalScope, rid, 0) && row.import_scope.number() == m.cell(TableId::LocalScope, rid, 1) && row.variable_list.number() == m.cell(TableId::LocalScope, rid, 2) && row.constant_list.number() == m.cell(TableId::LocalScope, rid, 3) && row.start_offset == m.cell(TableId::LocalScope, rid, 4) && row.length == m.cell(TableId::LocalScope, rid, 5),
        m.has_row(TableId::LocalScope, rid) ==> m.row::<LocalScopeRow>(rid) is Ok,
{
    let row = m.row_model(TableId::LocalScope, rid);
    let columns = LocalScopeRow::column_list();
    assert(columns == rows::columns(TableId::LocalScope));
    if m.has_row(TableId::LocalScope, rid) {
        assert(m.layout(TableId::LocalScope).column_count == columns.len());
        assert(row.value(0) == m.cell(TableId::LocalScope, rid, 0) && row.value(1) == m.cell(TableId::LocalScope, rid, 1) && row.value(2) == m.cell(TableId::LocalScope, rid, 2) && row.value(3) == m.cell(TableId::LocalScope, rid, 3) && row.value(4) == m.cell(TableId::LocalScope, rid, 4) && row.value(5) == m.cell(TableId::LocalScope, rid, 5));

        token::lemma_rid_number(token::Rid::<token::marker::MethodDef>::of(m.cell(TableId::LocalScope, rid, 0)), m.cell(TableId::LocalScope, rid, 0));
        token::lemma_rid_number(token::Rid::<token::marker::ImportScope>::of(m.cell(TableId::LocalScope, rid, 1)), m.cell(TableId::LocalScope, rid, 1));
        token::lemma_rid_number(token::Rid::<token::marker::LocalVariable>::of(m.cell(TableId::LocalScope, rid, 2)), m.cell(TableId::LocalScope, rid, 2));
        token::lemma_rid_number(token::Rid::<token::marker::LocalConstant>::of(m.cell(TableId::LocalScope, rid, 3)), m.cell(TableId::LocalScope, rid, 3));
        if m.row::<LocalScopeRow>(rid) is Ok {
            lemma_read_tags(row, columns, 0);
        }
        lemma_tags_read(row, columns, 0);
    }
}

/// The fields of a row of `MethodDef` are its columns; it is read where it is
/// there.
proof fn lemma_method_def_columns(m: TablesModel, rid: u32)
    requires
        m.wf(),
    ensures
        m.row::<MethodDefRow>(rid) matches Ok(row) ==> m.has_row(TableId::MethodDef, rid) && row.rva == m.cell(TableId::MethodDef, rid, 0) && row.name.0 == m.cell(TableId::MethodDef, rid, 3) && row.signature.0 == m.cell(TableId::MethodDef, rid, 4) && row.param_list.number() == m.cell(TableId::MethodDef, rid, 5),
        m.has_row(TableId::MethodDef, rid) ==> m.row::<MethodDefRow>(rid) is Ok,
{
    let row = m.row_model(TableId::MethodDef, rid);
    let columns = MethodDefRow::column_list();
    assert(columns == rows::columns(TableId::MethodDef));
    if m.has_row(TableId::MethodDef, rid) {
        assert(m.layout(TableId::MethodDef).column_count == columns.len());
        assert(row.value(0) == m.cell(TableId::MethodDef, rid, 0) && row.value(1) == m.cell(TableId::MethodDef, rid, 1) && row.value(2) == m.cell(TableId::MethodDef, rid, 2) && row.value(3) == m.cell(TableId::MethodDef, rid, 3) && row.value(4) == m.cell(TableId::MethodDef, rid, 4) && row.value(5) == m.cell(TableId::MethodDef, rid, 5));

        token::lemma_rid_number(token::Rid::<token::marker::Param>::of(m.cell(TableId::MethodDef, rid, 5)), m.cell(TableId::MethodDef, rid, 5));
        if m.row::<MethodDefRow>(rid) is Ok {
            lemma_read_tags(row, columns, 0);
        }
        lemma_tags_read(row, columns, 0);
    }
}

/// The fields of a row of `MethodImpl` are its columns; it is read where it is
/// there and its coded indices have tables.
proof fn lemma_method_impl_columns(m: TablesModel, rid: u32)
    requires
        m.wf(),
    ensures
        m.row::<MethodImplRow>(rid) matches Ok(row) ==> m.has_row(TableId::MethodImpl, rid) && row.class.number() == m.cell(TableId::MethodImpl, rid, 0) && CodedIndex::MethodDefOrRef.decoded(m.cell(TableId::MethodImpl, rid, 1), 0) == Ok::<Token, Error>(row.method_body) && CodedIndex::MethodDefOrRef.decoded(m.cell(TableId::MethodImpl, rid, 2), 0) == Ok::<Token, Error>(row.method_declaration),
        m.has_row(TableId::MethodImpl, rid) && CodedIndex::MethodDefOrRef.table_of(m.cell(TableId::MethodImpl, rid, 1)) is Some && CodedIndex::MethodDefOrRef.table_of(m.cell(TableId::MethodImpl, rid, 2)) is Some ==> m.row::<MethodImplRow>(rid) is Ok,
{
    let row = m.row_model(TableId::MethodImpl, rid);
    let columns = MethodImplRow::column_list();
    assert(columns == rows::columns(TableId::MethodImpl));
    if m.has_row(TableId::MethodImpl, rid) {
        assert(m.layout(TableId::MethodImpl).column_count == columns.len());
        assert(row.value(0) == m.cell(TableId::MethodImpl, rid, 0) && row.value(1) == m.cell(TableId::MethodImpl, rid, 1) && row.value(2) == m.cell(TableId::MethodImpl, rid, 2));

        token::lemma_rid_number(token::Rid::<token::marker::TypeDef>::of(m.cell(TableId::MethodImpl, rid, 0)), m.cell(TableId::MethodImpl, rid, 0));
        if m.row::<MethodImplRow>(rid) is Ok {
            lemma_read_tags(row, columns, 0);
            assert(columns[1] is Coded);
            assert(columns[2] is Coded);
        }
        if CodedIndex::MethodDefOrRef.table_of(m.cell(TableId::MethodImpl, rid, 1)) is Some && CodedIndex::MethodDefOrRef.table_of(m.cell(TableId::MethodImpl, rid, 2)) is Some {
            lemma_tags_read(row, columns, 0);
        }
    }
}

/// The fields of a row of `MethodSemantics` are its columns; it is read where it is
/// there and its coded indices have tables.
proof fn lemma_method_semantics_columns(m: TablesModel, rid: u32)
    requires
        m.wf(),
    ensures
        m.row::<MethodSemanticsRow>(rid) matches Ok(row) ==> m.has_row(TableId::MethodSemantics, rid) && row.method.number() == m.cell(TableId::MethodSemantics, rid, 1) && CodedIndex::HasSemantics.decoded(m.cell(TableId::MethodSemantics, rid, 2), 0) == Ok::<Token, Error>(row.association),
        m.has_row(TableId::MethodSemantics, rid) && CodedIndex::HasSemantics.table_of(m.cell(TableId::MethodSemantics, rid, 2)) is Some ==> m.row::<MethodSemanticsRow>(rid) is Ok,
{
    let row = m.row_model(TableId::MethodSemantics, rid);
    let columns = MethodSemanticsRow::column_list();
    assert(columns == rows::columns(TableId::MethodSemantics));
    if m.has_row(TableId::MethodSemantics, rid) {
        assert(m.layout(TableId::MethodSemantics).column_count == columns.len());
        assert(row.value(0) == m.cell(TableId::MethodSemantics, rid, 0) && row.value(1) == m.cell(TableId::MethodSemantics, rid, 1) && row.value(2) == m.cell(TableId::MethodSemantics, rid, 2));

        token::lemma_rid_number(token::Rid::<token::marker::MethodDef>::of(m.cell(TableId::MethodSemantics, rid, 1)), m.cell(TableId::MethodSemantics, rid, 1));
        if m.row::<MethodSemanticsRow>(rid) is Ok {
            lemma_read_tags(row, columns, 0);
            assert(columns[2] is Coded);
        }
        if CodedIndex::HasSemantics.table_of(m.cell(TableId::MethodSemantics, rid, 2)) is Some {
            lemma_tags_read(row, columns, 0);
        }
    }
}

/// The fields of a row of `NestedClass` are its columns; it is read where it is
/// there.
proof fn lemma_nested_class_columns(m: TablesModel, rid: u32)
    requires
        m.wf(),
    ensures
        m.row::<NestedClassRow>(rid) matches Ok(row) ==> m.has_row(TableId::NestedClass, rid) && row.nested_class.number() == m.cell(TableId::NestedClass, rid, 0) && row.enclosing_class.number() == m.cell(TableId::NestedClass, rid, 1),
        m.has_row(TableId::NestedClass, rid) ==> m.row::<NestedClassRow>(rid) is Ok,
{
    let row = m.row_model(TableId::NestedClass, rid);
    let columns = NestedClassRow::column_list();
    assert(columns == rows::columns(TableId::NestedClass));
    if m.has_row(TableId::NestedClass, rid) {
        assert(m.layout(TableId::NestedClass).column_count == columns.len());
        assert(row.value(0) == m.cell(TableId::NestedClass, rid, 0) && row.value(1) == m.cell(TableId::NestedClass, rid, 1));

        token::lemma_rid_number(token::Rid::<token::marker::TypeDef>::of(m.cell(TableId::NestedClass, rid, 0)), m.cell(TableId::NestedClass, rid, 0));
        token::lemma_rid_number(token::Rid::<token::marker::TypeDef>::of(m.cell(TableId::NestedClass, rid, 1)), m.cell(TableId::NestedClass, rid, 1));
        if m.row::<NestedClassRow>(rid) is Ok {
            lemma_read_tags(row, columns, 0);
        }
        lemma_tags_read(row, columns, 0);
    }
}

/// The fields of a row of `PropertyMap` are its columns; it is read where it is
/// there.
proof fn lemma_property_map_columns(m: TablesModel, rid: u32)
    requires
        m.wf(),
    ensures
        m.row::<PropertyMapRow>(rid) matches Ok(row) ==> m.has_row(TableId::PropertyMap, rid) && row.parent.number() == m.cell(TableId::PropertyMap, rid, 0) && row.property_list.number() == m.cell(TableId::PropertyMap, rid, 1),
        m.has_row(TableId::PropertyMap, rid) ==> m.row::<PropertyMapRow>(rid) is Ok,
{
    let row = m.row_model(TableId::PropertyMap, rid);
    let columns = PropertyMapRow::column_list();
    assert(columns == rows::columns(TableId::PropertyMap));
    if m.has_row(TableId::PropertyMap, rid) {
        assert(m.layout(TableId::PropertyMap).column_count == columns.len());
        assert(row.value(0) == m.cell(TableId::PropertyMap, rid, 0) && row.value(1) == m.cell(TableId::PropertyMap, rid, 1));

        token::lemma_rid_number(token::Rid::<token::marker::TypeDef>::of(m.cell(TableId::PropertyMap, rid, 0)), m.cell(TableId::PropertyMap, rid, 0));
        token::lemma_rid_number(token::Rid::<token::marker::Property>::of(m.cell(TableId::PropertyMap, rid, 1)), m.cell(TableId::PropertyMap, rid, 1));
        if m.row::<PropertyMapRow>(rid) is Ok {
            lemma_read_tags(row, columns, 0);
        }
        lemma_tags_read(row, columns, 0);
    }
}

/// The fields of a row of `StateMachineMethod` are its columns; it is read where it is
/// there.
proof fn lemma_state_machine_method_columns(m: TablesModel, rid: u32)
    requires
        m.wf(),
    ensures
        m.row::<StateMachineMethodRow>(rid) matches Ok(row) ==> m.has_row(TableId::StateMachineMethod, rid) && row.move_next_method.number() == m.cell(TableId::StateMachineMethod, rid, 0) && row.kickoff_method.number() == m.cell(TableId::StateMachineMethod, rid, 1),
        m.has_row(TableId::StateMachineMethod, rid) ==> m.row::<StateMachineMethodRow>(rid) is Ok,
{
    let row = m.row_model(TableId::StateMachineMethod, rid);
    let columns = StateMachineMethodRow::column_list();
    assert(columns == rows::columns(TableId::StateMachineMethod));
    if m.has_row(TableId::StateMachineMethod, rid) {
        assert(m.layout(TableId::StateMachineMethod).column_count == columns.len());
        assert(row.value(0) == m.cell(TableId::StateMachineMethod, rid, 0) && row.value(1) == m.cell(TableId::StateMachineMethod, rid, 1));

        token::lemma_rid_number(token::Rid::<token::marker::MethodDef>::of(m.cell(TableId::StateMachineMethod, rid, 0)), m.cell(TableId::StateMachineMethod, rid, 0));
        token::lemma_rid_number(token::Rid::<token::marker::MethodDef>::of(m.cell(TableId::StateMachineMethod, rid, 1)), m.cell(TableId::StateMachineMethod, rid, 1));
        if m.row::<StateMachineMethodRow>(rid) is Ok {
            lemma_read_tags(row, columns, 0);
        }
        lemma_tags_read(row, columns, 0);
    }
}

/// The fields of a row of `TypeDef` are its columns; it is read where it is
/// there and its coded indices have tables.
proof fn lemma_type_def_columns(m: TablesModel, rid: u32)
    requires
        m.wf(),
    ensures
        m.row::<TypeDefRow>(rid) matches Ok(row) ==> m.has_row(TableId::TypeDef, rid) && row.flags == m.cell(TableId::TypeDef, rid, 0) && row.name.0 == m.cell(TableId::TypeDef, rid, 1) && row.type_namespace.0 == m.cell(TableId::TypeDef, rid, 2) && CodedIndex::TypeDefOrRef.decoded(m.cell(TableId::TypeDef, rid, 3), 0) == Ok::<Token, Error>(row.extends) && row.field_list.number() == m.cell(TableId::TypeDef, rid, 4) && row.method_list.number() == m.cell(TableId::TypeDef, rid, 5),
        m.has_row(TableId::TypeDef, rid) && CodedIndex::TypeDefOrRef.table_of(m.cell(TableId::TypeDef, rid, 3)) is Some ==> m.row::<TypeDefRow>(rid) is Ok,
{
    let row = m.row_model(TableId::TypeDef, rid);
    let columns = TypeDefRow::column_list();
    assert(columns == rows::columns(TableId::TypeDef));
    if m.has_row(TableId::TypeDef, rid) {
        assert(m.layout(TableId::TypeDef).column_count == columns.len());
        assert(row.value(0) == m.cell(TableId::TypeDef, rid, 0) && row.value(1) == m.cell(TableId::TypeDef, rid, 1) && row.value(2) == m.cell(TableId::TypeDef, rid, 2) && row.value(3) == m.cell(TableId::TypeDef, rid, 3) && row.value(4) == m.cell(TableId::TypeDef, rid, 4) && row.value(5) == m.cell(TableId::TypeDef, rid, 5));

        token::lemma_rid_number(token::Rid::<token::marker::Field>::of(m.cell(TableId::TypeDef, rid, 4)), m.cell(TableId::TypeDef, rid, 4));
        token::lemma_rid_number(token::Rid::<token::marker::MethodDef>::of(m.cell(TableId::TypeDef, rid, 5)), m.cell(TableId::TypeDef, rid, 5));
        if m.row::<TypeDefRow>(rid) is Ok {
            lemma_read_tags(row, columns, 0);
            assert(columns[3] is Coded);
        }
        if CodedIndex::TypeDefOrRef.table_of(m.cell(TableId::TypeDef, rid, 3)) is Some {
            lemma_tags_read(row, columns, 0);
        }
    }
}

/// The lookup finds the rows of the attributes of `parent`.
pub proof fn lemma_attribute_rows(m: TablesModel, parent: Token)
    requires
        m.wf(),
    ensures
        m.attribute_rows(parent, m.for_parent(TableId::CustomAttribute, parent)),
{
    let rids = m.for_parent(TableId::CustomAttribute, parent);
    let count = m.row_count(TableId::CustomAttribute) as nat;
    let key = CodedIndex::HasCustomAttribute.encoded(parent);
    if let Some(value) = key {
        lookup::lemma_matching_is_scan(m, TableId::CustomAttribute, 0, value, count);
        coded::lemma_encode_then_decode(CodedIndex::HasCustomAttribute, parent, 0);
    }
    assert(lookup::key_for(TableId::CustomAttribute, parent) == key);
    assert forall|i: int| 0 <= i < rids.len() implies m.has_row(
        TableId::CustomAttribute,
        #[trigger] rids[i],
    ) && (m.row::<CustomAttributeRow>(rids[i]) matches Ok(row) ==> row.parent == parent) by {
        lemma_custom_attribute_columns(m, rids[i]);
    }
    assert forall|rid: u32|
        ((#[trigger] m.row::<CustomAttributeRow>(rid)) matches Ok(row) && row.parent == parent && row_fits(
            CodedIndex::HasCustomAttribute,
            m.cell(TableId::CustomAttribute, rid, 0),
        )) implies rids.contains(rid) by {
        lemma_custom_attribute_columns(m, rid);
        coded::lemma_decode_then_encode(
            CodedIndex::HasCustomAttribute,
            m.cell(TableId::CustomAttribute, rid, 0),
            0,
        );
    }
}

/// The lookup finds the rows of the interfaces of the type `class`.
pub proof fn lemma_interface_rows(m: TablesModel, class: u32)
    requires
        m.wf(),
    ensures
        m.interface_rows(class, m.with_key(TableId::InterfaceImpl, class)),
{
    let rids = m.with_key(TableId::InterfaceImpl, class);
    let count = m.row_count(TableId::InterfaceImpl) as nat;
    lookup::lemma_matching_is_scan(m, TableId::InterfaceImpl, 0, class, count);
    assert forall|i: int| 0 <= i < rids.len() implies m.has_row(
        TableId::InterfaceImpl,
        #[trigger] rids[i],
    ) && (m.row::<InterfaceImplRow>(rids[i]) matches Ok(row) ==> row.class.number() == class) by {
        lemma_interface_impl_columns(m, rids[i]);
    }
    assert forall|rid: u32|
        ((#[trigger] m.row::<InterfaceImplRow>(rid)) matches Ok(row) && row.class.number()
            == class) implies rids.contains(rid) by {
        lemma_interface_impl_columns(m, rid);
    }
}

/// The lookup finds the rows of the overrides of the type `class`.
pub proof fn lemma_override_rows(m: TablesModel, class: u32)
    requires
        m.wf(),
    ensures
        m.override_rows(class, m.with_key(TableId::MethodImpl, class)),
{
    let rids = m.with_key(TableId::MethodImpl, class);
    let count = m.row_count(TableId::MethodImpl) as nat;
    lookup::lemma_matching_is_scan(m, TableId::MethodImpl, 0, class, count);
    assert forall|i: int| 0 <= i < rids.len() implies m.has_row(
        TableId::MethodImpl,
        #[trigger] rids[i],
    ) && (m.row::<MethodImplRow>(rids[i]) matches Ok(row) ==> row.class.number() == class) by {
        lemma_method_impl_columns(m, rids[i]);
    }
    assert forall|rid: u32|
        ((#[trigger] m.row::<MethodImplRow>(rid)) matches Ok(row) && row.class.number()
            == class) implies rids.contains(rid) by {
        lemma_method_impl_columns(m, rid);
    }
}

/// The lookup finds the rows of the methods of the property or event `association`.
pub proof fn lemma_semantics_rows(m: TablesModel, association: Token)
    requires
        m.wf(),
    ensures
        m.semantics_rows(association, m.for_parent(TableId::MethodSemantics, association)),
{
    let rids = m.for_parent(TableId::MethodSemantics, association);
    let count = m.row_count(TableId::MethodSemantics) as nat;
    let key = CodedIndex::HasSemantics.encoded(association);
    if let Some(value) = key {
        lookup::lemma_matching_is_scan(m, TableId::MethodSemantics, 2, value, count);
        coded::lemma_encode_then_decode(CodedIndex::HasSemantics, association, 0);
    }
    assert(lookup::key_for(TableId::MethodSemantics, association) == key);
    assert forall|i: int| 0 <= i < rids.len() implies m.has_row(
        TableId::MethodSemantics,
        #[trigger] rids[i],
    ) && (m.row::<MethodSemanticsRow>(rids[i]) matches Ok(row) ==> row.association == association) by {
        lemma_method_semantics_columns(m, rids[i]);
    }
    assert forall|rid: u32|
        ((#[trigger] m.row::<MethodSemanticsRow>(rid)) matches Ok(row) && row.association == association && row_fits(
            CodedIndex::HasSemantics,
            m.cell(TableId::MethodSemantics, rid, 2),
        )) implies rids.contains(rid) by {
        lemma_method_semantics_columns(m, rid);
        coded::lemma_decode_then_encode(
            CodedIndex::HasSemantics,
            m.cell(TableId::MethodSemantics, rid, 2),
            0,
        );
    }
}

/// The lookup finds the rows of the security declarations of `parent`.
pub proof fn lemma_security_rows(m: TablesModel, parent: Token)
    requires
        m.wf(),
    ensures
        m.security_rows(parent, m.for_parent(TableId::DeclSecurity, parent)),
{
    let rids = m.for_parent(TableId::DeclSecurity, parent);
    let count = m.row_count(TableId::DeclSecurity) as nat;
    let key = CodedIndex::HasDeclSecurity.encoded(parent);
    if let Some(value) = key {
        lookup::lemma_matching_is_scan(m, TableId::DeclSecurity, 1, value, count);
        coded::lemma_encode_then_decode(CodedIndex::HasDeclSecurity, parent, 0);
    }
    assert(lookup::key_for(TableId::DeclSecurity, parent) == key);
    assert forall|i: int| 0 <= i < rids.len() implies m.has_row(
        TableId::DeclSecurity,
        #[trigger] rids[i],
    ) && (m.row::<DeclSecurityRow>(rids[i]) matches Ok(row) ==> row.parent == parent) by {
        lemma_decl_security_columns(m, rids[i]);
    }
    assert forall|rid: u32|
        ((#[trigger] m.row::<DeclSecurityRow>(rid)) matches Ok(row) && row.parent == parent && row_fits(
            CodedIndex::HasDeclSecurity,
            m.cell(TableId::DeclSecurity, rid, 1),
        )) implies rids.contains(rid) by {
        lemma_decl_security_columns(m, rid);
        coded::lemma_decode_then_encode(
            CodedIndex::HasDeclSecurity,
            m.cell(TableId::DeclSecurity, rid, 1),
            0,
        );
    }
}

/// The lookup finds the rows of the generic parameters of `owner`.
pub proof fn lemma_generic_rows(m: TablesModel, owner: Token)
    requires
        m.wf(),
    ensures
        m.generic_rows(owner, m.for_parent(TableId::GenericParam, owner)),
{
    let rids = m.for_parent(TableId::GenericParam, owner);
    let count = m.row_count(TableId::GenericParam) as nat;
    let key = CodedIndex::TypeOrMethodDef.encoded(owner);
    if let Some(value) = key {
        lookup::lemma_matching_is_scan(m, TableId::GenericParam, 2, value, count);
        coded::lemma_encode_then_decode(CodedIndex::TypeOrMethodDef, owner, 0);
    }
    assert(lookup::key_for(TableId::GenericParam, owner) == key);
    assert forall|i: int| 0 <= i < rids.len() implies m.has_row(
        TableId::GenericParam,
        #[trigger] rids[i],
    ) && (m.row::<GenericParamRow>(rids[i]) matches Ok(row) ==> row.owner == owner) by {
        lemma_generic_param_columns(m, rids[i]);
    }
    assert forall|rid: u32|
        ((#[trigger] m.row::<GenericParamRow>(rid)) matches Ok(row) && row.owner == owner && row_fits(
            CodedIndex::TypeOrMethodDef,
            m.cell(TableId::GenericParam, rid, 2),
        )) implies rids.contains(rid) by {
        lemma_generic_param_columns(m, rid);
        coded::lemma_decode_then_encode(
            CodedIndex::TypeOrMethodDef,
            m.cell(TableId::GenericParam, rid, 2),
            0,
        );
    }
}

/// The lookup finds the rows of the constraints of the generic parameter `owner`.
pub proof fn lemma_constraint_rows(m: TablesModel, owner: u32)
    requires
        m.wf(),
    ensures
        m.constraint_rows(owner, m.with_key(TableId::GenericParamConstraint, owner)),
{
    let rids = m.with_key(TableId::GenericParamConstraint, owner);
    let count = m.row_count(TableId::GenericParamConstraint) as nat;
    lookup::lemma_matching_is_scan(m, TableId::GenericParamConstraint, 0, owner, count);
    assert forall|i: int| 0 <= i < rids.len() implies m.has_row(
        TableId::GenericParamConstraint,
        #[trigger] rids[i],
    ) && (m.row::<GenericParamConstraintRow>(rids[i]) matches Ok(row) ==> row.owner.number() == owner) by {
        lemma_generic_param_constraint_columns(m, rids[i]);
    }
    assert forall|rid: u32|
        ((#[trigger] m.row::<GenericParamConstraintRow>(rid)) matches Ok(row) && row.owner.number()
            == owner) implies rids.contains(rid) by {
        lemma_generic_param_constraint_columns(m, rid);
    }
}

/// The lookup finds the rows of the event maps of the type `parent`.
pub proof fn lemma_event_map_rows(m: TablesModel, parent: u32)
    requires
        m.wf(),
    ensures
        m.event_map_rows(parent, m.with_key(TableId::EventMap, parent)),
{
    let rids = m.with_key(TableId::EventMap, parent);
    let count = m.row_count(TableId::EventMap) as nat;
    lookup::lemma_matching_is_scan(m, TableId::EventMap, 0, parent, count);
    assert forall|i: int| 0 <= i < rids.len() implies m.has_row(
        TableId::EventMap,
        #[trigger] rids[i],
    ) && (m.row::<EventMapRow>(rids[i]) matches Ok(row) ==> row.parent.number() == parent) by {
        lemma_event_map_columns(m, rids[i]);
    }
    assert forall|rid: u32|
        ((#[trigger] m.row::<EventMapRow>(rid)) matches Ok(row) && row.parent.number()
            == parent) implies rids.contains(rid) by {
        lemma_event_map_columns(m, rid);
    }
}

/// The lookup finds the rows of the property maps of the type `parent`.
pub proof fn lemma_property_map_rows(m: TablesModel, parent: u32)
    requires
        m.wf(),
    ensures
        m.property_map_rows(parent, m.with_key(TableId::PropertyMap, parent)),
{
    let rids = m.with_key(TableId::PropertyMap, parent);
    let count = m.row_count(TableId::PropertyMap) as nat;
    lookup::lemma_matching_is_scan(m, TableId::PropertyMap, 0, parent, count);
    assert forall|i: int| 0 <= i < rids.len() implies m.has_row(
        TableId::PropertyMap,
        #[trigger] rids[i],
    ) && (m.row::<PropertyMapRow>(rids[i]) matches Ok(row) ==> row.parent.number() == parent) by {
        lemma_property_map_columns(m, rids[i]);
    }
    assert forall|rid: u32|
        ((#[trigger] m.row::<PropertyMapRow>(rid)) matches Ok(row) && row.parent.number()
            == parent) implies rids.contains(rid) by {
        lemma_property_map_columns(m, rid);
    }
}

/// The lookup finds the rows of the constants of `parent`.
pub proof fn lemma_constant_rows(m: TablesModel, parent: Token)
    requires
        m.wf(),
    ensures
        m.constant_rows(parent, m.for_parent(TableId::Constant, parent)),
{
    let rids = m.for_parent(TableId::Constant, parent);
    let count = m.row_count(TableId::Constant) as nat;
    let key = CodedIndex::HasConstant.encoded(parent);
    if let Some(value) = key {
        lookup::lemma_matching_is_scan(m, TableId::Constant, 1, value, count);
        coded::lemma_encode_then_decode(CodedIndex::HasConstant, parent, 0);
    }
    assert(lookup::key_for(TableId::Constant, parent) == key);
    assert forall|i: int| 0 <= i < rids.len() implies m.has_row(
        TableId::Constant,
        #[trigger] rids[i],
    ) && (m.row::<ConstantRow>(rids[i]) matches Ok(row) ==> row.parent == parent) by {
        lemma_constant_columns(m, rids[i]);
    }
    assert forall|rid: u32|
        ((#[trigger] m.row::<ConstantRow>(rid)) matches Ok(row) && row.parent == parent && row_fits(
            CodedIndex::HasConstant,
            m.cell(TableId::Constant, rid, 1),
        )) implies rids.contains(rid) by {
        lemma_constant_columns(m, rid);
        coded::lemma_decode_then_encode(
            CodedIndex::HasConstant,
            m.cell(TableId::Constant, rid, 1),
            0,
        );
    }
}

/// The lookup finds the rows of the marshalling of `parent`.
pub proof fn lemma_marshal_rows(m: TablesModel, parent: Token)
    requires
        m.wf(),
    ensures
        m.marshal_rows(parent, m.for_parent(TableId::FieldMarshal, parent)),
{
    let rids = m.for_parent(TableId::FieldMarshal, parent);
    let count = m.row_count(TableId::FieldMarshal) as nat;
    let key = CodedIndex::HasFieldMarshal.encoded(parent);
    if let Some(value) = key {
        lookup::lemma_matching_is_scan(m, TableId::FieldMarshal, 0, value, count);
        coded::lemma_encode_then_decode(CodedIndex::HasFieldMarshal, parent, 0);
    }
    assert(lookup::key_for(TableId::FieldMarshal, parent) == key);
    assert forall|i: int| 0 <= i < rids.len() implies m.has_row(
        TableId::FieldMarshal,
        #[trigger] rids[i],
    ) && (m.row::<FieldMarshalRow>(rids[i]) matches Ok(row) ==> row.parent == parent) by {
        lemma_field_marshal_columns(m, rids[i]);
    }
    assert forall|rid: u32|
        ((#[trigger] m.row::<FieldMarshalRow>(rid)) matches Ok(row) && row.parent == parent && row_fits(
            CodedIndex::HasFieldMarshal,
            m.cell(TableId::FieldMarshal, rid, 0),
        )) implies rids.contains(rid) by {
        lemma_field_marshal_columns(m, rid);
        coded::lemma_decode_then_encode(
            CodedIndex::HasFieldMarshal,
            m.cell(TableId::FieldMarshal, rid, 0),
            0,
        );
    }
}

/// The lookup finds the rows of the initial data of `field`.
pub proof fn lemma_rva_rows(m: TablesModel, field: u32)
    requires
        m.wf(),
    ensures
        m.rva_rows(field, m.with_key(TableId::FieldRva, field)),
{
    let rids = m.with_key(TableId::FieldRva, field);
    let count = m.row_count(TableId::FieldRva) as nat;
    lookup::lemma_matching_is_scan(m, TableId::FieldRva, 1, field, count);
    assert forall|i: int| 0 <= i < rids.len() implies m.has_row(
        TableId::FieldRva,
        #[trigger] rids[i],
    ) && (m.row::<FieldRvaRow>(rids[i]) matches Ok(row) ==> row.field.number() == field) by {
        lemma_field_rva_columns(m, rids[i]);
    }
    assert forall|rid: u32|
        ((#[trigger] m.row::<FieldRvaRow>(rid)) matches Ok(row) && row.field.number()
            == field) implies rids.contains(rid) by {
        lemma_field_rva_columns(m, rid);
    }
}

/// The lookup finds the rows of the offsets of `field`.
pub proof fn lemma_offset_rows(m: TablesModel, field: u32)
    requires
        m.wf(),
    ensures
        m.offset_rows(field, m.with_key(TableId::FieldLayout, field)),
{
    let rids = m.with_key(TableId::FieldLayout, field);
    let count = m.row_count(TableId::FieldLayout) as nat;
    lookup::lemma_matching_is_scan(m, TableId::FieldLayout, 1, field, count);
    assert forall|i: int| 0 <= i < rids.len() implies m.has_row(
        TableId::FieldLayout,
        #[trigger] rids[i],
    ) && (m.row::<FieldLayoutRow>(rids[i]) matches Ok(row) ==> row.field.number() == field) by {
        lemma_field_layout_columns(m, rids[i]);
    }
    assert forall|rid: u32|
        ((#[trigger] m.row::<FieldLayoutRow>(rid)) matches Ok(row) && row.field.number()
            == field) implies rids.contains(rid) by {
        lemma_field_layout_columns(m, rid);
    }
}

/// The lookup finds the rows of the layouts of the type `parent`.
pub proof fn lemma_layout_rows(m: TablesModel, parent: u32)
    requires
        m.wf(),
    ensures
        m.layout_rows(parent, m.with_key(TableId::ClassLayout, parent)),
{
    let rids = m.with_key(TableId::ClassLayout, parent);
    let count = m.row_count(TableId::ClassLayout) as nat;
    lookup::lemma_matching_is_scan(m, TableId::ClassLayout, 2, parent, count);
    assert forall|i: int| 0 <= i < rids.len() implies m.has_row(
        TableId::ClassLayout,
        #[trigger] rids[i],
    ) && (m.row::<ClassLayoutRow>(rids[i]) matches Ok(row) ==> row.parent.number() == parent) by {
        lemma_class_layout_columns(m, rids[i]);
    }
    assert forall|rid: u32|
        ((#[trigger] m.row::<ClassLayoutRow>(rid)) matches Ok(row) && row.parent.number()
            == parent) implies rids.contains(rid) by {
        lemma_class_layout_columns(m, rid);
    }
}

/// The lookup finds the rows of the imports of `member_forwarded`.
pub proof fn lemma_import_rows(m: TablesModel, member_forwarded: Token)
    requires
        m.wf(),
    ensures
        m.import_rows(member_forwarded, m.for_parent(TableId::ImplMap, member_forwarded)),
{
    let rids = m.for_parent(TableId::ImplMap, member_forwarded);
    let count = m.row_count(TableId::ImplMap) as nat;
    let key = CodedIndex::MemberForwarded.encoded(member_forwarded);
    if let Some(value) = key {
        lookup::lemma_matching_is_scan(m, TableId::ImplMap, 1, value, count);
        coded::lemma_encode_then_decode(CodedIndex::MemberForwarded, member_forwarded, 0);
    }
    assert(lookup::key_for(TableId::ImplMap, member_forwarded) == key);
    assert forall|i: int| 0 <= i < rids.len() implies m.has_row(
        TableId::ImplMap,
        #[trigger] rids[i],
    ) && (m.row::<ImplMapRow>(rids[i]) matches Ok(row) ==> row.member_forwarded == member_forwarded) by {
        lemma_impl_map_columns(m, rids[i]);
    }
    assert forall|rid: u32|
        ((#[trigger] m.row::<ImplMapRow>(rid)) matches Ok(row) && row.member_forwarded == member_forwarded && row_fits(
            CodedIndex::MemberForwarded,
            m.cell(TableId::ImplMap, rid, 1),
        )) implies rids.contains(rid) by {
        lemma_impl_map_columns(m, rid);
        coded::lemma_decode_then_encode(
            CodedIndex::MemberForwarded,
            m.cell(TableId::ImplMap, rid, 1),
            0,
        );
    }
}

/// The lookup finds the rows of the scopes of `method`.
pub proof fn lemma_scope_rows(m: TablesModel, method: u32)
    requires
        m.wf(),
    ensures
        m.scope_rows(method, m.with_key(TableId::LocalScope, method)),
{
    let rids = m.with_key(TableId::LocalScope, method);
    let count = m.row_count(TableId::LocalScope) as nat;
    lookup::lemma_matching_is_scan(m, TableId::LocalScope, 0, method, count);
    assert forall|i: int| 0 <= i < rids.len() implies m.has_row(
        TableId::LocalScope,
        #[trigger] rids[i],
    ) && (m.row::<LocalScopeRow>(rids[i]) matches Ok(row) ==> row.method.number() == method) by {
        lemma_local_scope_columns(m, rids[i]);
    }
    assert forall|rid: u32|
        ((#[trigger] m.row::<LocalScopeRow>(rid)) matches Ok(row) && row.method.number()
            == method) implies rids.contains(rid) by {
        lemma_local_scope_columns(m, rid);
    }
}

/// The lookup finds the rows of the state machine of `move_next_method`.
pub proof fn lemma_machine_rows(m: TablesModel, move_next_method: u32)
    requires
        m.wf(),
    ensures
        m.machine_rows(move_next_method, m.with_key(TableId::StateMachineMethod, move_next_method)),
{
    let rids = m.with_key(TableId::StateMachineMethod, move_next_method);
    let count = m.row_count(TableId::StateMachineMethod) as nat;
    lookup::lemma_matching_is_scan(m, TableId::StateMachineMethod, 0, move_next_method, count);
    assert forall|i: int| 0 <= i < rids.len() implies m.has_row(
        TableId::StateMachineMethod,
        #[trigger] rids[i],
    ) && (m.row::<StateMachineMethodRow>(rids[i]) matches Ok(row) ==> row.move_next_method.number() == move_next_method) by {
        lemma_state_machine_method_columns(m, rids[i]);
    }
    assert forall|rid: u32|
        ((#[trigger] m.row::<StateMachineMethodRow>(rid)) matches Ok(row) && row.move_next_method.number()
            == move_next_method) implies rids.contains(rid) by {
        lemma_state_machine_method_columns(m, rid);
    }
}

/// The lookup finds the rows of the debug information of `parent`.
pub proof fn lemma_debug_rows(m: TablesModel, parent: Token)
    requires
        m.wf(),
    ensures
        m.debug_rows(parent, m.for_parent(TableId::CustomDebugInformation, parent)),
{
    let rids = m.for_parent(TableId::CustomDebugInformation, parent);
    let count = m.row_count(TableId::CustomDebugInformation) as nat;
    let key = CodedIndex::HasCustomDebugInformation.encoded(parent);
    if let Some(value) = key {
        lookup::lemma_matching_is_scan(m, TableId::CustomDebugInformation, 0, value, count);
        coded::lemma_encode_then_decode(CodedIndex::HasCustomDebugInformation, parent, 0);
    }
    assert(lookup::key_for(TableId::CustomDebugInformation, parent) == key);
    assert forall|i: int| 0 <= i < rids.len() implies m.has_row(
        TableId::CustomDebugInformation,
        #[trigger] rids[i],
    ) && (m.row::<CustomDebugInformationRow>(rids[i]) matches Ok(row) ==> row.parent == parent) by {
        lemma_custom_debug_information_columns(m, rids[i]);
    }
    assert forall|rid: u32|
        ((#[trigger] m.row::<CustomDebugInformationRow>(rid)) matches Ok(row) && row.parent == parent && row_fits(
            CodedIndex::HasCustomDebugInformation,
            m.cell(TableId::CustomDebugInformation, rid, 0),
        )) implies rids.contains(rid) by {
        lemma_custom_debug_information_columns(m, rid);
        coded::lemma_decode_then_encode(
            CodedIndex::HasCustomDebugInformation,
            m.cell(TableId::CustomDebugInformation, rid, 0),
            0,
        );
    }
}

/// The lookup finds the rows of the enclosing types of `nested_class`.
pub proof fn lemma_enclosed_rows(m: TablesModel, nested_class: u32)
    requires
        m.wf(),
    ensures
        m.enclosed_rows(nested_class, m.with_key(TableId::NestedClass, nested_class)),
{
    let rids = m.with_key(TableId::NestedClass, nested_class);
    let count = m.row_count(TableId::NestedClass) as nat;
    lookup::lemma_matching_is_scan(m, TableId::NestedClass, 0, nested_class, count);
    assert forall|i: int| 0 <= i < rids.len() implies m.has_row(
        TableId::NestedClass,
        #[trigger] rids[i],
    ) && (m.row::<NestedClassRow>(rids[i]) matches Ok(row) ==> row.nested_class.number() == nested_class) by {
        lemma_nested_class_columns(m, rids[i]);
    }
    assert forall|rid: u32|
        ((#[trigger] m.row::<NestedClassRow>(rid)) matches Ok(row) && row.nested_class.number()
            == nested_class) implies rids.contains(rid) by {
        lemma_nested_class_columns(m, rid);
    }
}

/// The lookup finds the rows of the types in `enclosing_class`.
pub proof fn lemma_enclosing_rows(m: TablesModel, enclosing_class: u32)
    requires
        m.wf(),
    ensures
        m.enclosing_rows(enclosing_class, m.matching(
            TableId::NestedClass,
            1,
            enclosing_class,
            m.row_count(TableId::NestedClass) as nat,
        )),
{
    let rids = m.matching(
            TableId::NestedClass,
            1,
            enclosing_class,
            m.row_count(TableId::NestedClass) as nat,
        );
    let count = m.row_count(TableId::NestedClass) as nat;
    lookup::lemma_matching_is_scan(m, TableId::NestedClass, 1, enclosing_class, count);
    assert forall|i: int| 0 <= i < rids.len() implies m.has_row(
        TableId::NestedClass,
        #[trigger] rids[i],
    ) && (m.row::<NestedClassRow>(rids[i]) matches Ok(row) ==> row.enclosing_class.number() == enclosing_class) by {
        lemma_nested_class_columns(m, rids[i]);
    }
    assert forall|rid: u32|
        ((#[trigger] m.row::<NestedClassRow>(rid)) matches Ok(row) && row.enclosing_class.number()
            == enclosing_class) implies rids.contains(rid) by {
        lemma_nested_class_columns(m, rid);
    }
}

/// The run of a row of `TypeDef` is the one that its `field_list` says.
pub proof fn lemma_fields_run(m: TablesModel, rid: u32)
    requires
        m.wf(),
    ensures
        m.list(TableId::TypeDef, rid, 4, TableId::Field) is Ok == m.has_row(TableId::TypeDef, rid),
        m.list(TableId::TypeDef, rid, 4, TableId::Field) matches Ok(run) ==> m.fields_run(rid, run),
{
    if m.has_row(TableId::TypeDef, rid) {
        assert(m.layout(TableId::TypeDef).column_count == rows::columns(TableId::TypeDef).len());
        lookup::lemma_run_bounds(m, TableId::TypeDef, rid, 4, TableId::Field);
        lemma_type_def_columns(m, rid);
        if rid < m.row_count(TableId::TypeDef) {
            lemma_type_def_columns(m, (rid + 1) as u32);
        }
    }
}

/// The owner of a member is a row whose run holds it.
pub proof fn lemma_fields_run_owner(m: TablesModel, member: u32)
    requires
        m.wf(),
    ensures
        m.fields_run_owner(member, m.owner(TableId::TypeDef, 4, TableId::Field, member)),
{
    lookup::lemma_owner_owns(m, TableId::TypeDef, 4, TableId::Field, member);
    match m.owner(TableId::TypeDef, 4, TableId::Field, member) {
        Some(rid) => {
            lemma_fields_run(m, rid);
            let run = m.run(TableId::TypeDef, rid, 4, TableId::Field);
            assert(m.fields_run(rid, run) && run.start <= member < run.end);
        },
        None => {
            assert forall|rid: u32| #[trigger]
                m.has_row(TableId::TypeDef, rid) implies exists|run: Range<u32>| #[trigger]
                m.fields_run(rid, run) && !(run.start <= member < run.end) by {
                lemma_fields_run(m, rid);
                let run = m.run(TableId::TypeDef, rid, 4, TableId::Field);
                assert(!m.owns(TableId::TypeDef, rid, 4, TableId::Field, member));
                assert(m.fields_run(rid, run));
            }
        },
    }
}

/// The run of a row of `TypeDef` is the one that its `method_list` says.
pub proof fn lemma_methods_run(m: TablesModel, rid: u32)
    requires
        m.wf(),
    ensures
        m.list(TableId::TypeDef, rid, 5, TableId::MethodDef) is Ok == m.has_row(TableId::TypeDef, rid),
        m.list(TableId::TypeDef, rid, 5, TableId::MethodDef) matches Ok(run) ==> m.methods_run(rid, run),
{
    if m.has_row(TableId::TypeDef, rid) {
        assert(m.layout(TableId::TypeDef).column_count == rows::columns(TableId::TypeDef).len());
        lookup::lemma_run_bounds(m, TableId::TypeDef, rid, 5, TableId::MethodDef);
        lemma_type_def_columns(m, rid);
        if rid < m.row_count(TableId::TypeDef) {
            lemma_type_def_columns(m, (rid + 1) as u32);
        }
    }
}

/// The owner of a member is a row whose run holds it.
pub proof fn lemma_methods_run_owner(m: TablesModel, member: u32)
    requires
        m.wf(),
    ensures
        m.methods_run_owner(member, m.owner(TableId::TypeDef, 5, TableId::MethodDef, member)),
{
    lookup::lemma_owner_owns(m, TableId::TypeDef, 5, TableId::MethodDef, member);
    match m.owner(TableId::TypeDef, 5, TableId::MethodDef, member) {
        Some(rid) => {
            lemma_methods_run(m, rid);
            let run = m.run(TableId::TypeDef, rid, 5, TableId::MethodDef);
            assert(m.methods_run(rid, run) && run.start <= member < run.end);
        },
        None => {
            assert forall|rid: u32| #[trigger]
                m.has_row(TableId::TypeDef, rid) implies exists|run: Range<u32>| #[trigger]
                m.methods_run(rid, run) && !(run.start <= member < run.end) by {
                lemma_methods_run(m, rid);
                let run = m.run(TableId::TypeDef, rid, 5, TableId::MethodDef);
                assert(!m.owns(TableId::TypeDef, rid, 5, TableId::MethodDef, member));
                assert(m.methods_run(rid, run));
            }
        },
    }
}

/// The run of a row of `MethodDef` is the one that its `param_list` says.
pub proof fn lemma_params_run(m: TablesModel, rid: u32)
    requires
        m.wf(),
    ensures
        m.list(TableId::MethodDef, rid, 5, TableId::Param) is Ok == m.has_row(TableId::MethodDef, rid),
        m.list(TableId::MethodDef, rid, 5, TableId::Param) matches Ok(run) ==> m.params_run(rid, run),
{
    if m.has_row(TableId::MethodDef, rid) {
        assert(m.layout(TableId::MethodDef).column_count == rows::columns(TableId::MethodDef).len());
        lookup::lemma_run_bounds(m, TableId::MethodDef, rid, 5, TableId::Param);
        lemma_method_def_columns(m, rid);
        if rid < m.row_count(TableId::MethodDef) {
            lemma_method_def_columns(m, (rid + 1) as u32);
        }
    }
}

/// The owner of a member is a row whose run holds it.
pub proof fn lemma_params_run_owner(m: TablesModel, member: u32)
    requires
        m.wf(),
    ensures
        m.params_run_owner(member, m.owner(TableId::MethodDef, 5, TableId::Param, member)),
{
    lookup::lemma_owner_owns(m, TableId::MethodDef, 5, TableId::Param, member);
    match m.owner(TableId::MethodDef, 5, TableId::Param, member) {
        Some(rid) => {
            lemma_params_run(m, rid);
            let run = m.run(TableId::MethodDef, rid, 5, TableId::Param);
            assert(m.params_run(rid, run) && run.start <= member < run.end);
        },
        None => {
            assert forall|rid: u32| #[trigger]
                m.has_row(TableId::MethodDef, rid) implies exists|run: Range<u32>| #[trigger]
                m.params_run(rid, run) && !(run.start <= member < run.end) by {
                lemma_params_run(m, rid);
                let run = m.run(TableId::MethodDef, rid, 5, TableId::Param);
                assert(!m.owns(TableId::MethodDef, rid, 5, TableId::Param, member));
                assert(m.params_run(rid, run));
            }
        },
    }
}

/// The run of a row of `EventMap` is the one that its `event_list` says.
pub proof fn lemma_events_run(m: TablesModel, rid: u32)
    requires
        m.wf(),
    ensures
        m.list(TableId::EventMap, rid, 1, TableId::Event) is Ok == m.has_row(TableId::EventMap, rid),
        m.list(TableId::EventMap, rid, 1, TableId::Event) matches Ok(run) ==> m.events_run(rid, run),
{
    if m.has_row(TableId::EventMap, rid) {
        assert(m.layout(TableId::EventMap).column_count == rows::columns(TableId::EventMap).len());
        lookup::lemma_run_bounds(m, TableId::EventMap, rid, 1, TableId::Event);
        lemma_event_map_columns(m, rid);
        if rid < m.row_count(TableId::EventMap) {
            lemma_event_map_columns(m, (rid + 1) as u32);
        }
    }
}

/// The owner of a member is a row whose run holds it.
pub proof fn lemma_events_run_owner(m: TablesModel, member: u32)
    requires
        m.wf(),
    ensures
        m.events_run_owner(member, m.owner(TableId::EventMap, 1, TableId::Event, member)),
{
    lookup::lemma_owner_owns(m, TableId::EventMap, 1, TableId::Event, member);
    match m.owner(TableId::EventMap, 1, TableId::Event, member) {
        Some(rid) => {
            lemma_events_run(m, rid);
            let run = m.run(TableId::EventMap, rid, 1, TableId::Event);
            assert(m.events_run(rid, run) && run.start <= member < run.end);
        },
        None => {
            assert forall|rid: u32| #[trigger]
                m.has_row(TableId::EventMap, rid) implies exists|run: Range<u32>| #[trigger]
                m.events_run(rid, run) && !(run.start <= member < run.end) by {
                lemma_events_run(m, rid);
                let run = m.run(TableId::EventMap, rid, 1, TableId::Event);
                assert(!m.owns(TableId::EventMap, rid, 1, TableId::Event, member));
                assert(m.events_run(rid, run));
            }
        },
    }
}

/// The run of a row of `PropertyMap` is the one that its `property_list` says.
pub proof fn lemma_properties_run(m: TablesModel, rid: u32)
    requires
        m.wf(),
    ensures
        m.list(TableId::PropertyMap, rid, 1, TableId::Property) is Ok == m.has_row(TableId::PropertyMap, rid),
        m.list(TableId::PropertyMap, rid, 1, TableId::Property) matches Ok(run) ==> m.properties_run(rid, run),
{
    if m.has_row(TableId::PropertyMap, rid) {
        assert(m.layout(TableId::PropertyMap).column_count == rows::columns(TableId::PropertyMap).len());
        lookup::lemma_run_bounds(m, TableId::PropertyMap, rid, 1, TableId::Property);
        lemma_property_map_columns(m, rid);
        if rid < m.row_count(TableId::PropertyMap) {
            lemma_property_map_columns(m, (rid + 1) as u32);
        }
    }
}

/// The owner of a member is a row whose run holds it.
pub proof fn lemma_properties_run_owner(m: TablesModel, member: u32)
    requires
        m.wf(),
    ensures
        m.properties_run_owner(member, m.owner(TableId::PropertyMap, 1, TableId::Property, member)),
{
    lookup::lemma_owner_owns(m, TableId::PropertyMap, 1, TableId::Property, member);
    match m.owner(TableId::PropertyMap, 1, TableId::Property, member) {
        Some(rid) => {
            lemma_properties_run(m, rid);
            let run = m.run(TableId::PropertyMap, rid, 1, TableId::Property);
            assert(m.properties_run(rid, run) && run.start <= member < run.end);
        },
        None => {
            assert forall|rid: u32| #[trigger]
                m.has_row(TableId::PropertyMap, rid) implies exists|run: Range<u32>| #[trigger]
                m.properties_run(rid, run) && !(run.start <= member < run.end) by {
                lemma_properties_run(m, rid);
                let run = m.run(TableId::PropertyMap, rid, 1, TableId::Property);
                assert(!m.owns(TableId::PropertyMap, rid, 1, TableId::Property, member));
                assert(m.properties_run(rid, run));
            }
        },
    }
}

/// The lookup gives what the first row says.
pub proof fn lemma_rva_is(m: TablesModel, field: u32)
    requires
        m.wf(),
    ensures
        m.rva_is(
            field,
            m.first_with_key(TableId::FieldRva, field, 0),
        ),
{
    lemma_rva_rows(m, field);
    let rids = m.with_key(TableId::FieldRva, field);
    if rids.len() > 0 {
        lemma_field_rva_columns(m, rids[0]);
    }
    assert(m.rva_rows(field, rids));
}

/// The lookup gives what the first row says.
pub proof fn lemma_offset_is(m: TablesModel, field: u32)
    requires
        m.wf(),
    ensures
        m.offset_is(
            field,
            m.first_with_key(TableId::FieldLayout, field, 0),
        ),
{
    lemma_offset_rows(m, field);
    let rids = m.with_key(TableId::FieldLayout, field);
    if rids.len() > 0 {
        lemma_field_layout_columns(m, rids[0]);
    }
    assert(m.offset_rows(field, rids));
}

/// The lookup gives what the first row says.
pub proof fn lemma_native_type_is(m: TablesModel, parent: Token)
    requires
        m.wf(),
    ensures
        m.native_type_is(
            parent,
            match lookup::key_for(TableId::FieldMarshal, parent) {
                Some(key) => m.first_with_key(TableId::FieldMarshal, key, 1),
                None => None,
            },
        ),
{
    lemma_marshal_rows(m, parent);
    let rids = m.for_parent(TableId::FieldMarshal, parent);
    if rids.len() > 0 {
        lemma_field_marshal_columns(m, rids[0]);
        let key = CodedIndex::HasFieldMarshal.encoded(parent)->0;
        lookup::lemma_matching_is_scan(
            m,
            TableId::FieldMarshal,
            0,
            key,
            m.row_count(TableId::FieldMarshal) as nat,
        );
        coded::lemma_encode_then_decode(CodedIndex::HasFieldMarshal, parent, 0);
        assert(m.cell(TableId::FieldMarshal, rids[0], 0) == key);
    }
    assert(m.marshal_rows(parent, rids));
}

/// The lookup gives what the first row says.
pub proof fn lemma_enclosing_is(m: TablesModel, nested_class: u32)
    requires
        m.wf(),
    ensures
        m.enclosing_is(
            nested_class,
            m.first_with_key(TableId::NestedClass, nested_class, 1),
        ),
{
    lemma_enclosed_rows(m, nested_class);
    let rids = m.with_key(TableId::NestedClass, nested_class);
    if rids.len() > 0 {
        lemma_nested_class_columns(m, rids[0]);
    }
    assert(m.enclosed_rows(nested_class, rids));
}

/// The lookup gives the first row.
pub proof fn lemma_event_map_is(m: TablesModel, parent: u32)
    requires
        m.wf(),
    ensures
        m.event_map_is(parent, lookup::first_of(m.with_key(TableId::EventMap, parent))),
{
    lemma_event_map_rows(m, parent);
}

/// The lookup gives the first row.
pub proof fn lemma_property_map_is(m: TablesModel, parent: u32)
    requires
        m.wf(),
    ensures
        m.property_map_is(parent, lookup::first_of(m.with_key(TableId::PropertyMap, parent))),
{
    lemma_property_map_rows(m, parent);
}

/// The lookup gives the first row.
pub proof fn lemma_constant_is(m: TablesModel, parent: Token)
    requires
        m.wf(),
    ensures
        m.constant_is(parent, m.first_row_for::<ConstantRow>(lookup::key_for(TableId::Constant, parent))),
{
    lemma_constant_rows(m, parent);
    let rids = m.for_parent(TableId::Constant, parent);
    assert(m.constant_rows(parent, rids));
}

/// The lookup gives the first row.
pub proof fn lemma_layout_is(m: TablesModel, parent: u32)
    requires
        m.wf(),
    ensures
        m.layout_is(parent, m.first_row_for::<ClassLayoutRow>(Some(parent))),
{
    lemma_layout_rows(m, parent);
    let rids = m.with_key(TableId::ClassLayout, parent);
    assert(m.layout_rows(parent, rids));
}

/// The lookup gives the first row.
pub proof fn lemma_import_is(m: TablesModel, member_forwarded: Token)
    requires
        m.wf(),
    ensures
        m.import_is(member_forwarded, m.first_row_for::<ImplMapRow>(lookup::key_for(TableId::ImplMap, member_forwarded))),
{
    lemma_import_rows(m, member_forwarded);
    let rids = m.for_parent(TableId::ImplMap, member_forwarded);
    assert(m.import_rows(member_forwarded, rids));
}

/// Rows that are those of `owner` in some order all belong to it, and none that
/// does is left out.
pub proof fn lemma_generic_members(m: TablesModel, owner: Token, rids: Seq<u32>)
    requires
        m.wf(),
        rids.to_multiset() == m.for_parent(TableId::GenericParam, owner).to_multiset(),
    ensures
        m.generic_members(owner, rids),
{
    let list = m.for_parent(TableId::GenericParam, owner);
    lemma_generic_rows(m, owner);
    assert forall|rid: u32| #[trigger] rids.contains(rid) == list.contains(rid) by {
        list.to_multiset_ensures();
        rids.to_multiset_ensures();
        assert(rids.contains(rid) <==> rids.to_multiset().count(rid) > 0);
        assert(list.contains(rid) <==> list.to_multiset().count(rid) > 0);
    }
    assert forall|i: int| 0 <= i < rids.len() implies m.has_row(
        TableId::GenericParam,
        #[trigger] rids[i],
    ) && (m.row::<GenericParamRow>(rids[i]) matches Ok(row) ==> row.owner == owner) by {
        assert(rids.contains(rids[i]));
        let j = choose|j: int| 0 <= j < list.len() && list[j] == rids[i];
        assert(list[j] == rids[i]);
    }
}

/// The nested types are those of the rows that a scan for the enclosing type
/// finds.
proof fn lemma_nested_scan(m: TablesModel, enclosing_class: u32, n: nat)
    requires
        n <= m.row_count(TableId::NestedClass),
    ensures
        ({
            let rids = m.matching(TableId::NestedClass, 1, enclosing_class, n);
            let types = m.nested_in(enclosing_class, n);
            &&& types.len() == rids.len()
            &&& forall|i: int|
                0 <= i < rids.len() ==> types[i] == m.cell(
                    TableId::NestedClass,
                    #[trigger] rids[i],
                    0,
                )
        }),
    decreases n,
{
    if n > 0 {
        lemma_nested_scan(m, enclosing_class, (n - 1) as nat);
    }
}

/// The lookup gives the types nested in a type, in row order.
pub proof fn lemma_nested_are(m: TablesModel, enclosing_class: u32)
    requires
        m.wf(),
    ensures
        m.nested_are(
            enclosing_class,
            m.nested_in(enclosing_class, m.row_count(TableId::NestedClass) as nat),
        ),
{
    let count = m.row_count(TableId::NestedClass) as nat;
    let rids = m.matching(TableId::NestedClass, 1, enclosing_class, count);
    let types = m.nested_in(enclosing_class, count);
    lemma_enclosing_rows(m, enclosing_class);
    lemma_nested_scan(m, enclosing_class, count);
    assert forall|i: int| 0 <= i < rids.len() implies (m.row::<NestedClassRow>(
        #[trigger] rids[i],
    ) matches Ok(row) && row.nested_class.number() == types[i]) by {
        lemma_nested_class_columns(m, rids[i]);
    }
    assert(m.enclosing_rows(enclosing_class, rids));
}

/// Where no type is said to be nested twice, the nested types of a type are
/// just those whose enclosing type it is.
pub proof fn lemma_nesting_inverse(m: TablesModel, nested: u32, enclosing: u32)
    requires
        m.wf(),
        forall|a: u32, b: u32|
            ((#[trigger] m.row::<NestedClassRow>(a)) matches Ok(x) && (#[trigger] m.row::<
                NestedClassRow,
            >(b)) matches Ok(y) && x.nested_class.number() == y.nested_class.number()) ==> a == b,
    ensures
        m.nested_in(enclosing, m.row_count(TableId::NestedClass) as nat).contains(nested)
            <==> m.first_with_key(TableId::NestedClass, nested, 1) == Some(enclosing),
{
    let count = m.row_count(TableId::NestedClass) as nat;
    let types = m.nested_in(enclosing, count);
    let rids = m.matching(TableId::NestedClass, 1, enclosing, count);
    let keyed = m.with_key(TableId::NestedClass, nested);
    lookup::lemma_matching_is_scan(m, TableId::NestedClass, 1, enclosing, count);
    lookup::lemma_matching_is_scan(m, TableId::NestedClass, 0, nested, count);
    lemma_nested_scan(m, enclosing, count);
    if types.contains(nested) {
        let i = choose|i: int| 0 <= i < types.len() && types[i] == nested;
        let rid = rids[i];
        assert(m.cell(TableId::NestedClass, rid, 0) == nested);
        assert(keyed.contains(rid));
        lemma_nested_class_columns(m, rid);
        lemma_nested_class_columns(m, keyed[0]);
        assert(m.row::<NestedClassRow>(rid) is Ok && m.row::<NestedClassRow>(keyed[0]) is Ok);
        assert(keyed[0] == rid);
    }
    if m.first_with_key(TableId::NestedClass, nested, 1) == Some(enclosing) {
        let rid = keyed[0];
        assert(m.cell(TableId::NestedClass, rid, 1) == enclosing);
        assert(rids.contains(rid));
        let i = choose|i: int| 0 <= i < rids.len() && rids[i] == rid;
        assert(types[i] == nested);
    }
}

} // verus!
