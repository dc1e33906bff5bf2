//! Metadata tokens, row identifiers, and heap indices (II.22, II.24.2.6).
//!
//! A [`Token`] is the 4-byte form used in metadata columns and CIL operands:
//! the table id in the high byte and a 1-based row id (RID) in the low three
//! bytes. A [`Rid`] is the same row id without the table byte, carried in the
//! type system by a marker type so that a `Rid<marker::TypeDef>` cannot be
//! passed where a `Rid<marker::Field>` is expected.
use core::cmp::Ordering;
use core::marker::PhantomData;

use vstd::prelude::*;
use vstd::std_specs::cmp::{PartialEqSpecImpl, PartialOrdSpecImpl};
use vstd::std_specs::convert::FromSpecImpl;
use vstd::string::StringExecFns;

use crate::text;

pub mod marker;

verus! {

/// A metadata table identifier (II.22).
///
/// Ids `0x00..=0x2C` are the metadata tables proper. Ids `0x30..=0x37` are the
/// Portable PDB tables, which are decoded structurally but not interpreted.
#[derive(Clone, Copy, PartialEq, Eq, PartialOrd, Ord, Hash, Debug, Structural)]
#[non_exhaustive]
pub enum TableId {
    /// `Module` (II.22.30).
    Module,
    /// `TypeRef` (II.22.38).
    TypeRef,
    /// `TypeDef` (II.22.37).
    TypeDef,
    /// `FieldPtr`, an indirection table found only in `#-` streams.
    FieldPtr,
    /// `Field` (II.22.15).
    Field,
    /// `MethodPtr`, an indirection table found only in `#-` streams.
    MethodPtr,
    /// `MethodDef` (II.22.26).
    MethodDef,
    /// `ParamPtr`, an indirection table found only in `#-` streams.
    ParamPtr,
    /// `Param` (II.22.33).
    Param,
    /// `InterfaceImpl` (II.22.23).
    InterfaceImpl,
    /// `MemberRef` (II.22.25).
    MemberRef,
    /// `Constant` (II.22.9).
    Constant,
    /// `CustomAttribute` (II.22.10).
    CustomAttribute,
    /// `FieldMarshal` (II.22.17).
    FieldMarshal,
    /// `DeclSecurity` (II.22.11).
    DeclSecurity,
    /// `ClassLayout` (II.22.8).
    ClassLayout,
    /// `FieldLayout` (II.22.16).
    FieldLayout,
    /// `StandAloneSig` (II.22.36).
    StandAloneSig,
    /// `EventMap` (II.22.12).
    EventMap,
    /// `EventPtr`, an indirection table found only in `#-` streams.
    EventPtr,
    /// `Event` (II.22.13).
    Event,
    /// `PropertyMap` (II.22.35).
    PropertyMap,
    /// `PropertyPtr`, an indirection table found only in `#-` streams.
    PropertyPtr,
    /// `Property` (II.22.34).
    Property,
    /// `MethodSemantics` (II.22.28).
    MethodSemantics,
    /// `MethodImpl` (II.22.27).
    MethodImpl,
    /// `ModuleRef` (II.22.31).
    ModuleRef,
    /// `TypeSpec` (II.22.39).
    TypeSpec,
    /// `ImplMap` (II.22.22).
    ImplMap,
    /// `FieldRva` (II.22.18).
    FieldRva,
    /// `EncLog`, an edit-and-continue table found only in `#-` streams.
    EncLog,
    /// `EncMap`, an edit-and-continue table found only in `#-` streams.
    EncMap,
    /// `Assembly` (II.22.2).
    Assembly,
    /// `AssemblyProcessor` (II.22.4), ignored by the runtime.
    AssemblyProcessor,
    /// `AssemblyOS` (II.22.3), ignored by the runtime.
    AssemblyOs,
    /// `AssemblyRef` (II.22.5).
    AssemblyRef,
    /// `AssemblyRefProcessor` (II.22.7), ignored by the runtime.
    AssemblyRefProcessor,
    /// `AssemblyRefOS` (II.22.6), ignored by the runtime.
    AssemblyRefOs,
    /// `File` (II.22.19).
    File,
    /// `ExportedType` (II.22.14).
    ExportedType,
    /// `ManifestResource` (II.22.24).
    ManifestResource,
    /// `NestedClass` (II.22.32).
    NestedClass,
    /// `GenericParam` (II.22.20).
    GenericParam,
    /// `MethodSpec` (II.22.29).
    MethodSpec,
    /// `GenericParamConstraint` (II.22.21).
    GenericParamConstraint,
    /// Portable PDB `Document`.
    Document,
    /// Portable PDB `MethodDebugInformation`.
    MethodDebugInformation,
    /// Portable PDB `LocalScope`.
    LocalScope,
    /// Portable PDB `LocalVariable`.
    LocalVariable,
    /// Portable PDB `LocalConstant`.
    LocalConstant,
    /// Portable PDB `ImportScope`.
    ImportScope,
    /// Portable PDB `StateMachineMethod`.
    StateMachineMethod,
    /// Portable PDB `CustomDebugInformation`.
    CustomDebugInformation,
}

impl TableId {
    /// Every table id this crate knows, in ascending numeric order.
    pub const ALL: [TableId; 53] = [
        TableId::Module,
        TableId::TypeRef,
        TableId::TypeDef,
        TableId::FieldPtr,
        TableId::Field,
        TableId::MethodPtr,
        TableId::MethodDef,
        TableId::ParamPtr,
        TableId::Param,
        TableId::InterfaceImpl,
        TableId::MemberRef,
        TableId::Constant,
        TableId::CustomAttribute,
        TableId::FieldMarshal,
        TableId::DeclSecurity,
        TableId::ClassLayout,
        TableId::FieldLayout,
        TableId::StandAloneSig,
        TableId::EventMap,
        TableId::EventPtr,
        TableId::Event,
        TableId::PropertyMap,
        TableId::PropertyPtr,
        TableId::Property,
        TableId::MethodSemantics,
        TableId::MethodImpl,
        TableId::ModuleRef,
        TableId::TypeSpec,
        TableId::ImplMap,
        TableId::FieldRva,
        TableId::EncLog,
        TableId::EncMap,
        TableId::Assembly,
        TableId::AssemblyProcessor,
        TableId::AssemblyOs,
        TableId::AssemblyRef,
        TableId::AssemblyRefProcessor,
        TableId::AssemblyRefOs,
        TableId::File,
        TableId::ExportedType,
        TableId::ManifestResource,
        TableId::NestedClass,
        TableId::GenericParam,
        TableId::MethodSpec,
        TableId::GenericParamConstraint,
        TableId::Document,
        TableId::MethodDebugInformation,
        TableId::LocalScope,
        TableId::LocalVariable,
        TableId::LocalConstant,
        TableId::ImportScope,
        TableId::StateMachineMethod,
        TableId::CustomDebugInformation,
    ];

    /// The raw table id byte.
    pub open spec fn number(self) -> u8 {
        match self {
            TableId::Module => 0x00,
            TableId::TypeRef => 0x01,
            TableId::TypeDef => 0x02,
            TableId::FieldPtr => 0x03,
            TableId::Field => 0x04,
            TableId::MethodPtr => 0x05,
            TableId::MethodDef => 0x06,
            TableId::ParamPtr => 0x07,
            TableId::Param => 0x08,
            TableId::InterfaceImpl => 0x09,
            TableId::MemberRef => 0x0A,
            TableId::Constant => 0x0B,
            TableId::CustomAttribute => 0x0C,
            TableId::FieldMarshal => 0x0D,
            TableId::DeclSecurity => 0x0E,
            TableId::ClassLayout => 0x0F,
            TableId::FieldLayout => 0x10,
            TableId::StandAloneSig => 0x11,
            TableId::EventMap => 0x12,
            TableId::EventPtr => 0x13,
            TableId::Event => 0x14,
            TableId::PropertyMap => 0x15,
            TableId::PropertyPtr => 0x16,
            TableId::Property => 0x17,
            TableId::MethodSemantics => 0x18,
            TableId::MethodImpl => 0x19,
            TableId::ModuleRef => 0x1A,
            TableId::TypeSpec => 0x1B,
            TableId::ImplMap => 0x1C,
            TableId::FieldRva => 0x1D,
            TableId::EncLog => 0x1E,
            TableId::EncMap => 0x1F,
            TableId::Assembly => 0x20,
            TableId::AssemblyProcessor => 0x21,
            TableId::AssemblyOs => 0x22,
            TableId::AssemblyRef => 0x23,
            TableId::AssemblyRefProcessor => 0x24,
            TableId::AssemblyRefOs => 0x25,
            TableId::File => 0x26,
            TableId::ExportedType => 0x27,
            TableId::ManifestResource => 0x28,
            TableId::NestedClass => 0x29,
            TableId::GenericParam => 0x2A,
            TableId::MethodSpec => 0x2B,
            TableId::GenericParamConstraint => 0x2C,
            TableId::Document => 0x30,
            TableId::MethodDebugInformation => 0x31,
            TableId::LocalScope => 0x32,
            TableId::LocalVariable => 0x33,
            TableId::LocalConstant => 0x34,
            TableId::ImportScope => 0x35,
            TableId::StateMachineMethod => 0x36,
            TableId::CustomDebugInformation => 0x37,
        }
    }

    /// The table whose raw id byte is `value`.
    pub open spec fn of_number(value: u8) -> Option<TableId> {
        match value {
            0x00 => Some(TableId::Module),
            0x01 => Some(TableId::TypeRef),
            0x02 => Some(TableId::TypeDef),
            0x03 => Some(TableId::FieldPtr),
            0x04 => Some(TableId::Field),
            0x05 => Some(TableId::MethodPtr),
            0x06 => Some(TableId::MethodDef),
            0x07 => Some(TableId::ParamPtr),
            0x08 => Some(TableId::Param),
            0x09 => Some(TableId::InterfaceImpl),
            0x0A => Some(TableId::MemberRef),
            0x0B => Some(TableId::Constant),
            0x0C => Some(TableId::CustomAttribute),
            0x0D => Some(TableId::FieldMarshal),
            0x0E => Some(TableId::DeclSecurity),
            0x0F => Some(TableId::ClassLayout),
            0x10 => Some(TableId::FieldLayout),
            0x11 => Some(TableId::StandAloneSig),
            0x12 => Some(TableId::EventMap),
            0x13 => Some(TableId::EventPtr),
            0x14 => Some(TableId::Event),
            0x15 => Some(TableId::PropertyMap),
            0x16 => Some(TableId::PropertyPtr),
            0x17 => Some(TableId::Property),
            0x18 => Some(TableId::MethodSemantics),
            0x19 => Some(TableId::MethodImpl),
            0x1A => Some(TableId::ModuleRef),
            0x1B => Some(TableId::TypeSpec),
            0x1C => Some(TableId::ImplMap),
            0x1D => Some(TableId::FieldRva),
            0x1E => Some(TableId::EncLog),
            0x1F => Some(TableId::EncMap),
            0x20 => Some(TableId::Assembly),
            0x21 => Some(TableId::AssemblyProcessor),
            0x22 => Some(TableId::AssemblyOs),
            0x23 => Some(TableId::AssemblyRef),
            0x24 => Some(TableId::AssemblyRefProcessor),
            0x25 => Some(TableId::AssemblyRefOs),
            0x26 => Some(TableId::File),
            0x27 => Some(TableId::ExportedType),
            0x28 => Some(TableId::ManifestResource),
            0x29 => Some(TableId::NestedClass),
            0x2A => Some(TableId::GenericParam),
            0x2B => Some(TableId::MethodSpec),
            0x2C => Some(TableId::GenericParamConstraint),
            0x30 => Some(TableId::Document),
            0x31 => Some(TableId::MethodDebugInformation),
            0x32 => Some(TableId::LocalScope),
            0x33 => Some(TableId::LocalVariable),
            0x34 => Some(TableId::LocalConstant),
            0x35 => Some(TableId::ImportScope),
            0x36 => Some(TableId::StateMachineMethod),
            0x37 => Some(TableId::CustomDebugInformation),
            _ => None,
        }
    }

    /// The canonical name of the table.
    pub open spec fn title(self) -> &'static str {
        match self {
            TableId::Module => "Module",
            TableId::TypeRef => "TypeRef",
            TableId::TypeDef => "TypeDef",
            TableId::FieldPtr => "FieldPtr",
            TableId::Field => "Field",
            TableId::MethodPtr => "MethodPtr",
            TableId::MethodDef => "MethodDef",
            TableId::ParamPtr => "ParamPtr",
            TableId::Param => "Param",
            TableId::InterfaceImpl => "InterfaceImpl",
            TableId::MemberRef => "MemberRef",
            TableId::Constant => "Constant",
            TableId::CustomAttribute => "CustomAttribute",
            TableId::FieldMarshal => "FieldMarshal",
            TableId::DeclSecurity => "DeclSecurity",
            TableId::ClassLayout => "ClassLayout",
            TableId::FieldLayout => "FieldLayout",
            TableId::StandAloneSig => "StandAloneSig",
            TableId::EventMap => "EventMap",
            TableId::EventPtr => "EventPtr",
            TableId::Event => "Event",
            TableId::PropertyMap => "PropertyMap",
            TableId::PropertyPtr => "PropertyPtr",
            TableId::Property => "Property",
            TableId::MethodSemantics => "MethodSemantics",
            TableId::MethodImpl => "MethodImpl",
            TableId::ModuleRef => "ModuleRef",
            TableId::TypeSpec => "TypeSpec",
            TableId::ImplMap => "ImplMap",
            TableId::FieldRva => "FieldRva",
            TableId::EncLog => "EncLog",
            TableId::EncMap => "EncMap",
            TableId::Assembly => "Assembly",
            TableId::AssemblyProcessor => "AssemblyProcessor",
            TableId::AssemblyOs => "AssemblyOs",
            TableId::AssemblyRef => "AssemblyRef",
            TableId::AssemblyRefProcessor => "AssemblyRefProcessor",
            TableId::AssemblyRefOs => "AssemblyRefOs",
            TableId::File => "File",
            TableId::ExportedType => "ExportedType",
            TableId::ManifestResource => "ManifestResource",
            TableId::NestedClass => "NestedClass",
            TableId::GenericParam => "GenericParam",
            TableId::MethodSpec => "MethodSpec",
            TableId::GenericParamConstraint => "GenericParamConstraint",
            TableId::Document => "Document",
            TableId::MethodDebugInformation => "MethodDebugInformation",
            TableId::LocalScope => "LocalScope",
            TableId::LocalVariable => "LocalVariable",
            TableId::LocalConstant => "LocalConstant",
            TableId::ImportScope => "ImportScope",
            TableId::StateMachineMethod => "StateMachineMethod",
            TableId::CustomDebugInformation => "CustomDebugInformation",
        }
    }

    /// Converts a raw table id byte, or `None` if it is reserved.
    pub fn from_u8(value: u8) -> (id: Option<TableId>)
        ensures
            id == TableId::of_number(value),
    {
        match value {
            0x00 => Some(TableId::Module),
            0x01 => Some(TableId::TypeRef),
            0x02 => Some(TableId::TypeDef),
            0x03 => Some(TableId::FieldPtr),
            0x04 => Some(TableId::Field),
            0x05 => Some(TableId::MethodPtr),
            0x06 => Some(TableId::MethodDef),
            0x07 => Some(TableId::ParamPtr),
            0x08 => Some(TableId::Param),
            0x09 => Some(TableId::InterfaceImpl),
            0x0A => Some(TableId::MemberRef),
            0x0B => Some(TableId::Constant),
            0x0C => Some(TableId::CustomAttribute),
            0x0D => Some(TableId::FieldMarshal),
            0x0E => Some(TableId::DeclSecurity),
            0x0F => Some(TableId::ClassLayout),
            0x10 => Some(TableId::FieldLayout),
            0x11 => Some(TableId::StandAloneSig),
            0x12 => Some(TableId::EventMap),
            0x13 => Some(TableId::EventPtr),
            0x14 => Some(TableId::Event),
            0x15 => Some(TableId::PropertyMap),
            0x16 => Some(TableId::PropertyPtr),
            0x17 => Some(TableId::Property),
            0x18 => Some(TableId::MethodSemantics),
            0x19 => Some(TableId::MethodImpl),
            0x1A => Some(TableId::ModuleRef),
            0x1B => Some(TableId::TypeSpec),
            0x1C => Some(TableId::ImplMap),
            0x1D => Some(TableId::FieldRva),
            0x1E => Some(TableId::EncLog),
            0x1F => Some(TableId::EncMap),
            0x20 => Some(TableId::Assembly),
            0x21 => Some(TableId::AssemblyProcessor),
            0x22 => Some(TableId::AssemblyOs),
            0x23 => Some(TableId::AssemblyRef),
            0x24 => Some(TableId::AssemblyRefProcessor),
            0x25 => Some(TableId::AssemblyRefOs),
            0x26 => Some(TableId::File),
            0x27 => Some(TableId::ExportedType),
            0x28 => Some(TableId::ManifestResource),
            0x29 => Some(TableId::NestedClass),
            0x2A => Some(TableId::GenericParam),
            0x2B => Some(TableId::MethodSpec),
            0x2C => Some(TableId::GenericParamConstraint),
            0x30 => Some(TableId::Document),
            0x31 => Some(TableId::MethodDebugInformation),
            0x32 => Some(TableId::LocalScope),
            0x33 => Some(TableId::LocalVariable),
            0x34 => Some(TableId::LocalConstant),
            0x35 => Some(TableId::ImportScope),
            0x36 => Some(TableId::StateMachineMethod),
            0x37 => Some(TableId::CustomDebugInformation),
            _ => None,
        }
    }

    /// The canonical name of the table.
    pub fn name(self) -> (name: &'static str)
        ensures
            name == self.title(),
    {
        match self {
            TableId::Module => "Module",
            TableId::TypeRef => "TypeRef",
            TableId::TypeDef => "TypeDef",
            TableId::FieldPtr => "FieldPtr",
            TableId::Field => "Field",
            TableId::MethodPtr => "MethodPtr",
            TableId::MethodDef => "MethodDef",
            TableId::ParamPtr => "ParamPtr",
            TableId::Param => "Param",
            TableId::InterfaceImpl => "InterfaceImpl",
            TableId::MemberRef => "MemberRef",
            TableId::Constant => "Constant",
            TableId::CustomAttribute => "CustomAttribute",
            TableId::FieldMarshal => "FieldMarshal",
            TableId::DeclSecurity => "DeclSecurity",
            TableId::ClassLayout => "ClassLayout",
            TableId::FieldLayout => "FieldLayout",
            TableId::StandAloneSig => "StandAloneSig",
            TableId::EventMap => "EventMap",
            TableId::EventPtr => "EventPtr",
            TableId::Event => "Event",
            TableId::PropertyMap => "PropertyMap",
            TableId::PropertyPtr => "PropertyPtr",
            TableId::Property => "Property",
            TableId::MethodSemantics => "MethodSemantics",
            TableId::MethodImpl => "MethodImpl",
            TableId::ModuleRef => "ModuleRef",
            TableId::TypeSpec => "TypeSpec",
            TableId::ImplMap => "ImplMap",
            TableId::FieldRva => "FieldRva",
            TableId::EncLog => "EncLog",
            TableId::EncMap => "EncMap",
            TableId::Assembly => "Assembly",
            TableId::AssemblyProcessor => "AssemblyProcessor",
            TableId::AssemblyOs => "AssemblyOs",
            TableId::AssemblyRef => "AssemblyRef",
            TableId::AssemblyRefProcessor => "AssemblyRefProcessor",
            TableId::AssemblyRefOs => "AssemblyRefOs",
            TableId::File => "File",
            TableId::ExportedType => "ExportedType",
            TableId::ManifestResource => "ManifestResource",
            TableId::NestedClass => "NestedClass",
            TableId::GenericParam => "GenericParam",
            TableId::MethodSpec => "MethodSpec",
            TableId::GenericParamConstraint => "GenericParamConstraint",
            TableId::Document => "Document",
            TableId::MethodDebugInformation => "MethodDebugInformation",
            TableId::LocalScope => "LocalScope",
            TableId::LocalVariable => "LocalVariable",
            TableId::LocalConstant => "LocalConstant",
            TableId::ImportScope => "ImportScope",
            TableId::StateMachineMethod => "StateMachineMethod",
            TableId::CustomDebugInformation => "CustomDebugInformation",
        }
    }

    /// The raw table id byte.
    pub fn to_u8(self) -> (value: u8)
        ensures
            value == self.number(),
    {
        match self {
            TableId::Module => 0x00,
            TableId::TypeRef => 0x01,
            TableId::TypeDef => 0x02,
            TableId::FieldPtr => 0x03,
            TableId::Field => 0x04,
            TableId::MethodPtr => 0x05,
            TableId::MethodDef => 0x06,
            TableId::ParamPtr => 0x07,
            TableId::Param => 0x08,
            TableId::InterfaceImpl => 0x09,
            TableId::MemberRef => 0x0A,
            TableId::Constant => 0x0B,
            TableId::CustomAttribute => 0x0C,
            TableId::FieldMarshal => 0x0D,
            TableId::DeclSecurity => 0x0E,
            TableId::ClassLayout => 0x0F,
            TableId::FieldLayout => 0x10,
            TableId::StandAloneSig => 0x11,
            TableId::EventMap => 0x12,
            TableId::EventPtr => 0x13,
            TableId::Event => 0x14,
            TableId::PropertyMap => 0x15,
            TableId::PropertyPtr => 0x16,
            TableId::Property => 0x17,
            TableId::MethodSemantics => 0x18,
            TableId::MethodImpl => 0x19,
            TableId::ModuleRef => 0x1A,
            TableId::TypeSpec => 0x1B,
            TableId::ImplMap => 0x1C,
            TableId::FieldRva => 0x1D,
            TableId::EncLog => 0x1E,
            TableId::EncMap => 0x1F,
            TableId::Assembly => 0x20,
            TableId::AssemblyProcessor => 0x21,
            TableId::AssemblyOs => 0x22,
            TableId::AssemblyRef => 0x23,
            TableId::AssemblyRefProcessor => 0x24,
            TableId::AssemblyRefOs => 0x25,
            TableId::File => 0x26,
            TableId::ExportedType => 0x27,
            TableId::ManifestResource => 0x28,
            TableId::NestedClass => 0x29,
            TableId::GenericParam => 0x2A,
            TableId::MethodSpec => 0x2B,
            TableId::GenericParamConstraint => 0x2C,
            TableId::Document => 0x30,
            TableId::MethodDebugInformation => 0x31,
            TableId::LocalScope => 0x32,
            TableId::LocalVariable => 0x33,
            TableId::LocalConstant => 0x34,
            TableId::ImportScope => 0x35,
            TableId::StateMachineMethod => 0x36,
            TableId::CustomDebugInformation => 0x37,
        }
    }

    /// True for the Portable PDB tables `0x30..=0x37`.
    pub fn is_pdb(self) -> (pdb: bool)
        ensures
            pdb == (self.number() >= 0x30),
    {
        self.to_u8() >= 0x30
    }

    /// The table that a `*Ptr` table redirects into.
    pub open spec fn redirects_to(self) -> Option<TableId> {
        match self {
            TableId::FieldPtr => Some(TableId::Field),
            TableId::MethodPtr => Some(TableId::MethodDef),
            TableId::ParamPtr => Some(TableId::Param),
            TableId::EventPtr => Some(TableId::Event),
            TableId::PropertyPtr => Some(TableId::Property),
            _ => None,
        }
    }

    /// The `*Ptr` table that can redirect into this one.
    pub open spec fn redirected_by(self) -> Option<TableId> {
        match self {
            TableId::Field => Some(TableId::FieldPtr),
            TableId::MethodDef => Some(TableId::MethodPtr),
            TableId::Param => Some(TableId::ParamPtr),
            TableId::Event => Some(TableId::EventPtr),
            TableId::Property => Some(TableId::PropertyPtr),
            _ => None,
        }
    }

    /// True for the `*Ptr` indirection tables that only appear in `#-` streams.
    pub fn is_ptr_table(self) -> (ptr: bool)
        ensures
            ptr == (self.redirects_to() is Some),
    {
        matches!(
            self,
            TableId::FieldPtr
                | TableId::MethodPtr
                | TableId::ParamPtr
                | TableId::EventPtr
                | TableId::PropertyPtr
        )
    }

    /// For a `*Ptr` table, the table it redirects into.
    pub fn ptr_target(self) -> (target: Option<TableId>)
        ensures
            target == self.redirects_to(),
    {
        match self {
            TableId::FieldPtr => Some(TableId::Field),
            TableId::MethodPtr => Some(TableId::MethodDef),
            TableId::ParamPtr => Some(TableId::Param),
            TableId::EventPtr => Some(TableId::Event),
            TableId::PropertyPtr => Some(TableId::Property),
            _ => None,
        }
    }

    /// The `*Ptr` table that can redirect into this one, if any.
    pub fn ptr_source(self) -> (source: Option<TableId>)
        ensures
            source == self.redirected_by(),
    {
        match self {
            TableId::Field => Some(TableId::FieldPtr),
            TableId::MethodDef => Some(TableId::MethodPtr),
            TableId::Param => Some(TableId::ParamPtr),
            TableId::Event => Some(TableId::EventPtr),
            TableId::Property => Some(TableId::PropertyPtr),
            _ => None,
        }
    }

    /// The table name as a string.
    pub fn to_string(&self) -> (s: String)
        ensures
            s@ == self.title()@,
    {
        String::from_str(self.name())
    }
}

/// Table ids and their raw bytes determine each other, and all raw bytes lie
/// below 64.
pub proof fn lemma_table_numbers(id: TableId, value: u8)
    ensures
        TableId::of_number(id.number()) == Some(id),
        TableId::of_number(value) matches Some(t) ==> t.number() == value,
        id.number() < 64,
{
}

/// The `*Ptr` tables and their targets map to each other both ways.
pub proof fn lemma_ptr_tables(id: TableId)
    ensures
        id.redirects_to() matches Some(target) ==> target.redirected_by() == Some(id),
        id.redirected_by() matches Some(source) ==> source.redirects_to() == Some(id),
{
}

/// The list of all table ids holds each of them once, in ascending order.
pub proof fn lemma_all_tables(id: TableId)
    ensures
        TableId::ALL@.contains(id),
        forall|i: int, j: int|
            0 <= i < j < TableId::ALL@.len() ==> TableId::ALL@[i].number()
                < TableId::ALL@[j].number(),
{
    let n = id.number() as int;
    assert(TableId::ALL@[if n < 0x30 { n } else { n - 3 }] == id);
    assert(forall|i: int|
        0 <= i < TableId::ALL@.len() ==> #[trigger] TableId::ALL@[i].number() == if i < 45 {
            i
        } else {
            i + 3
        });
}

/// A metadata token: a table id in the high byte and a RID in the low 24 bits.
///
/// The all-zero token and any token whose RID is zero are "null"; a null token
/// is a legal encoding meaning "no row".
#[derive(Clone, Copy, PartialEq, Eq, PartialOrd, Ord, Hash, Debug, Structural)]
pub struct Token(pub u32);

impl Default for Token {
    fn default() -> (t: Self)
        ensures
            t == Token(0),
    {
        Token(0)
    }
}

impl Token {
    /// The RID mask, `0x00FF_FFFF`.
    pub const RID_MASK: u32 = 0x00FF_FFFF;

    /// The token of row `rid` of `table`; `rid` is cut to 24 bits.
    pub open spec fn of(table: TableId, rid: u32) -> Token {
        Token((table.number() * 0x100_0000 + rid as int % 0x100_0000) as u32)
    }

    /// The raw table id byte.
    pub open spec fn high(self) -> u8 {
        (self.0 as int / 0x100_0000) as u8
    }

    /// The 1-based row id.
    pub open spec fn row(self) -> u32 {
        (self.0 as int % 0x100_0000) as u32
    }

    /// Builds a token from a table id and a 1-based RID.
    ///
    /// RIDs wider than 24 bits are truncated; callers that decode untrusted
    /// input should validate the RID against the table row count first.
    pub fn new(table: TableId, rid: u32) -> (t: Token)
        ensures
            t == Token::of(table, rid),
    {
        proof {
            lemma_table_numbers(table, 0);
        }
        Token(table.to_u8() as u32 * 0x100_0000 + rid % 0x100_0000)
    }

    /// The table this token refers to, or `None` for a reserved table id.
    pub fn table(self) -> (table: Option<TableId>)
        ensures
            table == TableId::of_number(self.high()),
    {
        TableId::from_u8(self.table_byte())
    }

    /// The raw table id byte, even when it is reserved.
    pub fn table_byte(self) -> (byte: u8)
        ensures
            byte == self.high(),
    {
        (self.0 / 0x100_0000) as u8
    }

    /// The 1-based row id.
    pub fn rid(self) -> (rid: u32)
        ensures
            rid == self.row(),
    {
        self.0 % 0x100_0000
    }

    /// True when the RID is zero, meaning "no row".
    pub fn is_null(self) -> (null: bool)
        ensures
            null == (self.row() == 0),
    {
        self.rid() == 0
    }

    /// The raw 4-byte value.
    pub fn value(self) -> (value: u32)
        ensures
            value == self.0,
    {
        self.0
    }

    /// Reinterprets this token as a typed [`Rid`], checking the table id.
    pub fn as_rid<T: marker::Table>(self) -> (rid: Option<Rid<T>>)
        ensures
            rid == (if TableId::of_number(self.high()) == Some(T::id()) && self.row() != 0 {
                Some(Rid::<T>::of(self.row()))
            } else {
                None
            }),
    {
        proof {
            T::lemma_id();
        }
        match self.table() {
            Some(table) => if table == T::ID && !self.is_null() {
                Some(Rid::new(self.rid()))
            } else {
                None
            },
            None => None,
        }
    }

    /// The rendered token: `0x` and eight hexadecimal digits.
    pub open spec fn rendered(self) -> Seq<char> {
        "0x"@ + text::hex_fixed(self.0 as nat, 8)
    }

    /// Renders the token as `0x` and eight hexadecimal digits.
    pub fn to_string(&self) -> (s: String)
        ensures
            s@ == self.rendered(),
    {
        let mut out = String::from_str("0x");
        text::push_hex_fixed(&mut out, self.0, 8);
        out
    }

    /// The row the token names as `Token(Table[rid])`, or its raw value in
    /// brackets when the table is reserved.
    pub open spec fn described(self) -> Seq<char> {
        match TableId::of_number(self.high()) {
            Some(table) => "Token("@ + table.title()@ + "["@ + text::decimal(self.row() as nat)
                + "])"@,
            None => "Token("@ + self.rendered() + ")"@,
        }
    }

    /// Describes the token as `Token(Table[rid])`, or by its raw value when the
    /// table is reserved.
    pub fn describe(&self) -> (s: String)
        ensures
            s@ == self.described(),
    {
        let mut out = String::from_str("Token(");
        match self.table() {
            Some(table) => {
                out.append(table.name());
                out.append("[");
                text::push_decimal(&mut out, self.rid() as u64);
                out.append("])");
            },
            None => {
                out.append(self.to_string().as_str());
                out.append(")");
            },
        }
        out
    }
}

/// A token built from a table and a RID of at most 24 bits gives both back.
pub proof fn lemma_token_round_trip(table: TableId, rid: u32)
    requires
        rid <= Token::RID_MASK,
    ensures
        TableId::of_number(Token::of(table, rid).high()) == Some(table),
        Token::of(table, rid).row() == rid,
{
    lemma_table_numbers(table, 0);
}

/// A token of a known table is rebuilt from its table and RID.
pub proof fn lemma_token_rebuilt(token: Token)
    ensures
        TableId::of_number(token.high()) matches Some(table) ==> Token::of(table, token.row())
            == token,
{
    if let Some(table) = TableId::of_number(token.high()) {
        lemma_table_numbers(table, token.high());
    }
}

impl<T: marker::Table> From<Rid<T>> for Token {
    fn from(rid: Rid<T>) -> (t: Token) {
        proof {
            T::lemma_id();
        }
        Token::new(T::ID, rid.get())
    }
}

impl<T: marker::Table> FromSpecImpl<Rid<T>> for Token {
    open spec fn obeys_from_spec() -> bool {
        true
    }

    open spec fn from_spec(rid: Rid<T>) -> Token {
        Token::of(T::id(), rid.number())
    }
}

/// A 1-based row identifier within a statically known table.
///
/// Zero means "no row", matching the metadata encoding.
#[derive(Debug, Ord, Hash)]
pub struct Rid<T> {
    value: u32,
    _table: PhantomData<T>,
}

impl<T> Rid<T> {
    /// The row id `value`.
    pub closed spec fn of(value: u32) -> Rid<T> {
        Rid { value, _table: PhantomData }
    }

    /// The raw 1-based row id.
    pub closed spec fn number(self) -> u32 {
        self.value
    }

    /// Wraps a raw 1-based row id.
    pub fn new(value: u32) -> (rid: Self)
        ensures
            rid == Rid::<T>::of(value),
            rid.number() == value,
    {
        Rid { value, _table: PhantomData }
    }

    /// The raw 1-based row id.
    pub fn get(self) -> (value: u32)
        ensures
            value == self.number(),
    {
        self.value
    }

    /// True when this refers to no row.
    pub fn is_null(self) -> (null: bool)
        ensures
            null == (self.number() == 0),
    {
        self.value == 0
    }

    /// The zero-based index into the table, or `None` for a null RID.
    pub fn index(self) -> (index: Option<usize>)
        ensures
            index == (if self.number() == 0 {
                None
            } else {
                Some((self.number() - 1) as usize)
            }),
    {
        if self.value == 0 {
            None
        } else {
            Some(self.value as usize - 1)
        }
    }
}

/// A row id and its number determine each other.
pub broadcast proof fn lemma_rid_number<T>(rid: Rid<T>, value: u32)
    ensures
        #![trigger Rid::<T>::of(value), rid.number()]
        Rid::<T>::of(value).number() == value,
        rid == Rid::<T>::of(rid.number()),
{
}

impl<T: marker::Table> Rid<T> {
    /// The table id this RID belongs to.
    pub fn table(self) -> (id: TableId)
        ensures
            id == T::id(),
    {
        proof {
            T::lemma_id();
        }
        T::ID
    }

    /// The equivalent [`Token`].
    pub fn token(self) -> (t: Token)
        ensures
            t == Token::of(T::id(), self.number()),
    {
        proof {
            T::lemma_id();
        }
        Token::new(T::ID, self.value)
    }

    /// Describes the row as `Table[rid]`.
    pub fn describe(&self) -> (s: String)
        ensures
            s@ == T::id().title()@ + "["@ + text::decimal(self.number() as nat) + "]"@,
    {
        proof {
            T::lemma_id();
        }
        let mut out = String::from_str(T::ID.name());
        out.append("[");
        text::push_decimal(&mut out, self.value as u64);
        out.append("]");
        out
    }
}

impl<T> Clone for Rid<T> {
    fn clone(&self) -> (rid: Self)
        ensures
            rid == *self,
    {
        *self
    }
}

impl<T> Copy for Rid<T> {

}

impl<T> PartialEq for Rid<T> {
    fn eq(&self, other: &Self) -> (same: bool) {
        self.value == other.value
    }
}

impl<T> PartialEqSpecImpl for Rid<T> {
    open spec fn obeys_eq_spec() -> bool {
        true
    }

    open spec fn eq_spec(&self, other: &Self) -> bool {
        self.number() == other.number()
    }
}

impl<T> Eq for Rid<T> {

}

impl<T> PartialOrd for Rid<T> {
    fn partial_cmp(&self, other: &Self) -> (order: Option<Ordering>) {
        if self.value < other.value {
            Some(Ordering::Less)
        } else if self.value == other.value {
            Some(Ordering::Equal)
        } else {
            Some(Ordering::Greater)
        }
    }
}

impl<T> PartialOrdSpecImpl for Rid<T> {
    open spec fn obeys_partial_cmp_spec() -> bool {
        true
    }

    open spec fn partial_cmp_spec(&self, other: &Self) -> Option<Ordering> {
        if self.number() < other.number() {
            Some(Ordering::Less)
        } else if self.number() == other.number() {
            Some(Ordering::Equal)
        } else {
            Some(Ordering::Greater)
        }
    }
}

impl<T> Default for Rid<T> {
    fn default() -> (rid: Self)
        ensures
            rid == Rid::<T>::of(0),
    {
        Rid::new(0)
    }
}

/// A byte offset into the `#Strings` heap.
#[derive(Clone, Copy, PartialEq, Eq, PartialOrd, Ord, Hash, Debug, Structural)]
pub struct StringIndex(pub u32);

impl StringIndex {
    /// The raw index value.
    pub fn get(self) -> (value: u32)
        ensures
            value == self.0,
    {
        self.0
    }

    /// True for index 0, which always denotes the empty value.
    pub fn is_empty(self) -> (empty: bool)
        ensures
            empty == (self.0 == 0),
    {
        self.0 == 0
    }

    /// Describes the index as `#Strings[0x..]`.
    pub fn describe(&self) -> (s: String)
        ensures
            s@ == "#Strings["@ + text::hex(self.0 as nat) + "]"@,
    {
        let mut out = String::from_str("#Strings[");
        text::push_hex(&mut out, self.0 as u64);
        out.append("]");
        out
    }
}

impl Default for StringIndex {
    fn default() -> (index: Self)
        ensures
            index == StringIndex(0),
    {
        StringIndex(0)
    }
}

/// A byte offset into the `#Blob` heap.
#[derive(Clone, Copy, PartialEq, Eq, PartialOrd, Ord, Hash, Debug, Structural)]
pub struct BlobIndex(pub u32);

impl BlobIndex {
    /// The raw index value.
    pub fn get(self) -> (value: u32)
        ensures
            value == self.0,
    {
        self.0
    }

    /// True for index 0, which always denotes the empty value.
    pub fn is_empty(self) -> (empty: bool)
        ensures
            empty == (self.0 == 0),
    {
        self.0 == 0
    }

    /// Describes the index as `#Blob[0x..]`.
    pub fn describe(&self) -> (s: String)
        ensures
            s@ == "#Blob["@ + text::hex(self.0 as nat) + "]"@,
    {
        let mut out = String::from_str("#Blob[");
        text::push_hex(&mut out, self.0 as u64);
        out.append("]");
        out
    }
}

impl Default for BlobIndex {
    fn default() -> (index: Self)
        ensures
            index == BlobIndex(0),
    {
        BlobIndex(0)
    }
}

/// A 1-based index into the `#GUID` heap.
#[derive(Clone, Copy, PartialEq, Eq, PartialOrd, Ord, Hash, Debug, Structural)]
pub struct GuidIndex(pub u32);

impl GuidIndex {
    /// The raw index value.
    pub fn get(self) -> (value: u32)
        ensures
            value == self.0,
    {
        self.0
    }

    /// True for index 0, which always denotes the empty value.
    pub fn is_empty(self) -> (empty: bool)
        ensures
            empty == (self.0 == 0),
    {
        self.0 == 0
    }

    /// Describes the index as `#GUID[0x..]`.
    pub fn describe(&self) -> (s: String)
        ensures
            s@ == "#GUID["@ + text::hex(self.0 as nat) + "]"@,
    {
        let mut out = String::from_str("#GUID[");
        text::push_hex(&mut out, self.0 as u64);
        out.append("]");
        out
    }
}

impl Default for GuidIndex {
    fn default() -> (index: Self)
        ensures
            index == GuidIndex(0),
    {
        GuidIndex(0)
    }
}

/// A `ldstr` operand: a `0x70` token whose low 24 bits are a `#US` heap offset.
#[derive(Clone, Copy, PartialEq, Eq, PartialOrd, Ord, Hash, Debug, Structural)]
pub struct UserStringToken(pub u32);

impl UserStringToken {
    /// The `#US` heap byte offset carried by this token.
    pub open spec fn heap_offset(self) -> u32 {
        (self.0 as int % 0x100_0000) as u32
    }

    /// The `#US` heap byte offset carried by this token.
    pub fn offset(self) -> (offset: u32)
        ensures
            offset == self.heap_offset(),
    {
        self.0 % 0x100_0000
    }

    /// The raw token value, including the `0x70` table byte.
    pub fn value(self) -> (value: u32)
        ensures
            value == self.0,
    {
        self.0
    }

    /// True when the high byte is the expected `0x70`.
    pub fn has_us_table_byte(self) -> (expected: bool)
        ensures
            expected == (self.0 as int / 0x100_0000 == 0x70),
    {
        self.0 / 0x100_0000 == 0x70
    }

    /// Describes the operand as `#US[0x..]`.
    pub fn describe(&self) -> (s: String)
        ensures
            s@ == "#US["@ + text::hex(self.heap_offset() as nat) + "]"@,
    {
        let mut out = String::from_str("#US[");
        text::push_hex(&mut out, self.offset() as u64);
        out.append("]");
        out
    }
}

impl Default for UserStringToken {
    fn default() -> (token: Self)
        ensures
            token == UserStringToken(0),
    {
        UserStringToken(0)
    }
}

} // verus!
