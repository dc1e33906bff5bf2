//! Zero-sized marker types naming each metadata table.
//!
//! These exist only to parameterise [`Rid`](crate::token::Rid).
use vstd::prelude::*;

use crate::token::TableId;

verus! {

/// Implemented by every marker type in this module.
pub trait Table: Copy {
    /// The table id this marker names.
    const ID: TableId;

    /// The table id this marker names.
    spec fn id() -> TableId;

    /// The constant is the table id.
    proof fn lemma_id()
        ensures
            Self::ID == Self::id(),
    ;
}

/// `Module` (II.22.30).
#[derive(Clone, Copy, PartialEq, Eq, PartialOrd, Ord, Hash, Debug)]
pub struct Module;

impl Table for Module {
    const ID: TableId = TableId::Module;

    open spec fn id() -> TableId {
        TableId::Module
    }

    proof fn lemma_id() {
    }
}

/// `TypeRef` (II.22.38).
#[derive(Clone, Copy, PartialEq, Eq, PartialOrd, Ord, Hash, Debug)]
pub struct TypeRef;

impl Table for TypeRef {
    const ID: TableId = TableId::TypeRef;

    open spec fn id() -> TableId {
        TableId::TypeRef
    }

    proof fn lemma_id() {
    }
}

/// `TypeDef` (II.22.37).
#[derive(Clone, Copy, PartialEq, Eq, PartialOrd, Ord, Hash, Debug)]
pub struct TypeDef;

impl Table for TypeDef {
    const ID: TableId = TableId::TypeDef;

    open spec fn id() -> TableId {
        TableId::TypeDef
    }

    proof fn lemma_id() {
    }
}

/// `FieldPtr`, an indirection table found only in `#-` streams.
#[derive(Clone, Copy, PartialEq, Eq, PartialOrd, Ord, Hash, Debug)]
pub struct FieldPtr;

impl Table for FieldPtr {
    const ID: TableId = TableId::FieldPtr;

    open spec fn id() -> TableId {
        TableId::FieldPtr
    }

    proof fn lemma_id() {
    }
}

/// `Field` (II.22.15).
#[derive(Clone, Copy, PartialEq, Eq, PartialOrd, Ord, Hash, Debug)]
pub struct Field;

impl Table for Field {
    const ID: TableId = TableId::Field;

    open spec fn id() -> TableId {
        TableId::Field
    }

    proof fn lemma_id() {
    }
}

/// `MethodPtr`, an indirection table found only in `#-` streams.
#[derive(Clone, Copy, PartialEq, Eq, PartialOrd, Ord, Hash, Debug)]
pub struct MethodPtr;

impl Table for MethodPtr {
    const ID: TableId = TableId::MethodPtr;

    open spec fn id() -> TableId {
        TableId::MethodPtr
    }

    proof fn lemma_id() {
    }
}

/// `MethodDef` (II.22.26).
#[derive(Clone, Copy, PartialEq, Eq, PartialOrd, Ord, Hash, Debug)]
pub struct MethodDef;

impl Table for MethodDef {
    const ID: TableId = TableId::MethodDef;

    open spec fn id() -> TableId {
        TableId::MethodDef
    }

    proof fn lemma_id() {
    }
}

/// `ParamPtr`, an indirection table found only in `#-` streams.
#[derive(Clone, Copy, PartialEq, Eq, PartialOrd, Ord, Hash, Debug)]
pub struct ParamPtr;

impl Table for ParamPtr {
    const ID: TableId = TableId::ParamPtr;

    open spec fn id() -> TableId {
        TableId::ParamPtr
    }

    proof fn lemma_id() {
    }
}

/// `Param` (II.22.33).
#[derive(Clone, Copy, PartialEq, Eq, PartialOrd, Ord, Hash, Debug)]
pub struct Param;

impl Table for Param {
    const ID: TableId = TableId::Param;

    open spec fn id() -> TableId {
        TableId::Param
    }

    proof fn lemma_id() {
    }
}

/// `InterfaceImpl` (II.22.23).
#[derive(Clone, Copy, PartialEq, Eq, PartialOrd, Ord, Hash, Debug)]
pub struct InterfaceImpl;

impl Table for InterfaceImpl {
    const ID: TableId = TableId::InterfaceImpl;

    open spec fn id() -> TableId {
        TableId::InterfaceImpl
    }

    proof fn lemma_id() {
    }
}

/// `MemberRef` (II.22.25).
#[derive(Clone, Copy, PartialEq, Eq, PartialOrd, Ord, Hash, Debug)]
pub struct MemberRef;

impl Table for MemberRef {
    const ID: TableId = TableId::MemberRef;

    open spec fn id() -> TableId {
        TableId::MemberRef
    }

    proof fn lemma_id() {
    }
}

/// `Constant` (II.22.9).
#[derive(Clone, Copy, PartialEq, Eq, PartialOrd, Ord, Hash, Debug)]
pub struct Constant;

impl Table for Constant {
    const ID: TableId = TableId::Constant;

    open spec fn id() -> TableId {
        TableId::Constant
    }

    proof fn lemma_id() {
    }
}

/// `CustomAttribute` (II.22.10).
#[derive(Clone, Copy, PartialEq, Eq, PartialOrd, Ord, Hash, Debug)]
pub struct CustomAttribute;

impl Table for CustomAttribute {
    const ID: TableId = TableId::CustomAttribute;

    open spec fn id() -> TableId {
        TableId::CustomAttribute
    }

    proof fn lemma_id() {
    }
}

/// `FieldMarshal` (II.22.17).
#[derive(Clone, Copy, PartialEq, Eq, PartialOrd, Ord, Hash, Debug)]
pub struct FieldMarshal;

impl Table for FieldMarshal {
    const ID: TableId = TableId::FieldMarshal;

    open spec fn id() -> TableId {
        TableId::FieldMarshal
    }

    proof fn lemma_id() {
    }
}

/// `DeclSecurity` (II.22.11).
#[derive(Clone, Copy, PartialEq, Eq, PartialOrd, Ord, Hash, Debug)]
pub struct DeclSecurity;

impl Table for DeclSecurity {
    const ID: TableId = TableId::DeclSecurity;

    open spec fn id() -> TableId {
        TableId::DeclSecurity
    }

    proof fn lemma_id() {
    }
}

/// `ClassLayout` (II.22.8).
#[derive(Clone, Copy, PartialEq, Eq, PartialOrd, Ord, Hash, Debug)]
pub struct ClassLayout;

impl Table for ClassLayout {
    const ID: TableId = TableId::ClassLayout;

    open spec fn id() -> TableId {
        TableId::ClassLayout
    }

    proof fn lemma_id() {
    }
}

/// `FieldLayout` (II.22.16).
#[derive(Clone, Copy, PartialEq, Eq, PartialOrd, Ord, Hash, Debug)]
pub struct FieldLayout;

impl Table for FieldLayout {
    const ID: TableId = TableId::FieldLayout;

    open spec fn id() -> TableId {
        TableId::FieldLayout
    }

    proof fn lemma_id() {
    }
}

/// `StandAloneSig` (II.22.36).
#[derive(Clone, Copy, PartialEq, Eq, PartialOrd, Ord, Hash, Debug)]
pub struct StandAloneSig;

impl Table for StandAloneSig {
    const ID: TableId = TableId::StandAloneSig;

    open spec fn id() -> TableId {
        TableId::StandAloneSig
    }

    proof fn lemma_id() {
    }
}

/// `EventMap` (II.22.12).
#[derive(Clone, Copy, PartialEq, Eq, PartialOrd, Ord, Hash, Debug)]
pub struct EventMap;

impl Table for EventMap {
    const ID: TableId = TableId::EventMap;

    open spec fn id() -> TableId {
        TableId::EventMap
    }

    proof fn lemma_id() {
    }
}

/// `EventPtr`, an indirection table found only in `#-` streams.
#[derive(Clone, Copy, PartialEq, Eq, PartialOrd, Ord, Hash, Debug)]
pub struct EventPtr;

impl Table for EventPtr {
    const ID: TableId = TableId::EventPtr;

    open spec fn id() -> TableId {
        TableId::EventPtr
    }

    proof fn lemma_id() {
    }
}

/// `Event` (II.22.13).
#[derive(Clone, Copy, PartialEq, Eq, PartialOrd, Ord, Hash, Debug)]
pub struct Event;

impl Table for Event {
    const ID: TableId = TableId::Event;

    open spec fn id() -> TableId {
        TableId::Event
    }

    proof fn lemma_id() {
    }
}

/// `PropertyMap` (II.22.35).
#[derive(Clone, Copy, PartialEq, Eq, PartialOrd, Ord, Hash, Debug)]
pub struct PropertyMap;

impl Table for PropertyMap {
    const ID: TableId = TableId::PropertyMap;

    open spec fn id() -> TableId {
        TableId::PropertyMap
    }

    proof fn lemma_id() {
    }
}

/// `PropertyPtr`, an indirection table found only in `#-` streams.
#[derive(Clone, Copy, PartialEq, Eq, PartialOrd, Ord, Hash, Debug)]
pub struct PropertyPtr;

impl Table for PropertyPtr {
    const ID: TableId = TableId::PropertyPtr;

    open spec fn id() -> TableId {
        TableId::PropertyPtr
    }

    proof fn lemma_id() {
    }
}

/// `Property` (II.22.34).
#[derive(Clone, Copy, PartialEq, Eq, PartialOrd, Ord, Hash, Debug)]
pub struct Property;

impl Table for Property {
    const ID: TableId = TableId::Property;

    open spec fn id() -> TableId {
        TableId::Property
    }

    proof fn lemma_id() {
    }
}

/// `MethodSemantics` (II.22.28).
#[derive(Clone, Copy, PartialEq, Eq, PartialOrd, Ord, Hash, Debug)]
pub struct MethodSemantics;

impl Table for MethodSemantics {
    const ID: TableId = TableId::MethodSemantics;

    open spec fn id() -> TableId {
        TableId::MethodSemantics
    }

    proof fn lemma_id() {
    }
}

/// `MethodImpl` (II.22.27).
#[derive(Clone, Copy, PartialEq, Eq, PartialOrd, Ord, Hash, Debug)]
pub struct MethodImpl;

impl Table for MethodImpl {
    const ID: TableId = TableId::MethodImpl;

    open spec fn id() -> TableId {
        TableId::MethodImpl
    }

    proof fn lemma_id() {
    }
}

/// `ModuleRef` (II.22.31).
#[derive(Clone, Copy, PartialEq, Eq, PartialOrd, Ord, Hash, Debug)]
pub struct ModuleRef;

impl Table for ModuleRef {
    const ID: TableId = TableId::ModuleRef;

    open spec fn id() -> TableId {
        TableId::ModuleRef
    }

    proof fn lemma_id() {
    }
}

/// `TypeSpec` (II.22.39).
#[derive(Clone, Copy, PartialEq, Eq, PartialOrd, Ord, Hash, Debug)]
pub struct TypeSpec;

impl Table for TypeSpec {
    const ID: TableId = TableId::TypeSpec;

    open spec fn id() -> TableId {
        TableId::TypeSpec
    }

    proof fn lemma_id() {
    }
}

/// `ImplMap` (II.22.22).
#[derive(Clone, Copy, PartialEq, Eq, PartialOrd, Ord, Hash, Debug)]
pub struct ImplMap;

impl Table for ImplMap {
    const ID: TableId = TableId::ImplMap;

    open spec fn id() -> TableId {
        TableId::ImplMap
    }

    proof fn lemma_id() {
    }
}

/// `FieldRva` (II.22.18).
#[derive(Clone, Copy, PartialEq, Eq, PartialOrd, Ord, Hash, Debug)]
pub struct FieldRva;

impl Table for FieldRva {
    const ID: TableId = TableId::FieldRva;

    open spec fn id() -> TableId {
        TableId::FieldRva
    }

    proof fn lemma_id() {
    }
}

/// `EncLog`, an edit-and-continue table found only in `#-` streams.
#[derive(Clone, Copy, PartialEq, Eq, PartialOrd, Ord, Hash, Debug)]
pub struct EncLog;

impl Table for EncLog {
    const ID: TableId = TableId::EncLog;

    open spec fn id() -> TableId {
        TableId::EncLog
    }

    proof fn lemma_id() {
    }
}

/// `EncMap`, an edit-and-continue table found only in `#-` streams.
#[derive(Clone, Copy, PartialEq, Eq, PartialOrd, Ord, Hash, Debug)]
pub struct EncMap;

impl Table for EncMap {
    const ID: TableId = TableId::EncMap;

    open spec fn id() -> TableId {
        TableId::EncMap
    }

    proof fn lemma_id() {
    }
}

/// `Assembly` (II.22.2).
#[derive(Clone, Copy, PartialEq, Eq, PartialOrd, Ord, Hash, Debug)]
pub struct Assembly;

impl Table for Assembly {
    const ID: TableId = TableId::Assembly;

    open spec fn id() -> TableId {
        TableId::Assembly
    }

    proof fn lemma_id() {
    }
}

/// `AssemblyProcessor` (II.22.4), ignored by the runtime.
#[derive(Clone, Copy, PartialEq, Eq, PartialOrd, Ord, Hash, Debug)]
pub struct AssemblyProcessor;

impl Table for AssemblyProcessor {
    const ID: TableId = TableId::AssemblyProcessor;

    open spec fn id() -> TableId {
        TableId::AssemblyProcessor
    }

    proof fn lemma_id() {
    }
}

/// `AssemblyOS` (II.22.3), ignored by the runtime.
#[derive(Clone, Copy, PartialEq, Eq, PartialOrd, Ord, Hash, Debug)]
pub struct AssemblyOs;

impl Table for AssemblyOs {
    const ID: TableId = TableId::AssemblyOs;

    open spec fn id() -> TableId {
        TableId::AssemblyOs
    }

    proof fn lemma_id() {
    }
}

/// `AssemblyRef` (II.22.5).
#[derive(Clone, Copy, PartialEq, Eq, PartialOrd, Ord, Hash, Debug)]
pub struct AssemblyRef;

impl Table for AssemblyRef {
    const ID: TableId = TableId::AssemblyRef;

    open spec fn id() -> TableId {
        TableId::AssemblyRef
    }

    proof fn lemma_id() {
    }
}

/// `AssemblyRefProcessor` (II.22.7), ignored by the runtime.
#[derive(Clone, Copy, PartialEq, Eq, PartialOrd, Ord, Hash, Debug)]
pub struct AssemblyRefProcessor;

impl Table for AssemblyRefProcessor {
    const ID: TableId = TableId::AssemblyRefProcessor;

    open spec fn id() -> TableId {
        TableId::AssemblyRefProcessor
    }

    proof fn lemma_id() {
    }
}

/// `AssemblyRefOS` (II.22.6), ignored by the runtime.
#[derive(Clone, Copy, PartialEq, Eq, PartialOrd, Ord, Hash, Debug)]
pub struct AssemblyRefOs;

impl Table for AssemblyRefOs {
    const ID: TableId = TableId::AssemblyRefOs;

    open spec fn id() -> TableId {
        TableId::AssemblyRefOs
    }

    proof fn lemma_id() {
    }
}

/// `File` (II.22.19).
#[derive(Clone, Copy, PartialEq, Eq, PartialOrd, Ord, Hash, Debug)]
pub struct File;

impl Table for File {
    const ID: TableId = TableId::File;

    open spec fn id() -> TableId {
        TableId::File
    }

    proof fn lemma_id() {
    }
}

/// `ExportedType` (II.22.14).
#[derive(Clone, Copy, PartialEq, Eq, PartialOrd, Ord, Hash, Debug)]
pub struct ExportedType;

impl Table for ExportedType {
    const ID: TableId = TableId::ExportedType;

    open spec fn id() -> TableId {
        TableId::ExportedType
    }

    proof fn lemma_id() {
    }
}

/// `ManifestResource` (II.22.24).
#[derive(Clone, Copy, PartialEq, Eq, PartialOrd, Ord, Hash, Debug)]
pub struct ManifestResource;

impl Table for ManifestResource {
    const ID: TableId = TableId::ManifestResource;

    open spec fn id() -> TableId {
        TableId::ManifestResource
    }

    proof fn lemma_id() {
    }
}

/// `NestedClass` (II.22.32).
#[derive(Clone, Copy, PartialEq, Eq, PartialOrd, Ord, Hash, Debug)]
pub struct NestedClass;

impl Table for NestedClass {
    const ID: TableId = TableId::NestedClass;

    open spec fn id() -> TableId {
        TableId::NestedClass
    }

    proof fn lemma_id() {
    }
}

/// `GenericParam` (II.22.20).
#[derive(Clone, Copy, PartialEq, Eq, PartialOrd, Ord, Hash, Debug)]
pub struct GenericParam;

impl Table for GenericParam {
    const ID: TableId = TableId::GenericParam;

    open spec fn id() -> TableId {
        TableId::GenericParam
    }

    proof fn lemma_id() {
    }
}

/// `MethodSpec` (II.22.29).
#[derive(Clone, Copy, PartialEq, Eq, PartialOrd, Ord, Hash, Debug)]
pub struct MethodSpec;

impl Table for MethodSpec {
    const ID: TableId = TableId::MethodSpec;

    open spec fn id() -> TableId {
        TableId::MethodSpec
    }

    proof fn lemma_id() {
    }
}

/// `GenericParamConstraint` (II.22.21).
#[derive(Clone, Copy, PartialEq, Eq, PartialOrd, Ord, Hash, Debug)]
pub struct GenericParamConstraint;

impl Table for GenericParamConstraint {
    const ID: TableId = TableId::GenericParamConstraint;

    open spec fn id() -> TableId {
        TableId::GenericParamConstraint
    }

    proof fn lemma_id() {
    }
}

/// Portable PDB `Document`.
#[derive(Clone, Copy, PartialEq, Eq, PartialOrd, Ord, Hash, Debug)]
pub struct Document;

impl Table for Document {
    const ID: TableId = TableId::Document;

    open spec fn id() -> TableId {
        TableId::Document
    }

    proof fn lemma_id() {
    }
}

/// Portable PDB `MethodDebugInformation`.
#[derive(Clone, Copy, PartialEq, Eq, PartialOrd, Ord, Hash, Debug)]
pub struct MethodDebugInformation;

impl Table for MethodDebugInformation {
    const ID: TableId = TableId::MethodDebugInformation;

    open spec fn id() -> TableId {
        TableId::MethodDebugInformation
    }

    proof fn lemma_id() {
    }
}

/// Portable PDB `LocalScope`.
#[derive(Clone, Copy, PartialEq, Eq, PartialOrd, Ord, Hash, Debug)]
pub struct LocalScope;

impl Table for LocalScope {
    const ID: TableId = TableId::LocalScope;

    open spec fn id() -> TableId {
        TableId::LocalScope
    }

    proof fn lemma_id() {
    }
}

/// Portable PDB `LocalVariable`.
#[derive(Clone, Copy, PartialEq, Eq, PartialOrd, Ord, Hash, Debug)]
pub struct LocalVariable;

impl Table for LocalVariable {
    const ID: TableId = TableId::LocalVariable;

    open spec fn id() -> TableId {
        TableId::LocalVariable
    }

    proof fn lemma_id() {
    }
}

/// Portable PDB `LocalConstant`.
#[derive(Clone, Copy, PartialEq, Eq, PartialOrd, Ord, Hash, Debug)]
pub struct LocalConstant;

impl Table for LocalConstant {
    const ID: TableId = TableId::LocalConstant;

    open spec fn id() -> TableId {
        TableId::LocalConstant
    }

    proof fn lemma_id() {
    }
}

/// Portable PDB `ImportScope`.
#[derive(Clone, Copy, PartialEq, Eq, PartialOrd, Ord, Hash, Debug)]
pub struct ImportScope;

impl Table for ImportScope {
    const ID: TableId = TableId::ImportScope;

    open spec fn id() -> TableId {
        TableId::ImportScope
    }

    proof fn lemma_id() {
    }
}

/// Portable PDB `StateMachineMethod`.
#[derive(Clone, Copy, PartialEq, Eq, PartialOrd, Ord, Hash, Debug)]
pub struct StateMachineMethod;

impl Table for StateMachineMethod {
    const ID: TableId = TableId::StateMachineMethod;

    open spec fn id() -> TableId {
        TableId::StateMachineMethod
    }

    proof fn lemma_id() {
    }
}

/// Portable PDB `CustomDebugInformation`.
#[derive(Clone, Copy, PartialEq, Eq, PartialOrd, Ord, Hash, Debug)]
pub struct CustomDebugInformation;

impl Table for CustomDebugInformation {
    const ID: TableId = TableId::CustomDebugInformation;

    open spec fn id() -> TableId {
        TableId::CustomDebugInformation
    }

    proof fn lemma_id() {
    }
}

} // verus!
