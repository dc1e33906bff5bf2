//! Coded index kinds (II.24.2.6).
//!
//! A coded index packs a small table tag into the low bits of a column and the
//! RID into the remaining bits. The number of tag bits is fixed per kind; the
//! column is 2 bytes when the largest tagged table has fewer than
//! `2^(16 - tag bits)` rows, and 4 bytes otherwise.
use vstd::prelude::*;

use crate::error::{Error, ErrorKind, Result};
use crate::token;
use crate::token::{TableId, Token};

verus! {

/// The kinds of coded index used by metadata columns.
#[derive(Clone, Copy, PartialEq, Eq, PartialOrd, Ord, Hash, Debug, Structural)]
#[non_exhaustive]
pub enum CodedIndex {
    /// `TypeDefOrRef`.
    TypeDefOrRef,
    /// `HasConstant`.
    HasConstant,
    /// `HasCustomAttribute`.
    HasCustomAttribute,
    /// `HasFieldMarshal`.
    HasFieldMarshal,
    /// `HasDeclSecurity`.
    HasDeclSecurity,
    /// `MemberRefParent`.
    MemberRefParent,
    /// `HasSemantics`.
    HasSemantics,
    /// `MethodDefOrRef`.
    MethodDefOrRef,
    /// `MemberForwarded`.
    MemberForwarded,
    /// `Implementation`.
    Implementation,
    /// `CustomAttributeType`. Tags 0, 1 and 4 are not defined.
    CustomAttributeType,
    /// `ResolutionScope`.
    ResolutionScope,
    /// `TypeOrMethodDef`.
    TypeOrMethodDef,
    /// `HasCustomDebugInformation`, a Portable PDB kind.
    HasCustomDebugInformation,
}

impl CodedIndex {
    /// Every coded index kind.
    pub const ALL: [CodedIndex; 14] = [
        CodedIndex::TypeDefOrRef,
        CodedIndex::HasConstant,
        CodedIndex::HasCustomAttribute,
        CodedIndex::HasFieldMarshal,
        CodedIndex::HasDeclSecurity,
        CodedIndex::MemberRefParent,
        CodedIndex::HasSemantics,
        CodedIndex::MethodDefOrRef,
        CodedIndex::MemberForwarded,
        CodedIndex::Implementation,
        CodedIndex::CustomAttributeType,
        CodedIndex::ResolutionScope,
        CodedIndex::TypeOrMethodDef,
        CodedIndex::HasCustomDebugInformation,
    ];

    /// The number of tag bits.
    pub open spec fn bits(self) -> u8 {
        match self {
            CodedIndex::TypeDefOrRef => 2,
            CodedIndex::HasConstant => 2,
            CodedIndex::HasCustomAttribute => 5,
            CodedIndex::HasFieldMarshal => 1,
            CodedIndex::HasDeclSecurity => 2,
            CodedIndex::MemberRefParent => 3,
            CodedIndex::HasSemantics => 1,
            CodedIndex::MethodDefOrRef => 1,
            CodedIndex::MemberForwarded => 1,
            CodedIndex::Implementation => 2,
            CodedIndex::CustomAttributeType => 3,
            CodedIndex::ResolutionScope => 2,
            CodedIndex::TypeOrMethodDef => 1,
            CodedIndex::HasCustomDebugInformation => 5,
        }
    }

    /// How many tags the tag bits can tell apart.
    pub open spec fn tags(self) -> u32 {
        if self.bits() == 1 {
            2
        } else if self.bits() == 2 {
            4
        } else if self.bits() == 3 {
            8
        } else {
            32
        }
    }

    /// The table selected by each tag value, in tag order.
    pub open spec fn table_list(self) -> Seq<Option<TableId>> {
        match self {
            CodedIndex::TypeDefOrRef => seq![
                Some(TableId::TypeDef),
                Some(TableId::TypeRef),
                Some(TableId::TypeSpec),
            ],
            CodedIndex::HasConstant => seq![
                Some(TableId::Field),
                Some(TableId::Param),
                Some(TableId::Property),
            ],
            CodedIndex::HasCustomAttribute => seq![
                Some(TableId::MethodDef),
                Some(TableId::Field),
                Some(TableId::TypeRef),
                Some(TableId::TypeDef),
                Some(TableId::Param),
                Some(TableId::InterfaceImpl),
                Some(TableId::MemberRef),
                Some(TableId::Module),
                Some(TableId::DeclSecurity),
                Some(TableId::Property),
                Some(TableId::Event),
                Some(TableId::StandAloneSig),
                Some(TableId::ModuleRef),
                Some(TableId::TypeSpec),
                Some(TableId::Assembly),
                Some(TableId::AssemblyRef),
                Some(TableId::File),
                Some(TableId::ExportedType),
                Some(TableId::ManifestResource),
                Some(TableId::GenericParam),
                Some(TableId::GenericParamConstraint),
                Some(TableId::MethodSpec),
            ],
            CodedIndex::HasFieldMarshal => seq![Some(TableId::Field), Some(TableId::Param)],
            CodedIndex::HasDeclSecurity => seq![
                Some(TableId::TypeDef),
                Some(TableId::MethodDef),
                Some(TableId::Assembly),
            ],
            CodedIndex::MemberRefParent => seq![
                Some(TableId::TypeDef),
                Some(TableId::TypeRef),
                Some(TableId::ModuleRef),
                Some(TableId::MethodDef),
                Some(TableId::TypeSpec),
            ],
            CodedIndex::HasSemantics => seq![Some(TableId::Event), Some(TableId::Property)],
            CodedIndex::MethodDefOrRef => seq![Some(TableId::MethodDef), Some(TableId::MemberRef)],
            CodedIndex::MemberForwarded => seq![Some(TableId::Field), Some(TableId::MethodDef)],
            CodedIndex::Implementation => seq![
                Some(TableId::File),
                Some(TableId::AssemblyRef),
                Some(TableId::ExportedType),
            ],
            CodedIndex::CustomAttributeType => seq![
                None,
                None,
                Some(TableId::MethodDef),
                Some(TableId::MemberRef),
                None,
            ],
            CodedIndex::ResolutionScope => seq![
                Some(TableId::Module),
                Some(TableId::ModuleRef),
                Some(TableId::AssemblyRef),
                Some(TableId::TypeRef),
            ],
            CodedIndex::TypeOrMethodDef => seq![Some(TableId::TypeDef), Some(TableId::MethodDef)],
            CodedIndex::HasCustomDebugInformation => seq![
                Some(TableId::MethodDef),
                Some(TableId::Field),
                Some(TableId::TypeRef),
                Some(TableId::TypeDef),
                Some(TableId::Param),
                Some(TableId::InterfaceImpl),
                Some(TableId::MemberRef),
                Some(TableId::Module),
                Some(TableId::DeclSecurity),
                Some(TableId::Property),
                Some(TableId::Event),
                Some(TableId::StandAloneSig),
                Some(TableId::ModuleRef),
                Some(TableId::TypeSpec),
                Some(TableId::Assembly),
                Some(TableId::AssemblyRef),
                Some(TableId::File),
                Some(TableId::ExportedType),
                Some(TableId::ManifestResource),
                Some(TableId::GenericParam),
                Some(TableId::GenericParamConstraint),
                Some(TableId::MethodSpec),
                Some(TableId::Document),
                Some(TableId::LocalScope),
                Some(TableId::LocalVariable),
                Some(TableId::LocalConstant),
                Some(TableId::ImportScope),
            ],
        }
    }

    /// The kind name.
    pub open spec fn title(self) -> &'static str {
        match self {
            CodedIndex::TypeDefOrRef => "TypeDefOrRef",
            CodedIndex::HasConstant => "HasConstant",
            CodedIndex::HasCustomAttribute => "HasCustomAttribute",
            CodedIndex::HasFieldMarshal => "HasFieldMarshal",
            CodedIndex::HasDeclSecurity => "HasDeclSecurity",
            CodedIndex::MemberRefParent => "MemberRefParent",
            CodedIndex::HasSemantics => "HasSemantics",
            CodedIndex::MethodDefOrRef => "MethodDefOrRef",
            CodedIndex::MemberForwarded => "MemberForwarded",
            CodedIndex::Implementation => "Implementation",
            CodedIndex::CustomAttributeType => "CustomAttributeType",
            CodedIndex::ResolutionScope => "ResolutionScope",
            CodedIndex::TypeOrMethodDef => "TypeOrMethodDef",
            CodedIndex::HasCustomDebugInformation => "HasCustomDebugInformation",
        }
    }

    /// The number of tag bits in the low end of the column.
    pub fn tag_bits(self) -> (bits: u8)
        ensures
            bits == self.bits(),
    {
        match self {
            CodedIndex::TypeDefOrRef => 2,
            CodedIndex::HasConstant => 2,
            CodedIndex::HasCustomAttribute => 5,
            CodedIndex::HasFieldMarshal => 1,
            CodedIndex::HasDeclSecurity => 2,
            CodedIndex::MemberRefParent => 3,
            CodedIndex::HasSemantics => 1,
            CodedIndex::MethodDefOrRef => 1,
            CodedIndex::MemberForwarded => 1,
            CodedIndex::Implementation => 2,
            CodedIndex::CustomAttributeType => 3,
            CodedIndex::ResolutionScope => 2,
            CodedIndex::TypeOrMethodDef => 1,
            CodedIndex::HasCustomDebugInformation => 5,
        }
    }

    /// The table selected by each tag value, in tag order. `None` marks a tag
    /// that has no table.
    pub fn tables(self) -> (list: &'static [Option<TableId>])
        ensures
            list@ == self.table_list(),
    {
        match self {
            CodedIndex::TypeDefOrRef => &[
                Some(TableId::TypeDef),
                Some(TableId::TypeRef),
                Some(TableId::TypeSpec),
            ],
            CodedIndex::HasConstant => &[Some(TableId::Field), Some(TableId::Param), Some(TableId::Property)],
            CodedIndex::HasCustomAttribute => &[
                Some(TableId::MethodDef),
                Some(TableId::Field),
                Some(TableId::TypeRef),
                Some(TableId::TypeDef),
                Some(TableId::Param),
                Some(TableId::InterfaceImpl),
                Some(TableId::MemberRef),
                Some(TableId::Module),
                Some(TableId::DeclSecurity),
                Some(TableId::Property),
                Some(TableId::Event),
                Some(TableId::StandAloneSig),
                Some(TableId::ModuleRef),
                Some(TableId::TypeSpec),
                Some(TableId::Assembly),
                Some(TableId::AssemblyRef),
                Some(TableId::File),
                Some(TableId::ExportedType),
                Some(TableId::ManifestResource),
                Some(TableId::GenericParam),
                Some(TableId::GenericParamConstraint),
                Some(TableId::MethodSpec),
            ],
            CodedIndex::HasFieldMarshal => &[Some(TableId::Field), Some(TableId::Param)],
            CodedIndex::HasDeclSecurity => &[
                Some(TableId::TypeDef),
                Some(TableId::MethodDef),
                Some(TableId::Assembly),
            ],
            CodedIndex::MemberRefParent => &[
                Some(TableId::TypeDef),
                Some(TableId::TypeRef),
                Some(TableId::ModuleRef),
                Some(TableId::MethodDef),
                Some(TableId::TypeSpec),
            ],
            CodedIndex::HasSemantics => &[Some(TableId::Event), Some(TableId::Property)],
            CodedIndex::MethodDefOrRef => &[Some(TableId::MethodDef), Some(TableId::MemberRef)],
            CodedIndex::MemberForwarded => &[Some(TableId::Field), Some(TableId::MethodDef)],
            CodedIndex::Implementation => &[
                Some(TableId::File),
                Some(TableId::AssemblyRef),
                Some(TableId::ExportedType),
            ],
            CodedIndex::CustomAttributeType => &[
                None,
                None,
                Some(TableId::MethodDef),
                Some(TableId::MemberRef),
                None,
            ],
            CodedIndex::ResolutionScope => &[
                Some(TableId::Module),
                Some(TableId::ModuleRef),
                Some(TableId::AssemblyRef),
                Some(TableId::TypeRef),
            ],
            CodedIndex::TypeOrMethodDef => &[Some(TableId::TypeDef), Some(TableId::MethodDef)],
            CodedIndex::HasCustomDebugInformation => &[
                Some(TableId::MethodDef),
                Some(TableId::Field),
                Some(TableId::TypeRef),
                Some(TableId::TypeDef),
                Some(TableId::Param),
                Some(TableId::InterfaceImpl),
                Some(TableId::MemberRef),
                Some(TableId::Module),
                Some(TableId::DeclSecurity),
                Some(TableId::Property),
                Some(TableId::Event),
                Some(TableId::StandAloneSig),
                Some(TableId::ModuleRef),
                Some(TableId::TypeSpec),
                Some(TableId::Assembly),
                Some(TableId::AssemblyRef),
                Some(TableId::File),
                Some(TableId::ExportedType),
                Some(TableId::ManifestResource),
                Some(TableId::GenericParam),
                Some(TableId::GenericParamConstraint),
                Some(TableId::MethodSpec),
                Some(TableId::Document),
                Some(TableId::LocalScope),
                Some(TableId::LocalVariable),
                Some(TableId::LocalConstant),
                Some(TableId::ImportScope),
            ],
        }
    }

    /// The kind name.
    pub fn name(self) -> (name: &'static str)
        ensures
            name == self.title(),
    {
        match self {
            CodedIndex::TypeDefOrRef => "TypeDefOrRef",
            CodedIndex::HasConstant => "HasConstant",
            CodedIndex::HasCustomAttribute => "HasCustomAttribute",
            CodedIndex::HasFieldMarshal => "HasFieldMarshal",
            CodedIndex::HasDeclSecurity => "HasDeclSecurity",
            CodedIndex::MemberRefParent => "MemberRefParent",
            CodedIndex::HasSemantics => "HasSemantics",
            CodedIndex::MethodDefOrRef => "MethodDefOrRef",
            CodedIndex::MemberForwarded => "MemberForwarded",
            CodedIndex::Implementation => "Implementation",
            CodedIndex::CustomAttributeType => "CustomAttributeType",
            CodedIndex::ResolutionScope => "ResolutionScope",
            CodedIndex::TypeOrMethodDef => "TypeOrMethodDef",
            CodedIndex::HasCustomDebugInformation => "HasCustomDebugInformation",
        }
    }

    fn tag_count(self) -> (tags: u32)
        ensures
            tags == self.tags(),
    {
        match self.tag_bits() {
            1 => 2,
            2 => 4,
            3 => 8,
            _ => 32,
        }
    }

    /// The mask that isolates the tag bits.
    pub fn tag_mask(self) -> (mask: u32)
        ensures
            mask == self.tags() - 1,
    {
        self.tag_count() - 1
    }

    /// The row count from which the column takes 4 bytes.
    pub open spec fn row_limit(self) -> u32 {
        0x1_0000u32 / self.tags()
    }

    /// The row count from which the 2-byte form of this column is too small.
    ///
    /// The column is 2 bytes exactly when every tagged table has fewer rows
    /// than this.
    pub fn small_row_limit(self) -> (limit: u32)
        ensures
            limit == self.row_limit(),
    {
        0x1_0000 / self.tag_count()
    }

    /// The column width in bytes given the largest tagged table row count.
    pub open spec fn width_for(self, max_rows: u32) -> u8 {
        if max_rows < self.row_limit() {
            2
        } else {
            4
        }
    }

    /// The column width in bytes given the largest tagged table row count.
    pub fn column_width(self, max_rows: u32) -> (width: u8)
        ensures
            width == self.width_for(max_rows),
    {
        if max_rows < self.small_row_limit() {
            2
        } else {
            4
        }
    }

    /// The table that the tag of `value` selects.
    pub open spec fn table_of(self, value: u32) -> Option<TableId> {
        let tag = value as int % self.tags() as int;
        if tag < self.table_list().len() {
            self.table_list()[tag]
        } else {
            None
        }
    }

    /// The token that the raw column value `value` stands for; `offset` is
    /// where the column is.
    pub open spec fn decoded(self, value: u32, offset: usize) -> Result<Token> {
        match self.table_of(value) {
            Some(table) => Ok(Token::of(table, value / self.tags())),
            None => Err(Error::at(ErrorKind::Malformed, offset, "coded index")),
        }
    }

    /// Decodes a raw column value into a token.
    ///
    /// Fails with [`ErrorKind::Malformed`] when the tag has no table, which is
    /// how an undefined `CustomAttributeType` tag is reported.
    pub fn decode(self, value: u32, offset: usize) -> (r: Result<Token>)
        ensures
            r == self.decoded(value, offset),
    {
        let tags: u32 = self.tag_count();
        let tag: usize = (value % tags) as usize;
        let rid: u32 = value / tags;
        let list = self.tables();
        if tag < list.len() {
            if let Some(table) = list[tag] {
                return Ok(Token::new(table, rid));
            }
        }
        Err(Error::new(ErrorKind::Malformed, offset, "coded index"))
    }

    /// The first tag at or after `from` that selects `table`.
    pub open spec fn tag_from(self, table: TableId, from: int) -> Option<int>
        decreases self.table_list().len() - from,
    {
        if from >= self.table_list().len() {
            None
        } else if self.table_list()[from] == Some(table) {
            Some(from)
        } else {
            self.tag_from(table, from + 1)
        }
    }

    /// The raw column value that stands for `token`.
    pub open spec fn encoded(self, token: Token) -> Option<u32> {
        match TableId::of_number(token.high()) {
            None => None,
            Some(table) => match self.tag_from(table, 0) {
                None => None,
                Some(tag) => Some((token.row() * self.tags() + tag) as u32),
            },
        }
    }

    /// Encodes a token into a raw column value, or `None` when this kind
    /// cannot represent the token table.
    pub fn encode(self, token: Token) -> (value: Option<u32>)
        ensures
            value == self.encoded(token),
    {
        let table: TableId = match token.table() {
            Some(table) => table,
            None => {
                return None;
            },
        };
        let list = self.tables();
        let mut tag: usize = 0;
        while tag < list.len()
            invariant
                tag <= list.len(),
                list@ == self.table_list(),
                Some(table) == TableId::of_number(token.high()),
                self.tag_from(table, tag as int) == self.tag_from(table, 0),
            decreases list.len() - tag,
        {
            if let Some(t) = list[tag] {
                if t == table {
                    proof {
                        lemma_tags_cover(self);
                    }
                    let tags: u32 = self.tag_count();
                    let rid: u32 = token.rid();
                    assert(rid * tags <= 0xFF_FFFF * 32) by (nonlinear_arith)
                        requires
                            rid <= 0xFF_FFFF,
                            tags <= 32,
                    ;
                    return Some(rid * tags + tag as u32);
                }
            }
            tag = tag + 1;
        }
        None
    }
}

/// The tag bits of a kind tell all its tables apart, and one bit fewer would
/// not.
pub proof fn lemma_tags_cover(kind: CodedIndex)
    ensures
        kind.tags() / 2 < kind.table_list().len() <= kind.tags(),
        1 <= kind.bits() <= 5,
{
}

/// No table has two tags.
pub proof fn lemma_tags_distinct(kind: CodedIndex, i: int, j: int)
    requires
        0 <= i < j < kind.table_list().len(),
        kind.table_list()[j] is Some,
    ensures
        kind.table_list()[i] != kind.table_list()[j],
{
}

/// `tag_from` finds the tag of a table where there is one.
proof fn lemma_tag_found(kind: CodedIndex, table: TableId, from: int, at: int)
    requires
        0 <= from <= at < kind.table_list().len(),
        kind.table_list()[at] == Some(table),
    ensures
        kind.tag_from(table, from) == Some(at),
    decreases at - from,
{
    if from < at {
        lemma_tags_distinct(kind, from, at);
        lemma_tag_found(kind, table, from + 1, at);
    }
}

/// What `tag_from` finds is a tag of the table.
proof fn lemma_tag_sound(kind: CodedIndex, table: TableId, from: int)
    requires
        0 <= from,
    ensures
        kind.tag_from(table, from) matches Some(tag) ==> from <= tag < kind.table_list().len()
            && kind.table_list()[tag] == Some(table),
    decreases kind.table_list().len() - from,
{
    if from < kind.table_list().len() {
        lemma_tag_sound(kind, table, from + 1);
    }
}

/// A coded index whose RID fits the 24 bits of a token survives decoding and
/// re-encoding.
///
/// Wider RIDs are left out: a token cuts them to 24 bits.
pub proof fn lemma_decode_then_encode(kind: CodedIndex, value: u32, offset: usize)
    requires
        value as int / kind.tags() as int <= Token::RID_MASK,
    ensures
        kind.decoded(value, offset) matches Ok(token) ==> kind.encoded(token) == Some(value),
{
    if let Some(table) = kind.table_of(value) {
        let tags = kind.tags() as int;
        let tag = value as int % tags;
        let rid = value / kind.tags();
        token::lemma_token_round_trip(table, rid);
        lemma_tags_cover(kind);
        lemma_tag_found(kind, table, 0, tag);
        assert(value == rid * tags + tag) by {
            vstd::arithmetic::div_mod::lemma_fundamental_div_mod(value as int, tags);
            assert(rid * tags == tags * rid) by (nonlinear_arith);
        }
    }
}

/// A token that a kind can represent survives encoding and decoding.
pub proof fn lemma_encode_then_decode(kind: CodedIndex, t: Token, offset: usize)
    ensures
        kind.encoded(t) matches Some(value) ==> kind.decoded(value, offset) == Ok::<Token, Error>(t),
{
    if let Some(table) = TableId::of_number(t.high()) {
        if let Some(tag) = kind.tag_from(table, 0) {
            let tags = kind.tags() as int;
            lemma_tag_sound(kind, table, 0);
            lemma_tags_cover(kind);
            token::lemma_token_rebuilt(t);
            let value = t.row() * tags + tag;
            assert(t.row() * tags <= 0xFF_FFFF * 32) by (nonlinear_arith)
                requires
                    t.row() <= 0xFF_FFFF,
                    0 < tags <= 32,
            ;
            vstd::arithmetic::div_mod::lemma_fundamental_div_mod_converse(
                value,
                tags,
                t.row() as int,
                tag,
            );
        }
    }
}

/// A column is 2 bytes wide below the row limit of its kind and 4 bytes from
/// there on; below the limit every RID fits the 2-byte form with its tag.
pub proof fn lemma_width_boundary(kind: CodedIndex, rows: u32, tag: int)
    requires
        0 <= tag < kind.tags(),
    ensures
        kind.width_for((kind.row_limit() - 1) as u32) == 2,
        kind.width_for(kind.row_limit()) == 4,
        kind.width_for(rows) == 2 ==> rows * kind.tags() + tag < 0x1_0000,
{
    let tags = kind.tags() as int;
    if kind.width_for(rows) == 2 {
        assert(rows * tags + tag < 0x1_0000) by (nonlinear_arith)
            requires
                tags == 2 || tags == 4 || tags == 8 || tags == 32,
                rows < 0x1_0000int / tags,
                tag < tags,
        ;
    }
}

} // verus!
