//! Table rows written out as bytes, and the laws that tie what is written to
//! what is read.

use vstd::prelude::*;

use crate::error::Error;
use crate::reader;
use crate::tables::coded::CodedIndex;
use crate::tables::rows;
use crate::tables::rows::{
    AssemblyOsRow, AssemblyProcessorRow, AssemblyRefOsRow, AssemblyRefProcessorRow,
    AssemblyRefRow, AssemblyRow, ClassLayoutRow, ConstantRow, CustomAttributeRow,
    CustomDebugInformationRow, DeclSecurityRow, DocumentRow, EncLogRow, EncMapRow,
    EventMapRow, EventPtrRow, EventRow, ExportedTypeRow, FieldLayoutRow, FieldMarshalRow,
    FieldPtrRow, FieldRow, FieldRvaRow, FileRow, GenericParamConstraintRow, GenericParamRow,
    ImplMapRow, ImportScopeRow, InterfaceImplRow, LocalConstantRow, LocalScopeRow,
    LocalVariableRow, ManifestResourceRow, MemberRefRow, MethodDebugInformationRow,
    MethodDefRow, MethodImplRow, MethodPtrRow, MethodSemanticsRow, MethodSpecRow,
    ModuleRefRow, ModuleRow, NestedClassRow, ParamPtrRow, ParamRow, PropertyMapRow,
    PropertyPtrRow, PropertyRow, StandAloneSigRow, StateMachineMethodRow, TypeDefRow,
    TypeRefRow, TypeSpecRow,
};
use crate::tables::{
    ColumnKind, LayoutModel, RowModel, TableRow, TableStream, TablesModel, Widths,
};
use crate::token;
use crate::token::{TableId, Token};

verus! {

/// How many rows the stream declares for the table numbered `n`.
pub open spec fn declared(s: TableStream, n: int) -> u32 {
    s.widths().counts[n]
}

/// True when an index into the `#Strings` heap takes four bytes.
#[verifier::opaque]
pub open spec fn wide_strings(s: TableStream) -> bool {
    s.data[6] % 2 == 1
}

/// True when an index into the `#GUID` heap takes four bytes.
#[verifier::opaque]
pub open spec fn wide_guids(s: TableStream) -> bool {
    s.data[6] / 2 % 2 == 1
}

/// True when an index into the `#Blob` heap takes four bytes.
#[verifier::opaque]
pub open spec fn wide_blobs(s: TableStream) -> bool {
    s.data[6] / 4 % 2 == 1
}

/// True when an index into the table numbered `n` takes four bytes: it, or the
/// table of pointers that stands before it, has 2^16 rows or more. Only fields,
/// methods, parameters, events and properties have such a table.
#[verifier::opaque]
pub open spec fn wide_rows(s: TableStream, n: int) -> bool {
    ||| declared(s, n) >= 0x1_0000
    ||| (n == 0x04 || n == 0x06 || n == 0x08 || n == 0x14 || n == 0x17) && declared(s, n - 1)
        >= 0x1_0000
}

/// The tables that the tags of a coded index stand for, by number and in the
/// order of the tags (II.24.2.6); 0xFF for a tag without one.
#[verifier::opaque]
pub open spec fn tag_tables(kind: CodedIndex) -> Seq<u8> {
    match kind {
        CodedIndex::TypeDefOrRef => seq![0x02u8, 0x01, 0x1B],
        CodedIndex::HasConstant => seq![0x04u8, 0x08, 0x17],
        CodedIndex::HasCustomAttribute => seq![
            0x06u8, 0x04, 0x01, 0x02, 0x08, 0x09, 0x0A, 0x00, 0x0E, 0x17, 0x14, 0x11,
            0x1A, 0x1B, 0x20, 0x23, 0x26, 0x27, 0x28, 0x2A, 0x2C, 0x2B,
        ],
        CodedIndex::HasFieldMarshal => seq![0x04u8, 0x08],
        CodedIndex::HasDeclSecurity => seq![0x02u8, 0x06, 0x20],
        CodedIndex::MemberRefParent => seq![0x02u8, 0x01, 0x1A, 0x06, 0x1B],
        CodedIndex::HasSemantics => seq![0x14u8, 0x17],
        CodedIndex::MethodDefOrRef => seq![0x06u8, 0x0A],
        CodedIndex::MemberForwarded => seq![0x04u8, 0x06],
        CodedIndex::Implementation => seq![0x26u8, 0x23, 0x27],
        CodedIndex::CustomAttributeType => seq![0xFFu8, 0xFF, 0x06, 0x0A, 0xFF],
        CodedIndex::ResolutionScope => seq![0x00u8, 0x1A, 0x23, 0x01],
        CodedIndex::TypeOrMethodDef => seq![0x02u8, 0x06],
        CodedIndex::HasCustomDebugInformation => seq![
            0x06u8, 0x04, 0x01, 0x02, 0x08, 0x09, 0x0A, 0x00, 0x0E, 0x17, 0x14, 0x11,
            0x1A, 0x1B, 0x20, 0x23, 0x26, 0x27, 0x28, 0x2A, 0x2C, 0x2B, 0x30, 0x32,
            0x33, 0x34, 0x35,
        ],
    }
}

/// How many values the tag bits of a coded index have.
#[verifier::opaque]
pub open spec fn tag_values(kind: CodedIndex) -> int {
    match kind {
        CodedIndex::HasFieldMarshal
        | CodedIndex::HasSemantics
        | CodedIndex::MethodDefOrRef
        | CodedIndex::MemberForwarded
        | CodedIndex::TypeOrMethodDef => 2,
        CodedIndex::MemberRefParent
        | CodedIndex::CustomAttributeType => 8,
        CodedIndex::HasCustomAttribute
        | CodedIndex::HasCustomDebugInformation => 32,
        _ => 4,
    }
}

/// True when a coded index takes four bytes: what the tag leaves of two bytes is
/// too small for the rows of one of its tables.
#[verifier::opaque]
pub open spec fn wide_coded(s: TableStream, kind: CodedIndex) -> bool {
    exists|tag: int|
        0 <= tag < tag_tables(kind).len() && tag_tables(kind)[tag] != 0xFF && declared(
            s,
            #[trigger] tag_tables(kind)[tag] as int,
        ) * tag_values(kind) >= 0x1_0000
}

/// True when a coded index of the kind can name `t`.
#[verifier::opaque]
pub open spec fn codable(kind: CodedIndex, t: Token) -> bool {
    let table = (t.0 / 0x100_0000) as u8;
    table != 0xFF && tag_tables(kind).contains(table)
}

/// The coded index that names `t`: the row, and below it the tag of the table.
#[verifier::opaque]
pub open spec fn coded_number(kind: CodedIndex, t: Token) -> u32 {
    let table = (t.0 / 0x100_0000) as u8;
    ((t.0 as int % 0x100_0000) * tag_values(kind) + tag_tables(kind).index_of(table)) as u32
}

/// An index in two or four bytes.
#[verifier::opaque]
pub open spec fn index_bytes(n: u32, wide: bool) -> Seq<u8> {
    if wide {
        reader::written32(n)
    } else {
        reader::written16(n as u16)
    }
}

/// True when an index fits.
pub open spec fn index_fits(n: u32, wide: bool) -> bool {
    wide || n < 0x1_0000
}

/// True when row `rid` of `table` of the parsed stream consists of `bytes`.
#[verifier::opaque]
pub open spec fn row_is(
    s: TableStream,
    m: TablesModel,
    table: TableId,
    rid: u32,
    bytes: Seq<u8>,
) -> bool {
    &&& s.data.len() <= usize::MAX
    &&& s.parsed() == Ok::<TablesModel, Error>(m)
    &&& m.has_row(table, rid)
    &&& reader::lies_at(s.data, m.layout(table).row_start(rid), bytes)
}

/// The kinds of coded index have the tables and the tags that are listed.
pub proof fn lemma_tag_tables(kind: CodedIndex)
    ensures
        kind.tags() == tag_values(kind),
        kind.row_limit() * tag_values(kind) == 0x1_0000,
        kind.table_list().len() == tag_tables(kind).len(),
        tag_tables(kind).len() <= tag_values(kind),
        tag_values(kind) == 2 || tag_values(kind) == 4 || tag_values(kind) == 8 || tag_values(kind)
            == 32,
        forall|tag: int|
            0 <= tag < tag_tables(kind).len() ==> match #[trigger] kind.table_list()[tag] {
                Some(table) => table.number() == tag_tables(kind)[tag],
                None => tag_tables(kind)[tag] == 0xFF,
            },
{
    reveal(tag_tables);
    reveal(tag_values);
    assert(kind.tags() == 2 || kind.tags() == 4 || kind.tags() == 8 || kind.tags() == 32);
    assert(kind.tags() == tag_values(kind));
    if kind.tags() == 2 {
        assert(kind.row_limit() == 0x8000);
    } else if kind.tags() == 4 {
        assert(kind.row_limit() == 0x4000);
    } else if kind.tags() == 8 {
        assert(kind.row_limit() == 0x2000);
    } else {
        assert(kind.row_limit() == 0x800);
    }
}

/// A row number and a tag below it are taken apart again.
proof fn lemma_tagged(row: int, values: int, tag: int)
    requires
        values == 2 || values == 4 || values == 8 || values == 32,
        0 <= row < 0x100_0000,
        0 <= tag < values,
    ensures
        0 <= row * values + tag < 0x1_0000_0000,
        (row * values + tag) % values == tag,
        (row * values + tag) / values == row,
{
    if values == 2 {
    } else if values == 4 {
    } else if values == 8 {
    } else {
    }
}

/// The token of a table and a row is the one that holds their numbers.
proof fn lemma_token_parts(t: Token, table: TableId)
    requires
        table.number() == (t.0 / 0x100_0000) as u8,
    ensures
        Token::of(table, (t.0 as int % 0x100_0000) as u32) == t,
{
}

/// A coded index is read as the token that it names.
pub proof fn lemma_coded_reads_back(kind: CodedIndex, t: Token, at: usize)
    requires
        codable(kind, t),
    ensures
        kind.decoded(coded_number(kind, t), at) == Ok::<Token, Error>(t),
        kind.table_of(coded_number(kind, t)) is Some,
{
    reveal(codable);
    reveal(coded_number);
    lemma_tag_tables(kind);
    let number = (t.0 / 0x100_0000) as u8;
    let tag = tag_tables(kind).index_of(number);
    let row = t.0 as int % 0x100_0000;
    let list = kind.table_list();
    assert(0 <= tag < list.len() && tag_tables(kind)[tag] == number);
    lemma_tagged(row, tag_values(kind), tag);
    let value = coded_number(kind, t);
    assert(value as int == row * tag_values(kind) + tag);
    assert(list[tag] is Some);
    let table = list[tag]->0;
    lemma_token_parts(t, table);
    assert(value as int % kind.tags() as int == tag);
    assert(kind.table_of(value) == Some(table));
    assert(value / kind.tags() == row);
}

/// An index into a table has the width that its rows call for.
proof fn lemma_rid_width(s: TableStream, table: TableId)
    ensures
        (format(s).of(ColumnKind::Rid(table)) == 4) == wide_rows(s, table.number() as int),
{
    reveal(format);
    reveal(wide_rows);
}

/// A coded index has the width that the rows of its tables call for.
proof fn lemma_coded_width(s: TableStream, kind: CodedIndex)
    ensures
        (format(s).of(ColumnKind::Coded(kind)) == 4) == wide_coded(s, kind),
{
    reveal(format);
    reveal(wide_coded);
    lemma_tag_tables(kind);
    let w = s.widths();
    let tags = tag_tables(kind);
    let list = kind.table_list();
    let values = tag_values(kind);
    let limit = kind.row_limit() as int;
    assert(values == 2 && limit == 0x8000 || values == 4 && limit == 0x4000 || values == 8
        && limit == 0x2000 || values == 32 && limit == 0x800);
    if wide_coded(s, kind) {
        let tag = choose|tag: int|
            0 <= tag < tags.len() && tags[tag] != 0xFF && declared(
                s,
                #[trigger] tags[tag] as int,
            ) * values >= 0x1_0000;
        assert(list[tag] is Some);
        let table = list[tag]->0;
        assert(w.count(table) == declared(s, tags[tag] as int));
        assert(w.count(table) >= limit);
        assert(!w.small_coded(kind));
    } else {
        assert forall|tag: int| 0 <= tag < list.len() implies ((#[trigger] list[tag]) matches Some(
            table,
        ) ==> w.count(table) < limit) by {
            if let Some(table) = list[tag] {
                assert(tags[tag] == table.number());
                assert(tags[tag] != 0xFF) by {
                    token::lemma_table_numbers(table, 0);
                }
                assert(w.count(table) == declared(s, tags[tag] as int));
            }
        }
        assert(w.small_coded(kind));
    }
}

/// What decides the widths of the columns, taken as a whole.
#[verifier::opaque]
spec fn format(s: TableStream) -> Widths {
    s.widths()
}

/// An index into a heap has the width that the header says.
proof fn lemma_heap_widths(s: TableStream)
    ensures
        (format(s).of(ColumnKind::String) == 4) == wide_strings(s),
        (format(s).of(ColumnKind::Guid) == 4) == wide_guids(s),
        (format(s).of(ColumnKind::Blob) == 4) == wide_blobs(s),
{
    reveal(format);
    reveal(wide_strings);
    reveal(wide_guids);
    reveal(wide_blobs);
}

/// A number of fixed width is written in that width.
proof fn lemma_fixed(w: Widths, a: u16, b: u32)
    ensures
        index_bytes(a as u32, w.of(ColumnKind::U16) == 4) == reader::written16(a),
        index_fits(a as u32, w.of(ColumnKind::U16) == 4),
        index_bytes(b, w.of(ColumnKind::U32) == 4) == reader::written32(b),
        index_fits(b, w.of(ColumnKind::U32) == 4),
{
    reveal(index_bytes);
}

/// The first `n` columns of a row.
#[verifier::opaque]
spec fn cells_bytes(w: Widths, columns: Seq<ColumnKind>, values: Seq<u32>, n: nat) -> Seq<u8>
    decreases n,
{
    if n == 0 {
        seq![]
    } else {
        cells_bytes(w, columns, values, (n - 1) as nat) + index_bytes(
            values[n - 1],
            w.of(columns[n - 1]) == 4,
        )
    }
}

/// One more column is written behind others.
proof fn lemma_cell_written(
    w: Widths,
    columns: Seq<ColumnKind>,
    values: Seq<u32>,
    n: nat,
    front: Seq<u8>,
    cell: Seq<u8>,
)
    requires
        n >= 1,
        cells_bytes(w, columns, values, n) == front,
        index_bytes(values[n as int], w.of(columns[n as int]) == 4) == cell,
    ensures
        cells_bytes(w, columns, values, n + 1) == front + cell,
{
    reveal_with_fuel(cells_bytes, 1);
}

/// The first column is written.
proof fn lemma_first_written(
    w: Widths,
    columns: Seq<ColumnKind>,
    values: Seq<u32>,
    cell: Seq<u8>,
)
    requires
        index_bytes(values[0], w.of(columns[0]) == 4) == cell,
    ensures
        cells_bytes(w, columns, values, 1) == cell,
{
    reveal_with_fuel(cells_bytes, 2);
    assert(Seq::<u8>::empty() + cell =~= cell);
}

/// A row without an error in any of its columns has none at all.
proof fn lemma_no_error(row: RowModel, kinds: Seq<ColumnKind>, i: int)
    requires
        0 <= i <= kinds.len(),
        row.column == 0,
        kinds.len() <= row.cells.len(),
        forall|k: int|
            0 <= k < kinds.len() ==> ((#[trigger] kinds[k]) matches ColumnKind::Coded(kind)
                ==> kind.table_of(row.cells[k]) is Some),
    ensures
        row.first_error(kinds, i) is None,
    decreases kinds.len() - i,
{
    if i < kinds.len() {
        assert(kinds[i] is Coded ==> kinds[i]->Coded_0.table_of(row.cells[i]) is Some);
        lemma_no_error(row, kinds, i + 1);
    }
}

/// The columns of a row read back.
proof fn lemma_cells(
    data: Seq<u8>,
    w: Widths,
    columns: Seq<ColumnKind>,
    l: LayoutModel,
    at: int,
    values: Seq<u32>,
    n: nat,
)
    requires
        l == LayoutModel::of(w, columns, l.row_count, l.data_offset as int),
        n <= columns.len() <= 9,
        values.len() == columns.len(),
        forall|i: int|
            0 <= i < values.len() ==> index_fits(#[trigger] values[i], w.of(columns[i]) == 4),
        reader::lies_at(data, at, cells_bytes(w, columns, values, n)),
    ensures
        cells_bytes(w, columns, values, n).len() == w.sum(columns, n),
        0 <= w.sum(columns, n) <= 4 * n,
        forall|i: int| 0 <= i < n ==> #[trigger] l.cell(data, at, i) == values[i],
    decreases n,
{
    reveal_with_fuel(cells_bytes, 1);
    reveal(index_bytes);
    if n > 0 {
        let front = cells_bytes(w, columns, values, (n - 1) as nat);
        let v = values[n - 1];
        let wide = w.of(columns[n - 1]) == 4;
        reader::lemma_lies_in_parts(data, at, front, index_bytes(v, wide));
        lemma_cells(data, w, columns, l, at, values, (n - 1) as nat);
        if wide {
            reader::lemma_written32_reads_back(data, at + front.len(), v);
        } else {
            reader::lemma_written16_reads_back(data, at + front.len(), v as u16);
        }
        assert(l.offsets[n - 1] == w.sum(columns, (n - 1) as nat));
        assert(l.widths[n - 1] == w.of(columns[n - 1]));
        assert(index_fits(values[n - 1], wide));
    }
}

/// The cells of a written row are what was written.
proof fn lemma_row_cells(s: TableStream, m: TablesModel, table: TableId, rid: u32, values: Seq<u32>)
    requires
        values.len() == rows::columns(table).len(),
        forall|i: int|
            0 <= i < values.len() ==> index_fits(
                #[trigger] values[i],
                format(s).of(rows::columns(table)[i]) == 4,
            ),
        row_is(
            s,
            m,
            table,
            rid,
            cells_bytes(format(s), rows::columns(table), values, values.len()),
        ),
    ensures
        m.has_row(table, rid),
        m.row_model(table, rid).cells == values,
        m.layout(table).row_size == cells_bytes(
            format(s),
            rows::columns(table),
            values,
            values.len(),
        ).len(),
{
    reveal(row_is);
    reveal(format);
    let columns = rows::columns(table);
    let l = m.layout(table);
    rows::lemma_column_counts(table);
    crate::tables::lemma_layout_of(s, table);
    lemma_cells(s.data, s.widths(), columns, l, l.row_start(rid), values, values.len());
    assert(m.row_model(table, rid).cells =~= values) by {
        assert forall|i: int| 0 <= i < values.len() implies #[trigger] m.cell(table, rid, i)
            == values[i] by {
            assert(l.cell(s.data, l.row_start(rid), i) == values[i]);
        }
    }
}


/// A row of `Module` (II.22.30) that is laid out column by column reads back field by
/// field.
pub proof fn lemma_written_module(
    s: TableStream,
    m: TablesModel,
    rid: u32,
    generation: u16,
    name: u32,
    mvid: u32,
    enc_id: u32,
    enc_base_id: u32,
)
    requires
        index_fits(name, wide_strings(s)),
        index_fits(mvid, wide_guids(s)),
        index_fits(enc_id, wide_guids(s)),
        index_fits(enc_base_id, wide_guids(s)),
        row_is(
            s,
            m,
            TableId::Module,
            rid,
            reader::written16(generation)
                + index_bytes(name, wide_strings(s))
                + index_bytes(mvid, wide_guids(s))
                + index_bytes(enc_id, wide_guids(s))
                + index_bytes(enc_base_id, wide_guids(s)),
        ),
    ensures
        m.row::<ModuleRow>(rid) matches Ok(r) && r.generation == generation && r.name.0 == name && r.mvid.0 == mvid && r.enc_id.0 == enc_id && r.enc_base_id.0 == enc_base_id,
        m.layout(TableId::Module).row_size == (reader::written16(generation) + index_bytes(name, wide_strings(s)) + index_bytes(mvid, wide_guids(s)) + index_bytes(enc_id, wide_guids(s)) + index_bytes(enc_base_id, wide_guids(s))).len(),
{
    lemma_heap_widths(s);
    lemma_fixed(format(s), generation, 0);
    let values = seq![generation as u32, name, mvid, enc_id, enc_base_id];
    let table = TableId::Module;
    let w = format(s);
    let columns = rows::columns(table);
    let part1 = reader::written16(generation);
    lemma_first_written(w, columns, values, part1);
    let part2 = part1 + index_bytes(name, wide_strings(s));
    lemma_cell_written(w, columns, values, 1, part1, index_bytes(name, wide_strings(s)));
    let part3 = part2 + index_bytes(mvid, wide_guids(s));
    lemma_cell_written(w, columns, values, 2, part2, index_bytes(mvid, wide_guids(s)));
    let part4 = part3 + index_bytes(enc_id, wide_guids(s));
    lemma_cell_written(w, columns, values, 3, part3, index_bytes(enc_id, wide_guids(s)));
    let part5 = part4 + index_bytes(enc_base_id, wide_guids(s));
    lemma_cell_written(w, columns, values, 4, part4, index_bytes(enc_base_id, wide_guids(s)));
    lemma_row_cells(s, m, table, rid, values);
    lemma_no_error(m.row_model(table, rid), columns, 0);
    assert(ModuleRow::column_list() == columns);
    let row = m.row_model(table, rid);
    assert(row.value(0) == values[0] && row.value(1) == values[1] && row.value(2) == values[2] && row.value(3) == values[3] && row.value(4) == values[4]);
}


/// A row of `TypeRef` (II.22.38) that is laid out column by column reads back field by
/// field.
pub proof fn lemma_written_type_ref(
    s: TableStream,
    m: TablesModel,
    rid: u32,
    resolution_scope: Token,
    name: u32,
    type_namespace: u32,
)
    requires
        codable(CodedIndex::ResolutionScope, resolution_scope),
        index_fits(coded_number(CodedIndex::ResolutionScope, resolution_scope), wide_coded(s, CodedIndex::ResolutionScope)),
        index_fits(name, wide_strings(s)),
        index_fits(type_namespace, wide_strings(s)),
        row_is(
            s,
            m,
            TableId::TypeRef,
            rid,
            index_bytes(coded_number(CodedIndex::ResolutionScope, resolution_scope), wide_coded(s, CodedIndex::ResolutionScope))
                + index_bytes(name, wide_strings(s))
                + index_bytes(type_namespace, wide_strings(s)),
        ),
    ensures
        m.row::<TypeRefRow>(rid) matches Ok(r) && r.resolution_scope == resolution_scope && r.name.0 == name && r.type_namespace.0 == type_namespace,
        m.layout(TableId::TypeRef).row_size == (index_bytes(coded_number(CodedIndex::ResolutionScope, resolution_scope), wide_coded(s, CodedIndex::ResolutionScope)) + index_bytes(name, wide_strings(s)) + index_bytes(type_namespace, wide_strings(s))).len(),
{
    lemma_coded_width(s, CodedIndex::ResolutionScope);
    lemma_coded_reads_back(CodedIndex::ResolutionScope, resolution_scope, 0);
    lemma_heap_widths(s);
    let values = seq![coded_number(CodedIndex::ResolutionScope, resolution_scope), name, type_namespace];
    let table = TableId::TypeRef;
    let w = format(s);
    let columns = rows::columns(table);
    let part1 = index_bytes(coded_number(CodedIndex::ResolutionScope, resolution_scope), wide_coded(s, CodedIndex::ResolutionScope));
    lemma_first_written(w, columns, values, part1);
    let part2 = part1 + index_bytes(name, wide_strings(s));
    lemma_cell_written(w, columns, values, 1, part1, index_bytes(name, wide_strings(s)));
    let part3 = part2 + index_bytes(type_namespace, wide_strings(s));
    lemma_cell_written(w, columns, values, 2, part2, index_bytes(type_namespace, wide_strings(s)));
    lemma_row_cells(s, m, table, rid, values);
    lemma_no_error(m.row_model(table, rid), columns, 0);
    assert(TypeRefRow::column_list() == columns);
    let row = m.row_model(table, rid);
    assert(row.value(0) == values[0] && row.value(1) == values[1] && row.value(2) == values[2]);
}


/// A row of `TypeDef` (II.22.37) that is laid out column by column reads back field by
/// field.
#[verifier::rlimit(40)]
pub proof fn lemma_written_type_def(
    s: TableStream,
    m: TablesModel,
    rid: u32,
    flags: u32,
    name: u32,
    type_namespace: u32,
    extends: Token,
    field_list: u32,
    method_list: u32,
)
    requires
        index_fits(name, wide_strings(s)),
        index_fits(type_namespace, wide_strings(s)),
        codable(CodedIndex::TypeDefOrRef, extends),
        index_fits(coded_number(CodedIndex::TypeDefOrRef, extends), wide_coded(s, CodedIndex::TypeDefOrRef)),
        index_fits(field_list, wide_rows(s, 0x04)),
        index_fits(method_list, wide_rows(s, 0x06)),
        row_is(
            s,
            m,
            TableId::TypeDef,
            rid,
            reader::written32(flags)
                + index_bytes(name, wide_strings(s))
                + index_bytes(type_namespace, wide_strings(s))
                + index_bytes(coded_number(CodedIndex::TypeDefOrRef, extends), wide_coded(s, CodedIndex::TypeDefOrRef))
                + index_bytes(field_list, wide_rows(s, 0x04))
                + index_bytes(method_list, wide_rows(s, 0x06)),
        ),
    ensures
        m.row::<TypeDefRow>(rid) matches Ok(r) && r.flags == flags && r.name.0 == name && r.type_namespace.0 == type_namespace && r.extends == extends && r.field_list.number() == field_list && r.method_list.number() == method_list,
        m.layout(TableId::TypeDef).row_size == (reader::written32(flags) + index_bytes(name, wide_strings(s)) + index_bytes(type_namespace, wide_strings(s)) + index_bytes(coded_number(CodedIndex::TypeDefOrRef, extends), wide_coded(s, CodedIndex::TypeDefOrRef)) + index_bytes(field_list, wide_rows(s, 0x04)) + index_bytes(method_list, wide_rows(s, 0x06))).len(),
{
    lemma_coded_width(s, CodedIndex::TypeDefOrRef);
    lemma_coded_reads_back(CodedIndex::TypeDefOrRef, extends, 0);
    lemma_rid_width(s, TableId::Field);
    token::lemma_rid_number(token::Rid::<token::marker::Field>::of(field_list), field_list);
    lemma_rid_width(s, TableId::MethodDef);
    token::lemma_rid_number(token::Rid::<token::marker::MethodDef>::of(method_list), method_list);
    lemma_heap_widths(s);
    lemma_fixed(format(s), 0, flags);
    let values = seq![flags, name, type_namespace, coded_number(CodedIndex::TypeDefOrRef, extends), field_list, method_list];
    let table = TableId::TypeDef;
    let w = format(s);
    let columns = rows::columns(table);
    let part1 = reader::written32(flags);
    lemma_first_written(w, columns, values, part1);
    let part2 = part1 + index_bytes(name, wide_strings(s));
    lemma_cell_written(w, columns, values, 1, part1, index_bytes(name, wide_strings(s)));
    let part3 = part2 + index_bytes(type_namespace, wide_strings(s));
    lemma_cell_written(w, columns, values, 2, part2, index_bytes(type_namespace, wide_strings(s)));
    let part4 = part3 + index_bytes(coded_number(CodedIndex::TypeDefOrRef, extends), wide_coded(s, CodedIndex::TypeDefOrRef));
    lemma_cell_written(w, columns, values, 3, part3, index_bytes(coded_number(CodedIndex::TypeDefOrRef, extends), wide_coded(s, CodedIndex::TypeDefOrRef)));
    let part5 = part4 + index_bytes(field_list, wide_rows(s, 0x04));
    lemma_cell_written(w, columns, values, 4, part4, index_bytes(field_list, wide_rows(s, 0x04)));
    let part6 = part5 + index_bytes(method_list, wide_rows(s, 0x06));
    lemma_cell_written(w, columns, values, 5, part5, index_bytes(method_list, wide_rows(s, 0x06)));
    lemma_row_cells(s, m, table, rid, values);
    lemma_no_error(m.row_model(table, rid), columns, 0);
    assert(TypeDefRow::column_list() == columns);
    let row = m.row_model(table, rid);
    assert(row.value(0) == values[0] && row.value(1) == values[1] && row.value(2) == values[2] && row.value(3) == values[3] && row.value(4) == values[4] && row.value(5) == values[5]);
}


/// A row of `FieldPtr` that is laid out column by column reads back field by
/// field.
pub proof fn lemma_written_field_ptr(
    s: TableStream,
    m: TablesModel,
    rid: u32,
    field: u32,
)
    requires
        index_fits(field, wide_rows(s, 0x04)),
        row_is(
            s,
            m,
            TableId::FieldPtr,
            rid,
            index_bytes(field, wide_rows(s, 0x04)),
        ),
    ensures
        m.row::<FieldPtrRow>(rid) matches Ok(r) && r.field.number() == field,
        m.layout(TableId::FieldPtr).row_size == (index_bytes(field, wide_rows(s, 0x04))).len(),
{
    lemma_rid_width(s, TableId::Field);
    token::lemma_rid_number(token::Rid::<token::marker::Field>::of(field), field);
    lemma_heap_widths(s);
    let values = seq![field];
    let table = TableId::FieldPtr;
    let w = format(s);
    let columns = rows::columns(table);
    let part1 = index_bytes(field, wide_rows(s, 0x04));
    lemma_first_written(w, columns, values, part1);
    lemma_row_cells(s, m, table, rid, values);
    lemma_no_error(m.row_model(table, rid), columns, 0);
    assert(FieldPtrRow::column_list() == columns);
    let row = m.row_model(table, rid);
    assert(row.value(0) == values[0]);
}


/// A row of `Field` (II.22.15) that is laid out column by column reads back field by
/// field.
pub proof fn lemma_written_field(
    s: TableStream,
    m: TablesModel,
    rid: u32,
    flags: u16,
    name: u32,
    signature: u32,
)
    requires
        index_fits(name, wide_strings(s)),
        index_fits(signature, wide_blobs(s)),
        row_is(
            s,
            m,
            TableId::Field,
            rid,
            reader::written16(flags)
                + index_bytes(name, wide_strings(s))
                + index_bytes(signature, wide_blobs(s)),
        ),
    ensures
        m.row::<FieldRow>(rid) matches Ok(r) && r.flags == flags && r.name.0 == name && r.signature.0 == signature,
        m.layout(TableId::Field).row_size == (reader::written16(flags) + index_bytes(name, wide_strings(s)) + index_bytes(signature, wide_blobs(s))).len(),
{
    lemma_heap_widths(s);
    lemma_fixed(format(s), flags, 0);
    let values = seq![flags as u32, name, signature];
    let table = TableId::Field;
    let w = format(s);
    let columns = rows::columns(table);
    let part1 = reader::written16(flags);
    lemma_first_written(w, columns, values, part1);
    let part2 = part1 + index_bytes(name, wide_strings(s));
    lemma_cell_written(w, columns, values, 1, part1, index_bytes(name, wide_strings(s)));
    let part3 = part2 + index_bytes(signature, wide_blobs(s));
    lemma_cell_written(w, columns, values, 2, part2, index_bytes(signature, wide_blobs(s)));
    lemma_row_cells(s, m, table, rid, values);
    lemma_no_error(m.row_model(table, rid), columns, 0);
    assert(FieldRow::column_list() == columns);
    let row = m.row_model(table, rid);
    assert(row.value(0) == values[0] && row.value(1) == values[1] && row.value(2) == values[2]);
}


/// A row of `MethodPtr` that is laid out column by column reads back field by
/// field.
pub proof fn lemma_written_method_ptr(
    s: TableStream,
    m: TablesModel,
    rid: u32,
    method: u32,
)
    requires
        index_fits(method, wide_rows(s, 0x06)),
        row_is(
            s,
            m,
            TableId::MethodPtr,
            rid,
            index_bytes(method, wide_rows(s, 0x06)),
        ),
    ensures
        m.row::<MethodPtrRow>(rid) matches Ok(r) && r.method.number() == method,
        m.layout(TableId::MethodPtr).row_size == (index_bytes(method, wide_rows(s, 0x06))).len(),
{
    lemma_rid_width(s, TableId::MethodDef);
    token::lemma_rid_number(token::Rid::<token::marker::MethodDef>::of(method), method);
    lemma_heap_widths(s);
    let values = seq![method];
    let table = TableId::MethodPtr;
    let w = format(s);
    let columns = rows::columns(table);
    let part1 = index_bytes(method, wide_rows(s, 0x06));
    lemma_first_written(w, columns, values, part1);
    lemma_row_cells(s, m, table, rid, values);
    lemma_no_error(m.row_model(table, rid), columns, 0);
    assert(MethodPtrRow::column_list() == columns);
    let row = m.row_model(table, rid);
    assert(row.value(0) == values[0]);
}


/// A row of `MethodDef` (II.22.26) that is laid out column by column reads back field by
/// field.
#[verifier::rlimit(40)]
pub proof fn lemma_written_method_def(
    s: TableStream,
    m: TablesModel,
    rid: u32,
    rva: u32,
    impl_flags: u16,
    flags: u16,
    name: u32,
    signature: u32,
    param_list: u32,
)
    requires
        index_fits(name, wide_strings(s)),
        index_fits(signature, wide_blobs(s)),
        index_fits(param_list, wide_rows(s, 0x08)),
        row_is(
            s,
            m,
            TableId::MethodDef,
            rid,
            reader::written32(rva)
                + reader::written16(impl_flags)
                + reader::written16(flags)
                + index_bytes(name, wide_strings(s))
                + index_bytes(signature, wide_blobs(s))
                + index_bytes(param_list, wide_rows(s, 0x08)),
        ),
    ensures
        m.row::<MethodDefRow>(rid) matches Ok(r) && r.rva == rva && r.impl_flags == impl_flags && r.flags == flags && r.name.0 == name && r.signature.0 == signature && r.param_list.number() == param_list,
        m.layout(TableId::MethodDef).row_size == (reader::written32(rva) + reader::written16(impl_flags) + reader::written16(flags) + index_bytes(name, wide_strings(s)) + index_bytes(signature, wide_blobs(s)) + index_bytes(param_list, wide_rows(s, 0x08))).len(),
{
    lemma_rid_width(s, TableId::Param);
    token::lemma_rid_number(token::Rid::<token::marker::Param>::of(param_list), param_list);
    lemma_heap_widths(s);
    lemma_fixed(format(s), 0, rva);
    lemma_fixed(format(s), impl_flags, 0);
    lemma_fixed(format(s), flags, 0);
    let values = seq![rva, impl_flags as u32, flags as u32, name, signature, param_list];
    let table = TableId::MethodDef;
    let w = format(s);
    let columns = rows::columns(table);
    let part1 = reader::written32(rva);
    lemma_first_written(w, columns, values, part1);
    let part2 = part1 + reader::written16(impl_flags);
    lemma_cell_written(w, columns, values, 1, part1, reader::written16(impl_flags));
    let part3 = part2 + reader::written16(flags);
    lemma_cell_written(w, columns, values, 2, part2, reader::written16(flags));
    let part4 = part3 + index_bytes(name, wide_strings(s));
    lemma_cell_written(w, columns, values, 3, part3, index_bytes(name, wide_strings(s)));
    let part5 = part4 + index_bytes(signature, wide_blobs(s));
    lemma_cell_written(w, columns, values, 4, part4, index_bytes(signature, wide_blobs(s)));
    let part6 = part5 + index_bytes(param_list, wide_rows(s, 0x08));
    lemma_cell_written(w, columns, values, 5, part5, index_bytes(param_list, wide_rows(s, 0x08)));
    lemma_row_cells(s, m, table, rid, values);
    lemma_no_error(m.row_model(table, rid), columns, 0);
    assert(MethodDefRow::column_list() == columns);
    let row = m.row_model(table, rid);
    assert(row.value(0) == values[0] && row.value(1) == values[1] && row.value(2) == values[2] && row.value(3) == values[3] && row.value(4) == values[4] && row.value(5) == values[5]);
}


/// A row of `ParamPtr` that is laid out column by column reads back field by
/// field.
pub proof fn lemma_written_param_ptr(
    s: TableStream,
    m: TablesModel,
    rid: u32,
    param: u32,
)
    requires
        index_fits(param, wide_rows(s, 0x08)),
        row_is(
            s,
            m,
            TableId::ParamPtr,
            rid,
            index_bytes(param, wide_rows(s, 0x08)),
        ),
    ensures
        m.row::<ParamPtrRow>(rid) matches Ok(r) && r.param.number() == param,
        m.layout(TableId::ParamPtr).row_size == (index_bytes(param, wide_rows(s, 0x08))).len(),
{
    lemma_rid_width(s, TableId::Param);
    token::lemma_rid_number(token::Rid::<token::marker::Param>::of(param), param);
    lemma_heap_widths(s);
    let values = seq![param];
    let table = TableId::ParamPtr;
    let w = format(s);
    let columns = rows::columns(table);
    let part1 = index_bytes(param, wide_rows(s, 0x08));
    lemma_first_written(w, columns, values, part1);
    lemma_row_cells(s, m, table, rid, values);
    lemma_no_error(m.row_model(table, rid), columns, 0);
    assert(ParamPtrRow::column_list() == columns);
    let row = m.row_model(table, rid);
    assert(row.value(0) == values[0]);
}


/// A row of `Param` (II.22.33) that is laid out column by column reads back field by
/// field.
pub proof fn lemma_written_param(
    s: TableStream,
    m: TablesModel,
    rid: u32,
    flags: u16,
    sequence: u16,
    name: u32,
)
    requires
        index_fits(name, wide_strings(s)),
        row_is(
            s,
            m,
            TableId::Param,
            rid,
            reader::written16(flags)
                + reader::written16(sequence)
                + index_bytes(name, wide_strings(s)),
        ),
    ensures
        m.row::<ParamRow>(rid) matches Ok(r) && r.flags == flags && r.sequence == sequence && r.name.0 == name,
        m.layout(TableId::Param).row_size == (reader::written16(flags) + reader::written16(sequence) + index_bytes(name, wide_strings(s))).len(),
{
    lemma_heap_widths(s);
    lemma_fixed(format(s), flags, 0);
    lemma_fixed(format(s), sequence, 0);
    let values = seq![flags as u32, sequence as u32, name];
    let table = TableId::Param;
    let w = format(s);
    let columns = rows::columns(table);
    let part1 = reader::written16(flags);
    lemma_first_written(w, columns, values, part1);
    let part2 = part1 + reader::written16(sequence);
    lemma_cell_written(w, columns, values, 1, part1, reader::written16(sequence));
    let part3 = part2 + index_bytes(name, wide_strings(s));
    lemma_cell_written(w, columns, values, 2, part2, index_bytes(name, wide_strings(s)));
    lemma_row_cells(s, m, table, rid, values);
    lemma_no_error(m.row_model(table, rid), columns, 0);
    assert(ParamRow::column_list() == columns);
    let row = m.row_model(table, rid);
    assert(row.value(0) == values[0] && row.value(1) == values[1] && row.value(2) == values[2]);
}


/// A row of `InterfaceImpl` (II.22.23) that is laid out column by column reads back field by
/// field.
pub proof fn lemma_written_interface_impl(
    s: TableStream,
    m: TablesModel,
    rid: u32,
    class: u32,
    interface: Token,
)
    requires
        index_fits(class, wide_rows(s, 0x02)),
        codable(CodedIndex::TypeDefOrRef, interface),
        index_fits(coded_number(CodedIndex::TypeDefOrRef, interface), wide_coded(s, CodedIndex::TypeDefOrRef)),
        row_is(
            s,
            m,
            TableId::InterfaceImpl,
            rid,
            index_bytes(class, wide_rows(s, 0x02))
                + index_bytes(coded_number(CodedIndex::TypeDefOrRef, interface), wide_coded(s, CodedIndex::TypeDefOrRef)),
        ),
    ensures
        m.row::<InterfaceImplRow>(rid) matches Ok(r) && r.class.number() == class && r.interface == interface,
        m.layout(TableId::InterfaceImpl).row_size == (index_bytes(class, wide_rows(s, 0x02)) + index_bytes(coded_number(CodedIndex::TypeDefOrRef, interface), wide_coded(s, CodedIndex::TypeDefOrRef))).len(),
{
    lemma_rid_width(s, TableId::TypeDef);
    token::lemma_rid_number(token::Rid::<token::marker::TypeDef>::of(class), class);
    lemma_coded_width(s, CodedIndex::TypeDefOrRef);
    lemma_coded_reads_back(CodedIndex::TypeDefOrRef, interface, 0);
    lemma_heap_widths(s);
    let values = seq![class, coded_number(CodedIndex::TypeDefOrRef, interface)];
    let table = TableId::InterfaceImpl;
    let w = format(s);
    let columns = rows::columns(table);
    let part1 = index_bytes(class, wide_rows(s, 0x02));
    lemma_first_written(w, columns, values, part1);
    let part2 = part1 + index_bytes(coded_number(CodedIndex::TypeDefOrRef, interface), wide_coded(s, CodedIndex::TypeDefOrRef));
    lemma_cell_written(w, columns, values, 1, part1, index_bytes(coded_number(CodedIndex::TypeDefOrRef, interface), wide_coded(s, CodedIndex::TypeDefOrRef)));
    lemma_row_cells(s, m, table, rid, values);
    lemma_no_error(m.row_model(table, rid), columns, 0);
    assert(InterfaceImplRow::column_list() == columns);
    let row = m.row_model(table, rid);
    assert(row.value(0) == values[0] && row.value(1) == values[1]);
}


/// A row of `MemberRef` (II.22.25) that is laid out column by column reads back field by
/// field.
pub proof fn lemma_written_member_ref(
    s: TableStream,
    m: TablesModel,
    rid: u32,
    class: Token,
    name: u32,
    signature: u32,
)
    requires
        codable(CodedIndex::MemberRefParent, class),
        index_fits(coded_number(CodedIndex::MemberRefParent, class), wide_coded(s, CodedIndex::MemberRefParent)),
        index_fits(name, wide_strings(s)),
        index_fits(signature, wide_blobs(s)),
        row_is(
            s,
            m,
            TableId::MemberRef,
            rid,
            index_bytes(coded_number(CodedIndex::MemberRefParent, class), wide_coded(s, CodedIndex::MemberRefParent))
                + index_bytes(name, wide_strings(s))
                + index_bytes(signature, wide_blobs(s)),
        ),
    ensures
        m.row::<MemberRefRow>(rid) matches Ok(r) && r.class == class && r.name.0 == name && r.signature.0 == signature,
        m.layout(TableId::MemberRef).row_size == (index_bytes(coded_number(CodedIndex::MemberRefParent, class), wide_coded(s, CodedIndex::MemberRefParent)) + index_bytes(name, wide_strings(s)) + index_bytes(signature, wide_blobs(s))).len(),
{
    lemma_coded_width(s, CodedIndex::MemberRefParent);
    lemma_coded_reads_back(CodedIndex::MemberRefParent, class, 0);
    lemma_heap_widths(s);
    let values = seq![coded_number(CodedIndex::MemberRefParent, class), name, signature];
    let table = TableId::MemberRef;
    let w = format(s);
    let columns = rows::columns(table);
    let part1 = index_bytes(coded_number(CodedIndex::MemberRefParent, class), wide_coded(s, CodedIndex::MemberRefParent));
    lemma_first_written(w, columns, values, part1);
    let part2 = part1 + index_bytes(name, wide_strings(s));
    lemma_cell_written(w, columns, values, 1, part1, index_bytes(name, wide_strings(s)));
    let part3 = part2 + index_bytes(signature, wide_blobs(s));
    lemma_cell_written(w, columns, values, 2, part2, index_bytes(signature, wide_blobs(s)));
    lemma_row_cells(s, m, table, rid, values);
    lemma_no_error(m.row_model(table, rid), columns, 0);
    assert(MemberRefRow::column_list() == columns);
    let row = m.row_model(table, rid);
    assert(row.value(0) == values[0] && row.value(1) == values[1] && row.value(2) == values[2]);
}


/// A row of `Constant` (II.22.9) that is laid out column by column reads back field by
/// field.
pub proof fn lemma_written_constant(
    s: TableStream,
    m: TablesModel,
    rid: u32,
    type_raw: u16,
    parent: Token,
    value: u32,
)
    requires
        codable(CodedIndex::HasConstant, parent),
        index_fits(coded_number(CodedIndex::HasConstant, parent), wide_coded(s, CodedIndex::HasConstant)),
        index_fits(value, wide_blobs(s)),
        row_is(
            s,
            m,
            TableId::Constant,
            rid,
            reader::written16(type_raw)
                + index_bytes(coded_number(CodedIndex::HasConstant, parent), wide_coded(s, CodedIndex::HasConstant))
                + index_bytes(value, wide_blobs(s)),
        ),
    ensures
        m.row::<ConstantRow>(rid) matches Ok(r) && r.type_raw == type_raw && r.parent == parent && r.value.0 == value,
        m.layout(TableId::Constant).row_size == (reader::written16(type_raw) + index_bytes(coded_number(CodedIndex::HasConstant, parent), wide_coded(s, CodedIndex::HasConstant)) + index_bytes(value, wide_blobs(s))).len(),
{
    lemma_coded_width(s, CodedIndex::HasConstant);
    lemma_coded_reads_back(CodedIndex::HasConstant, parent, 0);
    lemma_heap_widths(s);
    lemma_fixed(format(s), type_raw, 0);
    let values = seq![type_raw as u32, coded_number(CodedIndex::HasConstant, parent), value];
    let table = TableId::Constant;
    let w = format(s);
    let columns = rows::columns(table);
    let part1 = reader::written16(type_raw);
    lemma_first_written(w, columns, values, part1);
    let part2 = part1 + index_bytes(coded_number(CodedIndex::HasConstant, parent), wide_coded(s, CodedIndex::HasConstant));
    lemma_cell_written(w, columns, values, 1, part1, index_bytes(coded_number(CodedIndex::HasConstant, parent), wide_coded(s, CodedIndex::HasConstant)));
    let part3 = part2 + index_bytes(value, wide_blobs(s));
    lemma_cell_written(w, columns, values, 2, part2, index_bytes(value, wide_blobs(s)));
    lemma_row_cells(s, m, table, rid, values);
    lemma_no_error(m.row_model(table, rid), columns, 0);
    assert(ConstantRow::column_list() == columns);
    let row = m.row_model(table, rid);
    assert(row.value(0) == values[0] && row.value(1) == values[1] && row.value(2) == values[2]);
}


/// A row of `CustomAttribute` (II.22.10) that is laid out column by column reads back field by
/// field.
pub proof fn lemma_written_custom_attribute(
    s: TableStream,
    m: TablesModel,
    rid: u32,
    parent: Token,
    constructor: Token,
    value: u32,
)
    requires
        codable(CodedIndex::HasCustomAttribute, parent),
        index_fits(coded_number(CodedIndex::HasCustomAttribute, parent), wide_coded(s, CodedIndex::HasCustomAttribute)),
        codable(CodedIndex::CustomAttributeType, constructor),
        index_fits(coded_number(CodedIndex::CustomAttributeType, constructor), wide_coded(s, CodedIndex::CustomAttributeType)),
        index_fits(value, wide_blobs(s)),
        row_is(
            s,
            m,
            TableId::CustomAttribute,
            rid,
            index_bytes(coded_number(CodedIndex::HasCustomAttribute, parent), wide_coded(s, CodedIndex::HasCustomAttribute))
                + index_bytes(coded_number(CodedIndex::CustomAttributeType, constructor), wide_coded(s, CodedIndex::CustomAttributeType))
                + index_bytes(value, wide_blobs(s)),
        ),
    ensures
        m.row::<CustomAttributeRow>(rid) matches Ok(r) && r.parent == parent && r.constructor == constructor && r.value.0 == value,
        m.layout(TableId::CustomAttribute).row_size == (index_bytes(coded_number(CodedIndex::HasCustomAttribute, parent), wide_coded(s, CodedIndex::HasCustomAttribute)) + index_bytes(coded_number(CodedIndex::CustomAttributeType, constructor), wide_coded(s, CodedIndex::CustomAttributeType)) + index_bytes(value, wide_blobs(s))).len(),
{
    lemma_coded_width(s, CodedIndex::HasCustomAttribute);
    lemma_coded_reads_back(CodedIndex::HasCustomAttribute, parent, 0);
    lemma_coded_width(s, CodedIndex::CustomAttributeType);
    lemma_coded_reads_back(CodedIndex::CustomAttributeType, constructor, 0);
    lemma_heap_widths(s);
    let values = seq![coded_number(CodedIndex::HasCustomAttribute, parent), coded_number(CodedIndex::CustomAttributeType, constructor), value];
    let table = TableId::CustomAttribute;
    let w = format(s);
    let columns = rows::columns(table);
    let part1 = index_bytes(coded_number(CodedIndex::HasCustomAttribute, parent), wide_coded(s, CodedIndex::HasCustomAttribute));
    lemma_first_written(w, columns, values, part1);
    let part2 = part1 + index_bytes(coded_number(CodedIndex::CustomAttributeType, constructor), wide_coded(s, CodedIndex::CustomAttributeType));
    lemma_cell_written(w, columns, values, 1, part1, index_bytes(coded_number(CodedIndex::CustomAttributeType, constructor), wide_coded(s, CodedIndex::CustomAttributeType)));
    let part3 = part2 + index_bytes(value, wide_blobs(s));
    lemma_cell_written(w, columns, values, 2, part2, index_bytes(value, wide_blobs(s)));
    lemma_row_cells(s, m, table, rid, values);
    lemma_no_error(m.row_model(table, rid), columns, 0);
    assert(CustomAttributeRow::column_list() == columns);
    let row = m.row_model(table, rid);
    assert(row.value(0) == values[0] && row.value(1) == values[1] && row.value(2) == values[2]);
}


/// A row of `FieldMarshal` (II.22.17) that is laid out column by column reads back field by
/// field.
pub proof fn lemma_written_field_marshal(
    s: TableStream,
    m: TablesModel,
    rid: u32,
    parent: Token,
    native_type: u32,
)
    requires
        codable(CodedIndex::HasFieldMarshal, parent),
        index_fits(coded_number(CodedIndex::HasFieldMarshal, parent), wide_coded(s, CodedIndex::HasFieldMarshal)),
        index_fits(native_type, wide_blobs(s)),
        row_is(
            s,
            m,
            TableId::FieldMarshal,
            rid,
            index_bytes(coded_number(CodedIndex::HasFieldMarshal, parent), wide_coded(s, CodedIndex::HasFieldMarshal))
                + index_bytes(native_type, wide_blobs(s)),
        ),
    ensures
        m.row::<FieldMarshalRow>(rid) matches Ok(r) && r.parent == parent && r.native_type.0 == native_type,
        m.layout(TableId::FieldMarshal).row_size == (index_bytes(coded_number(CodedIndex::HasFieldMarshal, parent), wide_coded(s, CodedIndex::HasFieldMarshal)) + index_bytes(native_type, wide_blobs(s))).len(),
{
    lemma_coded_width(s, CodedIndex::HasFieldMarshal);
    lemma_coded_reads_back(CodedIndex::HasFieldMarshal, parent, 0);
    lemma_heap_widths(s);
    let values = seq![coded_number(CodedIndex::HasFieldMarshal, parent), native_type];
    let table = TableId::FieldMarshal;
    let w = format(s);
    let columns = rows::columns(table);
    let part1 = index_bytes(coded_number(CodedIndex::HasFieldMarshal, parent), wide_coded(s, CodedIndex::HasFieldMarshal));
    lemma_first_written(w, columns, values, part1);
    let part2 = part1 + index_bytes(native_type, wide_blobs(s));
    lemma_cell_written(w, columns, values, 1, part1, index_bytes(native_type, wide_blobs(s)));
    lemma_row_cells(s, m, table, rid, values);
    lemma_no_error(m.row_model(table, rid), columns, 0);
    assert(FieldMarshalRow::column_list() == columns);
    let row = m.row_model(table, rid);
    assert(row.value(0) == values[0] && row.value(1) == values[1]);
}


/// A row of `DeclSecurity` (II.22.11) that is laid out column by column reads back field by
/// field.
pub proof fn lemma_written_decl_security(
    s: TableStream,
    m: TablesModel,
    rid: u32,
    action: u16,
    parent: Token,
    permission_set: u32,
)
    requires
        codable(CodedIndex::HasDeclSecurity, parent),
        index_fits(coded_number(CodedIndex::HasDeclSecurity, parent), wide_coded(s, CodedIndex::HasDeclSecurity)),
        index_fits(permission_set, wide_blobs(s)),
        row_is(
            s,
            m,
            TableId::DeclSecurity,
            rid,
            reader::written16(action)
                + index_bytes(coded_number(CodedIndex::HasDeclSecurity, parent), wide_coded(s, CodedIndex::HasDeclSecurity))
                + index_bytes(permission_set, wide_blobs(s)),
        ),
    ensures
        m.row::<DeclSecurityRow>(rid) matches Ok(r) && r.action == action && r.parent == parent && r.permission_set.0 == permission_set,
        m.layout(TableId::DeclSecurity).row_size == (reader::written16(action) + index_bytes(coded_number(CodedIndex::HasDeclSecurity, parent), wide_coded(s, CodedIndex::HasDeclSecurity)) + index_bytes(permission_set, wide_blobs(s))).len(),
{
    lemma_coded_width(s, CodedIndex::HasDeclSecurity);
    lemma_coded_reads_back(CodedIndex::HasDeclSecurity, parent, 0);
    lemma_heap_widths(s);
    lemma_fixed(format(s), action, 0);
    let values = seq![action as u32, coded_number(CodedIndex::HasDeclSecurity, parent), permission_set];
    let table = TableId::DeclSecurity;
    let w = format(s);
    let columns = rows::columns(table);
    let part1 = reader::written16(action);
    lemma_first_written(w, columns, values, part1);
    let part2 = part1 + index_bytes(coded_number(CodedIndex::HasDeclSecurity, parent), wide_coded(s, CodedIndex::HasDeclSecurity));
    lemma_cell_written(w, columns, values, 1, part1, index_bytes(coded_number(CodedIndex::HasDeclSecurity, parent), wide_coded(s, CodedIndex::HasDeclSecurity)));
    let part3 = part2 + index_bytes(permission_set, wide_blobs(s));
    lemma_cell_written(w, columns, values, 2, part2, index_bytes(permission_set, wide_blobs(s)));
    lemma_row_cells(s, m, table, rid, values);
    lemma_no_error(m.row_model(table, rid), columns, 0);
    assert(DeclSecurityRow::column_list() == columns);
    let row = m.row_model(table, rid);
    assert(row.value(0) == values[0] && row.value(1) == values[1] && row.value(2) == values[2]);
}


/// A row of `ClassLayout` (II.22.8) that is laid out column by column reads back field by
/// field.
pub proof fn lemma_written_class_layout(
    s: TableStream,
    m: TablesModel,
    rid: u32,
    packing_size: u16,
    class_size: u32,
    parent: u32,
)
    requires
        index_fits(parent, wide_rows(s, 0x02)),
        row_is(
            s,
            m,
            TableId::ClassLayout,
            rid,
            reader::written16(packing_size)
                + reader::written32(class_size)
                + index_bytes(parent, wide_rows(s, 0x02)),
        ),
    ensures
        m.row::<ClassLayoutRow>(rid) matches Ok(r) && r.packing_size == packing_size && r.class_size == class_size && r.parent.number() == parent,
        m.layout(TableId::ClassLayout).row_size == (reader::written16(packing_size) + reader::written32(class_size) + index_bytes(parent, wide_rows(s, 0x02))).len(),
{
    lemma_rid_width(s, TableId::TypeDef);
    token::lemma_rid_number(token::Rid::<token::marker::TypeDef>::of(parent), parent);
    lemma_heap_widths(s);
    lemma_fixed(format(s), packing_size, 0);
    lemma_fixed(format(s), 0, class_size);
    let values = seq![packing_size as u32, class_size, parent];
    let table = TableId::ClassLayout;
    let w = format(s);
    let columns = rows::columns(table);
    let part1 = reader::written16(packing_size);
    lemma_first_written(w, columns, values, part1);
    let part2 = part1 + reader::written32(class_size);
    lemma_cell_written(w, columns, values, 1, part1, reader::written32(class_size));
    let part3 = part2 + index_bytes(parent, wide_rows(s, 0x02));
    lemma_cell_written(w, columns, values, 2, part2, index_bytes(parent, wide_rows(s, 0x02)));
    lemma_row_cells(s, m, table, rid, values);
    lemma_no_error(m.row_model(table, rid), columns, 0);
    assert(ClassLayoutRow::column_list() == columns);
    let row = m.row_model(table, rid);
    assert(row.value(0) == values[0] && row.value(1) == values[1] && row.value(2) == values[2]);
}


/// A row of `FieldLayout` (II.22.16) that is laid out column by column reads back field by
/// field.
pub proof fn lemma_written_field_layout(
    s: TableStream,
    m: TablesModel,
    rid: u32,
    offset: u32,
    field: u32,
)
    requires
        index_fits(field, wide_rows(s, 0x04)),
        row_is(
            s,
            m,
            TableId::FieldLayout,
            rid,
            reader::written32(offset)
                + index_bytes(field, wide_rows(s, 0x04)),
        ),
    ensures
        m.row::<FieldLayoutRow>(rid) matches Ok(r) && r.offset == offset && r.field.number() == field,
        m.layout(TableId::FieldLayout).row_size == (reader::written32(offset) + index_bytes(field, wide_rows(s, 0x04))).len(),
{
    lemma_rid_width(s, TableId::Field);
    token::lemma_rid_number(token::Rid::<token::marker::Field>::of(field), field);
    lemma_heap_widths(s);
    lemma_fixed(format(s), 0, offset);
    let values = seq![offset, field];
    let table = TableId::FieldLayout;
    let w = format(s);
    let columns = rows::columns(table);
    let part1 = reader::written32(offset);
    lemma_first_written(w, columns, values, part1);
    let part2 = part1 + index_bytes(field, wide_rows(s, 0x04));
    lemma_cell_written(w, columns, values, 1, part1, index_bytes(field, wide_rows(s, 0x04)));
    lemma_row_cells(s, m, table, rid, values);
    lemma_no_error(m.row_model(table, rid), columns, 0);
    assert(FieldLayoutRow::column_list() == columns);
    let row = m.row_model(table, rid);
    assert(row.value(0) == values[0] && row.value(1) == values[1]);
}


/// A row of `StandAloneSig` (II.22.36) that is laid out column by column reads back field by
/// field.
pub proof fn lemma_written_stand_alone_sig(
    s: TableStream,
    m: TablesModel,
    rid: u32,
    signature: u32,
)
    requires
        index_fits(signature, wide_blobs(s)),
        row_is(
            s,
            m,
            TableId::StandAloneSig,
            rid,
            index_bytes(signature, wide_blobs(s)),
        ),
    ensures
        m.row::<StandAloneSigRow>(rid) matches Ok(r) && r.signature.0 == signature,
        m.layout(TableId::StandAloneSig).row_size == (index_bytes(signature, wide_blobs(s))).len(),
{
    lemma_heap_widths(s);
    let values = seq![signature];
    let table = TableId::StandAloneSig;
    let w = format(s);
    let columns = rows::columns(table);
    let part1 = index_bytes(signature, wide_blobs(s));
    lemma_first_written(w, columns, values, part1);
    lemma_row_cells(s, m, table, rid, values);
    lemma_no_error(m.row_model(table, rid), columns, 0);
    assert(StandAloneSigRow::column_list() == columns);
    let row = m.row_model(table, rid);
    assert(row.value(0) == values[0]);
}


/// A row of `EventMap` (II.22.12) that is laid out column by column reads back field by
/// field.
pub proof fn lemma_written_event_map(
    s: TableStream,
    m: TablesModel,
    rid: u32,
    parent: u32,
    event_list: u32,
)
    requires
        index_fits(parent, wide_rows(s, 0x02)),
        index_fits(event_list, wide_rows(s, 0x14)),
        row_is(
            s,
            m,
            TableId::EventMap,
            rid,
            index_bytes(parent, wide_rows(s, 0x02))
                + index_bytes(event_list, wide_rows(s, 0x14)),
        ),
    ensures
        m.row::<EventMapRow>(rid) matches Ok(r) && r.parent.number() == parent && r.event_list.number() == event_list,
        m.layout(TableId::EventMap).row_size == (index_bytes(parent, wide_rows(s, 0x02)) + index_bytes(event_list, wide_rows(s, 0x14))).len(),
{
    lemma_rid_width(s, TableId::TypeDef);
    token::lemma_rid_number(token::Rid::<token::marker::TypeDef>::of(parent), parent);
    lemma_rid_width(s, TableId::Event);
    token::lemma_rid_number(token::Rid::<token::marker::Event>::of(event_list), event_list);
    lemma_heap_widths(s);
    let values = seq![parent, event_list];
    let table = TableId::EventMap;
    let w = format(s);
    let columns = rows::columns(table);
    let part1 = index_bytes(parent, wide_rows(s, 0x02));
    lemma_first_written(w, columns, values, part1);
    let part2 = part1 + index_bytes(event_list, wide_rows(s, 0x14));
    lemma_cell_written(w, columns, values, 1, part1, index_bytes(event_list, wide_rows(s, 0x14)));
    lemma_row_cells(s, m, table, rid, values);
    lemma_no_error(m.row_model(table, rid), columns, 0);
    assert(EventMapRow::column_list() == columns);
    let row = m.row_model(table, rid);
    assert(row.value(0) == values[0] && row.value(1) == values[1]);
}


/// A row of `EventPtr` that is laid out column by column reads back field by
/// field.
pub proof fn lemma_written_event_ptr(
    s: TableStream,
    m: TablesModel,
    rid: u32,
    event: u32,
)
    requires
        index_fits(event, wide_rows(s, 0x14)),
        row_is(
            s,
            m,
            TableId::EventPtr,
            rid,
            index_bytes(event, wide_rows(s, 0x14)),
        ),
    ensures
        m.row::<EventPtrRow>(rid) matches Ok(r) && r.event.number() == event,
        m.layout(TableId::EventPtr).row_size == (index_bytes(event, wide_rows(s, 0x14))).len(),
{
    lemma_rid_width(s, TableId::Event);
    token::lemma_rid_number(token::Rid::<token::marker::Event>::of(event), event);
    lemma_heap_widths(s);
    let values = seq![event];
    let table = TableId::EventPtr;
    let w = format(s);
    let columns = rows::columns(table);
    let part1 = index_bytes(event, wide_rows(s, 0x14));
    lemma_first_written(w, columns, values, part1);
    lemma_row_cells(s, m, table, rid, values);
    lemma_no_error(m.row_model(table, rid), columns, 0);
    assert(EventPtrRow::column_list() == columns);
    let row = m.row_model(table, rid);
    assert(row.value(0) == values[0]);
}


/// A row of `Event` (II.22.13) that is laid out column by column reads back field by
/// field.
pub proof fn lemma_written_event(
    s: TableStream,
    m: TablesModel,
    rid: u32,
    event_flags: u16,
    name: u32,
    event_type: Token,
)
    requires
        index_fits(name, wide_strings(s)),
        codable(CodedIndex::TypeDefOrRef, event_type),
        index_fits(coded_number(CodedIndex::TypeDefOrRef, event_type), wide_coded(s, CodedIndex::TypeDefOrRef)),
        row_is(
            s,
            m,
            TableId::Event,
            rid,
            reader::written16(event_flags)
                + index_bytes(name, wide_strings(s))
                + index_bytes(coded_number(CodedIndex::TypeDefOrRef, event_type), wide_coded(s, CodedIndex::TypeDefOrRef)),
        ),
    ensures
        m.row::<EventRow>(rid) matches Ok(r) && r.event_flags == event_flags && r.name.0 == name && r.event_type == event_type,
        m.layout(TableId::Event).row_size == (reader::written16(event_flags) + index_bytes(name, wide_strings(s)) + index_bytes(coded_number(CodedIndex::TypeDefOrRef, event_type), wide_coded(s, CodedIndex::TypeDefOrRef))).len(),
{
    lemma_coded_width(s, CodedIndex::TypeDefOrRef);
    lemma_coded_reads_back(CodedIndex::TypeDefOrRef, event_type, 0);
    lemma_heap_widths(s);
    lemma_fixed(format(s), event_flags, 0);
    let values = seq![event_flags as u32, name, coded_number(CodedIndex::TypeDefOrRef, event_type)];
    let table = TableId::Event;
    let w = format(s);
    let columns = rows::columns(table);
    let part1 = reader::written16(event_flags);
    lemma_first_written(w, columns, values, part1);
    let part2 = part1 + index_bytes(name, wide_strings(s));
    lemma_cell_written(w, columns, values, 1, part1, index_bytes(name, wide_strings(s)));
    let part3 = part2 + index_bytes(coded_number(CodedIndex::TypeDefOrRef, event_type), wide_coded(s, CodedIndex::TypeDefOrRef));
    lemma_cell_written(w, columns, values, 2, part2, index_bytes(coded_number(CodedIndex::TypeDefOrRef, event_type), wide_coded(s, CodedIndex::TypeDefOrRef)));
    lemma_row_cells(s, m, table, rid, values);
    lemma_no_error(m.row_model(table, rid), columns, 0);
    assert(EventRow::column_list() == columns);
    let row = m.row_model(table, rid);
    assert(row.value(0) == values[0] && row.value(1) == values[1] && row.value(2) == values[2]);
}


/// A row of `PropertyMap` (II.22.35) that is laid out column by column reads back field by
/// field.
pub proof fn lemma_written_property_map(
    s: TableStream,
    m: TablesModel,
    rid: u32,
    parent: u32,
    property_list: u32,
)
    requires
        index_fits(parent, wide_rows(s, 0x02)),
        index_fits(property_list, wide_rows(s, 0x17)),
        row_is(
            s,
            m,
            TableId::PropertyMap,
            rid,
            index_bytes(parent, wide_rows(s, 0x02))
                + index_bytes(property_list, wide_rows(s, 0x17)),
        ),
    ensures
        m.row::<PropertyMapRow>(rid) matches Ok(r) && r.parent.number() == parent && r.property_list.number() == property_list,
        m.layout(TableId::PropertyMap).row_size == (index_bytes(parent, wide_rows(s, 0x02)) + index_bytes(property_list, wide_rows(s, 0x17))).len(),
{
    lemma_rid_width(s, TableId::TypeDef);
    token::lemma_rid_number(token::Rid::<token::marker::TypeDef>::of(parent), parent);
    lemma_rid_width(s, TableId::Property);
    token::lemma_rid_number(token::Rid::<token::marker::Property>::of(property_list), property_list);
    lemma_heap_widths(s);
    let values = seq![parent, property_list];
    let table = TableId::PropertyMap;
    let w = format(s);
    let columns = rows::columns(table);
    let part1 = index_bytes(parent, wide_rows(s, 0x02));
    lemma_first_written(w, columns, values, part1);
    let part2 = part1 + index_bytes(property_list, wide_rows(s, 0x17));
    lemma_cell_written(w, columns, values, 1, part1, index_bytes(property_list, wide_rows(s, 0x17)));
    lemma_row_cells(s, m, table, rid, values);
    lemma_no_error(m.row_model(table, rid), columns, 0);
    assert(PropertyMapRow::column_list() == columns);
    let row = m.row_model(table, rid);
    assert(row.value(0) == values[0] && row.value(1) == values[1]);
}


/// A row of `PropertyPtr` that is laid out column by column reads back field by
/// field.
pub proof fn lemma_written_property_ptr(
    s: TableStream,
    m: TablesModel,
    rid: u32,
    property: u32,
)
    requires
        index_fits(property, wide_rows(s, 0x17)),
        row_is(
            s,
            m,
            TableId::PropertyPtr,
            rid,
            index_bytes(property, wide_rows(s, 0x17)),
        ),
    ensures
        m.row::<PropertyPtrRow>(rid) matches Ok(r) && r.property.number() == property,
        m.layout(TableId::PropertyPtr).row_size == (index_bytes(property, wide_rows(s, 0x17))).len(),
{
    lemma_rid_width(s, TableId::Property);
    token::lemma_rid_number(token::Rid::<token::marker::Property>::of(property), property);
    lemma_heap_widths(s);
    let values = seq![property];
    let table = TableId::PropertyPtr;
    let w = format(s);
    let columns = rows::columns(table);
    let part1 = index_bytes(property, wide_rows(s, 0x17));
    lemma_first_written(w, columns, values, part1);
    lemma_row_cells(s, m, table, rid, values);
    lemma_no_error(m.row_model(table, rid), columns, 0);
    assert(PropertyPtrRow::column_list() == columns);
    let row = m.row_model(table, rid);
    assert(row.value(0) == values[0]);
}


/// A row of `Property` (II.22.34) that is laid out column by column reads back field by
/// field.
pub proof fn lemma_written_property(
    s: TableStream,
    m: TablesModel,
    rid: u32,
    flags: u16,
    name: u32,
    type_signature: u32,
)
    requires
        index_fits(name, wide_strings(s)),
        index_fits(type_signature, wide_blobs(s)),
        row_is(
            s,
            m,
            TableId::Property,
            rid,
            reader::written16(flags)
                + index_bytes(name, wide_strings(s))
                + index_bytes(type_signature, wide_blobs(s)),
        ),
    ensures
        m.row::<PropertyRow>(rid) matches Ok(r) && r.flags == flags && r.name.0 == name && r.type_signature.0 == type_signature,
        m.layout(TableId::Property).row_size == (reader::written16(flags) + index_bytes(name, wide_strings(s)) + index_bytes(type_signature, wide_blobs(s))).len(),
{
    lemma_heap_widths(s);
    lemma_fixed(format(s), flags, 0);
    let values = seq![flags as u32, name, type_signature];
    let table = TableId::Property;
    let w = format(s);
    let columns = rows::columns(table);
    let part1 = reader::written16(flags);
    lemma_first_written(w, columns, values, part1);
    let part2 = part1 + index_bytes(name, wide_strings(s));
    lemma_cell_written(w, columns, values, 1, part1, index_bytes(name, wide_strings(s)));
    let part3 = part2 + index_bytes(type_signature, wide_blobs(s));
    lemma_cell_written(w, columns, values, 2, part2, index_bytes(type_signature, wide_blobs(s)));
    lemma_row_cells(s, m, table, rid, values);
    lemma_no_error(m.row_model(table, rid), columns, 0);
    assert(PropertyRow::column_list() == columns);
    let row = m.row_model(table, rid);
    assert(row.value(0) == values[0] && row.value(1) == values[1] && row.value(2) == values[2]);
}


/// A row of `MethodSemantics` (II.22.28) that is laid out column by column reads back field by
/// field.
pub proof fn lemma_written_method_semantics(
    s: TableStream,
    m: TablesModel,
    rid: u32,
    semantics: u16,
    method: u32,
    association: Token,
)
    requires
        index_fits(method, wide_rows(s, 0x06)),
        codable(CodedIndex::HasSemantics, association),
        index_fits(coded_number(CodedIndex::HasSemantics, association), wide_coded(s, CodedIndex::HasSemantics)),
        row_is(
            s,
            m,
            TableId::MethodSemantics,
            rid,
            reader::written16(semantics)
                + index_bytes(method, wide_rows(s, 0x06))
                + index_bytes(coded_number(CodedIndex::HasSemantics, association), wide_coded(s, CodedIndex::HasSemantics)),
        ),
    ensures
        m.row::<MethodSemanticsRow>(rid) matches Ok(r) && r.semantics == semantics && r.method.number() == method && r.association == association,
        m.layout(TableId::MethodSemantics).row_size == (reader::written16(semantics) + index_bytes(method, wide_rows(s, 0x06)) + index_bytes(coded_number(CodedIndex::HasSemantics, association), wide_coded(s, CodedIndex::HasSemantics))).len(),
{
    lemma_rid_width(s, TableId::MethodDef);
    token::lemma_rid_number(token::Rid::<token::marker::MethodDef>::of(method), method);
    lemma_coded_width(s, CodedIndex::HasSemantics);
    lemma_coded_reads_back(CodedIndex::HasSemantics, association, 0);
    lemma_heap_widths(s);
    lemma_fixed(format(s), semantics, 0);
    let values = seq![semantics as u32, method, coded_number(CodedIndex::HasSemantics, association)];
    let table = TableId::MethodSemantics;
    let w = format(s);
    let columns = rows::columns(table);
    let part1 = reader::written16(semantics);
    lemma_first_written(w, columns, values, part1);
    let part2 = part1 + index_bytes(method, wide_rows(s, 0x06));
    lemma_cell_written(w, columns, values, 1, part1, index_bytes(method, wide_rows(s, 0x06)));
    let part3 = part2 + index_bytes(coded_number(CodedIndex::HasSemantics, association), wide_coded(s, CodedIndex::HasSemantics));
    lemma_cell_written(w, columns, values, 2, part2, index_bytes(coded_number(CodedIndex::HasSemantics, association), wide_coded(s, CodedIndex::HasSemantics)));
    lemma_row_cells(s, m, table, rid, values);
    lemma_no_error(m.row_model(table, rid), columns, 0);
    assert(MethodSemanticsRow::column_list() == columns);
    let row = m.row_model(table, rid);
    assert(row.value(0) == values[0] && row.value(1) == values[1] && row.value(2) == values[2]);
}


/// A row of `MethodImpl` (II.22.27) that is laid out column by column reads back field by
/// field.
pub proof fn lemma_written_method_impl(
    s: TableStream,
    m: TablesModel,
    rid: u32,
    class: u32,
    method_body: Token,
    method_declaration: Token,
)
    requires
        index_fits(class, wide_rows(s, 0x02)),
        codable(CodedIndex::MethodDefOrRef, method_body),
        index_fits(coded_number(CodedIndex::MethodDefOrRef, method_body), wide_coded(s, CodedIndex::MethodDefOrRef)),
        codable(CodedIndex::MethodDefOrRef, method_declaration),
        index_fits(coded_number(CodedIndex::MethodDefOrRef, method_declaration), wide_coded(s, CodedIndex::MethodDefOrRef)),
        row_is(
            s,
            m,
            TableId::MethodImpl,
            rid,
            index_bytes(class, wide_rows(s, 0x02))
                + index_bytes(coded_number(CodedIndex::MethodDefOrRef, method_body), wide_coded(s, CodedIndex::MethodDefOrRef))
                + index_bytes(coded_number(CodedIndex::MethodDefOrRef, method_declaration), wide_coded(s, CodedIndex::MethodDefOrRef)),
        ),
    ensures
        m.row::<MethodImplRow>(rid) matches Ok(r) && r.class.number() == class && r.method_body == method_body && r.method_declaration == method_declaration,
        m.layout(TableId::MethodImpl).row_size == (index_bytes(class, wide_rows(s, 0x02)) + index_bytes(coded_number(CodedIndex::MethodDefOrRef, method_body), wide_coded(s, CodedIndex::MethodDefOrRef)) + index_bytes(coded_number(CodedIndex::MethodDefOrRef, method_declaration), wide_coded(s, CodedIndex::MethodDefOrRef))).len(),
{
    lemma_rid_width(s, TableId::TypeDef);
    token::lemma_rid_number(token::Rid::<token::marker::TypeDef>::of(class), class);
    lemma_coded_width(s, CodedIndex::MethodDefOrRef);
    lemma_coded_reads_back(CodedIndex::MethodDefOrRef, method_body, 0);
    lemma_coded_reads_back(CodedIndex::MethodDefOrRef, method_declaration, 0);
    lemma_heap_widths(s);
    let values = seq![class, coded_number(CodedIndex::MethodDefOrRef, method_body), coded_number(CodedIndex::MethodDefOrRef, method_declaration)];
    let table = TableId::MethodImpl;
    let w = format(s);
    let columns = rows::columns(table);
    let part1 = index_bytes(class, wide_rows(s, 0x02));
    lemma_first_written(w, columns, values, part1);
    let part2 = part1 + index_bytes(coded_number(CodedIndex::MethodDefOrRef, method_body), wide_coded(s, CodedIndex::MethodDefOrRef));
    lemma_cell_written(w, columns, values, 1, part1, index_bytes(coded_number(CodedIndex::MethodDefOrRef, method_body), wide_coded(s, CodedIndex::MethodDefOrRef)));
    let part3 = part2 + index_bytes(coded_number(CodedIndex::MethodDefOrRef, method_declaration), wide_coded(s, CodedIndex::MethodDefOrRef));
    lemma_cell_written(w, columns, values, 2, part2, index_bytes(coded_number(CodedIndex::MethodDefOrRef, method_declaration), wide_coded(s, CodedIndex::MethodDefOrRef)));
    lemma_row_cells(s, m, table, rid, values);
    lemma_no_error(m.row_model(table, rid), columns, 0);
    assert(MethodImplRow::column_list() == columns);
    let row = m.row_model(table, rid);
    assert(row.value(0) == values[0] && row.value(1) == values[1] && row.value(2) == values[2]);
}


/// A row of `ModuleRef` (II.22.31) that is laid out column by column reads back field by
/// field.
pub proof fn lemma_written_module_ref(
    s: TableStream,
    m: TablesModel,
    rid: u32,
    name: u32,
)
    requires
        index_fits(name, wide_strings(s)),
        row_is(
            s,
            m,
            TableId::ModuleRef,
            rid,
            index_bytes(name, wide_strings(s)),
        ),
    ensures
        m.row::<ModuleRefRow>(rid) matches Ok(r) && r.name.0 == name,
        m.layout(TableId::ModuleRef).row_size == (index_bytes(name, wide_strings(s))).len(),
{
    lemma_heap_widths(s);
    let values = seq![name];
    let table = TableId::ModuleRef;
    let w = format(s);
    let columns = rows::columns(table);
    let part1 = index_bytes(name, wide_strings(s));
    lemma_first_written(w, columns, values, part1);
    lemma_row_cells(s, m, table, rid, values);
    lemma_no_error(m.row_model(table, rid), columns, 0);
    assert(ModuleRefRow::column_list() == columns);
    let row = m.row_model(table, rid);
    assert(row.value(0) == values[0]);
}


/// A row of `TypeSpec` (II.22.39) that is laid out column by column reads back field by
/// field.
pub proof fn lemma_written_type_spec(
    s: TableStream,
    m: TablesModel,
    rid: u32,
    signature: u32,
)
    requires
        index_fits(signature, wide_blobs(s)),
        row_is(
            s,
            m,
            TableId::TypeSpec,
            rid,
            index_bytes(signature, wide_blobs(s)),
        ),
    ensures
        m.row::<TypeSpecRow>(rid) matches Ok(r) && r.signature.0 == signature,
        m.layout(TableId::TypeSpec).row_size == (index_bytes(signature, wide_blobs(s))).len(),
{
    lemma_heap_widths(s);
    let values = seq![signature];
    let table = TableId::TypeSpec;
    let w = format(s);
    let columns = rows::columns(table);
    let part1 = index_bytes(signature, wide_blobs(s));
    lemma_first_written(w, columns, values, part1);
    lemma_row_cells(s, m, table, rid, values);
    lemma_no_error(m.row_model(table, rid), columns, 0);
    assert(TypeSpecRow::column_list() == columns);
    let row = m.row_model(table, rid);
    assert(row.value(0) == values[0]);
}


/// A row of `ImplMap` (II.22.22) that is laid out column by column reads back field by
/// field.
pub proof fn lemma_written_impl_map(
    s: TableStream,
    m: TablesModel,
    rid: u32,
    mapping_flags: u16,
    member_forwarded: Token,
    import_name: u32,
    import_scope: u32,
)
    requires
        codable(CodedIndex::MemberForwarded, member_forwarded),
        index_fits(coded_number(CodedIndex::MemberForwarded, member_forwarded), wide_coded(s, CodedIndex::MemberForwarded)),
        index_fits(import_name, wide_strings(s)),
        index_fits(import_scope, wide_rows(s, 0x1A)),
        row_is(
            s,
            m,
            TableId::ImplMap,
            rid,
            reader::written16(mapping_flags)
                + index_bytes(coded_number(CodedIndex::MemberForwarded, member_forwarded), wide_coded(s, CodedIndex::MemberForwarded))
                + index_bytes(import_name, wide_strings(s))
                + index_bytes(import_scope, wide_rows(s, 0x1A)),
        ),
    ensures
        m.row::<ImplMapRow>(rid) matches Ok(r) && r.mapping_flags == mapping_flags && r.member_forwarded == member_forwarded && r.import_name.0 == import_name && r.import_scope.number() == import_scope,
        m.layout(TableId::ImplMap).row_size == (reader::written16(mapping_flags) + index_bytes(coded_number(CodedIndex::MemberForwarded, member_forwarded), wide_coded(s, CodedIndex::MemberForwarded)) + index_bytes(import_name, wide_strings(s)) + index_bytes(import_scope, wide_rows(s, 0x1A))).len(),
{
    lemma_coded_width(s, CodedIndex::MemberForwarded);
    lemma_coded_reads_back(CodedIndex::MemberForwarded, member_forwarded, 0);
    lemma_rid_width(s, TableId::ModuleRef);
    token::lemma_rid_number(token::Rid::<token::marker::ModuleRef>::of(import_scope), import_scope);
    lemma_heap_widths(s);
    lemma_fixed(format(s), mapping_flags, 0);
    let values = seq![mapping_flags as u32, coded_number(CodedIndex::MemberForwarded, member_forwarded), import_name, import_scope];
    let table = TableId::ImplMap;
    let w = format(s);
    let columns = rows::columns(table);
    let part1 = reader::written16(mapping_flags);
    lemma_first_written(w, columns, values, part1);
    let part2 = part1 + index_bytes(coded_number(CodedIndex::MemberForwarded, member_forwarded), wide_coded(s, CodedIndex::MemberForwarded));
    lemma_cell_written(w, columns, values, 1, part1, index_bytes(coded_number(CodedIndex::MemberForwarded, member_forwarded), wide_coded(s, CodedIndex::MemberForwarded)));
    let part3 = part2 + index_bytes(import_name, wide_strings(s));
    lemma_cell_written(w, columns, values, 2, part2, index_bytes(import_name, wide_strings(s)));
    let part4 = part3 + index_bytes(import_scope, wide_rows(s, 0x1A));
    lemma_cell_written(w, columns, values, 3, part3, index_bytes(import_scope, wide_rows(s, 0x1A)));
    lemma_row_cells(s, m, table, rid, values);
    lemma_no_error(m.row_model(table, rid), columns, 0);
    assert(ImplMapRow::column_list() == columns);
    let row = m.row_model(table, rid);
    assert(row.value(0) == values[0] && row.value(1) == values[1] && row.value(2) == values[2] && row.value(3) == values[3]);
}


/// A row of `FieldRva` (II.22.18) that is laid out column by column reads back field by
/// field.
pub proof fn lemma_written_field_rva(
    s: TableStream,
    m: TablesModel,
    rid: u32,
    rva: u32,
    field: u32,
)
    requires
        index_fits(field, wide_rows(s, 0x04)),
        row_is(
            s,
            m,
            TableId::FieldRva,
            rid,
            reader::written32(rva)
                + index_bytes(field, wide_rows(s, 0x04)),
        ),
    ensures
        m.row::<FieldRvaRow>(rid) matches Ok(r) && r.rva == rva && r.field.number() == field,
        m.layout(TableId::FieldRva).row_size == (reader::written32(rva) + index_bytes(field, wide_rows(s, 0x04))).len(),
{
    lemma_rid_width(s, TableId::Field);
    token::lemma_rid_number(token::Rid::<token::marker::Field>::of(field), field);
    lemma_heap_widths(s);
    lemma_fixed(format(s), 0, rva);
    let values = seq![rva, field];
    let table = TableId::FieldRva;
    let w = format(s);
    let columns = rows::columns(table);
    let part1 = reader::written32(rva);
    lemma_first_written(w, columns, values, part1);
    let part2 = part1 + index_bytes(field, wide_rows(s, 0x04));
    lemma_cell_written(w, columns, values, 1, part1, index_bytes(field, wide_rows(s, 0x04)));
    lemma_row_cells(s, m, table, rid, values);
    lemma_no_error(m.row_model(table, rid), columns, 0);
    assert(FieldRvaRow::column_list() == columns);
    let row = m.row_model(table, rid);
    assert(row.value(0) == values[0] && row.value(1) == values[1]);
}


/// A row of `EncLog` that is laid out column by column reads back field by
/// field.
pub proof fn lemma_written_enc_log(
    s: TableStream,
    m: TablesModel,
    rid: u32,
    token: u32,
    func_code: u32,
)
    requires
        row_is(
            s,
            m,
            TableId::EncLog,
            rid,
            reader::written32(token)
                + reader::written32(func_code),
        ),
    ensures
        m.row::<EncLogRow>(rid) matches Ok(r) && r.token == token && r.func_code == func_code,
        m.layout(TableId::EncLog).row_size == (reader::written32(token) + reader::written32(func_code)).len(),
{
    lemma_heap_widths(s);
    lemma_fixed(format(s), 0, token);
    lemma_fixed(format(s), 0, func_code);
    let values = seq![token, func_code];
    let table = TableId::EncLog;
    let w = format(s);
    let columns = rows::columns(table);
    let part1 = reader::written32(token);
    lemma_first_written(w, columns, values, part1);
    let part2 = part1 + reader::written32(func_code);
    lemma_cell_written(w, columns, values, 1, part1, reader::written32(func_code));
    lemma_row_cells(s, m, table, rid, values);
    lemma_no_error(m.row_model(table, rid), columns, 0);
    assert(EncLogRow::column_list() == columns);
    let row = m.row_model(table, rid);
    assert(row.value(0) == values[0] && row.value(1) == values[1]);
}


/// A row of `EncMap` that is laid out column by column reads back field by
/// field.
pub proof fn lemma_written_enc_map(
    s: TableStream,
    m: TablesModel,
    rid: u32,
    token: u32,
)
    requires
        row_is(
            s,
            m,
            TableId::EncMap,
            rid,
            reader::written32(token),
        ),
    ensures
        m.row::<EncMapRow>(rid) matches Ok(r) && r.token == token,
        m.layout(TableId::EncMap).row_size == (reader::written32(token)).len(),
{
    lemma_heap_widths(s);
    lemma_fixed(format(s), 0, token);
    let values = seq![token];
    let table = TableId::EncMap;
    let w = format(s);
    let columns = rows::columns(table);
    let part1 = reader::written32(token);
    lemma_first_written(w, columns, values, part1);
    lemma_row_cells(s, m, table, rid, values);
    lemma_no_error(m.row_model(table, rid), columns, 0);
    assert(EncMapRow::column_list() == columns);
    let row = m.row_model(table, rid);
    assert(row.value(0) == values[0]);
}


/// A row of `Assembly` (II.22.2) that is laid out column by column reads back field by
/// field.
#[verifier::rlimit(40)]
pub proof fn lemma_written_assembly(
    s: TableStream,
    m: TablesModel,
    rid: u32,
    hash_alg_id: u32,
    major_version: u16,
    minor_version: u16,
    build_number: u16,
    revision_number: u16,
    flags: u32,
    public_key: u32,
    name: u32,
    culture: u32,
)
    requires
        index_fits(public_key, wide_blobs(s)),
        index_fits(name, wide_strings(s)),
        index_fits(culture, wide_strings(s)),
        row_is(
            s,
            m,
            TableId::Assembly,
            rid,
            reader::written32(hash_alg_id)
                + reader::written16(major_version)
                + reader::written16(minor_version)
                + reader::written16(build_number)
                + reader::written16(revision_number)
                + reader::written32(flags)
                + index_bytes(public_key, wide_blobs(s))
                + index_bytes(name, wide_strings(s))
                + index_bytes(culture, wide_strings(s)),
        ),
    ensures
        m.row::<AssemblyRow>(rid) matches Ok(r) && r.hash_alg_id == hash_alg_id && r.major_version == major_version && r.minor_version == minor_version && r.build_number == build_number && r.revision_number == revision_number && r.flags == flags && r.public_key.0 == public_key && r.name.0 == name && r.culture.0 == culture,
        m.layout(TableId::Assembly).row_size == (reader::written32(hash_alg_id) + reader::written16(major_version) + reader::written16(minor_version) + reader::written16(build_number) + reader::written16(revision_number) + reader::written32(flags) + index_bytes(public_key, wide_blobs(s)) + index_bytes(name, wide_strings(s)) + index_bytes(culture, wide_strings(s))).len(),
{
    lemma_heap_widths(s);
    lemma_fixed(format(s), 0, hash_alg_id);
    lemma_fixed(format(s), major_version, 0);
    lemma_fixed(format(s), minor_version, 0);
    lemma_fixed(format(s), build_number, 0);
    lemma_fixed(format(s), revision_number, 0);
    lemma_fixed(format(s), 0, flags);
    let values = seq![hash_alg_id, major_version as u32, minor_version as u32, build_number as u32, revision_number as u32, flags, public_key, name, culture];
    let table = TableId::Assembly;
    let w = format(s);
    let columns = rows::columns(table);
    let part1 = reader::written32(hash_alg_id);
    lemma_first_written(w, columns, values, part1);
    let part2 = part1 + reader::written16(major_version);
    lemma_cell_written(w, columns, values, 1, part1, reader::written16(major_version));
    let part3 = part2 + reader::written16(minor_version);
    lemma_cell_written(w, columns, values, 2, part2, reader::written16(minor_version));
    let part4 = part3 + reader::written16(build_number);
    lemma_cell_written(w, columns, values, 3, part3, reader::written16(build_number));
    let part5 = part4 + reader::written16(revision_number);
    lemma_cell_written(w, columns, values, 4, part4, reader::written16(revision_number));
    let part6 = part5 + reader::written32(flags);
    lemma_cell_written(w, columns, values, 5, part5, reader::written32(flags));
    let part7 = part6 + index_bytes(public_key, wide_blobs(s));
    lemma_cell_written(w, columns, values, 6, part6, index_bytes(public_key, wide_blobs(s)));
    let part8 = part7 + index_bytes(name, wide_strings(s));
    lemma_cell_written(w, columns, values, 7, part7, index_bytes(name, wide_strings(s)));
    let part9 = part8 + index_bytes(culture, wide_strings(s));
    lemma_cell_written(w, columns, values, 8, part8, index_bytes(culture, wide_strings(s)));
    lemma_row_cells(s, m, table, rid, values);
    lemma_no_error(m.row_model(table, rid), columns, 0);
    assert(AssemblyRow::column_list() == columns);
    let row = m.row_model(table, rid);
    assert(row.value(0) == values[0] && row.value(1) == values[1] && row.value(2) == values[2] && row.value(3) == values[3] && row.value(4) == values[4] && row.value(5) == values[5] && row.value(6) == values[6] && row.value(7) == values[7] && row.value(8) == values[8]);
}


/// A row of `AssemblyProcessor` (II.22.4) that is laid out column by column reads back field by
/// field.
pub proof fn lemma_written_assembly_processor(
    s: TableStream,
    m: TablesModel,
    rid: u32,
    processor: u32,
)
    requires
        row_is(
            s,
            m,
            TableId::AssemblyProcessor,
            rid,
            reader::written32(processor),
        ),
    ensures
        m.row::<AssemblyProcessorRow>(rid) matches Ok(r) && r.processor == processor,
        m.layout(TableId::AssemblyProcessor).row_size == (reader::written32(processor)).len(),
{
    lemma_heap_widths(s);
    lemma_fixed(format(s), 0, processor);
    let values = seq![processor];
    let table = TableId::AssemblyProcessor;
    let w = format(s);
    let columns = rows::columns(table);
    let part1 = reader::written32(processor);
    lemma_first_written(w, columns, values, part1);
    lemma_row_cells(s, m, table, rid, values);
    lemma_no_error(m.row_model(table, rid), columns, 0);
    assert(AssemblyProcessorRow::column_list() == columns);
    let row = m.row_model(table, rid);
    assert(row.value(0) == values[0]);
}


/// A row of `AssemblyOs` (II.22.3) that is laid out column by column reads back field by
/// field.
pub proof fn lemma_written_assembly_os(
    s: TableStream,
    m: TablesModel,
    rid: u32,
    os_platform_id: u32,
    os_major_version: u32,
    os_minor_version: u32,
)
    requires
        row_is(
            s,
            m,
            TableId::AssemblyOs,
            rid,
            reader::written32(os_platform_id)
                + reader::written32(os_major_version)
                + reader::written32(os_minor_version),
        ),
    ensures
        m.row::<AssemblyOsRow>(rid) matches Ok(r) && r.os_platform_id == os_platform_id && r.os_major_version == os_major_version && r.os_minor_version == os_minor_version,
        m.layout(TableId::AssemblyOs).row_size == (reader::written32(os_platform_id) + reader::written32(os_major_version) + reader::written32(os_minor_version)).len(),
{
    lemma_heap_widths(s);
    lemma_fixed(format(s), 0, os_platform_id);
    lemma_fixed(format(s), 0, os_major_version);
    lemma_fixed(format(s), 0, os_minor_version);
    let values = seq![os_platform_id, os_major_version, os_minor_version];
    let table = TableId::AssemblyOs;
    let w = format(s);
    let columns = rows::columns(table);
    let part1 = reader::written32(os_platform_id);
    lemma_first_written(w, columns, values, part1);
    let part2 = part1 + reader::written32(os_major_version);
    lemma_cell_written(w, columns, values, 1, part1, reader::written32(os_major_version));
    let part3 = part2 + reader::written32(os_minor_version);
    lemma_cell_written(w, columns, values, 2, part2, reader::written32(os_minor_version));
    lemma_row_cells(s, m, table, rid, values);
    lemma_no_error(m.row_model(table, rid), columns, 0);
    assert(AssemblyOsRow::column_list() == columns);
    let row = m.row_model(table, rid);
    assert(row.value(0) == values[0] && row.value(1) == values[1] && row.value(2) == values[2]);
}


/// A row of `AssemblyRef` (II.22.5) that is laid out column by column reads back field by
/// field.
#[verifier::rlimit(40)]
pub proof fn lemma_written_assembly_ref(
    s: TableStream,
    m: TablesModel,
    rid: u32,
    major_version: u16,
    minor_version: u16,
    build_number: u16,
    revision_number: u16,
    flags: u32,
    public_key_or_token: u32,
    name: u32,
    culture: u32,
    hash_value: u32,
)
    requires
        index_fits(public_key_or_token, wide_blobs(s)),
        index_fits(name, wide_strings(s)),
        index_fits(culture, wide_strings(s)),
        index_fits(hash_value, wide_blobs(s)),
        row_is(
            s,
            m,
            TableId::AssemblyRef,
            rid,
            reader::written16(major_version)
                + reader::written16(minor_version)
                + reader::written16(build_number)
                + reader::written16(revision_number)
                + reader::written32(flags)
                + index_bytes(public_key_or_token, wide_blobs(s))
                + index_bytes(name, wide_strings(s))
                + index_bytes(culture, wide_strings(s))
                + index_bytes(hash_value, wide_blobs(s)),
        ),
    ensures
        m.row::<AssemblyRefRow>(rid) matches Ok(r) && r.major_version == major_version && r.minor_version == minor_version && r.build_number == build_number && r.revision_number == revision_number && r.flags == flags && r.public_key_or_token.0 == public_key_or_token && r.name.0 == name && r.culture.0 == culture && r.hash_value.0 == hash_value,
        m.layout(TableId::AssemblyRef).row_size == (reader::written16(major_version) + reader::written16(minor_version) + reader::written16(build_number) + reader::written16(revision_number) + reader::written32(flags) + index_bytes(public_key_or_token, wide_blobs(s)) + index_bytes(name, wide_strings(s)) + index_bytes(culture, wide_strings(s)) + index_bytes(hash_value, wide_blobs(s))).len(),
{
    lemma_heap_widths(s);
    lemma_fixed(format(s), major_version, 0);
    lemma_fixed(format(s), minor_version, 0);
    lemma_fixed(format(s), build_number, 0);
    lemma_fixed(format(s), revision_number, 0);
    lemma_fixed(format(s), 0, flags);
    let values = seq![major_version as u32, minor_version as u32, build_number as u32, revision_number as u32, flags, public_key_or_token, name, culture, hash_value];
    let table = TableId::AssemblyRef;
    let w = format(s);
    let columns = rows::columns(table);
    let part1 = reader::written16(major_version);
    lemma_first_written(w, columns, values, part1);
    let part2 = part1 + reader::written16(minor_version);
    lemma_cell_written(w, columns, values, 1, part1, reader::written16(minor_version));
    let part3 = part2 + reader::written16(build_number);
    lemma_cell_written(w, columns, values, 2, part2, reader::written16(build_number));
    let part4 = part3 + reader::written16(revision_number);
    lemma_cell_written(w, columns, values, 3, part3, reader::written16(revision_number));
    let part5 = part4 + reader::written32(flags);
    lemma_cell_written(w, columns, values, 4, part4, reader::written32(flags));
    let part6 = part5 + index_bytes(public_key_or_token, wide_blobs(s));
    lemma_cell_written(w, columns, values, 5, part5, index_bytes(public_key_or_token, wide_blobs(s)));
    let part7 = part6 + index_bytes(name, wide_strings(s));
    lemma_cell_written(w, columns, values, 6, part6, index_bytes(name, wide_strings(s)));
    let part8 = part7 + index_bytes(culture, wide_strings(s));
    lemma_cell_written(w, columns, values, 7, part7, index_bytes(culture, wide_strings(s)));
    let part9 = part8 + index_bytes(hash_value, wide_blobs(s));
    lemma_cell_written(w, columns, values, 8, part8, index_bytes(hash_value, wide_blobs(s)));
    lemma_row_cells(s, m, table, rid, values);
    lemma_no_error(m.row_model(table, rid), columns, 0);
    assert(AssemblyRefRow::column_list() == columns);
    let row = m.row_model(table, rid);
    assert(row.value(0) == values[0] && row.value(1) == values[1] && row.value(2) == values[2] && row.value(3) == values[3] && row.value(4) == values[4] && row.value(5) == values[5] && row.value(6) == values[6] && row.value(7) == values[7] && row.value(8) == values[8]);
}


/// A row of `AssemblyRefProcessor` (II.22.7) that is laid out column by column reads back field by
/// field.
pub proof fn lemma_written_assembly_ref_processor(
    s: TableStream,
    m: TablesModel,
    rid: u32,
    processor: u32,
    assembly_ref: u32,
)
    requires
        index_fits(assembly_ref, wide_rows(s, 0x23)),
        row_is(
            s,
            m,
            TableId::AssemblyRefProcessor,
            rid,
            reader::written32(processor)
                + index_bytes(assembly_ref, wide_rows(s, 0x23)),
        ),
    ensures
        m.row::<AssemblyRefProcessorRow>(rid) matches Ok(r) && r.processor == processor && r.assembly_ref.number() == assembly_ref,
        m.layout(TableId::AssemblyRefProcessor).row_size == (reader::written32(processor) + index_bytes(assembly_ref, wide_rows(s, 0x23))).len(),
{
    lemma_rid_width(s, TableId::AssemblyRef);
    token::lemma_rid_number(token::Rid::<token::marker::AssemblyRef>::of(assembly_ref), assembly_ref);
    lemma_heap_widths(s);
    lemma_fixed(format(s), 0, processor);
    let values = seq![processor, assembly_ref];
    let table = TableId::AssemblyRefProcessor;
    let w = format(s);
    let columns = rows::columns(table);
    let part1 = reader::written32(processor);
    lemma_first_written(w, columns, values, part1);
    let part2 = part1 + index_bytes(assembly_ref, wide_rows(s, 0x23));
    lemma_cell_written(w, columns, values, 1, part1, index_bytes(assembly_ref, wide_rows(s, 0x23)));
    lemma_row_cells(s, m, table, rid, values);
    lemma_no_error(m.row_model(table, rid), columns, 0);
    assert(AssemblyRefProcessorRow::column_list() == columns);
    let row = m.row_model(table, rid);
    assert(row.value(0) == values[0] && row.value(1) == values[1]);
}


/// A row of `AssemblyRefOs` (II.22.6) that is laid out column by column reads back field by
/// field.
pub proof fn lemma_written_assembly_ref_os(
    s: TableStream,
    m: TablesModel,
    rid: u32,
    os_platform_id: u32,
    os_major_version: u32,
    os_minor_version: u32,
    assembly_ref: u32,
)
    requires
        index_fits(assembly_ref, wide_rows(s, 0x23)),
        row_is(
            s,
            m,
            TableId::AssemblyRefOs,
            rid,
            reader::written32(os_platform_id)
                + reader::written32(os_major_version)
                + reader::written32(os_minor_version)
                + index_bytes(assembly_ref, wide_rows(s, 0x23)),
        ),
    ensures
        m.row::<AssemblyRefOsRow>(rid) matches Ok(r) && r.os_platform_id == os_platform_id && r.os_major_version == os_major_version && r.os_minor_version == os_minor_version && r.assembly_ref.number() == assembly_ref,
        m.layout(TableId::AssemblyRefOs).row_size == (reader::written32(os_platform_id) + reader::written32(os_major_version) + reader::written32(os_minor_version) + index_bytes(assembly_ref, wide_rows(s, 0x23))).len(),
{
    lemma_rid_width(s, TableId::AssemblyRef);
    token::lemma_rid_number(token::Rid::<token::marker::AssemblyRef>::of(assembly_ref), assembly_ref);
    lemma_heap_widths(s);
    lemma_fixed(format(s), 0, os_platform_id);
    lemma_fixed(format(s), 0, os_major_version);
    lemma_fixed(format(s), 0, os_minor_version);
    let values = seq![os_platform_id, os_major_version, os_minor_version, assembly_ref];
    let table = TableId::AssemblyRefOs;
    let w = format(s);
    let columns = rows::columns(table);
    let part1 = reader::written32(os_platform_id);
    lemma_first_written(w, columns, values, part1);
    let part2 = part1 + reader::written32(os_major_version);
    lemma_cell_written(w, columns, values, 1, part1, reader::written32(os_major_version));
    let part3 = part2 + reader::written32(os_minor_version);
    lemma_cell_written(w, columns, values, 2, part2, reader::written32(os_minor_version));
    let part4 = part3 + index_bytes(assembly_ref, wide_rows(s, 0x23));
    lemma_cell_written(w, columns, values, 3, part3, index_bytes(assembly_ref, wide_rows(s, 0x23)));
    lemma_row_cells(s, m, table, rid, values);
    lemma_no_error(m.row_model(table, rid), columns, 0);
    assert(AssemblyRefOsRow::column_list() == columns);
    let row = m.row_model(table, rid);
    assert(row.value(0) == values[0] && row.value(1) == values[1] && row.value(2) == values[2] && row.value(3) == values[3]);
}


/// A row of `File` (II.22.19) that is laid out column by column reads back field by
/// field.
pub proof fn lemma_written_file(
    s: TableStream,
    m: TablesModel,
    rid: u32,
    flags: u32,
    name: u32,
    hash_value: u32,
)
    requires
        index_fits(name, wide_strings(s)),
        index_fits(hash_value, wide_blobs(s)),
        row_is(
            s,
            m,
            TableId::File,
            rid,
            reader::written32(flags)
                + index_bytes(name, wide_strings(s))
                + index_bytes(hash_value, wide_blobs(s)),
        ),
    ensures
        m.row::<FileRow>(rid) matches Ok(r) && r.flags == flags && r.name.0 == name && r.hash_value.0 == hash_value,
        m.layout(TableId::File).row_size == (reader::written32(flags) + index_bytes(name, wide_strings(s)) + index_bytes(hash_value, wide_blobs(s))).len(),
{
    lemma_heap_widths(s);
    lemma_fixed(format(s), 0, flags);
    let values = seq![flags, name, hash_value];
    let table = TableId::File;
    let w = format(s);
    let columns = rows::columns(table);
    let part1 = reader::written32(flags);
    lemma_first_written(w, columns, values, part1);
    let part2 = part1 + index_bytes(name, wide_strings(s));
    lemma_cell_written(w, columns, values, 1, part1, index_bytes(name, wide_strings(s)));
    let part3 = part2 + index_bytes(hash_value, wide_blobs(s));
    lemma_cell_written(w, columns, values, 2, part2, index_bytes(hash_value, wide_blobs(s)));
    lemma_row_cells(s, m, table, rid, values);
    lemma_no_error(m.row_model(table, rid), columns, 0);
    assert(FileRow::column_list() == columns);
    let row = m.row_model(table, rid);
    assert(row.value(0) == values[0] && row.value(1) == values[1] && row.value(2) == values[2]);
}


/// A row of `ExportedType` (II.22.14) that is laid out column by column reads back field by
/// field.
pub proof fn lemma_written_exported_type(
    s: TableStream,
    m: TablesModel,
    rid: u32,
    flags: u32,
    type_def_id: u32,
    name: u32,
    type_namespace: u32,
    implementation: Token,
)
    requires
        index_fits(name, wide_strings(s)),
        index_fits(type_namespace, wide_strings(s)),
        codable(CodedIndex::Implementation, implementation),
        index_fits(coded_number(CodedIndex::Implementation, implementation), wide_coded(s, CodedIndex::Implementation)),
        row_is(
            s,
            m,
            TableId::ExportedType,
            rid,
            reader::written32(flags)
                + reader::written32(type_def_id)
                + index_bytes(name, wide_strings(s))
                + index_bytes(type_namespace, wide_strings(s))
                + index_bytes(coded_number(CodedIndex::Implementation, implementation), wide_coded(s, CodedIndex::Implementation)),
        ),
    ensures
        m.row::<ExportedTypeRow>(rid) matches Ok(r) && r.flags == flags && r.type_def_id == type_def_id && r.name.0 == name && r.type_namespace.0 == type_namespace && r.implementation == implementation,
        m.layout(TableId::ExportedType).row_size == (reader::written32(flags) + reader::written32(type_def_id) + index_bytes(name, wide_strings(s)) + index_bytes(type_namespace, wide_strings(s)) + index_bytes(coded_number(CodedIndex::Implementation, implementation), wide_coded(s, CodedIndex::Implementation))).len(),
{
    lemma_coded_width(s, CodedIndex::Implementation);
    lemma_coded_reads_back(CodedIndex::Implementation, implementation, 0);
    lemma_heap_widths(s);
    lemma_fixed(format(s), 0, flags);
    lemma_fixed(format(s), 0, type_def_id);
    let values = seq![flags, type_def_id, name, type_namespace, coded_number(CodedIndex::Implementation, implementation)];
    let table = TableId::ExportedType;
    let w = format(s);
    let columns = rows::columns(table);
    let part1 = reader::written32(flags);
    lemma_first_written(w, columns, values, part1);
    let part2 = part1 + reader::written32(type_def_id);
    lemma_cell_written(w, columns, values, 1, part1, reader::written32(type_def_id));
    let part3 = part2 + index_bytes(name, wide_strings(s));
    lemma_cell_written(w, columns, values, 2, part2, index_bytes(name, wide_strings(s)));
    let part4 = part3 + index_bytes(type_namespace, wide_strings(s));
    lemma_cell_written(w, columns, values, 3, part3, index_bytes(type_namespace, wide_strings(s)));
    let part5 = part4 + index_bytes(coded_number(CodedIndex::Implementation, implementation), wide_coded(s, CodedIndex::Implementation));
    lemma_cell_written(w, columns, values, 4, part4, index_bytes(coded_number(CodedIndex::Implementation, implementation), wide_coded(s, CodedIndex::Implementation)));
    lemma_row_cells(s, m, table, rid, values);
    lemma_no_error(m.row_model(table, rid), columns, 0);
    assert(ExportedTypeRow::column_list() == columns);
    let row = m.row_model(table, rid);
    assert(row.value(0) == values[0] && row.value(1) == values[1] && row.value(2) == values[2] && row.value(3) == values[3] && row.value(4) == values[4]);
}


/// A row of `ManifestResource` (II.22.24) that is laid out column by column reads back field by
/// field.
pub proof fn lemma_written_manifest_resource(
    s: TableStream,
    m: TablesModel,
    rid: u32,
    offset: u32,
    flags: u32,
    name: u32,
    implementation: Token,
)
    requires
        index_fits(name, wide_strings(s)),
        codable(CodedIndex::Implementation, implementation),
        index_fits(coded_number(CodedIndex::Implementation, implementation), wide_coded(s, CodedIndex::Implementation)),
        row_is(
            s,
            m,
            TableId::ManifestResource,
            rid,
            reader::written32(offset)
                + reader::written32(flags)
                + index_bytes(name, wide_strings(s))
                + index_bytes(coded_number(CodedIndex::Implementation, implementation), wide_coded(s, CodedIndex::Implementation)),
        ),
    ensures
        m.row::<ManifestResourceRow>(rid) matches Ok(r) && r.offset == offset && r.flags == flags && r.name.0 == name && r.implementation == implementation,
        m.layout(TableId::ManifestResource).row_size == (reader::written32(offset) + reader::written32(flags) + index_bytes(name, wide_strings(s)) + index_bytes(coded_number(CodedIndex::Implementation, implementation), wide_coded(s, CodedIndex::Implementation))).len(),
{
    lemma_coded_width(s, CodedIndex::Implementation);
    lemma_coded_reads_back(CodedIndex::Implementation, implementation, 0);
    lemma_heap_widths(s);
    lemma_fixed(format(s), 0, offset);
    lemma_fixed(format(s), 0, flags);
    let values = seq![offset, flags, name, coded_number(CodedIndex::Implementation, implementation)];
    let table = TableId::ManifestResource;
    let w = format(s);
    let columns = rows::columns(table);
    let part1 = reader::written32(offset);
    lemma_first_written(w, columns, values, part1);
    let part2 = part1 + reader::written32(flags);
    lemma_cell_written(w, columns, values, 1, part1, reader::written32(flags));
    let part3 = part2 + index_bytes(name, wide_strings(s));
    lemma_cell_written(w, columns, values, 2, part2, index_bytes(name, wide_strings(s)));
    let part4 = part3 + index_bytes(coded_number(CodedIndex::Implementation, implementation), wide_coded(s, CodedIndex::Implementation));
    lemma_cell_written(w, columns, values, 3, part3, index_bytes(coded_number(CodedIndex::Implementation, implementation), wide_coded(s, CodedIndex::Implementation)));
    lemma_row_cells(s, m, table, rid, values);
    lemma_no_error(m.row_model(table, rid), columns, 0);
    assert(ManifestResourceRow::column_list() == columns);
    let row = m.row_model(table, rid);
    assert(row.value(0) == values[0] && row.value(1) == values[1] && row.value(2) == values[2] && row.value(3) == values[3]);
}


/// A row of `NestedClass` (II.22.32) that is laid out column by column reads back field by
/// field.
pub proof fn lemma_written_nested_class(
    s: TableStream,
    m: TablesModel,
    rid: u32,
    nested_class: u32,
    enclosing_class: u32,
)
    requires
        index_fits(nested_class, wide_rows(s, 0x02)),
        index_fits(enclosing_class, wide_rows(s, 0x02)),
        row_is(
            s,
            m,
            TableId::NestedClass,
            rid,
            index_bytes(nested_class, wide_rows(s, 0x02))
                + index_bytes(enclosing_class, wide_rows(s, 0x02)),
        ),
    ensures
        m.row::<NestedClassRow>(rid) matches Ok(r) && r.nested_class.number() == nested_class && r.enclosing_class.number() == enclosing_class,
        m.layout(TableId::NestedClass).row_size == (index_bytes(nested_class, wide_rows(s, 0x02)) + index_bytes(enclosing_class, wide_rows(s, 0x02))).len(),
{
    lemma_rid_width(s, TableId::TypeDef);
    token::lemma_rid_number(token::Rid::<token::marker::TypeDef>::of(nested_class), nested_class);
    token::lemma_rid_number(token::Rid::<token::marker::TypeDef>::of(enclosing_class), enclosing_class);
    lemma_heap_widths(s);
    let values = seq![nested_class, enclosing_class];
    let table = TableId::NestedClass;
    let w = format(s);
    let columns = rows::columns(table);
    let part1 = index_bytes(nested_class, wide_rows(s, 0x02));
    lemma_first_written(w, columns, values, part1);
    let part2 = part1 + index_bytes(enclosing_class, wide_rows(s, 0x02));
    lemma_cell_written(w, columns, values, 1, part1, index_bytes(enclosing_class, wide_rows(s, 0x02)));
    lemma_row_cells(s, m, table, rid, values);
    lemma_no_error(m.row_model(table, rid), columns, 0);
    assert(NestedClassRow::column_list() == columns);
    let row = m.row_model(table, rid);
    assert(row.value(0) == values[0] && row.value(1) == values[1]);
}


/// A row of `GenericParam` (II.22.20) that is laid out column by column reads back field by
/// field.
pub proof fn lemma_written_generic_param(
    s: TableStream,
    m: TablesModel,
    rid: u32,
    number: u16,
    flags: u16,
    owner: Token,
    name: u32,
)
    requires
        codable(CodedIndex::TypeOrMethodDef, owner),
        index_fits(coded_number(CodedIndex::TypeOrMethodDef, owner), wide_coded(s, CodedIndex::TypeOrMethodDef)),
        index_fits(name, wide_strings(s)),
        row_is(
            s,
            m,
            TableId::GenericParam,
            rid,
            reader::written16(number)
                + reader::written16(flags)
                + index_bytes(coded_number(CodedIndex::TypeOrMethodDef, owner), wide_coded(s, CodedIndex::TypeOrMethodDef))
                + index_bytes(name, wide_strings(s)),
        ),
    ensures
        m.row::<GenericParamRow>(rid) matches Ok(r) && r.number == number && r.flags == flags && r.owner == owner && r.name.0 == name,
        m.layout(TableId::GenericParam).row_size == (reader::written16(number) + reader::written16(flags) + index_bytes(coded_number(CodedIndex::TypeOrMethodDef, owner), wide_coded(s, CodedIndex::TypeOrMethodDef)) + index_bytes(name, wide_strings(s))).len(),
{
    lemma_coded_width(s, CodedIndex::TypeOrMethodDef);
    lemma_coded_reads_back(CodedIndex::TypeOrMethodDef, owner, 0);
    lemma_heap_widths(s);
    lemma_fixed(format(s), number, 0);
    lemma_fixed(format(s), flags, 0);
    let values = seq![number as u32, flags as u32, coded_number(CodedIndex::TypeOrMethodDef, owner), name];
    let table = TableId::GenericParam;
    let w = format(s);
    let columns = rows::columns(table);
    let part1 = reader::written16(number);
    lemma_first_written(w, columns, values, part1);
    let part2 = part1 + reader::written16(flags);
    lemma_cell_written(w, columns, values, 1, part1, reader::written16(flags));
    let part3 = part2 + index_bytes(coded_number(CodedIndex::TypeOrMethodDef, owner), wide_coded(s, CodedIndex::TypeOrMethodDef));
    lemma_cell_written(w, columns, values, 2, part2, index_bytes(coded_number(CodedIndex::TypeOrMethodDef, owner), wide_coded(s, CodedIndex::TypeOrMethodDef)));
    let part4 = part3 + index_bytes(name, wide_strings(s));
    lemma_cell_written(w, columns, values, 3, part3, index_bytes(name, wide_strings(s)));
    lemma_row_cells(s, m, table, rid, values);
    lemma_no_error(m.row_model(table, rid), columns, 0);
    assert(GenericParamRow::column_list() == columns);
    let row = m.row_model(table, rid);
    assert(row.value(0) == values[0] && row.value(1) == values[1] && row.value(2) == values[2] && row.value(3) == values[3]);
}


/// A row of `MethodSpec` (II.22.29) that is laid out column by column reads back field by
/// field.
pub proof fn lemma_written_method_spec(
    s: TableStream,
    m: TablesModel,
    rid: u32,
    method: Token,
    instantiation: u32,
)
    requires
        codable(CodedIndex::MethodDefOrRef, method),
        index_fits(coded_number(CodedIndex::MethodDefOrRef, method), wide_coded(s, CodedIndex::MethodDefOrRef)),
        index_fits(instantiation, wide_blobs(s)),
        row_is(
            s,
            m,
            TableId::MethodSpec,
            rid,
            index_bytes(coded_number(CodedIndex::MethodDefOrRef, method), wide_coded(s, CodedIndex::MethodDefOrRef))
                + index_bytes(instantiation, wide_blobs(s)),
        ),
    ensures
        m.row::<MethodSpecRow>(rid) matches Ok(r) && r.method == method && r.instantiation.0 == instantiation,
        m.layout(TableId::MethodSpec).row_size == (index_bytes(coded_number(CodedIndex::MethodDefOrRef, method), wide_coded(s, CodedIndex::MethodDefOrRef)) + index_bytes(instantiation, wide_blobs(s))).len(),
{
    lemma_coded_width(s, CodedIndex::MethodDefOrRef);
    lemma_coded_reads_back(CodedIndex::MethodDefOrRef, method, 0);
    lemma_heap_widths(s);
    let values = seq![coded_number(CodedIndex::MethodDefOrRef, method), instantiation];
    let table = TableId::MethodSpec;
    let w = format(s);
    let columns = rows::columns(table);
    let part1 = index_bytes(coded_number(CodedIndex::MethodDefOrRef, method), wide_coded(s, CodedIndex::MethodDefOrRef));
    lemma_first_written(w, columns, values, part1);
    let part2 = part1 + index_bytes(instantiation, wide_blobs(s));
    lemma_cell_written(w, columns, values, 1, part1, index_bytes(instantiation, wide_blobs(s)));
    lemma_row_cells(s, m, table, rid, values);
    lemma_no_error(m.row_model(table, rid), columns, 0);
    assert(MethodSpecRow::column_list() == columns);
    let row = m.row_model(table, rid);
    assert(row.value(0) == values[0] && row.value(1) == values[1]);
}


/// A row of `GenericParamConstraint` (II.22.21) that is laid out column by column reads back field by
/// field.
pub proof fn lemma_written_generic_param_constraint(
    s: TableStream,
    m: TablesModel,
    rid: u32,
    owner: u32,
    constraint: Token,
)
    requires
        index_fits(owner, wide_rows(s, 0x2A)),
        codable(CodedIndex::TypeDefOrRef, constraint),
        index_fits(coded_number(CodedIndex::TypeDefOrRef, constraint), wide_coded(s, CodedIndex::TypeDefOrRef)),
        row_is(
            s,
            m,
            TableId::GenericParamConstraint,
            rid,
            index_bytes(owner, wide_rows(s, 0x2A))
                + index_bytes(coded_number(CodedIndex::TypeDefOrRef, constraint), wide_coded(s, CodedIndex::TypeDefOrRef)),
        ),
    ensures
        m.row::<GenericParamConstraintRow>(rid) matches Ok(r) && r.owner.number() == owner && r.constraint == constraint,
        m.layout(TableId::GenericParamConstraint).row_size == (index_bytes(owner, wide_rows(s, 0x2A)) + index_bytes(coded_number(CodedIndex::TypeDefOrRef, constraint), wide_coded(s, CodedIndex::TypeDefOrRef))).len(),
{
    lemma_rid_width(s, TableId::GenericParam);
    token::lemma_rid_number(token::Rid::<token::marker::GenericParam>::of(owner), owner);
    lemma_coded_width(s, CodedIndex::TypeDefOrRef);
    lemma_coded_reads_back(CodedIndex::TypeDefOrRef, constraint, 0);
    lemma_heap_widths(s);
    let values = seq![owner, coded_number(CodedIndex::TypeDefOrRef, constraint)];
    let table = TableId::GenericParamConstraint;
    let w = format(s);
    let columns = rows::columns(table);
    let part1 = index_bytes(owner, wide_rows(s, 0x2A));
    lemma_first_written(w, columns, values, part1);
    let part2 = part1 + index_bytes(coded_number(CodedIndex::TypeDefOrRef, constraint), wide_coded(s, CodedIndex::TypeDefOrRef));
    lemma_cell_written(w, columns, values, 1, part1, index_bytes(coded_number(CodedIndex::TypeDefOrRef, constraint), wide_coded(s, CodedIndex::TypeDefOrRef)));
    lemma_row_cells(s, m, table, rid, values);
    lemma_no_error(m.row_model(table, rid), columns, 0);
    assert(GenericParamConstraintRow::column_list() == columns);
    let row = m.row_model(table, rid);
    assert(row.value(0) == values[0] && row.value(1) == values[1]);
}


/// A row of `Document` that is laid out column by column reads back field by
/// field.
pub proof fn lemma_written_document(
    s: TableStream,
    m: TablesModel,
    rid: u32,
    name: u32,
    hash_algorithm: u32,
    hash: u32,
    language: u32,
)
    requires
        index_fits(name, wide_blobs(s)),
        index_fits(hash_algorithm, wide_guids(s)),
        index_fits(hash, wide_blobs(s)),
        index_fits(language, wide_guids(s)),
        row_is(
            s,
            m,
            TableId::Document,
            rid,
            index_bytes(name, wide_blobs(s))
                + index_bytes(hash_algorithm, wide_guids(s))
                + index_bytes(hash, wide_blobs(s))
                + index_bytes(language, wide_guids(s)),
        ),
    ensures
        m.row::<DocumentRow>(rid) matches Ok(r) && r.name.0 == name && r.hash_algorithm.0 == hash_algorithm && r.hash.0 == hash && r.language.0 == language,
        m.layout(TableId::Document).row_size == (index_bytes(name, wide_blobs(s)) + index_bytes(hash_algorithm, wide_guids(s)) + index_bytes(hash, wide_blobs(s)) + index_bytes(language, wide_guids(s))).len(),
{
    lemma_heap_widths(s);
    let values = seq![name, hash_algorithm, hash, language];
    let table = TableId::Document;
    let w = format(s);
    let columns = rows::columns(table);
    let part1 = index_bytes(name, wide_blobs(s));
    lemma_first_written(w, columns, values, part1);
    let part2 = part1 + index_bytes(hash_algorithm, wide_guids(s));
    lemma_cell_written(w, columns, values, 1, part1, index_bytes(hash_algorithm, wide_guids(s)));
    let part3 = part2 + index_bytes(hash, wide_blobs(s));
    lemma_cell_written(w, columns, values, 2, part2, index_bytes(hash, wide_blobs(s)));
    let part4 = part3 + index_bytes(language, wide_guids(s));
    lemma_cell_written(w, columns, values, 3, part3, index_bytes(language, wide_guids(s)));
    lemma_row_cells(s, m, table, rid, values);
    lemma_no_error(m.row_model(table, rid), columns, 0);
    assert(DocumentRow::column_list() == columns);
    let row = m.row_model(table, rid);
    assert(row.value(0) == values[0] && row.value(1) == values[1] && row.value(2) == values[2] && row.value(3) == values[3]);
}


/// A row of `MethodDebugInformation` that is laid out column by column reads back field by
/// field.
pub proof fn lemma_written_method_debug_information(
    s: TableStream,
    m: TablesModel,
    rid: u32,
    document: u32,
    sequence_points: u32,
)
    requires
        index_fits(document, wide_rows(s, 0x30)),
        index_fits(sequence_points, wide_blobs(s)),
        row_is(
            s,
            m,
            TableId::MethodDebugInformation,
            rid,
            index_bytes(document, wide_rows(s, 0x30))
                + index_bytes(sequence_points, wide_blobs(s)),
        ),
    ensures
        m.row::<MethodDebugInformationRow>(rid) matches Ok(r) && r.document.number() == document && r.sequence_points.0 == sequence_points,
        m.layout(TableId::MethodDebugInformation).row_size == (index_bytes(document, wide_rows(s, 0x30)) + index_bytes(sequence_points, wide_blobs(s))).len(),
{
    lemma_rid_width(s, TableId::Document);
    token::lemma_rid_number(token::Rid::<token::marker::Document>::of(document), document);
    lemma_heap_widths(s);
    let values = seq![document, sequence_points];
    let table = TableId::MethodDebugInformation;
    let w = format(s);
    let columns = rows::columns(table);
    let part1 = index_bytes(document, wide_rows(s, 0x30));
    lemma_first_written(w, columns, values, part1);
    let part2 = part1 + index_bytes(sequence_points, wide_blobs(s));
    lemma_cell_written(w, columns, values, 1, part1, index_bytes(sequence_points, wide_blobs(s)));
    lemma_row_cells(s, m, table, rid, values);
    lemma_no_error(m.row_model(table, rid), columns, 0);
    assert(MethodDebugInformationRow::column_list() == columns);
    let row = m.row_model(table, rid);
    assert(row.value(0) == values[0] && row.value(1) == values[1]);
}


/// A row of `LocalScope` that is laid out column by column reads back field by
/// field.
#[verifier::rlimit(40)]
pub proof fn lemma_written_local_scope(
    s: TableStream,
    m: TablesModel,
    rid: u32,
    method: u32,
    import_scope: u32,
    variable_list: u32,
    constant_list: u32,
    start_offset: u32,
    length: u32,
)
    requires
        index_fits(method, wide_rows(s, 0x06)),
        index_fits(import_scope, wide_rows(s, 0x35)),
        index_fits(variable_list, wide_rows(s, 0x33)),
        index_fits(constant_list, wide_rows(s, 0x34)),
        row_is(
            s,
            m,
            TableId::LocalScope,
            rid,
            index_bytes(method, wide_rows(s, 0x06))
                + index_bytes(import_scope, wide_rows(s, 0x35))
                + index_bytes(variable_list, wide_rows(s, 0x33))
                + index_bytes(constant_list, wide_rows(s, 0x34))
                + reader::written32(start_offset)
                + reader::written32(length),
        ),
    ensures
        m.row::<LocalScopeRow>(rid) matches Ok(r) && r.method.number() == method && r.import_scope.number() == import_scope && r.variable_list.number() == variable_list && r.constant_list.number() == constant_list && r.start_offset == start_offset && r.length == length,
        m.layout(TableId::LocalScope).row_size == (index_bytes(method, wide_rows(s, 0x06)) + index_bytes(import_scope, wide_rows(s, 0x35)) + index_bytes(variable_list, wide_rows(s, 0x33)) + index_bytes(constant_list, wide_rows(s, 0x34)) + reader::written32(start_offset) + reader::written32(length)).len(),
{
    lemma_rid_width(s, TableId::MethodDef);
    token::lemma_rid_number(token::Rid::<token::marker::MethodDef>::of(method), method);
    lemma_rid_width(s, TableId::ImportScope);
    token::lemma_rid_number(token::Rid::<token::marker::ImportScope>::of(import_scope), import_scope);
    lemma_rid_width(s, TableId::LocalVariable);
    token::lemma_rid_number(token::Rid::<token::marker::LocalVariable>::of(variable_list), variable_list);
    lemma_rid_width(s, TableId::LocalConstant);
    token::lemma_rid_number(token::Rid::<token::marker::LocalConstant>::of(constant_list), constant_list);
    lemma_heap_widths(s);
    lemma_fixed(format(s), 0, start_offset);
    lemma_fixed(format(s), 0, length);
    let values = seq![method, import_scope, variable_list, constant_list, start_offset, length];
    let table = TableId::LocalScope;
    let w = format(s);
    let columns = rows::columns(table);
    let part1 = index_bytes(method, wide_rows(s, 0x06));
    lemma_first_written(w, columns, values, part1);
    let part2 = part1 + index_bytes(import_scope, wide_rows(s, 0x35));
    lemma_cell_written(w, columns, values, 1, part1, index_bytes(import_scope, wide_rows(s, 0x35)));
    let part3 = part2 + index_bytes(variable_list, wide_rows(s, 0x33));
    lemma_cell_written(w, columns, values, 2, part2, index_bytes(variable_list, wide_rows(s, 0x33)));
    let part4 = part3 + index_bytes(constant_list, wide_rows(s, 0x34));
    lemma_cell_written(w, columns, values, 3, part3, index_bytes(constant_list, wide_rows(s, 0x34)));
    let part5 = part4 + reader::written32(start_offset);
    lemma_cell_written(w, columns, values, 4, part4, reader::written32(start_offset));
    let part6 = part5 + reader::written32(length);
    lemma_cell_written(w, columns, values, 5, part5, reader::written32(length));
    lemma_row_cells(s, m, table, rid, values);
    lemma_no_error(m.row_model(table, rid), columns, 0);
    assert(LocalScopeRow::column_list() == columns);
    let row = m.row_model(table, rid);
    assert(row.value(0) == values[0] && row.value(1) == values[1] && row.value(2) == values[2] && row.value(3) == values[3] && row.value(4) == values[4] && row.value(5) == values[5]);
}


/// A row of `LocalVariable` that is laid out column by column reads back field by
/// field.
pub proof fn lemma_written_local_variable(
    s: TableStream,
    m: TablesModel,
    rid: u32,
    attributes: u16,
    index: u16,
    name: u32,
)
    requires
        index_fits(name, wide_strings(s)),
        row_is(
            s,
            m,
            TableId::LocalVariable,
            rid,
            reader::written16(attributes)
                + reader::written16(index)
                + index_bytes(name, wide_strings(s)),
        ),
    ensures
        m.row::<LocalVariableRow>(rid) matches Ok(r) && r.attributes == attributes && r.index == index && r.name.0 == name,
        m.layout(TableId::LocalVariable).row_size == (reader::written16(attributes) + reader::written16(index) + index_bytes(name, wide_strings(s))).len(),
{
    lemma_heap_widths(s);
    lemma_fixed(format(s), attributes, 0);
    lemma_fixed(format(s), index, 0);
    let values = seq![attributes as u32, index as u32, name];
    let table = TableId::LocalVariable;
    let w = format(s);
    let columns = rows::columns(table);
    let part1 = reader::written16(attributes);
    lemma_first_written(w, columns, values, part1);
    let part2 = part1 + reader::written16(index);
    lemma_cell_written(w, columns, values, 1, part1, reader::written16(index));
    let part3 = part2 + index_bytes(name, wide_strings(s));
    lemma_cell_written(w, columns, values, 2, part2, index_bytes(name, wide_strings(s)));
    lemma_row_cells(s, m, table, rid, values);
    lemma_no_error(m.row_model(table, rid), columns, 0);
    assert(LocalVariableRow::column_list() == columns);
    let row = m.row_model(table, rid);
    assert(row.value(0) == values[0] && row.value(1) == values[1] && row.value(2) == values[2]);
}


/// A row of `LocalConstant` that is laid out column by column reads back field by
/// field.
pub proof fn lemma_written_local_constant(
    s: TableStream,
    m: TablesModel,
    rid: u32,
    name: u32,
    signature: u32,
)
    requires
        index_fits(name, wide_strings(s)),
        index_fits(signature, wide_blobs(s)),
        row_is(
            s,
            m,
            TableId::LocalConstant,
            rid,
            index_bytes(name, wide_strings(s))
                + index_bytes(signature, wide_blobs(s)),
        ),
    ensures
        m.row::<LocalConstantRow>(rid) matches Ok(r) && r.name.0 == name && r.signature.0 == signature,
        m.layout(TableId::LocalConstant).row_size == (index_bytes(name, wide_strings(s)) + index_bytes(signature, wide_blobs(s))).len(),
{
    lemma_heap_widths(s);
    let values = seq![name, signature];
    let table = TableId::LocalConstant;
    let w = format(s);
    let columns = rows::columns(table);
    let part1 = index_bytes(name, wide_strings(s));
    lemma_first_written(w, columns, values, part1);
    let part2 = part1 + index_bytes(signature, wide_blobs(s));
    lemma_cell_written(w, columns, values, 1, part1, index_bytes(signature, wide_blobs(s)));
    lemma_row_cells(s, m, table, rid, values);
    lemma_no_error(m.row_model(table, rid), columns, 0);
    assert(LocalConstantRow::column_list() == columns);
    let row = m.row_model(table, rid);
    assert(row.value(0) == values[0] && row.value(1) == values[1]);
}


/// A row of `ImportScope` that is laid out column by column reads back field by
/// field.
pub proof fn lemma_written_import_scope(
    s: TableStream,
    m: TablesModel,
    rid: u32,
    parent: u32,
    imports: u32,
)
    requires
        index_fits(parent, wide_rows(s, 0x35)),
        index_fits(imports, wide_blobs(s)),
        row_is(
            s,
            m,
            TableId::ImportScope,
            rid,
            index_bytes(parent, wide_rows(s, 0x35))
                + index_bytes(imports, wide_blobs(s)),
        ),
    ensures
        m.row::<ImportScopeRow>(rid) matches Ok(r) && r.parent.number() == parent && r.imports.0 == imports,
        m.layout(TableId::ImportScope).row_size == (index_bytes(parent, wide_rows(s, 0x35)) + index_bytes(imports, wide_blobs(s))).len(),
{
    lemma_rid_width(s, TableId::ImportScope);
    token::lemma_rid_number(token::Rid::<token::marker::ImportScope>::of(parent), parent);
    lemma_heap_widths(s);
    let values = seq![parent, imports];
    let table = TableId::ImportScope;
    let w = format(s);
    let columns = rows::columns(table);
    let part1 = index_bytes(parent, wide_rows(s, 0x35));
    lemma_first_written(w, columns, values, part1);
    let part2 = part1 + index_bytes(imports, wide_blobs(s));
    lemma_cell_written(w, columns, values, 1, part1, index_bytes(imports, wide_blobs(s)));
    lemma_row_cells(s, m, table, rid, values);
    lemma_no_error(m.row_model(table, rid), columns, 0);
    assert(ImportScopeRow::column_list() == columns);
    let row = m.row_model(table, rid);
    assert(row.value(0) == values[0] && row.value(1) == values[1]);
}


/// A row of `StateMachineMethod` that is laid out column by column reads back field by
/// field.
pub proof fn lemma_written_state_machine_method(
    s: TableStream,
    m: TablesModel,
    rid: u32,
    move_next_method: u32,
    kickoff_method: u32,
)
    requires
        index_fits(move_next_method, wide_rows(s, 0x06)),
        index_fits(kickoff_method, wide_rows(s, 0x06)),
        row_is(
            s,
            m,
            TableId::StateMachineMethod,
            rid,
            index_bytes(move_next_method, wide_rows(s, 0x06))
                + index_bytes(kickoff_method, wide_rows(s, 0x06)),
        ),
    ensures
        m.row::<StateMachineMethodRow>(rid) matches Ok(r) && r.move_next_method.number() == move_next_method && r.kickoff_method.number() == kickoff_method,
        m.layout(TableId::StateMachineMethod).row_size == (index_bytes(move_next_method, wide_rows(s, 0x06)) + index_bytes(kickoff_method, wide_rows(s, 0x06))).len(),
{
    lemma_rid_width(s, TableId::MethodDef);
    token::lemma_rid_number(token::Rid::<token::marker::MethodDef>::of(move_next_method), move_next_method);
    token::lemma_rid_number(token::Rid::<token::marker::MethodDef>::of(kickoff_method), kickoff_method);
    lemma_heap_widths(s);
    let values = seq![move_next_method, kickoff_method];
    let table = TableId::StateMachineMethod;
    let w = format(s);
    let columns = rows::columns(table);
    let part1 = index_bytes(move_next_method, wide_rows(s, 0x06));
    lemma_first_written(w, columns, values, part1);
    let part2 = part1 + index_bytes(kickoff_method, wide_rows(s, 0x06));
    lemma_cell_written(w, columns, values, 1, part1, index_bytes(kickoff_method, wide_rows(s, 0x06)));
    lemma_row_cells(s, m, table, rid, values);
    lemma_no_error(m.row_model(table, rid), columns, 0);
    assert(StateMachineMethodRow::column_list() == columns);
    let row = m.row_model(table, rid);
    assert(row.value(0) == values[0] && row.value(1) == values[1]);
}


/// A row of `CustomDebugInformation` that is laid out column by column reads back field by
/// field.
pub proof fn lemma_written_custom_debug_information(
    s: TableStream,
    m: TablesModel,
    rid: u32,
    parent: Token,
    kind: u32,
    value: u32,
)
    requires
        codable(CodedIndex::HasCustomDebugInformation, parent),
        index_fits(coded_number(CodedIndex::HasCustomDebugInformation, parent), wide_coded(s, CodedIndex::HasCustomDebugInformation)),
        index_fits(kind, wide_guids(s)),
        index_fits(value, wide_blobs(s)),
        row_is(
            s,
            m,
            TableId::CustomDebugInformation,
            rid,
            index_bytes(coded_number(CodedIndex::HasCustomDebugInformation, parent), wide_coded(s, CodedIndex::HasCustomDebugInformation))
                + index_bytes(kind, wide_guids(s))
                + index_bytes(value, wide_blobs(s)),
        ),
    ensures
        m.row::<CustomDebugInformationRow>(rid) matches Ok(r) && r.parent == parent && r.kind.0 == kind && r.value.0 == value,
        m.layout(TableId::CustomDebugInformation).row_size == (index_bytes(coded_number(CodedIndex::HasCustomDebugInformation, parent), wide_coded(s, CodedIndex::HasCustomDebugInformation)) + index_bytes(kind, wide_guids(s)) + index_bytes(value, wide_blobs(s))).len(),
{
    lemma_coded_width(s, CodedIndex::HasCustomDebugInformation);
    lemma_coded_reads_back(CodedIndex::HasCustomDebugInformation, parent, 0);
    lemma_heap_widths(s);
    let values = seq![coded_number(CodedIndex::HasCustomDebugInformation, parent), kind, value];
    let table = TableId::CustomDebugInformation;
    let w = format(s);
    let columns = rows::columns(table);
    let part1 = index_bytes(coded_number(CodedIndex::HasCustomDebugInformation, parent), wide_coded(s, CodedIndex::HasCustomDebugInformation));
    lemma_first_written(w, columns, values, part1);
    let part2 = part1 + index_bytes(kind, wide_guids(s));
    lemma_cell_written(w, columns, values, 1, part1, index_bytes(kind, wide_guids(s)));
    let part3 = part2 + index_bytes(value, wide_blobs(s));
    lemma_cell_written(w, columns, values, 2, part2, index_bytes(value, wide_blobs(s)));
    lemma_row_cells(s, m, table, rid, values);
    lemma_no_error(m.row_model(table, rid), columns, 0);
    assert(CustomDebugInformationRow::column_list() == columns);
    let row = m.row_model(table, rid);
    assert(row.value(0) == values[0] && row.value(1) == values[1] && row.value(2) == values[2]);
}


} // verus!
