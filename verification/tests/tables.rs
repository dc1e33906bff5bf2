//! Table layouts.
use cildec::tables::{column_width, columns_of, TypeDefRow, MAX_COLUMNS, TABLE_SLOTS};
use cildec::{CodedIndex, ColumnKind, TableId, Tables};

#[test]
fn every_table_has_at_most_max_columns() {
    for &id in TableId::ALL.iter() {
        let columns = columns_of(id);
        assert!(!columns.is_empty(), "{} has no columns", id.name());
        assert!(columns.len() <= MAX_COLUMNS, "{} has {} columns", id.name(), columns.len());
    }
}

#[test]
fn simple_index_width_switches_at_65536_rows() {
    let mut counts = [0u32; TABLE_SLOTS];
    let kind = ColumnKind::Rid(TableId::TypeDef);
    counts[TableId::TypeDef.to_u8() as usize] = 0xFFFF;
    assert_eq!(column_width(kind, &counts, false, false, false), 2);
    counts[TableId::TypeDef.to_u8() as usize] = 0x1_0000;
    assert_eq!(column_width(kind, &counts, false, false, false), 4);
}

#[test]
fn list_column_width_accounts_for_the_ptr_table() {
    let mut counts = [0u32; TABLE_SLOTS];
    let kind = ColumnKind::Rid(TableId::Field);
    counts[TableId::Field.to_u8() as usize] = 10;
    counts[TableId::FieldPtr.to_u8() as usize] = 0x1_0000;
    assert_eq!(column_width(kind, &counts, false, false, false), 4);
}

#[test]
fn heap_index_widths_follow_heap_sizes() {
    let counts = [0u32; TABLE_SLOTS];
    for bits in 0u8..8 {
        let s = bits & 1 != 0;
        let g = bits & 2 != 0;
        let b = bits & 4 != 0;
        assert_eq!(column_width(ColumnKind::String, &counts, s, g, b), if s { 4 } else { 2 });
        assert_eq!(column_width(ColumnKind::Guid, &counts, s, g, b), if g { 4 } else { 2 });
        assert_eq!(column_width(ColumnKind::Blob, &counts, s, g, b), if b { 4 } else { 2 });
    }
}

#[test]
fn coded_index_width_uses_the_largest_tagged_table() {
    let mut counts = [0u32; TABLE_SLOTS];
    let kind = ColumnKind::Coded(CodedIndex::TypeDefOrRef);
    counts[TableId::TypeSpec.to_u8() as usize] = 0x3FFF;
    assert_eq!(column_width(kind, &counts, false, false, false), 2);
    counts[TableId::TypeSpec.to_u8() as usize] = 0x4000;
    assert_eq!(column_width(kind, &counts, false, false, false), 4);
    // A table that is not tagged by this coded index has no effect.
    let mut counts = [0u32; TABLE_SLOTS];
    counts[TableId::Param.to_u8() as usize] = 0xFFFF;
    assert_eq!(column_width(kind, &counts, false, false, false), 2);
}

#[test]
fn empty_stream_is_usable() {
    let tables = Tables::empty();
    assert_eq!(tables.row_count(TableId::TypeDef), 0);
    assert!(tables.row::<TypeDefRow>(1).is_err());
    assert_eq!(tables.iter::<TypeDefRow>().len(), 0);
}
