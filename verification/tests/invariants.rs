//! Invariants of the table layouts.

use cildec::tables::{columns_of, sort_key_column};
use cildec::{CodedIndex, ColumnKind, TableId, Tables};

/// `Tables::sort_key_column` must name a real column of the right shape.
#[test]
fn sort_key_columns_are_well_formed() {
    let tables = Tables::empty();
    for &id in TableId::ALL.iter() {
        let Some(column) = sort_key_column(id) else { continue };
        let columns = columns_of(id);
        assert!(column < columns.len(), "{} key column out of range", id.name());
        assert!(
            matches!(columns[column], ColumnKind::Rid(_) | ColumnKind::Coded(_)),
            "{} key column is neither a RID nor a coded index",
            id.name()
        );
        assert_eq!(tables.sort_key_column(id), Some(column));
    }
    // A table with no sort key reports none through both spellings.
    assert_eq!(sort_key_column(TableId::TypeDef), None);
    assert_eq!(Tables::empty().sort_key_column(TableId::TypeDef), None);
    let _ = CodedIndex::ALL;
}
