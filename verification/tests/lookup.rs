//! Sort keys and list columns.
use cildec::tables::lookup::sort_key_coded;
use cildec::tables::{
    columns_of, sort_key_column, EventMapRow, MethodDefRow, PropertyMapRow, TypeDefRow,
};
use cildec::{ColumnKind, TableId, TableRow};

#[test]
fn sort_key_columns_are_within_the_table() {
    for &id in TableId::ALL.iter() {
        if let Some(column) = sort_key_column(id) {
            assert!(
                column < columns_of(id).len(),
                "{} key column {} is out of range",
                id.name(),
                column
            );
        }
    }
}

#[test]
fn coded_sort_keys_match_the_declared_column() {
    for &id in TableId::ALL.iter() {
        let (Some(column), Some(kind)) = (sort_key_column(id), sort_key_coded(id)) else {
            continue;
        };
        assert_eq!(
            columns_of(id)[column],
            ColumnKind::Coded(kind),
            "{} key column kind mismatch",
            id.name()
        );
    }
}

#[test]
fn non_coded_sort_keys_are_simple_indices() {
    for &id in TableId::ALL.iter() {
        let Some(column) = sort_key_column(id) else { continue };
        if sort_key_coded(id).is_some() {
            continue;
        }
        assert!(
            matches!(columns_of(id)[column], ColumnKind::Rid(_)),
            "{} key column is neither coded nor a RID",
            id.name()
        );
    }
}

#[test]
fn list_column_indices_match_the_row_layout() {
    let type_def = <TypeDefRow as TableRow>::columns();
    assert_eq!(type_def[4], ColumnKind::Rid(TableId::Field));
    assert_eq!(type_def[5], ColumnKind::Rid(TableId::MethodDef));
    let method = <MethodDefRow as TableRow>::columns();
    assert_eq!(method[5], ColumnKind::Rid(TableId::Param));
    let event_map = <EventMapRow as TableRow>::columns();
    assert_eq!(event_map[1], ColumnKind::Rid(TableId::Event));
    let property_map = <PropertyMapRow as TableRow>::columns();
    assert_eq!(property_map[1], ColumnKind::Rid(TableId::Property));
}
