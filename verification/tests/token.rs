//! Tokens and row ids.
use cildec::{marker, Rid, TableId, Token};

#[test]
fn token_round_trip() {
    let t = Token::new(TableId::MethodDef, 42);
    assert_eq!(t.0, 0x0600_002A);
    assert_eq!(t.table(), Some(TableId::MethodDef));
    assert_eq!(t.rid(), 42);
    assert!(!t.is_null());
    assert!(Token::new(TableId::MethodDef, 0).is_null());
}

#[test]
fn reserved_table_byte_has_no_table() {
    assert_eq!(Token(0x2D00_0001).table(), None);
    assert_eq!(Token(0x2D00_0001).table_byte(), 0x2D);
    assert_eq!(Token(0x7000_0010).table(), None);
}

#[test]
fn all_ids_round_trip() {
    for &id in TableId::ALL.iter() {
        assert_eq!(TableId::from_u8(id.to_u8()), Some(id));
    }
    assert_eq!(TableId::ALL.len(), 45 + 8);
    assert_eq!(TableId::from_u8(0x2D), None);
    assert_eq!(TableId::from_u8(0x38), None);
}

#[test]
fn rid_is_typed_and_ordered() {
    let a: Rid<marker::TypeDef> = Rid::new(1);
    let b: Rid<marker::TypeDef> = Rid::new(2);
    assert!(a < b);
    assert_eq!(a.index(), Some(0));
    assert_eq!(Rid::<marker::TypeDef>::new(0).index(), None);
    assert_eq!(a.token(), Token::new(TableId::TypeDef, 1));
    assert_eq!(a.token().as_rid::<marker::TypeDef>(), Some(a));
    assert_eq!(a.token().as_rid::<marker::Field>(), None);
}

#[test]
fn ptr_tables_map_both_ways() {
    for &id in TableId::ALL.iter() {
        if let Some(target) = id.ptr_target() {
            assert!(id.is_ptr_table());
            assert_eq!(target.ptr_source(), Some(id));
        }
    }
}
