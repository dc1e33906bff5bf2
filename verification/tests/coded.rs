//! Coded indices.
use cildec::{CodedIndex, ErrorKind, TableId, Token};

#[test]
fn tag_bits_cover_the_table_list() {
    for &kind in CodedIndex::ALL.iter() {
        let slots = 1usize << kind.tag_bits();
        assert!(
            kind.tables().len() <= slots,
            "{} needs {} slots but has {} tag bits",
            kind.name(),
            kind.tables().len(),
            kind.tag_bits()
        );
        // One fewer tag bit would not fit, i.e. the bit count is minimal.
        if kind.tag_bits() > 0 {
            assert!(kind.tables().len() > slots / 2, "{} wastes a tag bit", kind.name());
        }
    }
}

#[test]
fn decode_round_trips_for_every_tag() {
    for &kind in CodedIndex::ALL.iter() {
        for (tag, table) in kind.tables().iter().enumerate() {
            let raw = (7u32 << kind.tag_bits()) | tag as u32;
            match table {
                Some(t) => {
                    let token = kind.decode(raw, 0).unwrap();
                    assert_eq!(token.table(), Some(*t));
                    assert_eq!(token.rid(), 7);
                    assert_eq!(kind.encode(token), Some(raw));
                }
                None => {
                    assert_eq!(kind.decode(raw, 0).unwrap_err().kind, ErrorKind::Malformed);
                }
            }
        }
    }
}

#[test]
fn undefined_tags_beyond_the_list_are_malformed() {
    // MemberRefParent has 3 tag bits but only 5 tables.
    assert!(CodedIndex::MemberRefParent.decode(5, 0).is_err());
    assert!(CodedIndex::MemberRefParent.decode(7, 0).is_err());
    assert!(CodedIndex::CustomAttributeType.decode(0, 0).is_err());
    assert!(CodedIndex::CustomAttributeType.decode(2, 0).is_ok());
}

#[test]
fn every_kind_switches_width_at_its_own_boundary() {
    for &kind in CodedIndex::ALL.iter() {
        let limit = kind.small_row_limit();
        assert_eq!(limit, 1 << (16 - kind.tag_bits() as u32), "{}", kind.name());
        assert_eq!(kind.column_width(0), 2, "{}", kind.name());
        assert_eq!(kind.column_width(limit - 1), 2, "{}", kind.name());
        assert_eq!(kind.column_width(limit), 4, "{}", kind.name());
        assert_eq!(kind.column_width(u32::MAX), 4, "{}", kind.name());
        // At the boundary the 2-byte form can still address every row of a
        // table with `limit - 1` rows, and no more.
        let widest = u32::MAX >> kind.tag_bits();
        assert!(kind.encode(Token::new(TableId::TypeDef, widest)).is_none() || widest >= limit);
    }
}

#[test]
fn column_width_switches_at_the_documented_boundary() {
    // 2 tag bits -> limit 2^14.
    assert_eq!(CodedIndex::TypeDefOrRef.small_row_limit(), 0x4000);
    assert_eq!(CodedIndex::TypeDefOrRef.column_width(0x3FFF), 2);
    assert_eq!(CodedIndex::TypeDefOrRef.column_width(0x4000), 4);
    // 5 tag bits -> limit 2^11.
    assert_eq!(CodedIndex::HasCustomAttribute.small_row_limit(), 0x800);
    assert_eq!(CodedIndex::HasCustomAttribute.column_width(0x7FF), 2);
    assert_eq!(CodedIndex::HasCustomAttribute.column_width(0x800), 4);
    // 1 tag bit -> limit 2^15.
    assert_eq!(CodedIndex::HasSemantics.small_row_limit(), 0x8000);
    assert_eq!(CodedIndex::HasSemantics.column_width(0x7FFF), 2);
    assert_eq!(CodedIndex::HasSemantics.column_width(0x8000), 4);
    // 3 tag bits -> limit 2^13.
    assert_eq!(CodedIndex::MemberRefParent.small_row_limit(), 0x2000);
    assert_eq!(CodedIndex::MemberRefParent.column_width(0x1FFF), 2);
    assert_eq!(CodedIndex::MemberRefParent.column_width(0x2000), 4);
}
