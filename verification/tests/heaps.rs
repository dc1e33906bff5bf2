//! The four heaps.
use cildec::{
    BlobHeap, BlobIndex, ErrorKind, Guid, GuidHeap, GuidIndex, StringIndex, StringsHeap,
    UserStringToken, UserStringsHeap,
};

#[test]
fn strings_heap_reads_and_iterates() {
    let data = b"\0System\0Console\0";
    let heap = StringsHeap::new(data, 0x1000);
    assert_eq!(heap.bytes(StringIndex(0)).unwrap(), b"");
    assert_eq!(heap.str(StringIndex(1)).unwrap(), "System");
    assert_eq!(heap.str(StringIndex(8)).unwrap(), "Console");
    // Interior index: the tail of an entry is itself a valid string.
    assert_eq!(heap.str(StringIndex(4)).unwrap(), "tem");
    assert_eq!(heap.bytes(StringIndex(99)).unwrap_err().kind, ErrorKind::OutOfRange);
    let mut it = heap.iter();
    let all: Vec<_> = std::iter::from_fn(|| it.next()).map(|(_, b)| b).collect();
    assert_eq!(all, vec![&b""[..], &b"System"[..], &b"Console"[..]]);
}

#[test]
fn strings_heap_tolerates_invalid_utf8_and_missing_nul() {
    let data = b"\0ok\0\xFF\xFEbad";
    let heap = StringsHeap::new(data, 0);
    assert_eq!(heap.bytes(StringIndex(4)).unwrap(), b"\xFF\xFEbad");
    assert_eq!(heap.str(StringIndex(4)).unwrap_err().kind, ErrorKind::InvalidUtf8);
    assert_eq!(heap.str_opt(StringIndex(4)), None);
    assert_eq!(heap.lossy(StringIndex(4)).unwrap(), "\u{FFFD}\u{FFFD}bad");
}

#[test]
fn blob_heap_reads_lengths() {
    // index 0 = empty, index 1 = 3 bytes, index 5 = 0x80 bytes (2-byte prefix)
    let mut data = vec![0u8];
    data.extend_from_slice(&[3, 0xAA, 0xBB, 0xCC]);
    data.push(0x80);
    data.push(0x80);
    data.extend(std::iter::repeat_n(0x11u8, 0x80));
    let heap = BlobHeap::new(&data, 0);
    assert_eq!(heap.get(BlobIndex(0)).unwrap(), b"");
    assert_eq!(heap.get(BlobIndex(1)).unwrap(), &[0xAA, 0xBB, 0xCC]);
    assert_eq!(heap.get(BlobIndex(5)).unwrap().len(), 0x80);
    let mut it = heap.iter();
    assert_eq!(std::iter::from_fn(|| it.next()).count(), 3);
}

#[test]
fn blob_heap_rejects_a_length_past_the_end() {
    let data = [0x10u8, 1, 2, 3];
    let heap = BlobHeap::new(&data, 0x40);
    let e = heap.get(BlobIndex(0)).unwrap_err();
    assert_eq!(e.kind, ErrorKind::OutOfRange);
    assert_eq!(e.offset, Some(0x40));
}

#[test]
fn guid_heap_is_one_based() {
    let mut data = [0u8; 32];
    data[0] = 1;
    data[16] = 2;
    let heap = GuidHeap::new(&data, 0);
    assert_eq!(heap.count(), 2);
    assert_eq!(heap.get(GuidIndex(1)).unwrap().0[0], 1);
    assert_eq!(heap.get(GuidIndex(2)).unwrap().0[0], 2);
    assert_eq!(heap.get(GuidIndex(0)).unwrap_err().kind, ErrorKind::OutOfRange);
    assert_eq!(heap.get(GuidIndex(3)).unwrap_err().kind, ErrorKind::OutOfRange);
    assert_eq!(heap.iter().len(), 2);
}

#[test]
fn guid_display_uses_mixed_endianness() {
    let g = Guid([
        0x78, 0x56, 0x34, 0x12, 0xBC, 0x9A, 0xF0, 0xDE, 0x01, 0x02, 0x03, 0x04, 0x05, 0x06,
        0x07, 0x08,
    ]);
    assert_eq!(g.to_string(), "12345678-9abc-def0-0102-030405060708");
}

#[test]
fn user_strings_split_the_flag_byte() {
    // "Hi" = 48 00 69 00, plus flag 00 -> blob length 5.
    let data = [0u8, 5, 0x48, 0x00, 0x69, 0x00, 0x00];
    let heap = UserStringsHeap::new(&data, 0);
    let s = heap.get(UserStringToken(0x7000_0001)).unwrap();
    assert_eq!(s.len_utf16(), 2);
    assert_eq!(s.to_string_lossy(), "Hi");
    assert!(!s.has_special_chars());
    assert!(!s.odd_length);
    let empty = heap.get_at(0).unwrap();
    assert!(empty.is_empty());
    let mut it = heap.iter();
    assert_eq!(std::iter::from_fn(|| it.next()).count(), 2);
}

#[test]
fn user_strings_tolerate_an_even_body() {
    // Body length 4 -> 3 bytes of UTF-16 data, which is malformed.
    let data = [4u8, 0x48, 0x00, 0x69, 0x00];
    let heap = UserStringsHeap::new(&data, 0);
    let s = heap.get_at(0).unwrap();
    assert!(s.odd_length);
    assert_eq!(s.to_string_lossy(), "H");
}

#[test]
fn empty_heaps_never_panic() {
    assert!(StringsHeap::empty().bytes(StringIndex(0)).is_ok());
    assert!(BlobHeap::empty().get(BlobIndex(0)).is_err());
    assert!(GuidHeap::empty().get(GuidIndex(1)).is_err());
    assert!(UserStringsHeap::empty().get_at(0).is_err());
    let mut it = StringsHeap::empty().iter();
    assert_eq!(std::iter::from_fn(|| it.next()).count(), 0);
}
