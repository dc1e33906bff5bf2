//! The bounds-checked cursor.
use cildec::reader::Reader;
use cildec::ErrorKind;

#[test]
fn reads_are_bounds_checked() {
    let mut r = Reader::new(&[1, 2, 3], 0x100, "test");
    assert_eq!(r.u16().unwrap(), 0x0201);
    assert_eq!(r.remaining(), 1);
    let e = r.u32().unwrap_err();
    assert_eq!(e.kind, ErrorKind::Truncated);
    assert_eq!(e.offset, Some(0x102));
}

#[test]
fn align_is_relative_to_origin() {
    let data = [0u8; 16];
    let mut r = Reader::new(&data, 0, "test");
    r.skip(5).unwrap();
    r.align_to(0, 4).unwrap();
    assert_eq!(r.position(), 8);
    let mut r = Reader::new(&data, 0, "test");
    r.skip(5).unwrap();
    r.align_to(1, 4).unwrap();
    assert_eq!(r.position(), 5);
}

#[test]
fn skip_past_end_is_out_of_range() {
    let mut r = Reader::new(&[0u8; 4], 0, "test");
    assert_eq!(r.skip(usize::MAX).unwrap_err().kind, ErrorKind::OutOfRange);
    assert_eq!(r.skip(5).unwrap_err().kind, ErrorKind::OutOfRange);
}
