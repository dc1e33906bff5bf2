//! Compressed integers.
use cildec::compressed::{read_i32, read_u32, write_u32};
use cildec::ErrorKind;

#[test]
fn unsigned_boundaries() {
    let cases: &[(&[u8], u32, usize)] = &[
        (&[0x00], 0, 1),
        (&[0x03], 0x03, 1),
        (&[0x7F], 0x7F, 1),
        (&[0x80, 0x80], 0x80, 2),
        (&[0xAE, 0x57], 0x2E57, 2),
        (&[0xBF, 0xFF], 0x3FFF, 2),
        (&[0xC0, 0x00, 0x40, 0x00], 0x4000, 4),
        (&[0xDF, 0xFF, 0xFF, 0xFF], 0x1FFF_FFFF, 4),
    ];
    for &(bytes, value, len) in cases {
        assert_eq!(read_u32(bytes).unwrap(), (value, len), "{bytes:02x?}");
        let mut out = [0u8; 4];
        let n = write_u32(value, &mut out).unwrap();
        assert_eq!(&out[..n], bytes, "re-encoding {value:#x}");
    }
}

#[test]
fn unsigned_rejects_the_reserved_prefix() {
    assert_eq!(read_u32(&[0xE0, 0, 0, 0]).unwrap_err().kind, ErrorKind::Malformed);
    assert_eq!(read_u32(&[0xFF]).unwrap_err().kind, ErrorKind::Malformed);
    assert_eq!(read_u32(&[]).unwrap_err().kind, ErrorKind::Truncated);
    assert_eq!(read_u32(&[0x80]).unwrap_err().kind, ErrorKind::Truncated);
    assert_eq!(read_u32(&[0xC0, 0, 0]).unwrap_err().kind, ErrorKind::Truncated);
}

#[test]
fn signed_boundaries() {
    // The worked examples from II.23.2.
    let cases: &[(&[u8], i32, usize)] = &[
        (&[0x06], 3, 1),
        (&[0x7B], -3, 1),
        (&[0x80, 0x80], 64, 2),
        (&[0x01], -64, 1),
        (&[0xC0, 0x00, 0x40, 0x00], 8192, 4),
        (&[0x80, 0x01], -8192, 2),
        (&[0xDF, 0xFF, 0xFF, 0xFE], 268_435_455, 4),
        (&[0xC0, 0x00, 0x00, 0x01], -268_435_456, 4),
        (&[0x00], 0, 1),
    ];
    for &(bytes, value, len) in cases {
        assert_eq!(read_i32(bytes).unwrap(), (value, len), "{bytes:02x?}");
    }
}

#[test]
fn every_one_byte_encoding_round_trips_unsigned() {
    for b in 0u8..0x80 {
        assert_eq!(read_u32(&[b]).unwrap(), (u32::from(b), 1));
    }
}

#[test]
fn write_rejects_oversized() {
    let mut out = [0u8; 4];
    assert_eq!(write_u32(0x2000_0000, &mut out), None);
}
