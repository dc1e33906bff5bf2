//! How values render.

use cildec::{
    marker, BlobIndex, Diagnostic, DiagnosticCode, Error, ErrorKind, Guid, GuidIndex, Rid,
    StringIndex, StringsHeap, TableId, Token, UserStringToken, UserStringsHeap,
};

#[test]
fn errors_render_their_context_and_offset() {
    let e = Error::new(ErrorKind::Truncated, 0x1F, "PE image");
    assert_eq!(e.to_string(), "PE image: truncated input at offset 0x1f");
    let e = Error::detached(ErrorKind::OutOfRange, "RVA");
    assert_eq!(e.to_string(), "RVA: value out of range");
    assert_eq!(ErrorKind::Malformed.as_str(), "malformed structure");
    assert_eq!(ErrorKind::Unsupported.as_str(), "unsupported structure");
    assert_eq!(ErrorKind::RecursionLimit.as_str(), "recursion limit exceeded");
    assert_eq!(ErrorKind::InvalidUtf8.as_str(), "invalid UTF-8");
    assert_eq!(ErrorKind::InvalidPrefixTarget.as_str(), "invalid prefix target");
    assert_eq!(ErrorKind::UnknownOpcode.as_str(), "unknown opcode");
}

#[test]
fn rebasing_twice_adds_both_bases() {
    let e = Error::new(ErrorKind::Malformed, 3, "signature");
    assert_eq!(e.rebase(4).rebase(5), e.rebase(9));
    assert_eq!(e.rebase(4).offset, Some(7));
    let detached = Error::detached(ErrorKind::Malformed, "signature");
    assert_eq!(detached.rebase(4).offset, Some(4));
    assert_eq!(e.rebase(usize::MAX).offset, Some(usize::MAX));
}

#[test]
fn diagnostics_render_their_detail() {
    let d = Diagnostic::new(DiagnosticCode::CliHeaderSize, 0x200, 80);
    assert_eq!(d.to_string(), "CLI header size is not 72 (detail 0x50) at offset 0x200");
}

#[test]
fn tokens_and_indices_render() {
    assert_eq!(Token(0x0600_002A).to_string(), "0x0600002a");
    assert_eq!(Token(0x0600_002A).describe(), "Token(MethodDef[42])");
    assert_eq!(Token(0x2D00_0001).describe(), "Token(0x2d000001)");
    assert_eq!(Rid::<marker::TypeDef>::new(7).describe(), "TypeDef[7]");
    assert_eq!(TableId::GenericParam.to_string(), "GenericParam");
    assert_eq!(StringIndex(0x1F).describe(), "#Strings[0x1f]");
    assert_eq!(BlobIndex(0).describe(), "#Blob[0x0]");
    assert_eq!(GuidIndex(10).describe(), "#GUID[0xa]");
    assert_eq!(UserStringToken(0x7000_0010).describe(), "#US[0x10]");
    assert_eq!(
        Guid::zero().describe(),
        "Guid(00000000-0000-0000-0000-000000000000)"
    );
}

#[test]
fn user_strings_decode_surrogates() {
    // A, then U+1F600 as a surrogate pair, then a lone high surrogate, then B.
    let mut data = vec![0u8, 11];
    for unit in [0x0041u16, 0xD83D, 0xDE00, 0xD800, 0x0042] {
        data.extend_from_slice(&unit.to_le_bytes());
    }
    data.push(1);
    let heap = UserStringsHeap::new(&data, 0);
    let s = heap.get_at(1).unwrap();
    assert_eq!(s.code_units(), vec![0x0041, 0xD83D, 0xDE00, 0xD800, 0x0042]);
    assert_eq!(s.to_string_lossy(), "A\u{1F600}\u{FFFD}B");
    assert!(s.has_special_chars());
}

#[test]
fn strings_render_beyond_ascii() {
    let heap = StringsHeap::new("\0Gr\u{f6}\u{df}e\0".as_bytes(), 0);
    assert_eq!(heap.str(StringIndex(1)).unwrap(), "Gr\u{f6}\u{df}e");
    assert_eq!(heap.lossy(StringIndex(1)).unwrap(), "Gr\u{f6}\u{df}e");
}
