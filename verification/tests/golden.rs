//! Canonical opcodes.

use cildec::OpCode;

/// `canonical()` is what a consumer dispatches on, so check it against the
/// encodings that compilers emit.
#[test]
fn fixture_opcodes_canonicalise_sensibly() {
    assert_eq!(OpCode::Ldarg0.canonical(), OpCode::Ldarg);
    assert_eq!(OpCode::LdargS.canonical(), OpCode::Ldarg);
    assert_eq!(OpCode::LdcI4M1.canonical(), OpCode::LdcI4);
    assert_eq!(OpCode::LeaveS.canonical(), OpCode::Leave);
}
