//! Names.
use cildec::display::{qualify, shape_string};
use cildec::metadata::METADATA_SIGNATURE;
use cildec::{ArrayShape, Metadata, MethodSig, Names, TableId, Token, Type, TypeSpecSig};

/// A metadata region with an empty `#~` stream and no heaps.
fn minimal_metadata() -> Vec<u8> {
    let mut table_stream = Vec::new();
    table_stream.extend_from_slice(&0u32.to_le_bytes());
    table_stream.extend_from_slice(&[2, 0, 0, 1]);
    table_stream.extend_from_slice(&0u64.to_le_bytes());
    table_stream.extend_from_slice(&0u64.to_le_bytes());

    let version = b"v4.0.30319\0\0";
    let mut out = Vec::new();
    out.extend_from_slice(&METADATA_SIGNATURE.to_le_bytes());
    out.extend_from_slice(&1u16.to_le_bytes());
    out.extend_from_slice(&1u16.to_le_bytes());
    out.extend_from_slice(&0u32.to_le_bytes());
    out.extend_from_slice(&(version.len() as u32).to_le_bytes());
    out.extend_from_slice(version);
    out.extend_from_slice(&0u16.to_le_bytes());
    out.extend_from_slice(&1u16.to_le_bytes());
    let directory = 8 + 4;
    out.extend_from_slice(&((out.len() + directory) as u32).to_le_bytes());
    out.extend_from_slice(&(table_stream.len() as u32).to_le_bytes());
    out.extend_from_slice(b"#~\0\0");
    out.extend_from_slice(&table_stream);
    out
}

#[test]
fn qualify_omits_an_empty_namespace() {
    assert_eq!(qualify("System", "String"), "System.String");
    assert_eq!(qualify("", "Program"), "Program");
}

#[test]
fn array_shapes_render_like_ilasm() {
    assert_eq!(shape_string(&ArrayShape { rank: 2, sizes: vec![], lo_bounds: vec![] }), "[,]");
    assert_eq!(
        shape_string(&ArrayShape { rank: 1, sizes: vec![5], lo_bounds: vec![1] }),
        "[1...5]"
    );
    assert_eq!(
        shape_string(&ArrayShape { rank: 1, sizes: vec![], lo_bounds: vec![2] }),
        "[2...]"
    );
}

#[test]
fn primitive_types_render_without_metadata() {
    // `Names` only needs metadata for tokens, so an empty region suffices
    // for the primitive cases.
    let bytes = minimal_metadata();
    let md = Metadata::parse(&bytes).unwrap();
    let names = Names::new(&md);
    assert_eq!(names.type_(&Type::I4), "int32");
    assert_eq!(names.type_(&Type::String), "string");
    assert_eq!(names.type_(&Type::IntPtr), "native int");
    let sig = TypeSpecSig::parse(&[0x1D, 0x08]).unwrap();
    assert_eq!(names.type_(&sig.type_), "int32[]");
    let sig = TypeSpecSig::parse(&[0x0F, 0x1D, 0x05]).unwrap();
    assert_eq!(names.type_(&sig.type_), "uint8[]*");
    assert_eq!(names.type_(&Type::Var(0)), "!0");
    assert_eq!(names.type_(&Type::MVar(2)), "!!2");
}

#[test]
fn method_signatures_render_like_ilasm() {
    let bytes = minimal_metadata();
    let md = Metadata::parse(&bytes).unwrap();
    let names = Names::new(&md);
    let sig = MethodSig::parse(&[0x20, 0x02, 0x01, 0x08, 0x0E]).unwrap();
    assert_eq!(names.method_sig(&sig, "Foo"), "instance void Foo(int32, string)");
    let sig = MethodSig::parse(&[0x05, 0x02, 0x08, 0x08, 0x41, 0x0E]).unwrap();
    assert_eq!(names.method_sig(&sig, "Bar"), "vararg int32 Bar(int32, ..., string)");
}

#[test]
fn an_unresolvable_token_still_renders() {
    let bytes = minimal_metadata();
    let md = Metadata::parse(&bytes).unwrap();
    let names = Names::new(&md);
    assert_eq!(names.token(Token::new(TableId::TypeDef, 7)), "TypeDef[7]");
    assert_eq!(names.token(Token(0x2D00_0001)), "0x2d000001");
}
