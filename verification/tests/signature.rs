//! Signatures.
use cildec::signature::element_type as et;
use cildec::{
    CallConv, ErrorKind, FieldSig, LocalVarSig, MethodSig, MethodSpecSig, Param, PropertySig,
    SignatureOptions, TableId, Token, Type, TypeSpecSig,
};

#[test]
fn parses_a_simple_method_signature() {
    // HASTHIS DEFAULT, 2 params, void(int32, string)
    let blob = [0x20, 0x02, et::VOID, et::I4, et::STRING];
    let sig = MethodSig::parse(&blob).unwrap();
    assert!(sig.has_this);
    assert!(!sig.explicit_this);
    assert_eq!(sig.calling_convention, CallConv::Default);
    assert!(!sig.has_return());
    assert_eq!(sig.param_count(), 2);
    assert_eq!(sig.params[0].type_, Type::I4);
    assert_eq!(sig.params[1].type_, Type::String);
    assert_eq!(sig.arg_count_with_this(), 3);
    assert_eq!(sig.raw, &blob);
}

#[test]
fn parses_a_generic_method_signature() {
    // DEFAULT|GENERIC, 1 generic param, 1 param: !!0 Foo<!!0>(!!0)
    let blob = [0x10, 0x01, 0x01, et::MVAR, 0x00, et::MVAR, 0x00];
    let sig = MethodSig::parse(&blob).unwrap();
    assert_eq!(sig.calling_convention, CallConv::Generic(1));
    assert_eq!(sig.calling_convention.generic_param_count(), 1);
    assert_eq!(sig.return_type.type_, Type::MVar(0));
    assert_eq!(sig.params[0].type_, Type::MVar(0));
}

#[test]
fn splits_vararg_parameters_at_the_sentinel() {
    // VARARG, 3 params, void(int32, ..., string)
    let blob = [0x05, 0x03, et::VOID, et::I4, et::SENTINEL, et::STRING, et::I8];
    let sig = MethodSig::parse(&blob).unwrap();
    assert_eq!(sig.calling_convention, CallConv::VarArg);
    assert_eq!(sig.params.len(), 1);
    assert_eq!(
        sig.vararg_params,
        vec![
            Param { custom_mods: Vec::new(), by_ref: false, type_: Type::String },
            Param { custom_mods: Vec::new(), by_ref: false, type_: Type::I8 },
        ]
    );
    assert_eq!(sig.param_count(), 3);
}

#[test]
fn a_second_sentinel_is_rejected() {
    let blob = [0x05, 0x03, et::VOID, et::SENTINEL, et::I4, et::SENTINEL, et::I8];
    assert_eq!(MethodSig::parse(&blob).unwrap_err().kind, ErrorKind::Malformed);
}

#[test]
fn parses_byref_and_custom_mods() {
    // DEFAULT, 1 param, void(modreq(TypeRef 1) int32&)
    let blob = [0x00, 0x01, et::VOID, et::CMOD_REQD, 0x05, et::BYREF, et::I4];
    let sig = MethodSig::parse(&blob).unwrap();
    let p = &sig.params[0];
    assert!(p.by_ref);
    assert_eq!(p.custom_mods.len(), 1);
    assert!(p.custom_mods[0].required);
    assert_eq!(p.custom_mods[0].type_token, Token::new(TableId::TypeRef, 1));
    assert_eq!(p.type_, Type::I4);
}

#[test]
fn parses_a_field_signature() {
    let blob = [0x06, et::SZARRAY, et::U1];
    let sig = FieldSig::parse(&blob).unwrap();
    assert_eq!(sig.type_, Type::SzArray(Vec::new(), Box::new(Type::U1)));
    assert_eq!(FieldSig::parse(&[0x07, et::U1]).unwrap_err().kind, ErrorKind::Malformed);
}

#[test]
fn parses_local_variables_including_pinned() {
    // LOCAL_SIG, 3 locals: int32, pinned uint8&, typedbyref
    let blob = [0x07, 0x03, et::I4, et::PINNED, et::BYREF, et::U1, et::TYPEDBYREF];
    let sig = LocalVarSig::parse(&blob).unwrap();
    assert_eq!(sig.locals.len(), 3);
    assert_eq!(sig.locals[0].type_, Type::I4);
    assert!(sig.locals[1].pinned);
    assert!(sig.locals[1].by_ref);
    assert_eq!(sig.locals[1].type_, Type::U1);
    assert_eq!(sig.locals[2].type_, Type::TypedByRef);
}

#[test]
fn parses_generic_instantiation() {
    // TypeSpec: class List`1<int32>
    let blob = [et::GENERICINST, et::CLASS, 0x05, 0x01, et::I4];
    let sig = TypeSpecSig::parse(&blob).unwrap();
    match sig.type_ {
        Type::GenericInst { is_value_type, def, ref args } => {
            assert!(!is_value_type);
            assert_eq!(def, Token::new(TableId::TypeRef, 1));
            assert_eq!(args, &vec![Type::I4]);
        }
        other => panic!("unexpected {other:?}"),
    }
}

#[test]
fn parses_an_array_shape() {
    // int32[2, 3...] : rank 2, 1 size, 1 lower bound
    let blob = [et::ARRAY, et::I4, 0x02, 0x01, 0x05, 0x01, 0x02];
    let sig = TypeSpecSig::parse(&blob).unwrap();
    match sig.type_ {
        Type::Array(ref element, ref shape) => {
            assert_eq!(**element, Type::I4);
            assert_eq!(shape.rank, 2);
            assert_eq!(shape.sizes, vec![5]);
            assert_eq!(shape.lo_bounds, vec![1]);
        }
        other => panic!("unexpected {other:?}"),
    }
}

#[test]
fn parses_a_method_spec() {
    let blob = [0x0A, 0x02, et::I4, et::STRING];
    let sig = MethodSpecSig::parse(&blob).unwrap();
    assert_eq!(sig.args, vec![Type::I4, Type::String]);
}

#[test]
fn parses_a_property_signature() {
    // PROPERTY|HASTHIS, 1 index param, int32 this[string]
    let blob = [0x28, 0x01, et::I4, et::STRING];
    let sig = PropertySig::parse(&blob).unwrap();
    assert!(sig.has_this);
    assert_eq!(sig.return_type.type_, Type::I4);
    assert_eq!(sig.params.len(), 1);
}

#[test]
fn parses_a_function_pointer() {
    let blob = [0x06, et::FNPTR, 0x00, 0x01, et::VOID, et::I4];
    let sig = FieldSig::parse(&blob).unwrap();
    match sig.type_ {
        Type::FnPtr(ref m) => {
            assert_eq!(m.params.len(), 1);
            assert_eq!(m.return_type.type_, Type::Void);
        }
        other => panic!("unexpected {other:?}"),
    }
}

#[test]
fn recursion_is_bounded() {
    let mut blob = vec![0x06u8];
    blob.extend(std::iter::repeat_n(et::PTR, 5000));
    blob.push(et::VOID);
    assert_eq!(FieldSig::parse(&blob).unwrap_err().kind, ErrorKind::RecursionLimit);
    let options = SignatureOptions { recursion_limit: 8 };
    let mut small = vec![0x06u8];
    small.extend(std::iter::repeat_n(et::PTR, 4));
    small.push(et::VOID);
    assert!(FieldSig::parse_with(&small, options).is_ok());
}

#[test]
fn internal_element_type_is_unsupported() {
    let blob = [0x06, et::INTERNAL, 0, 0, 0, 0, 0, 0, 0, 0];
    assert_eq!(FieldSig::parse(&blob).unwrap_err().kind, ErrorKind::Unsupported);
}

#[test]
fn declared_counts_cannot_outrun_the_blob() {
    // 0x7F parameters declared, but only a few bytes follow.
    let blob = [0x00, 0x7F, et::VOID, et::I4];
    assert_eq!(MethodSig::parse(&blob).unwrap_err().kind, ErrorKind::Malformed);
    let blob = [0x07, 0x7F, et::I4];
    assert_eq!(LocalVarSig::parse(&blob).unwrap_err().kind, ErrorKind::Malformed);
}

#[test]
fn errors_carry_a_blob_relative_offset() {
    // Byte 3 is an undefined element type.
    let blob = [0x00, 0x01, et::VOID, 0x7A];
    let e = MethodSig::parse(&blob).unwrap_err();
    assert_eq!(e.kind, ErrorKind::Malformed);
    assert_eq!(e.offset, Some(3));
}

#[test]
fn primitive_widths() {
    assert_eq!(Type::I4.primitive_width(64), Some(32));
    assert_eq!(Type::Char.primitive_width(64), Some(16));
    assert_eq!(Type::IntPtr.primitive_width(32), Some(32));
    assert_eq!(Type::Object.primitive_width(64), Some(64));
    assert_eq!(Type::ValueType(Token(0)).primitive_width(64), None);
    assert_eq!(Type::Var(0).primitive_width(64), None);
    assert_eq!(Type::Void.primitive_width(64), None);
}

#[test]
fn every_truncation_of_a_valid_signature_errors_cleanly() {
    let blob = [0x20, 0x02, et::VOID, et::I4, et::SZARRAY, et::STRING];
    for len in 0..blob.len() {
        let _ = MethodSig::parse(&blob[..len]);
    }
    assert!(MethodSig::parse(&blob).is_ok());
}
