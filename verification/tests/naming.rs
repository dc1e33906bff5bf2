//! Names of rows, types and signatures.

use cildec::{
    marker, FieldSig, LocalVarSig, Metadata, MethodSig, Names, Rid, TableId, Token, TypeSpecSig,
};

/// Builds a metadata region one table at a time.
struct MetadataBuilder {
    strings: Vec<u8>,
    blobs: Vec<u8>,
    rows: Vec<(TableId, u32, Vec<u8>)>,
    sorted: u64,
}

#[allow(dead_code)]
impl MetadataBuilder {
    fn new() -> Self {
        MetadataBuilder { strings: vec![0], blobs: vec![0], rows: Vec::new(), sorted: 0 }
    }

    /// Interns a `#Strings` entry and returns its 2-byte index.
    fn string(&mut self, value: &str) -> u16 {
        let index = self.strings.len() as u16;
        self.strings.extend_from_slice(value.as_bytes());
        self.strings.push(0);
        index
    }

    /// Interns a `#Blob` entry and returns its 2-byte index.
    ///
    /// Only lengths below 0x80 are supported, which keeps the prefix one byte.
    fn blob(&mut self, value: &[u8]) -> u16 {
        assert!(value.len() < 0x80, "the builder writes one-byte blob lengths");
        let index = self.blobs.len() as u16;
        self.blobs.push(value.len() as u8);
        self.blobs.extend_from_slice(value);
        index
    }

    /// Adds a table with its raw row bytes.
    fn table(&mut self, table: TableId, rows: u32, data: Vec<u8>) {
        self.rows.push((table, rows, data));
    }

    /// Marks a table as sorted in the stream header, whether or not it is.
    fn declare_sorted(&mut self, table: TableId) {
        self.sorted |= 1u64 << table.to_u8();
    }

    /// Serialises the region, naming the table stream `#~` or `#-`.
    fn build(mut self, stream_name: &str) -> Vec<u8> {
        self.rows.sort_by_key(|(table, _, _)| table.to_u8());

        let mut stream = Vec::new();
        stream.extend_from_slice(&0u32.to_le_bytes()); // Reserved
        stream.push(2); // MajorVersion
        stream.push(0); // MinorVersion
        stream.push(0); // HeapSizes: every heap index is 2 bytes
        stream.push(1); // Reserved
        let valid: u64 = self.rows.iter().map(|(t, _, _)| 1u64 << t.to_u8()).sum();
        stream.extend_from_slice(&valid.to_le_bytes());
        stream.extend_from_slice(&self.sorted.to_le_bytes());
        for (_, count, _) in &self.rows {
            stream.extend_from_slice(&count.to_le_bytes());
        }
        for (_, _, data) in &self.rows {
            stream.extend_from_slice(data);
        }

        let guids = [0u8; 16];
        let streams: [(&str, &[u8]); 4] = [
            (stream_name, &stream),
            ("#Strings", &self.strings),
            ("#Blob", &self.blobs),
            ("#GUID", &guids),
        ];

        let version = b"v4.0.30319\0\0";
        let mut header = Vec::new();
        header.extend_from_slice(&0x424A_5342u32.to_le_bytes());
        header.extend_from_slice(&1u16.to_le_bytes());
        header.extend_from_slice(&1u16.to_le_bytes());
        header.extend_from_slice(&0u32.to_le_bytes());
        header.extend_from_slice(&(version.len() as u32).to_le_bytes());
        header.extend_from_slice(version);
        header.extend_from_slice(&0u16.to_le_bytes());
        header.extend_from_slice(&(streams.len() as u16).to_le_bytes());

        let directory: usize =
            streams.iter().map(|(name, _)| 8 + (name.len() + 1).next_multiple_of(4)).sum();
        let mut offset = header.len() + directory;
        let mut payload = Vec::new();
        for (name, data) in streams {
            header.extend_from_slice(&(offset as u32).to_le_bytes());
            header.extend_from_slice(&(data.len() as u32).to_le_bytes());
            let mut name_bytes = name.as_bytes().to_vec();
            name_bytes.push(0);
            while name_bytes.len() % 4 != 0 {
                name_bytes.push(0);
            }
            header.extend_from_slice(&name_bytes);
            payload.extend_from_slice(data);
            offset += data.len();
        }
        header.extend_from_slice(&payload);
        header
    }
}

/// A `Module` row, which every well-formed region has exactly one of.
fn module_row(name: u16) -> Vec<u8> {
    let mut row = Vec::new();
    row.extend_from_slice(&0u16.to_le_bytes()); // Generation
    row.extend_from_slice(&name.to_le_bytes());
    row.extend_from_slice(&1u16.to_le_bytes()); // Mvid
    row.extend_from_slice(&0u16.to_le_bytes()); // EncId
    row.extend_from_slice(&0u16.to_le_bytes()); // EncBaseId
    row
}

/// Encodes a `TypeDefOrRefOrSpec` for a signature blob: a 2-bit tag and a RID,
/// compressed. RIDs below 0x20 fit in one byte.
fn type_def_or_ref_or_spec(tag: u8, rid: u32) -> u8 {
    let value = (rid << 2) | u32::from(tag);
    assert!(value < 0x80, "the helper writes one-byte compressed integers");
    value as u8
}

/// One type with a field and a method, a reference to an outside type with two
/// members, and instantiations of both.
fn library() -> Vec<u8> {
    let mut b = MetadataBuilder::new();
    let module = b.string("Lib.dll");
    let widget = b.string("Widget");
    let namespace = b.string("Parts");
    let size = b.string("size");
    let run = b.string("Run");
    let list = b.string("List`1");
    let collections = b.string("System");
    let runtime = b.string("mscorlib");
    let add = b.string("Add");

    b.table(TableId::Module, 1, module_row(module));

    // TypeRef 1: System.List`1 in AssemblyRef 1.
    let mut type_ref = Vec::new();
    type_ref.extend_from_slice(&((1u16 << 2) | 2).to_le_bytes());
    type_ref.extend_from_slice(&list.to_le_bytes());
    type_ref.extend_from_slice(&collections.to_le_bytes());
    b.table(TableId::TypeRef, 1, type_ref);

    let mut type_def = Vec::new();
    type_def.extend_from_slice(&0u32.to_le_bytes());
    type_def.extend_from_slice(&widget.to_le_bytes());
    type_def.extend_from_slice(&namespace.to_le_bytes());
    type_def.extend_from_slice(&0u16.to_le_bytes());
    type_def.extend_from_slice(&1u16.to_le_bytes());
    type_def.extend_from_slice(&1u16.to_le_bytes());
    b.table(TableId::TypeDef, 1, type_def);

    let field_sig = b.blob(&[0x06, 0x08]);
    let mut field = Vec::new();
    field.extend_from_slice(&6u16.to_le_bytes());
    field.extend_from_slice(&size.to_le_bytes());
    field.extend_from_slice(&field_sig.to_le_bytes());
    b.table(TableId::Field, 1, field);

    // instance void Run(int32, string)
    let method_sig = b.blob(&[0x20, 0x02, 0x01, 0x08, 0x0E]);
    let mut method = Vec::new();
    method.extend_from_slice(&0u32.to_le_bytes());
    method.extend_from_slice(&0u16.to_le_bytes());
    method.extend_from_slice(&6u16.to_le_bytes());
    method.extend_from_slice(&run.to_le_bytes());
    method.extend_from_slice(&method_sig.to_le_bytes());
    method.extend_from_slice(&1u16.to_le_bytes());
    b.table(TableId::MethodDef, 1, method);

    // MemberRef 1: List`1::Add.
    let add_sig = b.blob(&[0x20, 0x01, 0x01, 0x13, 0x00]);
    let mut member = Vec::new();
    member.extend_from_slice(&((1u16 << 3) | 1).to_le_bytes());
    member.extend_from_slice(&add.to_le_bytes());
    member.extend_from_slice(&add_sig.to_le_bytes());
    b.table(TableId::MemberRef, 1, member);

    // TypeSpec 1: List`1<int32>.
    let spec = b.blob(&[0x15, 0x12, type_def_or_ref_or_spec(1, 1), 0x01, 0x08]);
    b.table(TableId::TypeSpec, 1, spec.to_le_bytes().to_vec());

    let mut assembly = Vec::new();
    for part in [4u16, 0, 0, 0] {
        assembly.extend_from_slice(&part.to_le_bytes());
    }
    assembly.extend_from_slice(&0u32.to_le_bytes());
    assembly.extend_from_slice(&0u16.to_le_bytes());
    assembly.extend_from_slice(&runtime.to_le_bytes());
    assembly.extend_from_slice(&0u16.to_le_bytes());
    assembly.extend_from_slice(&0u16.to_le_bytes());
    b.table(TableId::AssemblyRef, 1, assembly);

    // MethodSpec 1: Run<string>.
    let instance = b.blob(&[0x0A, 0x01, 0x0E]);
    let mut method_spec = Vec::new();
    method_spec.extend_from_slice(&(1u16 << 1).to_le_bytes());
    method_spec.extend_from_slice(&instance.to_le_bytes());
    b.table(TableId::MethodSpec, 1, method_spec);

    b.build("#~")
}

#[test]
fn every_kind_of_row_is_named() {
    let bytes = library();
    let metadata = Metadata::parse(&bytes).unwrap();
    let names = Names::new(&metadata);
    assert_eq!(names.token(Token::new(TableId::TypeDef, 1)), "Parts.Widget");
    assert_eq!(names.token(Token::new(TableId::TypeRef, 1)), "[mscorlib]System.List`1");
    assert_eq!(
        names.token(Token::new(TableId::TypeSpec, 1)),
        "class [mscorlib]System.List`1<int32>"
    );
    assert_eq!(names.token(Token::new(TableId::MethodDef, 1)), "Parts.Widget::Run");
    assert_eq!(names.token(Token::new(TableId::Field, 1)), "Parts.Widget::size");
    assert_eq!(names.token(Token::new(TableId::MemberRef, 1)), "[mscorlib]System.List`1::Add");
    assert_eq!(names.token(Token::new(TableId::MethodSpec, 1)), "Parts.Widget::Run<string>");
    assert_eq!(names.token(Token::new(TableId::AssemblyRef, 1)), "[mscorlib]");
    assert_eq!(names.token(Token::new(TableId::StandAloneSig, 3)), "StandAloneSig[3]");
    assert_eq!(names.token(Token::new(TableId::Module, 1)), "Module[1]");
    assert_eq!(
        names.method_def_full(Rid::<marker::MethodDef>::new(1)).unwrap(),
        "instance void Parts.Widget::Run(int32, string)"
    );
    assert!(names.try_token(Token::new(TableId::MethodDef, 2)).is_err());
}

#[test]
fn modifiers_are_spelled_outermost_last() {
    let bytes = library();
    let metadata = Metadata::parse(&bytes).unwrap();
    let names = Names::new(&metadata);
    // modopt(TypeDef 1) modreq(TypeRef 1) int32
    let sig = FieldSig::parse(&[0x06, 0x20, 0x04, 0x1F, 0x05, 0x08]).unwrap();
    assert_eq!(
        names.field_sig(&sig),
        "int32 modreq([mscorlib]System.List`1) modopt(Parts.Widget)"
    );
    // A modifier before the reference modifies the reference.
    let sig = MethodSig::parse(&[0x00, 0x01, 0x01, 0x1F, 0x04, 0x10, 0x13, 0x00]).unwrap();
    assert_eq!(names.param(&sig.params[0]), "!0& modreq(Parts.Widget)");
    // One behind it modifies the type.
    let sig = LocalVarSig::parse(&[0x07, 0x01, 0x20, 0x04, 0x45, 0x10, 0x20, 0x05, 0x03]).unwrap();
    assert_eq!(
        names.local(&sig.locals[0]),
        "char modopt([mscorlib]System.List`1)& pinned modopt(Parts.Widget)"
    );
}

#[test]
fn compound_types_are_spelled_like_ilasm() {
    let bytes = library();
    let metadata = Metadata::parse(&bytes).unwrap();
    let names = Names::new(&metadata);
    let spell = |blob: &[u8]| names.type_(&TypeSpecSig::parse(blob).unwrap().type_);
    assert_eq!(spell(&[0x10, 0x0D]), "float64&");
    assert_eq!(spell(&[0x11, 0x04]), "valuetype Parts.Widget");
    assert_eq!(spell(&[0x14, 0x08, 0x02, 0x01, 0x05, 0x01, 0x02]), "int32[1...5,]");
    assert_eq!(spell(&[0x1B, 0x00, 0x01, 0x01, 0x08]), "method void (int32)");
    assert_eq!(spell(&[0x15, 0x11, 0x05, 0x02, 0x1C, 0x16]),
        "valuetype [mscorlib]System.List`1<object, typedref>");
    assert_eq!(spell(&[0x45, 0x18]), "native int pinned");
    let sig = MethodSig::parse(&[0x30, 0x02, 0x00, 0x1E, 0x01]).unwrap();
    assert_eq!(names.method_sig(&sig, "F"), "instance !!1 F<2>()");
    let sig = MethodSig::parse(&[0x42, 0x00, 0x01]).unwrap();
    assert_eq!(names.method_sig(&sig, "F"), "explicit unmanaged stdcall void F()");
}
