//! The metadata root written out as bytes, and the laws that tie what is written
//! to what is parsed.

use vstd::prelude::*;

use crate::heaps;
use crate::metadata::{DirectoryState, MetadataRegion, StreamModel};
use crate::reader;

verus! {

/// The metadata root (II.24.2.1) up to the stream directory: the signature
/// `BSJB`, the version numbers, four reserved bytes, the version string in a
/// field of its own length, the flags and the number of streams.
pub open spec fn root_bytes(
    major: u16,
    minor: u16,
    reserved: u32,
    version: Seq<u8>,
    flags: u16,
    count: u16,
) -> Seq<u8> {
    seq![0x42u8, 0x53, 0x4A, 0x42] + (reader::written16(major) + (reader::written16(minor) + (
    reader::written32(reserved) + (reader::written32(version.len() as u32) + (version + (
    reader::written16(flags) + reader::written16(count)))))))
}

/// An entry of the stream directory (II.24.2.2): offset and size of the stream,
/// its name, a NUL, and padding to the next multiple of four.
pub open spec fn entry_bytes(offset: u32, size: u32, name: Seq<u8>, padding: Seq<u8>) -> Seq<u8> {
    reader::written32(offset) + (reader::written32(size) + (name + (seq![0u8] + padding)))
}

/// True when a stream called `name` at `offset` of `size` bytes is written at
/// `at` of the directory, and the entry ends at `end`.
pub open spec fn entry_written(
    m: MetadataRegion,
    at: int,
    offset: u32,
    size: u32,
    name: Seq<u8>,
    end: int,
) -> bool {
    exists|padding: Seq<u8>| #[trigger]
        reader::lies_at(m.bytes, at, entry_bytes(offset, size, name, padding)) && padding.len() < 4
            && (name.len() + 1 + padding.len()) % 4 == 0 && end == at + 9 + name.len()
            + padding.len()
}

/// The first NUL behind a name without one is the one that ends it.
proof fn lemma_name_ends(data: Seq<u8>, at: int, from: int, name: Seq<u8>)
    requires
        0 <= from <= name.len(),
        0 <= at,
        at + name.len() < data.len(),
        forall|i: int| 0 <= i < name.len() ==> data[at + i] == #[trigger] name[i],
        forall|i: int| 0 <= i < name.len() ==> #[trigger] name[i] != 0,
        data[at + name.len()] == 0,
    ensures
        heaps::nul_from(data, at + from) == at + name.len(),
    decreases name.len() - from,
{
    if from < name.len() {
        assert(data[at + from] == name[from]);
        lemma_name_ends(data, at, from + 1, name);
    }
}

/// A stream that is listed in the directory reads back: its name, where it is
/// declared to lie, and the bytes that lie there.
pub proof fn lemma_written_entry(
    m: MetadataRegion,
    at: int,
    offset: u32,
    size: u32,
    name: Seq<u8>,
    end: int,
)
    requires
        entry_written(m, at, offset, size, name, end),
        forall|i: int| 0 <= i < name.len() ==> #[trigger] name[i] != 0,
        offset + size <= m.bytes.len(),
    ensures
        m.entry(at) == (StreamModel {
            name,
            offset,
            size,
            data: m.bytes.subrange(offset as int, offset + size),
        }),
        m.entry_end(at) == end,
        m.entry_notes(at).len() == 0,
        name.len() <= 32 ==> m.entry_error(at) is None,
        0 <= at,
        at + 8 < m.bytes.len(),
{
    let padding = choose|padding: Seq<u8>| #[trigger]
        reader::lies_at(m.bytes, at, entry_bytes(offset, size, name, padding)) && padding.len() < 4
            && (name.len() + 1 + padding.len()) % 4 == 0 && end == at + 9 + name.len()
            + padding.len();
    let t3 = seq![0u8] + padding;
    let t2 = name + t3;
    let t1 = reader::written32(size) + t2;
    reader::lemma_take32(m.bytes, at, offset, t1);
    reader::lemma_take32(m.bytes, at + 4, size, t2);
    reader::lemma_lies_in_parts(m.bytes, at + 8, name, t3);
    reader::lemma_lies_in_parts(m.bytes, at + 8 + name.len(), seq![0u8], padding);
    reader::lemma_byte_reads_back(m.bytes, at + 8 + name.len(), 0);
    assert(m.bytes.subrange(at + 8, at + 8 + name.len()) == name) by {
        reveal(reader::lies_at);
    }
    assert forall|i: int| 0 <= i < name.len() implies m.bytes[at + 8 + i] == #[trigger] name[i] by {
        assert(m.bytes.subrange(at + 8, at + 8 + name.len())[i] == name[i]);
    }
    lemma_name_ends(m.bytes, at + 8, 0, name);
    assert(m.name_end(at) == at + 8 + name.len());
}

/// Listing goes over a written entry and adds the stream, with nothing noted.
pub proof fn lemma_written_stream(
    m: MetadataRegion,
    s: DirectoryState,
    offset: u32,
    size: u32,
    name: Seq<u8>,
    end: int,
)
    requires
        s.failed is None,
        !s.ended,
        entry_written(m, s.pos, offset, size, name, end),
        forall|i: int| 0 <= i < name.len() ==> #[trigger] name[i] != 0,
        name.len() <= 32,
        offset + size <= m.bytes.len(),
    ensures
        m.directory_step(s) == (DirectoryState {
            streams: s.streams.push(
                StreamModel {
                    name,
                    offset,
                    size,
                    data: m.bytes.subrange(offset as int, offset + size),
                },
            ),
            pos: end,
            ..s
        }),
{
    lemma_written_entry(m, s.pos, offset, size, name, end);
    assert(s.noted + m.entry_notes(s.pos) =~= s.noted);
}

/// The fields of a metadata root read back.
proof fn lemma_root_fields(
    m: MetadataRegion,
    major: u16,
    minor: u16,
    reserved: u32,
    field: Seq<u8>,
    flags: u16,
    count: u16,
)
    requires
        field.len() <= u32::MAX,
        reader::lies_at(m.bytes, 0, root_bytes(major, minor, reserved, field, flags, count)),
    ensures
        20 + field.len() <= m.bytes.len(),
        reader::le32(m.bytes, 0) == 0x424A_5342,
        reader::le16(m.bytes, 4) == major,
        reader::le16(m.bytes, 6) == minor,
        m.version_length() == field.len(),
        m.version_field() == field,
        reader::le16(m.bytes, 16 + field.len() as int) == flags,
        reader::le16(m.bytes, 18 + field.len() as int) == count,
{
    let t6 = reader::written16(count);
    let t5 = reader::written16(flags) + t6;
    let t4 = field + t5;
    let t3 = reader::written32(field.len() as u32) + t4;
    let t2 = reader::written32(reserved) + t3;
    let t1 = reader::written16(minor) + t2;
    let t0 = reader::written16(major) + t1;
    assert(seq![0x42u8, 0x53, 0x4A, 0x42] =~= reader::written32(0x424A_5342));
    reader::lemma_take32(m.bytes, 0, 0x424A_5342, t0);
    reader::lemma_take16(m.bytes, 4, major, t1);
    reader::lemma_take16(m.bytes, 6, minor, t2);
    reader::lemma_take32(m.bytes, 8, reserved, t3);
    reader::lemma_take32(m.bytes, 12, field.len() as u32, t4);
    reader::lemma_lies_in_parts(m.bytes, 16, field, t5);
    let tail = 16 + field.len() as int;
    reader::lemma_take16(m.bytes, tail, flags, t6);
    reader::lemma_written16_reads_back(m.bytes, tail + 2, count);
    assert(m.version_field() == field) by {
        reveal(reader::lies_at);
    }
}

/// A metadata root that is written reads back: the versions, the flags, the
/// version string up to its NUL, and where the directory starts and how many
/// streams it lists.
#[verifier::spinoff_prover]
#[verifier::rlimit(50)]
pub proof fn lemma_written_root(
    m: MetadataRegion,
    major: u16,
    minor: u16,
    reserved: u32,
    version: Seq<u8>,
    padding: Seq<u8>,
    flags: u16,
    count: u16,
)
    requires
        forall|i: int| 0 <= i < version.len() ==> #[trigger] version[i] != 0,
        version.len() + 1 + padding.len() <= u32::MAX,
        reader::lies_at(
            m.bytes,
            0,
            root_bytes(major, minor, reserved, version + (seq![0u8] + padding), flags, count),
        ),
    ensures
        m.root_error() is None,
        m.stream_count() == count,
        m.directory_start().pos == 21 + version.len() + padding.len(),
        m.directory_start().noted.len() == 0,
        m.parsed() matches Ok(parsed) ==> parsed.major_version == major && parsed.minor_version
            == minor && parsed.flags == flags && parsed.version == version,
{
    let field = version + (seq![0u8] + padding);
    lemma_root_fields(m, major, minor, reserved, field, flags, count);
    assert(field[version.len() as int] == 0);
    assert forall|i: int| 0 <= i < version.len() implies field[0 + i] == #[trigger] version[i] by {}
    lemma_name_ends(field, 0, 0, version);
    assert(field.take(version.len() as int) =~= version);
}

} // verus!
