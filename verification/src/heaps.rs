//! The four metadata heaps: `#Strings`, `#US`, `#Blob` and `#GUID` (II.24.2.2 to II.24.2.5).
//!
//! Heaps are read lazily. Constructing one only records its byte range; every
//! accessor bounds-checks both the start of the entry and the length it decodes
//! from the entry itself, so a hostile index can at worst produce an error.
//!
//! Index 0 denotes the empty value in `#Strings`, `#US` and `#Blob`. `#GUID` is
//! indexed from 1 and index 0 means "no GUID"; [`GuidHeap::get`] rejects it, so
//! check [`GuidIndex::is_empty`] first.
use vstd::prelude::*;
use vstd::string::StringExecFns;
use vstd::utf8;

use crate::compressed;
use crate::error;
use crate::error::{Error, ErrorKind, Result};
use crate::reader;
use crate::text;
use crate::token::{BlobIndex, GuidIndex, StringIndex, UserStringToken};

verus! {

/// A 16-byte GUID as stored in the `#GUID` heap (little-endian first three fields).
#[derive(Clone, Copy, PartialEq, Eq, PartialOrd, Ord, Hash, Debug)]
pub struct Guid(pub [u8; 16]);

impl Guid {
    /// The all-zero GUID.
    pub fn zero() -> (g: Guid)
        ensures
            g.0@ == Seq::new(16, |i: int| 0u8),
    {
        Guid([0; 16])
    }

    /// The raw bytes in heap order.
    pub fn as_bytes(&self) -> (bytes: &[u8; 16])
        ensures
            bytes == self.0,
    {
        &self.0
    }

    /// The rendered GUID: the first three fields are little-endian, the rest
    /// is in heap order.
    pub open spec fn rendered(self) -> Seq<char> {
        let b = self.0@;
        hex_bytes(seq![b[3], b[2], b[1], b[0]]) + "-"@ + hex_bytes(seq![b[5], b[4]]) + "-"@
            + hex_bytes(seq![b[7], b[6]]) + "-"@ + hex_bytes(seq![b[8], b[9]]) + "-"@ + hex_bytes(
            b.skip(10),
        )
    }

    /// Renders the GUID in its usual form of five dash-separated groups.
    pub fn to_string(&self) -> (s: String)
        ensures
            s@ == self.rendered(),
    {
        let b: &[u8; 16] = &self.0;
        let mut out = String::new();
        push_hex_bytes(&mut out, &[b[3], b[2], b[1], b[0]]);
        out.append("-");
        push_hex_bytes(&mut out, &[b[5], b[4]]);
        out.append("-");
        push_hex_bytes(&mut out, &[b[7], b[6]]);
        out.append("-");
        push_hex_bytes(&mut out, &[b[8], b[9]]);
        out.append("-");
        push_hex_bytes(&mut out, &[b[10], b[11], b[12], b[13], b[14], b[15]]);
        proof {
            assert(self.0@.skip(10) =~= seq![b[10], b[11], b[12], b[13], b[14], b[15]]);
            assert(out@ =~= self.rendered());
        }
        out
    }

    /// Describes the GUID as `Guid(..)` around its rendered form.
    pub fn describe(&self) -> (s: String)
        ensures
            s@ == "Guid("@ + self.rendered() + ")"@,
    {
        let mut out = String::from_str("Guid(");
        out.append(self.to_string().as_str());
        out.append(")");
        out
    }
}

impl Default for Guid {
    fn default() -> (g: Self)
        ensures
            g.0@ == Seq::new(16, |i: int| 0u8),
    {
        Guid::zero()
    }
}

/// Two hexadecimal digits for each byte.
pub open spec fn hex_bytes(bytes: Seq<u8>) -> Seq<char>
    decreases bytes.len(),
{
    if bytes.len() == 0 {
        Seq::empty()
    } else {
        hex_bytes(bytes.drop_last()) + text::hex_fixed(bytes.last() as nat, 2)
    }
}

fn push_hex_bytes(out: &mut String, bytes: &[u8])
    ensures
        final(out)@ == old(out)@ + hex_bytes(bytes@),
{
    let ghost start = out@;
    let mut i: usize = 0;
    assert(out@ =~= start + hex_bytes(bytes@.take(0)));
    while i < bytes.len()
        invariant
            i <= bytes@.len(),
            out@ == start + hex_bytes(bytes@.take(i as int)),
        decreases bytes@.len() - i,
    {
        text::push_hex_fixed(out, bytes[i] as u32, 2);
        proof {
            let next = bytes@.take(i + 1);
            assert(next.drop_last() =~= bytes@.take(i as int));
            assert(out@ =~= start + hex_bytes(next));
        }
        i = i + 1;
    }
    assert(bytes@.take(i as int) =~= bytes@);
}

/// The bytes of a heap and the absolute offset at which they start.
#[verifier::ext_equal]
pub struct HeapModel {
    /// The heap bytes.
    pub data: Seq<u8>,
    /// Where the heap starts in the parsed input.
    pub base: usize,
}

/// The position of the first NUL of `data` at or after `from`, or its length.
pub open spec fn nul_from(data: Seq<u8>, from: int) -> int
    decreases data.len() - from,
{
    if from >= data.len() || data[from] == 0 {
        from
    } else {
        nul_from(data, from + 1)
    }
}

impl HeapModel {
    /// The absolute offset of heap offset `offset`.
    pub open spec fn absolute(self, offset: int) -> usize {
        error::saturating(self.base as int, offset)
    }

    /// The bytes from `offset` to the end of the heap.
    pub open spec fn tail(self, offset: u32, context: &'static str) -> Result<Seq<u8>> {
        if offset <= self.data.len() {
            Ok(self.data.skip(offset as int))
        } else {
            Err(Error::at(ErrorKind::OutOfRange, self.absolute(offset as int), context))
        }
    }

    /// The length-prefixed entry at `offset` and its size, prefix included.
    pub open spec fn entry(self, offset: u32, context: &'static str) -> Result<
        (Seq<u8>, usize),
    > {
        match self.tail(offset, context) {
            Err(e) => Err(e),
            Ok(rest) => match compressed::decoded_u32(rest) {
                Err(e) => Err(e.rebased(self.absolute(offset as int))),
                Ok((len, used)) => if used + len <= rest.len() {
                    Ok((rest.subrange(used as int, used + len), (used + len) as usize))
                } else {
                    Err(Error::at(ErrorKind::OutOfRange, self.absolute(offset as int), context))
                },
            },
        }
    }

    /// The NUL-terminated string at `offset`, without its NUL; it ends with the
    /// heap where the NUL is missing.
    pub open spec fn string(self, offset: u32) -> Result<Seq<u8>> {
        match self.tail(offset, "#Strings") {
            Err(e) => Err(e),
            Ok(rest) => Ok(rest.take(nul_from(rest, 0))),
        }
    }

    /// The string at `offset` as text, or where it stops being UTF-8.
    pub open spec fn string_text(self, offset: u32) -> Result<Seq<char>> {
        match self.string(offset) {
            Err(e) => Err(e),
            Ok(bytes) => if utf8::valid_utf8(bytes) {
                Ok(utf8::decode_utf8(bytes))
            } else {
                Err(
                    Error::at(
                        ErrorKind::InvalidUtf8,
                        error::saturating(
                            self.absolute(offset as int) as int,
                            text::valid_up_to(bytes),
                        ),
                        "#Strings",
                    ),
                )
            },
        }
    }

    /// The string at `offset` as text, with invalid sequences replaced.
    pub open spec fn lossy_text(self, offset: u32) -> Result<Seq<char>> {
        match self.string(offset) {
            Err(e) => Err(e),
            Ok(bytes) => Ok(text::lossy_text(bytes)),
        }
    }

    /// The 16 bytes of the GUID at the 1-based `index`.
    pub open spec fn guid(self, index: u32) -> Result<Seq<u8>> {
        let start = (index - 1) * 16;
        if index == 0 || start > usize::MAX {
            Err(Error::at(ErrorKind::OutOfRange, self.base, "#GUID"))
        } else if start + 16 > self.data.len() {
            Err(Error::at(ErrorKind::OutOfRange, self.absolute(start), "#GUID"))
        } else {
            Ok(self.data.subrange(start, start + 16))
        }
    }

    /// The user string at `offset`.
    pub open spec fn user_string(self, offset: u32) -> Result<UserStringModel> {
        match self.entry(offset, "#US") {
            Err(e) => Err(e),
            Ok((body, _)) => Ok(UserStringModel::of_body(body)),
        }
    }
}

/// The bytes of a heap entry that is length-prefixed are the ones stored
/// behind the prefix, whatever surrounds the entry.
pub proof fn lemma_entry_reads_back(
    before: Seq<u8>,
    content: Seq<u8>,
    after: Seq<u8>,
    base: usize,
    context: &'static str,
)
    requires
        before.len() <= u32::MAX,
        content.len() <= compressed::MAX_COMPRESSED_U32,
    ensures
        ({
            let prefix = compressed::encoded(content.len() as int);
            let heap = HeapModel { data: before + (prefix + content) + after, base };
            heap.entry(before.len() as u32, context) == Ok::<(Seq<u8>, usize), Error>(
                (content, (prefix.len() + content.len()) as usize),
            )
        }),
{
    let prefix = compressed::encoded(content.len() as int);
    let heap = HeapModel { data: before + (prefix + content) + after, base };
    let rest = heap.data.skip(before.len() as int);
    assert(rest =~= prefix + (content + after));
    compressed::lemma_write_then_read(content.len() as u32, content + after);
    assert(rest.subrange(prefix.len() as int, (prefix.len() + content.len()) as int) =~= content);
}

/// A string without an interior NUL reads back as stored, whatever surrounds
/// it.
pub proof fn lemma_string_reads_back(
    before: Seq<u8>,
    content: Seq<u8>,
    after: Seq<u8>,
    base: usize,
)
    requires
        before.len() <= u32::MAX,
        forall|i: int| 0 <= i < content.len() ==> content[i] != 0,
    ensures
        (HeapModel { data: before + content.push(0) + after, base }).string(before.len() as u32)
            == Ok::<Seq<u8>, Error>(content),
{
    let heap = HeapModel { data: before + content.push(0) + after, base };
    let rest = heap.data.skip(before.len() as int);
    assert(rest =~= content.push(0) + after);
    lemma_nul_found(rest, 0, content.len() as int);
    assert(rest.take(content.len() as int) =~= content);
}

/// `nul_from` finds the first NUL.
proof fn lemma_nul_found(data: Seq<u8>, from: int, at: int)
    requires
        0 <= from <= at <= data.len(),
        forall|i: int| from <= i < at ==> data[i] != 0,
        at < data.len() ==> data[at] == 0,
    ensures
        nul_from(data, from) == at,
    decreases at - from,
{
    if from < at {
        lemma_nul_found(data, from + 1, at);
    }
}

/// The string at any index holds no NUL, lies in the heap, and is followed by
/// a NUL or the end of the heap.
pub proof fn lemma_string_shape(heap: HeapModel, offset: u32)
    ensures
        heap.string(offset) matches Ok(s) ==> {
            &&& offset + s.len() <= heap.data.len()
            &&& s == heap.data.subrange(offset as int, offset + s.len())
            &&& forall|i: int| 0 <= i < s.len() ==> s[i] != 0
            &&& offset + s.len() == heap.data.len() || heap.data[offset + s.len()] == 0
        },
{
    if offset <= heap.data.len() {
        let rest = heap.data.skip(offset as int);
        lemma_nul_bounds(rest, 0);
        let s = rest.take(nul_from(rest, 0));
        assert(s =~= heap.data.subrange(offset as int, offset + s.len()));
    }
}

/// What lies between `from` and the NUL that `nul_from` finds.
pub proof fn lemma_nul_bounds(data: Seq<u8>, from: int)
    requires
        0 <= from <= data.len(),
    ensures
        from <= nul_from(data, from) <= data.len(),
        forall|i: int| from <= i < nul_from(data, from) ==> data[i] != 0,
        nul_from(data, from) < data.len() ==> data[nul_from(data, from)] == 0,
    decreases data.len() - from,
{
    if from < data.len() && data[from] != 0 {
        lemma_nul_bounds(data, from + 1);
    }
}

/// The position of the first NUL of `data` at or after `from`, or its length.
pub fn find_nul(data: &[u8], from: usize) -> (at: usize)
    requires
        from <= data.len(),
    ensures
        at == nul_from(data@, from as int),
        from <= at <= data.len(),
{
    let mut at: usize = from;
    while at < data.len() && data[at] != 0
        invariant
            from <= at <= data.len(),
            nul_from(data@, at as int) == nul_from(data@, from as int),
        decreases data.len() - at,
    {
        at = at + 1;
    }
    at
}

/// The shared byte range of a heap, plus the absolute offset used in errors.
#[derive(Clone, Copy, Debug)]
struct Span<'a> {
    data: &'a [u8],
    base: usize,
}

impl<'a> Span<'a> {
    spec fn model(self) -> HeapModel {
        HeapModel { data: self.data@, base: self.base }
    }

    fn at(&self, offset: u32, context: &'static str) -> (r: Result<&'a [u8]>)
        ensures
            r is Ok == self.model().tail(offset, context) is Ok,
            r matches Ok(rest) ==> self.model().tail(offset, context) == Ok::<Seq<u8>, Error>(
                rest@,
            ),
            r matches Err(e) ==> self.model().tail(offset, context) == Err::<Seq<u8>, Error>(e),
    {
        if offset as u64 > self.data.len() as u64 {
            return Err(
                Error::new(
                    ErrorKind::OutOfRange,
                    self.base.saturating_add(offset as usize),
                    context,
                ),
            );
        }
        Ok(&self.data[offset as usize..self.data.len()])
    }

    /// The length-prefixed entry at `offset` and its total encoded size.
    fn entry(&self, offset: u32, context: &'static str) -> (r: Result<(&'a [u8], usize)>)
        ensures
            r matches Ok((bytes, size)) ==> self.model().entry(offset, context) == Ok::<
                (Seq<u8>, usize),
                Error,
            >((bytes@, size)) && 1 <= size && offset + size <= self.data.len(),
            r matches Err(e) ==> self.model().entry(offset, context) == Err::<
                (Seq<u8>, usize),
                Error,
            >(e),
    {
        let rest = self.at(offset, context)?;
        let base: usize = self.base.saturating_add(offset as usize);
        let (len, used): (u32, usize) = match compressed::read_u32(rest) {
            Ok(pair) => pair,
            Err(e) => {
                return Err(e.rebase(base));
            },
        };
        let left: usize = rest.len() - used;
        if len as u64 > left as u64 {
            return Err(Error::new(ErrorKind::OutOfRange, base, context));
        }
        let end: usize = used + len as usize;
        Ok((&rest[used..end], end))
    }
}

/// The `#Strings` heap: NUL-terminated, nominally UTF-8 byte strings (II.24.2.3).
#[derive(Clone, Copy, Debug)]
pub struct StringsHeap<'a>(Span<'a>);

impl<'a> View for StringsHeap<'a> {
    type V = HeapModel;

    closed spec fn view(&self) -> HeapModel {
        self.0.model()
    }
}

impl<'a> StringsHeap<'a> {
    /// Wraps a heap byte range. `base` is the absolute offset of the heap in
    /// the input, used only for error reporting.
    pub fn new(data: &'a [u8], base: usize) -> (heap: Self)
        ensures
            heap@ == (HeapModel { data: data@, base }),
    {
        StringsHeap(Span { data, base })
    }

    /// An empty heap, used when the stream is absent.
    pub fn empty() -> (heap: Self)
        ensures
            heap@ == (HeapModel { data: Seq::empty(), base: 0 }),
    {
        let data: &'a [u8] = &[];
        assert(data@ =~= Seq::empty());
        StringsHeap(Span { data, base: 0 })
    }

    /// The raw heap bytes.
    pub fn data(&self) -> (data: &'a [u8])
        ensures
            data@ == self@.data,
    {
        self.0.data
    }

    /// The heap size in bytes.
    pub fn len(&self) -> (len: usize)
        ensures
            len == self@.data.len(),
    {
        self.0.data.len()
    }

    /// True when the heap is absent or zero-length.
    pub fn is_empty(&self) -> (empty: bool)
        ensures
            empty == (self@.data.len() == 0),
    {
        self.0.data.len() == 0
    }

    /// The absolute offset of this heap in the parsed input.
    pub fn base(&self) -> (base: usize)
        ensures
            base == self@.base,
    {
        self.0.base
    }

    /// The context string used in errors from this heap.
    pub fn context() -> (context: &'static str)
        ensures
            context == "#Strings",
    {
        "#Strings"
    }
}

impl<'a> Default for StringsHeap<'a> {
    fn default() -> (heap: Self)
        ensures
            heap@ == (HeapModel { data: Seq::empty(), base: 0 }),
    {
        StringsHeap::empty()
    }
}

impl<'a> StringsHeap<'a> {
    /// The bytes of the entry at `index`, up to but not including its NUL.
    ///
    /// An unterminated final entry yields the rest of the heap rather than an
    /// error; obfuscated images routinely omit the last NUL.
    pub fn bytes(&self, index: StringIndex) -> (r: Result<&'a [u8]>)
        ensures
            r matches Ok(bytes) ==> self@.string(index.0) == Ok::<Seq<u8>, Error>(bytes@),
            r matches Err(e) ==> self@.string(index.0) == Err::<Seq<u8>, Error>(e),
    {
        let rest = self.0.at(index.0, "#Strings")?;
        let end: usize = find_nul(rest, 0);
        Ok(&rest[0..end])
    }

    /// The entry at `index` as UTF-8.
    pub fn str(&self, index: StringIndex) -> (r: Result<&'a str>)
        ensures
            r matches Ok(s) ==> self@.string_text(index.0) == Ok::<Seq<char>, Error>(s@),
            r matches Err(e) ==> self@.string_text(index.0) == Err::<Seq<char>, Error>(e),
    {
        let bytes = self.bytes(index)?;
        match text::utf8_str(bytes) {
            Ok(s) => Ok(s),
            Err(valid) => Err(
                Error::new(
                    ErrorKind::InvalidUtf8,
                    self.0.base.saturating_add(index.0 as usize).saturating_add(valid),
                    "#Strings",
                ),
            ),
        }
    }

    /// The entry at `index` as UTF-8, or `None` if it is out of range or not
    /// valid UTF-8.
    pub fn str_opt(&self, index: StringIndex) -> (r: Option<&'a str>)
        ensures
            r matches Some(s) ==> self@.string_text(index.0) == Ok::<Seq<char>, Error>(s@),
            r is None ==> self@.string_text(index.0) is Err,
    {
        match self.str(index) {
            Ok(s) => Some(s),
            Err(_) => None,
        }
    }

    /// The entry at `index` with invalid sequences replaced by `U+FFFD`.
    pub fn lossy(&self, index: StringIndex) -> (r: Result<String>)
        ensures
            r matches Ok(s) ==> self@.lossy_text(index.0) == Ok::<Seq<char>, Error>(s@),
            r matches Err(e) ==> self@.lossy_text(index.0) == Err::<Seq<char>, Error>(e),
    {
        let bytes = self.bytes(index)?;
        Ok(text::utf8_lossy(bytes))
    }

    /// Iterates every NUL-terminated entry, yielding its index and bytes.
    ///
    /// Entry 0 (the empty string) is included. Interior indices that point into
    /// the middle of an entry are legal in metadata but are not visited here.
    pub fn iter(&self) -> (it: StringsIter<'a>)
        ensures
            it@ == (HeapCursor { heap: self@, pos: 0 }),
    {
        StringsIter { heap: *self, pos: 0 }
    }
}

/// A position in a heap that is being walked.
#[verifier::ext_equal]
pub struct HeapCursor {
    /// The heap.
    pub heap: HeapModel,
    /// The offset of the next entry.
    pub pos: int,
}

impl HeapCursor {
    /// The string at the cursor, as index and bytes, and the cursor behind its
    /// NUL; `None` at the end of the heap.
    pub open spec fn next_string(self) -> Option<((StringIndex, Seq<u8>), HeapCursor)> {
        if self.pos >= self.heap.data.len() {
            None
        } else {
            let end = nul_from(self.heap.data, self.pos);
            let pos = if end < self.heap.data.len() {
                end + 1
            } else {
                end
            };
            Some(
                (
                    (StringIndex(self.pos as u32), self.heap.data.subrange(self.pos, end)),
                    HeapCursor { heap: self.heap, pos },
                ),
            )
        }
    }

    /// The length-prefixed entry at the cursor, and the cursor behind it;
    /// `None` at the end, at the first entry that cannot be decoded, and where
    /// offsets stop fitting 32 bits.
    pub open spec fn next_entry(self, context: &'static str) -> Option<(Seq<u8>, HeapCursor)> {
        if self.pos >= self.heap.data.len() {
            None
        } else {
            match self.heap.entry(self.pos as u32, context) {
                Ok((bytes, size)) => if self.pos + size <= u32::MAX {
                    Some((bytes, HeapCursor { heap: self.heap, pos: self.pos + size }))
                } else {
                    None
                },
                Err(_) => None,
            }
        }
    }
}

/// Walking a heap makes progress: every entry that is yielded starts at the
/// cursor and moves it forward, within the heap.
pub proof fn lemma_heap_walk_progress(cursor: HeapCursor, context: &'static str)
    requires
        0 <= cursor.pos,
    ensures
        cursor.next_string() matches Some((_, next)) ==> cursor.pos < next.pos
            <= cursor.heap.data.len(),
        cursor.pos <= u32::MAX ==> (cursor.next_entry(context) matches Some((_, next)) ==> cursor.pos
            < next.pos <= cursor.heap.data.len()),
{
    if cursor.pos < cursor.heap.data.len() {
        lemma_nul_bounds(cursor.heap.data, cursor.pos);
    }
}

impl HeapCursor {
    /// Every string from the cursor on.
    pub open spec fn strings(self) -> Seq<(StringIndex, Seq<u8>)>
        decreases self.heap.data.len() - self.pos,
    {
        match self.next_string() {
            Some((entry, next)) => if self.pos < next.pos <= self.heap.data.len() {
                seq![entry] + next.strings()
            } else {
                seq![entry]
            },
            None => Seq::empty(),
        }
    }
}

/// The bytes of `entries` one after the other, each with its NUL.
pub open spec fn terminated(entries: Seq<(StringIndex, Seq<u8>)>) -> Seq<u8>
    decreases entries.len(),
{
    if entries.len() == 0 {
        Seq::empty()
    } else {
        entries[0].1.push(0) + terminated(entries.skip(1))
    }
}

/// True when `entries` follow each other from the offset `from` on, each behind
/// the NUL of the one before, and no NUL occurs inside one.
pub open spec fn adjoining(entries: Seq<(StringIndex, Seq<u8>)>, from: int) -> bool
    decreases entries.len(),
{
    entries.len() == 0 || {
        &&& entries[0].0 == StringIndex(from as u32)
        &&& !entries[0].1.contains(0)
        &&& adjoining(entries.skip(1), from + entries[0].1.len() + 1)
    }
}

/// The strings of a heap tile it: they follow each other without a gap, and with
/// their NULs they are the bytes of the heap, where only the NUL of the last may
/// be missing.
pub proof fn lemma_strings_tile(cursor: HeapCursor)
    requires
        0 <= cursor.pos <= cursor.heap.data.len(),
    ensures
        ({
            let rest = cursor.heap.data.skip(cursor.pos);
            &&& adjoining(cursor.strings(), cursor.pos)
            &&& terminated(cursor.strings()) == if rest.len() == 0 || rest.last() == 0 {
                rest
            } else {
                rest.push(0)
            }
        }),
    decreases cursor.heap.data.len() - cursor.pos,
{
    let data = cursor.heap.data;
    let rest = data.skip(cursor.pos);
    if let Some((entry, next)) = cursor.next_string() {
        lemma_nul_bounds(data, cursor.pos);
        lemma_strings_tile(next);
        let all = cursor.strings();
        assert(all.skip(1) =~= next.strings());
        assert(!entry.1.contains(0));
        let end = nul_from(data, cursor.pos);
        let after = data.skip(next.pos);
        if end < data.len() {
            assert(rest =~= entry.1.push(0) + after);
            if after.len() > 0 {
                assert(rest.last() == after.last());
                assert(entry.1.push(0) + after.push(0) =~= rest.push(0));
            } else {
                assert(rest.last() == 0);
            }
        } else {
            assert(after =~= Seq::empty());
            assert(next.strings() =~= Seq::empty());
            assert(entry.1 =~= rest);
            assert(rest.last() != 0) by {
                assert(rest.contains(rest.last()));
            }
            assert(entry.1.push(0) + terminated(next.strings()) =~= rest.push(0));
        }
        assert(all[0] == entry);
        assert(terminated(all) == entry.1.push(0) + terminated(next.strings()));
        assert(adjoining(all.skip(1), cursor.pos + entry.1.len() + 1)) by {
            if end < data.len() {
                assert(cursor.pos + entry.1.len() + 1 == next.pos);
            }
        }
        assert(all[0].0 == StringIndex(cursor.pos as u32));
        assert(!all[0].1.contains(0));
        assert(adjoining(all, cursor.pos));
    } else {
        assert(rest =~= Seq::empty());
    }
}

/// Iterator over `#Strings` entries; see [`StringsHeap::iter`].
#[derive(Clone, Debug)]
pub struct StringsIter<'a> {
    heap: StringsHeap<'a>,
    pos: usize,
}

impl<'a> View for StringsIter<'a> {
    type V = HeapCursor;

    closed spec fn view(&self) -> HeapCursor {
        HeapCursor { heap: self.heap@, pos: self.pos as int }
    }
}

impl<'a> StringsIter<'a> {
    /// The next entry; each call advances by at least one byte.
    pub fn next(&mut self) -> (r: Option<(StringIndex, &'a [u8])>)
        ensures
            r is None ==> old(self)@.next_string() is None && final(self)@ == old(self)@,
            r matches Some((index, bytes)) ==> old(self)@.next_string() == Some(
                ((index, bytes@), final(self)@),
            ),
    {
        let data = self.heap.0.data;
        if self.pos >= data.len() {
            return None;
        }
        let start: usize = self.pos;
        let end: usize = find_nul(data, start);
        self.pos = if end < data.len() {
            end + 1
        } else {
            end
        };
        Some((StringIndex(start as u32), &data[start..end]))
    }
}

/// The `#Blob` heap: length-prefixed byte strings (II.24.2.4).
#[derive(Clone, Copy, Debug)]
pub struct BlobHeap<'a>(Span<'a>);

impl<'a> View for BlobHeap<'a> {
    type V = HeapModel;

    closed spec fn view(&self) -> HeapModel {
        self.0.model()
    }
}

impl<'a> BlobHeap<'a> {
    /// Wraps a heap byte range. `base` is the absolute offset of the heap in
    /// the input, used only for error reporting.
    pub fn new(data: &'a [u8], base: usize) -> (heap: Self)
        ensures
            heap@ == (HeapModel { data: data@, base }),
    {
        BlobHeap(Span { data, base })
    }

    /// An empty heap, used when the stream is absent.
    pub fn empty() -> (heap: Self)
        ensures
            heap@ == (HeapModel { data: Seq::empty(), base: 0 }),
    {
        let data: &'a [u8] = &[];
        assert(data@ =~= Seq::empty());
        BlobHeap(Span { data, base: 0 })
    }

    /// The raw heap bytes.
    pub fn data(&self) -> (data: &'a [u8])
        ensures
            data@ == self@.data,
    {
        self.0.data
    }

    /// The heap size in bytes.
    pub fn len(&self) -> (len: usize)
        ensures
            len == self@.data.len(),
    {
        self.0.data.len()
    }

    /// True when the heap is absent or zero-length.
    pub fn is_empty(&self) -> (empty: bool)
        ensures
            empty == (self@.data.len() == 0),
    {
        self.0.data.len() == 0
    }

    /// The absolute offset of this heap in the parsed input.
    pub fn base(&self) -> (base: usize)
        ensures
            base == self@.base,
    {
        self.0.base
    }

    /// The context string used in errors from this heap.
    pub fn context() -> (context: &'static str)
        ensures
            context == "#Blob",
    {
        "#Blob"
    }
}

impl<'a> Default for BlobHeap<'a> {
    fn default() -> (heap: Self)
        ensures
            heap@ == (HeapModel { data: Seq::empty(), base: 0 }),
    {
        BlobHeap::empty()
    }
}

impl<'a> BlobHeap<'a> {
    /// The bytes of the blob at `index`, excluding its length prefix.
    pub fn get(&self, index: BlobIndex) -> (r: Result<&'a [u8]>)
        ensures
            r matches Ok(bytes) ==> self@.entry(index.0, "#Blob") matches Ok((b, _)) && b
                == bytes@,
            r matches Err(e) ==> self@.entry(index.0, "#Blob") == Err::<(Seq<u8>, usize), Error>(
                e,
            ),
    {
        let (bytes, _): (&'a [u8], usize) = self.0.entry(index.0, "#Blob")?;
        Ok(bytes)
    }

    /// The blob at `index` together with its total encoded size.
    pub fn get_with_size(&self, index: BlobIndex) -> (r: Result<(&'a [u8], usize)>)
        ensures
            r matches Ok((bytes, size)) ==> self@.entry(index.0, "#Blob") == Ok::<
                (Seq<u8>, usize),
                Error,
            >((bytes@, size)) && 1 <= size && index.0 + size <= self@.data.len(),
            r matches Err(e) ==> self@.entry(index.0, "#Blob") == Err::<(Seq<u8>, usize), Error>(
                e,
            ),
    {
        self.0.entry(index.0, "#Blob")
    }

    /// The absolute offset in the parsed input of the blob body at `index`.
    pub fn body_offset(&self, index: BlobIndex) -> (r: Result<usize>)
        ensures
            r == (match self@.tail(index.0, "#Blob") {
                Err(e) => Err(e),
                Ok(rest) => match compressed::decoded_u32(rest) {
                    Err(e) => Err(e.rebased(self@.absolute(index.0 as int))),
                    Ok((_, used)) => Ok(
                        error::saturating(self@.absolute(index.0 as int) as int, used as int),
                    ),
                },
            }),
    {
        let rest = self.0.at(index.0, "#Blob")?;
        let base: usize = self.0.base.saturating_add(index.0 as usize);
        match compressed::read_u32(rest) {
            Ok((_, used)) => Ok(base.saturating_add(used)),
            Err(e) => Err(e.rebase(base)),
        }
    }

    /// Iterates every blob from the start of the heap.
    ///
    /// Stops at the first entry that cannot be decoded, which is how a heap
    /// with trailing garbage terminates.
    pub fn iter(&self) -> (it: BlobIter<'a>)
        ensures
            it@ == (HeapCursor { heap: self@, pos: 0 }),
    {
        BlobIter { heap: *self, pos: 0 }
    }
}

/// Iterator over `#Blob` entries; see [`BlobHeap::iter`].
#[derive(Clone, Debug)]
pub struct BlobIter<'a> {
    heap: BlobHeap<'a>,
    pos: u32,
}

impl<'a> View for BlobIter<'a> {
    type V = HeapCursor;

    closed spec fn view(&self) -> HeapCursor {
        HeapCursor { heap: self.heap@, pos: self.pos as int }
    }
}

impl<'a> BlobIter<'a> {
    /// The next blob with its index.
    pub fn next(&mut self) -> (r: Option<(BlobIndex, &'a [u8])>)
        ensures
            r is None ==> old(self)@.next_entry("#Blob") is None && final(self)@ == old(self)@,
            r matches Some((index, bytes)) ==> index.0 == old(self)@.pos && old(self)@.next_entry(
                "#Blob",
            ) == Some((bytes@, final(self)@)),
    {
        if self.pos as u64 >= self.heap.len() as u64 {
            return None;
        }
        let index = BlobIndex(self.pos);
        let (bytes, size): (&'a [u8], usize) = match self.heap.get_with_size(index) {
            Ok(pair) => pair,
            Err(_) => {
                return None;
            },
        };
        if size as u64 > (u32::MAX - self.pos) as u64 {
            return None;
        }
        // A zero-length prefix still consumes its length byte, so `size >= 1`.
        self.pos = self.pos + size as u32;
        Some((index, bytes))
    }
}

/// The `#GUID` heap: a 1-based array of 16-byte GUIDs (II.24.2.5).
#[derive(Clone, Copy, Debug)]
pub struct GuidHeap<'a>(Span<'a>);

impl<'a> View for GuidHeap<'a> {
    type V = HeapModel;

    closed spec fn view(&self) -> HeapModel {
        self.0.model()
    }
}

impl<'a> GuidHeap<'a> {
    /// Wraps a heap byte range. `base` is the absolute offset of the heap in
    /// the input, used only for error reporting.
    pub fn new(data: &'a [u8], base: usize) -> (heap: Self)
        ensures
            heap@ == (HeapModel { data: data@, base }),
    {
        GuidHeap(Span { data, base })
    }

    /// An empty heap, used when the stream is absent.
    pub fn empty() -> (heap: Self)
        ensures
            heap@ == (HeapModel { data: Seq::empty(), base: 0 }),
    {
        let data: &'a [u8] = &[];
        assert(data@ =~= Seq::empty());
        GuidHeap(Span { data, base: 0 })
    }

    /// The raw heap bytes.
    pub fn data(&self) -> (data: &'a [u8])
        ensures
            data@ == self@.data,
    {
        self.0.data
    }

    /// The heap size in bytes.
    pub fn len(&self) -> (len: usize)
        ensures
            len == self@.data.len(),
    {
        self.0.data.len()
    }

    /// True when the heap is absent or zero-length.
    pub fn is_empty(&self) -> (empty: bool)
        ensures
            empty == (self@.data.len() == 0),
    {
        self.0.data.len() == 0
    }

    /// The absolute offset of this heap in the parsed input.
    pub fn base(&self) -> (base: usize)
        ensures
            base == self@.base,
    {
        self.0.base
    }

    /// The context string used in errors from this heap.
    pub fn context() -> (context: &'static str)
        ensures
            context == "#GUID",
    {
        "#GUID"
    }
}

impl<'a> Default for GuidHeap<'a> {
    fn default() -> (heap: Self)
        ensures
            heap@ == (HeapModel { data: Seq::empty(), base: 0 }),
    {
        GuidHeap::empty()
    }
}

impl<'a> GuidHeap<'a> {
    /// The number of complete GUIDs in the heap.
    pub fn count(&self) -> (n: usize)
        ensures
            n == self@.data.len() / 16,
    {
        self.0.data.len() / 16
    }

    /// The GUID at a 1-based index.
    ///
    /// Index 0 means "no GUID" and is rejected with [`ErrorKind::OutOfRange`].
    pub fn get(&self, index: GuidIndex) -> (r: Result<Guid>)
        ensures
            r matches Ok(g) ==> self@.guid(index.0) == Ok::<Seq<u8>, Error>(g.0@),
            r matches Err(e) ==> self@.guid(index.0) == Err::<Seq<u8>, Error>(e),
    {
        if index.0 == 0 {
            return Err(Error::new(ErrorKind::OutOfRange, self.0.base, "#GUID"));
        }
        let start: usize = match (index.0 as usize - 1).checked_mul(16) {
            Some(start) => start,
            None => {
                return Err(Error::new(ErrorKind::OutOfRange, self.0.base, "#GUID"));
            },
        };
        let data = self.0.data;
        if data.len() < 16 || start > data.len() - 16 {
            return Err(
                Error::new(ErrorKind::OutOfRange, self.0.base.saturating_add(start), "#GUID"),
            );
        }
        let mut out: [u8; 16] = [0; 16];
        let mut i: usize = 0;
        while i < 16
            invariant
                i <= 16,
                start + 16 <= data.len(),
                forall|j: int| 0 <= j < i ==> out@[j] == data@[start + j],
            decreases 16 - i,
        {
            out[i] = data[start + i];
            i = i + 1;
        }
        assert(out@ =~= data@.subrange(start as int, start + 16));
        Ok(Guid(out))
    }

    /// The GUID at `index`, or `None` for index 0 or an out-of-range index.
    pub fn get_opt(&self, index: GuidIndex) -> (r: Option<Guid>)
        ensures
            r matches Some(g) ==> self@.guid(index.0) == Ok::<Seq<u8>, Error>(g.0@),
            r is None ==> self@.guid(index.0) is Err,
    {
        match self.get(index) {
            Ok(g) => Some(g),
            Err(_) => None,
        }
    }

    /// Every complete GUID with its 1-based index; the count is taken to 32
    /// bits.
    pub fn iter(&self) -> (all: Vec<(GuidIndex, Guid)>)
        ensures
            all@.len() == ((self@.data.len() / 16) as usize) as u32,
            forall|i: int|
                0 <= i < all@.len() ==> (#[trigger] all@[i]).0 == GuidIndex((i + 1) as u32)
                    && all@[i].1.0@ == self@.data.subrange(i * 16, i * 16 + 16),
    {
        let count: u32 = self.count() as u32;
        let mut all: Vec<(GuidIndex, Guid)> = Vec::new();
        let mut i: u32 = 0;
        while i < count
            invariant
                i <= count,
                count <= self@.data.len() / 16,
                all@.len() == i,
                forall|j: int|
                    0 <= j < i ==> (#[trigger] all@[j]).0 == GuidIndex((j + 1) as u32)
                        && all@[j].1.0@ == self@.data.subrange(j * 16, j * 16 + 16),
            decreases count - i,
        {
            let index = GuidIndex(i + 1);
            assert(self.0.data.len() == self@.data.len());
            if let Ok(guid) = self.get(index) {
                all.push((index, guid));
            }
            i = i + 1;
        }
        all
    }
}

/// The parts of a user string.
#[verifier::ext_equal]
pub struct UserStringModel {
    /// The raw UTF-16LE bytes, without the flag byte.
    pub bytes: Seq<u8>,
    /// The flag byte, where there is one.
    pub flag: Option<u8>,
    /// True when a trailing odd byte was dropped.
    pub odd_length: bool,
}

impl UserStringModel {
    /// The parts of an entry body: its last byte is the flag, and what stands
    /// before it is cut to whole code units.
    pub open spec fn of_body(body: Seq<u8>) -> UserStringModel {
        if body.len() == 0 {
            UserStringModel { bytes: Seq::empty(), flag: None, odd_length: false }
        } else {
            let rest = body.drop_last();
            UserStringModel {
                bytes: rest.take(rest.len() as int / 2 * 2),
                flag: Some(body.last()),
                odd_length: rest.len() % 2 != 0,
            }
        }
    }

    /// The UTF-16 code units, in order.
    pub open spec fn units(self) -> Seq<u16> {
        Seq::new((self.bytes.len() / 2) as nat, |i: int| reader::le16(self.bytes, i * 2))
    }
}

/// One `#US` entry: UTF-16LE code units plus the trailing "has special
/// characters" byte (II.24.2.4).
#[derive(Clone, Copy, PartialEq, Eq, Debug)]
pub struct UserString<'a> {
    /// The raw UTF-16LE bytes, excluding the trailing flag byte.
    pub bytes: &'a [u8],
    /// The trailing flag byte, or `None` when the entry was empty.
    pub flag: Option<u8>,
    /// True when the entry byte length was even, which the format forbids; the
    /// trailing odd byte was dropped.
    pub odd_length: bool,
}

impl<'a> View for UserString<'a> {
    type V = UserStringModel;

    open spec fn view(&self) -> UserStringModel {
        UserStringModel { bytes: self.bytes@, flag: self.flag, odd_length: self.odd_length }
    }
}

impl<'a> UserString<'a> {
    /// The number of UTF-16 code units.
    pub fn len_utf16(&self) -> (n: usize)
        ensures
            n == self@.units().len(),
    {
        self.bytes.len() / 2
    }

    /// True when the string has no code units.
    pub fn is_empty(&self) -> (empty: bool)
        ensures
            empty == (self@.units().len() == 0),
    {
        self.bytes.len() < 2
    }

    /// True when the trailing flag byte is non-zero, meaning the string
    /// contains characters outside the ASCII-compatible fast path.
    pub fn has_special_chars(&self) -> (special: bool)
        ensures
            special == (self.flag matches Some(f) && f != 0),
    {
        match self.flag {
            Some(f) => f != 0,
            None => false,
        }
    }

    /// The UTF-16 code units, in order.
    pub fn code_units(&self) -> (units: Vec<u16>)
        ensures
            units@ == self@.units(),
    {
        let mut units: Vec<u16> = Vec::new();
        let bytes = self.bytes;
        let count: usize = bytes.len() / 2;
        let mut i: usize = 0;
        while i < count
            invariant
                i <= count,
                count == bytes.len() / 2,
                bytes == self.bytes,
                units@ == self@.units().take(i as int),
            decreases count - i,
        {
            units.push(reader::u16_at(bytes, i * 2));
            assert(units@ =~= self@.units().take(i + 1));
            i = i + 1;
        }
        assert(units@ =~= self@.units());
        units
    }

    /// The string with unpaired surrogates replaced by `U+FFFD`.
    pub fn to_string_lossy(&self) -> (s: String)
        ensures
            s@ == text::utf16_text(self@.units()),
    {
        text::decode_utf16_lossy(self.code_units().as_slice())
    }
}

/// The `#US` heap: length-prefixed UTF-16LE user strings (II.24.2.4).
#[derive(Clone, Copy, Debug)]
pub struct UserStringsHeap<'a>(Span<'a>);

impl<'a> View for UserStringsHeap<'a> {
    type V = HeapModel;

    closed spec fn view(&self) -> HeapModel {
        self.0.model()
    }
}

impl<'a> UserStringsHeap<'a> {
    /// Wraps a heap byte range. `base` is the absolute offset of the heap in
    /// the input, used only for error reporting.
    pub fn new(data: &'a [u8], base: usize) -> (heap: Self)
        ensures
            heap@ == (HeapModel { data: data@, base }),
    {
        UserStringsHeap(Span { data, base })
    }

    /// An empty heap, used when the stream is absent.
    pub fn empty() -> (heap: Self)
        ensures
            heap@ == (HeapModel { data: Seq::empty(), base: 0 }),
    {
        let data: &'a [u8] = &[];
        assert(data@ =~= Seq::empty());
        UserStringsHeap(Span { data, base: 0 })
    }

    /// The raw heap bytes.
    pub fn data(&self) -> (data: &'a [u8])
        ensures
            data@ == self@.data,
    {
        self.0.data
    }

    /// The heap size in bytes.
    pub fn len(&self) -> (len: usize)
        ensures
            len == self@.data.len(),
    {
        self.0.data.len()
    }

    /// True when the heap is absent or zero-length.
    pub fn is_empty(&self) -> (empty: bool)
        ensures
            empty == (self@.data.len() == 0),
    {
        self.0.data.len() == 0
    }

    /// The absolute offset of this heap in the parsed input.
    pub fn base(&self) -> (base: usize)
        ensures
            base == self@.base,
    {
        self.0.base
    }

    /// The context string used in errors from this heap.
    pub fn context() -> (context: &'static str)
        ensures
            context == "#US",
    {
        "#US"
    }
}

impl<'a> Default for UserStringsHeap<'a> {
    fn default() -> (heap: Self)
        ensures
            heap@ == (HeapModel { data: Seq::empty(), base: 0 }),
    {
        UserStringsHeap::empty()
    }
}

impl<'a> UserStringsHeap<'a> {
    /// The entry at the offset carried by a `ldstr` token.
    pub fn get(&self, token: UserStringToken) -> (r: Result<UserString<'a>>)
        ensures
            r matches Ok(s) ==> self@.user_string(token.heap_offset()) == Ok::<
                UserStringModel,
                Error,
            >(s@),
            r matches Err(e) ==> self@.user_string(token.heap_offset()) == Err::<
                UserStringModel,
                Error,
            >(e),
    {
        self.get_at(token.offset())
    }

    /// The entry at a raw heap offset.
    pub fn get_at(&self, offset: u32) -> (r: Result<UserString<'a>>)
        ensures
            r matches Ok(s) ==> self@.user_string(offset) == Ok::<UserStringModel, Error>(s@),
            r matches Err(e) ==> self@.user_string(offset) == Err::<UserStringModel, Error>(e),
    {
        let (body, _): (&'a [u8], usize) = self.0.entry(offset, "#US")?;
        Ok(split_user_string(body))
    }

    /// The entry at `offset` together with its total encoded size.
    fn get_with_size(&self, offset: u32) -> (r: Result<(UserString<'a>, usize)>)
        ensures
            r matches Ok((s, size)) ==> self@.user_string(offset) == Ok::<UserStringModel, Error>(
                s@,
            ) && (self@.entry(offset, "#US") matches Ok((_, n)) && n == size) && offset + size
                <= self@.data.len(),
            r matches Err(e) ==> self@.entry(offset, "#US") == Err::<(Seq<u8>, usize), Error>(e),
    {
        let (body, size): (&'a [u8], usize) = self.0.entry(offset, "#US")?;
        Ok((split_user_string(body), size))
    }

    /// Iterates every entry from the start of the heap.
    pub fn iter(&self) -> (it: UserStringsIter<'a>)
        ensures
            it@ == (HeapCursor { heap: self@, pos: 0 }),
    {
        UserStringsIter { heap: *self, pos: 0 }
    }
}

fn split_user_string<'a>(body: &'a [u8]) -> (s: UserString<'a>)
    ensures
        s@ == UserStringModel::of_body(body@),
{
    if body.len() == 0 {
        assert(body@ =~= Seq::empty());
        return UserString { bytes: body, flag: None, odd_length: false };
    }
    let rest: usize = body.len() - 1;
    let whole: usize = rest / 2 * 2;
    assert(body@.drop_last().take(whole as int) =~= body@.subrange(0, whole as int));
    UserString { bytes: &body[0..whole], flag: Some(body[rest]), odd_length: rest % 2 != 0 }
}

/// Iterator over `#US` entries; see [`UserStringsHeap::iter`].
#[derive(Clone, Debug)]
pub struct UserStringsIter<'a> {
    heap: UserStringsHeap<'a>,
    pos: u32,
}

impl<'a> View for UserStringsIter<'a> {
    type V = HeapCursor;

    closed spec fn view(&self) -> HeapCursor {
        HeapCursor { heap: self.heap@, pos: self.pos as int }
    }
}

impl<'a> UserStringsIter<'a> {
    /// The next entry, with a `ldstr` token that names it.
    pub fn next(&mut self) -> (r: Option<(UserStringToken, UserString<'a>)>)
        ensures
            r is None ==> old(self)@.next_entry("#US") is None && final(self)@ == old(self)@,
            r matches Some((token, s)) ==> token.0 == 0x7000_0000u32 | (old(self)@.pos as u32)
                && old(self)@.pos <= u32::MAX && (old(self)@.next_entry("#US") matches Some(
                (body, next),
            ) && s@ == UserStringModel::of_body(body) && final(self)@ == next),
    {
        if self.pos as u64 >= self.heap.len() as u64 {
            return None;
        }
        let offset: u32 = self.pos;
        let (value, size): (UserString<'a>, usize) = match self.heap.get_with_size(offset) {
            Ok(pair) => pair,
            Err(_) => {
                return None;
            },
        };
        if size as u64 > (u32::MAX - self.pos) as u64 {
            return None;
        }
        self.pos = self.pos + size as u32;
        Some((UserStringToken(0x7000_0000 | offset), value))
    }
}

/// A user string of whole code units reads back as stored, whatever surrounds
/// its entry.
pub proof fn lemma_user_string_reads_back(
    before: Seq<u8>,
    bytes: Seq<u8>,
    flag: u8,
    after: Seq<u8>,
    base: usize,
)
    requires
        before.len() <= u32::MAX,
        bytes.len() % 2 == 0,
        bytes.len() < compressed::MAX_COMPRESSED_U32,
    ensures
        ({
            let body = bytes.push(flag);
            let prefix = compressed::encoded(body.len() as int);
            let heap = HeapModel { data: before + (prefix + body) + after, base };
            heap.user_string(before.len() as u32) == Ok::<UserStringModel, Error>(
                UserStringModel { bytes, flag: Some(flag), odd_length: false },
            )
        }),
{
    let body = bytes.push(flag);
    lemma_entry_reads_back(before, body, after, base, "#US");
    assert(body.drop_last() =~= bytes);
    assert(bytes.take(bytes.len() as int) =~= bytes);
}

/// The number whose bytes are `bytes`, most significant first.
pub open spec fn number_of(bytes: Seq<u8>) -> nat
    decreases bytes.len(),
{
    if bytes.len() == 0 {
        0
    } else {
        number_of(bytes.drop_last()) * 0x100 + bytes.last() as nat
    }
}

/// The digits of bytes are those of the number that they make up.
proof fn lemma_hex_of_number(bytes: Seq<u8>)
    ensures
        hex_bytes(bytes) == text::hex_fixed(number_of(bytes), 2 * bytes.len()),
    decreases bytes.len(),
{
    if bytes.len() > 0 {
        let front = bytes.drop_last();
        let b = bytes.last() as nat;
        let n = number_of(front);
        let x = n * 0x100 + b;
        let w = 2 * front.len();
        lemma_hex_of_number(front);
        assert(x / 16 / 16 == n && x / 16 % 16 == b / 16 && x % 16 == b % 16);
        assert(b / 16 / 16 == 0 && b / 16 % 16 == b / 16);
        assert(text::hex_fixed(x, w + 2) == text::hex_fixed(x / 16, w + 1).push(
            text::digit(x % 16),
        ));
        assert(text::hex_fixed(x / 16, w + 1) == text::hex_fixed(n, w).push(
            text::digit(x / 16 % 16),
        ));
        assert(text::hex_fixed(b, 2) == text::hex_fixed(b / 16, 1).push(text::digit(b % 16)));
        assert(text::hex_fixed(b / 16, 1) == text::hex_fixed(b / 16 / 16, 0).push(
            text::digit(b / 16 % 16),
        ));
        assert(text::hex_fixed(b / 16 / 16, 0) =~= Seq::empty());
        assert(hex_bytes(bytes) =~= text::hex_fixed(x, w + 2));
    }
}

/// The text of a GUID is its four fields in hexadecimal: a 32-bit number, two
/// 16-bit numbers, each stored little-endian, and eight bytes, of which the first
/// two stand apart.
pub proof fn lemma_guid_text(g: Guid, a: u32, b: u16, c: u16, d: Seq<u8>)
    requires
        d.len() == 8,
        g.0@ == reader::written32(a) + reader::written16(b) + reader::written16(c) + d,
    ensures
        g.rendered() == text::hex_fixed(a as nat, 8) + "-"@ + text::hex_fixed(b as nat, 4) + "-"@
            + text::hex_fixed(c as nat, 4) + "-"@ + hex_bytes(d.take(2)) + "-"@ + hex_bytes(
            d.skip(2),
        ),
{
    let all = g.0@;
    let x = seq![all[3], all[2], all[1], all[0]];
    let y = seq![all[5], all[4]];
    let z = seq![all[7], all[6]];
    assert(number_of(x) == a) by {
        reveal_with_fuel(number_of, 5);
        assert(x.drop_last() =~= seq![all[3], all[2], all[1]]);
        assert(x.drop_last().drop_last() =~= seq![all[3], all[2]]);
        assert(x.drop_last().drop_last().drop_last() =~= seq![all[3]]);
        assert(x.drop_last().drop_last().drop_last().drop_last() =~= seq![]);
    }
    assert(number_of(y) == b) by {
        reveal_with_fuel(number_of, 3);
        assert(y.drop_last() =~= seq![all[5]]);
        assert(y.drop_last().drop_last() =~= seq![]);
    }
    assert(number_of(z) == c) by {
        reveal_with_fuel(number_of, 3);
        assert(z.drop_last() =~= seq![all[7]]);
        assert(z.drop_last().drop_last() =~= seq![]);
    }
    lemma_hex_of_number(x);
    lemma_hex_of_number(y);
    lemma_hex_of_number(z);
    assert(seq![all[8], all[9]] =~= d.take(2));
    assert(all.skip(10) =~= d.skip(2));
}

/// The GUID at a 1-based index is the one behind as many others.
pub proof fn lemma_guid_reads_back(before: Seq<u8>, guid: Seq<u8>, after: Seq<u8>, base: usize, index: u32)
    requires
        index >= 1,
        before.len() == 16 * (index - 1) <= usize::MAX,
        guid.len() == 16,
    ensures
        (HeapModel { data: before + guid + after, base }).guid(index) == Ok::<Seq<u8>, Error>(guid),
{
    let data = before + guid + after;
    assert(data.subrange(before.len() as int, before.len() as int + 16) =~= guid);
}

} // verus!
