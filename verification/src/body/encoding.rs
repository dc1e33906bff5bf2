//! Method bodies written out as bytes, and the laws that tie what is written
//! to what is parsed.

use vstd::prelude::*;

use crate::body;
use crate::body::{
    BodyBytes, BodyModel, ExceptionHandler, FatFlags, HandlerKind, HeaderKind, RawSectionModel,
    SectionsState,
};
use crate::error::Error;
use crate::reader;
use crate::token::Token;

verus! {

/// The number in the low three bits of the flags of a clause (II.25.4.6).
pub open spec fn kind_number(kind: HandlerKind) -> u32 {
    match kind {
        HandlerKind::Catch(_) => 0,
        HandlerKind::Filter { .. } => 1,
        HandlerKind::Finally => 2,
        HandlerKind::Fault => 4,
    }
}

/// The last four bytes of a clause: the token of the caught type, or the offset
/// of the filter.
pub open spec fn kind_operand(kind: HandlerKind) -> u32 {
    match kind {
        HandlerKind::Catch(t) => t.0,
        HandlerKind::Filter { filter_offset } => filter_offset,
        _ => 0,
    }
}

/// The bytes of a clause: flags, offset and length of the protected block,
/// offset and length of the handler, and the class token or filter offset. The
/// small form has 2 bytes for flags and offsets and 1 for lengths.
pub open spec fn clause_bytes(h: ExceptionHandler, fat: bool) -> Seq<u8> {
    if fat {
        reader::written32(h.raw_flags) + (reader::written32(h.try_offset) + (reader::written32(
            h.try_length,
        ) + (reader::written32(h.handler_offset) + (reader::written32(h.handler_length)
            + reader::written32(kind_operand(h.kind))))))
    } else {
        reader::written16(h.raw_flags as u16) + (reader::written16(h.try_offset as u16) + (seq![
            h.try_length as u8,
        ] + (reader::written16(h.handler_offset as u16) + (seq![h.handler_length as u8]
            + reader::written32(kind_operand(h.kind))))))
    }
}

/// True when `h` can be written in the form: its flags say what it does, and in
/// the small form its numbers are small.
pub open spec fn clause_fits(h: ExceptionHandler, fat: bool) -> bool {
    &&& h.raw_flags % 8 == kind_number(h.kind)
    &&& !fat ==> h.raw_flags < 0x1_0000 && h.try_offset < 0x1_0000 && h.try_length < 0x100
        && h.handler_offset < 0x1_0000 && h.handler_length < 0x100
}

/// The clauses one behind the other.
pub open spec fn clauses_bytes(list: Seq<ExceptionHandler>, fat: bool) -> Seq<u8>
    decreases list.len(),
{
    if list.len() == 0 {
        seq![]
    } else {
        clauses_bytes(list.drop_last(), fat) + clause_bytes(list.last(), fat)
    }
}

/// A data section behind the code (II.25.4.5).
pub enum WrittenSection {
    /// Exception clauses, in the small or the fat form.
    Clauses {
        /// The clauses.
        list: Seq<ExceptionHandler>,
        /// The form.
        fat: bool,
    },
    /// Anything else, with its kind byte, which says the form too.
    Other {
        /// The kind byte, without the bit that announces another section.
        kind: u8,
        /// The contents.
        data: Seq<u8>,
    },
}

impl WrittenSection {
    /// True when the size takes three bytes.
    pub open spec fn fat(self) -> bool {
        match self {
            WrittenSection::Clauses { fat, .. } => fat,
            WrittenSection::Other { kind, .. } => kind >= 0x40,
        }
    }

    /// The kind byte: 1 for exception clauses, 0x40 for the fat form.
    pub open spec fn kind(self) -> u8 {
        match self {
            WrittenSection::Clauses { fat, .. } => if fat {
                0x41
            } else {
                0x01
            },
            WrittenSection::Other { kind, .. } => kind,
        }
    }

    /// The contents.
    pub open spec fn contents(self) -> Seq<u8> {
        match self {
            WrittenSection::Clauses { list, fat } => clauses_bytes(list, fat),
            WrittenSection::Other { data, .. } => data,
        }
    }

    /// The section: the kind byte, with 0x80 added where another section
    /// follows, the size of header and contents, and the contents.
    pub open spec fn bytes(self, more: bool) -> Seq<u8> {
        let kind = if more {
            (self.kind() + 0x80) as u8
        } else {
            self.kind()
        };
        let size = 4 + self.contents().len();
        let size_bytes = if self.fat() {
            seq![(size % 0x100) as u8, (size / 0x100 % 0x100) as u8, (size / 0x1_0000) as u8]
        } else {
            seq![size as u8, 0, 0]
        };
        (seq![kind] + size_bytes) + self.contents()
    }

    /// True when the section can be written.
    pub open spec fn fits(self) -> bool {
        &&& 4 + self.contents().len() < if self.fat() {
            0x100_0000
        } else {
            0x100int
        }
        &&& match self {
            WrittenSection::Clauses { list, fat } => forall|i: int|
                0 <= i < list.len() ==> clause_fits(#[trigger] list[i], fat),
            WrittenSection::Other { kind, .. } => kind < 0x80 && kind % 2 == 0,
        }
    }
}

/// The next multiple of four.
pub open spec fn aligned(pos: int) -> int {
    (pos + 3) / 4 * 4
}

/// True when the sections are written behind `pos`, each at a multiple of four,
/// and end at `end`.
pub open spec fn sections_written(
    bytes: Seq<u8>,
    pos: int,
    sections: Seq<WrittenSection>,
    end: int,
) -> bool
    decreases sections.len(),
{
    if sections.len() == 0 {
        pos == end
    } else {
        let start = aligned(pos);
        let more = sections.len() > 1;
        let written = sections[0].bytes(more);
        &&& sections[0].fits()
        &&& reader::lies_at(bytes, start, written)
        &&& sections_written(bytes, start + written.len(), sections.drop_first(), end)
    }
}

/// All clauses of the sections, in order.
pub open spec fn clauses_of(sections: Seq<WrittenSection>) -> Seq<ExceptionHandler>
    decreases sections.len(),
{
    if sections.len() == 0 {
        seq![]
    } else {
        (match sections[0] {
            WrittenSection::Clauses { list, .. } => list,
            WrittenSection::Other { .. } => seq![],
        }) + clauses_of(sections.drop_first())
    }
}

/// All other sections, in order, each with its kind byte as it was written.
pub open spec fn others_of(sections: Seq<WrittenSection>) -> Seq<RawSectionModel>
    decreases sections.len(),
{
    if sections.len() == 0 {
        seq![]
    } else {
        (match sections[0] {
            WrittenSection::Clauses { .. } => seq![],
            WrittenSection::Other { kind, data } => seq![
                RawSectionModel {
                    kind: if sections.len() > 1 {
                        (kind + 0x80) as u8
                    } else {
                        kind
                    },
                    data,
                },
            ],
        }) + others_of(sections.drop_first())
    }
}

/// The numbers of a fat clause read back.
proof fn lemma_fat_clause(chunk: Seq<u8>, h: ExceptionHandler)
    requires
        reader::lies_at(chunk, 0, clause_bytes(h, true)),
    ensures
        chunk.len() >= 24,
        reader::le32(chunk, 0) == h.raw_flags,
        reader::le32(chunk, 4) == h.try_offset,
        reader::le32(chunk, 8) == h.try_length,
        reader::le32(chunk, 12) == h.handler_offset,
        reader::le32(chunk, 16) == h.handler_length,
        reader::le32(chunk, 20) == kind_operand(h.kind),
{
    let t5 = reader::written32(kind_operand(h.kind));
    let t4 = reader::written32(h.handler_length) + t5;
    let t3 = reader::written32(h.handler_offset) + t4;
    let t2 = reader::written32(h.try_length) + t3;
    let t1 = reader::written32(h.try_offset) + t2;
    reader::lemma_take32(chunk, 0, h.raw_flags, t1);
    reader::lemma_take32(chunk, 4, h.try_offset, t2);
    reader::lemma_take32(chunk, 8, h.try_length, t3);
    reader::lemma_take32(chunk, 12, h.handler_offset, t4);
    reader::lemma_take32(chunk, 16, h.handler_length, t5);
    reader::lemma_written32_reads_back(chunk, 20, kind_operand(h.kind));
}

/// The numbers of a small clause read back.
proof fn lemma_small_clause(chunk: Seq<u8>, h: ExceptionHandler)
    requires
        clause_fits(h, false),
        reader::lies_at(chunk, 0, clause_bytes(h, false)),
    ensures
        chunk.len() >= 12,
        reader::le16(chunk, 0) == h.raw_flags,
        reader::le16(chunk, 2) == h.try_offset,
        chunk[4] == h.try_length,
        reader::le16(chunk, 5) == h.handler_offset,
        chunk[7] == h.handler_length,
        reader::le32(chunk, 8) == kind_operand(h.kind),
{
    let t5 = reader::written32(kind_operand(h.kind));
    let t4 = seq![h.handler_length as u8] + t5;
    let t3 = reader::written16(h.handler_offset as u16) + t4;
    let t2 = seq![h.try_length as u8] + t3;
    let t1 = reader::written16(h.try_offset as u16) + t2;
    reader::lemma_take16(chunk, 0, h.raw_flags as u16, t1);
    reader::lemma_take16(chunk, 2, h.try_offset as u16, t2);
    reader::lemma_lies_in_parts(chunk, 4, seq![h.try_length as u8], t3);
    reader::lemma_byte_reads_back(chunk, 4, h.try_length as u8);
    reader::lemma_take16(chunk, 5, h.handler_offset as u16, t4);
    reader::lemma_lies_in_parts(chunk, 7, seq![h.handler_length as u8], t5);
    reader::lemma_byte_reads_back(chunk, 7, h.handler_length as u8);
    reader::lemma_written32_reads_back(chunk, 8, kind_operand(h.kind));
}

/// A clause that is written in either form reads back.
#[verifier::rlimit(30)]
pub proof fn lemma_written_clause(bytes: Seq<u8>, at: int, h: ExceptionHandler, fat: bool)
    requires
        clause_fits(h, fat),
        reader::lies_at(bytes, at, clause_bytes(h, fat)),
    ensures
        clause_bytes(h, fat).len() == body::clause_size(fat),
        body::clause_at(bytes, at, fat) == Ok::<ExceptionHandler, Error>(h),
{
    let chunk = body::clause_chunk(bytes, at, fat);
    assert(clause_bytes(h, fat).len() == body::clause_size(fat));
    assert(chunk == clause_bytes(h, fat)) by {
        reveal(reader::lies_at);
    }
    assert(reader::lies_at(chunk, 0, clause_bytes(h, fat))) by {
        reveal(reader::lies_at);
        assert(chunk.subrange(0, chunk.len() as int) =~= chunk);
    }
    if fat {
        lemma_fat_clause(chunk, h);
    } else {
        lemma_small_clause(chunk, h);
    }
}

/// Clauses that are written one behind the other read back in order.
#[verifier::rlimit(30)]
proof fn lemma_written_clauses(
    bytes: Seq<u8>,
    at: int,
    list: Seq<ExceptionHandler>,
    fat: bool,
)
    requires
        forall|i: int| 0 <= i < list.len() ==> clause_fits(#[trigger] list[i], fat),
        reader::lies_at(bytes, at, clauses_bytes(list, fat)),
    ensures
        clauses_bytes(list, fat).len() == list.len() * body::clause_size(fat),
        forall|i: int|
            0 <= i < list.len() ==> #[trigger] body::clause_at(
                bytes,
                at + i * body::clause_size(fat),
                fat,
            ) == Ok::<ExceptionHandler, Error>(list[i]),
    decreases list.len(),
{
    reveal(reader::lies_at);
    if list.len() > 0 {
        let front = list.drop_last();
        assert forall|i: int| 0 <= i < front.len() implies clause_fits(
            #[trigger] front[i],
            fat,
        ) by {
            assert(front[i] == list[i]);
        }
        reader::lemma_lies_in_parts(
            bytes,
            at,
            clauses_bytes(front, fat),
            clause_bytes(list.last(), fat),
        );
        lemma_written_clauses(bytes, at, front, fat);
        lemma_written_clause(
            bytes,
            at + clauses_bytes(front, fat).len(),
            list.last(),
            fat,
        );
        assert(list.len() * body::clause_size(fat) == front.len() * body::clause_size(fat)
            + body::clause_size(fat)) by (nonlinear_arith)
            requires
                list.len() == front.len() + 1,
        ;
        assert forall|i: int| 0 <= i < list.len() implies #[trigger] body::clause_at(
            bytes,
            at + i * body::clause_size(fat),
            fat,
        ) == Ok::<ExceptionHandler, Error>(list[i]) by {
            if i < front.len() {
                assert(front[i] == list[i]);
            }
        }
    }
}

/// The header of a written section reads back.
#[verifier::rlimit(30)]
proof fn lemma_written_section_header(
    b: BodyBytes,
    start: int,
    section: WrittenSection,
    more: bool,
)
    requires
        section.fits(),
        reader::lies_at(b.bytes, start, section.bytes(more)),
    ensures
        start + 4 + section.contents().len() <= b.bytes.len(),
        reader::lies_at(b.bytes, start + 4, section.contents()),
        b.is_fat(start) == section.fat(),
        b.has_more(start) == more,
        b.is_eh(start) == (section is Clauses),
        b.section_kind(start) == section.kind() + if more {
            0x80int
        } else {
            0
        },
        b.declared_size(start) == 4 + section.contents().len(),
{
    reveal(reader::lies_at);
    let whole = section.bytes(more);
    let header = whole.take(4);
    assert(whole =~= header + section.contents());
    reader::lemma_lies_in_parts(b.bytes, start, header, section.contents());
    let part = b.bytes.subrange(start, start + 4);
    assert(part[0] == header[0] && part[1] == header[1] && part[2] == header[2] && part[3]
        == header[3]);
    assert(b.bytes[start] == part[0] && b.bytes[start + 1] == part[1] && b.bytes[start + 2]
        == part[2] && b.bytes[start + 3] == part[3]);
}

/// A written section adds what it holds, with nothing noted, and says whether
/// another follows.
#[verifier::rlimit(30)]
pub proof fn lemma_written_section(
    b: BodyBytes,
    s: SectionsState,
    section: WrittenSection,
    more: bool,
)
    requires
        s.failed is None,
        !s.done,
        0 <= s.pos,
        section.fits(),
        reader::lies_at(b.bytes, aligned(s.pos), section.bytes(more)),
        more ==> aligned(s.pos) + section.bytes(more).len() < b.bytes.len(),
    ensures
        b.section_step(s) == (SectionsState {
            pos: aligned(s.pos) + section.bytes(more).len(),
            handlers: s.handlers + clauses_of(seq![section]),
            unknown: s.unknown + match section {
                WrittenSection::Clauses { .. } => seq![],
                WrittenSection::Other { kind, data } => seq![
                    RawSectionModel {
                        kind: (kind + if more {
                            0x80int
                        } else {
                            0
                        }) as u8,
                        data,
                    },
                ],
            },
            done: !more,
            ..s
        }),
{
    reveal(reader::lies_at);
    let start = b.section_start(s.pos);
    assert(start == aligned(s.pos));
    lemma_written_section_header(b, start, section, more);
    assert(section.bytes(more).len() == 4 + section.contents().len());
    reveal_with_fuel(clauses_of, 2);
    match section {
        WrittenSection::Clauses { list, fat } => {
            lemma_written_clauses(b.bytes, start + 4, list, fat);
            assert(clauses_of(seq![section]) =~= list);
            assert(b.clauses_known(start + 4, fat, list.len()));
            body::lemma_conforming_section(b, s, start, list.len());
            assert(body::clause_list(b.bytes, start + 4, fat, list.len()) =~= list);
            let next = b.section_step(s);
            assert(next.handlers =~= s.handlers + clauses_of(seq![section]));
            assert(next.unknown =~= s.unknown + Seq::<RawSectionModel>::empty());
        },
        WrittenSection::Other { kind, data } => {
            assert(clauses_of(seq![section]) =~= seq![]);
            let next = b.section_step(s);
            assert(next.handlers =~= s.handlers + clauses_of(seq![section]));
            assert(b.bytes.subrange(start + 4, start + 4 + data.len()) == data);
        },
    }
}

/// Sections that are written one behind the other read back in order.
#[verifier::rlimit(30)]
pub proof fn lemma_written_sections(
    b: BodyBytes,
    s: SectionsState,
    sections: Seq<WrittenSection>,
    end: int,
)
    requires
        s.failed is None,
        !s.done,
        0 <= s.pos,
        sections.len() > 0,
        sections_written(b.bytes, s.pos, sections, end),
    ensures
        b.sections(s) == (SectionsState {
            pos: end,
            handlers: s.handlers + clauses_of(sections),
            unknown: s.unknown + others_of(sections),
            done: true,
            ..s
        }),
    decreases sections.len(),
{
    reveal(reader::lies_at);
    let first = sections[0];
    let rest = sections.drop_first();
    let more = sections.len() > 1;
    let start = aligned(s.pos);
    let pos = start + first.bytes(more).len();
    if more {
        assert(rest.len() > 0);
        assert(sections_written(b.bytes, pos, rest, end));
        assert(reader::lies_at(b.bytes, aligned(pos), rest[0].bytes(rest.len() > 1)));
        assert(rest[0].bytes(rest.len() > 1).len() >= 4);
    }
    lemma_written_section(b, s, first, more);
    let next = b.section_step(s);
    reveal_with_fuel(clauses_of, 2);
    reveal_with_fuel(others_of, 2);
    reveal_with_fuel(sections_written, 2);
    if more {
        lemma_written_sections(b, next, rest, end);
        assert(clauses_of(seq![first]) + clauses_of(rest) =~= clauses_of(sections));
        assert(s.handlers + clauses_of(seq![first]) + clauses_of(rest) =~= s.handlers
            + clauses_of(sections));
        assert(b.sections(s).handlers =~= s.handlers + clauses_of(sections));
        assert(b.sections(s).unknown =~= s.unknown + others_of(sections));
    } else {
        assert(rest =~= Seq::empty());
        assert(clauses_of(sections) =~= clauses_of(seq![first]));
        assert(b.sections(s).unknown =~= s.unknown + others_of(sections));
    }
}

/// A fat header of 12 bytes (II.25.4.3): the flags and, in the top four bits, a
/// size of three dwords, then the stack depth, the size of the code and the
/// token of the locals, 0 for none.
pub open spec fn fat_header(
    flags: u16,
    max_stack: u16,
    code_size: u32,
    locals: Option<Token>,
) -> Seq<u8> {
    reader::written16((flags + 0x3000) as u16) + (reader::written16(max_stack) + (
    reader::written32(code_size) + reader::written32(
        match locals {
            Some(t) => t.0,
            None => 0,
        },
    )))
}

/// The fields of a written fat header read back.
#[verifier::rlimit(30)]
proof fn lemma_written_fat_fields(
    b: BodyBytes,
    flags: u16,
    max_stack: u16,
    code_size: u32,
    locals: Option<Token>,
)
    requires
        flags < 0x1000,
        locals matches Some(t) ==> t.0 != 0,
        reader::lies_at(b.bytes, 0, fat_header(flags, max_stack, code_size, locals)),
    ensures
        b.bytes.len() >= 12,
        b.bytes[0] % 4 == flags % 4,
        b.header_dwords() == 3,
        b.header_size() == 12,
        b.flags() == FatFlags(flags),
        reader::le16(b.bytes, 2) == max_stack,
        b.code_size() == code_size,
        b.locals() == locals,
{
    reveal(reader::lies_at);
    let first = (flags + 0x3000) as u16;
    let token = match locals {
        Some(t) => t.0,
        None => 0,
    };
    let a1 = reader::written16(first);
    let a2 = reader::written16(max_stack);
    let a3 = reader::written32(code_size);
    let a4 = reader::written32(token);
    reader::lemma_lies_in_parts(b.bytes, 0, a1, a2 + (a3 + a4));
    reader::lemma_lies_in_parts(b.bytes, 2, a2, a3 + a4);
    reader::lemma_lies_in_parts(b.bytes, 4, a3, a4);
    reader::lemma_written16_reads_back(b.bytes, 0, first);
    reader::lemma_written16_reads_back(b.bytes, 2, max_stack);
    reader::lemma_written32_reads_back(b.bytes, 4, code_size);
    reader::lemma_written32_reads_back(b.bytes, 8, token);
}

/// A body that is written out reads back: a fat header, the code, and, where
/// the flags say so, data sections. Every field is the one that was written,
/// whatever follows the body; nothing is noted. A locals token of another table
/// than the standalone signatures (0x11) is rejected in strict mode.
#[verifier::rlimit(30)]
pub proof fn lemma_written_fat_body(
    b: BodyBytes,
    flags: u16,
    max_stack: u16,
    locals: Option<Token>,
    code: Seq<u8>,
    sections: Seq<WrittenSection>,
    end: int,
)
    requires
        b.bytes.len() <= usize::MAX,
        flags < 0x1000,
        flags % 4 == 3,
        flags / 8 % 2 == 1 <==> sections.len() > 0,
        code.len() <= u32::MAX,
        locals matches Some(t) ==> t.0 != 0,
        b.strictness is Strict ==> (locals matches Some(t) ==> t.0 / 0x100_0000 == 0x11),
        reader::lies_at(b.bytes, 0, fat_header(flags, max_stack, code.len() as u32, locals) + code),
        sections_written(b.bytes, (12 + code.len()) as int, sections, end),
    ensures
        b.parsed() == Ok::<BodyModel, Error>(
            BodyModel {
                kind: HeaderKind::Fat,
                flags: FatFlags(flags),
                max_stack,
                code,
                code_rva: ((b.code_rva + 12) % 0x1_0000_0000) as u32,
                local_var_sig: locals,
                exception_handlers: clauses_of(sections),
                unknown_sections: others_of(sections),
                header_dwords: 3,
                total_size: end as usize,
                diagnostics: seq![],
            },
        ),
{
    reveal(reader::lies_at);
    let header = fat_header(flags, max_stack, code.len() as u32, locals);
    reader::lemma_lies_in_parts(b.bytes, 0, header, code);
    lemma_written_fat_fields(b, flags, max_stack, code.len() as u32, locals);
    assert(b.bytes.subrange(12, 12 + code.len() as int) == code);
    assert(b.flags().has(8) == (sections.len() > 0));
    assert(b.fat_error() is None);
    if sections.len() > 0 {
        let s = SectionsState { done: false, ..b.no_sections() };
        lemma_written_sections(b, s, sections, end);
        assert(b.all_sections().handlers =~= clauses_of(sections));
        assert(b.all_sections().unknown =~= others_of(sections));
    }
    assert(b.fat_body().diagnostics =~= seq![]);
}

/// A tiny body is one byte, the size of the code in its top six bits, and the
/// code (II.25.4.2). It reads back with a stack depth of eight, no locals and
/// no sections, whatever follows it.
#[verifier::rlimit(30)]
pub proof fn lemma_written_tiny_body(b: BodyBytes, code: Seq<u8>)
    requires
        code.len() < 64,
        reader::lies_at(b.bytes, 0, seq![(code.len() * 4 + 2) as u8] + code),
    ensures
        b.parsed() == Ok::<BodyModel, Error>(
            BodyModel {
                kind: HeaderKind::Tiny,
                flags: FatFlags(0),
                max_stack: 8,
                code,
                code_rva: ((b.code_rva + 1) % 0x1_0000_0000) as u32,
                local_var_sig: None,
                exception_handlers: seq![],
                unknown_sections: seq![],
                header_dwords: 0,
                total_size: (1 + code.len()) as usize,
                diagnostics: seq![],
            },
        ),
{
    reveal(reader::lies_at);
    let first = (code.len() * 4 + 2) as u8;
    reader::lemma_lies_in_parts(b.bytes, 0, seq![first], code);
    reader::lemma_byte_reads_back(b.bytes, 0, first);
}

/// True when `x` lies in the half-open range.
pub open spec fn in_range(x: int, start: u32, end: u32) -> bool {
    start <= x < end
}

/// Two ranges straddle each other where some offset lies in both and each has
/// one that the other has not.
pub proof fn lemma_straddling_ranges(a_start: u32, a_end: u32, b_start: u32, b_end: u32)
    requires
        a_start <= a_end,
        b_start <= b_end,
    ensures
        body::straddles(a_start, a_end, b_start, b_end) <==> {
            &&& exists|x: int| #[trigger]
                in_range(x, a_start, a_end) && in_range(x, b_start, b_end)
            &&& exists|x: int| #[trigger]
                in_range(x, a_start, a_end) && !in_range(x, b_start, b_end)
            &&& exists|x: int| #[trigger]
                in_range(x, b_start, b_end) && !in_range(x, a_start, a_end)
        },
{
    if body::straddles(a_start, a_end, b_start, b_end) {
        if a_start < b_start {
            assert(in_range(b_start as int, a_start, a_end));
            assert(in_range(b_start as int, b_start, b_end));
            assert(in_range(a_start as int, a_start, a_end));
            assert(in_range(b_end - 1, b_start, b_end));
        } else {
            assert(in_range(a_start as int, a_start, a_end));
            assert(in_range(a_start as int, b_start, b_end));
            assert(in_range(a_end - 1, a_start, a_end));
            assert(in_range(b_start as int, b_start, b_end));
        }
    }
}

} // verus!
