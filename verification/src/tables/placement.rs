//! Where the rows of the tables lie: the laws on the header of the table stream
//! (II.24.2.6).

use vstd::arithmetic::power2;
use vstd::prelude::*;

use crate::error::Error;
use crate::reader;
use crate::tables::{PlaceState, TableStream, TablesModel};
use crate::token;
use crate::token::TableId;

verus! {

/// True when the header says that the table numbered `n` is present.
pub open spec fn present(s: TableStream, n: int) -> bool {
    reader::le64(s.data, 8) as int / power2::pow2(n as nat) as int % 2 == 1
}

/// How many of the tables numbered below `n` are present.
pub open spec fn present_below(s: TableStream, n: nat) -> int
    decreases n,
{
    if n == 0 {
        0
    } else {
        present_below(s, (n - 1) as nat) + if present(s, n - 1) {
            1int
        } else {
            0
        }
    }
}

/// The row counts after the first `n` slots.
proof fn lemma_counts_so_far(s: TableStream, n: nat)
    requires
        n <= 64,
        s.counted(n).failed is None,
    ensures
        s.counted(n).pos == 24 + 4 * present_below(s, n),
        s.counted(n).counts.len() == 64,
        forall|table: TableId|
            (#[trigger] table.number()) < n ==> s.counted(n).counts[table.number() as int]
                == if present(s, table.number() as int) {
                reader::le32(s.data, 24 + 4 * present_below(s, table.number() as nat))
            } else {
                0
            },
        forall|slot: int| n <= slot < 64 ==> s.counted(n).counts[slot] == 0,
    decreases n,
{
    if n > 0 {
        let before = s.counted((n - 1) as nat);
        assert(before.failed is None);
        lemma_counts_so_far(s, (n - 1) as nat);
        let slot = (n - 1) as u8;
        assert forall|table: TableId| (#[trigger] table.number()) < n implies s.counted(
            n,
        ).counts[table.number() as int] == if present(s, table.number() as int) {
            reader::le32(s.data, 24 + 4 * present_below(s, table.number() as nat))
        } else {
            0
        } by {
            token::lemma_table_numbers(table, slot);
        }
    }
}

/// A table that is present has the number of rows that the header lists for it,
/// in the order of the table numbers; any other has none.
pub proof fn lemma_declared_counts(s: TableStream, table: TableId)
    ensures
        s.all_counted().failed is None ==> s.widths().count(table) == if present(
            s,
            table.number() as int,
        ) {
            reader::le32(s.data, 24 + 4 * present_below(s, table.number() as nat))
        } else {
            0
        },
{
    token::lemma_table_numbers(table, 0);
    if s.all_counted().failed is None {
        lemma_counts_so_far(s, 64);
    }
}

/// Where the first table starts: behind the 24 bytes of the header, the row
/// counts, and the four bytes that bit 6 of the heap sizes announces.
pub open spec fn tables_start(s: TableStream) -> int {
    24 + 4 * present_below(s, 64) + if s.data[6] / 0x40 % 2 == 1 {
        4int
    } else {
        0
    }
}

/// The bytes of the first `n` tables, in the order of their numbers.
pub open spec fn tables_size(m: TablesModel, n: nat) -> int
    decreases n,
{
    if n == 0 {
        0
    } else {
        let l = m.layout(TableId::ALL@[n - 1]);
        tables_size(m, (n - 1) as nat) + l.row_count * l.row_size
    }
}

/// Placing a table leaves every other one where it is.
proof fn lemma_step_keeps(s: TableStream, p: PlaceState, table: TableId, slot: int)
    requires
        p.layouts.len() == 64,
        table.number() < 64,
        0 <= slot < 64,
        slot != table.number(),
    ensures
        s.place_step(p, table).layouts.len() == 64,
        s.place_step(p, table).layouts[slot] == p.layouts[slot],
{
}

/// There is a place for each table.
proof fn lemma_slots(s: TableStream, n: nat)
    requires
        n <= 53,
    ensures
        s.placed(n).layouts.len() == 64,
    decreases n,
{
    if n > 0 {
        lemma_slots(s, (n - 1) as nat);
    }
}

/// A table that was placed stays where it is.
proof fn lemma_placed_stays(s: TableStream, k: nat, n: nat)
    requires
        k < n <= 53,
    ensures
        s.placed(n).layouts[TableId::ALL@[k as int].number() as int] == s.placed(
            k + 1,
        ).layouts[TableId::ALL@[k as int].number() as int] || s.placed(n).failed is Some,
    decreases n,
{
    if n > k + 1 {
        lemma_placed_stays(s, k, (n - 1) as nat);
        token::lemma_all_tables(TableId::Module);
        let a = TableId::ALL@[k as int];
        let b = TableId::ALL@[n - 1];
        assert(a.number() < b.number());
        token::lemma_table_numbers(a, 0);
        token::lemma_table_numbers(b, 0);
        let before = s.placed((n - 1) as nat);
        lemma_slots(s, (n - 1) as nat);
        lemma_step_keeps(s, before, b, a.number() as int);
        assert(s.placed(n) == s.place_step(before, b));
        assert(before.failed is Some ==> s.place_step(before, b) == before);
    }
}

/// The tables before the one number `n` take the bytes up to it.
proof fn lemma_cursor(s: TableStream, m: TablesModel, n: nat)
    requires
        s.data.len() <= usize::MAX,
        s.missing_field() is None,
        s.all_placed().failed is None,
        m.layouts == s.all_placed().layouts,
        n <= 53,
    ensures
        s.placed(n).failed is None,
        s.placed(n).cursor == tables_start(s) + tables_size(m, n),
    decreases n,
{
    if s.placed(n).failed is Some {
        crate::tables::lemma_place_failure_stays(s, n, 53);
    }
    if n == 0 {
        lemma_counts_so_far(s, 64);
    } else {
        let k = (n - 1) as nat;
        lemma_cursor(s, m, k);
        let table = TableId::ALL@[k as int];
        lemma_placed_stays(s, k, 53);
        token::lemma_table_numbers(table, 0);
        crate::tables::lemma_placed_shape(s, k);
        let w = s.widths();
        let columns = crate::tables::rows::columns(table);
        crate::tables::rows::lemma_column_counts(table);
        crate::tables::lemma_sum_bounds(w, columns, columns.len(), columns.len());
        assert(s.placed(n) == s.place_step(s.placed(k), table));
        assert(m.layout(table) == s.placed(n).layouts[table.number() as int]);
        assert(m.layout(table).row_size == w.sum(columns, columns.len()));
    }
}

/// The tables lie one behind the other, in the order of their numbers and
/// without a gap, from the end of the row counts on: each starts where the rows
/// of those before it end.
pub proof fn lemma_tables_adjoin(s: TableStream, m: TablesModel, n: int)
    requires
        s.data.len() <= usize::MAX,
        s.parsed() == Ok::<TablesModel, Error>(m),
        0 <= n < 53,
    ensures
        m.layout(TableId::ALL@[n]).data_offset == tables_start(s) + tables_size(m, n as nat),
{
    if s.all_placed().failed is Some {
        crate::tables::lemma_place_failure(s, 53);
    }
    let table = TableId::ALL@[n];
    lemma_cursor(s, m, n as nat);
    lemma_cursor(s, m, (n + 1) as nat);
    lemma_placed_stays(s, n as nat, 53);
    token::lemma_table_numbers(table, 0);
    crate::tables::lemma_placed_shape(s, n as nat);
    assert(s.placed((n + 1) as nat) == s.place_step(s.placed(n as nat), table));
    assert(m.layout(table) == s.placed((n + 1) as nat).layouts[table.number() as int]);
}

/// The fields of the header of a table stream read back.
pub proof fn lemma_written_stream_header(
    s: TableStream,
    reserved: u32,
    major: u8,
    minor: u8,
    heap_sizes: u8,
    ones: u8,
    valid: u64,
    sorted: u64,
)
    requires
        reader::lies_at(
            s.data,
            0,
            reader::written32(reserved) + (seq![major, minor, heap_sizes, ones] + (
            reader::written64(valid) + reader::written64(sorted))),
        ),
    ensures
        s.missing_field() is None,
        s.parsed() matches Ok(m) ==> m.major_version == major && m.minor_version == minor
            && m.heap_sizes == heap_sizes && m.valid == valid && m.declared_sorted == sorted,
{
    let bytes = seq![major, minor, heap_sizes, ones];
    let t1 = reader::written64(valid) + reader::written64(sorted);
    reader::lemma_take32(s.data, 0, reserved, bytes + t1);
    reader::lemma_lies_in_parts(s.data, 4, bytes, t1);
    reader::lemma_take64(s.data, 8, valid, reader::written64(sorted));
    reader::lemma_written64_reads_back(s.data, 16, sorted);
    assert(s.data[4] == major && s.data[5] == minor && s.data[6] == heap_sizes) by {
        reveal(reader::lies_at);
        let part = s.data.subrange(4, 8);
        assert(part[0] == bytes[0] && part[1] == bytes[1] && part[2] == bytes[2]);
    }
}

} // verus!
