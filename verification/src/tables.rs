//! The metadata table stream: `#~` (compressed) and `#-` (uncompressed).
//!
//! Row sizes and column widths are computed from the stream header (II.24.2.6):
//! heap indices are 2 or 4 bytes according to the `HeapSizes` bits, a simple
//! index is 2 bytes when its target table has fewer than 2^16 rows, and a coded
//! index is 2 bytes when the largest table it can tag has fewer than
//! 2^(16 - tag bits) rows.
//!
//! Nothing in this module copies row data. [`Tables`] stores one [`TableLayout`]
//! per table id and decodes a row on demand from the borrowed stream bytes.
use core::marker::PhantomData;

use vstd::arithmetic::power2;
use vstd::bits;
use vstd::prelude::*;

use crate::error;
use crate::error::{Diagnostic, DiagnosticCode, Error, ErrorKind, Result, Strictness};
use crate::reader;
use crate::reader::{read_uint_at, Reader};
use crate::token;
use crate::token::{TableId, Token};

pub mod coded;
pub mod encoding;
pub mod lookup;
pub mod placement;
pub mod relations;
pub mod rows;

pub use coded::CodedIndex;
pub use lookup::sort_key_column;
pub use rows::{
    AssemblyOsRow, AssemblyProcessorRow, AssemblyRefOsRow, AssemblyRefProcessorRow,
    AssemblyRefRow, AssemblyRow, ClassLayoutRow, ConstantRow, CustomAttributeRow,
    CustomDebugInformationRow, DeclSecurityRow, DocumentRow, EncLogRow, EncMapRow, EventMapRow,
    EventPtrRow, EventRow, ExportedTypeRow, FieldLayoutRow, FieldMarshalRow, FieldPtrRow,
    FieldRow, FieldRvaRow, FileRow, GenericParamConstraintRow, GenericParamRow, ImplMapRow,
    ImportScopeRow, InterfaceImplRow, LocalConstantRow, LocalScopeRow, LocalVariableRow,
    ManifestResourceRow, MemberRefRow, MethodDebugInformationRow, MethodDefRow, MethodImplRow,
    MethodPtrRow, MethodSemanticsRow, MethodSpecRow, ModuleRefRow, ModuleRow, NestedClassRow,
    ParamPtrRow, ParamRow, PropertyMapRow, PropertyPtrRow, PropertyRow, StandAloneSigRow,
    StateMachineMethodRow, TypeDefRow, TypeRefRow, TypeSpecRow, columns_of,
};

verus! {

/// The context of errors about the stream as a whole.
pub const CONTEXT: &'static str = "table stream";

/// The largest number of columns any table has (`Assembly` and `AssemblyRef`).
pub const MAX_COLUMNS: usize = 9;

/// The number of table id slots; the `Valid` bitvector has one bit for each.
pub const TABLE_SLOTS: usize = 64;

/// What one column of a table holds.
#[derive(Clone, Copy, PartialEq, Eq, Hash, Debug, Structural)]
pub enum ColumnKind {
    /// A 2-byte constant.
    U16,
    /// A 4-byte constant.
    U32,
    /// An index into `#Strings`.
    String,
    /// An index into `#Blob`.
    Blob,
    /// An index into `#GUID`.
    Guid,
    /// A simple index into another table.
    Rid(TableId),
    /// A coded index.
    Coded(CodedIndex),
}

/// What decides the column widths of a stream: the declared row counts, by
/// table id, and which heaps take wide indices.
#[verifier::ext_equal]
pub struct Widths {
    /// The declared row counts.
    pub counts: Seq<u32>,
    /// `#Strings` indices are 4 bytes wide.
    pub strings: bool,
    /// `#GUID` indices are 4 bytes wide.
    pub guids: bool,
    /// `#Blob` indices are 4 bytes wide.
    pub blobs: bool,
}

/// The width of an index that is `wide` or not.
pub open spec fn index_width(wide: bool) -> u8 {
    if wide {
        4
    } else {
        2
    }
}

impl Widths {
    /// The declared row count of a table.
    pub open spec fn count(self, table: TableId) -> u32 {
        self.counts[table.number() as int]
    }

    /// True when `table` and the `*Ptr` table that redirects into it have fewer
    /// than 2^16 rows each. A list column addresses the `*Ptr` table when one is
    /// present, and both have to be reachable.
    pub open spec fn small(self, table: TableId) -> bool {
        &&& self.count(table) < 0x1_0000
        &&& table.redirected_by() matches Some(ptr) ==> self.count(ptr) < 0x1_0000
    }

    /// True when every table that `kind` can tag has fewer rows than its limit.
    pub open spec fn small_coded(self, kind: CodedIndex) -> bool {
        forall|tag: int|
            0 <= tag < kind.table_list().len() ==> ((#[trigger] kind.table_list()[tag]) matches Some(
                table,
            ) ==> self.count(table) < kind.row_limit())
    }

    /// The byte width of a column.
    pub open spec fn of(self, kind: ColumnKind) -> u8 {
        match kind {
            ColumnKind::U16 => 2,
            ColumnKind::U32 => 4,
            ColumnKind::String => index_width(self.strings),
            ColumnKind::Guid => index_width(self.guids),
            ColumnKind::Blob => index_width(self.blobs),
            ColumnKind::Rid(table) => index_width(!self.small(table)),
            ColumnKind::Coded(coded) => index_width(!self.small_coded(coded)),
        }
    }

    /// The total width of the first `n` of `columns`.
    pub open spec fn sum(self, columns: Seq<ColumnKind>, n: nat) -> int
        decreases n,
    {
        if n == 0 {
            0
        } else {
            self.sum(columns, (n - 1) as nat) + self.of(columns[n - 1])
        }
    }
}

/// The sums of column widths grow by 2 or 4 with each column.
proof fn lemma_sum_bounds(w: Widths, columns: Seq<ColumnKind>, n: nat, m: nat)
    requires
        n <= m,
    ensures
        0 <= w.sum(columns, n) <= w.sum(columns, m) <= 4 * m,
        m > n ==> w.sum(columns, n) + w.of(columns[n as int]) <= w.sum(columns, m),
        2 * m <= w.sum(columns, m),
    decreases m,
{
    if n < m {
        lemma_sum_bounds(w, columns, n, (m - 1) as nat);
    } else if m > 0 {
        lemma_sum_bounds(w, columns, (m - 1) as nat, (m - 1) as nat);
    }
}

/// The geometry of one table.
#[verifier::ext_equal]
pub struct LayoutModel {
    /// The number of rows.
    pub row_count: u32,
    /// The size of one row in bytes.
    pub row_size: u16,
    /// The number of columns.
    pub column_count: u8,
    /// Byte offset of each column within a row.
    pub offsets: Seq<u8>,
    /// Byte width of each column.
    pub widths: Seq<u8>,
    /// Offset of the first row within the table stream.
    pub data_offset: usize,
}

impl LayoutModel {
    /// The geometry of a table without columns and rows.
    pub open spec fn none() -> LayoutModel {
        LayoutModel {
            row_count: 0,
            row_size: 0,
            column_count: 0,
            offsets: Seq::new(MAX_COLUMNS as nat, |i: int| 0u8),
            widths: Seq::new(MAX_COLUMNS as nat, |i: int| 0u8),
            data_offset: 0,
        }
    }

    /// The geometry of `row_count` rows of `columns` that start at `at`.
    pub open spec fn of(w: Widths, columns: Seq<ColumnKind>, row_count: u32, at: int) -> LayoutModel {
        LayoutModel {
            row_count,
            row_size: w.sum(columns, columns.len()) as u16,
            column_count: columns.len() as u8,
            offsets: Seq::new(
                MAX_COLUMNS as nat,
                |i: int|
                    if i < columns.len() {
                        w.sum(columns, i as nat) as u8
                    } else {
                        0
                    },
            ),
            widths: Seq::new(
                MAX_COLUMNS as nat,
                |i: int|
                    if i < columns.len() {
                        w.of(columns[i])
                    } else {
                        0
                    },
            ),
            data_offset: at as usize,
        }
    }

    /// The total size of the table in bytes.
    pub open spec fn bytes(self) -> int {
        self.row_count * self.row_size
    }

    /// Every column lies within a row of `size` bytes.
    pub open spec fn columns_fit(self, size: int) -> bool {
        &&& self.column_count <= MAX_COLUMNS
        &&& self.offsets.len() == MAX_COLUMNS
        &&& self.widths.len() == MAX_COLUMNS
        &&& forall|i: int|
            0 <= i < self.column_count ==> ((#[trigger] self.widths[i]) == 2 || self.widths[i] == 4)
                && self.offsets[i] + self.widths[i] <= size
    }

    /// Every column lies within a row, and every row within `len` bytes.
    pub open spec fn wf(self, len: int) -> bool {
        &&& self.columns_fit(self.row_size as int)
        &&& self.data_offset + self.bytes() <= len
    }

    /// The value of column `i` of the row whose bytes start at `at` of `data`.
    pub open spec fn cell(self, data: Seq<u8>, at: int, i: int) -> u32 {
        if self.widths[i] == 2 {
            reader::le16(data, at + self.offsets[i]) as u32
        } else {
            reader::le32(data, at + self.offsets[i])
        }
    }

    /// Where row `rid` starts.
    pub open spec fn row_start(self, rid: u32) -> int {
        self.data_offset + (rid - 1) * self.row_size
    }
}

/// A row of a well-formed table lies within it.
proof fn lemma_row_within(l: LayoutModel, rid: u32)
    requires
        1 <= rid <= l.row_count,
    ensures
        l.data_offset <= l.row_start(rid),
        l.row_start(rid) + l.row_size <= l.data_offset + l.bytes(),
{
    assert((rid - 1) * l.row_size + l.row_size <= l.row_count * l.row_size) by (nonlinear_arith)
        requires
            1 <= rid <= l.row_count,
    ;
    assert((rid - 1) * l.row_size >= 0) by (nonlinear_arith)
        requires
            1 <= rid,
    ;
}

/// The computed geometry of one table.
#[derive(Clone, Copy, PartialEq, Eq, Debug)]
pub struct TableLayout {
    /// The number of rows, after any clamping applied while parsing.
    pub row_count: u32,
    /// The size of one row in bytes.
    pub row_size: u16,
    /// The number of columns.
    pub column_count: u8,
    /// Byte offset of each column within a row.
    pub column_offsets: [u8; 9],
    /// Byte width of each column.
    pub column_widths: [u8; 9],
    /// Offset of the first row within the table stream.
    pub data_offset: usize,
}

impl View for TableLayout {
    type V = LayoutModel;

    open spec fn view(&self) -> LayoutModel {
        LayoutModel {
            row_count: self.row_count,
            row_size: self.row_size,
            column_count: self.column_count,
            offsets: self.column_offsets@,
            widths: self.column_widths@,
            data_offset: self.data_offset,
        }
    }
}

impl Default for TableLayout {
    fn default() -> (layout: Self)
        ensures
            layout@ == LayoutModel::none(),
    {
        let layout = TableLayout {
            row_count: 0,
            row_size: 0,
            column_count: 0,
            column_offsets: [0; 9],
            column_widths: [0; 9],
            data_offset: 0,
        };
        assert(layout@ =~= LayoutModel::none());
        layout
    }
}

impl TableLayout {
    /// The total size of the table in bytes.
    pub fn byte_size(&self) -> (size: usize)
        requires
            self@.bytes() <= usize::MAX,
        ensures
            size == self@.bytes(),
    {
        (self.row_count as usize) * (self.row_size as usize)
    }
}

/// The cells of one row and how far they have been read.
#[verifier::ext_equal]
pub struct RowModel {
    /// The column values, zero-extended.
    pub cells: Seq<u32>,
    /// The byte offset of each column within the row.
    pub offsets: Seq<u8>,
    /// The next column.
    pub column: int,
    /// Where the row starts in the parsed input.
    pub base: usize,
}

impl RowModel {
    /// The value `i` columns ahead.
    pub open spec fn value(self, i: int) -> u32 {
        self.cells[self.column + i]
    }

    /// The value `i` columns ahead, cut to 16 bits.
    pub open spec fn half(self, i: int) -> u16 {
        (self.value(i) as int % 0x1_0000) as u16
    }

    /// The token that the value `i` columns ahead stands for.
    pub open spec fn token(self, i: int, kind: CodedIndex) -> Token {
        kind.decoded(self.value(i), 0)->Ok_0
    }

    /// What reading the value `i` columns ahead as `kind` fails with, if it
    /// does.
    pub open spec fn cell_error(self, i: int, kind: ColumnKind) -> Option<Error> {
        if self.column + i >= self.cells.len() {
            Some(Error::at(ErrorKind::Malformed, self.base, "table row"))
        } else if kind is Coded && kind->Coded_0.table_of(self.value(i)) is None {
            Some(
                Error::at(
                    ErrorKind::Malformed,
                    error::saturating(self.base as int, self.offsets[self.column + i] as int),
                    "coded index",
                ),
            )
        } else {
            None
        }
    }

    /// The first error of reading `kinds` from number `i` on in order, if any.
    pub open spec fn first_error(self, kinds: Seq<ColumnKind>, i: int) -> Option<Error>
        decreases kinds.len() - i,
    {
        if i >= kinds.len() {
            None
        } else {
            match self.cell_error(i, kinds[i]) {
                Some(e) => Some(e),
                None => self.first_error(kinds, i + 1),
            }
        }
    }

    /// The row read `n` columns further.
    pub open spec fn advanced(self, n: int) -> RowModel {
        RowModel { column: self.column + n, ..self }
    }

    /// The row as a value of type `R`, or the first error of reading its
    /// columns.
    pub open spec fn decoded<R: TableRow>(self) -> Result<R> {
        match self.first_error(R::column_list(), 0) {
            Some(e) => Err(e),
            None => Ok(R::fields(self)),
        }
    }
}

/// A cursor that walks the columns of one row.
///
/// Columns must be read in declaration order; each read advances to the next
/// column using the widths computed for the image.
#[derive(Debug)]
pub struct RowCursor<'a> {
    bytes: &'a [u8],
    layout: TableLayout,
    column: usize,
    base: usize,
}

impl<'a> View for RowCursor<'a> {
    type V = RowModel;

    closed spec fn view(&self) -> RowModel {
        RowModel {
            cells: Seq::new(
                self.layout.column_count as nat,
                |i: int| self.layout@.cell(self.bytes@, 0, i),
            ),
            offsets: self.layout@.offsets,
            column: self.column as int,
            base: self.base,
        }
    }
}

impl<'a> RowCursor<'a> {
    #[verifier::type_invariant]
    spec fn inv(self) -> bool {
        self.layout@.columns_fit(self.bytes.len() as int)
    }

    /// Reads the next column as a zero-extended unsigned value.
    pub fn uint(&mut self) -> (r: Result<u32>)
        ensures
            r == (match old(self)@.cell_error(0, ColumnKind::U32) {
                Some(e) => Err(e),
                None => Ok(old(self)@.value(0)),
            }),
            final(self)@ == (if old(self)@.column < old(self)@.cells.len() {
                old(self)@.advanced(1)
            } else {
                old(self)@
            }),
    {
        proof {
            use_type_invariant(&*self);
        }
        let index: usize = self.column;
        if index >= self.layout.column_count as usize {
            return Err(Error::new(ErrorKind::Malformed, self.base, "table row"));
        }
        let offset: usize = self.layout.column_offsets[index] as usize;
        let width: u8 = self.layout.column_widths[index];
        let ghost before = self@;
        self.column = index + 1;
        assert(self@ =~= before.advanced(1));
        match read_uint_at(self.bytes, offset, width) {
            Some(value) => Ok(value),
            None => Err(
                Error::new(ErrorKind::Truncated, self.base.saturating_add(offset), "table row"),
            ),
        }
    }

    /// Reads the next column and decodes it as a coded index.
    pub fn coded(&mut self, kind: CodedIndex) -> (r: Result<Token>)
        ensures
            r == (match old(self)@.cell_error(0, ColumnKind::Coded(kind)) {
                Some(e) => Err(e),
                None => Ok(old(self)@.token(0, kind)),
            }),
            final(self)@ == (if old(self)@.column < old(self)@.cells.len() {
                old(self)@.advanced(1)
            } else {
                old(self)@
            }),
    {
        proof {
            use_type_invariant(&*self);
        }
        let offset: usize = if self.column < self.layout.column_count as usize {
            self.layout.column_offsets[self.column] as usize
        } else {
            0
        };
        let base: usize = self.base;
        let value: u32 = self.uint()?;
        kind.decode(value, base.saturating_add(offset))
    }

    /// Reads the next columns as `columns`, and checks the coded ones.
    fn cells(&mut self, columns: &[ColumnKind]) -> (r: Result<Cells>)
        requires
            columns.len() <= MAX_COLUMNS,
        ensures
            r matches Err(e) ==> old(self)@.first_error(columns@, 0) == Some(e),
            r matches Ok(cells) ==> {
                &&& old(self)@.first_error(columns@, 0) is None
                &&& final(self)@ == old(self)@.advanced(columns.len() as int)
                &&& cells.hold(old(self)@, columns@)
            },
    {
        let mut values: [u32; 9] = [0; 9];
        let mut i: usize = 0;
        let ghost first = self@;
        while i < columns.len()
            invariant
                i <= columns.len() <= MAX_COLUMNS,
                first == old(self)@,
                self@ == first.advanced(i as int),
                first.first_error(columns@, i as int) == first.first_error(columns@, 0),
                forall|j: int|
                    0 <= j < i ==> #[trigger] values@[j] == first.value(j) && first.cell_error(
                        j,
                        columns@[j],
                    ) is None,
            decreases columns.len() - i,
        {
            let value: u32 = match columns[i] {
                ColumnKind::Coded(kind) => self.checked(kind)?,
                _ => self.uint()?,
            };
            let ghost had = values@;
            assert(value == first.value(i as int));
            assert(first.cell_error(i as int, columns@[i as int]) is None);
            values[i] = value;
            assert(values@ == had.update(i as int, value));
            i = i + 1;
        }
        Ok(Cells { values })
    }

    /// Reads the next column as a coded index and gives its raw value.
    fn checked(&mut self, kind: CodedIndex) -> (r: Result<u32>)
        ensures
            r == (match old(self)@.cell_error(0, ColumnKind::Coded(kind)) {
                Some(e) => Err(e),
                None => Ok(old(self)@.value(0)),
            }),
            final(self)@ == (if old(self)@.column < old(self)@.cells.len() {
                old(self)@.advanced(1)
            } else {
                old(self)@
            }),
    {
        proof {
            use_type_invariant(&*self);
        }
        let offset: usize = if self.column < self.layout.column_count as usize {
            self.layout.column_offsets[self.column] as usize
        } else {
            0
        };
        let base: usize = self.base;
        let value: u32 = self.uint()?;
        match kind.decode(value, base.saturating_add(offset)) {
            Ok(_) => Ok(value),
            Err(e) => Err(e),
        }
    }
}

/// The values of the columns of a row that have been read and checked.
struct Cells {
    values: [u32; 9],
}

impl Cells {
    /// The values are the next ones of `row`, which can be read as `kinds`.
    spec fn hold(self, row: RowModel, kinds: Seq<ColumnKind>) -> bool {
        forall|j: int|
            0 <= j < kinds.len() ==> self.values@[j] == row.value(j) && row.cell_error(
                j,
                #[trigger] kinds[j],
            ) is None
    }

    /// The value of column `i`.
    fn value(&self, i: usize) -> (value: u32)
        requires
            i < MAX_COLUMNS,
        ensures
            value == self.values@[i as int],
    {
        self.values[i]
    }

    /// The value of column `i`, cut to 16 bits.
    fn half(&self, i: usize) -> (value: u16)
        requires
            i < MAX_COLUMNS,
        ensures
            value == self.values@[i as int] as int % 0x1_0000,
    {
        (self.values[i] % 0x1_0000) as u16
    }

    /// The token that the value of column `i` stands for.
    fn token(&self, i: usize, kind: CodedIndex) -> (token: Token)
        requires
            i < MAX_COLUMNS,
        ensures
            kind.table_of(self.values@[i as int]) is Some ==> token == kind.decoded(
                self.values@[i as int],
                0,
            )->Ok_0,
    {
        match kind.decode(self.values[i], 0) {
            Ok(token) => token,
            Err(_) => Token(0),
        }
    }
}

/// A metadata table row that can be decoded from a [`RowCursor`].
pub trait TableRow: Copy + Sized {
    /// The table this row belongs to.
    const TABLE: TableId;

    /// The table this row belongs to.
    spec fn table() -> TableId;

    /// The constant is the table.
    proof fn lemma_table()
        ensures
            Self::TABLE == Self::table(),
    ;

    /// The column layout of the table, in declaration order.
    spec fn column_list() -> Seq<ColumnKind>;

    /// The row whose columns are the next ones of `row`.
    spec fn fields(row: RowModel) -> Self;

    /// The column layout of the table, in declaration order.
    fn columns() -> (list: &'static [ColumnKind])
        ensures
            list@ == Self::column_list(),
    ;

    /// Decodes one row, consuming every column in order.
    fn decode(cursor: &mut RowCursor<'_>) -> (r: Result<Self>)
        ensures
            r == (match old(cursor)@.first_error(Self::column_list(), 0) {
                Some(e) => Err(e),
                None => Ok(Self::fields(old(cursor)@)),
            }),
            r is Ok ==> final(cursor)@ == old(cursor)@.advanced(Self::column_list().len() as int),
    ;
}

/// Bit `n` of `value`.
pub open spec fn bit(value: u64, n: int) -> bool {
    value as int / power2::pow2(n as nat) as int % 2 == 1
}

/// Bit `n` of `value`.
fn has_bit(value: u64, n: u8) -> (set: bool)
    requires
        n < 64,
    ensures
        set == bit(value, n as int),
{
    proof {
        bits::lemma_u64_shr_is_div(value, n as u64);
    }
    (value >> (n as u64)) % 2 == 1
}

/// What a table stream holds.
#[verifier::ext_equal]
pub struct TablesModel {
    /// The stream bytes.
    pub data: Seq<u8>,
    /// Where the stream starts in the parsed input.
    pub base: usize,
    /// The schema major version.
    pub major_version: u8,
    /// The schema minor version.
    pub minor_version: u8,
    /// The `HeapSizes` byte.
    pub heap_sizes: u8,
    /// The `Valid` bitvector.
    pub valid: u64,
    /// The `Sorted` bitvector.
    pub declared_sorted: u64,
    /// Which tables were found to be sorted, by table id.
    pub sorted: Seq<bool>,
    /// The stream is `#-`.
    pub uncompressed: bool,
    /// The extra data behind the row counts.
    pub extra_data: Option<u32>,
    /// The geometry of each table, by table id.
    pub layouts: Seq<LayoutModel>,
}

impl TablesModel {
    /// The stream of an image that has none.
    pub open spec fn none() -> TablesModel {
        TablesModel {
            data: Seq::empty(),
            base: 0,
            major_version: 2,
            minor_version: 0,
            heap_sizes: 0,
            valid: 0,
            declared_sorted: 0,
            sorted: Seq::new(
                TABLE_SLOTS as nat,
                |i: int|
                    TableId::of_number(i as u8) matches Some(table) && lookup::sort_key(
                        table,
                    ) is Some,
            ),
            uncompressed: false,
            extra_data: None,
            layouts: Seq::new(TABLE_SLOTS as nat, |i: int| LayoutModel::none()),
        }
    }

    /// The geometry of a table.
    pub open spec fn layout(self, table: TableId) -> LayoutModel {
        self.layouts[table.number() as int]
    }

    /// The number of rows of a table.
    pub open spec fn row_count(self, table: TableId) -> u32 {
        self.layout(table).row_count
    }

    /// The number of logically addressable rows: those of the `*Ptr` table
    /// where it has any.
    pub open spec fn logical_row_count(self, table: TableId) -> u32 {
        match table.redirected_by() {
            Some(ptr) if self.row_count(ptr) > 0 => self.row_count(ptr),
            _ => self.row_count(table),
        }
    }

    /// True when `table` has a row `rid`.
    pub open spec fn has_row(self, table: TableId, rid: u32) -> bool {
        1 <= rid <= self.row_count(table)
    }

    /// The error for a row that is not there.
    pub open spec fn no_row(self, table: TableId) -> Error {
        Error::at(ErrorKind::OutOfRange, self.base, table.title())
    }

    /// The raw value of a column of a row.
    pub open spec fn cell(self, table: TableId, rid: u32, column: int) -> u32 {
        let l = self.layout(table);
        l.cell(self.data, l.row_start(rid), column)
    }

    /// The raw value of a column of a row, where there is one.
    pub open spec fn column_value(self, table: TableId, rid: u32, column: usize) -> Result<u32> {
        if column < self.layout(table).column_count && self.has_row(table, rid) {
            Ok(self.cell(table, rid, column as int))
        } else {
            Err(self.no_row(table))
        }
    }

    /// The cells of a row.
    pub open spec fn row_model(self, table: TableId, rid: u32) -> RowModel {
        let l = self.layout(table);
        RowModel {
            cells: Seq::new(l.column_count as nat, |i: int| self.cell(table, rid, i)),
            offsets: l.offsets,
            column: 0,
            base: error::saturating(self.base as int, l.row_start(rid)),
        }
    }

    /// A row, without applying any `*Ptr` indirection.
    pub open spec fn row<R: TableRow>(self, rid: u32) -> Result<R> {
        if self.has_row(R::table(), rid) {
            self.row_model(R::table(), rid).decoded::<R>()
        } else {
            Err(self.no_row(R::table()))
        }
    }

    /// The physical row that logical row `rid` of `table` is: the `*Ptr` table
    /// gives it where it has rows.
    pub open spec fn resolved(self, table: TableId, rid: u32) -> Result<u32> {
        match table.redirected_by() {
            Some(ptr) if self.row_count(ptr) > 0 => if self.has_row(ptr, rid) {
                Ok(self.cell(ptr, rid, 0))
            } else {
                Err(self.no_row(ptr))
            },
            _ => Ok(rid),
        }
    }

    /// A row, following the `*Ptr` indirection when present.
    pub open spec fn row_indirect<R: TableRow>(self, rid: u32) -> Result<R> {
        match self.resolved(R::table(), rid) {
            Ok(physical) => self.row::<R>(physical),
            Err(e) => Err(e),
        }
    }

    /// True when the values of a column never decrease from row to row.
    pub open spec fn ordered(self, table: TableId, column: int) -> bool {
        forall|i: u32, j: u32|
            1 <= i <= j <= self.row_count(table) ==> #[trigger] self.cell(table, i, column)
                <= #[trigger] self.cell(table, j, column)
    }

    /// True when `table` has a sort key and its rows are ordered by it.
    pub open spec fn key_ordered(self, table: TableId) -> bool {
        lookup::sort_key(table) matches Some(column) && self.ordered(table, column as int)
    }

    /// Every row lies within the stream and has the columns of its table, and
    /// the tables that count as sorted are ordered by their sort keys.
    pub open spec fn wf(self) -> bool {
        &&& self.layouts.len() == TABLE_SLOTS
        &&& self.sorted.len() == TABLE_SLOTS
        &&& forall|slot: int|
            0 <= slot < TABLE_SLOTS ==> (#[trigger] self.layouts[slot]).wf(self.data.len() as int)
        &&& forall|table: TableId|
            (#[trigger] self.layout(table)).row_count > 0 ==> self.layout(table).column_count
                == rows::columns(table).len()
        &&& forall|table: TableId|
            self.sorted[table.number() as int] ==> #[trigger] self.key_ordered(table)
    }
}

/// A table stream to be parsed.
#[verifier::ext_equal]
pub struct TableStream {
    /// The stream bytes.
    pub data: Seq<u8>,
    /// Where the stream starts in the parsed input.
    pub base: usize,
    /// The stream is `#-`.
    pub uncompressed: bool,
    /// Deviations are rejected.
    pub strict: bool,
}

/// The row counts read so far, and what was noticed on the way.
#[verifier::ext_equal]
pub struct CountState {
    /// The declared row counts, by table id.
    pub counts: Seq<u32>,
    /// Where the next row count is.
    pub pos: int,
    /// The deviations accepted.
    pub noted: Seq<Diagnostic>,
    /// The error that ended the parse, if one did.
    pub failed: Option<Error>,
}

/// The tables placed so far, and what was noticed on the way.
#[verifier::ext_equal]
pub struct PlaceState {
    /// The geometry of each table, by table id.
    pub layouts: Seq<LayoutModel>,
    /// Where the next table starts.
    pub cursor: int,
    /// A table did not fit.
    pub exhausted: bool,
    /// The deviations accepted.
    pub noted: Seq<Diagnostic>,
    /// The error that ended the parse, if one did.
    pub failed: Option<Error>,
}

/// The tables whose order was looked at so far, and what was noticed.
#[verifier::ext_equal]
pub struct SortState {
    /// Which tables were found to be sorted, by table id.
    pub sorted: Seq<bool>,
    /// The deviations accepted.
    pub noted: Seq<Diagnostic>,
    /// The error that ended the parse, if one did.
    pub failed: Option<Error>,
}

/// How many of `count` rows of `row_size` bytes fit in `available` bytes.
pub open spec fn fitting_rows(count: u32, available: int, row_size: int) -> u32 {
    if available / row_size < count {
        (available / row_size) as u32
    } else {
        count
    }
}

impl TableStream {
    /// The absolute offset of stream offset `at`.
    pub open spec fn absolute(self, at: int) -> usize {
        error::saturating(self.base as int, at)
    }

    /// The error of kind `kind` at stream offset `at`.
    pub open spec fn failure(self, kind: ErrorKind, at: int) -> Error {
        Error::at(kind, self.absolute(at), CONTEXT)
    }

    /// The offset of the first header field that is cut off, if one is.
    pub open spec fn missing_field(self) -> Option<int> {
        let len = self.data.len();
        if len < 4 {
            Some(0)
        } else if len < 8 {
            Some(len as int)
        } else if len < 16 {
            Some(8)
        } else if len < 24 {
            Some(16)
        } else {
            None
        }
    }

    /// The `HeapSizes` byte.
    pub open spec fn heap_sizes(self) -> u8 {
        self.data[6]
    }

    /// The `Valid` bitvector.
    pub open spec fn valid(self) -> u64 {
        reader::le64(self.data, 8)
    }

    /// The `Sorted` bitvector.
    pub open spec fn declared_sorted(self) -> u64 {
        reader::le64(self.data, 16)
    }

    /// True when `HeapSizes` has the one bit without a meaning.
    pub open spec fn unknown_heap_bits(self) -> bool {
        self.heap_sizes() / 0x10 % 2 == 1
    }

    /// True when a 4-byte value follows the row counts.
    pub open spec fn has_extra_data(self) -> bool {
        self.heap_sizes() / 0x40 % 2 == 1
    }

    /// Where reading the row counts starts.
    pub open spec fn count_start(self) -> CountState {
        let diagnostic = Diagnostic::at(
            DiagnosticCode::UnknownHeapSizeBits,
            self.absolute(6),
            self.heap_sizes() as u64,
        );
        CountState {
            counts: Seq::new(TABLE_SLOTS as nat, |i: int| 0u32),
            pos: 24,
            noted: if self.unknown_heap_bits() && !self.strict {
                seq![diagnostic]
            } else {
                Seq::empty()
            },
            failed: if self.unknown_heap_bits() && self.strict {
                Some(self.failure(ErrorKind::Malformed, 6))
            } else {
                None
            },
        }
    }

    /// The row counts after slot `slot` was looked at: one is stored for each
    /// set bit of `Valid`, and a reserved slot must have none.
    pub open spec fn count_step(self, s: CountState, slot: int) -> CountState {
        if s.failed is Some || !bit(self.valid(), slot) {
            s
        } else if s.pos + 4 > self.data.len() {
            CountState { failed: Some(self.failure(ErrorKind::Truncated, s.pos)), ..s }
        } else {
            let count = reader::le32(self.data, s.pos);
            match TableId::of_number(slot as u8) {
                Some(_) => CountState { counts: s.counts.update(slot, count), pos: s.pos + 4, ..s },
                None => if count != 0 || self.strict {
                    CountState { failed: Some(self.failure(ErrorKind::Unsupported, s.pos)), ..s }
                } else {
                    CountState {
                        pos: s.pos + 4,
                        noted: s.noted.push(
                            Diagnostic::at(
                                DiagnosticCode::ReservedTablePresent,
                                self.absolute(s.pos),
                                slot as u64,
                            ),
                        ),
                        ..s
                    }
                },
            }
        }
    }

    /// The row counts after the first `n` slots were looked at.
    pub open spec fn counted(self, n: nat) -> CountState
        decreases n,
    {
        if n == 0 {
            self.count_start()
        } else {
            self.count_step(self.counted((n - 1) as nat), n - 1)
        }
    }

    /// The declared row counts and what was noticed while reading them.
    pub open spec fn all_counted(self) -> CountState {
        self.counted(TABLE_SLOTS as nat)
    }

    /// What decides the column widths.
    pub open spec fn widths(self) -> Widths {
        Widths {
            counts: self.all_counted().counts,
            strings: self.heap_sizes() % 2 == 1,
            guids: self.heap_sizes() / 2 % 2 == 1,
            blobs: self.heap_sizes() / 4 % 2 == 1,
        }
    }

    /// Where placing the tables starts: behind the row counts and the extra
    /// data.
    pub open spec fn place_start(self) -> PlaceState {
        let s = self.all_counted();
        PlaceState {
            layouts: Seq::new(TABLE_SLOTS as nat, |i: int| LayoutModel::none()),
            cursor: if self.has_extra_data() {
                s.pos + 4
            } else {
                s.pos
            },
            exhausted: false,
            noted: s.noted,
            failed: if s.failed is None && self.has_extra_data() && s.pos + 4 > self.data.len() {
                Some(self.failure(ErrorKind::Truncated, s.pos))
            } else {
                s.failed
            },
        }
    }

    /// The tables after `table` was placed. From the first table that does not
    /// fit on, each takes as many of its rows as fit in what is left.
    pub open spec fn place_step(self, s: PlaceState, table: TableId) -> PlaceState {
        let w = self.widths();
        let columns = rows::columns(table);
        let row_size = w.sum(columns, columns.len());
        let available = self.data.len() - s.cursor;
        let needed = w.count(table) * row_size;
        if s.failed is Some {
            s
        } else if w.count(table) > 0 && (s.exhausted || needed > available) {
            if self.strict {
                PlaceState { failed: Some(self.failure(ErrorKind::Truncated, s.cursor)), ..s }
            } else {
                let fitting = fitting_rows(w.count(table), available, row_size);
                PlaceState {
                    layouts: s.layouts.update(
                        table.number() as int,
                        LayoutModel::of(w, columns, fitting, s.cursor),
                    ),
                    cursor: s.cursor + fitting * row_size,
                    exhausted: true,
                    noted: s.noted.push(
                        Diagnostic::at(
                            DiagnosticCode::StreamRangeClamped,
                            self.absolute(s.cursor),
                            needed as u64,
                        ),
                    ),
                    failed: None,
                }
            }
        } else {
            PlaceState {
                layouts: s.layouts.update(
                    table.number() as int,
                    LayoutModel::of(w, columns, w.count(table), s.cursor),
                ),
                cursor: s.cursor + needed,
                ..s
            }
        }
    }

    /// The tables after the first `n` of them were placed.
    pub open spec fn placed(self, n: nat) -> PlaceState
        decreases n,
    {
        if n == 0 {
            self.place_start()
        } else {
            self.place_step(self.placed((n - 1) as nat), TableId::ALL@[n - 1])
        }
    }

    /// The geometry of all tables and what was noticed while placing them.
    pub open spec fn all_placed(self) -> PlaceState {
        self.placed(53)
    }

    /// The stream with its tables placed, and `sorted` as those found sorted.
    pub open spec fn model(self, sorted: Seq<bool>) -> TablesModel {
        TablesModel {
            data: self.data,
            base: self.base,
            major_version: self.data[4],
            minor_version: self.data[5],
            heap_sizes: self.heap_sizes(),
            valid: self.valid(),
            declared_sorted: self.declared_sorted(),
            sorted,
            uncompressed: self.uncompressed,
            extra_data: if self.has_extra_data() {
                Some(reader::le32(self.data, self.all_counted().pos))
            } else {
                None
            },
            layouts: self.all_placed().layouts,
        }
    }

    /// No table counts as sorted.
    pub open spec fn none_sorted() -> Seq<bool> {
        Seq::new(TABLE_SLOTS as nat, |i: int| false)
    }

    /// Where looking at the order of the tables starts.
    pub open spec fn sort_start(self) -> SortState {
        SortState {
            sorted: TableStream::none_sorted(),
            noted: self.all_placed().noted,
            failed: self.all_placed().failed,
        }
    }

    /// What the order of the rows of `table` adds.
    pub open spec fn sort_step(self, s: SortState, table: TableId) -> SortState {
        let m = self.model(TableStream::none_sorted());
        if s.failed is Some || lookup::sort_key(table) is None {
            s
        } else if m.key_ordered(table) {
            SortState { sorted: s.sorted.update(table.number() as int, true), ..s }
        } else if self.strict && bit(self.declared_sorted(), table.number() as int) {
            SortState {
                failed: Some(Error::at(ErrorKind::Malformed, self.base, table.title())),
                ..s
            }
        } else {
            SortState {
                noted: s.noted.push(
                    Diagnostic::at(
                        DiagnosticCode::TableNotSorted,
                        self.base,
                        table.number() as u64,
                    ),
                ),
                ..s
            }
        }
    }

    /// The tables found sorted after the first `n` of them were looked at.
    pub open spec fn sorted(self, n: nat) -> SortState
        decreases n,
    {
        if n == 0 {
            self.sort_start()
        } else {
            self.sort_step(self.sorted((n - 1) as nat), TableId::ALL@[n - 1])
        }
    }

    /// The tables found sorted and what was noticed in all.
    pub open spec fn all_sorted(self) -> SortState {
        self.sorted(53)
    }

    /// What parsing the stream gives.
    pub open spec fn parsed(self) -> Result<TablesModel> {
        match self.missing_field() {
            Some(at) => Err(self.failure(ErrorKind::Truncated, at)),
            None => match self.all_sorted().failed {
                Some(e) => Err(e),
                None => Ok(self.model(self.all_sorted().sorted)),
            },
        }
    }

    /// The deviations that parsing the stream notes, up to where it fails if it
    /// does.
    pub open spec fn noted(self) -> Seq<Diagnostic> {
        match self.missing_field() {
            Some(_) => Seq::empty(),
            None => self.all_sorted().noted,
        }
    }
}

/// A parse that has failed stays failed and notes nothing more.
proof fn lemma_count_failure_stays(s: TableStream, n: nat, m: nat)
    requires
        n <= m,
        s.counted(n).failed is Some,
    ensures
        s.counted(m) == s.counted(n),
    decreases m,
{
    if n < m {
        lemma_count_failure_stays(s, n, (m - 1) as nat);
    }
}

proof fn lemma_place_failure_stays(s: TableStream, n: nat, m: nat)
    requires
        n <= m,
        s.placed(n).failed is Some,
    ensures
        s.placed(m) == s.placed(n),
    decreases m,
{
    if n < m {
        lemma_place_failure_stays(s, n, (m - 1) as nat);
    }
}

proof fn lemma_sort_failure_stays(s: TableStream, n: nat, m: nat)
    requires
        n <= m,
        s.sorted(n).failed is Some,
    ensures
        s.sorted(m) == s.sorted(n),
    decreases m,
{
    if n < m {
        lemma_sort_failure_stays(s, n, (m - 1) as nat);
    }
}

/// What a failure among the row counts means for the whole parse.
proof fn lemma_count_failure(s: TableStream, n: nat)
    requires
        n <= TABLE_SLOTS,
        s.missing_field() is None,
        s.counted(n).failed is Some,
    ensures
        s.parsed() == Err::<TablesModel, Error>(s.counted(n).failed->0),
        s.noted() == s.counted(n).noted,
{
    lemma_count_failure_stays(s, n, TABLE_SLOTS as nat);
    lemma_place_failure(s, 0);
}

/// What a failure while placing tables means for the whole parse.
proof fn lemma_place_failure(s: TableStream, n: nat)
    requires
        n <= 53,
        s.missing_field() is None,
        s.placed(n).failed is Some,
    ensures
        s.parsed() == Err::<TablesModel, Error>(s.placed(n).failed->0),
        s.noted() == s.placed(n).noted,
{
    lemma_place_failure_stays(s, n, 53);
    lemma_sort_failure_stays(s, 0, 53);
}

/// Counting keeps one count per slot and moves forward within the stream.
proof fn lemma_counted_shape(s: TableStream, n: nat)
    requires
        s.missing_field() is None,
        n <= TABLE_SLOTS,
    ensures
        s.counted(n).counts.len() == TABLE_SLOTS,
        24 <= s.counted(n).pos <= 24 + 4 * n,
        s.counted(n).pos <= s.data.len(),
    decreases n,
{
    if n > 0 {
        lemma_counted_shape(s, (n - 1) as nat);
    }
}

/// A table without rows fits anywhere.
proof fn lemma_none_wf(len: int)
    requires
        0 <= len,
    ensures
        LayoutModel::none().wf(len),
{
    let l = LayoutModel::none();
    assert(l.row_count * l.row_size == 0) by (nonlinear_arith)
        requires
            l.row_count == 0,
    ;
}

/// Placed tables lie within the stream one after the other, and have the
/// columns of their table.
proof fn lemma_placed_shape(s: TableStream, n: nat)
    requires
        s.missing_field() is None,
        s.placed(n).failed is None,
        s.data.len() <= usize::MAX,
        n <= 53,
    ensures
        ({
            let p = s.placed(n);
            &&& p.layouts.len() == TABLE_SLOTS
            &&& 0 <= p.cursor <= s.data.len()
            &&& forall|slot: int|
                0 <= slot < TABLE_SLOTS ==> (#[trigger] p.layouts[slot]).wf(s.data.len() as int)
            &&& forall|table: TableId|
                p.layouts[(#[trigger] table.number()) as int].row_count > 0
                    ==> p.layouts[table.number() as int].column_count == rows::columns(table).len()
        }),
    decreases n,
{
    let p = s.placed(n);
    if n == 0 {
        lemma_counted_shape(s, TABLE_SLOTS as nat);
        lemma_none_wf(s.data.len() as int);
        assert forall|t: TableId| p.layouts[(#[trigger] t.number()) as int].row_count == 0 by {
            token::lemma_table_numbers(t, 0);
        }
    } else {
        let q = s.placed((n - 1) as nat);
        let table = TableId::ALL@[n - 1];
        assert(q.failed is None);
        lemma_placed_shape(s, (n - 1) as nat);
        token::lemma_table_numbers(table, 0);
        let w = s.widths();
        let columns = rows::columns(table);
        rows::lemma_column_counts(table);
        lemma_layout_fits(s, table, q.cursor, s.data.len() - q.cursor, q.exhausted);
        assert forall|t: TableId| p.layouts[(#[trigger] t.number()) as int].row_count > 0 implies p.layouts[t.number() as int].column_count
            == rows::columns(t).len() by {
            token::lemma_table_numbers(t, 0);
            if t.number() == table.number() {
                token::lemma_table_numbers(table, 0);
            }
        }
    }
}

/// The rows that a table is given fit in the `available` bytes behind `at`.
proof fn lemma_layout_fits(s: TableStream, table: TableId, at: int, available: int, exhausted: bool)
    requires
        0 <= at,
        0 <= available,
        at + available <= usize::MAX,
    ensures
        ({
            let w = s.widths();
            let columns = rows::columns(table);
            let size = w.sum(columns, columns.len());
            let fitting = fitting_rows(w.count(table), available, size);
            &&& 2 <= size <= 36
            &&& 0 <= w.count(table) * size <= 0xFFFF_FFFF * 36
            &&& 0 <= fitting * size <= available
            &&& LayoutModel::of(w, columns, fitting, at).wf(at + available)
            &&& w.count(table) * size <= available ==> LayoutModel::of(
                w,
                columns,
                w.count(table),
                at,
            ).wf(at + available)
        }),
{
    let w = s.widths();
    let columns = rows::columns(table);
    let size = w.sum(columns, columns.len());
    let fitting = fitting_rows(w.count(table), available, size);
    rows::lemma_column_counts(table);
    lemma_sum_bounds(w, columns, columns.len(), columns.len());
    let count = w.count(table) as int;
    assert(0 <= count * size <= 0xFFFF_FFFF * 36) by (nonlinear_arith)
        requires
            0 <= count <= 0xFFFF_FFFF,
            0 <= size <= 36,
    ;
    assert(available / size >= 0 && available / size * size <= available) by (nonlinear_arith)
        requires
            available >= 0,
            size > 0,
    ;
    let whole = available / size;
    assert(0 <= fitting <= whole);
    assert(0 <= fitting * size <= whole * size) by (nonlinear_arith)
        requires
            0 <= fitting <= whole,
            size > 0,
    ;
    let l = LayoutModel::of(w, columns, fitting, at);
    assert forall|i: int| 0 <= i < columns.len() implies ((#[trigger] l.widths[i]) == 2
        || l.widths[i] == 4) && l.offsets[i] + l.widths[i] <= size by {
        lemma_sum_bounds(w, columns, i as nat, columns.len());
    }
    let l2 = LayoutModel::of(w, columns, w.count(table), at);
    assert(l2.widths == l.widths && l2.offsets == l.offsets);
}

/// The tables found sorted are ordered by their sort keys.
proof fn lemma_sorted_shape(s: TableStream, n: nat)
    requires
        n <= 53,
    ensures
        s.sorted(n).sorted.len() == TABLE_SLOTS,
        forall|table: TableId|
            s.sorted(n).sorted[(#[trigger] table.number()) as int] ==> s.model(
                TableStream::none_sorted(),
            ).key_ordered(table),
    decreases n,
{
    if n > 0 {
        lemma_sorted_shape(s, (n - 1) as nat);
        let table = TableId::ALL@[n - 1];
        assert forall|t: TableId| s.sorted(n).sorted[(#[trigger] t.number()) as int] implies s.model(
            TableStream::none_sorted(),
        ).key_ordered(t) by {
            token::lemma_table_numbers(t, 0);
            token::lemma_table_numbers(table, 0);
        }
    } else {
        assert forall|t: TableId| s.sorted(n).sorted[(#[trigger] t.number()) as int] implies s.model(
            TableStream::none_sorted(),
        ).key_ordered(t) by {
            token::lemma_table_numbers(t, 0);
        }
    }
}

/// The stream with its tables placed is well formed before any table counts as
/// sorted.
proof fn lemma_unsorted_wf(s: TableStream)
    requires
        s.missing_field() is None,
        s.all_placed().failed is None,
        s.data.len() <= usize::MAX,
    ensures
        s.model(TableStream::none_sorted()).wf(),
{
    lemma_placed_shape(s, 53);
    let m = s.model(TableStream::none_sorted());
    assert forall|table: TableId|
        (#[trigger] m.layout(table)).row_count > 0 implies m.layout(table).column_count
        == rows::columns(table).len() by {
        assert(m.layouts[table.number() as int].row_count > 0);
    }
    assert forall|table: TableId|
        m.sorted[table.number() as int] implies #[trigger] m.key_ordered(table) by {
        token::lemma_table_numbers(table, 0);
    }
}

/// Every table that was placed with rows has the geometry that its columns call
/// for.
proof fn lemma_placed_layouts(s: TableStream, n: nat)
    requires
        s.missing_field() is None,
        s.placed(n).failed is None,
        s.data.len() <= usize::MAX,
        n <= 53,
    ensures
        forall|table: TableId|
            s.placed(n).layouts[(#[trigger] table.number()) as int].row_count > 0
                ==> s.placed(n).layouts[table.number() as int] == LayoutModel::of(
                s.widths(),
                rows::columns(table),
                s.placed(n).layouts[table.number() as int].row_count,
                s.placed(n).layouts[table.number() as int].data_offset as int,
            ),
    decreases n,
{
    if n == 0 {
        assert forall|t: TableId| s.placed(0).layouts[(#[trigger] t.number()) as int].row_count
            == 0 by {
            token::lemma_table_numbers(t, 0);
        }
    } else {
        let before = s.placed((n - 1) as nat);
        let table = TableId::ALL@[n - 1];
        assert(before.failed is None);
        lemma_placed_layouts(s, (n - 1) as nat);
        lemma_placed_shape(s, (n - 1) as nat);
        assert forall|t: TableId|
            s.placed(n).layouts[(#[trigger] t.number()) as int].row_count > 0 implies s.placed(
            n,
        ).layouts[t.number() as int] == LayoutModel::of(
            s.widths(),
            rows::columns(t),
            s.placed(n).layouts[t.number() as int].row_count,
            s.placed(n).layouts[t.number() as int].data_offset as int,
        ) by {
            token::lemma_table_numbers(t, 0);
            token::lemma_table_numbers(table, 0);
            if t != table {
                assert(t.number() != table.number());
            }
        }
    }
}

/// A table with rows has the geometry that its columns call for.
pub proof fn lemma_layout_of(s: TableStream, table: TableId)
    requires
        s.data.len() <= usize::MAX,
    ensures
        s.parsed() matches Ok(m) ==> m.data == s.data && (m.row_count(table) > 0 ==> m.layout(table)
            == LayoutModel::of(
            s.widths(),
            rows::columns(table),
            m.row_count(table),
            m.layout(table).data_offset as int,
        )),
{
    if let Ok(m) = s.parsed() {
        if s.all_placed().failed is Some {
            lemma_place_failure(s, 53);
        }
        lemma_placed_layouts(s, 53);
        token::lemma_table_numbers(table, 0);
    }
}

/// A stream that parses is well formed: every row lies within it and has the
/// columns of its table, and the tables that count as sorted are.
pub proof fn lemma_parsed_wf(s: TableStream)
    requires
        s.data.len() <= usize::MAX,
    ensures
        s.parsed() matches Ok(m) ==> m.wf(),
{
    if let Ok(m) = s.parsed() {
        if s.all_placed().failed is Some {
            lemma_place_failure(s, 53);
        }
        lemma_placed_shape(s, 53);
        lemma_sorted_shape(s, 53);
        let plain = s.model(TableStream::none_sorted());
        assert forall|table: TableId|
            m.sorted[table.number() as int] implies #[trigger] m.key_ordered(table) by {
            assert(plain.key_ordered(table));
            let column = lookup::sort_key(table)->0 as int;
            assert forall|i: u32, j: u32| 1 <= i <= j <= m.row_count(table) implies #[trigger] m.cell(
                table,
                i,
                column,
            ) <= #[trigger] m.cell(table, j, column) by {
                assert(m.cell(table, i, column) == plain.cell(table, i, column));
                assert(m.cell(table, j, column) == plain.cell(table, j, column));
            }
        }
        assert forall|table: TableId|
            (#[trigger] m.layout(table)).row_count > 0 implies m.layout(table).column_count
            == rows::columns(table).len() by {
            assert(m.layouts[table.number() as int].row_count > 0);
        }
    }
}

/// The width of a column in bytes, from the declared row counts and the heap
/// index widths.
pub fn column_width(
    kind: ColumnKind,
    row_counts: &[u32; 64],
    strings_wide: bool,
    guids_wide: bool,
    blobs_wide: bool,
) -> (width: u8)
    ensures
        width == (Widths {
            counts: row_counts@,
            strings: strings_wide,
            guids: guids_wide,
            blobs: blobs_wide,
        }).of(kind),
        width == 2 || width == 4,
{
    let ghost w = Widths {
        counts: row_counts@,
        strings: strings_wide,
        guids: guids_wide,
        blobs: blobs_wide,
    };
    let wide: bool = match kind {
        ColumnKind::U16 => false,
        ColumnKind::U32 => true,
        ColumnKind::String => strings_wide,
        ColumnKind::Guid => guids_wide,
        ColumnKind::Blob => blobs_wide,
        ColumnKind::Rid(target) => {
            proof {
                token::lemma_table_numbers(target, 0);
            }
            // A list column addresses the `*Ptr` table when one is present, and
            // both tables must be reachable, so the larger row count decides.
            let mut rows: u32 = row_counts[target.to_u8() as usize];
            if let Some(ptr) = target.ptr_source() {
                proof {
                    token::lemma_table_numbers(ptr, 0);
                }
                let redirected: u32 = row_counts[ptr.to_u8() as usize];
                if redirected > rows {
                    rows = redirected;
                }
            }
            rows >= 0x1_0000
        },
        ColumnKind::Coded(coded) => {
            let list = coded.tables();
            let mut max: u32 = 0;
            let mut i: usize = 0;
            while i < list.len()
                invariant
                    i <= list.len(),
                    list@ == coded.table_list(),
                    w.counts == row_counts@,
                    forall|tag: int|
                        0 <= tag < i ==> ((#[trigger] list@[tag]) matches Some(table) ==> w.count(
                            table,
                        ) <= max),
                    max > 0 ==> exists|tag: int|
                        0 <= tag < i && ((#[trigger] list@[tag]) matches Some(table) && w.count(
                            table,
                        ) == max),
                decreases list.len() - i,
            {
                if let Some(table) = list[i] {
                    proof {
                        token::lemma_table_numbers(table, 0);
                    }
                    let rows: u32 = row_counts[table.to_u8() as usize];
                    if rows > max {
                        max = rows;
                        assert(list@[i as int] == Some(table));
                    }
                }
                i = i + 1;
            }
            let width: u8 = coded.column_width(max);
            assert((width == 2) == w.small_coded(coded)) by {
                coded::lemma_tags_cover(coded);
                if max > 0 {
                    let tag = choose|tag: int|
                        0 <= tag < i && ((#[trigger] list@[tag]) matches Some(table) && w.count(
                            table,
                        ) == max);
                    assert(coded.table_list()[tag] is Some);
                }
            }
            width == 4
        },
    };
    if wide {
        4
    } else {
        2
    }
}

/// The parsed `#~` or `#-` stream.
#[derive(Debug)]
pub struct Tables<'a> {
    data: &'a [u8],
    base: usize,
    major_version: u8,
    minor_version: u8,
    heap_sizes: u8,
    valid: u64,
    declared_sorted: u64,
    verified_sorted: [bool; 64],
    uncompressed: bool,
    extra_data: Option<u32>,
    layouts: [TableLayout; 64],
}

/// The geometry of each of `layouts`.
pub open spec fn layout_models(layouts: Seq<TableLayout>) -> Seq<LayoutModel> {
    Seq::new(layouts.len(), |i: int| layouts[i]@)
}

impl<'a> View for Tables<'a> {
    type V = TablesModel;

    closed spec fn view(&self) -> TablesModel {
        TablesModel {
            data: self.data@,
            base: self.base,
            major_version: self.major_version,
            minor_version: self.minor_version,
            heap_sizes: self.heap_sizes,
            valid: self.valid,
            declared_sorted: self.declared_sorted,
            sorted: self.verified_sorted@,
            uncompressed: self.uncompressed,
            extra_data: self.extra_data,
            layouts: layout_models(self.layouts@),
        }
    }
}

impl<'a> Clone for Tables<'a> {
    fn clone(&self) -> (t: Self)
        ensures
            t@ == self@,
    {
        proof {
            use_type_invariant(self);
        }
        Tables {
            data: self.data,
            base: self.base,
            major_version: self.major_version,
            minor_version: self.minor_version,
            heap_sizes: self.heap_sizes,
            valid: self.valid,
            declared_sorted: self.declared_sorted,
            verified_sorted: self.verified_sorted,
            uncompressed: self.uncompressed,
            extra_data: self.extra_data,
            layouts: self.layouts,
        }
    }
}

/// The geometry of `table` without rows, placed at `at`.
fn empty_layout(
    table: TableId,
    row_counts: &[u32; 64],
    heap_sizes: u8,
    at: usize,
) -> (layout: TableLayout)
    ensures
        layout@ == LayoutModel::of(
            Widths {
                counts: row_counts@,
                strings: heap_sizes % 2 == 1,
                guids: heap_sizes / 2 % 2 == 1,
                blobs: heap_sizes / 4 % 2 == 1,
            },
            rows::columns(table),
            0,
            at as int,
        ),
{
    let ghost w = Widths {
        counts: row_counts@,
        strings: heap_sizes % 2 == 1,
        guids: heap_sizes / 2 % 2 == 1,
        blobs: heap_sizes / 4 % 2 == 1,
    };
    let columns = rows_columns(table);
    let mut layout = TableLayout::default();
    layout.data_offset = at;
    layout.column_count = columns.len() as u8;
    let mut offset: u16 = 0;
    let mut i: usize = 0;
    while i < columns.len()
        invariant
            i <= columns.len() <= MAX_COLUMNS,
            columns@ == rows::columns(table),
            w == (Widths {
                counts: row_counts@,
                strings: heap_sizes % 2 == 1,
                guids: heap_sizes / 2 % 2 == 1,
                blobs: heap_sizes / 4 % 2 == 1,
            }),
            layout.row_count == 0,
            layout.data_offset == at,
            layout.column_count == columns.len(),
            offset == w.sum(columns@, i as nat),
            0 <= offset <= 4 * i,
            forall|j: int|
                0 <= j < MAX_COLUMNS ==> #[trigger] layout.column_offsets@[j] == if j < i {
                    w.sum(columns@, j as nat) as u8
                } else {
                    0
                },
            forall|j: int|
                0 <= j < MAX_COLUMNS ==> #[trigger] layout.column_widths@[j] == if j < i {
                    w.of(columns@[j])
                } else {
                    0
                },
        decreases columns.len() - i,
    {
        let width: u8 = column_width(
            columns[i],
            row_counts,
            heap_sizes % 2 == 1,
            heap_sizes / 2 % 2 == 1,
            heap_sizes / 4 % 2 == 1,
        );
        layout.column_offsets[i] = offset as u8;
        layout.column_widths[i] = width;
        offset = offset + width as u16;
        i = i + 1;
    }
    layout.row_size = offset;
    assert(layout@ =~= LayoutModel::of(w, rows::columns(table), 0, at as int));
    layout
}

/// The columns of a table, of which there are at most the largest number.
fn rows_columns(table: TableId) -> (list: &'static [ColumnKind])
    ensures
        list@ == rows::columns(table),
        1 <= list@.len() <= MAX_COLUMNS,
{
    proof {
        rows::lemma_column_counts(table);
    }
    rows::columns_of(table)
}

/// Which tables have a sort key, by table id.
fn keyed_tables() -> (keyed: [bool; 64])
    ensures
        keyed@ == TablesModel::none().sorted,
{
    let mut keyed: [bool; 64] = [false; 64];
    let mut slot: usize = 0;
    while slot < 64
        invariant
            slot <= 64,
            forall|i: int| 0 <= i < slot ==> #[trigger] keyed@[i] == TablesModel::none().sorted[i],
        decreases 64 - slot,
    {
        keyed[slot] = match TableId::from_u8(slot as u8) {
            Some(table) => sort_key_column(table).is_some(),
            None => false,
        };
        slot = slot + 1;
    }
    assert(keyed@ =~= TablesModel::none().sorted);
    keyed
}

impl<'a> Tables<'a> {
    /// The invariant of the type.
    #[verifier::type_invariant]
    pub open spec fn well_formed(self) -> bool {
        self@.wf()
    }

    /// An empty table stream, used when an image has no `#~` or `#-`.
    pub fn empty() -> (t: Self)
        ensures
            t@ == TablesModel::none(),
    {
        let data: &'a [u8] = &[];
        let layouts: [TableLayout; 64] = [TableLayout::default(); 64];
        let verified_sorted: [bool; 64] = keyed_tables();
        proof {
            assert(data@ =~= Seq::empty());
            assert(layout_models(layouts@) =~= TablesModel::none().layouts);
            assert(verified_sorted@ =~= TablesModel::none().sorted);
            let none = TablesModel::none();
            assert forall|table: TableId| #[trigger] none.layout(table) == LayoutModel::none() by {
                token::lemma_table_numbers(table, 0);
            }
            assert forall|table: TableId|
                none.sorted[table.number() as int] implies #[trigger] none.key_ordered(table) by {
                token::lemma_table_numbers(table, 0);
                assert(none.layout(table) == LayoutModel::none());
            }
            lemma_none_wf(0);
            assert(none.wf());
        }
        Tables {
            data,
            base: 0,
            major_version: 2,
            minor_version: 0,
            heap_sizes: 0,
            valid: 0,
            declared_sorted: 0,
            verified_sorted,
            uncompressed: false,
            extra_data: None,
            layouts,
        }
    }
}

/// The fixed fields at the start of a table stream.
#[derive(Clone, Copy)]
struct StreamHead {
    major_version: u8,
    minor_version: u8,
    heap_sizes: u8,
    valid: u64,
    declared_sorted: u64,
}

impl StreamHead {
    /// The fields are those of `s`.
    spec fn of(self, s: TableStream) -> bool {
        &&& self.major_version == s.data[4]
        &&& self.minor_version == s.data[5]
        &&& self.heap_sizes == s.heap_sizes()
        &&& self.valid == s.valid()
        &&& self.declared_sorted == s.declared_sorted()
    }
}

/// Reads the fixed fields at the start of the stream.
fn read_header(r: &mut Reader, Ghost(s): Ghost<TableStream>) -> (head: Result<StreamHead>)
    requires
        old(r).data@ == s.data,
        old(r).base == s.base,
        old(r).context == CONTEXT,
        old(r).pos == 0,
    ensures
        head matches Ok(h) ==> s.missing_field() is None && h.of(s) && *final(r) == old(
            r,
        ).moved_to(24) && final(r).wf(),
        head matches Err(e) ==> s.parsed() == Err::<TablesModel, Error>(e) && s.noted()
            == Seq::<Diagnostic>::empty(),
{
    let _reserved: u32 = r.u32()?;
    let major_version: u8 = r.u8()?;
    let minor_version: u8 = r.u8()?;
    let heap_sizes: u8 = r.u8()?;
    let _reserved2: u8 = r.u8()?;
    let valid: u64 = r.u64()?;
    let declared_sorted: u64 = r.u64()?;
    Ok(StreamHead { major_version, minor_version, heap_sizes, valid, declared_sorted })
}

/// Reads the declared row counts: one for each set bit of `Valid`, in ascending
/// table order.
fn read_row_counts(
    r: &mut Reader,
    valid: u64,
    strict: bool,
    diagnostics: &mut Vec<Diagnostic>,
    Ghost(s): Ghost<TableStream>,
    Ghost(before): Ghost<Seq<Diagnostic>>,
) -> (counts: Result<[u32; 64]>)
    requires
        s.missing_field() is None,
        s.count_start().failed is None,
        old(r).data@ == s.data,
        old(r).base == s.base,
        old(r).context == CONTEXT,
        old(r).pos == 24,
        valid == s.valid(),
        strict == s.strict,
        old(diagnostics)@ == before + s.count_start().noted,
    ensures
        counts matches Ok(c) ==> {
            &&& s.all_counted().failed is None
            &&& c@ == s.all_counted().counts
            &&& *final(r) == old(r).moved_to(s.all_counted().pos)
            &&& final(r).wf()
            &&& final(diagnostics)@ == before + s.all_counted().noted
        },
        counts matches Err(e) ==> s.parsed() == Err::<TablesModel, Error>(e)
            && final(diagnostics)@ == before + s.noted(),
{
    let mut counts: [u32; 64] = [0; 64];
    let mut slot: usize = 0;
    let ghost first = *r;
    assert(counts@ =~= s.counted(0).counts);
    while slot < TABLE_SLOTS
        invariant
            slot <= TABLE_SLOTS,
            s.missing_field() is None,
            first.data@ == s.data,
            first.base == s.base,
            first.context == CONTEXT,
            valid == s.valid(),
            strict == s.strict,
            s.counted(slot as nat).failed is None,
            counts@ == s.counted(slot as nat).counts,
            *r == first.moved_to(s.counted(slot as nat).pos),
            diagnostics@ == before + s.counted(slot as nat).noted,
        decreases TABLE_SLOTS - slot,
    {
        proof {
            lemma_counted_shape(s, slot as nat);
            if s.counted((slot + 1) as nat).failed is Some {
                lemma_count_failure(s, (slot + 1) as nat);
            }
        }
        if has_bit(valid, slot as u8) {
            let at: usize = r.absolute();
            let count: u32 = r.u32()?;
            match TableId::from_u8(slot as u8) {
                Some(_) => {
                    counts[slot] = count;
                },
                None => {
                    if count != 0 || strict {
                        return Err(Error::new(ErrorKind::Unsupported, at, CONTEXT));
                    }
                    diagnostics.push(
                        Diagnostic::new(DiagnosticCode::ReservedTablePresent, at, slot as u64),
                    );
                    assert(diagnostics@ =~= before + s.counted((slot + 1) as nat).noted);
                },
            }
        }
        slot = slot + 1;
    }
    proof {
        lemma_counted_shape(s, TABLE_SLOTS as nat);
    }
    Ok(counts)
}

/// Places the tables one after the other behind offset `start`.
fn place_tables(
    len: usize,
    base: usize,
    start: usize,
    row_counts: &[u32; 64],
    heap_sizes: u8,
    strict: bool,
    diagnostics: &mut Vec<Diagnostic>,
    Ghost(s): Ghost<TableStream>,
    Ghost(before): Ghost<Seq<Diagnostic>>,
) -> (layouts: Result<[TableLayout; 64]>)
    requires
        s.missing_field() is None,
        s.place_start().failed is None,
        len == s.data.len(),
        base == s.base,
        start == s.place_start().cursor,
        row_counts@ == s.all_counted().counts,
        heap_sizes == s.heap_sizes(),
        strict == s.strict,
        old(diagnostics)@ == before + s.place_start().noted,
    ensures
        layouts matches Ok(l) ==> {
            &&& s.all_placed().failed is None
            &&& layout_models(l@) == s.all_placed().layouts
            &&& final(diagnostics)@ == before + s.all_placed().noted
        },
        layouts matches Err(e) ==> s.parsed() == Err::<TablesModel, Error>(e)
            && final(diagnostics)@ == before + s.noted(),
{
    let mut layouts: [TableLayout; 64] = [TableLayout::default(); 64];
    let mut cursor: usize = start;
    let mut exhausted: bool = false;
    let mut i: usize = 0;
    assert(layout_models(layouts@) =~= s.placed(0).layouts);
    while i < 53
        invariant
            i <= 53,
            s.missing_field() is None,
            len == s.data.len(),
            base == s.base,
            row_counts@ == s.all_counted().counts,
            heap_sizes == s.heap_sizes(),
            strict == s.strict,
            s.placed(i as nat).failed is None,
            layout_models(layouts@) == s.placed(i as nat).layouts,
            cursor == s.placed(i as nat).cursor,
            exhausted == s.placed(i as nat).exhausted,
            diagnostics@ == before + s.placed(i as nat).noted,
        decreases 53 - i,
    {
        let id: TableId = TableId::ALL[i];
        let slot: usize = id.to_u8() as usize;
        let ghost p = s.placed(i as nat);
        proof {
            token::lemma_table_numbers(id, 0);
            lemma_placed_shape(s, i as nat);
            lemma_layout_fits(s, id, cursor as int, len - cursor, exhausted);
            assert(s.placed((i + 1) as nat) == s.place_step(p, id));
            if s.placed((i + 1) as nat).failed is Some {
                lemma_place_failure(s, (i + 1) as nat);
            }
        }
        let ghost w = s.widths();
        let ghost columns = rows::columns(id);
        let mut layout = empty_layout(id, row_counts, heap_sizes, cursor);
        let mut count: u32 = row_counts[slot];
        if count > 0 {
            let available: usize = len - cursor;
            let needed: u64 = (count as u64) * (layout.row_size as u64);
            if exhausted || needed > available as u64 {
                if strict {
                    return Err(
                        Error::new(ErrorKind::Truncated, base.saturating_add(cursor), CONTEXT),
                    );
                }
                diagnostics.push(
                    Diagnostic::new(
                        DiagnosticCode::StreamRangeClamped,
                        base.saturating_add(cursor),
                        needed,
                    ),
                );
                let fitting: u64 = available as u64 / layout.row_size as u64;
                if fitting < count as u64 {
                    count = fitting as u32;
                }
                exhausted = true;
                assert(diagnostics@ =~= before + s.placed((i + 1) as nat).noted);
            }
        }
        layout.row_count = count;
        assert(layout@ =~= LayoutModel::of(w, columns, count, cursor as int));
        proof {
            let size = layout.row_size as int;
            if w.count(id) == 0 {
                assert(count * size == 0) by (nonlinear_arith)
                    requires
                        count == 0,
                ;
            }
            assert(layout@.bytes() == count * size);
            assert(count * size <= len - cursor);
        }
        cursor = cursor + layout.byte_size();
        layouts[slot] = layout;
        assert(layout_models(layouts@) =~= p.layouts.update(slot as int, layout@));
        i = i + 1;
    }
    Ok(layouts)
}

impl<'a> Tables<'a> {
    /// Parses a table stream.
    ///
    /// `base` is the absolute offset of `data` in the input, used for error and
    /// diagnostic offsets. `uncompressed` selects `#-` semantics, which only
    /// affects how the stream is reported; the binary layout is identical.
    pub fn parse(
        data: &'a [u8],
        base: usize,
        uncompressed: bool,
        strictness: Strictness,
        diagnostics: &mut Vec<Diagnostic>,
    ) -> (r: Result<Self>)
        ensures
            ({
                let s = TableStream {
                    data: data@,
                    base,
                    uncompressed,
                    strict: strictness is Strict,
                };
                &&& r matches Ok(t) ==> s.parsed() == Ok::<TablesModel, Error>(t@) && t@.wf()
                &&& r matches Err(e) ==> s.parsed() == Err::<TablesModel, Error>(e)
                &&& final(diagnostics)@ == old(diagnostics)@ + s.noted()
            }),
    {
        let ghost s = TableStream {
            data: data@,
            base,
            uncompressed,
            strict: strictness is Strict,
        };
        let ghost before = diagnostics@;
        assert(before + Seq::<Diagnostic>::empty() =~= before);
        let strict: bool = strictness.is_strict();
        let mut r = Reader::new(data, base, CONTEXT);
        let header = read_header(&mut r, Ghost(s))?;
        if header.heap_sizes / 0x10 % 2 == 1 {
            if strict {
                proof {
                    lemma_count_failure(s, 0);
                }
                return Err(Error::new(ErrorKind::Malformed, base.saturating_add(6), CONTEXT));
            }
            diagnostics.push(
                Diagnostic::new(
                    DiagnosticCode::UnknownHeapSizeBits,
                    base.saturating_add(6),
                    header.heap_sizes as u64,
                ),
            );
        }
        assert(diagnostics@ =~= before + s.count_start().noted);
        // Row counts: one u32 per set bit of `Valid`, in ascending table order.
        let row_counts: [u32; 64] = read_row_counts(
            &mut r,
            header.valid,
            strict,
            diagnostics,
            Ghost(s),
            Ghost(before),
        )?;
        proof {
            lemma_counted_shape(s, TABLE_SLOTS as nat);
            if s.place_start().failed is Some {
                lemma_place_failure(s, 0);
            }
        }
        let extra_data: Option<u32> = if header.heap_sizes / 0x40 % 2 == 1 {
            Some(r.u32()?)
        } else {
            None
        };
        let layouts: [TableLayout; 64] = place_tables(
            data.len(),
            base,
            r.position(),
            &row_counts,
            header.heap_sizes,
            strict,
            diagnostics,
            Ghost(s),
            Ghost(before),
        )?;
        let mut tables = Tables::unsorted(data, base, uncompressed, header, extra_data, layouts, Ghost(s));
        let verified_sorted: [bool; 64] = tables.verify_sortedness(
            strict,
            diagnostics,
            Ghost(s),
            Ghost(before),
        )?;
        proof {
            lemma_parsed_wf(s);
            assert(TablesModel { sorted: verified_sorted@, ..tables@ } =~= s.model(
                s.all_sorted().sorted,
            ));
        }
        tables.verified_sorted = verified_sorted;
        Ok(tables)
    }

    /// The stream before any table counts as sorted.
    fn unsorted(
        data: &'a [u8],
        base: usize,
        uncompressed: bool,
        header: StreamHead,
        extra_data: Option<u32>,
        layouts: [TableLayout; 64],
        Ghost(s): Ghost<TableStream>,
    ) -> (t: Self)
        requires
            s.missing_field() is None,
            s.all_placed().failed is None,
            data@ == s.data,
            base == s.base,
            uncompressed == s.uncompressed,
            header.of(s),
            extra_data == s.model(TableStream::none_sorted()).extra_data,
            layout_models(layouts@) == s.all_placed().layouts,
        ensures
            t@ == s.model(TableStream::none_sorted()),
    {
        let verified_sorted: [bool; 64] = [false; 64];
        proof {
            assert(data.len() == s.data.len());
            lemma_unsorted_wf(s);
            assert(verified_sorted@ =~= TableStream::none_sorted());
        }
        Tables {
            data,
            base,
            major_version: header.major_version,
            minor_version: header.minor_version,
            heap_sizes: header.heap_sizes,
            valid: header.valid,
            declared_sorted: header.declared_sorted,
            verified_sorted,
            uncompressed,
            extra_data,
            layouts,
        }
    }

    /// Tells which tables that have a sort key are ordered by it.
    fn verify_sortedness(
        &self,
        strict: bool,
        diagnostics: &mut Vec<Diagnostic>,
        Ghost(s): Ghost<TableStream>,
        Ghost(before): Ghost<Seq<Diagnostic>>,
    ) -> (r: Result<[bool; 64]>)
        requires
            self@ == s.model(TableStream::none_sorted()),
            s.missing_field() is None,
            s.all_placed().failed is None,
            strict == s.strict,
            old(diagnostics)@ == before + s.all_placed().noted,
        ensures
            r matches Ok(sorted) ==> s.all_sorted().failed is None && sorted@
                == s.all_sorted().sorted,
            r matches Err(e) ==> s.parsed() == Err::<TablesModel, Error>(e),
            final(diagnostics)@ == before + s.noted(),
    {
        let mut sorted: [bool; 64] = [false; 64];
        assert(sorted@ =~= s.sorted(0).sorted);
        let mut i: usize = 0;
        while i < 53
            invariant
                i <= 53,
                self@ == s.model(TableStream::none_sorted()),
                s.missing_field() is None,
                strict == s.strict,
                s.sorted(i as nat).failed is None,
                sorted@ == s.sorted(i as nat).sorted,
                diagnostics@ == before + s.sorted(i as nat).noted,
            decreases 53 - i,
        {
            let id: TableId = TableId::ALL[i];
            proof {
                token::lemma_table_numbers(id, 0);
                assert(s.sorted((i + 1) as nat) == s.sort_step(s.sorted(i as nat), id));
                if s.sorted((i + 1) as nat).failed is Some {
                    lemma_sort_failure_stays(s, (i + 1) as nat, 53);
                }
            }
            if let Some(column) = sort_key_column(id) {
                if self.is_ordered(id, column) {
                    sorted[id.to_u8() as usize] = true;
                } else {
                    if strict && self.is_declared_sorted(id) {
                        return Err(Error::new(ErrorKind::Malformed, self.base, id.name()));
                    }
                    diagnostics.push(
                        Diagnostic::new(
                            DiagnosticCode::TableNotSorted,
                            self.base,
                            id.to_u8() as u64,
                        ),
                    );
                    assert(diagnostics@ =~= before + s.sorted((i + 1) as nat).noted);
                }
            }
            i = i + 1;
        }
        Ok(sorted)
    }

    /// Tells whether a key column never decreases from row to row.
    fn is_ordered(&self, table: TableId, column: usize) -> (ordered: bool)
        requires
            lookup::sort_key(table) == Some(column),
        ensures
            ordered == self@.ordered(table, column as int),
    {
        proof {
            use_type_invariant(self);
            lookup::lemma_sort_key_within(table);
            assert(self@.layout(table).row_count > 0 ==> self@.layout(table).column_count
                == rows::columns(table).len());
        }
        let count: u32 = self.row_count(table);
        if count <= 1 {
            return true;
        }
        let mut previous: u32 = self.cell(table, 1, column);
        let mut rid: u32 = 1;
        while rid < count
            invariant
                1 <= rid <= count,
                count == self@.row_count(table),
                column < self@.layout(table).column_count,
                previous == self@.cell(table, rid, column as int),
                forall|i: u32, j: u32|
                    1 <= i <= j <= rid ==> #[trigger] self@.cell(table, i, column as int)
                        <= #[trigger] self@.cell(table, j, column as int),
            decreases count - rid,
        {
            let value: u32 = self.cell(table, rid + 1, column);
            if value < previous {
                return false;
            }
            previous = value;
            rid = rid + 1;
        }
        true
    }

    /// The raw value of a column that is there.
    fn cell(&self, table: TableId, rid: u32, column: usize) -> (value: u32)
        requires
            self@.has_row(table, rid),
            column < self@.layout(table).column_count,
        ensures
            value == self@.cell(table, rid, column as int),
    {
        match self.raw_column(table, rid, column) {
            Ok(value) => value,
            Err(_) => 0,
        }
    }

    /// The raw stream bytes.
    pub fn data(&self) -> (data: &'a [u8])
        ensures
            data@ == self@.data,
    {
        self.data
    }

    /// The absolute offset of the stream in the parsed input.
    pub fn base(&self) -> (base: usize)
        ensures
            base == self@.base,
    {
        self.base
    }

    /// The stream schema major version, normally 2.
    pub fn major_version(&self) -> (version: u8)
        ensures
            version == self@.major_version,
    {
        self.major_version
    }

    /// The stream schema minor version, normally 0.
    pub fn minor_version(&self) -> (version: u8)
        ensures
            version == self@.minor_version,
    {
        self.minor_version
    }

    /// The raw `HeapSizes` byte.
    pub fn heap_sizes(&self) -> (sizes: u8)
        ensures
            sizes == self@.heap_sizes,
    {
        self.heap_sizes
    }

    /// True when `#Strings` indices are 4 bytes wide.
    pub fn strings_wide(&self) -> (wide: bool)
        ensures
            wide == (self@.heap_sizes % 2 == 1),
    {
        self.heap_sizes % 2 == 1
    }

    /// True when `#GUID` indices are 4 bytes wide.
    pub fn guids_wide(&self) -> (wide: bool)
        ensures
            wide == (self@.heap_sizes / 2 % 2 == 1),
    {
        self.heap_sizes / 2 % 2 == 1
    }

    /// True when `#Blob` indices are 4 bytes wide.
    pub fn blobs_wide(&self) -> (wide: bool)
        ensures
            wide == (self@.heap_sizes / 4 % 2 == 1),
    {
        self.heap_sizes / 4 % 2 == 1
    }

    /// True when the stream was `#-` rather than `#~`.
    pub fn is_uncompressed(&self) -> (uncompressed: bool)
        ensures
            uncompressed == self@.uncompressed,
    {
        self.uncompressed
    }

    /// The extra 4 bytes present when `HeapSizes` bit `0x40` is set.
    pub fn extra_data(&self) -> (extra: Option<u32>)
        ensures
            extra == self@.extra_data,
    {
        self.extra_data
    }

    /// The raw `Valid` bitvector.
    pub fn valid_bits(&self) -> (bits: u64)
        ensures
            bits == self@.valid,
    {
        self.valid
    }

    /// The raw `Sorted` bitvector.
    pub fn sorted_bits(&self) -> (bits: u64)
        ensures
            bits == self@.declared_sorted,
    {
        self.declared_sorted
    }

    /// True when the `Valid` bitvector marks this table present.
    pub fn is_present(&self, table: TableId) -> (present: bool)
        ensures
            present == bit(self@.valid, table.number() as int),
    {
        proof {
            token::lemma_table_numbers(table, 0);
        }
        has_bit(self.valid, table.to_u8())
    }

    /// True when the `Sorted` bitvector marks this table sorted.
    pub fn is_declared_sorted(&self, table: TableId) -> (sorted: bool)
        ensures
            sorted == bit(self@.declared_sorted, table.number() as int),
    {
        proof {
            token::lemma_table_numbers(table, 0);
        }
        has_bit(self.declared_sorted, table.to_u8())
    }

    /// True when this table has a sort key and its rows really are ordered.
    ///
    /// Lookups fall back to a linear scan when this is false, so results stay
    /// correct on images whose `Sorted` bitvector lies.
    pub fn is_sorted(&self, table: TableId) -> (sorted: bool)
        ensures
            sorted == self@.sorted[table.number() as int],
            sorted ==> lookup::sort_key(table) is Some,
            sorted ==> self@.key_ordered(table),
    {
        proof {
            use_type_invariant(self);
            token::lemma_table_numbers(table, 0);
        }
        assert(self@.sorted[table.number() as int] ==> self@.key_ordered(table));
        self.verified_sorted[table.to_u8() as usize]
    }

    /// The number of rows in a table.
    pub fn row_count(&self, table: TableId) -> (count: u32)
        ensures
            count == self@.row_count(table),
    {
        self.layout(table).row_count
    }

    /// The number of logically addressable rows, which is the `*Ptr` table row
    /// count when an indirection table is present.
    pub fn logical_row_count(&self, table: TableId) -> (count: u32)
        ensures
            count == self@.logical_row_count(table),
    {
        match table.ptr_source() {
            Some(ptr) => {
                let redirected: u32 = self.row_count(ptr);
                if redirected > 0 {
                    redirected
                } else {
                    self.row_count(table)
                }
            },
            None => self.row_count(table),
        }
    }

    /// The computed layout of a table.
    pub fn layout(&self, table: TableId) -> (layout: &TableLayout)
        ensures
            layout@ == self@.layout(table),
    {
        proof {
            token::lemma_table_numbers(table, 0);
        }
        &self.layouts[table.to_u8() as usize]
    }

    /// The bytes of one row, by 1-based RID.
    pub fn row_bytes(&self, table: TableId, rid: u32) -> (r: Result<&'a [u8]>)
        ensures
            r is Ok == self@.has_row(table, rid),
            r matches Ok(bytes) ==> ({
                let l = self@.layout(table);
                bytes@ == self@.data.subrange(l.row_start(rid), l.row_start(rid) + l.row_size)
            }),
            r matches Err(e) ==> e == self@.no_row(table),
    {
        let layout = self.layout(table);
        if rid == 0 || rid > layout.row_count {
            return Err(Error::new(ErrorKind::OutOfRange, self.base, table.name()));
        }
        proof {
            use_type_invariant(self);
            token::lemma_table_numbers(table, 0);
            lemma_row_within(layout@, rid);
            assert(self.layouts@[table.number() as int]@.wf(self.data.len() as int));
            assert((rid - 1) * layout.row_size >= 0) by (nonlinear_arith)
                requires
                    rid >= 1,
            ;
        }
        let size: usize = layout.row_size as usize;
        let start: usize = layout.data_offset + (rid as usize - 1) * size;
        Ok(&self.data[start..start + size])
    }

    /// Decodes one row without applying any `*Ptr` indirection.
    pub fn row<R: TableRow>(&self, rid: u32) -> (r: Result<R>)
        ensures
            r == self@.row::<R>(rid),
    {
        proof {
            R::lemma_table();
        }
        let layout: TableLayout = *self.layout(R::TABLE);
        let bytes = self.row_bytes(R::TABLE, rid)?;
        proof {
            use_type_invariant(self);
            token::lemma_table_numbers(R::table(), 0);
            lemma_row_within(layout@, rid);
            assert(self.layouts@[R::table().number() as int]@.wf(self.data.len() as int));
            assert((rid - 1) * layout.row_size >= 0) by (nonlinear_arith)
                requires
                    rid >= 1,
            ;
        }
        let start: usize = layout.data_offset + (rid as usize - 1) * (layout.row_size as usize);
        let mut cursor = RowCursor {
            bytes,
            layout,
            column: 0,
            base: self.base.saturating_add(start),
        };
        proof {
            let m = self@.row_model(R::table(), rid);
            assert forall|i: int| 0 <= i < layout.column_count implies #[trigger] layout@.cell(
                bytes@,
                0,
                i,
            ) == self@.cell(R::table(), rid, i) by {
                assert(layout@.widths[i] == 2 || layout@.widths[i] == 4);
            }
            assert(cursor@ =~= m);
        }
        R::decode(&mut cursor)
    }

    /// Decodes one row, following the `*Ptr` indirection when present.
    pub fn row_indirect<R: TableRow>(&self, rid: u32) -> (r: Result<R>)
        ensures
            r == self@.row_indirect::<R>(rid),
    {
        proof {
            R::lemma_table();
        }
        let physical: u32 = self.resolve_indirection(R::TABLE, rid)?;
        self.row::<R>(physical)
    }

    /// Maps a logical RID through the matching `*Ptr` table, if there is one.
    pub fn resolve_indirection(&self, table: TableId, rid: u32) -> (r: Result<u32>)
        ensures
            r == self@.resolved(table, rid),
    {
        let ptr: TableId = match table.ptr_source() {
            Some(ptr) => ptr,
            None => {
                return Ok(rid);
            },
        };
        if self.row_count(ptr) == 0 {
            return Ok(rid);
        }
        proof {
            use_type_invariant(self);
            assert(self@.layout(ptr).column_count == rows::columns(ptr).len());
        }
        self.raw_column(ptr, rid, 0)
    }

    /// Reads one raw column value of a row, without decoding it.
    pub fn raw_column(&self, table: TableId, rid: u32, column: usize) -> (r: Result<u32>)
        ensures
            r == self@.column_value(table, rid, column),
    {
        let layout = self.layout(table);
        if column >= layout.column_count as usize {
            return Err(Error::new(ErrorKind::OutOfRange, self.base, table.name()));
        }
        let bytes = self.row_bytes(table, rid)?;
        proof {
            use_type_invariant(self);
            token::lemma_table_numbers(table, 0);
            lemma_row_within(layout@, rid);
            assert(self.layouts@[table.number() as int]@.wf(self.data.len() as int));
            assert(layout@.widths[column as int] == 2 || layout@.widths[column as int] == 4);
        }
        let offset: usize = layout.column_offsets[column] as usize;
        match read_uint_at(bytes, offset, layout.column_widths[column]) {
            Some(value) => Ok(value),
            None => Err(Error::new(ErrorKind::Truncated, self.base, table.name())),
        }
    }

    /// Iterates every row of a table in RID order, without indirection.
    pub fn iter<R: TableRow>(&self) -> (it: RowIter<'_, 'a, R>)
        ensures
            it.tables() == self@,
            it.position() == 1,
            it.count() == self@.row_count(R::table()),
    {
        proof {
            R::lemma_table();
        }
        RowIter { tables: self, rid: 1, count: self.row_count(R::TABLE), _row: PhantomData }
    }

    /// Iterates every logical row of a table, applying `*Ptr` indirection.
    pub fn iter_indirect<R: TableRow>(&self) -> (it: IndirectRowIter<'_, 'a, R>)
        ensures
            it.tables() == self@,
            it.position() == 1,
            it.count() == self@.logical_row_count(R::table()),
    {
        proof {
            R::lemma_table();
        }
        IndirectRowIter {
            tables: self,
            rid: 1,
            count: self.logical_row_count(R::TABLE),
            _row: PhantomData,
        }
    }
}

/// Iterator over the rows of one table; see [`Tables::iter`].
#[derive(Debug)]
pub struct RowIter<'t, 'a, R> {
    tables: &'t Tables<'a>,
    rid: u64,
    count: u32,
    _row: PhantomData<R>,
}

impl<'t, 'a, R> RowIter<'t, 'a, R> {
    /// The tables being walked.
    pub closed spec fn tables(self) -> TablesModel {
        self.tables@
    }

    /// The RID of the next row.
    pub closed spec fn position(self) -> int {
        self.rid as int
    }

    /// The RID of the last row.
    pub closed spec fn count(self) -> u32 {
        self.count
    }
}

impl<'t, 'a, R: TableRow> RowIter<'t, 'a, R> {
    /// The next row with its RID.
    pub fn next(&mut self) -> (r: Option<(u32, Result<R>)>)
        ensures
            final(self).tables() == old(self).tables(),
            final(self).count() == old(self).count(),
            old(self).position() > old(self).count() ==> r is None && final(self).position() == old(
                self,
            ).position(),
            old(self).position() <= old(self).count() ==> r == Some(
                (
                    old(self).position() as u32,
                    old(self).tables().row::<R>(old(self).position() as u32),
                ),
            ) && final(self).position() == old(self).position() + 1,
    {
        if self.rid > self.count as u64 {
            return None;
        }
        let rid: u32 = self.rid as u32;
        self.rid = self.rid + 1;
        Some((rid, self.tables.row::<R>(rid)))
    }

    /// The number of rows that are left.
    pub fn len(&self) -> (n: usize)
        ensures
            n == (if self.position() > self.count() {
                0
            } else {
                self.count() - self.position() + 1
            }) as usize,
    {
        if self.rid > self.count as u64 {
            0
        } else {
            (self.count as u64 - self.rid + 1) as usize
        }
    }
}

/// Iterator over the logical rows of one table; see [`Tables::iter_indirect`].
#[derive(Debug)]
pub struct IndirectRowIter<'t, 'a, R> {
    tables: &'t Tables<'a>,
    rid: u64,
    count: u32,
    _row: PhantomData<R>,
}

impl<'t, 'a, R> IndirectRowIter<'t, 'a, R> {
    /// The tables being walked.
    pub closed spec fn tables(self) -> TablesModel {
        self.tables@
    }

    /// The RID of the next row.
    pub closed spec fn position(self) -> int {
        self.rid as int
    }

    /// The RID of the last row.
    pub closed spec fn count(self) -> u32 {
        self.count
    }
}

impl<'t, 'a, R: TableRow> IndirectRowIter<'t, 'a, R> {
    /// The next row with its RID.
    pub fn next(&mut self) -> (r: Option<(u32, Result<R>)>)
        ensures
            final(self).tables() == old(self).tables(),
            final(self).count() == old(self).count(),
            old(self).position() > old(self).count() ==> r is None && final(self).position() == old(
                self,
            ).position(),
            old(self).position() <= old(self).count() ==> r == Some(
                (
                    old(self).position() as u32,
                    old(self).tables().row_indirect::<R>(old(self).position() as u32),
                ),
            ) && final(self).position() == old(self).position() + 1,
    {
        if self.rid > self.count as u64 {
            return None;
        }
        let rid: u32 = self.rid as u32;
        self.rid = self.rid + 1;
        Some((rid, self.tables.row_indirect::<R>(rid)))
    }

    /// The number of rows that are left.
    pub fn len(&self) -> (n: usize)
        ensures
            n == (if self.position() > self.count() {
                0
            } else {
                self.count() - self.position() + 1
            }) as usize,
    {
        if self.rid > self.count as u64 {
            0
        } else {
            (self.count as u64 - self.rid + 1) as usize
        }
    }
}

impl TableStream {
    /// The same stream, with deviations rejected or not.
    pub open spec fn with_strict(self, strict: bool) -> TableStream {
        TableStream { strict, ..self }
    }

    /// The same stream, starting at another offset of the input.
    pub open spec fn rebased(self, base: usize) -> TableStream {
        TableStream { base, ..self }
    }
}

proof fn lemma_strict_counted(s: TableStream, n: nat)
    requires
        s.with_strict(true).counted(n).failed is None,
    ensures
        s.with_strict(false).counted(n) == s.with_strict(true).counted(n),
    decreases n,
{
    if n > 0 {
        lemma_strict_counted(s, (n - 1) as nat);
    }
}

proof fn lemma_strict_placed(s: TableStream, n: nat)
    requires
        s.with_strict(true).all_counted().failed is None,
        s.with_strict(true).placed(n).failed is None,
    ensures
        s.with_strict(false).placed(n) == s.with_strict(true).placed(n),
    decreases n,
{
    lemma_strict_counted(s, TABLE_SLOTS as nat);
    if n > 0 {
        lemma_strict_placed(s, (n - 1) as nat);
    }
}

proof fn lemma_strict_sorted(s: TableStream, n: nat)
    requires
        s.with_strict(true).all_counted().failed is None,
        s.with_strict(true).all_placed().failed is None,
        s.with_strict(true).sorted(n).failed is None,
    ensures
        s.with_strict(false).sorted(n) == s.with_strict(true).sorted(n),
    decreases n,
{
    lemma_strict_counted(s, TABLE_SLOTS as nat);
    lemma_strict_placed(s, 53);
    assert(s.with_strict(false).model(TableStream::none_sorted()) == s.with_strict(true).model(
        TableStream::none_sorted(),
    ));
    if n > 0 {
        lemma_strict_sorted(s, (n - 1) as nat);
    }
}

/// A table stream that parses with deviations rejected parses to the same
/// tables, with the same notes, where they are accepted.
pub proof fn lemma_strict_tables_parse_permissively(s: TableStream)
    ensures
        s.with_strict(true).parsed() matches Ok(m) ==> s.with_strict(false).parsed() == Ok::<
            TablesModel,
            Error,
        >(m) && s.with_strict(false).noted() == s.with_strict(true).noted(),
{
    let strict = s.with_strict(true);
    if strict.parsed() is Ok {
        if strict.all_placed().failed is Some {
            lemma_place_failure(strict, 53);
        }
        if strict.all_counted().failed is Some {
            lemma_count_failure(strict, TABLE_SLOTS as nat);
        }
        lemma_strict_counted(s, TABLE_SLOTS as nat);
        lemma_strict_placed(s, 53);
        lemma_strict_sorted(s, 53);
    }
}

proof fn lemma_rebased_counted(s: TableStream, base: usize, n: nat)
    ensures
        ({
            let a = s.counted(n);
            let b = s.rebased(base).counted(n);
            a.counts == b.counts && a.pos == b.pos && (a.failed is Some == b.failed is Some)
        }),
    decreases n,
{
    if n > 0 {
        lemma_rebased_counted(s, base, (n - 1) as nat);
    }
}

proof fn lemma_rebased_placed(s: TableStream, base: usize, n: nat)
    ensures
        ({
            let a = s.placed(n);
            let b = s.rebased(base).placed(n);
            a.layouts == b.layouts && a.cursor == b.cursor && a.exhausted == b.exhausted && (
            a.failed is Some == b.failed is Some)
        }),
    decreases n,
{
    lemma_rebased_counted(s, base, TABLE_SLOTS as nat);
    if n > 0 {
        lemma_rebased_placed(s, base, (n - 1) as nat);
    }
}

/// Which tables are ordered does not depend on where the stream starts.
proof fn lemma_rebased_ordered(m: TablesModel, base: usize, table: TableId)
    ensures
        m.key_ordered(table) == (TablesModel { base, ..m }).key_ordered(table),
{
    let other = TablesModel { base, ..m };
    if let Some(column) = lookup::sort_key(table) {
        assert forall|i: u32| #[trigger] m.cell(table, i, column as int) == other.cell(
            table,
            i,
            column as int,
        ) by {
        }
        if m.ordered(table, column as int) {
            assert forall|i: u32, j: u32| 1 <= i <= j <= other.row_count(table) implies
                #[trigger] other.cell(table, i, column as int) <= #[trigger] other.cell(
                table,
                j,
                column as int,
            ) by {
                assert(m.cell(table, i, column as int) <= m.cell(table, j, column as int));
            }
        }
        if other.ordered(table, column as int) {
            assert forall|i: u32, j: u32| 1 <= i <= j <= m.row_count(table) implies
                #[trigger] m.cell(table, i, column as int) <= #[trigger] m.cell(
                table,
                j,
                column as int,
            ) by {
                assert(other.cell(table, i, column as int) <= other.cell(table, j, column as int));
            }
        }
    }
}

proof fn lemma_rebased_sorted(s: TableStream, base: usize, n: nat)
    ensures
        ({
            let a = s.sorted(n);
            let b = s.rebased(base).sorted(n);
            a.sorted == b.sorted && (a.failed is Some == b.failed is Some)
        }),
    decreases n,
{
    lemma_rebased_counted(s, base, TABLE_SLOTS as nat);
    lemma_rebased_placed(s, base, 53);
    let m = s.model(TableStream::none_sorted());
    assert(s.rebased(base).model(TableStream::none_sorted()) == TablesModel { base, ..m });
    if n > 0 {
        lemma_rebased_sorted(s, base, (n - 1) as nat);
        lemma_rebased_ordered(m, base, TableId::ALL@[n - 1]);
    }
}

/// Where a table stream starts in the input matters only for the offsets that
/// errors and notes carry: from any start it parses to the same tables.
pub proof fn lemma_tables_independent_of_base(s: TableStream, base: usize)
    ensures
        s.parsed() is Ok == s.rebased(base).parsed() is Ok,
        s.parsed() matches Ok(m) ==> s.rebased(base).parsed() == Ok::<TablesModel, Error>(
            TablesModel { base, ..m },
        ),
{
    lemma_rebased_counted(s, base, TABLE_SLOTS as nat);
    lemma_rebased_placed(s, base, 53);
    lemma_rebased_sorted(s, base, 53);
}

/// True when `notes` say that a range was clamped.
pub open spec fn clamping_noted(notes: Seq<Diagnostic>) -> bool {
    exists|i: int| 0 <= i < notes.len() && (#[trigger] notes[i]).code is StreamRangeClamped
}

/// A note stays where more are added.
proof fn lemma_clamping_stays(notes: Seq<Diagnostic>, more: Diagnostic)
    ensures
        clamping_noted(notes) || more.code is StreamRangeClamped ==> clamping_noted(
            notes.push(more),
        ),
{
    let all = notes.push(more);
    if more.code is StreamRangeClamped {
        assert(all[notes.len() as int].code is StreamRangeClamped);
    } else if clamping_noted(notes) {
        let i = choose|i: int|
            0 <= i < notes.len() && (#[trigger] notes[i]).code is StreamRangeClamped;
        assert(all[i].code is StreamRangeClamped);
    }
}

/// The table number `k` has no more rows than declared once it is placed, and
/// where it has fewer, that is noted.
proof fn lemma_placed_counts(s: TableStream, n: nat, k: int)
    requires
        s.missing_field() is None,
        s.placed(n).failed is None,
        s.data.len() <= usize::MAX,
        0 <= k < n <= 53,
    ensures
        ({
            let table = TableId::ALL@[k];
            let count = s.placed(n).layouts[table.number() as int].row_count;
            &&& count <= s.widths().count(table)
            &&& count < s.widths().count(table) ==> clamping_noted(s.placed(n).noted)
        }),
    decreases n,
{
    let p = s.placed((n - 1) as nat);
    let table = TableId::ALL@[k];
    let last = TableId::ALL@[n - 1];
    assert(s.placed(n) == s.place_step(p, last));
    assert(p.failed is None);
    lemma_placed_shape(s, (n - 1) as nat);
    lemma_place_step_counts(s, p, last);
    if k < n - 1 {
        lemma_placed_counts(s, (n - 1) as nat, k);
        token::lemma_all_tables(table);
    }
}

/// The same of one step: a table is given no more rows than declared, where it
/// is given fewer that is noted, and the others stay as they are.
#[verifier::spinoff_prover]
proof fn lemma_place_step_counts(s: TableStream, p: PlaceState, table: TableId)
    requires
        s.data.len() <= usize::MAX,
        p.failed is None,
        s.place_step(p, table).failed is None,
        p.layouts.len() == TABLE_SLOTS,
        0 <= p.cursor <= s.data.len(),
    ensures
        ({
            let q = s.place_step(p, table);
            let count = q.layouts[table.number() as int].row_count;
            &&& count <= s.widths().count(table)
            &&& count < s.widths().count(table) ==> clamping_noted(q.noted)
            &&& clamping_noted(p.noted) ==> clamping_noted(q.noted)
            &&& forall|slot: int|
                0 <= slot < TABLE_SLOTS && slot != table.number() ==> #[trigger] q.layouts[slot]
                    == p.layouts[slot]
        }),
{
    let w = s.widths();
    let columns = rows::columns(table);
    let size = w.sum(columns, columns.len());
    let available = s.data.len() - p.cursor;
    token::lemma_table_numbers(table, 0);
    lemma_layout_fits(s, table, p.cursor, available, p.exhausted);
    assert(available / size >= 0) by (nonlinear_arith)
        requires
            available >= 0,
            size > 0,
    ;
    let note = Diagnostic::at(
        DiagnosticCode::StreamRangeClamped,
        s.absolute(p.cursor),
        (w.count(table) * size) as u64,
    );
    lemma_clamping_stays(p.noted, note);
}

/// Clamping never adds rows: no table has more than the stream declares for it,
/// and where one has fewer, that is noted.
pub proof fn lemma_rows_within_declared(s: TableStream, table: TableId)
    requires
        s.data.len() <= usize::MAX,
    ensures
        s.parsed() matches Ok(m) ==> {
            &&& m.row_count(table) <= s.all_counted().counts[table.number() as int]
            &&& m.row_count(table) < s.all_counted().counts[table.number() as int]
                ==> clamping_noted(s.noted())
        },
{
    if let Ok(m) = s.parsed() {
        if s.all_placed().failed is Some {
            lemma_place_failure(s, 53);
        }
        token::lemma_all_tables(table);
        let k = choose|k: int| 0 <= k < TableId::ALL@.len() && TableId::ALL@[k] == table;
        lemma_placed_counts(s, 53, k);
        lemma_sort_keeps_notes(s, 53);
    }
}

/// Looking at the order of the tables keeps what is noted.
proof fn lemma_sort_keeps_notes(s: TableStream, n: nat)
    requires
        n <= 53,
    ensures
        clamping_noted(s.all_placed().noted) ==> clamping_noted(s.sorted(n).noted),
    decreases n,
{
    if n > 0 {
        lemma_sort_keeps_notes(s, (n - 1) as nat);
        let p = s.sorted((n - 1) as nat);
        let q = s.sorted(n);
        assert(q == s.sort_step(p, TableId::ALL@[n - 1]));
        if q.noted.len() > p.noted.len() {
            lemma_clamping_stays(p.noted, q.noted.last());
            assert(q.noted =~= p.noted.push(q.noted.last()));
        }
    }
}

/// True when all that is noted is that tables that are not declared sorted are
/// not.
pub open spec fn only_order_noted(notes: Seq<Diagnostic>, declared: u64) -> bool {
    forall|i: int|
        0 <= i < notes.len() ==> (#[trigger] notes[i]).code is TableNotSorted && !bit(
            declared,
            notes[i].detail as int,
        )
}

proof fn lemma_strict_counted_notes(s: TableStream, n: nat)
    requires
        s.strict,
    ensures
        s.counted(n).noted.len() == 0,
    decreases n,
{
    if n > 0 {
        lemma_strict_counted_notes(s, (n - 1) as nat);
    }
}

proof fn lemma_strict_placed_notes(s: TableStream, n: nat)
    requires
        s.strict,
    ensures
        s.placed(n).noted.len() == 0,
    decreases n,
{
    lemma_strict_counted_notes(s, TABLE_SLOTS as nat);
    if n > 0 {
        lemma_strict_placed_notes(s, (n - 1) as nat);
    }
}

proof fn lemma_strict_sorted_notes(s: TableStream, n: nat)
    requires
        s.strict,
        n <= 53,
    ensures
        only_order_noted(s.sorted(n).noted, s.declared_sorted()),
    decreases n,
{
    lemma_strict_placed_notes(s, 53);
    if n > 0 {
        lemma_strict_sorted_notes(s, (n - 1) as nat);
        token::lemma_table_numbers(TableId::ALL@[n - 1], 0);
    }
}

/// With deviations rejected, all that is ever noted is that a table that is not
/// declared sorted is not.
pub proof fn lemma_strict_tables_note_order(s: TableStream)
    requires
        s.strict,
    ensures
        only_order_noted(s.noted(), s.declared_sorted()),
{
    lemma_strict_sorted_notes(s, 53);
}

proof fn lemma_shifted_counted(s: TableStream, base: usize, n: nat)
    requires
        s.base == 0,
    ensures
        ({
            let a = s.counted(n);
            let b = s.rebased(base).counted(n);
            &&& a.counts == b.counts
            &&& a.pos == b.pos
            &&& a.pos >= 24
            &&& b.noted == error::shifted(a.noted, base)
            &&& b.failed == error::shifted_failure(a.failed, base)
        }),
    decreases n,
{
    if n > 0 {
        lemma_shifted_counted(s, base, (n - 1) as nat);
        error::lemma_shifted_offset(base, s.counted((n - 1) as nat).pos);
    } else {
        error::lemma_shifted_offset(base, 6);
    }
    assert(s.rebased(base).counted(n).noted =~= error::shifted(s.counted(n).noted, base));
}

proof fn lemma_shifted_placed(s: TableStream, base: usize, n: nat)
    requires
        s.base == 0,
        s.missing_field() is None,
        s.data.len() <= usize::MAX,
        n <= 53,
    ensures
        ({
            let a = s.placed(n);
            let b = s.rebased(base).placed(n);
            &&& a.layouts == b.layouts
            &&& a.cursor == b.cursor
            &&& a.exhausted == b.exhausted
            &&& b.noted == error::shifted(a.noted, base)
            &&& b.failed == error::shifted_failure(a.failed, base)
        }),
    decreases n,
{
    lemma_shifted_counted(s, base, TABLE_SLOTS as nat);
    if n > 0 {
        lemma_shifted_placed(s, base, (n - 1) as nat);
        let p = s.placed((n - 1) as nat);
        if p.failed is None {
            lemma_placed_shape(s, (n - 1) as nat);
            error::lemma_shifted_offset(base, p.cursor);
        }
        assert(s.rebased(base).widths() == s.widths());
    } else {
        error::lemma_shifted_offset(base, s.all_counted().pos);
    }
    assert(s.rebased(base).placed(n).noted =~= error::shifted(s.placed(n).noted, base));
}

proof fn lemma_shifted_sorted(s: TableStream, base: usize, n: nat)
    requires
        s.base == 0,
        s.missing_field() is None,
        s.data.len() <= usize::MAX,
        n <= 53,
    ensures
        ({
            let a = s.sorted(n);
            let b = s.rebased(base).sorted(n);
            &&& b.noted == error::shifted(a.noted, base)
            &&& b.failed == error::shifted_failure(a.failed, base)
        }),
    decreases n,
{
    lemma_rebased_counted(s, base, TABLE_SLOTS as nat);
    lemma_rebased_placed(s, base, 53);
    lemma_shifted_placed(s, base, 53);
    let m = s.model(TableStream::none_sorted());
    assert(s.rebased(base).model(TableStream::none_sorted()) == TablesModel { base, ..m });
    if n > 0 {
        lemma_shifted_sorted(s, base, (n - 1) as nat);
        lemma_rebased_ordered(m, base, TableId::ALL@[n - 1]);
    }
    assert(s.rebased(base).sorted(n).noted =~= error::shifted(s.sorted(n).noted, base));
}

/// Where a table stream starts in the input is what the offsets of its errors
/// and notes count from; all else of them stays the same.
pub proof fn lemma_table_offsets_shift(s: TableStream, base: usize)
    requires
        s.base == 0,
        s.data.len() <= usize::MAX,
    ensures
        s.parsed() matches Err(e) ==> s.rebased(base).parsed() == Err::<TablesModel, Error>(
            e.rebased(base),
        ),
        s.rebased(base).noted() == error::shifted(s.noted(), base),
{
    match s.missing_field() {
        Some(at) => {
            error::lemma_shifted_offset(base, at);
            assert(s.rebased(base).noted() =~= error::shifted(s.noted(), base));
        },
        None => {
            lemma_shifted_sorted(s, base, 53);
        },
    }
}

} // verus!
