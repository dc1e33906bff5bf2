//! Parent and owner lookups over the sorted metadata tables (II.22).
//!
//! Two shapes of relationship appear in the tables:
//!
//! * A *list column* such as `TypeDef.FieldList`, where a row owns the run of
//!   rows from its own column value up to the next row column value. The
//!   run-length encoding means the owner of a member is found by locating the
//!   last owner whose run starts at or before it.
//! * A *sorted key column* such as `CustomAttribute.Parent`, where every row
//!   for one parent is contiguous. These are binary-searched.
//!
//! Tables that have to be sorted are verified when the stream is parsed. When
//! an image lies about sortedness, every lookup here falls back to a linear
//! scan rather than returning a wrong answer.
use core::ops::Range;

use vstd::prelude::*;

use crate::error::{Error, ErrorKind, Result};
use crate::tables::coded::CodedIndex;
use crate::tables::rows;
use crate::tables::{ClassLayoutRow, ColumnKind, ConstantRow, ImplMapRow, TableRow, Tables, TablesModel};
use crate::token::{marker, Rid, TableId, Token};

verus! {

/// The column a sorted table is ordered by, where it has a sort key.
pub open spec fn sort_key(table: TableId) -> Option<usize> {
    match table {
        TableId::InterfaceImpl => Some(0),
        TableId::Constant => Some(1),
        TableId::CustomAttribute => Some(0),
        TableId::FieldMarshal => Some(0),
        TableId::DeclSecurity => Some(1),
        TableId::ClassLayout => Some(2),
        TableId::FieldLayout => Some(1),
        TableId::EventMap => Some(0),
        TableId::PropertyMap => Some(0),
        TableId::MethodSemantics => Some(2),
        TableId::MethodImpl => Some(0),
        TableId::ImplMap => Some(1),
        TableId::FieldRva => Some(1),
        TableId::NestedClass => Some(0),
        TableId::GenericParam => Some(2),
        TableId::GenericParamConstraint => Some(0),
        TableId::LocalScope => Some(0),
        TableId::StateMachineMethod => Some(0),
        TableId::CustomDebugInformation => Some(0),
        _ => None,
    }
}

/// The column a sorted table is ordered by, or `None` when the table has no
/// sort key.
///
/// This is the column [`Tables::rows_with_key`] binary-searches, and the one
/// [`Tables::is_sorted`] reports on. It is public so that a caller can verify
/// the ordering itself, or scan the same column without guessing its index.
pub fn sort_key_column(table: TableId) -> (column: Option<usize>)
    ensures
        column == sort_key(table),
{
    match table {
        TableId::InterfaceImpl => Some(0),  // Class
        TableId::Constant => Some(1),  // Parent
        TableId::CustomAttribute => Some(0),  // Parent
        TableId::FieldMarshal => Some(0),  // Parent
        TableId::DeclSecurity => Some(1),  // Parent
        TableId::ClassLayout => Some(2),  // Parent
        TableId::FieldLayout => Some(1),  // Field
        TableId::EventMap => Some(0),  // Parent
        TableId::PropertyMap => Some(0),  // Parent
        TableId::MethodSemantics => Some(2),  // Association
        TableId::MethodImpl => Some(0),  // Class
        TableId::ImplMap => Some(1),  // MemberForwarded
        TableId::FieldRva => Some(1),  // Field
        TableId::NestedClass => Some(0),  // NestedClass
        TableId::GenericParam => Some(2),  // Owner
        TableId::GenericParamConstraint => Some(0),  // Owner
        TableId::LocalScope => Some(0),  // Method
        TableId::StateMachineMethod => Some(0),  // MoveNextMethod
        TableId::CustomDebugInformation => Some(0),  // Parent
        _ => None,
    }
}

/// The coded index kind of a sorted table key column, when it is coded.
pub open spec fn coded_key(table: TableId) -> Option<CodedIndex> {
    match table {
        TableId::Constant => Some(CodedIndex::HasConstant),
        TableId::CustomAttribute => Some(CodedIndex::HasCustomAttribute),
        TableId::FieldMarshal => Some(CodedIndex::HasFieldMarshal),
        TableId::DeclSecurity => Some(CodedIndex::HasDeclSecurity),
        TableId::MethodSemantics => Some(CodedIndex::HasSemantics),
        TableId::ImplMap => Some(CodedIndex::MemberForwarded),
        TableId::GenericParam => Some(CodedIndex::TypeOrMethodDef),
        TableId::CustomDebugInformation => Some(CodedIndex::HasCustomDebugInformation),
        _ => None,
    }
}

/// The coded index kind of a sorted table key column, when it is coded.
pub fn sort_key_coded(table: TableId) -> (kind: Option<CodedIndex>)
    ensures
        kind == coded_key(table),
{
    match table {
        TableId::Constant => Some(CodedIndex::HasConstant),
        TableId::CustomAttribute => Some(CodedIndex::HasCustomAttribute),
        TableId::FieldMarshal => Some(CodedIndex::HasFieldMarshal),
        TableId::DeclSecurity => Some(CodedIndex::HasDeclSecurity),
        TableId::MethodSemantics => Some(CodedIndex::HasSemantics),
        TableId::ImplMap => Some(CodedIndex::MemberForwarded),
        TableId::GenericParam => Some(CodedIndex::TypeOrMethodDef),
        TableId::CustomDebugInformation => Some(CodedIndex::HasCustomDebugInformation),
        _ => None,
    }
}

/// A sort key is a column of its table.
pub proof fn lemma_sort_key_within(table: TableId)
    ensures
        sort_key(table) matches Some(column) ==> column < rows::columns(table).len(),
{
}

/// A sort key that is coded is so as its column is, and any other is a simple
/// index.
pub proof fn lemma_sort_key_kinds(table: TableId)
    ensures
        coded_key(table) matches Some(kind) ==> (sort_key(table) matches Some(column)
            && rows::columns(table)[column as int] == ColumnKind::Coded(kind)),
        sort_key(table) matches Some(column) ==> (coded_key(table) is None ==> rows::columns(
            table,
        )[column as int] is Rid),
{
}

/// The list columns that the ranges and owners below go by index the tables
/// they are said to.
pub proof fn lemma_list_columns()
    ensures
        rows::columns(TableId::TypeDef)[4] == ColumnKind::Rid(TableId::Field),
        rows::columns(TableId::TypeDef)[5] == ColumnKind::Rid(TableId::MethodDef),
        rows::columns(TableId::MethodDef)[5] == ColumnKind::Rid(TableId::Param),
        rows::columns(TableId::EventMap)[1] == ColumnKind::Rid(TableId::Event),
        rows::columns(TableId::PropertyMap)[1] == ColumnKind::Rid(TableId::Property),
{
}

/// The raw sort key of `table` for `parent`: its encoding where the key column
/// is coded, and its RID otherwise.
pub open spec fn key_for(table: TableId, parent: Token) -> Option<u32> {
    match coded_key(table) {
        Some(kind) => kind.encoded(parent),
        None => Some(parent.row()),
    }
}

/// The first of `rids`, where there is one.
pub open spec fn first_of(rids: Seq<u32>) -> Option<u32> {
    if rids.len() > 0 {
        Some(rids[0])
    } else {
        None
    }
}

/// A row id where there is one.
pub open spec fn rid_of<T>(rid: Option<u32>) -> Option<Rid<T>> {
    match rid {
        Some(rid) => Some(Rid::<T>::of(rid)),
        None => None,
    }
}

/// The number of a row id where there is one.
pub open spec fn number_of<T>(rid: Option<Rid<T>>) -> Option<u32> {
    match rid {
        Some(rid) => Some(rid.number()),
        None => None,
    }
}

/// A row id has the number that it was made of.
proof fn lemma_numbers_of_rids<T>()
    ensures
        forall|rid: Option<u32>| number_of(#[trigger] rid_of::<T>(rid)) == rid,
{
    assert forall|rid: Option<u32>| number_of(#[trigger] rid_of::<T>(rid)) == rid by {
        if let Some(number) = rid {
            crate::token::lemma_rid_number(Rid::<T>::of(number), number);
        }
    }
}

/// The value between 1 and `limit` that is nearest to `value`.
pub open spec fn clamped(value: u32, limit: u32) -> u32 {
    if value < 1 {
        1
    } else if value > limit {
        limit
    } else {
        value
    }
}

impl TablesModel {
    /// The RIDs up to `n` whose value in `column` is `key`, in ascending order.
    pub open spec fn matching(self, table: TableId, column: int, key: u32, n: nat) -> Seq<u32>
        decreases n,
    {
        if n == 0 {
            Seq::empty()
        } else {
            let before = self.matching(table, column, key, (n - 1) as nat);
            if self.cell(table, n as u32, column) == key {
                before.push(n as u32)
            } else {
                before
            }
        }
    }

    /// The RIDs of every row of `table` whose sort key is `key`, in ascending
    /// order.
    pub open spec fn with_key(self, table: TableId, key: u32) -> Seq<u32> {
        self.matching(
            table,
            sort_key(table)->0 as int,
            key,
            self.row_count(table) as nat,
        )
    }

    /// The RIDs of every row of `table` owned by `parent`, in ascending order.
    pub open spec fn for_parent(self, table: TableId, parent: Token) -> Seq<u32> {
        match key_for(table, parent) {
            Some(key) => self.with_key(table, key),
            None => Seq::empty(),
        }
    }

    /// One past the last logical row of a table.
    pub open spec fn list_limit(self, target: TableId) -> u32 {
        if self.logical_row_count(target) == u32::MAX {
            u32::MAX
        } else {
            (self.logical_row_count(target) + 1) as u32
        }
    }

    /// Where the run of row `rid` starts, kept within the target table.
    pub open spec fn run_start(
        self,
        owner: TableId,
        rid: u32,
        column: int,
        target: TableId,
    ) -> u32 {
        clamped(self.cell(owner, rid, column), self.list_limit(target))
    }

    /// The half-open run of target rows that row `rid` owns: up to where the
    /// next run starts, or the end of the target table for the last row.
    pub open spec fn run(self, owner: TableId, rid: u32, column: int, target: TableId) -> Range<
        u32,
    > {
        let start = self.run_start(owner, rid, column, target);
        let end = if rid == self.row_count(owner) {
            self.list_limit(target)
        } else {
            self.run_start(owner, (rid + 1) as u32, column, target)
        };
        Range {
            start,
            end: if end < start {
                start
            } else {
                end
            },
        }
    }

    /// The run of a row of a list column, where there is one.
    pub open spec fn list(
        self,
        owner: TableId,
        rid: u32,
        column: usize,
        target: TableId,
    ) -> Result<Range<u32>> {
        if !self.has_row(owner, rid) {
            Err(Error { kind: ErrorKind::OutOfRange, offset: None, context: owner.title() })
        } else if column >= self.layout(owner).column_count {
            Err(self.no_row(owner))
        } else {
            Ok(self.run(owner, rid, column as int, target))
        }
    }

    /// True when row `rid` owns `member`.
    pub open spec fn owns(
        self,
        owner: TableId,
        rid: u32,
        column: int,
        target: TableId,
        member: u32,
    ) -> bool {
        let run = self.run(owner, rid, column, target);
        run.start <= member < run.end
    }

    /// Bisects the rows from `lo` to `hi` for the last whose value in `column`
    /// is at most `member`; `found` is the last one seen so far.
    pub open spec fn bisected(
        self,
        owner: TableId,
        column: int,
        member: u32,
        lo: int,
        hi: int,
        found: int,
    ) -> int
        decreases hi - lo + 1,
    {
        if lo > hi {
            found
        } else {
            let mid = lo + (hi - lo) / 2;
            if self.cell(owner, mid as u32, column) <= member {
                self.bisected(owner, column, member, mid + 1, hi, mid)
            } else {
                self.bisected(owner, column, member, lo, mid - 1, found)
            }
        }
    }

    /// The first row from `from` on that owns `member`.
    pub open spec fn scanned(
        self,
        owner: TableId,
        column: int,
        target: TableId,
        member: u32,
        from: int,
    ) -> Option<u32>
        decreases self.row_count(owner) - from + 1,
    {
        if from > self.row_count(owner) {
            None
        } else if self.owns(owner, from as u32, column, target, member) {
            Some(from as u32)
        } else {
            self.scanned(owner, column, target, member, from + 1)
        }
    }

    /// The row that owns `member`: the one that bisection finds where it does
    /// own it, and the first that does otherwise.
    pub open spec fn owner(
        self,
        owner: TableId,
        column: int,
        target: TableId,
        member: u32,
    ) -> Option<u32> {
        let found = self.bisected(owner, column, member, 1, self.row_count(owner) as int, 0);
        if member == 0 {
            None
        } else if found != 0 && self.owns(owner, found as u32, column, target, member) {
            Some(found as u32)
        } else {
            self.scanned(owner, column, target, member, 1)
        }
    }

    /// The nested types among the first `n` rows of `NestedClass` that
    /// `enclosing` encloses.
    pub open spec fn nested_in(self, enclosing: u32, n: nat) -> Seq<u32>
        decreases n,
    {
        if n == 0 {
            Seq::empty()
        } else {
            let before = self.nested_in(enclosing, (n - 1) as nat);
            if self.cell(TableId::NestedClass, n as u32, 1) == enclosing {
                before.push(self.cell(TableId::NestedClass, n as u32, 0))
            } else {
                before
            }
        }
    }

    /// The value in `column` of the first row whose sort key is `key`.
    pub open spec fn first_with_key(self, table: TableId, key: u32, column: int) -> Option<u32> {
        match first_of(self.with_key(table, key)) {
            Some(rid) => Some(self.cell(table, rid, column)),
            None => None,
        }
    }

    /// The first row whose sort key is `key`, where there is a key and a row.
    pub open spec fn first_row_for<R: TableRow>(self, key: Option<u32>) -> Result<Option<R>> {
        match key {
            None => Ok(None),
            Some(key) => match first_of(self.with_key(R::table(), key)) {
                None => Ok(None),
                Some(rid) => match self.row::<R>(rid) {
                    Ok(row) => Ok(Some(row)),
                    Err(e) => Err(e),
                },
            },
        }
    }

    /// True when generic parameter row `a` comes before row `b`: by position,
    /// then by RID.
    pub open spec fn param_before(self, a: u32, b: u32) -> bool {
        let x = self.cell(TableId::GenericParam, a, 0);
        let y = self.cell(TableId::GenericParam, b, 0);
        x < y || (x == y && a < b)
    }

    /// True when the generic parameter rows `rids` are in declaration order.
    pub open spec fn in_order(self, rids: Seq<u32>) -> bool {
        forall|i: int, j: int|
            0 <= i < j < rids.len() ==> #[trigger] self.param_before(rids[i], rids[j])
    }
}

/// The rows with a key are exactly those that a linear scan of the column
/// finds, each once and in ascending order.
pub proof fn lemma_matching_is_scan(
    m: TablesModel,
    table: TableId,
    column: int,
    key: u32,
    n: nat,
)
    requires
        n <= u32::MAX,
    ensures
        ({
            let rids = m.matching(table, column, key, n);
            &&& forall|rid: u32|
                #[trigger] rids.contains(rid) <==> 1 <= rid <= n && m.cell(table, rid, column)
                    == key
            &&& forall|i: int, j: int| 0 <= i < j < rids.len() ==> rids[i] < rids[j]
            &&& forall|i: int|
                0 <= i < rids.len() ==> 1 <= (#[trigger] rids[i]) <= n && m.cell(
                    table,
                    rids[i],
                    column,
                ) == key
        }),
    decreases n,
{
    if n > 0 {
        lemma_matching_is_scan(m, table, column, key, (n - 1) as nat);
        let before = m.matching(table, column, key, (n - 1) as nat);
        let rids = m.matching(table, column, key, n);
        assert forall|rid: u32| #[trigger]
            rids.contains(rid) <==> 1 <= rid <= n && m.cell(table, rid, column) == key by {
            if before.contains(rid) {
                let i = choose|i: int| 0 <= i < before.len() && before[i] == rid;
                assert(rids[i] == rid);
            }
            if rid == n && m.cell(table, rid, column) == key {
                assert(rids[rids.len() - 1] == rid);
            }
            if rids.contains(rid) {
                let i = choose|i: int| 0 <= i < rids.len() && rids[i] == rid;
                if i < before.len() {
                    assert(before[i] == rid);
                    assert(before.contains(rid));
                }
            }
        }
    }
}

/// The generic parameters of an owner are rows of their table, in ascending
/// order.
proof fn lemma_parent_rows(m: TablesModel, owner: Token)
    ensures
        ({
            let rids = m.for_parent(TableId::GenericParam, owner);
            &&& forall|k: int|
                0 <= k < rids.len() ==> m.has_row(TableId::GenericParam, #[trigger] rids[k])
            &&& forall|k: int, l: int| 0 <= k < l < rids.len() ==> rids[k] < rids[l]
        }),
{
    if let Some(key) = key_for(TableId::GenericParam, owner) {
        lemma_matching_is_scan(
            m,
            TableId::GenericParam,
            2,
            key,
            m.row_count(TableId::GenericParam) as nat,
        );
    }
}

/// Rows whose key differs add nothing.
proof fn lemma_matching_skips(
    m: TablesModel,
    table: TableId,
    column: int,
    key: u32,
    from: nat,
    to: nat,
)
    requires
        from <= to <= u32::MAX,
        forall|rid: u32| from < rid <= to ==> #[trigger] m.cell(table, rid, column) != key,
    ensures
        m.matching(table, column, key, to) == m.matching(table, column, key, from),
    decreases to,
{
    if from < to {
        assert(m.cell(table, to as u32, column) != key);
        lemma_matching_skips(m, table, column, key, from, (to - 1) as nat);
    }
}

/// The value between 1 and `limit` that is nearest to `value`.
fn clamp(value: u32, limit: u32) -> (v: u32)
    ensures
        v == clamped(value, limit),
{
    if value < 1 {
        1
    } else if value > limit {
        limit
    } else {
        value
    }
}

impl<'a> Tables<'a> {
    /// The column this table is sorted by, or `None` when it has no sort key.
    ///
    /// See the free function [`sort_key_column`].
    pub fn sort_key_column(&self, table: TableId) -> (column: Option<usize>)
        ensures
            column == sort_key(table),
    {
        sort_key_column(table)
    }

    /// The raw value of a column that is there.
    fn known(&self, table: TableId, rid: u32, column: usize) -> (value: u32)
        requires
            self@.has_row(table, rid),
            column < rows::columns(table).len(),
        ensures
            value == self@.cell(table, rid, column as int),
    {
        proof {
            use_type_invariant(self);
            assert(self@.layout(table).column_count == rows::columns(table).len());
        }
        match self.raw_column(table, rid, column) {
            Ok(value) => value,
            Err(_) => 0,
        }
    }

    /// The RIDs of every row of `table` whose sort key column equals `key`.
    ///
    /// `key` is the raw column value: for a coded key column that is the
    /// encoded tag-and-RID value, which [`Tables::sort_key_for`] computes.
    pub fn rows_with_key(&self, table: TableId, key: u32) -> (r: Result<Vec<u32>>)
        ensures
            r is Ok == sort_key(table) is Some,
            r matches Ok(rids) ==> rids@ == self@.with_key(table, key),
            r matches Err(e) ==> e == (Error {
                kind: ErrorKind::Unsupported,
                offset: None,
                context: "sorted lookup",
            }),
    {
        let column: usize = match sort_key_column(table) {
            Some(column) => column,
            None => {
                return Err(Error::detached(ErrorKind::Unsupported, "sorted lookup"));
            },
        };
        proof {
            lemma_sort_key_within(table);
        }
        let count: u32 = self.row_count(table);
        if self.is_sorted(table) {
            let first: u64 = self.lower_bound(table, column, key);
            Ok(self.equal_run(table, column, key, first))
        } else {
            let mut out: Vec<u32> = Vec::new();
            let mut rid: u32 = 0;
            while rid < count
                invariant
                    rid <= count,
                    count == self@.row_count(table),
                    column < rows::columns(table).len(),
                    out@ == self@.matching(table, column as int, key, rid as nat),
                decreases count - rid,
            {
                rid = rid + 1;
                if self.known(table, rid, column) == key {
                    out.push(rid);
                }
            }
            Ok(out)
        }
    }

    /// The first row whose key is at least `key`, or one past the last row.
    fn lower_bound(&self, table: TableId, column: usize, key: u32) -> (first: u64)
        requires
            column < rows::columns(table).len(),
            self@.ordered(table, column as int),
        ensures
            1 <= first <= self@.row_count(table) + 1,
            forall|rid: u32|
                1 <= rid < first ==> #[trigger] self@.cell(table, rid, column as int) < key,
            forall|rid: u32|
                first <= rid <= self@.row_count(table) ==> #[trigger] self@.cell(
                    table,
                    rid,
                    column as int,
                ) >= key,
    {
        let count: u32 = self.row_count(table);
        let mut lo: u64 = 1;
        let mut hi: u64 = count as u64 + 1;
        while lo < hi
            invariant
                1 <= lo <= hi <= count + 1,
                count == self@.row_count(table),
                column < rows::columns(table).len(),
                self@.ordered(table, column as int),
                forall|rid: u32|
                    1 <= rid < lo ==> #[trigger] self@.cell(table, rid, column as int) < key,
                forall|rid: u32|
                    hi <= rid <= count ==> #[trigger] self@.cell(table, rid, column as int) >= key,
            decreases hi - lo,
        {
            let mid: u64 = lo + (hi - lo) / 2;
            let value: u32 = self.known(table, mid as u32, column);
            if value < key {
                assert forall|rid: u32| 1 <= rid < mid + 1 implies #[trigger] self@.cell(
                    table,
                    rid,
                    column as int,
                ) < key by {
                    assert(self@.cell(table, rid, column as int) <= self@.cell(
                        table,
                        mid as u32,
                        column as int,
                    ));
                }
                lo = mid + 1;
            } else {
                assert forall|rid: u32| mid <= rid <= count implies #[trigger] self@.cell(
                    table,
                    rid,
                    column as int,
                ) >= key by {
                    assert(self@.cell(table, mid as u32, column as int) <= self@.cell(
                        table,
                        rid,
                        column as int,
                    ));
                }
                hi = mid;
            }
        }
        lo
    }

    /// The rows from `first` on whose key is `key`.
    fn equal_run(&self, table: TableId, column: usize, key: u32, first: u64) -> (out: Vec<u32>)
        requires
            column < rows::columns(table).len(),
            self@.ordered(table, column as int),
            1 <= first <= self@.row_count(table) + 1,
            forall|rid: u32|
                1 <= rid < first ==> #[trigger] self@.cell(table, rid, column as int) < key,
            forall|rid: u32|
                first <= rid <= self@.row_count(table) ==> #[trigger] self@.cell(
                    table,
                    rid,
                    column as int,
                ) >= key,
        ensures
            out@ == self@.matching(table, column as int, key, self@.row_count(table) as nat),
    {
        let count: u32 = self.row_count(table);
        let mut out: Vec<u32> = Vec::new();
        let mut rid: u64 = first;
        proof {
            lemma_matching_skips(self@, table, column as int, key, 0, (first - 1) as nat);
        }
        while rid <= count as u64
            invariant
                first <= rid <= count + 1,
                1 <= first,
                count == self@.row_count(table),
                column < rows::columns(table).len(),
                self@.ordered(table, column as int),
                forall|r: u32|
                    first <= r <= count ==> #[trigger] self@.cell(table, r, column as int) >= key,
                out@ == self@.matching(table, column as int, key, (rid - 1) as nat),
            decreases count + 1 - rid,
        {
            let value: u32 = self.known(table, rid as u32, column);
            if value != key {
                proof {
                    assert forall|r: u32| rid - 1 < r <= count implies #[trigger] self@.cell(
                        table,
                        r,
                        column as int,
                    ) != key by {
                        assert(self@.cell(table, rid as u32, column as int) <= self@.cell(
                            table,
                            r,
                            column as int,
                        ));
                    }
                    lemma_matching_skips(
                        self@,
                        table,
                        column as int,
                        key,
                        (rid - 1) as nat,
                        count as nat,
                    );
                }
                return out;
            }
            out.push(rid as u32);
            rid = rid + 1;
        }
        out
    }

    /// The first row of `table` whose sort key equals `key`.
    pub fn first_row_with_key(&self, table: TableId, key: u32) -> (r: Result<Option<u32>>)
        ensures
            r is Ok == sort_key(table) is Some,
            r matches Ok(rid) ==> rid == first_of(self@.with_key(table, key)),
            r matches Err(e) ==> e == (Error {
                kind: ErrorKind::Unsupported,
                offset: None,
                context: "sorted lookup",
            }),
    {
        let rids: Vec<u32> = self.rows_with_key(table, key)?;
        if rids.len() > 0 {
            Ok(Some(rids[0]))
        } else {
            Ok(None)
        }
    }

    /// Encodes `parent` as the raw sort key of `table`.
    ///
    /// Returns `None` when `table` cannot be keyed by that token, for example
    /// a `TypeRef` parent on a table keyed by `MemberForwarded`.
    pub fn sort_key_for(&self, table: TableId, parent: Token) -> (key: Option<u32>)
        ensures
            key == key_for(table, parent),
    {
        match sort_key_coded(table) {
            Some(kind) => kind.encode(parent),
            None => Some(parent.rid()),
        }
    }

    /// The RIDs of every row of `table` owned by `parent`.
    pub fn rows_for_parent(&self, table: TableId, parent: Token) -> (r: Result<Vec<u32>>)
        ensures
            r is Ok == (sort_key(table) is Some || key_for(table, parent) is None),
            r matches Ok(rids) ==> rids@ == self@.for_parent(table, parent),
            r matches Err(e) ==> e == (Error {
                kind: ErrorKind::Unsupported,
                offset: None,
                context: "sorted lookup",
            }),
    {
        match self.sort_key_for(table, parent) {
            Some(key) => self.rows_with_key(table, key),
            None => Ok(Vec::new()),
        }
    }

    /// The half-open RID range a list column describes.
    ///
    /// `column` is the index of the list column in `owner_table`, and `target`
    /// is the table the column indexes. The run ends where the next owner run
    /// begins, or at the end of the target table for the last owner.
    pub fn list_range(
        &self,
        owner_table: TableId,
        owner_rid: u32,
        column: usize,
        target: TableId,
    ) -> (r: Result<Range<u32>>)
        ensures
            r == self@.list(owner_table, owner_rid, column, target),
    {
        let count: u32 = self.row_count(owner_table);
        if owner_rid == 0 || owner_rid > count {
            return Err(Error::detached(ErrorKind::OutOfRange, owner_table.name()));
        }
        let limit: u32 = self.logical_row_count(target).saturating_add(1);
        let start: u32 = clamp(self.raw_column(owner_table, owner_rid, column)?, limit);
        let end: u32 = if owner_rid == count {
            limit
        } else {
            clamp(self.raw_column(owner_table, owner_rid + 1, column)?, limit)
        };
        Ok(
            Range {
                start,
                end: if end < start {
                    start
                } else {
                    end
                },
            },
        )
    }

    /// Tells whether row `rid` owns `member`.
    fn is_owner(
        &self,
        owner_table: TableId,
        rid: u32,
        column: usize,
        target: TableId,
        member: u32,
    ) -> (owns: bool)
        requires
            self@.has_row(owner_table, rid),
            column < rows::columns(owner_table).len(),
        ensures
            owns == self@.owns(owner_table, rid, column as int, target, member),
    {
        proof {
            use_type_invariant(self);
            assert(self@.layout(owner_table).column_count == rows::columns(owner_table).len());
        }
        match self.list_range(owner_table, rid, column, target) {
            Ok(run) => run.start <= member && member < run.end,
            Err(_) => false,
        }
    }

    /// The owner of a member addressed by a list column, if any.
    fn owner_of_list(
        &self,
        owner_table: TableId,
        column: usize,
        target: TableId,
        member_rid: u32,
    ) -> (owner: Option<u32>)
        requires
            column < rows::columns(owner_table).len(),
        ensures
            owner == self@.owner(owner_table, column as int, target, member_rid),
    {
        let count: u32 = self.row_count(owner_table);
        if member_rid == 0 {
            return None;
        }
        // List columns are non-decreasing in a well-formed image, so find the
        // last owner whose run starts at or before the member.
        let mut lo: u64 = 1;
        let mut hi: u64 = count as u64;
        let mut candidate: u32 = 0;
        while lo <= hi
            invariant
                1 <= lo,
                lo <= hi + 1,
                hi <= count,
                candidate <= count,
                count == self@.row_count(owner_table),
                column < rows::columns(owner_table).len(),
                self@.bisected(
                    owner_table,
                    column as int,
                    member_rid,
                    lo as int,
                    hi as int,
                    candidate as int,
                ) == self@.bisected(
                    owner_table,
                    column as int,
                    member_rid,
                    1,
                    count as int,
                    0,
                ),
            decreases hi + 1 - lo,
        {
            let mid: u64 = lo + (hi - lo) / 2;
            if self.known(owner_table, mid as u32, column) <= member_rid {
                candidate = mid as u32;
                lo = mid + 1;
            } else {
                hi = mid - 1;
            }
        }
        if candidate != 0 && self.is_owner(owner_table, candidate, column, target, member_rid) {
            return Some(candidate);
        }
        // The column was not monotonic; scan.
        let mut rid: u64 = 1;
        while rid <= count as u64
            invariant
                1 <= rid <= count + 1,
                count == self@.row_count(owner_table),
                column < rows::columns(owner_table).len(),
                member_rid != 0,
                candidate == self@.bisected(
                    owner_table,
                    column as int,
                    member_rid,
                    1,
                    count as int,
                    0,
                ),
                candidate == 0 || !self@.owns(
                    owner_table,
                    candidate,
                    column as int,
                    target,
                    member_rid,
                ),
                self@.scanned(owner_table, column as int, target, member_rid, rid as int)
                    == self@.scanned(owner_table, column as int, target, member_rid, 1),
            decreases count + 1 - rid,
        {
            if self.is_owner(owner_table, rid as u32, column, target, member_rid) {
                return Some(rid as u32);
            }
            rid = rid + 1;
        }
        None
    }

    /// The logical `Field` RIDs owned by a type (II.22.37, `FieldList`).
    pub fn field_range(&self, type_def: Rid<marker::TypeDef>) -> (r: Result<Range<u32>>)
        ensures
            r == self@.list(TableId::TypeDef, type_def.number(), 4, TableId::Field),
            r matches Ok(run) ==> self@.fields_run(type_def.number(), run),
    {
        proof {
            use_type_invariant(self);
            crate::tables::relations::lemma_fields_run(self@, type_def.number());
        }
        self.list_range(TableId::TypeDef, type_def.get(), 4, TableId::Field)
    }

    /// The logical `MethodDef` RIDs owned by a type (II.22.37, `MethodList`).
    pub fn method_range(&self, type_def: Rid<marker::TypeDef>) -> (r: Result<Range<u32>>)
        ensures
            r == self@.list(TableId::TypeDef, type_def.number(), 5, TableId::MethodDef),
            r matches Ok(run) ==> self@.methods_run(type_def.number(), run),
    {
        proof {
            use_type_invariant(self);
            crate::tables::relations::lemma_methods_run(self@, type_def.number());
        }
        self.list_range(TableId::TypeDef, type_def.get(), 5, TableId::MethodDef)
    }

    /// The logical `Param` RIDs owned by a method (II.22.26, `ParamList`).
    pub fn param_range(&self, method: Rid<marker::MethodDef>) -> (r: Result<Range<u32>>)
        ensures
            r == self@.list(TableId::MethodDef, method.number(), 5, TableId::Param),
            r matches Ok(run) ==> self@.params_run(method.number(), run),
    {
        proof {
            use_type_invariant(self);
            crate::tables::relations::lemma_params_run(self@, method.number());
        }
        self.list_range(TableId::MethodDef, method.get(), 5, TableId::Param)
    }

    /// The logical `Event` RIDs owned by an `EventMap` row.
    pub fn event_range(&self, event_map: Rid<marker::EventMap>) -> (r: Result<Range<u32>>)
        ensures
            r == self@.list(TableId::EventMap, event_map.number(), 1, TableId::Event),
            r matches Ok(run) ==> self@.events_run(event_map.number(), run),
    {
        proof {
            use_type_invariant(self);
            crate::tables::relations::lemma_events_run(self@, event_map.number());
        }
        self.list_range(TableId::EventMap, event_map.get(), 1, TableId::Event)
    }

    /// The logical `Property` RIDs owned by a `PropertyMap` row.
    pub fn property_range(&self, property_map: Rid<marker::PropertyMap>) -> (r: Result<Range<u32>>)
        ensures
            r == self@.list(TableId::PropertyMap, property_map.number(), 1, TableId::Property),
            r matches Ok(run) ==> self@.properties_run(property_map.number(), run),
    {
        proof {
            use_type_invariant(self);
            crate::tables::relations::lemma_properties_run(self@, property_map.number());
        }
        self.list_range(TableId::PropertyMap, property_map.get(), 1, TableId::Property)
    }

    /// The type that owns a field.
    pub fn type_of_field(&self, field: Rid<marker::Field>) -> (r: Result<Option<Rid<marker::TypeDef>>>)
        ensures
            r == Ok::<Option<Rid<marker::TypeDef>>, Error>(
                rid_of(self@.owner(TableId::TypeDef, 4, TableId::Field, field.number())),
            ),
            r matches Ok(owner) && self@.fields_run_owner(field.number(), number_of(owner)),
    {
        proof {
            use_type_invariant(self);
            crate::tables::relations::lemma_fields_run_owner(self@, field.number());
            lemma_numbers_of_rids::<marker::TypeDef>();
        }
        match self.owner_of_list(TableId::TypeDef, 4, TableId::Field, field.get()) {
            Some(rid) => Ok(Some(Rid::new(rid))),
            None => Ok(None),
        }
    }

    /// The type that owns a method.
    pub fn type_of_method(&self, method: Rid<marker::MethodDef>) -> (r: Result<Option<Rid<marker::TypeDef>>>)
        ensures
            r == Ok::<Option<Rid<marker::TypeDef>>, Error>(
                rid_of(self@.owner(TableId::TypeDef, 5, TableId::MethodDef, method.number())),
            ),
            r matches Ok(owner) && self@.methods_run_owner(method.number(), number_of(owner)),
    {
        proof {
            use_type_invariant(self);
            crate::tables::relations::lemma_methods_run_owner(self@, method.number());
            lemma_numbers_of_rids::<marker::TypeDef>();
        }
        match self.owner_of_list(TableId::TypeDef, 5, TableId::MethodDef, method.get()) {
            Some(rid) => Ok(Some(Rid::new(rid))),
            None => Ok(None),
        }
    }

    /// The method that owns a parameter row.
    pub fn method_of_param(&self, param: Rid<marker::Param>) -> (r: Result<Option<Rid<marker::MethodDef>>>)
        ensures
            r == Ok::<Option<Rid<marker::MethodDef>>, Error>(
                rid_of(self@.owner(TableId::MethodDef, 5, TableId::Param, param.number())),
            ),
            r matches Ok(owner) && self@.params_run_owner(param.number(), number_of(owner)),
    {
        proof {
            use_type_invariant(self);
            crate::tables::relations::lemma_params_run_owner(self@, param.number());
            lemma_numbers_of_rids::<marker::MethodDef>();
        }
        match self.owner_of_list(TableId::MethodDef, 5, TableId::Param, param.get()) {
            Some(rid) => Ok(Some(Rid::new(rid))),
            None => Ok(None),
        }
    }

    /// The `EventMap` row for a type.
    pub fn event_map_of(&self, type_def: Rid<marker::TypeDef>) -> (r: Result<Option<Rid<marker::EventMap>>>)
        ensures
            r == Ok::<Option<Rid<marker::EventMap>>, Error>(
                rid_of(first_of(self@.with_key(TableId::EventMap, type_def.number()))),
            ),
            r matches Ok(found) && self@.event_map_is(type_def.number(), number_of(found)),
    {
        proof {
            use_type_invariant(self);
            crate::tables::relations::lemma_event_map_is(self@, type_def.number());
            lemma_numbers_of_rids::<marker::EventMap>();
        }
        match self.first_row_with_key(TableId::EventMap, type_def.get())? {
            Some(rid) => Ok(Some(Rid::new(rid))),
            None => Ok(None),
        }
    }

    /// The `PropertyMap` row for a type.
    pub fn property_map_of(&self, type_def: Rid<marker::TypeDef>) -> (r: Result<Option<Rid<marker::PropertyMap>>>)
        ensures
            r == Ok::<Option<Rid<marker::PropertyMap>>, Error>(
                rid_of(first_of(self@.with_key(TableId::PropertyMap, type_def.number()))),
            ),
            r matches Ok(found) && self@.property_map_is(type_def.number(), number_of(found)),
    {
        proof {
            use_type_invariant(self);
            crate::tables::relations::lemma_property_map_is(self@, type_def.number());
            lemma_numbers_of_rids::<marker::PropertyMap>();
        }
        match self.first_row_with_key(TableId::PropertyMap, type_def.get())? {
            Some(rid) => Ok(Some(Rid::new(rid))),
            None => Ok(None),
        }
    }

    /// The `GenericParam` RIDs declared by a type or method, in declaration order.
    pub fn generic_params(&self, owner: Token) -> (r: Result<Vec<u32>>)
        ensures
            r matches Ok(rids) && self@.in_order(rids@) && rids@.to_multiset() == self@.for_parent(
                TableId::GenericParam,
                owner,
            ).to_multiset(),
            r matches Ok(rids) && self@.generic_members(owner, rids@),
    {
        let rids: Vec<u32> = self.rows_for_parent(TableId::GenericParam, owner)?;
        // `Number` orders the run; the format requires it but obfuscators do
        // not keep to it.
        let mut sorted: Vec<u32> = Vec::new();
        let mut i: usize = 0;
        proof {
            lemma_parent_rows(self@, owner);
            assert(rids@.take(0) =~= sorted@);
        }
        while i < rids.len()
            invariant
                i <= rids.len(),
                forall|k: int|
                    0 <= k < rids.len() ==> self@.has_row(TableId::GenericParam, #[trigger] rids@[k]),
                forall|k: int, l: int| 0 <= k < l < rids.len() ==> rids@[k] < rids@[l],
                self@.in_order(sorted@),
                sorted@.to_multiset() == rids@.take(i as int).to_multiset(),
                forall|k: int|
                    0 <= k < sorted.len() ==> rids@.take(i as int).contains(#[trigger] sorted@[k]),
            decreases rids.len() - i,
        {
            let rid: u32 = rids[i];
            let ghost before = rids@.take(i as int);
            proof {
                assert forall|k: int| 0 <= k < sorted.len() implies self@.has_row(
                    TableId::GenericParam,
                    #[trigger] sorted@[k],
                ) && sorted@[k] != rid by {
                    let j = choose|j: int| 0 <= j < before.len() && before[j] == sorted@[k];
                    assert(rids@[j] == sorted@[k]);
                }
            }
            let at: usize = self.param_place(sorted.as_slice(), rid);
            let ghost old_sorted = sorted@;
            sorted.insert(at, rid);
            proof {
                let next = rids@.take(i + 1);
                assert(next =~= before.push(rid));
                vstd::seq_lib::to_multiset_insert(old_sorted, at as int, rid);
                vstd::seq_lib::to_multiset_insert(before, before.len() as int, rid);
                assert(before.insert(before.len() as int, rid) =~= next);
                assert forall|k: int| 0 <= k < sorted.len() implies next.contains(
                    #[trigger] sorted@[k],
                ) by {
                    if k == at {
                        assert(next[next.len() - 1] == rid);
                    } else {
                        let o = if k < at {
                            k
                        } else {
                            k - 1
                        };
                        assert(old_sorted[o] == sorted@[k]);
                        let j = choose|j: int| 0 <= j < before.len() && before[j] == old_sorted[o];
                        assert(next[j] == sorted@[k]);
                    }
                }
                assert forall|a: int, b: int| 0 <= a < b < sorted.len() implies
                    #[trigger] self@.param_before(sorted@[a], sorted@[b]) by {
                    let oa = if a < at {
                        a
                    } else {
                        a - 1
                    };
                    let ob = if b < at {
                        b
                    } else {
                        b - 1
                    };
                    if a != at && b != at {
                        assert(self@.param_before(old_sorted[oa], old_sorted[ob]));
                    }
                }
            }
            i = i + 1;
        }
        assert(rids@.take(i as int) =~= rids@);
        proof {
            use_type_invariant(self);
            crate::tables::relations::lemma_generic_members(self@, owner, sorted@);
        }
        Ok(sorted)
    }

    /// Where `rid` belongs among the generic parameters `sorted`.
    fn param_place(&self, sorted: &[u32], rid: u32) -> (at: usize)
        requires
            self@.in_order(sorted@),
            self@.has_row(TableId::GenericParam, rid),
            forall|k: int|
                0 <= k < sorted.len() ==> self@.has_row(
                    TableId::GenericParam,
                    #[trigger] sorted@[k],
                ) && sorted@[k] != rid,
        ensures
            at <= sorted.len(),
            forall|k: int| 0 <= k < at ==> self@.param_before(#[trigger] sorted@[k], rid),
            forall|k: int| at <= k < sorted.len() ==> self@.param_before(rid, #[trigger] sorted@[k]),
    {
        let number: u32 = self.known(TableId::GenericParam, rid, 0);
        let mut at: usize = 0;
        while at < sorted.len()
            invariant_except_break
                at <= sorted.len(),
            invariant
                self@.in_order(sorted@),
                self@.has_row(TableId::GenericParam, rid),
                number == self@.cell(TableId::GenericParam, rid, 0),
                forall|k: int|
                    0 <= k < sorted.len() ==> self@.has_row(
                        TableId::GenericParam,
                        #[trigger] sorted@[k],
                    ) && sorted@[k] != rid,
                forall|k: int| 0 <= k < at ==> self@.param_before(#[trigger] sorted@[k], rid),
            ensures
                at <= sorted.len(),
                at < sorted.len() ==> self@.param_before(rid, sorted@[at as int]),
            decreases sorted.len() - at,
        {
            let other: u32 = sorted[at];
            let position: u32 = self.known(TableId::GenericParam, other, 0);
            if number < position || (number == position && rid < other) {
                break;
            }
            at = at + 1;
        }
        proof {
            assert forall|k: int| at <= k < sorted.len() implies self@.param_before(
                rid,
                #[trigger] sorted@[k],
            ) by {
                if k > at {
                    assert(self@.param_before(sorted@[at as int], sorted@[k]));
                }
            }
        }
        at
    }

    /// The `GenericParamConstraint` RIDs for one generic parameter.
    pub fn generic_param_constraints(
        &self,
        generic_param: Rid<marker::GenericParam>,
    ) -> (r: Result<Vec<u32>>)
        ensures
            r matches Ok(rids) && rids@ == self@.with_key(
                TableId::GenericParamConstraint,
                generic_param.number(),
            ),
            r matches Ok(rids) && self@.constraint_rows(generic_param.number(), rids@),
    {
        proof {
            use_type_invariant(self);
            crate::tables::relations::lemma_constraint_rows(self@, generic_param.number());
        }
        self.rows_with_key(TableId::GenericParamConstraint, generic_param.get())
    }

    /// A column of the first row of `table` with a key, where there is one.
    fn first_column_with_key(&self, table: TableId, key: u32, column: usize) -> (r: Option<u32>)
        requires
            sort_key(table) is Some,
            column < rows::columns(table).len(),
        ensures
            r == self@.first_with_key(table, key, column as int),
    {
        proof {
            lemma_matching_is_scan(
                self@,
                table,
                sort_key(table)->0 as int,
                key,
                self@.row_count(table) as nat,
            );
        }
        match self.first_row_with_key(table, key) {
            Ok(Some(rid)) => Some(self.known(table, rid, column)),
            Ok(None) => None,
            Err(_) => None,
        }
    }

    /// The type that lexically encloses a nested type.
    pub fn enclosing_type(
        &self,
        type_def: Rid<marker::TypeDef>,
    ) -> (r: Result<Option<Rid<marker::TypeDef>>>)
        ensures
            r == Ok::<Option<Rid<marker::TypeDef>>, Error>(
                rid_of(self@.first_with_key(TableId::NestedClass, type_def.number(), 1)),
            ),
            r matches Ok(found) && self@.enclosing_is(type_def.number(), number_of(found)),
    {
        proof {
            use_type_invariant(self);
            crate::tables::relations::lemma_enclosing_is(self@, type_def.number());
            lemma_numbers_of_rids::<marker::TypeDef>();
        }
        match self.first_column_with_key(TableId::NestedClass, type_def.get(), 1) {
            Some(rid) => Ok(Some(Rid::new(rid))),
            None => Ok(None),
        }
    }

    /// The types nested directly inside a type.
    ///
    /// `NestedClass` is sorted by the nested type, not the enclosing one, so
    /// this is always a linear scan.
    pub fn nested_types(&self, type_def: Rid<marker::TypeDef>) -> (r: Result<Vec<u32>>)
        ensures
            r matches Ok(types) && types@ == self@.nested_in(
                type_def.number(),
                self@.row_count(TableId::NestedClass) as nat,
            ),
            r matches Ok(types) && self@.nested_are(type_def.number(), types@),
    {
        proof {
            use_type_invariant(self);
            crate::tables::relations::lemma_nested_are(self@, type_def.number());
        }
        let mut out: Vec<u32> = Vec::new();
        let count: u32 = self.row_count(TableId::NestedClass);
        let mut rid: u32 = 0;
        while rid < count
            invariant
                rid <= count,
                count == self@.row_count(TableId::NestedClass),
                out@ == self@.nested_in(type_def.number(), rid as nat),
            decreases count - rid,
        {
            rid = rid + 1;
            if self.known(TableId::NestedClass, rid, 1) == type_def.get() {
                out.push(self.known(TableId::NestedClass, rid, 0));
            }
        }
        Ok(out)
    }

    /// The `CustomAttribute` RIDs attached to a metadata item.
    pub fn custom_attributes(&self, parent: Token) -> (r: Result<Vec<u32>>)
        ensures
            r matches Ok(rids) && rids@ == self@.for_parent(TableId::CustomAttribute, parent),
            r matches Ok(rids) && self@.attribute_rows(parent, rids@),
    {
        proof {
            use_type_invariant(self);
            crate::tables::relations::lemma_attribute_rows(self@, parent);
        }
        self.rows_for_parent(TableId::CustomAttribute, parent)
    }

    /// The `InterfaceImpl` RIDs of a type.
    pub fn interface_impls(&self, type_def: Rid<marker::TypeDef>) -> (r: Result<Vec<u32>>)
        ensures
            r matches Ok(rids) && rids@ == self@.with_key(TableId::InterfaceImpl, type_def.number()),
            r matches Ok(rids) && self@.interface_rows(type_def.number(), rids@),
    {
        proof {
            use_type_invariant(self);
            crate::tables::relations::lemma_interface_rows(self@, type_def.number());
        }
        self.rows_with_key(TableId::InterfaceImpl, type_def.get())
    }

    /// The `MethodImpl` RIDs declared by a type.
    pub fn method_impls(&self, type_def: Rid<marker::TypeDef>) -> (r: Result<Vec<u32>>)
        ensures
            r matches Ok(rids) && rids@ == self@.with_key(TableId::MethodImpl, type_def.number()),
            r matches Ok(rids) && self@.override_rows(type_def.number(), rids@),
    {
        proof {
            use_type_invariant(self);
            crate::tables::relations::lemma_override_rows(self@, type_def.number());
        }
        self.rows_with_key(TableId::MethodImpl, type_def.get())
    }

    /// The `MethodSemantics` RIDs attached to an event or property.
    pub fn semantics_for(&self, association: Token) -> (r: Result<Vec<u32>>)
        ensures
            r matches Ok(rids) && rids@ == self@.for_parent(TableId::MethodSemantics, association),
            r matches Ok(rids) && self@.semantics_rows(association, rids@),
    {
        proof {
            use_type_invariant(self);
            crate::tables::relations::lemma_semantics_rows(self@, association);
        }
        self.rows_for_parent(TableId::MethodSemantics, association)
    }

    /// The `DeclSecurity` RIDs attached to an item.
    pub fn decl_security_for(&self, parent: Token) -> (r: Result<Vec<u32>>)
        ensures
            r matches Ok(rids) && rids@ == self@.for_parent(TableId::DeclSecurity, parent),
            r matches Ok(rids) && self@.security_rows(parent, rids@),
    {
        proof {
            use_type_invariant(self);
            crate::tables::relations::lemma_security_rows(self@, parent);
        }
        self.rows_for_parent(TableId::DeclSecurity, parent)
    }

    /// The compile-time constant of a field, parameter or property.
    pub fn constant_of(&self, parent: Token) -> (r: Result<Option<ConstantRow>>)
        ensures
            r == self@.first_row_for::<ConstantRow>(key_for(TableId::Constant, parent)),
            self@.constant_is(parent, r),
    {
        proof {
            use_type_invariant(self);
            crate::tables::relations::lemma_constant_is(self@, parent);
        }
        match self.sort_key_for(TableId::Constant, parent) {
            Some(key) => match self.first_row_with_key(TableId::Constant, key)? {
                Some(rid) => Ok(Some(self.row::<ConstantRow>(rid)?)),
                None => Ok(None),
            },
            None => Ok(None),
        }
    }

    /// The marshalling descriptor blob index of a field or parameter.
    pub fn field_marshal_of(&self, parent: Token) -> (r: Result<Option<u32>>)
        ensures
            r == Ok::<Option<u32>, Error>(
                match key_for(TableId::FieldMarshal, parent) {
                    Some(key) => self@.first_with_key(TableId::FieldMarshal, key, 1),
                    None => None,
                },
            ),
            r matches Ok(found) && self@.native_type_is(parent, found),
    {
        proof {
            use_type_invariant(self);
            crate::tables::relations::lemma_native_type_is(self@, parent);
        }
        match self.sort_key_for(TableId::FieldMarshal, parent) {
            Some(key) => Ok(self.first_column_with_key(TableId::FieldMarshal, key, 1)),
            None => Ok(None),
        }
    }

    /// The RVA of a field initial-data blob, from `FieldRVA`.
    pub fn field_rva_of(&self, field: Rid<marker::Field>) -> (r: Result<Option<u32>>)
        ensures
            r == Ok::<Option<u32>, Error>(
                self@.first_with_key(TableId::FieldRva, field.number(), 0),
            ),
            r matches Ok(found) && self@.rva_is(field.number(), found),
    {
        proof {
            use_type_invariant(self);
            crate::tables::relations::lemma_rva_is(self@, field.number());
        }
        Ok(self.first_column_with_key(TableId::FieldRva, field.get(), 0))
    }

    /// The explicit byte offset of a field within its type, from `FieldLayout`.
    pub fn field_layout_of(&self, field: Rid<marker::Field>) -> (r: Result<Option<u32>>)
        ensures
            r == Ok::<Option<u32>, Error>(
                self@.first_with_key(TableId::FieldLayout, field.number(), 0),
            ),
            r matches Ok(found) && self@.offset_is(field.number(), found),
    {
        proof {
            use_type_invariant(self);
            crate::tables::relations::lemma_offset_is(self@, field.number());
        }
        Ok(self.first_column_with_key(TableId::FieldLayout, field.get(), 0))
    }

    /// The `ClassLayout` row of a type, when it declares one.
    pub fn class_layout_of(
        &self,
        type_def: Rid<marker::TypeDef>,
    ) -> (r: Result<Option<ClassLayoutRow>>)
        ensures
            r == self@.first_row_for::<ClassLayoutRow>(Some(type_def.number())),
            self@.layout_is(type_def.number(), r),
    {
        proof {
            use_type_invariant(self);
            crate::tables::relations::lemma_layout_is(self@, type_def.number());
        }
        match self.first_row_with_key(TableId::ClassLayout, type_def.get())? {
            Some(rid) => Ok(Some(self.row::<ClassLayoutRow>(rid)?)),
            None => Ok(None),
        }
    }

    /// The P/Invoke mapping of a method or field, when it has one.
    pub fn impl_map_of(&self, member: Token) -> (r: Result<Option<ImplMapRow>>)
        ensures
            r == self@.first_row_for::<ImplMapRow>(key_for(TableId::ImplMap, member)),
            self@.import_is(member, r),
    {
        proof {
            use_type_invariant(self);
            crate::tables::relations::lemma_import_is(self@, member);
        }
        match self.sort_key_for(TableId::ImplMap, member) {
            Some(key) => match self.first_row_with_key(TableId::ImplMap, key)? {
                Some(rid) => Ok(Some(self.row::<ImplMapRow>(rid)?)),
                None => Ok(None),
            },
            None => Ok(None),
        }
    }
}

/// A run lies within the logical rows of its target table.
pub proof fn lemma_run_bounds(
    m: TablesModel,
    owner: TableId,
    rid: u32,
    column: int,
    target: TableId,
)
    ensures
        ({
            let run = m.run(owner, rid, column, target);
            1 <= run.start <= run.end <= m.list_limit(target)
        }),
{
}

/// Where a list column never decreases, each run starts where the one before it
/// ends, and the last ends with the target table.
pub proof fn lemma_runs_adjoin(
    m: TablesModel,
    owner: TableId,
    rid: u32,
    column: int,
    target: TableId,
)
    requires
        m.has_row(owner, rid),
        m.ordered(owner, column),
    ensures
        rid < m.row_count(owner) ==> m.run(owner, rid, column, target).end == m.run(
            owner,
            (rid + 1) as u32,
            column,
            target,
        ).start,
        rid == m.row_count(owner) ==> m.run(owner, rid, column, target).end == m.list_limit(target),
{
    if rid < m.row_count(owner) {
        assert(m.cell(owner, rid, column) <= m.cell(owner, (rid + 1) as u32, column));
    }
}

proof fn lemma_scanned(
    m: TablesModel,
    owner: TableId,
    column: int,
    target: TableId,
    member: u32,
    from: int,
)
    requires
        1 <= from,
    ensures
        match m.scanned(owner, column, target, member, from) {
            Some(rid) => from <= rid <= m.row_count(owner) && m.owns(
                owner,
                rid,
                column,
                target,
                member,
            ),
            None => forall|rid: u32|
                from <= rid <= m.row_count(owner) ==> !#[trigger] m.owns(
                    owner,
                    rid,
                    column,
                    target,
                    member,
                ),
        },
    decreases m.row_count(owner) - from + 1,
{
    if from <= m.row_count(owner) {
        lemma_scanned(m, owner, column, target, member, from + 1);
    }
}

proof fn lemma_bisected(
    m: TablesModel,
    owner: TableId,
    column: int,
    member: u32,
    lo: int,
    hi: int,
    found: int,
)
    ensures
        ({
            let r = m.bisected(owner, column, member, lo, hi, found);
            r == found || lo <= r <= hi
        }),
    decreases hi - lo + 1,
{
    if lo <= hi {
        let mid = lo + (hi - lo) / 2;
        lemma_bisected(m, owner, column, member, mid + 1, hi, mid);
        lemma_bisected(m, owner, column, member, lo, mid - 1, found);
    }
}

/// The owner that is found for a member does own it, and where none is found
/// none does.
pub proof fn lemma_owner_owns(
    m: TablesModel,
    owner: TableId,
    column: int,
    target: TableId,
    member: u32,
)
    ensures
        match m.owner(owner, column, target, member) {
            Some(rid) => m.has_row(owner, rid) && m.owns(owner, rid, column, target, member),
            None => forall|rid: u32|
                m.has_row(owner, rid) ==> !#[trigger] m.owns(owner, rid, column, target, member),
        },
{
    lemma_scanned(m, owner, column, target, member, 1);
    lemma_bisected(m, owner, column, member, 1, m.row_count(owner) as int, 0);
    assert forall|rid: u32| member == 0 implies !#[trigger] m.owns(
        owner,
        rid,
        column,
        target,
        member,
    ) by {
        lemma_run_bounds(m, owner, rid, column, target);
    }
}

/// Where a list column never decreases, no member has two owners.
pub proof fn lemma_one_owner(
    m: TablesModel,
    owner: TableId,
    column: int,
    target: TableId,
    member: u32,
    a: u32,
    b: u32,
)
    requires
        m.ordered(owner, column),
        m.has_row(owner, a),
        m.has_row(owner, b),
        m.owns(owner, a, column, target, member),
        m.owns(owner, b, column, target, member),
    ensures
        a == b,
{
    if a < b {
        assert(m.cell(owner, a, column) <= m.cell(owner, (a + 1) as u32, column));
        assert(m.cell(owner, (a + 1) as u32, column) <= m.cell(owner, b, column));
    } else if b < a {
        assert(m.cell(owner, b, column) <= m.cell(owner, (b + 1) as u32, column));
        assert(m.cell(owner, (b + 1) as u32, column) <= m.cell(owner, a, column));
    }
}

/// A member reached through a list column names the same owner in reverse,
/// where the column never decreases.
pub proof fn lemma_member_names_owner(
    m: TablesModel,
    owner: TableId,
    column: int,
    target: TableId,
    member: u32,
    rid: u32,
)
    requires
        m.ordered(owner, column),
        m.has_row(owner, rid),
        m.owns(owner, rid, column, target, member),
    ensures
        m.owner(owner, column, target, member) == Some(rid),
{
    lemma_owner_owns(m, owner, column, target, member);
    let found = m.owner(owner, column, target, member)->0;
    lemma_one_owner(m, owner, column, target, member, found, rid);
}

/// Without rows in a `*Ptr` table, logical rows are physical rows.
pub proof fn lemma_no_indirection(m: TablesModel, table: TableId, rid: u32)
    requires
        table.redirected_by() matches Some(ptr) ==> m.row_count(ptr) == 0,
    ensures
        m.resolved(table, rid) == Ok::<u32, Error>(rid),
        m.logical_row_count(table) == m.row_count(table),
{
}

} // verus!
