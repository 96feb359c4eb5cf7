//! Row-change batches: the unit of write to the log and to the sink.

use vstd::prelude::*;

verus! {

/// Operation kind attached to each row change of a batch.
#[derive(Clone, Copy, Debug, PartialEq, Eq, Structural)]
pub enum Op {
    Insert,
    Delete,
    UpdateDelete,
    UpdateInsert,
}

/// An operation that makes its row exist after the batch.
pub open spec fn op_is_insert_like(op: Op) -> bool {
    op == Op::Insert || op == Op::UpdateInsert
}

/// An operation that removes its row.
pub open spec fn op_is_delete_like(op: Op) -> bool {
    op == Op::Delete || op == Op::UpdateDelete
}

/// One row change: an operation kind plus the row's column values.
#[derive(Clone, Debug, PartialEq, Eq)]
pub struct Row {
    pub op: Op,
    pub values: Vec<i64>,
}

/// Mathematical image of a row.
#[verifier::ext_equal]
pub struct RowView {
    pub op: Op,
    pub values: Seq<i64>,
}

impl View for Row {
    type V = RowView;

    open spec fn view(&self) -> RowView {
        RowView { op: self.op, values: self.values@ }
    }
}

/// An ordered batch of row changes sharing one column schema.
#[derive(Clone, Debug, PartialEq, Eq)]
pub struct StreamChunk {
    pub rows: Vec<Row>,
}

/// The mathematical image of a sequence of rows.
pub open spec fn rows_view(rows: Seq<Row>) -> Seq<RowView> {
    rows.map(|i: int, r: Row| r@)
}

impl View for StreamChunk {
    type V = Seq<RowView>;

    open spec fn view(&self) -> Seq<RowView> {
        rows_view(self.rows@)
    }
}

/// One column of the executor's input schema. Hidden columns are persisted to
/// the log but projected away before a batch reaches the sink connector.
#[derive(Clone, Copy, Debug, PartialEq, Eq, Structural)]
pub struct ColumnInfo {
    pub is_hidden: bool,
}

/// Partition-ownership descriptor: which virtual nodes this executor owns.
#[derive(Clone, Debug, PartialEq, Eq)]
pub struct VnodeBitmap {
    pub bits: Vec<bool>,
}

impl View for VnodeBitmap {
    type V = Seq<bool>;

    open spec fn view(&self) -> Seq<bool> {
        self.bits@
    }
}

/// Every index of the stream key falls inside every row of the batch.
pub open spec fn key_in_range(rows: Seq<RowView>, stream_key: Seq<usize>) -> bool {
    forall|i: int, j: int|
        0 <= i < rows.len() && 0 <= j < stream_key.len() ==> stream_key[j]
            < rows[i].values.len()
}

/// The stream-key value of a row: the key columns' values, in key order.
pub open spec fn key_of(r: RowView, stream_key: Seq<usize>) -> Seq<i64> {
    stream_key.map(|i: int, c: usize| r.values[c as int])
}

/// Whether two rows agree on every stream-key column.
pub fn rows_same_key(a: &Row, b: &Row, stream_key: &Vec<usize>) -> (r: bool)
    requires
        forall|j: int| 0 <= j < stream_key@.len() ==> stream_key@[j] < a.values@.len(),
        forall|j: int| 0 <= j < stream_key@.len() ==> stream_key@[j] < b.values@.len(),
    ensures
        r == (key_of(a@, stream_key@) == key_of(b@, stream_key@)),
{
    let n = stream_key.len();
    let mut j: usize = 0;
    while j < n
        invariant
            0 <= j <= n,
            n == stream_key@.len(),
            forall|t: int| 0 <= t < stream_key@.len() ==> stream_key@[t] < a.values@.len(),
            forall|t: int| 0 <= t < stream_key@.len() ==> stream_key@[t] < b.values@.len(),
            forall|t: int|
                0 <= t < j ==> a.values@[stream_key@[t] as int] == b.values@[stream_key@[t] as int],
        decreases n - j,
    {
        if a.values[stream_key[j]] != b.values[stream_key[j]] {
            proof {
                assert(key_of(a@, stream_key@)[j as int] != key_of(b@, stream_key@)[j as int]);
            }
            return false;
        }
        j += 1;
    }
    proof {
        assert(key_of(a@, stream_key@) =~= key_of(b@, stream_key@));
    }
    true
}

/// A fresh copy of a row's values.
pub fn clone_values(v: &Vec<i64>) -> (out: Vec<i64>)
    ensures
        out@ == v@,
{
    let mut out: Vec<i64> = Vec::new();
    let n = v.len();
    let mut i: usize = 0;
    while i < n
        invariant
            0 <= i <= n,
            n == v@.len(),
            out@ == v@.take(i as int),
        decreases n - i,
    {
        out.push(v[i]);
        proof {
            assert(out@ =~= v@.take(i as int + 1));
        }
        i += 1;
    }
    proof {
        assert(v@.take(n as int) =~= v@);
    }
    out
}

/// A fresh copy of a partition bitmap.
pub fn clone_bits(b: &VnodeBitmap) -> (out: VnodeBitmap)
    ensures
        out@ == b@,
{
    let mut bits: Vec<bool> = Vec::new();
    let n = b.bits.len();
    let mut i: usize = 0;
    while i < n
        invariant
            0 <= i <= n,
            n == b.bits@.len(),
            bits@ == b.bits@.take(i as int),
        decreases n - i,
    {
        bits.push(b.bits[i]);
        proof {
            assert(bits@ =~= b.bits@.take(i as int + 1));
        }
        i += 1;
    }
    proof {
        assert(b.bits@.take(n as int) =~= b.bits@);
    }
    VnodeBitmap { bits }
}

/// A fresh copy of a batch.
pub fn clone_chunk(c: &StreamChunk) -> (out: StreamChunk)
    ensures
        out@ == c@,
{
    let mut rows: Vec<Row> = Vec::new();
    let n = c.rows.len();
    let mut i: usize = 0;
    while i < n
        invariant
            0 <= i <= n,
            n == c.rows@.len(),
            rows@.len() == i,
            rows_view(rows@) =~= c@.take(i as int),
        decreases n - i,
    {
        proof {
            assert(c@[i as int] == c.rows@[i as int]@);
        }
        let row = Row { op: c.rows[i].op, values: clone_values(&c.rows[i].values) };
        let ghost rv = row@;
        rows.push(row);
        proof {
            assert(rv =~= c@[i as int]);
            assert(rows_view(rows@) =~= c@.take(i as int + 1));
        }
        i += 1;
    }
    proof {
        assert(c@.take(n as int) =~= c@);
    }
    StreamChunk { rows }
}

/// The indices of the non-hidden columns, in schema order.
pub open spec fn spec_visible_indices(cols: Seq<ColumnInfo>) -> Seq<usize>
    decreases cols.len(),
{
    if cols.len() == 0 {
        Seq::empty()
    } else {
        let rest = spec_visible_indices(cols.drop_last());
        if !cols.last().is_hidden {
            rest.push((cols.len() - 1) as usize)
        } else {
            rest
        }
    }
}

/// Every visible index names a column of the schema.
pub proof fn lemma_visible_indices_in_range(cols: Seq<ColumnInfo>)
    ensures
        forall|j: int|
            0 <= j < spec_visible_indices(cols).len() ==> spec_visible_indices(cols)[j]
                < cols.len(),
    decreases cols.len(),
{
    if cols.len() > 0 {
        lemma_visible_indices_in_range(cols.drop_last());
        let rest = spec_visible_indices(cols.drop_last());
        assert forall|j: int|
            0 <= j < spec_visible_indices(cols).len() implies spec_visible_indices(cols)[j]
            < cols.len() by {
            if j < rest.len() {
                assert(spec_visible_indices(cols)[j] == rest[j]);
            }
        }
    }
}

/// Compute the non-hidden column indices of a schema.
pub fn visible_indices(cols: &Vec<ColumnInfo>) -> (out: Vec<usize>)
    ensures
        out@ == spec_visible_indices(cols@),
{
    let mut out: Vec<usize> = Vec::new();
    let n = cols.len();
    let mut i: usize = 0;
    while i < n
        invariant
            0 <= i <= n,
            n == cols@.len(),
            out@ == spec_visible_indices(cols@.take(i as int)),
        decreases n - i,
    {
        proof {
            assert(cols@.take(i as int + 1).drop_last() =~= cols@.take(i as int));
            assert(cols@.take(i as int + 1).last() == cols@[i as int]);
        }
        if !cols[i].is_hidden {
            out.push(i);
        }
        i += 1;
    }
    proof {
        assert(cols@.take(n as int) =~= cols@);
    }
    out
}

/// A row restricted to the listed columns, operation kind kept.
pub open spec fn spec_project_row(r: RowView, visible: Seq<usize>) -> RowView {
    RowView { op: r.op, values: visible.map(|i: int, c: usize| r.values[c as int]) }
}

/// A batch restricted to the listed columns, row for row.
pub open spec fn spec_project(rows: Seq<RowView>, visible: Seq<usize>) -> Seq<RowView> {
    rows.map(|i: int, r: RowView| spec_project_row(r, visible))
}

/// Project a batch onto the listed columns (those visible downstream).
pub fn project_chunk(chunk: &StreamChunk, visible: &Vec<usize>) -> (out: StreamChunk)
    requires
        forall|i: int, j: int|
            0 <= i < chunk@.len() && 0 <= j < visible@.len() ==> visible@[j]
                < chunk@[i].values.len(),
    ensures
        out@ == spec_project(chunk@, visible@),
{
    let mut rows: Vec<Row> = Vec::new();
    let n = chunk.rows.len();
    let mut i: usize = 0;
    while i < n
        invariant
            0 <= i <= n,
            n == chunk.rows@.len(),
            chunk@.len() == chunk.rows@.len(),
            forall|t: int| 0 <= t < chunk@.len() ==> chunk@[t] == chunk.rows@[t]@,
            forall|t: int, j: int|
                0 <= t < chunk@.len() && 0 <= j < visible@.len() ==> visible@[j]
                    < chunk@[t].values.len(),
            rows@.len() == i,
            rows_view(rows@) =~= spec_project(chunk@, visible@).take(i as int),
        decreases n - i,
    {
        proof {
            assert(chunk@[i as int] == chunk.rows@[i as int]@);
        }
        let src = &chunk.rows[i];
        let mut vals: Vec<i64> = Vec::new();
        let m = visible.len();
        let mut j: usize = 0;
        while j < m
            invariant
                0 <= j <= m,
                m == visible@.len(),
                forall|t: int| 0 <= t < visible@.len() ==> visible@[t] < src.values@.len(),
                vals@ =~= visible@.map(|t: int, c: usize| src.values@[c as int]).take(j as int),
            decreases m - j,
        {
            vals.push(src.values[visible[j]]);
            proof {
                assert(vals@ =~= visible@.map(|t: int, c: usize| src.values@[c as int]).take(
                    j as int + 1,
                ));
            }
            j += 1;
        }
        proof {
            assert(vals@ =~= visible@.map(|t: int, c: usize| src.values@[c as int]));
            assert(vals@ =~= spec_project_row(chunk@[i as int], visible@).values);
        }
        let row = Row { op: src.op, values: vals };
        proof {
            assert(row@ =~= spec_project_row(chunk@[i as int], visible@));
        }
        let ghost rv = row@;
        let ghost prev = rows@;
        rows.push(row);
        proof {
            assert(rows@[i as int]@ == rv);
            assert forall|t: int| 0 <= t < i ==> rows_view(rows@)[t] == rows_view(prev)[t] by {
                assert(forall|t: int| 0 <= t < i ==> rows@[t] == prev[t]);
            }
            assert(rows_view(rows@) =~= spec_project(chunk@, visible@).take(i as int + 1));
        }
        i += 1;
    }
    proof {
        assert(spec_project(chunk@, visible@).take(n as int) =~= spec_project(chunk@, visible@));
    }
    StreamChunk { rows }
}

} // verus!
