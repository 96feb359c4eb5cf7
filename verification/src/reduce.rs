//! Row-change reducer: pure, batch-local transforms applied before a batch is
//! appended to the log.
//!
//! `merge_chunk_row` merges all changes to one stream-key value within a batch
//! into their net effect; `force_append_only` rewrites a batch into pure
//! insertions for sinks declared append-only.

use vstd::prelude::*;

use crate::chunk::{
    key_in_range, key_of, op_is_delete_like, op_is_insert_like, rows_view, clone_values,
    rows_same_key, Op, Row, RowView, StreamChunk,
};

verus! {

/// The rows of `rows` whose stream-key value is `k`, in batch order.
pub open spec fn group_rows(rows: Seq<RowView>, stream_key: Seq<usize>, k: Seq<i64>) -> Seq<
    RowView,
>
    decreases rows.len(),
{
    if rows.len() == 0 {
        Seq::empty()
    } else {
        let rest = group_rows(rows.drop_last(), stream_key, k);
        if key_of(rows.last(), stream_key) == k {
            rest.push(rows.last())
        } else {
            rest
        }
    }
}

/// The distinct stream-key values of `rows`, in order of first occurrence.
pub open spec fn keys_in_order(rows: Seq<RowView>, stream_key: Seq<usize>) -> Seq<Seq<i64>>
    decreases rows.len(),
{
    if rows.len() == 0 {
        Seq::empty()
    } else {
        let rest = keys_in_order(rows.drop_last(), stream_key);
        let k = key_of(rows.last(), stream_key);
        if rest.contains(k) {
            rest
        } else {
            rest.push(k)
        }
    }
}

/// The net effect of one key's change sequence within a batch.
///
/// The first operation tells whether the row existed before the batch
/// (delete-like: it did), the last whether it exists after (insert-like: it
/// does); the net effect is an update, a plain insert, a plain delete, or
/// nothing at all when an inserted row is deleted again within the batch.
pub open spec fn net_rows(g: Seq<RowView>) -> Seq<RowView> {
    if g.len() == 0 {
        Seq::empty()
    } else {
        let first = g[0];
        let last = g.last();
        if op_is_insert_like(first.op) {
            if op_is_insert_like(last.op) {
                seq![RowView { op: Op::Insert, values: last.values }]
            } else {
                Seq::empty()
            }
        } else {
            if op_is_insert_like(last.op) {
                seq![
                    RowView { op: Op::UpdateDelete, values: first.values },
                    RowView { op: Op::UpdateInsert, values: last.values },
                ]
            } else {
                seq![RowView { op: Op::Delete, values: first.values }]
            }
        }
    }
}

/// The reduced batch for the listed keys: each key's net effect, keys in the
/// given order.
pub open spec fn reduce_keyed(keys: Seq<Seq<i64>>, rows: Seq<RowView>, stream_key: Seq<usize>) -> Seq<
    RowView,
>
    decreases keys.len(),
{
    if keys.len() == 0 {
        Seq::empty()
    } else {
        reduce_keyed(keys.drop_last(), rows, stream_key) + net_rows(
            group_rows(rows, stream_key, keys.last()),
        )
    }
}

/// The whole reduced batch: the net effect of every distinct stream-key value
/// of `rows`, in order of the key's first occurrence.
pub open spec fn spec_merge_chunk(rows: Seq<RowView>, stream_key: Seq<usize>) -> Seq<RowView> {
    reduce_keyed(keys_in_order(rows, stream_key), rows, stream_key)
}

/// Whether `op` makes the row survive a forced append-only rewrite.
fn op_insert_like(op: Op) -> (r: bool)
    ensures
        r == op_is_insert_like(op),
{
    match op {
        Op::Insert | Op::UpdateInsert => true,
        Op::Delete | Op::UpdateDelete => false,
    }
}

/// A group is non-empty exactly when some row of the batch carries the key.
pub proof fn lemma_group_iff_key_occurs(rows: Seq<RowView>, stream_key: Seq<usize>, k: Seq<i64>)
    ensures
        group_rows(rows, stream_key, k).len() > 0 <==> exists|t: int|
            0 <= t < rows.len() && key_of(rows[t], stream_key) == k,
    decreases rows.len(),
{
    if rows.len() > 0 {
        lemma_group_iff_key_occurs(rows.drop_last(), stream_key, k);
        if key_of(rows.last(), stream_key) == k {
            assert(key_of(rows[rows.len() - 1], stream_key) == k);
        } else {
            if exists|t: int| 0 <= t < rows.len() && key_of(rows[t], stream_key) == k {
                let t = choose|t: int| 0 <= t < rows.len() && key_of(rows[t], stream_key) == k;
                assert(t < rows.len() - 1);
                assert(key_of(rows.drop_last()[t], stream_key) == k);
            }
        }
    }
}

/// A key is listed among the batch's keys exactly when its group is non-empty.
pub proof fn lemma_keys_iff_group(rows: Seq<RowView>, stream_key: Seq<usize>, k: Seq<i64>)
    ensures
        keys_in_order(rows, stream_key).contains(k) <==> group_rows(rows, stream_key, k).len()
            > 0,
    decreases rows.len(),
{
    if rows.len() > 0 {
        lemma_keys_iff_group(rows.drop_last(), stream_key, k);
        let rest = keys_in_order(rows.drop_last(), stream_key);
        let kl = key_of(rows.last(), stream_key);
        if kl == k {
            if rest.contains(k) {
                assert(keys_in_order(rows, stream_key).contains(k));
            } else {
                assert(keys_in_order(rows, stream_key) == rest.push(k));
                assert(rest.push(k)[rest.len() as int] == k);
                assert(keys_in_order(rows, stream_key).contains(k));
            }
        } else {
            if rest.contains(k) {
                let t = choose|t: int| 0 <= t < rest.len() && rest[t] == k;
                if !rest.contains(kl) {
                    assert(rest.push(kl)[t] == k);
                }
                assert(keys_in_order(rows, stream_key).contains(k));
            }
            if keys_in_order(rows, stream_key).contains(k) {
                let t = choose|t: int|
                    0 <= t < keys_in_order(rows, stream_key).len() && keys_in_order(
                        rows,
                        stream_key,
                    )[t] == k;
                if !rest.contains(kl) {
                    assert(t < rest.len());
                    assert(rest[t] == k);
                }
                assert(rest.contains(k));
            }
        }
    }
}

/// Merge all changes to the same stream-key value within one batch into the
/// net effect, preserving the rows' columns. Keys appear in order of first
/// occurrence; changes to distinct keys never interfere.
pub fn merge_chunk_row(chunk: StreamChunk, stream_key: &Vec<usize>) -> (out: StreamChunk)
    requires
        key_in_range(chunk@, stream_key@),
    ensures
        out@ == spec_merge_chunk(chunk@, stream_key@),
{
    let n = chunk.rows.len();
    let mut out_rows: Vec<Row> = Vec::new();
    let mut i: usize = 0;
    while i < n
        invariant
            0 <= i <= n,
            n == chunk.rows@.len(),
            chunk@ == rows_view(chunk.rows@),
            chunk@.len() == n,
            key_in_range(chunk@, stream_key@),
            rows_view(out_rows@) =~= reduce_keyed(
                keys_in_order(chunk@.take(i as int), stream_key@),
                chunk@,
                stream_key@,
            ),
        decreases n - i,
    {
        proof {
            assert(chunk@[i as int] == chunk.rows@[i as int]@);
            assert(chunk@.take(i as int + 1).drop_last() =~= chunk@.take(i as int));
            assert(chunk@.take(i as int + 1).last() == chunk@[i as int]);
        }
        let ghost ki = key_of(chunk@[i as int], stream_key@);
        let ghost keys_i = keys_in_order(chunk@.take(i as int), stream_key@);

        // Has this row's key occurred before row i?
        let mut dup = false;
        let mut t: usize = 0;
        while t < i
            invariant
                0 <= t <= i,
                i < n,
                n == chunk.rows@.len(),
                chunk@ == rows_view(chunk.rows@),
                chunk@.len() == n,
                key_in_range(chunk@, stream_key@),
                ki == key_of(chunk@[i as int], stream_key@),
                dup <==> exists|u: int|
                    0 <= u < t && key_of(chunk@[u], stream_key@) == ki,
            decreases i - t,
        {
            proof {
                assert(chunk@[t as int] == chunk.rows@[t as int]@);
            }
            if rows_same_key(&chunk.rows[t], &chunk.rows[i], stream_key) {
                dup = true;
                proof {
                    assert(key_of(chunk@[t as int], stream_key@) == ki);
                }
            }
            t += 1;
        }
        proof {
            lemma_group_iff_key_occurs(chunk@.take(i as int), stream_key@, ki);
            lemma_keys_iff_group(chunk@.take(i as int), stream_key@, ki);
            assert(forall|u: int|
                0 <= u < i ==> chunk@.take(i as int)[u] == chunk@[u]);
            assert(dup <==> keys_i.contains(ki));
        }

        if !dup {
            // First occurrence: scan the whole batch for this key's first and
            // last change, and emit the net effect.
            proof {
                assert(keys_in_order(chunk@.take(i as int + 1), stream_key@) == keys_i.push(ki));
                assert(keys_i.push(ki).drop_last() =~= keys_i);
                assert(keys_i.push(ki).last() == ki);
            }
            let mut first_idx: usize = 0;
            let mut last_idx: usize = 0;
            let mut found = false;
            let mut t2: usize = 0;
            while t2 < n
                invariant
                    0 <= t2 <= n,
                    i < n,
                    n == chunk.rows@.len(),
                    chunk@ == rows_view(chunk.rows@),
                    chunk@.len() == n,
                    key_in_range(chunk@, stream_key@),
                    ki == key_of(chunk@[i as int], stream_key@),
                    found <==> group_rows(chunk@.take(t2 as int), stream_key@, ki).len() > 0,
                    found ==> first_idx < t2 && last_idx < t2 && chunk@[first_idx as int]
                        == group_rows(chunk@.take(t2 as int), stream_key@, ki)[0]
                        && chunk@[last_idx as int] == group_rows(
                        chunk@.take(t2 as int),
                        stream_key@,
                        ki,
                    ).last(),
                decreases n - t2,
            {
                proof {
                    assert(chunk@[t2 as int] == chunk.rows@[t2 as int]@);
                    assert(chunk@.take(t2 as int + 1).drop_last() =~= chunk@.take(t2 as int));
                    assert(chunk@.take(t2 as int + 1).last() == chunk@[t2 as int]);
                }
                if rows_same_key(&chunk.rows[t2], &chunk.rows[i], stream_key) {
                    if !found {
                        first_idx = t2;
                        found = true;
                    }
                    last_idx = t2;
                }
                t2 += 1;
            }
            proof {
                assert(chunk@.take(n as int) =~= chunk@);
                assert(key_of(chunk@.take(n as int)[i as int], stream_key@) == ki);
                lemma_group_iff_key_occurs(chunk@, stream_key@, ki);
                assert(found);
            }
            let ghost g = group_rows(chunk@, stream_key@, ki);
            let ghost before = rows_view(out_rows@);
            let first_insert_like = op_insert_like(chunk.rows[first_idx].op);
            let last_insert_like = op_insert_like(chunk.rows[last_idx].op);
            if first_insert_like {
                if last_insert_like {
                    let row = Row {
                        op: Op::Insert,
                        values: clone_values(&chunk.rows[last_idx].values),
                    };
                    proof {
                        assert(row@ =~= net_rows(g)[0]);
                    }
                    out_rows.push(row);
                }
            } else {
                if last_insert_like {
                    let row0 = Row {
                        op: Op::UpdateDelete,
                        values: clone_values(&chunk.rows[first_idx].values),
                    };
                    let row1 = Row {
                        op: Op::UpdateInsert,
                        values: clone_values(&chunk.rows[last_idx].values),
                    };
                    proof {
                        assert(row0@ =~= net_rows(g)[0]);
                        assert(row1@ =~= net_rows(g)[1]);
                    }
                    out_rows.push(row0);
                    out_rows.push(row1);
                } else {
                    let row = Row {
                        op: Op::Delete,
                        values: clone_values(&chunk.rows[first_idx].values),
                    };
                    proof {
                        assert(row@ =~= net_rows(g)[0]);
                    }
                    out_rows.push(row);
                }
            }
            proof {
                assert(rows_view(out_rows@) =~= before + net_rows(g));
                assert(rows_view(out_rows@) =~= reduce_keyed(
                    keys_i.push(ki),
                    chunk@,
                    stream_key@,
                ));
            }
        } else {
            proof {
                assert(keys_in_order(chunk@.take(i as int + 1), stream_key@) == keys_i);
            }
        }
        i += 1;
    }
    proof {
        assert(chunk@.take(n as int) =~= chunk@);
    }
    StreamChunk { rows: out_rows }
}

/// Every row of a key's group carries that key.
pub proof fn lemma_group_rows_key(rows: Seq<RowView>, stream_key: Seq<usize>, k: Seq<i64>)
    ensures
        forall|i: int|
            0 <= i < group_rows(rows, stream_key, k).len() ==> key_of(
                group_rows(rows, stream_key, k)[i],
                stream_key,
            ) == k,
    decreases rows.len(),
{
    if rows.len() > 0 {
        lemma_group_rows_key(rows.drop_last(), stream_key, k);
        let g = group_rows(rows, stream_key, k);
        let rest = group_rows(rows.drop_last(), stream_key, k);
        assert forall|i: int| 0 <= i < g.len() implies key_of(g[i], stream_key) == k by {
            if i < rest.len() {
                assert(g[i] == rest[i]);
            }
        }
    }
}

/// Every net-effect row of a key's group carries that key.
pub proof fn lemma_net_rows_key(rows: Seq<RowView>, stream_key: Seq<usize>, k: Seq<i64>)
    ensures
        forall|i: int|
            0 <= i < net_rows(group_rows(rows, stream_key, k)).len() ==> key_of(
                net_rows(group_rows(rows, stream_key, k))[i],
                stream_key,
            ) == k,
{
    lemma_group_rows_key(rows, stream_key, k);
    let g = group_rows(rows, stream_key, k);
    if g.len() > 0 {
        assert(key_of(g[0], stream_key) == k);
        assert(key_of(g.last(), stream_key) == k);
        assert forall|i: int|
            0 <= i < net_rows(g).len() implies key_of(net_rows(g)[i], stream_key) == k by {
            let r = net_rows(g)[i];
            if r.values == g[0].values {
                assert(key_of(r, stream_key) =~= key_of(g[0], stream_key));
            }
            if r.values == g.last().values {
                assert(key_of(r, stream_key) =~= key_of(g.last(), stream_key));
            }
        }
    }
}

/// Every row of the reduced batch for `keys` belongs to a listed key's net
/// effect.
pub proof fn lemma_reduce_keyed_elem(
    keys: Seq<Seq<i64>>,
    rows: Seq<RowView>,
    stream_key: Seq<usize>,
    i: int,
)
    requires
        0 <= i < reduce_keyed(keys, rows, stream_key).len(),
    ensures
        exists|j: int|
            0 <= j < keys.len() && net_rows(group_rows(rows, stream_key, keys[j])).contains(
                reduce_keyed(keys, rows, stream_key)[i],
            ),
    decreases keys.len(),
{
    if keys.len() > 0 {
        let r = reduce_keyed(keys, rows, stream_key);
        let rest = reduce_keyed(keys.drop_last(), rows, stream_key);
        let net = net_rows(group_rows(rows, stream_key, keys.last()));
        if i < rest.len() {
            lemma_reduce_keyed_elem(keys.drop_last(), rows, stream_key, i);
            let j = choose|j: int|
                0 <= j < keys.drop_last().len() && net_rows(
                    group_rows(rows, stream_key, keys.drop_last()[j]),
                ).contains(rest[i]);
            assert(keys[j] == keys.drop_last()[j]);
            assert(r[i] == rest[i]);
            assert(net_rows(group_rows(rows, stream_key, keys[j])).contains(r[i]));
        } else {
            assert(r[i] == net[i - rest.len()]);
            assert(net.contains(net[i - rest.len()]));
            assert(keys.last() == keys[keys.len() - 1]);
            assert(net_rows(group_rows(rows, stream_key, keys[keys.len() - 1])).contains(r[i]));
        }
    }
}

/// Each net-effect row of a listed key stands in the reduced batch.
pub proof fn lemma_reduce_keyed_contains(
    keys: Seq<Seq<i64>>,
    rows: Seq<RowView>,
    stream_key: Seq<usize>,
    j: int,
    t: int,
)
    requires
        0 <= j < keys.len(),
        0 <= t < net_rows(group_rows(rows, stream_key, keys[j])).len(),
    ensures
        reduce_keyed(keys, rows, stream_key).contains(
            net_rows(group_rows(rows, stream_key, keys[j]))[t],
        ),
    decreases keys.len(),
{
    let r = reduce_keyed(keys, rows, stream_key);
    let rest = reduce_keyed(keys.drop_last(), rows, stream_key);
    let net = net_rows(group_rows(rows, stream_key, keys.last()));
    if j == keys.len() - 1 {
        assert(r[rest.len() + t] == net[t]);
        assert(r.contains(net[t]));
    } else {
        assert(keys.drop_last()[j] == keys[j]);
        lemma_reduce_keyed_contains(keys.drop_last(), rows, stream_key, j, t);
        let e = net_rows(group_rows(rows, stream_key, keys[j]))[t];
        let w = choose|w: int| 0 <= w < rest.len() && rest[w] == e;
        assert(r[w] == e);
        assert(r.contains(e));
    }
}

/// Law (dedup cancellation): when a key's change sequence within a batch
/// begins insert-like and ends delete-like — a row inserted and deleted again
/// within the same batch — the reduced batch carries no row of that key.
pub proof fn lemma_dedup_cancels(rows: Seq<RowView>, stream_key: Seq<usize>, k: Seq<i64>)
    requires
        group_rows(rows, stream_key, k).len() > 0,
        op_is_insert_like(group_rows(rows, stream_key, k)[0].op),
        op_is_delete_like(group_rows(rows, stream_key, k).last().op),
    ensures
        forall|i: int|
            0 <= i < spec_merge_chunk(rows, stream_key).len() ==> key_of(
                spec_merge_chunk(rows, stream_key)[i],
                stream_key,
            ) != k,
{
    let keys = keys_in_order(rows, stream_key);
    let m = spec_merge_chunk(rows, stream_key);
    assert(net_rows(group_rows(rows, stream_key, k)).len() == 0);
    assert forall|i: int| 0 <= i < m.len() implies key_of(m[i], stream_key) != k by {
        lemma_reduce_keyed_elem(keys, rows, stream_key, i);
        let j = choose|j: int|
            0 <= j < keys.len() && net_rows(group_rows(rows, stream_key, keys[j])).contains(m[i]);
        lemma_net_rows_key(rows, stream_key, keys[j]);
        let net = net_rows(group_rows(rows, stream_key, keys[j]));
        let w = choose|w: int| 0 <= w < net.len() && net[w] == m[i];
        assert(key_of(m[i], stream_key) == keys[j]);
        assert(keys[j] != k);
    }
}

/// Law (dedup collapse): when a key's change sequence begins and ends
/// insert-like — e.g. an insert followed by an update-insert of the same key —
/// the reduced batch carries exactly one row of that key: a plain insert with
/// the latest values.
pub proof fn lemma_dedup_insert_collapse(rows: Seq<RowView>, stream_key: Seq<usize>, k: Seq<i64>)
    requires
        group_rows(rows, stream_key, k).len() > 0,
        op_is_insert_like(group_rows(rows, stream_key, k)[0].op),
        op_is_insert_like(group_rows(rows, stream_key, k).last().op),
    ensures
        spec_merge_chunk(rows, stream_key).contains(
            RowView { op: Op::Insert, values: group_rows(rows, stream_key, k).last().values },
        ),
        forall|i: int|
            0 <= i < spec_merge_chunk(rows, stream_key).len() && key_of(
                spec_merge_chunk(rows, stream_key)[i],
                stream_key,
            ) == k ==> spec_merge_chunk(rows, stream_key)[i] == (RowView {
                op: Op::Insert,
                values: group_rows(rows, stream_key, k).last().values,
            }),
{
    let keys = keys_in_order(rows, stream_key);
    let m = spec_merge_chunk(rows, stream_key);
    let g = group_rows(rows, stream_key, k);
    let target = RowView { op: Op::Insert, values: g.last().values };
    assert(net_rows(g) == seq![target]);
    lemma_keys_iff_group(rows, stream_key, k);
    let j = choose|j: int| 0 <= j < keys.len() && keys[j] == k;
    lemma_reduce_keyed_contains(keys, rows, stream_key, j, 0);
    assert(m.contains(target));
    assert forall|i: int|
        0 <= i < m.len() && key_of(m[i], stream_key) == k implies m[i] == target by {
        lemma_reduce_keyed_elem(keys, rows, stream_key, i);
        let j2 = choose|j2: int|
            0 <= j2 < keys.len() && net_rows(group_rows(rows, stream_key, keys[j2])).contains(
                m[i],
            );
        lemma_net_rows_key(rows, stream_key, keys[j2]);
        let net2 = net_rows(group_rows(rows, stream_key, keys[j2]));
        let w = choose|w: int| 0 <= w < net2.len() && net2[w] == m[i];
        assert(key_of(m[i], stream_key) == keys[j2]);
        assert(keys[j2] == k);
        assert(net2 == seq![target]);
    }
}

/// How many rows of a batch are insert-like.
pub open spec fn count_insert_like(rows: Seq<RowView>) -> nat
    decreases rows.len(),
{
    if rows.len() == 0 {
        0
    } else {
        count_insert_like(rows.drop_last()) + if op_is_insert_like(rows.last().op) {
            1nat
        } else {
            0nat
        }
    }
}

/// Law (forced append-only): after the rewrite no row is delete-like, every
/// surviving row is a plain insert, and the surviving row count equals the
/// batch's count of insert and update-insert rows.
pub proof fn lemma_force_append_only_correct(rows: Seq<RowView>)
    ensures
        forall|i: int|
            0 <= i < spec_force_append_only(rows).len() ==> spec_force_append_only(rows)[i].op
                == Op::Insert,
        forall|i: int|
            0 <= i < spec_force_append_only(rows).len() ==> !op_is_delete_like(
                spec_force_append_only(rows)[i].op,
            ),
        spec_force_append_only(rows).len() == count_insert_like(rows),
    decreases rows.len(),
{
    if rows.len() > 0 {
        lemma_force_append_only_correct(rows.drop_last());
        let r = spec_force_append_only(rows);
        let rest = spec_force_append_only(rows.drop_last());
        assert forall|i: int| 0 <= i < r.len() implies r[i].op == Op::Insert by {
            if i < rest.len() {
                assert(r[i] == rest[i]);
            }
        }
    }
}

/// The forced append-only image of a batch: insert-like rows survive as plain
/// inserts with their values, delete-like rows are suppressed.
pub open spec fn spec_force_append_only(rows: Seq<RowView>) -> Seq<RowView>
    decreases rows.len(),
{
    if rows.len() == 0 {
        Seq::empty()
    } else {
        let rest = spec_force_append_only(rows.drop_last());
        let r = rows.last();
        if op_is_insert_like(r.op) {
            rest.push(RowView { op: Op::Insert, values: r.values })
        } else {
            rest
        }
    }
}

/// Rewrite a batch into pure insertions: every insert is kept, every
/// update-insert is re-tagged as an insert, every delete-like row is dropped.
pub fn force_append_only(c: StreamChunk) -> (out: StreamChunk)
    ensures
        out@ == spec_force_append_only(c@),
{
    let mut rows: Vec<Row> = Vec::new();
    let n = c.rows.len();
    let mut i: usize = 0;
    while i < n
        invariant
            0 <= i <= n,
            n == c.rows@.len(),
            c@ == rows_view(c.rows@),
            c@.len() == n,
            rows_view(rows@) =~= spec_force_append_only(c@.take(i as int)),
        decreases n - i,
    {
        proof {
            assert(c@[i as int] == c.rows@[i as int]@);
            assert(c@.take(i as int + 1).drop_last() =~= c@.take(i as int));
            assert(c@.take(i as int + 1).last() == c@[i as int]);
        }
        let ghost before = rows_view(rows@);
        if op_insert_like(c.rows[i].op) {
            let row = Row { op: Op::Insert, values: clone_values(&c.rows[i].values) };
            proof {
                assert(row@ =~= RowView { op: Op::Insert, values: c@[i as int].values });
            }
            rows.push(row);
        }
        proof {
            assert(rows_view(rows@) =~= spec_force_append_only(c@.take(i as int + 1)));
        }
        i += 1;
    }
    proof {
        assert(c@.take(n as int) =~= c@);
    }
    StreamChunk { rows }
}

} // verus!
