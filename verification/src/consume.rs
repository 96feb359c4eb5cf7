//! Consume driver: replays log items into the sink connector under strict
//! epoch discipline and truncates the log exactly when a checkpoint commit has
//! succeeded.
//!
//! Every decision is the pure step function `consume_step`: from consumer
//! state and one log item it yields the next state and the ordered connector
//! and log effects. The surrounding process performs the effects in order and
//! stops at the first failure.

use vstd::prelude::*;

use crate::chunk::{
    lemma_visible_indices_in_range, spec_project, spec_visible_indices, visible_indices,
    project_chunk, ColumnInfo, RowView, StreamChunk, VnodeBitmap,
};
use crate::ProtocolViolation;

verus! {

/// One item read from the log store, paired with its epoch by the reader.
#[derive(Clone, Debug, PartialEq, Eq)]
pub enum LogStoreReadItem {
    StreamChunk { chunk: StreamChunk },
    Barrier { is_checkpoint: bool },
    UpdateVnodeBitmap { bitmap: VnodeBitmap },
}

/// Mathematical image of a log item.
#[verifier::ext_equal]
pub enum LogStoreReadItemView {
    StreamChunk { chunk: Seq<RowView> },
    Barrier { is_checkpoint: bool },
    UpdateVnodeBitmap { bitmap: Seq<bool> },
}

impl View for LogStoreReadItem {
    type V = LogStoreReadItemView;

    open spec fn view(&self) -> LogStoreReadItemView {
        match self {
            LogStoreReadItem::StreamChunk { chunk } => LogStoreReadItemView::StreamChunk {
                chunk: chunk@,
            },
            LogStoreReadItem::Barrier { is_checkpoint } => LogStoreReadItemView::Barrier {
                is_checkpoint: *is_checkpoint,
            },
            LogStoreReadItem::UpdateVnodeBitmap { bitmap } => {
                LogStoreReadItemView::UpdateVnodeBitmap { bitmap: bitmap@ }
            },
        }
    }
}

/// One effect of the consume driver, in the order it must be performed: calls
/// into the sink connector, and the log truncation after a checkpoint commit.
#[derive(Clone, Debug, PartialEq, Eq)]
pub enum SinkAction {
    /// Begin `epoch` on the sink connector.
    BeginEpoch { epoch: u64 },
    /// Hand a batch to the connector's batch-write operation.
    WriteBatch { chunk: StreamChunk },
    /// The connector's barrier call: a durable commit when `is_checkpoint`.
    Commit { epoch: u64, is_checkpoint: bool },
    /// Discard all log items at or before `epoch`: they are durably reflected
    /// in the sink.
    Truncate { epoch: u64 },
    /// Forward a partition-ownership change to the connector.
    UpdateVnodeBitmap { bitmap: VnodeBitmap },
}

/// Mathematical image of a sink effect.
#[verifier::ext_equal]
pub enum SinkActionView {
    BeginEpoch { epoch: u64 },
    WriteBatch { chunk: Seq<RowView> },
    Commit { epoch: u64, is_checkpoint: bool },
    Truncate { epoch: u64 },
    UpdateVnodeBitmap { bitmap: Seq<bool> },
}

impl View for SinkAction {
    type V = SinkActionView;

    open spec fn view(&self) -> SinkActionView {
        match self {
            SinkAction::BeginEpoch { epoch } => SinkActionView::BeginEpoch { epoch: *epoch },
            SinkAction::WriteBatch { chunk } => SinkActionView::WriteBatch { chunk: chunk@ },
            SinkAction::Commit { epoch, is_checkpoint } => SinkActionView::Commit {
                epoch: *epoch,
                is_checkpoint: *is_checkpoint,
            },
            SinkAction::Truncate { epoch } => SinkActionView::Truncate { epoch: *epoch },
            SinkAction::UpdateVnodeBitmap { bitmap } => SinkActionView::UpdateVnodeBitmap {
                bitmap: bitmap@,
            },
        }
    }
}

/// The mathematical image of a sequence of sink effects.
pub open spec fn actions_view(actions: Seq<SinkAction>) -> Seq<SinkActionView> {
    actions.map(|i: int, a: SinkAction| a@)
}

/// Consumer state, owned exclusively by the consume driver.
#[derive(Clone, Copy, Debug, PartialEq, Eq, Structural)]
pub enum LogConsumerState {
    /// No epoch has begun yet.
    Uninitialized,
    /// An epoch is open on the sink connector; batches may be written.
    EpochBegun { curr_epoch: u64 },
    /// The barrier closing `prev_epoch` has been processed; the connector has
    /// not yet been told of a new epoch.
    BarrierReceived { prev_epoch: u64 },
}

/// The protocol breach, if any, of consuming `item` at `epoch` in `state`:
/// an ownership update anywhere but right after a barrier, an epoch below the
/// one begun, or an epoch not strictly above the barrier just received.
pub open spec fn spec_consume_error(
    state: LogConsumerState,
    epoch: u64,
    item: LogStoreReadItemView,
) -> Option<ProtocolViolation> {
    if item matches LogStoreReadItemView::UpdateVnodeBitmap { bitmap } && !(
    state matches LogConsumerState::BarrierReceived { prev_epoch }) {
        Some(ProtocolViolation::VnodeUpdateMidEpoch)
    } else {
        match state {
            LogConsumerState::Uninitialized => None,
            LogConsumerState::EpochBegun { curr_epoch } => if epoch < curr_epoch {
                Some(ProtocolViolation::EpochOutOfOrder { current: curr_epoch, incoming: epoch })
            } else {
                None
            },
            LogConsumerState::BarrierReceived { prev_epoch } => if epoch <= prev_epoch {
                Some(ProtocolViolation::EpochOutOfOrder { current: prev_epoch, incoming: epoch })
            } else {
                None
            },
        }
    }
}

/// The begin-epoch effect owed before `item` is dispatched: a new epoch is
/// begun when none is open, never while one is.
pub open spec fn spec_begin_actions(state: LogConsumerState, epoch: u64) -> Seq<SinkActionView> {
    match state {
        LogConsumerState::EpochBegun { curr_epoch } => Seq::empty(),
        _ => seq![SinkActionView::BeginEpoch { epoch }],
    }
}

/// The effects of the item itself: a batch write (hidden columns projected
/// away), a commit — followed by a log truncation exactly when it is a
/// checkpoint — or a forwarded ownership change.
pub open spec fn spec_item_actions(
    epoch: u64,
    item: LogStoreReadItemView,
    cols: Seq<ColumnInfo>,
) -> Seq<SinkActionView> {
    match item {
        LogStoreReadItemView::StreamChunk { chunk } => {
            let visible = spec_visible_indices(cols);
            let out = if visible.len() != cols.len() {
                spec_project(chunk, visible)
            } else {
                chunk
            };
            seq![SinkActionView::WriteBatch { chunk: out }]
        },
        LogStoreReadItemView::Barrier { is_checkpoint } => {
            if is_checkpoint {
                seq![
                    SinkActionView::Commit { epoch, is_checkpoint: true },
                    SinkActionView::Truncate { epoch },
                ]
            } else {
                seq![SinkActionView::Commit { epoch, is_checkpoint: false }]
            }
        },
        LogStoreReadItemView::UpdateVnodeBitmap { bitmap } => {
            seq![SinkActionView::UpdateVnodeBitmap { bitmap }]
        },
    }
}

/// The consumer state after `item` at `epoch`: a barrier closes its epoch,
/// anything else leaves the item's epoch begun.
pub open spec fn spec_next_state(epoch: u64, item: LogStoreReadItemView) -> LogConsumerState {
    match item {
        LogStoreReadItemView::Barrier { is_checkpoint } => LogConsumerState::BarrierReceived {
            prev_epoch: epoch,
        },
        _ => LogConsumerState::EpochBegun { curr_epoch: epoch },
    }
}

/// The whole step: protocol check, epoch transition, item dispatch.
pub open spec fn spec_consume_step(
    state: LogConsumerState,
    epoch: u64,
    item: LogStoreReadItemView,
    cols: Seq<ColumnInfo>,
) -> Result<(LogConsumerState, Seq<SinkActionView>), ProtocolViolation> {
    match spec_consume_error(state, epoch, item) {
        Some(v) => Err(v),
        None => Ok(
            (
                spec_next_state(epoch, item),
                spec_begin_actions(state, epoch) + spec_item_actions(epoch, item, cols),
            ),
        ),
    }
}

/// Every row of a chunk item carries exactly one value per schema column.
pub open spec fn item_matches_schema(item: LogStoreReadItemView, cols: Seq<ColumnInfo>) -> bool {
    item matches LogStoreReadItemView::StreamChunk { chunk } ==> forall|i: int|
        0 <= i < chunk.len() ==> (#[trigger] chunk[i]).values.len() == cols.len()
}

/// Consume one log item: check the protocol, open an epoch if none is open,
/// and dispatch the item into connector and log effects, in order.
///
/// Epochs never regress: while an epoch is begun an item's epoch may only
/// grow, and after a barrier the next item's epoch must be strictly greater.
/// The log is truncated at an epoch exactly when the item is a checkpoint
/// barrier of that epoch, and only right after its commit effect.
pub fn consume_step(
    state: LogConsumerState,
    epoch: u64,
    item: LogStoreReadItem,
    columns: &Vec<ColumnInfo>,
) -> (res: Result<(LogConsumerState, Vec<SinkAction>), ProtocolViolation>)
    requires
        item_matches_schema(item@, columns@),
    ensures
        res is Ok <==> spec_consume_step(state, epoch, item@, columns@) is Ok,
        res is Ok ==> res->Ok_0.0 == spec_consume_step(state, epoch, item@, columns@)->Ok_0.0,
        res is Ok ==> actions_view(res->Ok_0.1@) == spec_consume_step(
            state,
            epoch,
            item@,
            columns@,
        )->Ok_0.1,
        res is Err ==> Some(res->Err_0) == spec_consume_error(state, epoch, item@),
{
    let ghost iv = item@;
    let item_is_vnode_update = matches!(item, LogStoreReadItem::UpdateVnodeBitmap { .. });
    let in_barrier_received = matches!(state, LogConsumerState::BarrierReceived { .. });
    if item_is_vnode_update && !in_barrier_received {
        return Err(ProtocolViolation::VnodeUpdateMidEpoch);
    }
    let mut actions: Vec<SinkAction> = Vec::new();
    match state {
        LogConsumerState::Uninitialized => {
            actions.push(SinkAction::BeginEpoch { epoch });
        },
        LogConsumerState::EpochBegun { curr_epoch } => {
            if epoch < curr_epoch {
                return Err(ProtocolViolation::EpochOutOfOrder { current: curr_epoch, incoming: epoch });
            }
        },
        LogConsumerState::BarrierReceived { prev_epoch } => {
            if epoch <= prev_epoch {
                return Err(ProtocolViolation::EpochOutOfOrder { current: prev_epoch, incoming: epoch });
            }
            actions.push(SinkAction::BeginEpoch { epoch });
        },
    }
    proof {
        assert(actions_view(actions@) =~= spec_begin_actions(state, epoch));
    }
    let ghost begin = actions_view(actions@);
    let next_state: LogConsumerState = match item {
        LogStoreReadItem::StreamChunk { chunk } => {
            proof {
                assert(iv matches LogStoreReadItemView::StreamChunk { chunk: cv } && cv
                    == chunk@);
            }
            let visible = visible_indices(columns);
            let out = if visible.len() != columns.len() {
                proof {
                    lemma_visible_indices_in_range(columns@);
                }
                project_chunk(&chunk, &visible)
            } else {
                chunk
            };
            actions.push(SinkAction::WriteBatch { chunk: out });
            LogConsumerState::EpochBegun { curr_epoch: epoch }
        },
        LogStoreReadItem::Barrier { is_checkpoint } => {
            if is_checkpoint {
                actions.push(SinkAction::Commit { epoch, is_checkpoint: true });
                actions.push(SinkAction::Truncate { epoch });
            } else {
                actions.push(SinkAction::Commit { epoch, is_checkpoint: false });
            }
            LogConsumerState::BarrierReceived { prev_epoch: epoch }
        },
        LogStoreReadItem::UpdateVnodeBitmap { bitmap } => {
            proof {
                assert(iv matches LogStoreReadItemView::UpdateVnodeBitmap { bitmap: bv } && bv
                    == bitmap@);
            }
            actions.push(SinkAction::UpdateVnodeBitmap { bitmap });
            LogConsumerState::EpochBegun { curr_epoch: epoch }
        },
    };
    proof {
        assert(actions_view(actions@) =~= begin + spec_item_actions(epoch, iv, columns@));
    }
    Ok((next_state, actions))
}

/// The mathematical image of a sequence of log entries.
pub open spec fn entries_view(entries: Seq<(u64, LogStoreReadItem)>) -> Seq<
    (u64, LogStoreReadItemView),
> {
    entries.map(|i: int, e: (u64, LogStoreReadItem)| (e.0, e.1@))
}

/// Every chunk entry carries exactly one value per schema column.
pub open spec fn entries_match_schema(
    entries: Seq<(u64, LogStoreReadItemView)>,
    cols: Seq<ColumnInfo>,
) -> bool {
    forall|i: int|
        0 <= i < entries.len() ==> item_matches_schema((#[trigger] entries[i]).1, cols)
}

/// Consume a sequence of log entries from `state`: the steps' effects in
/// order, stopped at the first protocol breach.
pub open spec fn spec_run_consume(
    state: LogConsumerState,
    entries: Seq<(u64, LogStoreReadItemView)>,
    cols: Seq<ColumnInfo>,
) -> Result<(LogConsumerState, Seq<SinkActionView>), ProtocolViolation>
    decreases entries.len(),
{
    if entries.len() == 0 {
        Ok((state, Seq::empty()))
    } else {
        match spec_consume_step(state, entries[0].0, entries[0].1, cols) {
            Err(v) => Err(v),
            Ok((s1, a1)) => match spec_run_consume(s1, entries.drop_first(), cols) {
                Err(v) => Err(v),
                Ok((s2, a2)) => Ok((s2, a1 + a2)),
            },
        }
    }
}

/// A run's outcome with the effects `done` already performed in front of it.
pub open spec fn run_continue(
    done: Seq<SinkActionView>,
    state: LogConsumerState,
    rest: Seq<(u64, LogStoreReadItemView)>,
    cols: Seq<ColumnInfo>,
) -> Result<(LogConsumerState, Seq<SinkActionView>), ProtocolViolation> {
    match spec_run_consume(state, rest, cols) {
        Err(v) => Err(v),
        Ok((s, a)) => Ok((s, done + a)),
    }
}

/// Consume a whole sequence of log entries, starting uninitialized: the
/// executable counterpart of `spec_run_consume`. Returns the final consumer
/// state and the full ordered effect trace, or the first protocol breach.
pub fn run_consume_log(
    entries: Vec<(u64, LogStoreReadItem)>,
    columns: &Vec<ColumnInfo>,
) -> (res: Result<(LogConsumerState, Vec<SinkAction>), ProtocolViolation>)
    requires
        entries_match_schema(entries_view(entries@), columns@),
    ensures
        res is Ok <==> spec_run_consume(
            LogConsumerState::Uninitialized,
            entries_view(entries@),
            columns@,
        ) is Ok,
        res is Ok ==> res->Ok_0.0 == spec_run_consume(
            LogConsumerState::Uninitialized,
            entries_view(entries@),
            columns@,
        )->Ok_0.0 && actions_view(res->Ok_0.1@) == spec_run_consume(
            LogConsumerState::Uninitialized,
            entries_view(entries@),
            columns@,
        )->Ok_0.1,
        res is Err ==> spec_run_consume(
            LogConsumerState::Uninitialized,
            entries_view(entries@),
            columns@,
        ) is Err && spec_run_consume(
            LogConsumerState::Uninitialized,
            entries_view(entries@),
            columns@,
        )->Err_0 == res->Err_0,
{
    let ghost orig = entries_view(entries@);
    let mut rest = entries;
    let mut state = LogConsumerState::Uninitialized;
    let mut actions: Vec<SinkAction> = Vec::new();
    while rest.len() > 0
        invariant
            orig == entries_view(entries@),
            entries_match_schema(entries_view(rest@), columns@),
            spec_run_consume(LogConsumerState::Uninitialized, orig, columns@) == run_continue(
                actions_view(actions@),
                state,
                entries_view(rest@),
                columns@,
            ),
        decreases rest@.len(),
    {
        let ghost pre = entries_view(rest@);
        let ghost done = actions_view(actions@);
        let ghost state0 = state;
        let (epoch, item) = rest.remove(0);
        let ghost iv = item@;
        proof {
            assert(pre[0] == (epoch, iv));
            assert(entries_view(rest@) =~= pre.drop_first());
            assert(item_matches_schema(iv, columns@));
        }
        match consume_step(state, epoch, item, columns) {
            Err(v) => {
                proof {
                    assert(pre[0].0 == epoch && pre[0].1 == iv);
                    assert(spec_consume_step(state0, epoch, iv, columns@) is Err);
                    assert(spec_consume_step(state0, epoch, iv, columns@)->Err_0 == v);
                    assert(spec_run_consume(state0, pre, columns@) is Err);
                    assert(spec_run_consume(state0, pre, columns@)->Err_0 == v);
                    assert(run_continue(done, state0, pre, columns@) is Err);
                    assert(run_continue(done, state0, pre, columns@)->Err_0 == v);
                }
                return Err(v);
            },
            Ok((s1, a1)) => {
                let ghost a1v = actions_view(a1@);
                let mut a1m = a1;
                actions.append(&mut a1m);
                state = s1;
                proof {
                    assert(spec_consume_step(state0, epoch, iv, columns@) is Ok);
                    assert(spec_consume_step(state0, epoch, iv, columns@)->Ok_0.0 == s1);
                    assert(spec_consume_step(state0, epoch, iv, columns@)->Ok_0.1 == a1v);
                    assert(actions_view(actions@) =~= done + a1v);
                    if spec_run_consume(s1, pre.drop_first(), columns@) is Ok {
                        let a2 = spec_run_consume(s1, pre.drop_first(), columns@)->Ok_0.1;
                        assert(done + (a1v + a2) =~= (done + a1v) + a2);
                    }
                    assert(run_continue(done, state0, pre, columns@) == run_continue(
                        done + a1v,
                        s1,
                        pre.drop_first(),
                        columns@,
                    ));
                }
            },
        }
    }
    proof {
        assert(entries_view(rest@) =~= Seq::<(u64, LogStoreReadItemView)>::empty());
        assert(actions_view(actions@) + Seq::<SinkActionView>::empty() =~= actions_view(
            actions@,
        ));
    }
    Ok((state, actions))
}

/// Consuming a concatenation is consuming the parts in order.
pub proof fn lemma_run_consume_add(
    state: LogConsumerState,
    a: Seq<(u64, LogStoreReadItemView)>,
    b: Seq<(u64, LogStoreReadItemView)>,
    cols: Seq<ColumnInfo>,
)
    ensures
        spec_run_consume(state, a, cols) is Err ==> spec_run_consume(state, a + b, cols)
            == spec_run_consume(state, a, cols),
        spec_run_consume(state, a, cols) is Ok ==> ({
            let mid = spec_run_consume(state, a, cols)->Ok_0;
            let rb = spec_run_consume(mid.0, b, cols);
            &&& (rb is Err ==> spec_run_consume(state, a + b, cols) == rb)
            &&& (rb is Ok ==> spec_run_consume(state, a + b, cols) is Ok && spec_run_consume(
                state,
                a + b,
                cols,
            )->Ok_0.0 == rb->Ok_0.0 && spec_run_consume(state, a + b, cols)->Ok_0.1 == mid.1
                + rb->Ok_0.1)
        }),
    decreases a.len(),
{
    if a.len() == 0 {
        assert(a + b =~= b);
        assert(spec_run_consume(state, a, cols) == Ok::<
            (LogConsumerState, Seq<SinkActionView>),
            ProtocolViolation,
        >((state, Seq::empty())));
        if spec_run_consume(state, b, cols) is Ok {
            assert(Seq::<SinkActionView>::empty() + spec_run_consume(state, b, cols)->Ok_0.1
                =~= spec_run_consume(state, b, cols)->Ok_0.1);
        }
    } else {
        assert((a + b).len() > 0);
        assert((a + b)[0] == a[0]);
        assert((a + b).drop_first() =~= a.drop_first() + b);
        match spec_consume_step(state, a[0].0, a[0].1, cols) {
            Err(v) => {},
            Ok((s1, a1)) => {
                lemma_run_consume_add(s1, a.drop_first(), b, cols);
                if spec_run_consume(s1, a.drop_first(), cols) is Ok {
                    let mid1 = spec_run_consume(s1, a.drop_first(), cols)->Ok_0;
                    let rb = spec_run_consume(mid1.0, b, cols);
                    if rb is Ok {
                        assert(a1 + (mid1.1 + rb->Ok_0.1) =~= (a1 + mid1.1) + rb->Ok_0.1);
                    }
                }
            },
        }
    }
}

/// Law (epoch monotonicity): along any successfully consumed item sequence,
/// an item's epoch is never below the epoch last begun on the connector, and
/// is strictly above the epoch of the barrier just received.
pub proof fn lemma_consume_epochs_monotonic(
    entries: Seq<(u64, LogStoreReadItemView)>,
    cols: Seq<ColumnInfo>,
    i: int,
)
    requires
        spec_run_consume(LogConsumerState::Uninitialized, entries, cols) is Ok,
        0 <= i < entries.len(),
    ensures
        spec_run_consume(LogConsumerState::Uninitialized, entries.take(i), cols) is Ok,
        ({
            let before = spec_run_consume(
                LogConsumerState::Uninitialized,
                entries.take(i),
                cols,
            )->Ok_0.0;
            &&& (before matches LogConsumerState::EpochBegun { curr_epoch } ==> entries[i].0
                >= curr_epoch)
            &&& (before matches LogConsumerState::BarrierReceived { prev_epoch } ==> entries[i].0
                > prev_epoch)
        }),
{
    assert(entries =~= entries.take(i) + entries.skip(i));
    lemma_run_consume_add(LogConsumerState::Uninitialized, entries.take(i), entries.skip(i), cols);
    let before = spec_run_consume(LogConsumerState::Uninitialized, entries.take(i), cols);
    assert(before is Ok);
    let mid = before->Ok_0.0;
    assert(spec_run_consume(mid, entries.skip(i), cols) is Ok);
    assert(entries.skip(i).len() > 0);
    assert(entries.skip(i)[0] == entries[i]);
    assert(spec_consume_step(mid, entries[i].0, entries[i].1, cols) is Ok);
}

/// Truncations and checkpoint commits come in adjacent pairs: a truncation at
/// an epoch stands exactly one place after the checkpoint commit of that
/// epoch, and every checkpoint commit is followed at once by its truncation.
pub open spec fn truncate_paired(acts: Seq<SinkActionView>) -> bool {
    &&& forall|j: int|
        0 <= j < acts.len() ==> ((#[trigger] acts[j]) matches SinkActionView::Truncate { epoch }
            ==> j >= 1 && acts[j - 1] == (SinkActionView::Commit { epoch, is_checkpoint: true }))
    &&& forall|j: int|
        0 <= j < acts.len() ==> ((#[trigger] acts[j]) matches SinkActionView::Commit {
            epoch,
            is_checkpoint: true,
        } ==> j + 1 < acts.len() && acts[j + 1] == (SinkActionView::Truncate { epoch }))
}

/// One step's effects are truncation-paired, never start with a truncation and
/// never end in a checkpoint commit left open.
proof fn lemma_step_actions_paired(
    state: LogConsumerState,
    epoch: u64,
    item: LogStoreReadItemView,
    cols: Seq<ColumnInfo>,
)
    requires
        spec_consume_step(state, epoch, item, cols) is Ok,
    ensures
        ({
            let a1 = spec_consume_step(state, epoch, item, cols)->Ok_0.1;
            &&& truncate_paired(a1)
            &&& a1.len() > 0
            &&& !(a1[0] is Truncate)
            &&& !(a1.last() matches SinkActionView::Commit { epoch: e, is_checkpoint: true })
        }),
{
    let ba = spec_begin_actions(state, epoch);
    let ia = spec_item_actions(epoch, item, cols);
    let a1 = spec_consume_step(state, epoch, item, cols)->Ok_0.1;
    assert(a1 == ba + ia);
    assert(ba.len() <= 1);
    assert(ba.len() == 1 ==> ba[0] == (SinkActionView::BeginEpoch { epoch }));
    match item {
        LogStoreReadItemView::StreamChunk { chunk } => {
            assert(ia.len() == 1);
            assert(a1.last() == ia[0]);
        },
        LogStoreReadItemView::Barrier { is_checkpoint } => {
            if is_checkpoint {
                assert(ia.len() == 2);
                assert(ia[0] == (SinkActionView::Commit { epoch, is_checkpoint: true }));
                assert(ia[1] == (SinkActionView::Truncate { epoch }));
                assert(a1[ba.len() as int] == ia[0]);
                assert(a1[ba.len() as int + 1] == ia[1]);
                assert(a1.last() == ia[1]);
            } else {
                assert(ia.len() == 1);
                assert(a1.last() == ia[0]);
            }
        },
        LogStoreReadItemView::UpdateVnodeBitmap { bitmap } => {
            assert(ia.len() == 1);
            assert(a1.last() == ia[0]);
        },
    }
}

/// Pairing is preserved by concatenation when the left part leaves no commit
/// open and the right part does not begin with a truncation.
proof fn lemma_truncate_paired_add(a: Seq<SinkActionView>, b: Seq<SinkActionView>)
    requires
        truncate_paired(a),
        truncate_paired(b),
        b.len() > 0 ==> !(b[0] is Truncate),
        a.len() > 0 ==> !(a.last() matches SinkActionView::Commit { epoch, is_checkpoint: true }),
    ensures
        truncate_paired(a + b),
{
    let c = a + b;
    assert forall|j: int|
        0 <= j < c.len() implies ((#[trigger] c[j]) matches SinkActionView::Truncate { epoch }
        ==> j >= 1 && c[j - 1] == (SinkActionView::Commit { epoch, is_checkpoint: true })) by {
        if c[j] matches SinkActionView::Truncate { epoch } {
            if j < a.len() {
                assert(c[j] == a[j]);
                assert(c[j - 1] == a[j - 1]);
            } else {
                let j2 = j - a.len();
                assert(c[j] == b[j2]);
                assert(j2 >= 1);
                assert(c[j - 1] == b[j2 - 1]);
            }
        }
    }
    assert forall|j: int|
        0 <= j < c.len() implies ((#[trigger] c[j]) matches SinkActionView::Commit {
        epoch,
        is_checkpoint: true,
    } ==> j + 1 < c.len() && c[j + 1] == (SinkActionView::Truncate { epoch })) by {
        if c[j] matches SinkActionView::Commit { epoch, is_checkpoint: true } {
            if j < a.len() {
                assert(c[j] == a[j]);
                assert(j != a.len() - 1);
                assert(j + 1 < a.len());
                assert(c[j + 1] == a[j + 1]);
            } else {
                let j2 = j - a.len();
                assert(c[j] == b[j2]);
                assert(j2 + 1 < b.len());
                assert(c[j + 1] == b[j2 + 1]);
            }
        }
    }
}

/// Law (checkpoint truncation ordering): in the effect trace of any
/// successfully consumed item sequence, the log is truncated at an epoch if
/// and only if the checkpoint commit of that same epoch stands immediately
/// before the truncation — never before the commit, and never for a
/// non-checkpoint barrier.
pub proof fn lemma_checkpoint_truncation_ordering(
    state: LogConsumerState,
    entries: Seq<(u64, LogStoreReadItemView)>,
    cols: Seq<ColumnInfo>,
)
    requires
        spec_run_consume(state, entries, cols) is Ok,
    ensures
        ({
            let acts = spec_run_consume(state, entries, cols)->Ok_0.1;
            &&& truncate_paired(acts)
            &&& (acts.len() > 0 ==> !(acts[0] is Truncate))
            &&& (acts.len() > 0 ==> !(acts.last() matches SinkActionView::Commit {
                epoch,
                is_checkpoint: true,
            }))
        }),
    decreases entries.len(),
{
    if entries.len() == 0 {
    } else {
        let e = entries[0];
        let a1 = spec_consume_step(state, e.0, e.1, cols)->Ok_0.1;
        let s1 = spec_consume_step(state, e.0, e.1, cols)->Ok_0.0;
        lemma_step_actions_paired(state, e.0, e.1, cols);
        lemma_checkpoint_truncation_ordering(s1, entries.drop_first(), cols);
        let a2 = spec_run_consume(s1, entries.drop_first(), cols)->Ok_0.1;
        lemma_truncate_paired_add(a1, a2);
        let acts = spec_run_consume(state, entries, cols)->Ok_0.1;
        assert(acts == a1 + a2);
        assert(acts[0] == a1[0]);
        if a2.len() > 0 {
            assert(acts.last() == a2.last());
        } else {
            assert(acts.last() == a1.last());
        }
    }
}

} // verus!
