//! Write driver: bridges the upstream message stream to the log store while
//! passing every message through unchanged to the executor's own output —
//! except chunks, which are emitted in exactly the reduced form that was
//! appended to the log.

use vstd::prelude::*;

use crate::chunk::{
    clone_bits, clone_chunk, key_in_range, rows_view, RowView, StreamChunk, VnodeBitmap,
};
use crate::reduce::{
    force_append_only, merge_chunk_row, spec_force_append_only, spec_merge_chunk,
};
use crate::ProtocolViolation;

verus! {

/// The epoch pair carried by a barrier: the previously committed epoch and the
/// one the barrier opens.
#[derive(Clone, Copy, Debug, PartialEq, Eq, Structural)]
pub struct EpochPair {
    pub prev: u64,
    pub curr: u64,
}

/// A partition-ownership change destined for one executor instance.
#[derive(Clone, Debug, PartialEq, Eq)]
pub struct VnodeUpdate {
    pub actor_id: u32,
    pub bitmap: VnodeBitmap,
}

/// Mathematical image of a partition-ownership change.
#[verifier::ext_equal]
pub struct VnodeUpdateView {
    pub actor_id: u32,
    pub bitmap: Seq<bool>,
}

impl View for VnodeUpdate {
    type V = VnodeUpdateView;

    open spec fn view(&self) -> VnodeUpdateView {
        VnodeUpdateView { actor_id: self.actor_id, bitmap: self.bitmap@ }
    }
}

/// A barrier: the control marker closing an epoch, optionally a checkpoint,
/// optionally carrying partition-ownership updates.
#[derive(Clone, Debug, PartialEq, Eq)]
pub struct Barrier {
    pub epoch: EpochPair,
    pub is_checkpoint: bool,
    pub vnode_updates: Vec<VnodeUpdate>,
}

/// Mathematical image of a barrier.
#[verifier::ext_equal]
pub struct BarrierView {
    pub epoch: EpochPair,
    pub is_checkpoint: bool,
    pub vnode_updates: Seq<VnodeUpdateView>,
}

/// The mathematical image of a sequence of ownership updates.
pub open spec fn vnode_updates_view(updates: Seq<VnodeUpdate>) -> Seq<VnodeUpdateView> {
    updates.map(|i: int, u: VnodeUpdate| u@)
}

impl View for Barrier {
    type V = BarrierView;

    open spec fn view(&self) -> BarrierView {
        BarrierView {
            epoch: self.epoch,
            is_checkpoint: self.is_checkpoint,
            vnode_updates: vnode_updates_view(self.vnode_updates@),
        }
    }
}

/// A watermark message, passed through unchanged.
#[derive(Clone, Copy, Debug, PartialEq, Eq, Structural)]
pub struct Watermark {
    pub col_idx: usize,
    pub value: i64,
}

/// One message of the upstream stream and of the executor's own output.
#[derive(Clone, Debug, PartialEq, Eq)]
pub enum Message {
    Chunk(StreamChunk),
    Barrier(Barrier),
    Watermark(Watermark),
}

/// Mathematical image of a message.
#[verifier::ext_equal]
pub enum MessageView {
    Chunk(Seq<RowView>),
    Barrier(BarrierView),
    Watermark(Watermark),
}

impl View for Message {
    type V = MessageView;

    open spec fn view(&self) -> MessageView {
        match self {
            Message::Chunk(c) => MessageView::Chunk(c@),
            Message::Barrier(b) => MessageView::Barrier(b@),
            Message::Watermark(w) => MessageView::Watermark(*w),
        }
    }
}

/// The mathematical image of a sequence of messages.
pub open spec fn msgs_view(msgs: Seq<Message>) -> Seq<MessageView> {
    msgs.map(|i: int, m: Message| m@)
}

/// The sink's declared type, fixed per executor instance.
#[derive(Clone, Copy, Debug, PartialEq, Eq, Structural)]
pub enum SinkType {
    AppendOnly,
    ForceAppendOnly,
    Upsert,
}

/// One effect of the write driver on the log store, in order.
#[derive(Clone, Debug, PartialEq, Eq)]
pub enum LogWriterAction {
    /// Initialize the log writer at the first barrier's current epoch.
    Init { epoch: u64 },
    /// Append a reduced batch under the current epoch.
    WriteChunk { chunk: StreamChunk },
    /// Close the current epoch, marking whether it was a checkpoint.
    FlushCurrentEpoch { epoch: u64, is_checkpoint: bool },
    /// Forward a partition-ownership change to the log writer.
    UpdateVnodeBitmap { bitmap: VnodeBitmap },
}

/// Mathematical image of a log-writer effect.
#[verifier::ext_equal]
pub enum LogWriterActionView {
    Init { epoch: u64 },
    WriteChunk { chunk: Seq<RowView> },
    FlushCurrentEpoch { epoch: u64, is_checkpoint: bool },
    UpdateVnodeBitmap { bitmap: Seq<bool> },
}

impl View for LogWriterAction {
    type V = LogWriterActionView;

    open spec fn view(&self) -> LogWriterActionView {
        match self {
            LogWriterAction::Init { epoch } => LogWriterActionView::Init { epoch: *epoch },
            LogWriterAction::WriteChunk { chunk } => LogWriterActionView::WriteChunk {
                chunk: chunk@,
            },
            LogWriterAction::FlushCurrentEpoch { epoch, is_checkpoint } => {
                LogWriterActionView::FlushCurrentEpoch {
                    epoch: *epoch,
                    is_checkpoint: *is_checkpoint,
                }
            },
            LogWriterAction::UpdateVnodeBitmap { bitmap } => {
                LogWriterActionView::UpdateVnodeBitmap { bitmap: bitmap@ }
            },
        }
    }
}

/// The mathematical image of a sequence of log-writer effects.
pub open spec fn wacts_view(actions: Seq<LogWriterAction>) -> Seq<LogWriterActionView> {
    actions.map(|i: int, a: LogWriterAction| a@)
}

/// The first ownership update of a barrier destined for `actor_id`, if any.
pub open spec fn spec_vnode_update_for(updates: Seq<VnodeUpdateView>, actor_id: u32) -> Option<
    Seq<bool>,
>
    decreases updates.len(),
{
    if updates.len() == 0 {
        None
    } else if updates[0].actor_id == actor_id {
        Some(updates[0].bitmap)
    } else {
        spec_vnode_update_for(updates.drop_first(), actor_id)
    }
}

/// The ownership update a barrier carries for this executor instance, if any.
pub fn as_update_vnode_bitmap(barrier: &Barrier, actor_id: u32) -> (r: Option<VnodeBitmap>)
    ensures
        r is Some <==> spec_vnode_update_for(barrier@.vnode_updates, actor_id) is Some,
        r is Some ==> r->0@ == spec_vnode_update_for(barrier@.vnode_updates, actor_id)->0,
{
    let n = barrier.vnode_updates.len();
    proof {
        assert(barrier@.vnode_updates.skip(0) =~= barrier@.vnode_updates);
    }
    let mut i: usize = 0;
    while i < n
        invariant
            0 <= i <= n,
            n == barrier.vnode_updates@.len(),
            spec_vnode_update_for(barrier@.vnode_updates, actor_id) == spec_vnode_update_for(
                barrier@.vnode_updates.skip(i as int),
                actor_id,
            ),
        decreases n - i,
    {
        proof {
            assert(barrier@.vnode_updates.len() == n);
            assert(barrier@.vnode_updates.skip(i as int)[0] == barrier@.vnode_updates[i as int]);
            assert(barrier@.vnode_updates[i as int] == barrier.vnode_updates@[i as int]@);
            assert(barrier@.vnode_updates.skip(i as int).drop_first() =~= barrier@.vnode_updates.skip(
                i as int + 1,
            ));
        }
        if barrier.vnode_updates[i].actor_id == actor_id {
            let bm = clone_bits(&barrier.vnode_updates[i].bitmap);
            return Some(bm);
        }
        i += 1;
    }
    proof {
        assert(barrier@.vnode_updates.skip(n as int) =~= Seq::<VnodeUpdateView>::empty());
    }
    None
}

/// The batch actually persisted and emitted for an upstream chunk: changes
/// merged per stream key, then — for a forced append-only sink — rewritten
/// into pure insertions.
pub open spec fn spec_reduced_chunk(
    rows: Seq<RowView>,
    stream_key: Seq<usize>,
    sink_type: SinkType,
) -> Seq<RowView> {
    let merged = spec_merge_chunk(rows, stream_key);
    if sink_type == SinkType::ForceAppendOnly {
        spec_force_append_only(merged)
    } else {
        merged
    }
}

/// The log-writer effects of one upstream message: a chunk is appended in
/// reduced form; a barrier flushes its epoch and forwards any ownership update
/// for this instance; a watermark touches the log not at all.
pub open spec fn spec_write_actions(
    msg: MessageView,
    stream_key: Seq<usize>,
    sink_type: SinkType,
    actor_id: u32,
) -> Seq<LogWriterActionView> {
    match msg {
        MessageView::Chunk(rows) => seq![
            LogWriterActionView::WriteChunk {
                chunk: spec_reduced_chunk(rows, stream_key, sink_type),
            },
        ],
        MessageView::Barrier(b) => {
            let base = seq![
                LogWriterActionView::FlushCurrentEpoch {
                    epoch: b.epoch.curr,
                    is_checkpoint: b.is_checkpoint,
                },
            ];
            match spec_vnode_update_for(b.vnode_updates, actor_id) {
                Some(bm) => base.push(LogWriterActionView::UpdateVnodeBitmap { bitmap: bm }),
                None => base,
            }
        },
        MessageView::Watermark(w) => Seq::empty(),
    }
}

/// The message emitted downstream for one upstream message: chunks in reduced
/// form, barriers and watermarks unchanged.
pub open spec fn spec_write_output(
    msg: MessageView,
    stream_key: Seq<usize>,
    sink_type: SinkType,
) -> MessageView {
    match msg {
        MessageView::Chunk(rows) => MessageView::Chunk(
            spec_reduced_chunk(rows, stream_key, sink_type),
        ),
        _ => msg,
    }
}

/// Law (pass-through fidelity): for a chunk message the batch emitted on the
/// executor's own output is exactly the batch appended to the log store.
pub proof fn lemma_pass_through_fidelity(
    msg: MessageView,
    stream_key: Seq<usize>,
    sink_type: SinkType,
    actor_id: u32,
)
    requires
        msg is Chunk,
    ensures
        spec_write_actions(msg, stream_key, sink_type, actor_id).len() == 1,
        spec_write_actions(msg, stream_key, sink_type, actor_id)[0] matches
            LogWriterActionView::WriteChunk { chunk } && spec_write_output(
            msg,
            stream_key,
            sink_type,
        ) == MessageView::Chunk(chunk),
{
}

/// Every chunk message's rows are wide enough for the stream key.
pub open spec fn msgs_key_in_range(msgs: Seq<MessageView>, stream_key: Seq<usize>) -> bool {
    forall|i: int|
        0 <= i < msgs.len() ==> ((#[trigger] msgs[i]) matches MessageView::Chunk(rows)
            ==> key_in_range(rows, stream_key))
}

/// Handle one upstream message past the first barrier: reduce and append a
/// chunk — emitting exactly what was appended — flush on a barrier, pass
/// watermarks through.
pub fn write_step(msg: Message, stream_key: &Vec<usize>, sink_type: SinkType, actor_id: u32) -> (res:
    (Vec<LogWriterAction>, Message))
    requires
        msg@ matches MessageView::Chunk(rows) ==> key_in_range(rows, stream_key@),
    ensures
        wacts_view(res.0@) == spec_write_actions(msg@, stream_key@, sink_type, actor_id),
        res.1@ == spec_write_output(msg@, stream_key@, sink_type),
{
    let ghost mv = msg@;
    let mut actions: Vec<LogWriterAction> = Vec::new();
    match msg {
        Message::Chunk(chunk) => {
            proof {
                assert(mv matches MessageView::Chunk(rows) && rows == chunk@);
            }
            let merged = merge_chunk_row(chunk, stream_key);
            let reduced = if matches!(sink_type, SinkType::ForceAppendOnly) {
                force_append_only(merged)
            } else {
                merged
            };
            let persisted = clone_chunk(&reduced);
            actions.push(LogWriterAction::WriteChunk { chunk: persisted });
            proof {
                assert(wacts_view(actions@) =~= spec_write_actions(
                    mv,
                    stream_key@,
                    sink_type,
                    actor_id,
                ));
            }
            (actions, Message::Chunk(reduced))
        },
        Message::Barrier(barrier) => {
            proof {
                assert(mv matches MessageView::Barrier(b) && b == barrier@);
            }
            actions.push(
                LogWriterAction::FlushCurrentEpoch {
                    epoch: barrier.epoch.curr,
                    is_checkpoint: barrier.is_checkpoint,
                },
            );
            match as_update_vnode_bitmap(&barrier, actor_id) {
                Some(bm) => {
                    actions.push(LogWriterAction::UpdateVnodeBitmap { bitmap: bm });
                },
                None => {},
            }
            proof {
                assert(wacts_view(actions@) =~= spec_write_actions(
                    mv,
                    stream_key@,
                    sink_type,
                    actor_id,
                ));
            }
            (actions, Message::Barrier(barrier))
        },
        Message::Watermark(w) => {
            proof {
                assert(wacts_view(actions@) =~= spec_write_actions(
                    mv,
                    stream_key@,
                    sink_type,
                    actor_id,
                ));
            }
            (actions, Message::Watermark(w))
        },
    }
}

/// The outputs and log effects of the write driver past the first barrier.
pub open spec fn spec_run_write_tail(
    msgs: Seq<MessageView>,
    stream_key: Seq<usize>,
    sink_type: SinkType,
    actor_id: u32,
) -> (Seq<MessageView>, Seq<LogWriterActionView>)
    decreases msgs.len(),
{
    if msgs.len() == 0 {
        (Seq::empty(), Seq::empty())
    } else {
        let rest = spec_run_write_tail(msgs.drop_first(), stream_key, sink_type, actor_id);
        (
            seq![spec_write_output(msgs[0], stream_key, sink_type)] + rest.0,
            spec_write_actions(msgs[0], stream_key, sink_type, actor_id) + rest.1,
        )
    }
}

/// The whole write driver: the first message must be a barrier, which
/// initializes the log writer at its current epoch and is emitted unchanged;
/// every later message is handled by `write_step`.
pub open spec fn spec_run_write(
    msgs: Seq<MessageView>,
    stream_key: Seq<usize>,
    sink_type: SinkType,
    actor_id: u32,
) -> Result<(Seq<MessageView>, Seq<LogWriterActionView>), ProtocolViolation> {
    if msgs.len() == 0 {
        Err(ProtocolViolation::FirstMessageNotBarrier)
    } else {
        match msgs[0] {
            MessageView::Barrier(b) => {
                let rest = spec_run_write_tail(msgs.drop_first(), stream_key, sink_type, actor_id);
                Ok(
                    (
                        seq![msgs[0]] + rest.0,
                        seq![LogWriterActionView::Init { epoch: b.epoch.curr }] + rest.1,
                    ),
                )
            },
            _ => Err(ProtocolViolation::FirstMessageNotBarrier),
        }
    }
}

/// The chunk payloads among a sequence of messages, in order.
pub open spec fn chunk_payloads(msgs: Seq<MessageView>) -> Seq<Seq<RowView>>
    decreases msgs.len(),
{
    if msgs.len() == 0 {
        Seq::empty()
    } else {
        match msgs[0] {
            MessageView::Chunk(c) => seq![c] + chunk_payloads(msgs.drop_first()),
            _ => chunk_payloads(msgs.drop_first()),
        }
    }
}

/// The batches appended to the log among a sequence of effects, in order.
pub open spec fn written_payloads(acts: Seq<LogWriterActionView>) -> Seq<Seq<RowView>>
    decreases acts.len(),
{
    if acts.len() == 0 {
        Seq::empty()
    } else {
        match acts[0] {
            LogWriterActionView::WriteChunk { chunk } => seq![chunk] + written_payloads(
                acts.drop_first(),
            ),
            _ => written_payloads(acts.drop_first()),
        }
    }
}

proof fn lemma_chunk_payloads_add(a: Seq<MessageView>, b: Seq<MessageView>)
    ensures
        chunk_payloads(a + b) == chunk_payloads(a) + chunk_payloads(b),
    decreases a.len(),
{
    if a.len() == 0 {
        assert(a + b =~= b);
        assert(chunk_payloads(a) + chunk_payloads(b) =~= chunk_payloads(b));
    } else {
        assert((a + b)[0] == a[0]);
        assert((a + b).drop_first() =~= a.drop_first() + b);
        lemma_chunk_payloads_add(a.drop_first(), b);
        match a[0] {
            MessageView::Chunk(c) => {
                assert(seq![c] + (chunk_payloads(a.drop_first()) + chunk_payloads(b)) =~= (
                seq![c] + chunk_payloads(a.drop_first())) + chunk_payloads(b));
            },
            _ => {},
        }
    }
}

proof fn lemma_written_payloads_add(a: Seq<LogWriterActionView>, b: Seq<LogWriterActionView>)
    ensures
        written_payloads(a + b) == written_payloads(a) + written_payloads(b),
    decreases a.len(),
{
    if a.len() == 0 {
        assert(a + b =~= b);
        assert(written_payloads(a) + written_payloads(b) =~= written_payloads(b));
    } else {
        assert((a + b)[0] == a[0]);
        assert((a + b).drop_first() =~= a.drop_first() + b);
        lemma_written_payloads_add(a.drop_first(), b);
        match a[0] {
            LogWriterActionView::WriteChunk { chunk } => {
                assert(seq![chunk] + (written_payloads(a.drop_first()) + written_payloads(b))
                    =~= (seq![chunk] + written_payloads(a.drop_first())) + written_payloads(b));
            },
            _ => {},
        }
    }
}

/// One message's effects append exactly the chunk payloads its output emits.
proof fn lemma_step_payloads(
    msg: MessageView,
    stream_key: Seq<usize>,
    sink_type: SinkType,
    actor_id: u32,
)
    ensures
        chunk_payloads(seq![spec_write_output(msg, stream_key, sink_type)]) == written_payloads(
            spec_write_actions(msg, stream_key, sink_type, actor_id),
        ),
{
    let out0 = seq![spec_write_output(msg, stream_key, sink_type)];
    let acts0 = spec_write_actions(msg, stream_key, sink_type, actor_id);
    assert(chunk_payloads(Seq::<MessageView>::empty()) == Seq::<Seq<RowView>>::empty());
    assert(written_payloads(Seq::<LogWriterActionView>::empty()) == Seq::<Seq<RowView>>::empty());
    assert(out0.drop_first() =~= Seq::<MessageView>::empty());
    assert(chunk_payloads(out0.drop_first()) == Seq::<Seq<RowView>>::empty());
    match msg {
        MessageView::Chunk(rows) => {
            let c = spec_reduced_chunk(rows, stream_key, sink_type);
            assert(acts0.drop_first() =~= Seq::<LogWriterActionView>::empty());
            assert(written_payloads(acts0.drop_first()) == Seq::<Seq<RowView>>::empty());
            assert(chunk_payloads(out0) =~= seq![c]);
            assert(written_payloads(acts0) =~= seq![c]);
        },
        MessageView::Barrier(b) => {
            match spec_vnode_update_for(b.vnode_updates, actor_id) {
                Some(bm) => {
                    assert(acts0.len() == 2);
                    assert(acts0.drop_first() =~= seq![
                        LogWriterActionView::UpdateVnodeBitmap { bitmap: bm },
                    ]);
                    assert(acts0.drop_first().drop_first() =~= Seq::<
                        LogWriterActionView,
                    >::empty());
                    assert(written_payloads(acts0.drop_first().drop_first()) == Seq::<
                        Seq<RowView>,
                    >::empty());
                    assert(written_payloads(acts0.drop_first()) == Seq::<Seq<RowView>>::empty());
                },
                None => {
                    assert(acts0.len() == 1);
                    assert(acts0.drop_first() =~= Seq::<LogWriterActionView>::empty());
                    assert(written_payloads(acts0.drop_first()) == Seq::<Seq<RowView>>::empty());
                },
            }
            assert(chunk_payloads(out0) =~= Seq::<Seq<RowView>>::empty());
            assert(written_payloads(acts0) =~= Seq::<Seq<RowView>>::empty());
        },
        MessageView::Watermark(w) => {
            assert(acts0.len() == 0);
            assert(acts0 =~= Seq::<LogWriterActionView>::empty());
            assert(chunk_payloads(out0) =~= Seq::<Seq<RowView>>::empty());
            assert(written_payloads(acts0) =~= Seq::<Seq<RowView>>::empty());
        },
    }
}

/// Law (pass-through fidelity, whole-stream form): over any successfully
/// driven upstream stream, the batches appended to the log store are exactly
/// the chunk messages emitted on the executor's own output, in order —
/// write once, observe twice, consistently.
pub proof fn lemma_run_pass_through_fidelity(
    msgs: Seq<MessageView>,
    stream_key: Seq<usize>,
    sink_type: SinkType,
    actor_id: u32,
)
    requires
        spec_run_write(msgs, stream_key, sink_type, actor_id) is Ok,
    ensures
        ({
            let r = spec_run_write(msgs, stream_key, sink_type, actor_id)->Ok_0;
            chunk_payloads(r.0) == written_payloads(r.1)
        }),
{
    let first = seq![msgs[0]];
    let tail = spec_run_write_tail(msgs.drop_first(), stream_key, sink_type, actor_id);
    lemma_run_write_tail_payloads(msgs.drop_first(), stream_key, sink_type, actor_id);
    lemma_chunk_payloads_add(first, tail.0);
    assert(chunk_payloads(Seq::<MessageView>::empty()) == Seq::<Seq<RowView>>::empty());
    assert(written_payloads(Seq::<LogWriterActionView>::empty()) == Seq::<Seq<RowView>>::empty());
    assert(first.drop_first() =~= Seq::<MessageView>::empty());
    assert(chunk_payloads(first.drop_first()) == Seq::<Seq<RowView>>::empty());
    match msgs[0] {
        MessageView::Barrier(b) => {
            assert(chunk_payloads(first) =~= Seq::<Seq<RowView>>::empty());
            let init = seq![LogWriterActionView::Init { epoch: b.epoch.curr }];
            lemma_written_payloads_add(init, tail.1);
            assert(init.drop_first() =~= Seq::<LogWriterActionView>::empty());
            assert(written_payloads(init.drop_first()) == Seq::<Seq<RowView>>::empty());
            assert(written_payloads(init) =~= Seq::<Seq<RowView>>::empty());
            assert(Seq::<Seq<RowView>>::empty() + chunk_payloads(tail.0) =~= chunk_payloads(
                tail.0,
            ));
            assert(Seq::<Seq<RowView>>::empty() + written_payloads(tail.1) =~= written_payloads(
                tail.1,
            ));
        },
        _ => {},
    }
}

/// The tail of the write driver keeps output chunks and written batches in
/// exact correspondence.
proof fn lemma_run_write_tail_payloads(
    msgs: Seq<MessageView>,
    stream_key: Seq<usize>,
    sink_type: SinkType,
    actor_id: u32,
)
    ensures
        ({
            let t = spec_run_write_tail(msgs, stream_key, sink_type, actor_id);
            chunk_payloads(t.0) == written_payloads(t.1)
        }),
    decreases msgs.len(),
{
    if msgs.len() > 0 {
        let rest = spec_run_write_tail(msgs.drop_first(), stream_key, sink_type, actor_id);
        lemma_run_write_tail_payloads(msgs.drop_first(), stream_key, sink_type, actor_id);
        let out0 = seq![spec_write_output(msgs[0], stream_key, sink_type)];
        let acts0 = spec_write_actions(msgs[0], stream_key, sink_type, actor_id);
        lemma_step_payloads(msgs[0], stream_key, sink_type, actor_id);
        lemma_chunk_payloads_add(out0, rest.0);
        lemma_written_payloads_add(acts0, rest.1);
    }
}

/// Run the write driver over a whole upstream stream: the executable
/// counterpart of `spec_run_write`. Returns the messages emitted downstream
/// and the ordered log-writer effects, or the protocol breach when the stream
/// does not open with a barrier.
pub fn run_write_log(
    messages: Vec<Message>,
    stream_key: &Vec<usize>,
    sink_type: SinkType,
    actor_id: u32,
) -> (res: Result<(Vec<Message>, Vec<LogWriterAction>), ProtocolViolation>)
    requires
        msgs_key_in_range(msgs_view(messages@), stream_key@),
    ensures
        res is Ok <==> spec_run_write(msgs_view(messages@), stream_key@, sink_type, actor_id)
            is Ok,
        res is Ok ==> msgs_view(res->Ok_0.0@) == spec_run_write(
            msgs_view(messages@),
            stream_key@,
            sink_type,
            actor_id,
        )->Ok_0.0 && wacts_view(res->Ok_0.1@) == spec_run_write(
            msgs_view(messages@),
            stream_key@,
            sink_type,
            actor_id,
        )->Ok_0.1,
        res is Err ==> res->Err_0 == ProtocolViolation::FirstMessageNotBarrier
            && spec_run_write(msgs_view(messages@), stream_key@, sink_type, actor_id) is Err,
{
    let ghost orig = msgs_view(messages@);
    let mut rest = messages;
    if rest.len() == 0 {
        return Err(ProtocolViolation::FirstMessageNotBarrier);
    }
    let first = rest.remove(0);
    proof {
        assert(orig[0] == first@);
        assert(msgs_view(rest@) =~= orig.drop_first());
    }
    let init_epoch: u64 = match &first {
        Message::Barrier(b) => b.epoch.curr,
        _ => {
            return Err(ProtocolViolation::FirstMessageNotBarrier);
        },
    };
    let ghost orig_tail = orig.drop_first();
    let mut outputs_tail: Vec<Message> = Vec::new();
    let mut actions_tail: Vec<LogWriterAction> = Vec::new();
    while rest.len() > 0
        invariant
            orig_tail == msgs_view(messages@).drop_first(),
            msgs_key_in_range(msgs_view(rest@), stream_key@),
            spec_run_write_tail(orig_tail, stream_key@, sink_type, actor_id).0 == msgs_view(
                outputs_tail@,
            ) + spec_run_write_tail(msgs_view(rest@), stream_key@, sink_type, actor_id).0,
            spec_run_write_tail(orig_tail, stream_key@, sink_type, actor_id).1 == wacts_view(
                actions_tail@,
            ) + spec_run_write_tail(msgs_view(rest@), stream_key@, sink_type, actor_id).1,
        decreases rest@.len(),
    {
        let ghost pre = msgs_view(rest@);
        let ghost done_out = msgs_view(outputs_tail@);
        let ghost done_acts = wacts_view(actions_tail@);
        let msg = rest.remove(0);
        let ghost mv = msg@;
        proof {
            assert(pre[0] == mv);
            assert(msgs_view(rest@) =~= pre.drop_first());
        }
        let (acts, out) = write_step(msg, stream_key, sink_type, actor_id);
        let ghost av = wacts_view(acts@);
        let ghost ov = out@;
        let mut acts_m = acts;
        actions_tail.append(&mut acts_m);
        outputs_tail.push(out);
        proof {
            let tail_pre = spec_run_write_tail(pre, stream_key@, sink_type, actor_id);
            let tail_next = spec_run_write_tail(
                pre.drop_first(),
                stream_key@,
                sink_type,
                actor_id,
            );
            assert(tail_pre.0 == seq![spec_write_output(mv, stream_key@, sink_type)]
                + tail_next.0);
            assert(tail_pre.1 == spec_write_actions(mv, stream_key@, sink_type, actor_id)
                + tail_next.1);
            assert(msgs_view(outputs_tail@) =~= done_out + seq![ov]);
            assert(wacts_view(actions_tail@) =~= done_acts + av);
            assert(done_out + (seq![ov] + tail_next.0) =~= (done_out + seq![ov]) + tail_next.0);
            assert(done_acts + (av + tail_next.1) =~= (done_acts + av) + tail_next.1);
        }
    }
    proof {
        assert(msgs_view(rest@) =~= Seq::<MessageView>::empty());
        assert(msgs_view(outputs_tail@) + Seq::<MessageView>::empty() =~= msgs_view(
            outputs_tail@,
        ));
        assert(wacts_view(actions_tail@) + Seq::<LogWriterActionView>::empty() =~= wacts_view(
            actions_tail@,
        ));
    }
    let mut outputs: Vec<Message> = Vec::new();
    outputs.push(first);
    let mut outputs_tail_m = outputs_tail;
    outputs.append(&mut outputs_tail_m);
    let mut actions: Vec<LogWriterAction> = Vec::new();
    actions.push(LogWriterAction::Init { epoch: init_epoch });
    let mut actions_tail_m = actions_tail;
    actions.append(&mut actions_tail_m);
    proof {
        let sp = spec_run_write(msgs_view(messages@), stream_key@, sink_type, actor_id);
        assert(msgs_view(outputs@) =~= sp->Ok_0.0);
        assert(wacts_view(actions@) =~= sp->Ok_0.1);
    }
    Ok((outputs, actions))
}

} // verus!
