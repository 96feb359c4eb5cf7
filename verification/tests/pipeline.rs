use sink_pipeline::chunk::{ColumnInfo, Op, Row, StreamChunk, VnodeBitmap};
use sink_pipeline::consume::{LogConsumerState, LogStoreReadItem, SinkAction};
use sink_pipeline::executor::SinkExecutor;
use sink_pipeline::write::{
    Barrier, EpochPair, LogWriterAction, Message, SinkType, VnodeUpdate, Watermark,
};
use sink_pipeline::ProtocolViolation;

fn row(op: Op, values: &[i64]) -> Row {
    Row { op, values: values.to_vec() }
}

fn chunk(rows: Vec<Row>) -> StreamChunk {
    StreamChunk { rows }
}

fn test_barrier(epoch: u64) -> Barrier {
    Barrier {
        epoch: EpochPair { prev: if epoch > 0 { epoch - 1 } else { 0 }, curr: epoch },
        is_checkpoint: true,
        vnode_updates: vec![],
    }
}

fn executor(columns: Vec<ColumnInfo>, pk: Vec<usize>, sink_type: SinkType) -> SinkExecutor {
    SinkExecutor::new(String::from("SinkExecutor test"), pk, columns, sink_type, 0)
}

#[test]
fn test_force_append_only_sink() {
    // Two visible columns and one hidden column; the hidden column is pruned
    // only on the consume side, so the write driver's output keeps all three.
    let columns = vec![
        ColumnInfo { is_hidden: false },
        ColumnInfo { is_hidden: false },
        ColumnInfo { is_hidden: true },
    ];
    let pk = vec![0];
    let messages = vec![
        Message::Barrier(test_barrier(1)),
        Message::Chunk(chunk(vec![row(Op::Insert, &[3, 2, 1])])),
        Message::Barrier(test_barrier(2)),
        Message::Chunk(chunk(vec![
            row(Op::UpdateDelete, &[3, 2, 1]),
            row(Op::UpdateInsert, &[3, 4, 1]),
            row(Op::Insert, &[5, 6, 7]),
        ])),
        Message::Chunk(chunk(vec![row(Op::Delete, &[5, 6, 7])])),
    ];

    let exec = executor(columns, pk, SinkType::ForceAppendOnly);
    let (outputs, actions) = exec.execute_write_log(messages).unwrap();

    assert_eq!(outputs.len(), 5);
    // Barrier message.
    assert_eq!(outputs[0], Message::Barrier(test_barrier(1)));
    assert_eq!(
        outputs[1],
        Message::Chunk(chunk(vec![row(Op::Insert, &[3, 2, 1])]))
    );
    // Barrier message.
    assert_eq!(outputs[2], Message::Barrier(test_barrier(2)));
    assert_eq!(
        outputs[3],
        Message::Chunk(chunk(vec![
            row(Op::Insert, &[3, 4, 1]),
            row(Op::Insert, &[5, 6, 7]),
        ]))
    );
    // The delete-only chunk is fully suppressed: an empty batch, no rows.
    assert_eq!(outputs[4], Message::Chunk(chunk(vec![])));

    // What was appended to the log is exactly what was emitted downstream.
    assert_eq!(actions.len(), 5);
    assert_eq!(actions[0], LogWriterAction::Init { epoch: 1 });
    assert_eq!(
        actions[1],
        LogWriterAction::WriteChunk { chunk: chunk(vec![row(Op::Insert, &[3, 2, 1])]) }
    );
    assert_eq!(
        actions[2],
        LogWriterAction::FlushCurrentEpoch { epoch: 2, is_checkpoint: true }
    );
    assert_eq!(
        actions[3],
        LogWriterAction::WriteChunk {
            chunk: chunk(vec![row(Op::Insert, &[3, 4, 1]), row(Op::Insert, &[5, 6, 7])])
        }
    );
    assert_eq!(actions[4], LogWriterAction::WriteChunk { chunk: chunk(vec![]) });
}

#[test]
fn test_empty_barrier_sink() {
    let columns = vec![ColumnInfo { is_hidden: false }, ColumnInfo { is_hidden: false }];
    let pk = vec![0];
    let messages = vec![
        Message::Barrier(test_barrier(1)),
        Message::Barrier(test_barrier(2)),
        Message::Barrier(test_barrier(3)),
    ];

    let exec = executor(columns.clone(), pk, SinkType::ForceAppendOnly);
    let (outputs, actions) = exec.execute_write_log(messages).unwrap();

    assert_eq!(outputs.len(), 3);
    // Barrier message.
    assert_eq!(outputs[0], Message::Barrier(test_barrier(1)));
    // Barrier message.
    assert_eq!(outputs[1], Message::Barrier(test_barrier(2)));
    // The last barrier message.
    assert_eq!(outputs[2], Message::Barrier(test_barrier(3)));

    // On the consume side, begin-epoch and commit are issued once per closed
    // epoch and there is no batch-write call at all.
    let exec2 = executor(columns, vec![0], SinkType::ForceAppendOnly);
    let entries = vec![
        (1, LogStoreReadItem::Barrier { is_checkpoint: true }),
        (2, LogStoreReadItem::Barrier { is_checkpoint: true }),
        (3, LogStoreReadItem::Barrier { is_checkpoint: true }),
    ];
    let (state, sink_actions) = exec2.execute_consume_log(entries).unwrap();
    assert_eq!(state, LogConsumerState::BarrierReceived { prev_epoch: 3 });
    assert_eq!(
        sink_actions,
        vec![
            SinkAction::BeginEpoch { epoch: 1 },
            SinkAction::Commit { epoch: 1, is_checkpoint: true },
            SinkAction::Truncate { epoch: 1 },
            SinkAction::BeginEpoch { epoch: 2 },
            SinkAction::Commit { epoch: 2, is_checkpoint: true },
            SinkAction::Truncate { epoch: 2 },
            SinkAction::BeginEpoch { epoch: 3 },
            SinkAction::Commit { epoch: 3, is_checkpoint: true },
            SinkAction::Truncate { epoch: 3 },
        ]
    );
    assert!(sink_actions.iter().all(|a| !matches!(a, SinkAction::WriteBatch { .. })));
}

#[test]
fn test_watermark_passes_through_unchanged() {
    let columns = vec![ColumnInfo { is_hidden: false }];
    let exec = executor(columns, vec![0], SinkType::AppendOnly);
    let messages = vec![
        Message::Barrier(test_barrier(1)),
        Message::Watermark(Watermark { col_idx: 0, value: 42 }),
    ];
    let (outputs, actions) = exec.execute_write_log(messages).unwrap();
    assert_eq!(outputs.len(), 2);
    assert_eq!(outputs[1], Message::Watermark(Watermark { col_idx: 0, value: 42 }));
    // A watermark touches the log not at all.
    assert_eq!(actions, vec![LogWriterAction::Init { epoch: 1 }]);
}

#[test]
fn test_first_message_must_be_barrier() {
    let columns = vec![ColumnInfo { is_hidden: false }];
    let exec = executor(columns, vec![0], SinkType::AppendOnly);
    let messages = vec![Message::Chunk(chunk(vec![row(Op::Insert, &[1])]))];
    let res = exec.execute_write_log(messages);
    assert_eq!(res.unwrap_err(), ProtocolViolation::FirstMessageNotBarrier);

    let columns = vec![ColumnInfo { is_hidden: false }];
    let exec = executor(columns, vec![0], SinkType::AppendOnly);
    let res_empty = exec.execute_write_log(vec![]);
    assert_eq!(res_empty.unwrap_err(), ProtocolViolation::FirstMessageNotBarrier);
}

#[test]
fn test_barrier_forwards_vnode_update_for_own_actor() {
    let columns = vec![ColumnInfo { is_hidden: false }];
    let exec = SinkExecutor::new(
        String::from("SinkExecutor test"),
        vec![0],
        columns,
        SinkType::Upsert,
        7,
    );
    let mut b = test_barrier(2);
    b.vnode_updates = vec![
        VnodeUpdate { actor_id: 3, bitmap: VnodeBitmap { bits: vec![true] } },
        VnodeUpdate { actor_id: 7, bitmap: VnodeBitmap { bits: vec![false, true] } },
    ];
    let messages = vec![Message::Barrier(test_barrier(1)), Message::Barrier(b)];
    let (_outputs, actions) = exec.execute_write_log(messages).unwrap();
    assert_eq!(
        actions,
        vec![
            LogWriterAction::Init { epoch: 1 },
            LogWriterAction::FlushCurrentEpoch { epoch: 2, is_checkpoint: true },
            LogWriterAction::UpdateVnodeBitmap { bitmap: VnodeBitmap { bits: vec![false, true] } },
        ]
    );
}

#[test]
fn test_upsert_sink_keeps_update_pairs() {
    // Without the forced rewrite, a delete-then-insert of one key collapses to
    // an update pair carrying the old and the new values.
    let columns = vec![ColumnInfo { is_hidden: false }, ColumnInfo { is_hidden: false }];
    let exec = executor(columns, vec![0], SinkType::Upsert);
    let messages = vec![
        Message::Barrier(test_barrier(1)),
        Message::Chunk(chunk(vec![
            row(Op::Delete, &[1, 10]),
            row(Op::Insert, &[1, 20]),
        ])),
    ];
    let (outputs, _actions) = exec.execute_write_log(messages).unwrap();
    assert_eq!(
        outputs[1],
        Message::Chunk(chunk(vec![
            row(Op::UpdateDelete, &[1, 10]),
            row(Op::UpdateInsert, &[1, 20]),
        ]))
    );
}
