use sink_pipeline::chunk::{ColumnInfo, Op, Row, StreamChunk, VnodeBitmap};
use sink_pipeline::consume::{consume_step, LogConsumerState, LogStoreReadItem, SinkAction};
use sink_pipeline::executor::SinkExecutor;
use sink_pipeline::metrics::SinkMetrics;
use sink_pipeline::reduce::{force_append_only, merge_chunk_row};
use sink_pipeline::telemetry::{MetaStoreRef, TelemetryInfoServiceImpl};
use sink_pipeline::write::SinkType;
use sink_pipeline::ProtocolViolation;

fn row(op: Op, values: &[i64]) -> Row {
    Row { op, values: values.to_vec() }
}

fn chunk(rows: Vec<Row>) -> StreamChunk {
    StreamChunk { rows }
}

#[test]
fn test_merge_insert_then_delete_cancels() {
    let c = chunk(vec![row(Op::Insert, &[1, 10]), row(Op::Delete, &[1, 10])]);
    let out = merge_chunk_row(c, &vec![0]);
    assert_eq!(out, chunk(vec![]));
}

#[test]
fn test_merge_insert_then_update_collapses() {
    let c = chunk(vec![
        row(Op::Insert, &[1, 10]),
        row(Op::UpdateDelete, &[1, 10]),
        row(Op::UpdateInsert, &[1, 20]),
    ]);
    let out = merge_chunk_row(c, &vec![0]);
    assert_eq!(out, chunk(vec![row(Op::Insert, &[1, 20])]));
}

#[test]
fn test_merge_keeps_first_occurrence_order() {
    let c = chunk(vec![
        row(Op::UpdateDelete, &[3, 2, 1]),
        row(Op::UpdateInsert, &[3, 4, 1]),
        row(Op::Insert, &[5, 6, 7]),
    ]);
    let out = merge_chunk_row(c, &vec![0]);
    assert_eq!(
        out,
        chunk(vec![
            row(Op::UpdateDelete, &[3, 2, 1]),
            row(Op::UpdateInsert, &[3, 4, 1]),
            row(Op::Insert, &[5, 6, 7]),
        ])
    );
}

#[test]
fn test_merge_delete_only_key_keeps_first_values() {
    let c = chunk(vec![row(Op::Delete, &[9, 1]), row(Op::Insert, &[9, 2]), row(Op::Delete, &[9, 2])]);
    let out = merge_chunk_row(c, &vec![0]);
    assert_eq!(out, chunk(vec![row(Op::Delete, &[9, 1])]));
}

#[test]
fn test_force_append_only_drops_deletes_and_retags() {
    let c = chunk(vec![
        row(Op::Insert, &[1]),
        row(Op::Delete, &[2]),
        row(Op::UpdateDelete, &[3]),
        row(Op::UpdateInsert, &[4]),
    ]);
    let out = force_append_only(c);
    // Survivors: the insert count plus the update-insert count, all plain
    // inserts, values kept.
    assert_eq!(out, chunk(vec![row(Op::Insert, &[1]), row(Op::Insert, &[4])]));
}

#[test]
fn test_consume_chunk_projects_hidden_columns() {
    let columns = vec![
        ColumnInfo { is_hidden: false },
        ColumnInfo { is_hidden: false },
        ColumnInfo { is_hidden: true },
    ];
    let item = LogStoreReadItem::StreamChunk {
        chunk: chunk(vec![row(Op::Insert, &[3, 2, 1]), row(Op::Insert, &[5, 6, 7])]),
    };
    let (state, actions) =
        consume_step(LogConsumerState::Uninitialized, 1, item, &columns).unwrap();
    assert_eq!(state, LogConsumerState::EpochBegun { curr_epoch: 1 });
    assert_eq!(
        actions,
        vec![
            SinkAction::BeginEpoch { epoch: 1 },
            SinkAction::WriteBatch {
                chunk: chunk(vec![row(Op::Insert, &[3, 2]), row(Op::Insert, &[5, 6])])
            },
        ]
    );
}

#[test]
fn test_consume_chunk_without_hidden_columns_unchanged() {
    let columns = vec![ColumnInfo { is_hidden: false }, ColumnInfo { is_hidden: false }];
    let item = LogStoreReadItem::StreamChunk { chunk: chunk(vec![row(Op::Insert, &[3, 2])]) };
    let (_state, actions) =
        consume_step(LogConsumerState::EpochBegun { curr_epoch: 1 }, 1, item, &columns).unwrap();
    assert_eq!(
        actions,
        vec![SinkAction::WriteBatch { chunk: chunk(vec![row(Op::Insert, &[3, 2])]) }]
    );
}

#[test]
fn test_consume_non_checkpoint_barrier_does_not_truncate() {
    let columns = vec![ColumnInfo { is_hidden: false }];
    let item = LogStoreReadItem::Barrier { is_checkpoint: false };
    let (state, actions) =
        consume_step(LogConsumerState::EpochBegun { curr_epoch: 4 }, 4, item, &columns).unwrap();
    assert_eq!(state, LogConsumerState::BarrierReceived { prev_epoch: 4 });
    assert_eq!(actions, vec![SinkAction::Commit { epoch: 4, is_checkpoint: false }]);
}

#[test]
fn test_consume_vnode_update_only_after_barrier() {
    let columns = vec![ColumnInfo { is_hidden: false }];
    let bitmap = VnodeBitmap { bits: vec![true, false] };
    let item = LogStoreReadItem::UpdateVnodeBitmap { bitmap: bitmap.clone() };
    let err = consume_step(LogConsumerState::Uninitialized, 1, item, &columns).unwrap_err();
    assert_eq!(err, ProtocolViolation::VnodeUpdateMidEpoch);

    let item = LogStoreReadItem::UpdateVnodeBitmap { bitmap: bitmap.clone() };
    let err =
        consume_step(LogConsumerState::EpochBegun { curr_epoch: 1 }, 1, item, &columns).unwrap_err();
    assert_eq!(err, ProtocolViolation::VnodeUpdateMidEpoch);

    let item = LogStoreReadItem::UpdateVnodeBitmap { bitmap: bitmap.clone() };
    let (state, actions) =
        consume_step(LogConsumerState::BarrierReceived { prev_epoch: 1 }, 2, item, &columns)
            .unwrap();
    assert_eq!(state, LogConsumerState::EpochBegun { curr_epoch: 2 });
    assert_eq!(
        actions,
        vec![
            SinkAction::BeginEpoch { epoch: 2 },
            SinkAction::UpdateVnodeBitmap { bitmap },
        ]
    );
}

#[test]
fn test_consume_epoch_regression_is_fatal() {
    let columns = vec![ColumnInfo { is_hidden: false }];
    let item = LogStoreReadItem::Barrier { is_checkpoint: true };
    let err =
        consume_step(LogConsumerState::EpochBegun { curr_epoch: 5 }, 4, item, &columns).unwrap_err();
    assert_eq!(err, ProtocolViolation::EpochOutOfOrder { current: 5, incoming: 4 });

    let item = LogStoreReadItem::Barrier { is_checkpoint: true };
    let err = consume_step(LogConsumerState::BarrierReceived { prev_epoch: 5 }, 5, item, &columns)
        .unwrap_err();
    assert_eq!(err, ProtocolViolation::EpochOutOfOrder { current: 5, incoming: 5 });
}

#[test]
fn test_consume_error_mid_stream_terminates_run() {
    // A breach in the middle of the log stream ends the whole run with that
    // error; nothing after it is consumed.
    let columns = vec![ColumnInfo { is_hidden: false }];
    let exec = SinkExecutor::new(
        String::from("SinkExecutor test"),
        vec![0],
        columns,
        SinkType::AppendOnly,
        0,
    );
    let entries = vec![
        (2, LogStoreReadItem::Barrier { is_checkpoint: true }),
        (2, LogStoreReadItem::Barrier { is_checkpoint: true }),
        (3, LogStoreReadItem::Barrier { is_checkpoint: true }),
    ];
    let err = exec.execute_consume_log(entries).unwrap_err();
    assert_eq!(err, ProtocolViolation::EpochOutOfOrder { current: 2, incoming: 2 });
}

#[test]
fn test_consume_checkpoint_truncates_right_after_commit() {
    let columns = vec![ColumnInfo { is_hidden: false }];
    let exec = SinkExecutor::new(
        String::from("SinkExecutor test"),
        vec![0],
        columns,
        SinkType::AppendOnly,
        0,
    );
    let entries = vec![
        (1, LogStoreReadItem::StreamChunk { chunk: chunk(vec![row(Op::Insert, &[7])]) }),
        (1, LogStoreReadItem::Barrier { is_checkpoint: true }),
        (2, LogStoreReadItem::Barrier { is_checkpoint: false }),
    ];
    let (state, actions) = exec.execute_consume_log(entries).unwrap();
    assert_eq!(state, LogConsumerState::BarrierReceived { prev_epoch: 2 });
    assert_eq!(
        actions,
        vec![
            SinkAction::BeginEpoch { epoch: 1 },
            SinkAction::WriteBatch { chunk: chunk(vec![row(Op::Insert, &[7])]) },
            SinkAction::Commit { epoch: 1, is_checkpoint: true },
            SinkAction::Truncate { epoch: 1 },
            SinkAction::BeginEpoch { epoch: 2 },
            SinkAction::Commit { epoch: 2, is_checkpoint: false },
        ]
    );
}

#[test]
fn test_metrics_observe_commit_duration() {
    let mut m = SinkMetrics::new();
    assert_eq!(m.commit_count, 0);
    assert_eq!(m.total_commit_millis, 0);
    m.observe_commit_duration_millis(12);
    m.observe_commit_duration_millis(30);
    assert_eq!(m.commit_count, 2);
    assert_eq!(m.total_commit_millis, 42);
    m.observe_commit_duration_millis(u64::MAX);
    assert_eq!(m.commit_count, 3);
    assert_eq!(m.total_commit_millis, u64::MAX);
}

#[test]
fn test_telemetry_tracking_id_lookup() {
    let svc = TelemetryInfoServiceImpl::new(MetaStoreRef {
        cluster_id: Some(String::from("b2f1c9d4-cluster")),
    });
    assert_eq!(svc.get_tracking_id(), Some(String::from("b2f1c9d4-cluster")));
    let resp = svc.get_telemetry_info();
    assert_eq!(resp.tracking_id, Some(String::from("b2f1c9d4-cluster")));

    let empty = TelemetryInfoServiceImpl::new(MetaStoreRef { cluster_id: None });
    assert_eq!(empty.get_tracking_id(), None);
    assert_eq!(empty.get_telemetry_info().tracking_id, None);
}
