//! The sink executor: per-instance configuration and the two log-mediated
//! drivers it runs. The surrounding process owns the upstream stream, the log
//! store handles and the sink connector; it feeds upstream messages to
//! `execute_write_log`, log items to `execute_consume_log`, and performs the
//! effects each returns, in order, stopping at the first failure.

use vstd::prelude::*;

use crate::chunk::ColumnInfo;
use crate::consume::{
    actions_view, entries_match_schema, entries_view, run_consume_log, LogConsumerState,
    LogStoreReadItem, SinkAction, spec_run_consume,
};
use crate::write::{
    msgs_key_in_range, msgs_view, run_write_log, spec_run_write, wacts_view, LogWriterAction,
    Message, SinkType,
};
use crate::ProtocolViolation;

verus! {

/// One sink executor instance: the fixed configuration both drivers share.
pub struct SinkExecutor {
    /// Human-readable identity, used to label commit metrics.
    pub identity: String,
    /// The stream key: column positions identifying a row for change-merging.
    pub pk_indices: Vec<usize>,
    /// The input schema; hidden columns are projected away before the sink.
    pub input_columns: Vec<ColumnInfo>,
    /// The sink's declared type; forced append-only rewrites every batch.
    pub sink_type: SinkType,
    /// This executor's actor id, matching partition-ownership updates.
    pub actor_id: u32,
}

impl SinkExecutor {
    /// Assemble an executor instance from its configuration.
    pub fn new(
        identity: String,
        pk_indices: Vec<usize>,
        input_columns: Vec<ColumnInfo>,
        sink_type: SinkType,
        actor_id: u32,
    ) -> (s: Self)
        ensures
            s.identity@ == identity@,
            s.pk_indices@ == pk_indices@,
            s.input_columns@ == input_columns@,
            s.sink_type == sink_type,
            s.actor_id == actor_id,
    {
        SinkExecutor { identity, pk_indices, input_columns, sink_type, actor_id }
    }

    /// The executor's identity string.
    pub fn identity(&self) -> (r: &String)
        ensures
            r@ == self.identity@,
    {
        &self.identity
    }

    /// The stream key used for change-merging.
    pub fn pk_indices(&self) -> (r: &Vec<usize>)
        ensures
            r@ == self.pk_indices@,
    {
        &self.pk_indices
    }

    /// The input schema.
    pub fn schema(&self) -> (r: &Vec<ColumnInfo>)
        ensures
            r@ == self.input_columns@,
    {
        &self.input_columns
    }

    /// The write driver over a whole upstream stream: what is emitted
    /// downstream and what is done to the log writer, in order.
    pub fn execute_write_log(&self, messages: Vec<Message>) -> (res: Result<
        (Vec<Message>, Vec<LogWriterAction>),
        ProtocolViolation,
    >)
        requires
            msgs_key_in_range(msgs_view(messages@), self.pk_indices@),
        ensures
            res is Ok <==> spec_run_write(
                msgs_view(messages@),
                self.pk_indices@,
                self.sink_type,
                self.actor_id,
            ) is Ok,
            res is Ok ==> msgs_view(res->Ok_0.0@) == spec_run_write(
                msgs_view(messages@),
                self.pk_indices@,
                self.sink_type,
                self.actor_id,
            )->Ok_0.0 && wacts_view(res->Ok_0.1@) == spec_run_write(
                msgs_view(messages@),
                self.pk_indices@,
                self.sink_type,
                self.actor_id,
            )->Ok_0.1,
            res is Err ==> res->Err_0 == ProtocolViolation::FirstMessageNotBarrier
                && spec_run_write(
                msgs_view(messages@),
                self.pk_indices@,
                self.sink_type,
                self.actor_id,
            ) is Err,
    {
        run_write_log(messages, &self.pk_indices, self.sink_type, self.actor_id)
    }

    /// The consume driver over a sequence of log entries: the final consumer
    /// state and the ordered connector and truncation effects, or the first
    /// protocol breach.
    pub fn execute_consume_log(&self, entries: Vec<(u64, LogStoreReadItem)>) -> (res: Result<
        (LogConsumerState, Vec<SinkAction>),
        ProtocolViolation,
    >)
        requires
            entries_match_schema(entries_view(entries@), self.input_columns@),
        ensures
            res is Ok <==> spec_run_consume(
                LogConsumerState::Uninitialized,
                entries_view(entries@),
                self.input_columns@,
            ) is Ok,
            res is Ok ==> res->Ok_0.0 == spec_run_consume(
                LogConsumerState::Uninitialized,
                entries_view(entries@),
                self.input_columns@,
            )->Ok_0.0 && actions_view(res->Ok_0.1@) == spec_run_consume(
                LogConsumerState::Uninitialized,
                entries_view(entries@),
                self.input_columns@,
            )->Ok_0.1,
            res is Err ==> spec_run_consume(
                LogConsumerState::Uninitialized,
                entries_view(entries@),
                self.input_columns@,
            ) is Err && spec_run_consume(
                LogConsumerState::Uninitialized,
                entries_view(entries@),
                self.input_columns@,
            )->Err_0 == res->Err_0,
    {
        run_consume_log(entries, &self.input_columns)
    }
}

} // verus!
