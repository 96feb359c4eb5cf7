//! Log-decoupled sink delivery pipeline for a streaming database engine.
//!
//! An upstream, barrier-delimited stream of row-change batches is bridged to
//! an external data sink through an internal write-ahead log. The write path
//! reduces each batch (change merging per stream key, optionally a forced
//! append-only rewrite), appends it to the log and passes it through to the
//! executor's own output. The consume path replays log items into the sink
//! connector under a strict epoch discipline and truncates the log exactly
//! when a checkpoint commit has succeeded.
//!
//! All decisions of the two paths are pure functions from state and event to
//! next state and a sequence of effects; the surrounding process performs the
//! effects (log and connector calls) in order and stops at the first failure.

use vstd::prelude::*;

pub mod chunk;
pub mod consume;
pub mod executor;
pub mod metrics;
pub mod reduce;
pub mod telemetry;
pub mod write;

verus! {

/// Unrecoverable contract breach by a collaborator: the pipeline terminates
/// immediately and is never retried at this layer.
#[derive(Clone, Copy, Debug, PartialEq, Eq, Structural)]
pub enum ProtocolViolation {
    /// The first upstream message was not a barrier (or the stream was empty).
    FirstMessageNotBarrier,
    /// A log item arrived with an epoch below the epoch currently begun, or
    /// not strictly above the epoch of the barrier just received.
    EpochOutOfOrder { current: u64, incoming: u64 },
    /// A partition-ownership update was read anywhere but right after a
    /// barrier: ownership changes only happen between epochs.
    VnodeUpdateMidEpoch,
}

} // verus!
