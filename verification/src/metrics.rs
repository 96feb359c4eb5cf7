//! Commit metrics: the duration record kept per sink instance and connector
//! type, observed once per successful checkpoint commit and never otherwise.

use vstd::prelude::*;

verus! {

/// Accumulated commit-duration observations of one sink executor instance.
pub struct SinkMetrics {
    /// How many checkpoint commits have been observed.
    pub commit_count: u64,
    /// The observed commit durations summed, in milliseconds, saturating.
    pub total_commit_millis: u64,
}

impl SinkMetrics {
    /// A fresh record with nothing observed.
    pub fn new() -> (m: SinkMetrics)
        ensures
            m.commit_count == 0,
            m.total_commit_millis == 0,
    {
        SinkMetrics { commit_count: 0, total_commit_millis: 0 }
    }

    /// Record one checkpoint commit's elapsed wall time. Saturates rather than
    /// wraps: a counter that has reached its bound stays there.
    pub fn observe_commit_duration_millis(&mut self, millis: u64)
        ensures
            final(self).commit_count == if old(self).commit_count == u64::MAX {
                u64::MAX as int
            } else {
                old(self).commit_count + 1
            },
            final(self).total_commit_millis == if old(self).total_commit_millis + millis
                <= u64::MAX {
                old(self).total_commit_millis + millis
            } else {
                u64::MAX as int
            },
    {
        if self.commit_count < u64::MAX {
            self.commit_count = self.commit_count + 1;
        }
        if self.total_commit_millis <= u64::MAX - millis {
            self.total_commit_millis = self.total_commit_millis + millis;
        } else {
            self.total_commit_millis = u64::MAX;
        }
    }
}

} // verus!
