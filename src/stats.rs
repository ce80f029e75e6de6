use vstd::prelude::*;

use crate::partition::{clamp_u64, envelope_rows, PipelineResultType};

verus! {

/// `a + b`, or `u64::MAX` when the sum does not fit.
pub open spec fn sat_add(a: u64, b: u64) -> u64 {
    clamp_u64((a + b) as nat)
}

/// Per-node counters: rows received, rows emitted and active time.
/// They only observe the data flow and never change it.
#[derive(Debug, PartialEq, Eq, Clone, Copy)]
pub struct RuntimeStatsContext {
    pub rows_received: u64,
    pub rows_emitted: u64,
    pub cpu_us: u64,
}

impl RuntimeStatsContext {
    pub fn new() -> (r: RuntimeStatsContext)
        ensures
            r.rows_received == 0,
            r.rows_emitted == 0,
            r.cpu_us == 0,
    {
        RuntimeStatsContext { rows_received: 0, rows_emitted: 0, cpu_us: 0 }
    }

    pub fn mark_rows_received(&mut self, rows: u64)
        ensures
            final(self).rows_received == sat_add(old(self).rows_received, rows),
            final(self).rows_emitted == old(self).rows_emitted,
            final(self).cpu_us == old(self).cpu_us,
    {
        self.rows_received = self.rows_received.saturating_add(rows);
    }

    pub fn mark_rows_emitted(&mut self, rows: u64)
        ensures
            final(self).rows_emitted == sat_add(old(self).rows_emitted, rows),
            final(self).rows_received == old(self).rows_received,
            final(self).cpu_us == old(self).cpu_us,
    {
        self.rows_emitted = self.rows_emitted.saturating_add(rows);
    }

    /// Adds the length of one timed span of operator work.
    pub fn add_cpu_us(&mut self, us: u64)
        ensures
            final(self).cpu_us == sat_add(old(self).cpu_us, us),
            final(self).rows_received == old(self).rows_received,
            final(self).rows_emitted == old(self).rows_emitted,
    {
        self.cpu_us = self.cpu_us.saturating_add(us);
    }

    /// Counts an envelope that a worker received.
    pub fn count_received(&mut self, envelope: &PipelineResultType)
        ensures
            final(self).rows_received == sat_add(
                old(self).rows_received,
                clamp_u64(envelope_rows(envelope@)),
            ),
            final(self).rows_emitted == old(self).rows_emitted,
            final(self).cpu_us == old(self).cpu_us,
    {
        let n = envelope.num_rows();
        self.mark_rows_received(n);
    }

    /// Counts an envelope as it is sent downstream.
    pub fn count_sent(&mut self, envelope: &PipelineResultType)
        ensures
            final(self).rows_emitted == sat_add(
                old(self).rows_emitted,
                clamp_u64(envelope_rows(envelope@)),
            ),
            final(self).rows_received == old(self).rows_received,
            final(self).cpu_us == old(self).cpu_us,
    {
        let n = envelope.num_rows();
        self.mark_rows_emitted(n);
    }
}

} // verus!
