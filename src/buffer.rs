use vstd::prelude::*;

use crate::partition::{flatten, MicroPartition};

verus! {

/// Accumulates the rows of one input lane until a target batch size is reached.
pub struct OperatorBuffer {
    pending: Vec<u64>,
    threshold: usize,
}

impl OperatorBuffer {
    /// The rows buffered and not yet handed out, in arrival order.
    pub closed spec fn pending(&self) -> Seq<u64> {
        self.pending@
    }

    /// The target batch size.
    pub closed spec fn target(&self) -> nat {
        self.threshold as nat
    }

    pub open spec fn wf(&self) -> bool {
        self.target() > 0
    }

    pub fn new(threshold: usize) -> (r: OperatorBuffer)
        requires
            threshold > 0,
        ensures
            r.wf(),
            r.target() == threshold,
            r.pending() == Seq::<u64>::empty(),
    {
        OperatorBuffer { pending: Vec::new(), threshold }
    }

    pub fn threshold(&self) -> (r: usize)
        ensures
            r == self.target(),
    {
        self.threshold
    }

    /// Number of rows currently buffered.
    pub fn curr_len(&self) -> (r: usize)
        ensures
            r == self.pending().len(),
    {
        self.pending.len()
    }

    /// Appends the rows of `part` after those already buffered.
    pub fn push(&mut self, part: MicroPartition)
        requires
            old(self).pending().len() + part@.len() <= usize::MAX,
        ensures
            final(self).pending() == old(self).pending() + part@,
            final(self).target() == old(self).target(),
    {
        let mut rows = part.rows;
        self.pending.append(&mut rows);
    }

    /// Hands out exactly `threshold` rows when at least that many are buffered,
    /// keeping the surplus; otherwise hands out nothing.
    pub fn try_clear(&mut self) -> (r: Option<MicroPartition>)
        ensures
            final(self).target() == old(self).target(),
            old(self).pending().len() >= old(self).target() ==> {
                &&& r is Some
                &&& r->0@ == old(self).pending().take(old(self).target() as int)
                &&& final(self).pending() == old(self).pending().skip(old(self).target() as int)
            },
            old(self).pending().len() < old(self).target() ==> {
                &&& r is None
                &&& final(self).pending() == old(self).pending()
            },
    {
        if self.pending.len() >= self.threshold {
            let mut ready = self.pending.split_off(self.threshold);
            std::mem::swap(&mut ready, &mut self.pending);
            Some(MicroPartition::new(ready))
        } else {
            None
        }
    }

    /// Hands out every buffered row as one batch, if any row is buffered.
    pub fn clear_all(&mut self) -> (r: Option<MicroPartition>)
        ensures
            final(self).target() == old(self).target(),
            final(self).pending() == Seq::<u64>::empty(),
            old(self).pending().len() == 0 ==> r is None,
            old(self).pending().len() > 0 ==> r is Some && r->0@ == old(self).pending(),
    {
        if self.pending.len() == 0 {
            None
        } else {
            let mut ready: Vec<u64> = Vec::new();
            std::mem::swap(&mut ready, &mut self.pending);
            Some(MicroPartition::new(ready))
        }
    }
}

} // verus!
