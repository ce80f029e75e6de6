use vstd::prelude::*;

use crate::buffer::OperatorBuffer;
use crate::multi::{distribute, lemma_in_order_merge_restores_order, merge_in_order};
use crate::partition::{
    flatten, is_broadcast, lemma_flatten_permutation, lemma_flatten_push, lemma_total_rows_is_flatten_len, total_rows, EnvelopeModel, MicroPartition, PipelineResultType,
};

verus! {

/// One envelope addressed to one worker of the pool, tagged with its input lane.
#[derive(Debug, PartialEq, Eq)]
pub struct WorkerMessage {
    pub worker: usize,
    pub lane: usize,
    pub envelope: PipelineResultType,
}

/// The rows of a data message.
pub open spec fn message_rows(m: WorkerMessage) -> Seq<u64> {
    match m.envelope@ {
        EnvelopeModel::Data(rows) => rows,
        EnvelopeModel::ProbeTable(_, _) => Seq::empty(),
    }
}

/// The row sequences of a sequence of messages.
pub open spec fn messages_rows(ms: Seq<WorkerMessage>) -> Seq<Seq<u64>> {
    ms.map_values(|m: WorkerMessage| message_rows(m))
}

/// The decisions of the distribution stage of an intermediate node: which
/// worker receives which envelope. Ordinary data is batched per lane to the
/// morsel size and handed to the workers in turn; broadcast envelopes go to
/// every worker as they are.
pub struct Dispatcher {
    buffer: OperatorBuffer,
    next_worker: usize,
    num_workers: usize,
    /// Data rows received so far, over all lanes, in arrival order.
    received: Ghost<Seq<u64>>,
    /// Data batches handed to workers so far, in sending order.
    sent: Ghost<Seq<Seq<u64>>>,
}

impl Dispatcher {
    pub closed spec fn num_workers_spec(&self) -> nat {
        self.num_workers as nat
    }

    pub closed spec fn next_worker_spec(&self) -> nat {
        self.next_worker as nat
    }

    pub closed spec fn morsel_size_spec(&self) -> nat {
        self.buffer.target()
    }

    /// Data rows buffered and not yet handed out.
    pub closed spec fn pending(&self) -> Seq<u64> {
        self.buffer.pending()
    }

    /// Every data row received so far, in arrival order.
    pub closed spec fn received(&self) -> Seq<u64> {
        self.received@
    }

    /// Every data batch handed to a worker so far, in sending order.
    pub closed spec fn sent(&self) -> Seq<Seq<u64>> {
        self.sent@
    }

    pub closed spec fn wf(&self) -> bool {
        &&& self.num_workers > 0
        &&& self.next_worker < self.num_workers
        &&& self.buffer.wf()
        &&& flatten(self.sent@) + self.buffer.pending() == self.received@
        &&& self.next_worker as int == self.sent@.len() as int % (self.num_workers as int)
    }

    pub fn new(num_workers: usize, morsel_size: usize) -> (r: Dispatcher)
        requires
            num_workers > 0,
            morsel_size > 0,
        ensures
            r.wf(),
            r.num_workers_spec() == num_workers,
            r.morsel_size_spec() == morsel_size,
            r.next_worker_spec() == 0,
            r.pending() == Seq::<u64>::empty(),
            r.received() == Seq::<u64>::empty(),
            r.sent() == Seq::<Seq<u64>>::empty(),
    {
        let r = Dispatcher {
            buffer: OperatorBuffer::new(morsel_size),
            next_worker: 0,
            num_workers,
            received: Ghost(Seq::empty()),
            sent: Ghost(Seq::empty()),
        };
        assert(flatten(Seq::<Seq<u64>>::empty()) + Seq::<u64>::empty() =~= Seq::<u64>::empty());
        assert(0int % (num_workers as int) == 0);
        r
    }

    /// Number of data rows buffered.
    pub fn num_pending(&self) -> (r: usize)
        ensures
            r == self.pending().len(),
    {
        self.buffer.curr_len()
    }

    /// The worker that receives the next data batch; advances the turn.
    fn take_turn(&mut self) -> (r: usize)
        requires
            old(self).num_workers > 0,
            old(self).next_worker < old(self).num_workers,
        ensures
            r == old(self).next_worker,
            final(self).next_worker == (old(self).next_worker + 1) % (old(self).num_workers as int),
            final(self).num_workers == old(self).num_workers,
            final(self).buffer == old(self).buffer,
            final(self).received == old(self).received,
            final(self).sent == old(self).sent,
    {
        let w = self.next_worker;
        self.next_worker = (self.next_worker + 1) % self.num_workers;
        w
    }

    /// Hands a batch that the buffer released to the worker whose turn it is.
    fn send_batch(&mut self, lane: usize, batch: MicroPartition) -> (r: WorkerMessage)
        requires
            old(self).num_workers > 0,
            old(self).next_worker < old(self).num_workers,
            old(self).next_worker as int == old(self).sent@.len() as int % (old(self).num_workers as int),
        ensures
            final(self).next_worker as int == final(self).sent@.len() as int % (final(self).num_workers as int),
            r.worker == old(self).next_worker,
            r.lane == lane,
            r.envelope@ == EnvelopeModel::Data(batch@),
            final(self).next_worker == (old(self).next_worker + 1) % (old(self).num_workers as int),
            final(self).num_workers == old(self).num_workers,
            final(self).buffer == old(self).buffer,
            final(self).received == old(self).received,
            final(self).sent@ == old(self).sent@.push(batch@),
    {
        let ghost rows = batch@;
        let worker = self.take_turn();
        self.sent = Ghost(self.sent@.push(rows));
        proof {
            vstd::arithmetic::div_mod::lemma_add_mod_noop_right(
                1,
                old(self).sent@.len() as int,
                self.num_workers as int,
            );
        }
        WorkerMessage { worker, lane, envelope: PipelineResultType::Data(batch) }
    }

    /// Decides where a morsel that arrived on input lane `lane` goes.
    pub fn on_morsel(&mut self, lane: usize, morsel: PipelineResultType) -> (r: Vec<WorkerMessage>)
        requires
            old(self).wf(),
            morsel@ is Data ==> old(self).pending().len() + morsel@->Data_0.len() <= usize::MAX,
        ensures
            final(self).wf(),
            final(self).num_workers_spec() == old(self).num_workers_spec(),
            final(self).morsel_size_spec() == old(self).morsel_size_spec(),
            is_broadcast(morsel@) ==> {
                &&& r@.len() == old(self).num_workers_spec()
                &&& forall|i: int|
                    0 <= i < r@.len() ==> (#[trigger] r@[i]).worker == i && r@[i].lane == lane
                        && r@[i].envelope@ == morsel@
                &&& final(self).pending() == old(self).pending()
                &&& final(self).received() == old(self).received()
                &&& final(self).sent() == old(self).sent()
                &&& final(self).next_worker_spec() == old(self).next_worker_spec()
            },
            !is_broadcast(morsel@) ==> {
                let rows = old(self).pending() + morsel@->Data_0;
                let m = old(self).morsel_size_spec() as int;
                &&& final(self).received() == old(self).received() + morsel@->Data_0
                &&& rows.len() >= m ==> {
                    &&& r@.len() == 1
                    &&& r@[0].worker == old(self).next_worker_spec()
                    &&& r@[0].lane == lane
                    &&& r@[0].envelope@ == EnvelopeModel::Data(rows.take(m))
                    &&& final(self).pending() == rows.skip(m)
                    &&& final(self).sent() == old(self).sent().push(rows.take(m))
                    &&& final(self).next_worker_spec() as int == (old(self).next_worker_spec() + 1) as int
                        % (old(self).num_workers_spec() as int)
                }
                &&& rows.len() < m ==> {
                    &&& r@.len() == 0
                    &&& final(self).pending() == rows
                    &&& final(self).sent() == old(self).sent()
                    &&& final(self).next_worker_spec() == old(self).next_worker_spec()
                }
            },
    {
        let mut out: Vec<WorkerMessage> = Vec::new();
        match morsel {
            PipelineResultType::Data(part) => {
                let ghost part_rows = part@;
                let ghost old_pending = self.buffer.pending();
                self.buffer.push(part);
                self.received = Ghost(self.received@ + part_rows);
                proof {
                    assert(flatten(self.sent@) + self.buffer.pending() =~= self.received@);
                }
                match self.buffer.try_clear() {
                    Some(ready) => {
                        let ghost ready_rows = ready@;
                        let msg = self.send_batch(lane, ready);
                        out.push(msg);
                        proof {
                            let rows = old_pending + part_rows;
                            lemma_flatten_push(old(self).sent@, ready_rows);
                            assert(rows =~= ready_rows + self.buffer.pending());
                            assert(flatten(self.sent@) + self.buffer.pending() =~= self.received@);
                        }
                    },
                    None => {},
                }
            },
            PipelineResultType::ProbeTable(table, parts) => {
                let morsel = PipelineResultType::ProbeTable(table, parts);
                let mut w: usize = 0;
                while w < self.num_workers
                    invariant
                        w <= self.num_workers,
                        out@.len() == w,
                        forall|i: int|
                            0 <= i < w ==> (#[trigger] out@[i]).worker == i && out@[i].lane
                                == lane && out@[i].envelope@ == morsel@,
                    decreases self.num_workers - w,
                {
                    out.push(WorkerMessage { worker: w, lane, envelope: morsel.duplicate() });
                    w += 1;
                }
            },
        }
        out
    }

    /// Flushes what lane `lane` left in the buffer once that lane has ended:
    /// full batches first, then the undersized remainder.
    pub fn on_lane_end(&mut self, lane: usize) -> (r: Vec<WorkerMessage>)
        requires
            old(self).wf(),
        ensures
            final(self).wf(),
            final(self).num_workers_spec() == old(self).num_workers_spec(),
            final(self).morsel_size_spec() == old(self).morsel_size_spec(),
            final(self).pending() == Seq::<u64>::empty(),
            final(self).received() == old(self).received(),
            final(self).sent() == old(self).sent() + messages_rows(r@),
            flatten(messages_rows(r@)) == old(self).pending(),
            forall|i: int|
                0 <= i < r@.len() ==> {
                    &&& (#[trigger] r@[i]).lane == lane
                    &&& r@[i].envelope@ is Data
                    &&& r@[i].worker as int == (old(self).next_worker_spec() + i) as int % (old(
                        self,
                    ).num_workers_spec() as int)
                    &&& 0 < message_rows(r@[i]).len() <= old(self).morsel_size_spec()
                    &&& i + 1 < r@.len() ==> message_rows(r@[i]).len()
                        == old(self).morsel_size_spec()
                },
            final(self).next_worker_spec() as int == (old(self).next_worker_spec() + r@.len()) as int
                % (old(self).num_workers_spec() as int),
    {
        let mut out: Vec<WorkerMessage> = Vec::new();
        let ghost start = self.buffer.pending();
        let ghost n = self.num_workers as int;
        let ghost first = self.next_worker as int;
        let ghost m = self.buffer.target() as int;
        proof {
            assert(messages_rows(out@) =~= Seq::<Seq<u64>>::empty());
            assert(old(self).sent@ + messages_rows(out@) =~= old(self).sent@);
            assert(flatten(messages_rows(out@)) + start =~= start);
            vstd::arithmetic::div_mod::lemma_small_mod(first as nat, n as nat);
        }
        loop
            invariant
                self.wf(),
                self.num_workers as int == n,
                self.next_worker as int == self.sent@.len() as int % n,
                self.buffer.target() == m,
                self.received@ == old(self).received@,
                self.sent@ == old(self).sent@ + messages_rows(out@),
                flatten(messages_rows(out@)) + self.buffer.pending() == start,
                self.next_worker as int == (first + out@.len()) % n,
                n > 0,
                m > 0,
                forall|i: int|
                    0 <= i < out@.len() ==> {
                        &&& (#[trigger] out@[i]).lane == lane
                        &&& out@[i].envelope@ is Data
                        &&& out@[i].worker as int == (first + i) % n
                        &&& message_rows(out@[i]).len() == m
                    },
            ensures
                self.buffer.pending().len() < m,
            decreases self.buffer.pending().len(),
        {
            let ghost before = self.buffer.pending();
            match self.buffer.try_clear() {
                Some(ready) => {
                    let ghost rows = ready@;
                    let ghost k = out@.len() as int;
                    let ghost prev = out@;
                    let msg = self.send_batch(lane, ready);
                    out.push(msg);
                    proof {
                        assert(messages_rows(out@) =~= messages_rows(out@.drop_last()).push(rows));
                        assert(out@.drop_last() =~= prev);
                        lemma_flatten_push(messages_rows(prev), rows);
                        assert(before =~= rows + self.buffer.pending());
                        assert(self.sent@ =~= old(self).sent@ + messages_rows(out@));
                        assert(flatten(messages_rows(out@)) + self.buffer.pending() =~= start);
                        vstd::arithmetic::div_mod::lemma_add_mod_noop_right(1, first + k, n);
                        assert(flatten(self.sent@) + self.buffer.pending() =~= self.received@) by {
                            lemma_flatten_push(self.sent@.drop_last(), rows);
                            assert(self.sent@.drop_last() =~= old(self).sent@ + messages_rows(prev));
                        }
                    }
                },
                None => {
                    break;
                },
            }
        }
        let ghost k = out@.len() as int;
        match self.buffer.clear_all() {
            Some(last) => {
                let ghost rows = last@;
                let ghost before_sent = self.sent@;
                let ghost prev = out@;
                let msg = self.send_batch(lane, last);
                out.push(msg);
                proof {
                    assert(out@.drop_last() =~= prev);
                    assert(messages_rows(out@) =~= messages_rows(prev).push(rows));
                    lemma_flatten_push(messages_rows(prev), rows);
                    lemma_flatten_push(before_sent, rows);
                    assert(message_rows(out@[k]) == rows);
                    assert(forall|i: int| 0 <= i < k ==> out@[i] == prev[i]);
                    assert(self.sent@ =~= old(self).sent@ + messages_rows(out@));
                    assert(flatten(self.sent@) + self.buffer.pending() =~= self.received@);
                    vstd::arithmetic::div_mod::lemma_add_mod_noop_right(1, first + k, n);
                }
            },
            None => {
                proof {
                    assert(flatten(messages_rows(out@)) =~= start);
                }
            },
        }
        out
    }
}

/// No data row is lost or duplicated by the distribution stage: what was
/// handed to workers, followed by what is still buffered, is exactly what
/// arrived, in arrival order, so the row counts add up too.
pub proof fn lemma_rows_conserved(d: &Dispatcher)
    requires
        d.wf(),
    ensures
        flatten(d.sent()) + d.pending() == d.received(),
        total_rows(d.sent()) + d.pending().len() == d.received().len(),
        d.next_worker_spec() as int == d.sent().len() as int % (d.num_workers_spec() as int),
{
    lemma_total_rows_is_flatten_len(d.sent());
}

/// With an operator that hands every input back unchanged (each worker then
/// forwards its inputs as they are, see `lemma_identity_worker_forwards_inputs`)
/// and order-preserving fan-in, a node emits exactly the data rows it received,
/// in the same order: batch `k` goes to worker `k % n`, and the merge takes it
/// back from there.
pub proof fn lemma_identity_node_preserves_rows(d: &Dispatcher)
    requires
        d.wf(),
        d.pending().len() == 0,
    ensures
        flatten(merge_in_order(distribute(d.sent(), d.num_workers_spec()), d.sent().len()))
            == d.received(),
{
    lemma_in_order_merge_restores_order(d.sent(), d.num_workers_spec());
    assert(flatten(d.sent()) + d.pending() =~= flatten(d.sent()));
}

/// In first-ready mode batches leave the worker pool in whatever order the
/// workers finish. With an operator that hands every input back unchanged,
/// every batch sent comes out once, so the multiset of rows emitted is exactly
/// the multiset of rows received.
pub proof fn lemma_identity_node_keeps_row_multiset(d: &Dispatcher, arrived: Seq<Seq<u64>>)
    requires
        d.wf(),
        d.pending().len() == 0,
        arrived.to_multiset() == d.sent().to_multiset(),
    ensures
        flatten(arrived).to_multiset() == d.received().to_multiset(),
{
    lemma_flatten_permutation(arrived, d.sent());
    assert(flatten(d.sent()) + d.pending() =~= flatten(d.sent()));
}

} // verus!
