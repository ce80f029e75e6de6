use vstd::prelude::*;

use vstd::arithmetic::div_mod::{
    lemma_div_is_ordered, lemma_div_multiples_vanish, lemma_fundamental_div_mod, lemma_mod_bound,
};

verus! {

/// The sending side of a worker pool's output: one channel per worker when
/// order matters, else one channel that all workers share.
#[derive(Debug, PartialEq, Eq)]
pub struct MultiSender {
    num_senders: usize,
    in_order: bool,
    next: usize,
}

impl MultiSender {
    pub closed spec fn num_senders_spec(&self) -> nat {
        self.num_senders as nat
    }

    pub closed spec fn in_order_spec(&self) -> bool {
        self.in_order
    }

    /// The lane whose turn it is when order matters.
    pub closed spec fn next_spec(&self) -> nat {
        self.next as nat
    }

    pub open spec fn wf(&self) -> bool {
        &&& self.num_senders_spec() > 0
        &&& self.next_spec() < self.num_senders_spec()
    }

    pub fn new(num_senders: usize, in_order: bool) -> (r: MultiSender)
        requires
            num_senders > 0,
        ensures
            r.wf(),
            r.num_senders_spec() == num_senders,
            r.in_order_spec() == in_order,
            r.next_spec() == 0,
    {
        MultiSender { num_senders, in_order, next: 0 }
    }

    /// Number of output channels to create: one per worker in order-preserving
    /// mode, a single shared one otherwise.
    pub fn num_channels(&self) -> (r: usize)
        ensures
            r == if self.in_order_spec() {
                self.num_senders_spec()
            } else {
                1
            },
    {
        if self.in_order {
            self.num_senders
        } else {
            1
        }
    }

    /// The output channel of each of `num_workers` workers, handed out in turn.
    pub fn assign_senders(&mut self, num_workers: usize) -> (r: Vec<usize>)
        requires
            old(self).wf(),
            old(self).next_spec() == 0,
        ensures
            final(self).wf(),
            final(self).num_senders_spec() == old(self).num_senders_spec(),
            final(self).in_order_spec() == old(self).in_order_spec(),
            r@.len() == num_workers,
            forall|i: int|
                0 <= i < num_workers ==> #[trigger] r@[i] as int == if old(self).in_order_spec() {
                    i % (old(self).num_senders_spec() as int)
                } else {
                    0
                },
    {
        let mut out: Vec<usize> = Vec::new();
        let mut i: usize = 0;
        let ghost n = self.num_senders as int;
        proof {
            assert(0int % n == 0);
        }
        while i < num_workers
            invariant
                self.wf(),
                self.num_senders as int == n,
                self.in_order == old(self).in_order,
                i <= num_workers,
                out@.len() == i,
                self.in_order ==> self.next as int == i as int % n,
                !self.in_order ==> self.next == 0,
                forall|k: int|
                    0 <= k < i ==> #[trigger] out@[k] as int == if self.in_order {
                        k % n
                    } else {
                        0
                    },
            decreases num_workers - i,
        {
            let s = self.get_next_sender();
            out.push(s);
            proof {
                vstd::arithmetic::div_mod::lemma_add_mod_noop_right(1, i as int, n);
            }
            i += 1;
        }
        out
    }

    /// The channel that the next worker writes to; in order-preserving mode
    /// the channels are handed out in turn.
    pub fn get_next_sender(&mut self) -> (r: usize)
        requires
            old(self).wf(),
        ensures
            final(self).wf(),
            final(self).num_senders_spec() == old(self).num_senders_spec(),
            final(self).in_order_spec() == old(self).in_order_spec(),
            old(self).in_order_spec() ==> r == old(self).next_spec() && final(self).next_spec() as int
                == (old(self).next_spec() + 1) as int % (old(self).num_senders_spec() as int),
            !old(self).in_order_spec() ==> r == 0 && final(self).next_spec() == old(
                self,
            ).next_spec(),
    {
        if self.in_order {
            let r = self.next;
            self.next = (self.next + 1) % self.num_senders;
            r
        } else {
            0
        }
    }
}

/// The order-preserving receiving side: takes values from the lanes in turn,
/// starting after the lane that gave the last value; lanes found closed are
/// passed over, and the whole is done once every lane is closed.
#[derive(Debug, PartialEq, Eq)]
pub struct RoundRobinReceiver {
    num_lanes: usize,
    curr: usize,
    done: bool,
}

impl RoundRobinReceiver {
    pub closed spec fn num_lanes_spec(&self) -> nat {
        self.num_lanes as nat
    }

    pub closed spec fn curr_spec(&self) -> nat {
        self.curr as nat
    }

    pub closed spec fn done_spec(&self) -> bool {
        self.done
    }

    pub open spec fn wf(&self) -> bool {
        &&& self.num_lanes_spec() > 0
        &&& self.curr_spec() < self.num_lanes_spec()
    }

    pub fn new(num_lanes: usize) -> (r: RoundRobinReceiver)
        requires
            num_lanes > 0,
        ensures
            r.wf(),
            r.num_lanes_spec() == num_lanes,
            r.curr_spec() == 0,
            !r.done_spec(),
    {
        RoundRobinReceiver { num_lanes, curr: 0, done: false }
    }

    pub fn num_lanes(&self) -> (r: usize)
        ensures
            r == self.num_lanes_spec(),
    {
        self.num_lanes
    }

    pub fn is_done(&self) -> (r: bool)
        ensures
            r == self.done_spec(),
    {
        self.done
    }

    /// The lane to poll at the `attempt`-th try of one receive.
    pub fn lane_to_poll(&self, attempt: usize) -> (r: usize)
        requires
            self.wf(),
            attempt < self.num_lanes_spec(),
        ensures
            r as int == (self.curr_spec() + attempt) as int % (self.num_lanes_spec() as int),
            r < self.num_lanes_spec(),
    {
        ((self.curr as u128 + attempt as u128) % self.num_lanes as u128) as usize
    }

    /// Lane `lane` gave a value: the next receive starts at the lane after it.
    pub fn on_value(&mut self, lane: usize)
        requires
            old(self).wf(),
            lane < old(self).num_lanes_spec(),
        ensures
            final(self).wf(),
            final(self).num_lanes_spec() == old(self).num_lanes_spec(),
            final(self).done_spec() == old(self).done_spec(),
            final(self).curr_spec() as int == (lane + 1) as int % (old(self).num_lanes_spec() as int),
    {
        self.curr = (lane + 1) % self.num_lanes;
    }

    /// Every lane was found closed during one receive.
    pub fn on_all_closed(&mut self)
        ensures
            final(self).done_spec(),
            final(self).num_lanes_spec() == old(self).num_lanes_spec(),
            final(self).curr_spec() == old(self).curr_spec(),
    {
        self.done = true;
    }
}

/// Number of positions `k < len` with `k % n == i`.
pub open spec fn lane_len(len: nat, n: nat, i: nat) -> nat {
    if i < len {
        ((len - 1 - i) as nat / n + 1) as nat
    } else {
        0
    }
}

/// Round-robin distribution of `s` over `n` lanes: item `k` goes to lane `k % n`.
pub open spec fn distribute<A>(s: Seq<A>, n: nat) -> Seq<Seq<A>> {
    Seq::new(n, |i: int| Seq::new(lane_len(s.len(), n, i as nat), |m: int| s[i + m * n]))
}

/// Order-preserving merge of lanes: the `k`-th value comes from lane
/// `k % n`, as the `k / n`-th value of that lane.
pub open spec fn merge_in_order<A>(lanes: Seq<Seq<A>>, total: nat) -> Seq<A> {
    Seq::new(total, |k: int| lanes[k % (lanes.len() as int)][k / (lanes.len() as int)])
}

/// Handing items out to `n` lanes in turn and taking them back in turn
/// gives back the sequence that was handed out.
pub proof fn lemma_in_order_merge_restores_order<A>(s: Seq<A>, n: nat)
    requires
        n > 0,
    ensures
        merge_in_order(distribute(s, n), s.len()) == s,
{
    let lanes = distribute(s, n);
    let ni = n as int;
    assert forall|k: int| 0 <= k < s.len() implies #[trigger] merge_in_order(lanes, s.len())[k]
        == s[k] by {
        let i = k % ni;
        let q = k / ni;
        lemma_fundamental_div_mod(k, ni);
        lemma_mod_bound(k, ni);
        assert(0 <= q) by {
            vstd::arithmetic::div_mod::lemma_div_pos_is_pos(k, ni);
        }
        assert(q * ni == ni * q) by {
            vstd::arithmetic::mul::lemma_mul_is_commutative(q, ni);
        }
        assert(q * ni <= s.len() - 1 - i);
        lemma_div_multiples_vanish(q, ni);
        assert((ni * q) / ni == q);
        lemma_div_is_ordered(q * ni, s.len() - 1 - i, ni);
        assert(q < lane_len(s.len(), n, i as nat));
        assert(lanes[i][q] == s[i + q * ni]);
    }
    assert(merge_in_order(lanes, s.len()) =~= s);
}

} // verus!
