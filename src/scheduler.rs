use vstd::prelude::*;

use crate::error::{DaftError, DaftResult};

verus! {

/// The lanes after one output was added: lane `i` gains `value[i]`, for
/// every `i` below both lengths.
pub open spec fn lanes_after<T>(lanes: Seq<Seq<T>>, value: Seq<T>) -> Seq<Seq<T>> {
    Seq::new(
        lanes.len(),
        |i: int|
            if i < value.len() {
                lanes[i].push(value[i])
            } else {
                lanes[i]
            },
    )
}

/// The contents of a collected result, lane by lane.
pub open spec fn lanes_view<T>(lanes: Seq<Vec<T>>) -> Seq<Seq<T>> {
    lanes.map_values(|l: Vec<T>| l@)
}

/// The message of the error returned once collection has stopped.
pub open spec fn receiver_dropped_message() -> Seq<char> {
    "Receiver dropped before done sending"@
}

fn receiver_dropped() -> (r: DaftError)
    ensures
        r is InternalError,
        r->InternalError_0@ == receiver_dropped_message(),
{
    DaftError::InternalError("Receiver dropped before done sending".to_owned())
}

/// Output sink that materializes every output of a partition-task tree into
/// one vector per output lane; the first error replaces the whole result.
pub struct SendToVec<T> {
    out: DaftResult<Vec<Vec<T>>>,
}

impl<T> SendToVec<T> {
    pub closed spec fn is_failed(&self) -> bool {
        self.out is Err
    }

    /// The collected lanes, while no error was received.
    pub closed spec fn lanes(&self) -> Seq<Seq<T>> {
        lanes_view(self.out->Ok_0@)
    }

    /// The error that was received, once there was one.
    pub closed spec fn error(&self) -> DaftError {
        self.out->Err_0
    }

    pub fn new(out: DaftResult<Vec<Vec<T>>>) -> (r: SendToVec<T>)
        ensures
            r.is_failed() == out is Err,
            out is Ok ==> r.lanes() == lanes_view(out->Ok_0@),
            out is Err ==> r.error() == out->Err_0,
    {
        SendToVec { out }
    }

    /// Adds one output: its `i`-th partition joins lane `i`. An error output
    /// replaces the collected result; after that every send fails.
    pub fn send_output(&mut self, output: DaftResult<Vec<T>>) -> (r: DaftResult<()>)
        ensures
            output is Ok && !old(self).is_failed() ==> {
                &&& r is Ok
                &&& !final(self).is_failed()
                &&& final(self).lanes() == lanes_after(old(self).lanes(), output->Ok_0@)
            },
            output is Ok && old(self).is_failed() ==> {
                &&& final(self).is_failed()
                &&& final(self).error() == old(self).error()
            },
            output is Err ==> {
                &&& final(self).is_failed()
                &&& final(self).error() == output->Err_0
            },
            (output is Err || old(self).is_failed()) ==> {
                &&& r is Err
                &&& r->Err_0 is InternalError
                &&& r->Err_0->InternalError_0@ == receiver_dropped_message()
            },
    {
        match output {
            Ok(value) => {
                let mut collected: DaftResult<Vec<Vec<T>>> = Err(receiver_dropped());
                std::mem::swap(&mut collected, &mut self.out);
                match collected {
                    Ok(lanes) => {
                        let new_lanes = add_to_lanes(lanes, value);
                        self.out = Ok(new_lanes);
                        Ok(())
                    },
                    Err(e) => {
                        self.out = Err(e);
                        Err(receiver_dropped())
                    },
                }
            },
            Err(e) => {
                self.out = Err(e);
                Err(receiver_dropped())
            },
        }
    }

    /// The collected result.
    pub fn into_output(self) -> (r: DaftResult<Vec<Vec<T>>>)
        ensures
            r is Err == self.is_failed(),
            r is Ok ==> lanes_view(r->Ok_0@) == self.lanes(),
            r is Err ==> r->Err_0 == self.error(),
    {
        self.out
    }
}

fn add_to_lanes<T>(lanes: Vec<Vec<T>>, value: Vec<T>) -> (r: Vec<Vec<T>>)
    ensures
        lanes_view(r@) == lanes_after(lanes_view(lanes@), value@),
{
    let ghost orig_lanes = lanes@;
    let ghost orig_value = value@;
    let ghost target = lanes_after(lanes_view(lanes@), value@);
    let mut lanes = lanes;
    let mut value = value;
    let mut out: Vec<Vec<T>> = Vec::new();
    let mut i: usize = 0;
    let n = lanes.len();
    while i < n
        invariant
            n == orig_lanes.len(),
            i <= n,
            lanes@ == orig_lanes.skip(i as int),
            i <= orig_value.len() ==> value@ == orig_value.skip(i as int),
            i > orig_value.len() ==> value@.len() == 0,
            target == lanes_after(lanes_view(orig_lanes), orig_value),
            out@.len() == i,
            forall|k: int| 0 <= k < i ==> (#[trigger] out@[k])@ == target[k],
        decreases n - i,
    {
        let mut lane = lanes.remove(0);
        proof {
            assert(lane == orig_lanes[i as int]);
        }
        if value.len() > 0 {
            let v = value.remove(0);
            proof {
                assert(v == orig_value[i as int]);
            }
            lane.push(v);
        }
        out.push(lane);
        i += 1;
        proof {
            assert(lanes@ =~= orig_lanes.skip(i as int));
            if i <= orig_value.len() {
                assert(value@ =~= orig_value.skip(i as int));
            }
        }
    }
    assert(lanes_view(out@) =~= target);
    out
}

/// A scheduler that runs a partition-task tree to completion and hands back
/// every output at once, one vector per output lane. The outputs themselves
/// come from the streaming scheduler it delegates to.
pub struct BulkPartitionTaskScheduler<T> {
    num_outputs: usize,
    leaf_inputs: Vec<Vec<T>>,
    max_output_queue_size: Option<usize>,
}

impl<T> BulkPartitionTaskScheduler<T> {
    pub closed spec fn num_outputs_spec(&self) -> nat {
        self.num_outputs as nat
    }

    pub closed spec fn leaf_inputs_spec(&self) -> Seq<Seq<T>> {
        lanes_view(self.leaf_inputs@)
    }

    pub closed spec fn max_output_queue_size_spec(&self) -> Option<usize> {
        self.max_output_queue_size
    }

    /// `num_outputs` is the number of outputs of the task tree's root.
    pub fn new(num_outputs: usize, leaf_inputs: Vec<Vec<T>>, max_output_queue_size: Option<usize>) -> (r:
        BulkPartitionTaskScheduler<T>)
        ensures
            r.num_outputs_spec() == num_outputs,
            r.leaf_inputs_spec() == lanes_view(leaf_inputs@),
            r.max_output_queue_size_spec() == max_output_queue_size,
    {
        BulkPartitionTaskScheduler { num_outputs, leaf_inputs, max_output_queue_size }
    }

    pub fn num_outputs(&self) -> (r: usize)
        ensures
            r == self.num_outputs_spec(),
    {
        self.num_outputs
    }

    pub fn max_output_queue_size(&self) -> (r: Option<usize>)
        ensures
            r == self.max_output_queue_size_spec(),
    {
        self.max_output_queue_size
    }

    /// Hands the leaf inputs over to the streaming run.
    pub fn into_leaf_inputs(self) -> (r: Vec<Vec<T>>)
        ensures
            lanes_view(r@) == self.leaf_inputs_spec(),
    {
        self.leaf_inputs
    }

    /// Collects the outputs that the streaming run produced, in order, into
    /// one vector per output lane; the first error is the result.
    pub fn execute(self, outputs: Vec<DaftResult<Vec<T>>>) -> (r: DaftResult<Vec<Vec<T>>>)
        ensures
            collected(empty_lanes(self.num_outputs_spec()), outputs@) is Ok ==> r is Ok
                && lanes_view(r->Ok_0@) == collected(
                empty_lanes(self.num_outputs_spec()),
                outputs@,
            )->Ok_0,
            collected(empty_lanes(self.num_outputs_spec()), outputs@) is Err ==> r is Err
                && r->Err_0 == collected(empty_lanes(self.num_outputs_spec()), outputs@)->Err_0,
    {
        let ghost goal = collected(empty_lanes(self.num_outputs_spec()), outputs@);
        let mut lanes: Vec<Vec<T>> = Vec::new();
        let mut i: usize = 0;
        while i < self.num_outputs
            invariant
                i <= self.num_outputs,
                lanes@.len() == i,
                forall|k: int| 0 <= k < i ==> (#[trigger] lanes@[k])@ == Seq::<T>::empty(),
            decreases self.num_outputs - i,
        {
            lanes.push(Vec::new());
            i += 1;
        }
        assert(lanes_view(lanes@) =~= empty_lanes(self.num_outputs_spec()));
        let mut sink = SendToVec::new(Ok(lanes));
        let mut rest = outputs;
        while rest.len() > 0
            invariant
                !sink.is_failed(),
                collected(sink.lanes(), rest@) == goal,
                goal == collected(empty_lanes(self.num_outputs_spec()), outputs@),
            decreases rest.len(),
        {
            let ghost rest_before = rest@;
            let output = rest.remove(0);
            proof {
                assert(rest@ =~= rest_before.skip(1));
                assert(output == rest_before[0]);
            }
            if sink.send_output(output).is_err() {
                return sink.into_output();
            }
        }
        sink.into_output()
    }
}

/// No lane holds anything yet.
pub open spec fn empty_lanes<T>(n: nat) -> Seq<Seq<T>> {
    Seq::new(n, |i: int| Seq::<T>::empty())
}

/// The result of collecting `outputs` in order onto `lanes`: the lanes grown
/// by every output, or the first error.
pub open spec fn collected<T>(lanes: Seq<Seq<T>>, outputs: Seq<DaftResult<Vec<T>>>) -> Result<
    Seq<Seq<T>>,
    DaftError,
>
    decreases outputs.len(),
{
    if outputs.len() == 0 {
        Ok(lanes)
    } else {
        match outputs[0] {
            Ok(v) => collected(lanes_after(lanes, v@), outputs.skip(1)),
            Err(e) => Err(e),
        }
    }
}

} // verus!
