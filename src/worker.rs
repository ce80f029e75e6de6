use vstd::prelude::*;

use crate::error::DaftError;
use crate::partition::MicroPartition;

verus! {

/// What one call of an intermediate operator produced.
#[derive(Debug, PartialEq, Eq)]
pub enum IntermediateOperatorResult {
    /// The input is consumed; at most one partition is ready.
    NeedMoreInput(Option<MicroPartition>),
    /// A partition is ready and more will follow for the same input.
    HasMoreOutput(MicroPartition),
}

/// What a worker does after one call of its operator.
#[derive(Debug, PartialEq, Eq)]
pub enum WorkerStep {
    /// Forward the partition downstream, then take the next input.
    Forward(MicroPartition),
    /// Forward the partition downstream, then call the operator again on the same input.
    ForwardAndReinvoke(MicroPartition),
    /// Nothing to forward; take the next input.
    Idle,
    /// Report the error downstream and stop.
    Fail(DaftError),
}

/// The worker's decision on one operator outcome.
pub open spec fn step_spec(result: Result<IntermediateOperatorResult, DaftError>) -> WorkerStep {
    match result {
        Ok(IntermediateOperatorResult::NeedMoreInput(Some(p))) => WorkerStep::Forward(p),
        Ok(IntermediateOperatorResult::NeedMoreInput(None)) => WorkerStep::Idle,
        Ok(IntermediateOperatorResult::HasMoreOutput(p)) => WorkerStep::ForwardAndReinvoke(p),
        Err(e) => WorkerStep::Fail(e),
    }
}

/// What a worker sends downstream for a run of operator outcomes, in order:
/// each produced partition, and after the first failure that error and nothing more.
pub open spec fn emitted(results: Seq<Result<IntermediateOperatorResult, DaftError>>) -> Seq<
    Result<Seq<u64>, DaftError>,
>
    decreases results.len(),
{
    if results.len() == 0 {
        Seq::empty()
    } else {
        let rest = emitted(results.skip(1));
        match results[0] {
            Ok(IntermediateOperatorResult::NeedMoreInput(Some(p))) => seq![Ok(p@)] + rest,
            Ok(IntermediateOperatorResult::NeedMoreInput(None)) => rest,
            Ok(IntermediateOperatorResult::HasMoreOutput(p)) => seq![Ok(p@)] + rest,
            Err(e) => seq![Err(e)],
        }
    }
}

/// The row view of a sequence of worker outputs.
pub open spec fn outputs_view(outs: Seq<Result<MicroPartition, DaftError>>) -> Seq<
    Result<Seq<u64>, DaftError>,
> {
    outs.map_values(
        |o: Result<MicroPartition, DaftError>|
            match o {
                Ok(p) => Ok(p@),
                Err(e) => Err(e),
            },
    )
}

/// Decides what a worker does with the outcome of one operator call.
pub fn step(result: Result<IntermediateOperatorResult, DaftError>) -> (r: WorkerStep)
    ensures
        r == step_spec(result),
{
    match result {
        Ok(IntermediateOperatorResult::NeedMoreInput(Some(p))) => WorkerStep::Forward(p),
        Ok(IntermediateOperatorResult::NeedMoreInput(None)) => WorkerStep::Idle,
        Ok(IntermediateOperatorResult::HasMoreOutput(p)) => WorkerStep::ForwardAndReinvoke(p),
        Err(e) => WorkerStep::Fail(e),
    }
}

proof fn lemma_emitted_append(
    done: Seq<Result<IntermediateOperatorResult, DaftError>>,
    r: Result<IntermediateOperatorResult, DaftError>,
)
    requires
        forall|i: int| 0 <= i < done.len() ==> (#[trigger] done[i]) is Ok,
    ensures
        emitted(done.push(r)) == emitted(done) + emitted(seq![r]),
    decreases done.len(),
{
    if done.len() == 0 {
        assert(done.push(r) =~= seq![r]);
        assert(emitted(done) =~= Seq::empty());
        assert(emitted(done.push(r)) =~= emitted(done) + emitted(seq![r]));
    } else {
        let tail = done.skip(1);
        assert(done.push(r).skip(1) =~= tail.push(r));
        assert forall|i: int| 0 <= i < tail.len() implies (#[trigger] tail[i]) is Ok by {
            assert(tail[i] == done[i + 1]);
        }
        lemma_emitted_append(tail, r);
        assert(done.push(r)[0] == done[0]);
        assert(emitted(seq![r]).len() >= 0);
        match done[0] {
            Ok(IntermediateOperatorResult::NeedMoreInput(None)) => {},
            Ok(_) => {
                assert(emitted(done.push(r)) =~= emitted(done) + emitted(seq![r]));
            },
            Err(_) => {},
        }
    }
}

/// Runs a worker over the outcomes of its successive operator calls and
/// returns what it sends downstream.
pub fn worker_outputs(results: Vec<Result<IntermediateOperatorResult, DaftError>>) -> (r: Vec<
    Result<MicroPartition, DaftError>,
>)
    ensures
        outputs_view(r@) == emitted(results@),
{
    let ghost all = results@;
    let mut rest = results;
    let mut out: Vec<Result<MicroPartition, DaftError>> = Vec::new();
    let ghost mut taken: int = 0;
    assert(all.take(0) =~= Seq::<Result<IntermediateOperatorResult, DaftError>>::empty());
    assert(outputs_view(out@) =~= Seq::<Result<Seq<u64>, DaftError>>::empty());
    while rest.len() > 0
        invariant
            0 <= taken <= all.len(),
            all == results@,
            rest@ == all.skip(taken),
            outputs_view(out@) == emitted(all.take(taken)),
            forall|i: int| 0 <= i < taken ==> (#[trigger] all[i]) is Ok,
        decreases rest.len(),
    {
        let ghost prev = out@;
        let result = rest.remove(0);
        proof {
            assert(result == all[taken]);
            assert(all.take(taken + 1) =~= all.take(taken).push(result));
            assert forall|i: int| 0 <= i < all.take(taken).len() implies (#[trigger] all.take(
                taken,
            )[i]) is Ok by {}
            lemma_emitted_append(all.take(taken), result);
            assert(seq![result].skip(1) =~= Seq::<Result<IntermediateOperatorResult, DaftError>>::empty());
            assert(emitted(Seq::<Result<IntermediateOperatorResult, DaftError>>::empty()) =~= Seq::<Result<Seq<u64>, DaftError>>::empty());
        }
        match step(result) {
            WorkerStep::Forward(p) => {
                out.push(Ok(p));
                proof {
                    assert(outputs_view(out@) =~= outputs_view(prev) + outputs_view(seq![out@.last()]));
                }
            },
            WorkerStep::ForwardAndReinvoke(p) => {
                out.push(Ok(p));
                proof {
                    assert(outputs_view(out@) =~= outputs_view(prev) + outputs_view(seq![out@.last()]));
                }
            },
            WorkerStep::Idle => {
                proof {
                    assert(emitted(all.take(taken + 1)) =~= emitted(all.take(taken)));
                }
            },
            WorkerStep::Fail(e) => {
                out.push(Err(e));
                proof {
                    assert(outputs_view(out@) =~= outputs_view(prev) + outputs_view(seq![out@.last()]));
                    lemma_failure_ends_output(all, taken);
                    assert(outputs_view(seq![out@.last()]) =~= seq![Err(all[taken]->Err_0)]);
                    assert(outputs_view(out@) =~= emitted(all));
                }
                return out;
            },
        }
        proof {
            taken = taken + 1;
            assert(rest@ =~= all.skip(taken));
        }
    }
    assert(all.take(taken) =~= all);
    out
}

/// Once an operator call fails, the worker sends the outputs produced before,
/// then that one error, and nothing after it.
pub proof fn lemma_failure_ends_output(
    results: Seq<Result<IntermediateOperatorResult, DaftError>>,
    j: int,
)
    requires
        0 <= j < results.len(),
        results[j] is Err,
        forall|i: int| 0 <= i < j ==> (#[trigger] results[i]) is Ok,
    ensures
        emitted(results) == emitted(results.take(j)) + seq![Err(results[j]->Err_0)],
    decreases j,
{
    if j == 0 {
        assert(emitted(results.take(0)) =~= Seq::empty());
        assert(emitted(results) =~= seq![Err(results[0]->Err_0)]);
    } else {
        let tail = results.skip(1);
        assert forall|i: int| 0 <= i < j - 1 implies (#[trigger] tail[i]) is Ok by {
            assert(tail[i] == results[i + 1]);
        }
        lemma_failure_ends_output(tail, j - 1);
        assert(results.take(j).skip(1) =~= tail.take(j - 1));
        assert(results.take(j)[0] == results[0]);
        match results[0] {
            Ok(IntermediateOperatorResult::NeedMoreInput(None)) => {},
            Ok(_) => {
                assert(emitted(results) =~= emitted(results.take(j)) + seq![Err(results[j]->Err_0)]);
            },
            Err(_) => {},
        }
    }
}

/// The outcomes of an operator that hands every input back unchanged.
pub open spec fn identity_results(parts: Seq<MicroPartition>) -> Seq<
    Result<IntermediateOperatorResult, DaftError>,
> {
    parts.map_values(
        |p: MicroPartition| Ok(IntermediateOperatorResult::NeedMoreInput(Some(p))),
    )
}

/// A worker whose operator hands every input back unchanged sends exactly
/// its inputs downstream, in order.
pub proof fn lemma_identity_worker_forwards_inputs(parts: Seq<MicroPartition>)
    ensures
        emitted(identity_results(parts)) == parts.map_values(
            |p: MicroPartition| Ok::<Seq<u64>, DaftError>(p@),
        ),
    decreases parts.len(),
{
    if parts.len() > 0 {
        let rest = parts.skip(1);
        assert(identity_results(parts).skip(1) =~= identity_results(rest));
        lemma_identity_worker_forwards_inputs(rest);
        assert(emitted(identity_results(parts)) =~= parts.map_values(
            |p: MicroPartition| Ok::<Seq<u64>, DaftError>(p@),
        ));
    } else {
        assert(emitted(identity_results(parts)) =~= parts.map_values(
            |p: MicroPartition| Ok::<Seq<u64>, DaftError>(p@),
        ));
    }
}

} // verus!
