use daft_local_execution::error::DaftError;
use daft_local_execution::partition::MicroPartition;
use daft_local_execution::stats::RuntimeStatsContext;
use daft_local_execution::worker::{step, worker_outputs, IntermediateOperatorResult, WorkerStep};

fn part(rows: &[u64]) -> MicroPartition {
    MicroPartition::new(rows.to_vec())
}

#[test]
fn buffered_inputs_then_one_output() {
    let results = vec![
        Ok(IntermediateOperatorResult::NeedMoreInput(None)),
        Ok(IntermediateOperatorResult::NeedMoreInput(None)),
        Ok(IntermediateOperatorResult::NeedMoreInput(Some(part(&[1, 2, 3])))),
    ];
    let out = worker_outputs(results);
    assert_eq!(out, vec![Ok(part(&[1, 2, 3]))]);
}

#[test]
fn failure_on_second_input_ends_the_output() {
    let results = vec![
        Ok(IntermediateOperatorResult::NeedMoreInput(Some(part(&[1])))),
        Err(DaftError::TypeError("bad input".to_string())),
        Ok(IntermediateOperatorResult::NeedMoreInput(Some(part(&[3])))),
    ];
    let out = worker_outputs(results);
    assert_eq!(
        out,
        vec![Ok(part(&[1])), Err(DaftError::TypeError("bad input".to_string()))]
    );
}

#[test]
fn has_more_output_forwards_and_reinvokes() {
    assert_eq!(
        step(Ok(IntermediateOperatorResult::HasMoreOutput(part(&[4])))),
        WorkerStep::ForwardAndReinvoke(part(&[4]))
    );
    assert_eq!(
        step(Ok(IntermediateOperatorResult::NeedMoreInput(None))),
        WorkerStep::Idle
    );
    let out = worker_outputs(vec![
        Ok(IntermediateOperatorResult::HasMoreOutput(part(&[1]))),
        Ok(IntermediateOperatorResult::NeedMoreInput(Some(part(&[2])))),
    ]);
    assert_eq!(out, vec![Ok(part(&[1])), Ok(part(&[2]))]);
}

#[test]
fn stats_count_rows_and_saturate() {
    let mut stats = RuntimeStatsContext::new();
    stats.count_received(&part(&[1, 2, 3]).into());
    stats.count_sent(&part(&[1]).into());
    stats.add_cpu_us(15);
    assert_eq!(stats.rows_received, 3);
    assert_eq!(stats.rows_emitted, 1);
    assert_eq!(stats.cpu_us, 15);
    stats.mark_rows_emitted(u64::MAX);
    assert_eq!(stats.rows_emitted, u64::MAX);
}
