use daft_local_execution::dispatch::{Dispatcher, WorkerMessage};
use daft_local_execution::multi::RoundRobinReceiver;
use daft_local_execution::partition::{MicroPartition, PipelineResultType};
use daft_local_execution::worker::{worker_outputs, IntermediateOperatorResult};

fn data(rows: &[u64]) -> PipelineResultType {
    PipelineResultType::Data(MicroPartition::new(rows.to_vec()))
}

fn rows_of(msgs: &[WorkerMessage]) -> Vec<u64> {
    let mut out = Vec::new();
    for m in msgs {
        if let PipelineResultType::Data(p) = &m.envelope {
            out.extend(p.rows.iter().copied());
        }
    }
    out
}

#[test]
fn broadcast_reaches_every_worker_once() {
    let mut d = Dispatcher::new(4, 2);
    d.on_morsel(0, data(&[1]));
    let probe = PipelineResultType::ProbeTable(
        MicroPartition::new(vec![10, 11]),
        vec![MicroPartition::new(vec![1, 2, 3])],
    );
    let sent = d.on_morsel(1, probe);
    assert_eq!(sent.len(), 4);
    for (i, m) in sent.iter().enumerate() {
        assert_eq!(m.worker, i);
        assert_eq!(m.lane, 1);
        assert!(m.envelope.should_broadcast());
        assert_eq!(m.envelope.num_rows(), 3);
    }
    // the broadcast bypassed the buffer
    assert_eq!(d.num_pending(), 1);
}

#[test]
fn data_is_batched_and_handed_out_in_turn() {
    let mut d = Dispatcher::new(3, 2);
    let mut all = Vec::new();
    all.extend(d.on_morsel(0, data(&[1])));
    assert!(all.is_empty());
    all.extend(d.on_morsel(0, data(&[2, 3, 4, 5, 6])));
    assert_eq!(all.len(), 1);
    all.extend(d.on_morsel(0, data(&[7])));
    assert_eq!(all.len(), 2);
    assert_eq!(d.num_pending(), 3);
    let tail = d.on_lane_end(0);
    assert_eq!(tail.len(), 2);
    assert_eq!(tail[0].envelope, data(&[5, 6]));
    assert_eq!(tail[1].envelope, data(&[7]));
    all.extend(tail);
    assert_eq!(d.num_pending(), 0);
    let workers: Vec<usize> = all.iter().map(|m| m.worker).collect();
    assert_eq!(workers, vec![0, 1, 2, 0]);
    assert_eq!(rows_of(&all), vec![1, 2, 3, 4, 5, 6, 7]);
}

#[test]
fn lanes_are_flushed_separately() {
    let mut d = Dispatcher::new(2, 4);
    let mut all = Vec::new();
    all.extend(d.on_morsel(0, data(&[1, 2])));
    all.extend(d.on_lane_end(0));
    all.extend(d.on_morsel(1, data(&[3])));
    all.extend(d.on_lane_end(1));
    assert_eq!(all.len(), 2);
    assert_eq!((all[0].lane, all[0].worker), (0, 0));
    assert_eq!((all[1].lane, all[1].worker), (1, 1));
    assert_eq!(rows_of(&all), vec![1, 2, 3]);
}

#[test]
fn identity_node_keeps_rows_in_order() {
    let n = 3;
    let mut d = Dispatcher::new(n, 2);
    let mut sent = Vec::new();
    let inputs: Vec<Vec<u64>> = vec![vec![1], vec![2, 3, 4], vec![5], vec![], vec![6, 7, 8, 9]];
    for rows in &inputs {
        sent.extend(d.on_morsel(0, data(rows)));
    }
    sent.extend(d.on_lane_end(0));
    // each worker applies an identity operator to what it received
    let mut per_worker: Vec<Vec<MicroPartition>> = Vec::new();
    for w in 0..n {
        let results = sent
            .iter()
            .filter(|m| m.worker == w)
            .map(|m| match &m.envelope {
                PipelineResultType::Data(p) => Ok(IntermediateOperatorResult::NeedMoreInput(Some(p.duplicate()))),
                PipelineResultType::ProbeTable(t, _) => Ok(IntermediateOperatorResult::NeedMoreInput(Some(t.duplicate()))),
            })
            .collect();
        per_worker.push(worker_outputs(results).into_iter().map(|r| r.unwrap()).collect());
    }
    // order-preserving fan-in
    let mut rx = RoundRobinReceiver::new(n);
    let mut pos = vec![0usize; n];
    let mut out_rows = Vec::new();
    'outer: loop {
        for attempt in 0..n {
            let lane = rx.lane_to_poll(attempt);
            if pos[lane] < per_worker[lane].len() {
                out_rows.extend(per_worker[lane][pos[lane]].rows.iter().copied());
                pos[lane] += 1;
                rx.on_value(lane);
                continue 'outer;
            }
        }
        break;
    }
    let in_rows: Vec<u64> = inputs.concat();
    assert_eq!(out_rows, in_rows);
}

#[test]
fn any_arrival_order_keeps_row_multiset() {
    let mut d = Dispatcher::new(2, 3);
    let mut sent = Vec::new();
    for rows in [vec![5u64, 1], vec![4, 4, 2, 9], vec![7]] {
        sent.extend(d.on_morsel(0, data(&rows)));
    }
    sent.extend(d.on_lane_end(0));
    sent.reverse();
    let mut out = rows_of(&sent);
    out.sort();
    assert_eq!(out, vec![1, 2, 4, 4, 5, 7, 9]);
}
