use daft_local_execution::buffer::OperatorBuffer;
use daft_local_execution::partition::MicroPartition;

fn part(rows: &[u64]) -> MicroPartition {
    MicroPartition::new(rows.to_vec())
}

#[test]
fn buffer_two_three_one_rows_target_four() {
    let mut buffer = OperatorBuffer::new(4);
    buffer.push(part(&[1, 2]));
    assert_eq!(buffer.try_clear(), None);
    buffer.push(part(&[3, 4, 5]));
    let first = buffer.try_clear().expect("four rows are buffered");
    assert_eq!(first.rows, vec![1, 2, 3, 4]);
    assert_eq!(buffer.curr_len(), 1);
    buffer.push(part(&[6]));
    assert_eq!(buffer.try_clear(), None);
    assert_eq!(buffer.curr_len(), 2);
    let last = buffer.clear_all().expect("two rows remain");
    assert_eq!(last.rows, vec![5, 6]);
    assert_eq!(first.len() + last.len(), 6);
    assert_eq!(buffer.clear_all(), None);
}

#[test]
fn buffer_emits_exact_batches_and_keeps_every_row() {
    let mut buffer = OperatorBuffer::new(3);
    let mut emitted: Vec<u64> = Vec::new();
    let mut pushed: Vec<u64> = Vec::new();
    let mut next: u64 = 0;
    for size in [1usize, 5, 0, 2, 7, 1] {
        let rows: Vec<u64> = (0..size).map(|i| next + i as u64).collect();
        next += size as u64;
        pushed.extend(rows.iter().copied());
        buffer.push(MicroPartition::new(rows));
        if let Some(batch) = buffer.try_clear() {
            assert_eq!(batch.len(), 3);
            emitted.extend(batch.rows);
        }
    }
    while let Some(batch) = buffer.try_clear() {
        assert_eq!(batch.len(), 3);
        emitted.extend(batch.rows);
    }
    if let Some(batch) = buffer.clear_all() {
        assert!(batch.len() < 3 && !batch.is_empty());
        emitted.extend(batch.rows);
    }
    assert_eq!(emitted, pushed);
}

#[test]
fn buffer_exact_threshold_leaves_nothing() {
    let mut buffer = OperatorBuffer::new(2);
    buffer.push(part(&[7, 8]));
    assert_eq!(buffer.try_clear(), Some(part(&[7, 8])));
    assert_eq!(buffer.curr_len(), 0);
    assert_eq!(buffer.clear_all(), None);
    assert_eq!(buffer.threshold(), 2);
}
