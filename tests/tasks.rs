use daft_local_execution::error::DaftError;
use daft_local_execution::limit::{LimitOp, PartitionMetadata, ResourceRequest};
use daft_local_execution::partition::MicroPartition;
use daft_local_execution::scheduler::{BulkPartitionTaskScheduler, SendToVec};

#[test]
fn limit_keeps_first_rows() {
    let op = LimitOp::new(2);
    let out = op.execute(vec![MicroPartition::new(vec![9, 8, 7])]).unwrap();
    assert_eq!(out, vec![MicroPartition::new(vec![9, 8])]);
    let short = op.execute(vec![MicroPartition::new(vec![1])]).unwrap();
    assert_eq!(short, vec![MicroPartition::new(vec![1])]);
    assert_eq!(op.name(), "LimitOp");
    assert_eq!(
        *op.resource_request(),
        ResourceRequest::new_internal(Some(1000), None, None)
    );
}

#[test]
fn limit_metadata_sets_row_count() {
    let op = LimitOp::new(5);
    let meta = op.partial_metadata_from_input_metadata(&[PartitionMetadata::new(Some(100), Some(64))]);
    assert_eq!(meta, PartitionMetadata::new(Some(5), Some(64)));
}

#[test]
fn send_to_vec_collects_by_lane() {
    let mut sink: SendToVec<u32> = SendToVec::new(Ok(vec![Vec::new(), Vec::new()]));
    assert_eq!(sink.send_output(Ok(vec![1, 2])), Ok(()));
    assert_eq!(sink.send_output(Ok(vec![3, 4, 5])), Ok(()));
    assert_eq!(sink.into_output(), Ok(vec![vec![1, 3], vec![2, 4]]));
}

#[test]
fn send_to_vec_keeps_first_error() {
    let mut sink: SendToVec<u32> = SendToVec::new(Ok(vec![Vec::new()]));
    let err = sink.send_output(Err(DaftError::ValueError("boom".to_string())));
    assert_eq!(
        err,
        Err(DaftError::InternalError("Receiver dropped before done sending".to_string()))
    );
    assert!(sink.send_output(Ok(vec![1])).is_err());
    assert_eq!(sink.into_output(), Err(DaftError::ValueError("boom".to_string())));
}

#[test]
fn bulk_scheduler_materializes_outputs() {
    let sched: BulkPartitionTaskScheduler<u32> = BulkPartitionTaskScheduler::new(2, vec![vec![1]], Some(8));
    assert_eq!(sched.num_outputs(), 2);
    assert_eq!(sched.max_output_queue_size(), Some(8));
    let out = sched.execute(vec![Ok(vec![1, 2]), Ok(vec![3, 4])]);
    assert_eq!(out, Ok(vec![vec![1, 3], vec![2, 4]]));
    let failing: BulkPartitionTaskScheduler<u32> = BulkPartitionTaskScheduler::new(1, Vec::new(), None);
    let out = failing.execute(vec![
        Ok(vec![1]),
        Err(DaftError::ComputeError("lost".to_string())),
        Ok(vec![2]),
    ]);
    assert_eq!(out, Err(DaftError::ComputeError("lost".to_string())));
}
