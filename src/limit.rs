use vstd::prelude::*;

use crate::error::DaftResult;
use crate::partition::MicroPartition;

verus! {

/// Resources a partition task asks for. CPU and GPU shares are counted in
/// thousandths of a device.
#[derive(Debug, PartialEq, Eq, Clone, Copy)]
pub struct ResourceRequest {
    pub num_cpus_milli: Option<u64>,
    pub num_gpus_milli: Option<u64>,
    pub memory_bytes: Option<usize>,
}

impl ResourceRequest {
    pub fn new_internal(
        num_cpus_milli: Option<u64>,
        num_gpus_milli: Option<u64>,
        memory_bytes: Option<usize>,
    ) -> (r: ResourceRequest)
        ensures
            r.num_cpus_milli == num_cpus_milli,
            r.num_gpus_milli == num_gpus_milli,
            r.memory_bytes == memory_bytes,
    {
        ResourceRequest { num_cpus_milli, num_gpus_milli, memory_bytes }
    }
}

/// What is known of a partition before it is computed.
#[derive(Debug, PartialEq, Eq, Clone, Copy)]
pub struct PartitionMetadata {
    pub num_rows: Option<usize>,
    pub size_bytes: Option<usize>,
}

impl PartitionMetadata {
    pub fn new(num_rows: Option<usize>, size_bytes: Option<usize>) -> (r: PartitionMetadata)
        ensures
            r.num_rows == num_rows,
            r.size_bytes == size_bytes,
    {
        PartitionMetadata { num_rows, size_bytes }
    }

    pub fn with_num_rows(&self, num_rows: Option<usize>) -> (r: PartitionMetadata)
        ensures
            r.num_rows == num_rows,
            r.size_bytes == self.size_bytes,
    {
        PartitionMetadata { num_rows, size_bytes: self.size_bytes }
    }
}

/// A partition task that keeps the first `limit` rows of its single input.
#[derive(Debug, PartialEq, Eq)]
pub struct LimitOp {
    limit: usize,
    resource_request: ResourceRequest,
}

impl LimitOp {
    pub closed spec fn limit_spec(&self) -> nat {
        self.limit as nat
    }

    pub closed spec fn resource_request_spec(&self) -> ResourceRequest {
        self.resource_request
    }

    /// A limit task asks for one CPU.
    pub fn new(limit: usize) -> (r: LimitOp)
        ensures
            r.limit_spec() == limit,
            r.resource_request_spec() == (ResourceRequest {
                num_cpus_milli: Some(1000),
                num_gpus_milli: None,
                memory_bytes: None,
            }),
    {
        LimitOp { limit, resource_request: ResourceRequest::new_internal(Some(1000), None, None) }
    }

    pub fn limit(&self) -> (r: usize)
        ensures
            r == self.limit_spec(),
    {
        self.limit
    }

    /// The first `limit` rows of the one input, as one output partition.
    pub fn execute(&self, inputs: Vec<MicroPartition>) -> (r: DaftResult<Vec<MicroPartition>>)
        requires
            inputs@.len() == 1,
        ensures
            r is Ok,
            r->Ok_0@.len() == 1,
            r->Ok_0@[0]@ == inputs@[0]@.take(
                if self.limit_spec() < inputs@[0]@.len() {
                    self.limit_spec() as int
                } else {
                    inputs@[0]@.len() as int
                },
            ),
    {
        let out = inputs[0].head(self.limit);
        let mut outputs: Vec<MicroPartition> = Vec::new();
        outputs.push(out);
        Ok(outputs)
    }

    pub fn resource_request(&self) -> (r: &ResourceRequest)
        ensures
            *r == self.resource_request_spec(),
    {
        &self.resource_request
    }

    /// The output has at most `limit` rows; the rest of the input's metadata carries over.
    pub fn partial_metadata_from_input_metadata(&self, input_meta: &[PartitionMetadata]) -> (r:
        PartitionMetadata)
        requires
            input_meta@.len() == 1,
        ensures
            r.num_rows == Some(self.limit_spec() as usize),
            r.size_bytes == input_meta@[0].size_bytes,
    {
        input_meta[0].with_num_rows(Some(self.limit))
    }

    pub fn name(&self) -> (r: &'static str)
        ensures
            r@ == "LimitOp"@,
    {
        "LimitOp"
    }
}

} // verus!
