//! Execution core of a push-based columnar query engine: the decisions that
//! move batches of rows ("morsels") from input lanes through a pool of
//! operator workers and back into one output stream.
//!
//! - `partition`: row batches and the envelopes that carry them.
//! - `buffer`: per-lane batching of small morsels up to a target size.
//! - `channel`: the bounded queue behind every channel, with backpressure.
//! - `multi`: round-robin fan-out to workers and order-preserving fan-in.
//! - `dispatch`: the distribution stage that feeds a node's workers.
//! - `worker`: what a worker does with each outcome of its operator.
//! - `stats`: per-node row and time counters.
//! - `scan`: the description of a tabular scan plan node.
//! - `limit`, `scheduler`: a limit task and the bulk output collector of the
//!   partition-task scheduler.
pub mod buffer;
pub mod channel;
pub mod dispatch;
pub mod error;
pub mod limit;
pub mod multi;
pub mod partition;
pub mod scan;
pub mod scheduler;
pub mod stats;
pub mod worker;
