use vstd::prelude::*;

use crate::batch::Batch;
use crate::error::Result;

verus! {

/// The outcome of pushing a batch into an operator.
#[derive(Debug, Clone, Copy, PartialEq, Eq, Structural)]
pub enum PollPush {
    Pushed,
    Pending,
    /// The operator wants no more input.
    Break,
}

/// The outcome of declaring the end of input.
#[derive(Debug, Clone, Copy, PartialEq, Eq, Structural)]
pub enum PollFinalize {
    Finalized,
    Pending,
}

/// The outcome of pulling from a table in/out function: a batch with, for
/// each output row, the input row that produced it.
#[derive(Debug)]
pub enum InOutPollPull {
    Batch { batch: Batch, row_nums: Vec<usize> },
    Pending,
    Exhausted,
}

/// The state of one partition of a table in/out function. Waking a partition
/// that answered `Pending` is arranged by the caller.
pub trait TableInOutPartitionState {
    fn poll_push(&mut self, inputs: Batch) -> Result<PollPush>;

    fn poll_finalize_push(&mut self) -> Result<PollFinalize>;

    fn poll_pull(&mut self) -> Result<InOutPollPull>;
}

/// A table function that maps input rows to output rows.
pub trait TableInOutFunction {
    type State: TableInOutPartitionState;

    /// One state per partition.
    fn create_states(&self, num_partitions: usize) -> Result<Vec<Self::State>>;
}

} // verus!
