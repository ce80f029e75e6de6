use vstd::prelude::*;

verus! {

/// Errors surfaced by the execution core and by the operators it runs.
#[derive(Debug, Clone, PartialEq, Eq)]
pub enum DaftError {
    /// A broken invariant of the execution machinery itself.
    InternalError(String),
    /// An operator failed while computing on its input.
    ComputeError(String),
    /// An operator received values of a type it cannot handle.
    TypeError(String),
    /// An operator received a value it cannot handle.
    ValueError(String),
}

pub type DaftResult<T> = Result<T, DaftError>;

} // verus!
