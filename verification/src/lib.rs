//! Decision core of a small asynchronous flow engine.
//!
//! A flow is a directed graph of named steps. Each step reports a [`Code`];
//! the engine follows the step's edges, retries it under its retry policy,
//! or ends the run. The library holds the flow configuration, the per-run
//! metadata and the transition function; a runtime drives the steps.
use vstd::prelude::*;

pub mod about;
pub mod config;
pub mod flow;
pub mod laws;
pub mod state;
pub mod text;

pub use about::version;
pub use config::{FlowConfig, RetryPolicy, StepConfig, TaskConfig};
pub use flow::{Decision, Finish, FlowRun};
pub use state::{Code, Meta, State};

verus! {

/// Sum of two numbers.
pub fn add(left: usize, right: usize) -> (res: usize)
    requires
        left + right <= usize::MAX,
    ensures
        res == left + right,
{
    left + right
}

/// Difference of two numbers.
pub fn sub(left: usize, right: usize) -> (res: usize)
    requires
        right <= left,
    ensures
        res == left - right,
{
    left - right
}

} // verus!
