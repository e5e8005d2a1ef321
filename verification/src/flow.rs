//! The transitions of a run: which step comes next, when a step is retried
//! and after how long, and when the run ends.
//!
//! A runtime drives a run in a loop: [`FlowRun::begin_step`] names the step
//! to run, the runtime runs it, and [`FlowRun::decide`] turns what the step
//! reported into the next [`Decision`].
use vstd::prelude::*;
use vstd::arithmetic::power2::pow2;
use vstd::string::*;
use crate::config::{StepView, TaskConfig, TaskView};
use crate::state::{Code, MetaView, State};

verus! {

/// Retries of a step without a retry policy.
pub const DEFAULT_RETRY_ATTEMPTS: u32 = 3;

/// Seconds between retries of a step without a retry policy.
pub const DEFAULT_RETRY_INTERVAL: u64 = 2;

/// Why a run ended.
#[derive(PartialEq, Eq, Structural, Clone, Copy, Debug)]
pub enum Finish {
    /// The step that ended had no edge for what it reported.
    EndOfFlow,
    /// The step cancelled the run.
    Cancelled,
    /// The step returned an error.
    StepFailed,
    /// The step asked for a retry after it had used up its retries.
    RetriesExhausted,
}

/// What the runtime does after a step.
#[derive(Debug)]
pub enum Decision {
    /// Run the named step next.
    Next(String),
    /// Wait this many seconds, then run the same step again.
    RetryAfter(u64),
    /// End the run.
    Finish(Finish),
}

/// The abstract value of a [`Decision`].
pub enum DecisionView {
    Next(Seq<char>),
    RetryAfter(u64),
    Finish(Finish),
}

impl View for Decision {
    type V = DecisionView;

    open spec fn view(&self) -> DecisionView {
        match self {
            Decision::Next(s) => DecisionView::Next(s@),
            Decision::RetryAfter(d) => DecisionView::RetryAfter(*d),
            Decision::Finish(f) => DecisionView::Finish(*f),
        }
    }
}

/// Where a run stands: the step it is at, and whether that step is being
/// retried.
pub struct FlowRun {
    current: String,
    retrying: bool,
}

/// The abstract value of a [`FlowRun`].
pub struct RunView {
    pub current: Seq<char>,
    pub retrying: bool,
}

impl View for FlowRun {
    type V = RunView;

    closed spec fn view(&self) -> RunView {
        RunView { current: self.current@, retrying: self.retrying }
    }
}

/// The retries a step allows.
pub open spec fn attempts_of(step: StepView) -> u32 {
    match step.retry {
        Some(r) => r.attempts,
        None => DEFAULT_RETRY_ATTEMPTS,
    }
}

/// The base wait, in seconds, before a retry of a step.
pub open spec fn interval_of(step: StepView) -> u64 {
    match step.retry {
        Some(r) => r.interval,
        None => DEFAULT_RETRY_INTERVAL,
    }
}

/// The step's retries wait twice as long each time.
pub open spec fn backs_off(step: StepView) -> bool {
    match step.retry {
        Some(r) => r.strategy == Some("exp_backoff"@),
        None => false,
    }
}

/// Seconds to wait before the retry of `step` that follows `retried`
/// earlier retries.
pub open spec fn retry_delay(step: StepView, retried: u32) -> int {
    if backs_off(step) {
        interval_of(step) * pow2(retried as nat)
    } else {
        interval_of(step) as int
    }
}

/// The retries a step allows, for any name: the default where the task has
/// no such step.
pub open spec fn attempts_for(task: TaskView, name: Seq<char>) -> u32 {
    match task.step(name) {
        Some(s) => attempts_of(s),
        None => DEFAULT_RETRY_ATTEMPTS,
    }
}

/// The run and the metadata once the current step starts: a step that is
/// not being retried is added to the path.
pub open spec fn begin_spec(run: RunView, meta: MetaView) -> (RunView, MetaView) {
    (
        RunView { current: run.current, retrying: false },
        if run.retrying {
            meta
        } else {
            MetaView { path: meta.path.push((run.current, 0u32)), ..meta }
        },
    )
}

/// The decision is defined: where the step must be looked up, the task has
/// it; a retry has a path entry to count on, and its wait fits in 64 bits.
pub open spec fn decidable(
    task: TaskView,
    run: RunView,
    meta: MetaView,
    outcome: Result<Code, String>,
) -> bool {
    match outcome {
        Ok(Code::Success) => task.step(run.current) is Some,
        Ok(Code::Failure(_, _)) => task.step(run.current) is Some,
        Ok(Code::Retry(_)) => {
            &&& task.step(run.current) is Some
            &&& meta.path.len() > 0
            &&& {
                let step = task.step(run.current)->0;
                let retried = meta.path.last().1;
                (retried < attempts_of(step) && backs_off(step)) ==> (retried < 64 && retry_delay(
                    step,
                    retried,
                ) <= u64::MAX)
            }
        },
        _ => true,
    }
}

/// Going on along edge `k` of the current step, or ending the run where
/// there is no such edge.
pub open spec fn follow_spec(task: TaskView, run: RunView, k: int) -> (RunView, DecisionView) {
    let edges = task.step(run.current)->0.edges;
    if 0 <= k < edges.len() {
        (RunView { current: edges[k], ..run }, DecisionView::Next(edges[k]))
    } else {
        (run, DecisionView::Finish(Finish::EndOfFlow))
    }
}

/// The run, the metadata and the decision after the current step reported
/// `outcome` (an `Err` is an error of the step).
pub open spec fn decide_spec(
    task: TaskView,
    run: RunView,
    meta: MetaView,
    outcome: Result<Code, String>,
) -> (RunView, MetaView, DecisionView) {
    match outcome {
        Err(_) => (run, meta, DecisionView::Finish(Finish::StepFailed)),
        Ok(Code::Cancel(_)) => (run, meta, DecisionView::Finish(Finish::Cancelled)),
        Ok(Code::Success) => {
            let (r, d) = follow_spec(task, run, 0);
            (r, meta, d)
        },
        Ok(Code::Failure(k, _)) => {
            let (r, d) = follow_spec(task, run, k as int);
            (r, meta, d)
        },
        Ok(Code::Retry(_)) => {
            let step = task.step(run.current)->0;
            let retried = meta.path.last().1;
            if retried >= attempts_of(step) {
                (run, meta, DecisionView::Finish(Finish::RetriesExhausted))
            } else {
                (
                    RunView { retrying: true, ..run },
                    MetaView {
                        path: meta.path.update(
                            meta.path.len() - 1,
                            (meta.path.last().0, (retried + 1) as u32),
                        ),
                        ..meta
                    },
                    DecisionView::RetryAfter(retry_delay(step, retried) as u64),
                )
            }
        },
    }
}

/// Whether the step's retry policy names the `exp_backoff` strategy.
fn backs_off_exec(step: &crate::config::StepConfig) -> (res: bool)
    ensures
        res == backs_off(step@),
{
    match step.retry() {
        Some(r) => match r.strategy() {
            Some(s) => {
                let exp = String::from_str("exp_backoff");
                *s == exp
            },
            None => false,
        },
        None => false,
    }
}

/// The retries the step allows and its base wait.
fn settings_exec(step: &crate::config::StepConfig) -> (res: (u32, u64))
    ensures
        res.0 == attempts_of(step@),
        res.1 == interval_of(step@),
{
    match step.retry() {
        Some(r) => (r.attempts(), r.interval()),
        None => (DEFAULT_RETRY_ATTEMPTS, DEFAULT_RETRY_INTERVAL),
    }
}

impl FlowRun {
    /// Starts run `id` of task `task_name` at the task's first step; the
    /// state is marked with the run's id and task.
    pub fn start(task: &TaskConfig, task_name: &str, id: u64, state: &mut State) -> (res: FlowRun)
        ensures
            res@ == (RunView { current: task@.init_step, retrying: false }),
            final(state).meta_view() == (MetaView {
                id,
                task: task_name@,
                path: old(state).meta_view().path,
            }),
            final(state).stored_data() == old(state).stored_data(),
    {
        state.begin_run(id, task_name);
        FlowRun { current: task.init_step.clone(), retrying: false }
    }

    /// The step the run is at.
    pub fn current_step(&self) -> (res: &String)
        ensures
            res@ == self@.current,
    {
        &self.current
    }

    /// Whether the step the run is at is being retried.
    pub fn is_retrying(&self) -> (res: bool)
        ensures
            res == self@.retrying,
    {
        self.retrying
    }

    /// Starts the current step and returns its name: unless it is being
    /// retried, it is added to the path.
    pub fn begin_step(&mut self, state: &mut State) -> (res: String)
        ensures
            res@ == old(self)@.current,
            (final(self)@, final(state).meta_view()) == begin_spec(
                old(self)@,
                old(state).meta_view(),
            ),
            final(state).stored_data() == old(state).stored_data(),
    {
        if !self.retrying {
            state.record_step(&self.current);
        }
        self.retrying = false;
        self.current.clone()
    }

    /// Whether [`FlowRun::decide`] is defined on `outcome`.
    pub fn can_decide(&self, task: &TaskConfig, state: &State, outcome: &Result<Code, String>) -> (res:
        bool)
        ensures
            res == decidable(task@, self@, state.meta_view(), *outcome),
    {
        match outcome {
            Ok(Code::Success) | Ok(Code::Failure(_, _)) => task.step(&self.current).is_some(),
            Ok(Code::Retry(_)) => {
                let found = task.step(&self.current);
                match found {
                    None => false,
                    Some(step) => {
                        if state.meta().path.len() == 0 {
                            return false;
                        }
                        let retried = state.last_retries();
                        let (attempts, interval) = settings_exec(step);
                        if retried < attempts && backs_off_exec(step) {
                            if retried >= 64 {
                                return false;
                            }
                            proof {
                                vstd::bits::lemma_u64_pow2_no_overflow(retried as nat);
                                vstd::bits::lemma_u64_shl_is_mul(1, retried as u64);
                            }
                            let factor: u64 = 1u64 << (retried as u64);
                            interval.checked_mul(factor).is_some()
                        } else {
                            true
                        }
                    },
                }
            },
            _ => true,
        }
    }

    /// Goes on along edge `k` of the current step.
    fn follow(&mut self, task: &TaskConfig, k: usize) -> (res: Decision)
        requires
            task@.step(old(self)@.current) is Some,
        ensures
            (final(self)@, res@) == follow_spec(task@, old(self)@, k as int),
    {
        let step = task.step(&self.current).unwrap();
        let edges = step.edges();
        if k < edges.len() {
            let next = edges[k].clone();
            self.current = next.clone();
            Decision::Next(next)
        } else {
            Decision::Finish(Finish::EndOfFlow)
        }
    }

    /// Decides what follows the current step, which reported `outcome`.
    pub fn decide(&mut self, task: &TaskConfig, state: &mut State, outcome: Result<Code, String>) -> (res:
        Decision)
        requires
            decidable(task@, old(self)@, old(state).meta_view(), outcome),
        ensures
            (final(self)@, final(state).meta_view(), res@) == decide_spec(
                task@,
                old(self)@,
                old(state).meta_view(),
                outcome,
            ),
            final(state).stored_data() == old(state).stored_data(),
    {
        match outcome {
            Err(_) => Decision::Finish(Finish::StepFailed),
            Ok(Code::Cancel(_)) => Decision::Finish(Finish::Cancelled),
            Ok(Code::Success) => self.follow(task, 0),
            Ok(Code::Failure(k, _)) => self.follow(task, k),
            Ok(Code::Retry(_)) => {
                let step = task.step(&self.current).unwrap();
                let retried = state.last_retries();
                let (attempts, interval) = settings_exec(step);
                if retried >= attempts {
                    return Decision::Finish(Finish::RetriesExhausted);
                }
                state.set_last_retries(retried + 1);
                let delay = if backs_off_exec(step) {
                    proof {
                        vstd::bits::lemma_u64_pow2_no_overflow(retried as nat);
                        vstd::bits::lemma_u64_shl_is_mul(1, retried as u64);
                    }
                    let factor: u64 = 1u64 << (retried as u64);
                    interval * factor
                } else {
                    interval
                };
                self.retrying = true;
                Decision::RetryAfter(delay)
            },
        }
    }
}

} // verus!
