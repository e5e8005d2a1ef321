//! Flow configuration: tasks, their steps, the edges between steps and the
//! retry policy of each step.
use vstd::prelude::*;

verus! {

/// How often a step may be retried, and how long to wait before each retry.
pub struct RetryPolicy {
    attempts: u32,
    interval: u64,
    strategy: Option<String>,
}

/// The abstract value of a [`RetryPolicy`].
pub struct RetryView {
    pub attempts: u32,
    pub interval: u64,
    pub strategy: Option<Seq<char>>,
}

impl View for RetryPolicy {
    type V = RetryView;

    closed spec fn view(&self) -> RetryView {
        RetryView {
            attempts: self.attempts,
            interval: self.interval,
            strategy: self.strategy.deep_view(),
        }
    }
}

impl RetryPolicy {
    /// A policy of `attempts` retries, `interval` seconds apart; a
    /// `strategy` of `exp_backoff` doubles the wait after each retry.
    pub fn new(attempts: u32, interval: u64, strategy: Option<String>) -> (res: RetryPolicy)
        ensures
            res@ == (RetryView { attempts, interval, strategy: strategy.deep_view() }),
    {
        RetryPolicy { attempts, interval, strategy }
    }

    /// The largest number of retries of a step.
    pub fn attempts(&self) -> (res: u32)
        ensures
            res == self@.attempts,
    {
        self.attempts
    }

    /// Seconds to wait before a retry.
    pub fn interval(&self) -> (res: u64)
        ensures
            res == self@.interval,
    {
        self.interval
    }

    /// The name of the waiting strategy, if any.
    pub fn strategy(&self) -> (res: &Option<String>)
        ensures
            res.deep_view() == self@.strategy,
    {
        &self.strategy
    }
}

/// One step of a task: the steps that may follow it, in order, and its
/// retry policy.
pub struct StepConfig {
    pub edges: Vec<String>,
    retry: Option<RetryPolicy>,
}

/// The abstract value of a [`StepConfig`].
pub struct StepView {
    pub edges: Seq<Seq<char>>,
    pub retry: Option<RetryView>,
}

impl View for StepConfig {
    type V = StepView;

    closed spec fn view(&self) -> StepView {
        StepView { edges: self.edges.deep_view(), retry: retry_view(self.retry) }
    }
}

/// The abstract value of an optional retry policy.
pub open spec fn retry_view(retry: Option<RetryPolicy>) -> Option<RetryView> {
    match retry {
        Some(r) => Some(r@),
        None => None,
    }
}

impl StepConfig {
    /// A step with the given edges and retry policy.
    pub fn new(edges: Vec<String>, retry: Option<RetryPolicy>) -> (res: StepConfig)
        ensures
            res@ == (StepView { edges: edges.deep_view(), retry: retry_view(retry) }),
    {
        StepConfig { edges, retry }
    }

    /// The steps that may follow this one, in order.
    pub fn edges(&self) -> (res: &Vec<String>)
        ensures
            res.deep_view() == self@.edges,
    {
        &self.edges
    }

    /// The retry policy of the step, if it has one.
    pub fn retry(&self) -> (res: &Option<RetryPolicy>)
        ensures
            retry_view(*res) == self@.retry,
    {
        &self.retry
    }
}

/// Keys of a list of named entries.
pub open spec fn key_seq<T>(entries: Seq<(String, T)>) -> Seq<Seq<char>> {
    Seq::new(entries.len(), |i: int| entries[i].0@)
}

/// `i` is the first position of `name` in `keys`.
pub open spec fn is_first(keys: Seq<Seq<char>>, name: Seq<char>, i: int) -> bool {
    &&& 0 <= i < keys.len()
    &&& keys[i] == name
    &&& forall|j: int| 0 <= j < i ==> keys[j] != name
}

/// The first position of `name` in `keys`, if it occurs.
pub open spec fn index_of(keys: Seq<Seq<char>>, name: Seq<char>) -> Option<int> {
    if exists|i: int| is_first(keys, name, i) {
        Some(choose|i: int| is_first(keys, name, i))
    } else {
        None
    }
}

/// The value of the first entry named `name`; a later entry with the same
/// name is shadowed.
pub open spec fn lookup<V>(entries: Seq<(Seq<char>, V)>, name: Seq<char>) -> Option<V> {
    match index_of(Seq::new(entries.len(), |i: int| entries[i].0), name) {
        Some(i) => Some(entries[i].1),
        None => None,
    }
}

proof fn lemma_index_of_first(keys: Seq<Seq<char>>, name: Seq<char>, i: int)
    requires
        is_first(keys, name, i),
    ensures
        index_of(keys, name) == Some(i),
{
    let k = choose|k: int| is_first(keys, name, k);
    assert(is_first(keys, name, k));
    if k < i {
        assert(keys[k] != name);
    } else if i < k {
        assert(keys[i] != name);
    }
}

proof fn lemma_index_of_absent(keys: Seq<Seq<char>>, name: Seq<char>)
    requires
        forall|j: int| 0 <= j < keys.len() ==> keys[j] != name,
    ensures
        index_of(keys, name) is None,
{
}

/// The position of the first entry named `name`.
fn find_key<T>(entries: &Vec<(String, T)>, name: &String) -> (res: Option<usize>)
    ensures
        match res {
            Some(i) => is_first(key_seq(entries@), name@, i as int),
            None => forall|j: int| 0 <= j < entries@.len() ==> key_seq(entries@)[j] != name@,
        },
        index_of(key_seq(entries@), name@) == match res {
            Some(i) => Some(i as int),
            None => None::<int>,
        },
{
    let ghost keys = key_seq(entries@);
    let mut i: usize = 0;
    while i < entries.len()
        invariant
            i <= entries@.len(),
            keys == key_seq(entries@),
            forall|j: int| 0 <= j < i ==> keys[j] != name@,
        decreases entries@.len() - i,
    {
        if entries[i].0 == *name {
            proof {
                lemma_index_of_first(keys, name@, i as int);
            }
            return Some(i);
        }
        i = i + 1;
    }
    proof {
        lemma_index_of_absent(keys, name@);
    }
    None
}

/// A task: its steps, each under its name, and the step it starts with.
pub struct TaskConfig {
    pub config: Vec<(String, StepConfig)>,
    pub init_step: String,
}

/// The abstract value of a [`TaskConfig`].
pub struct TaskView {
    pub steps: Seq<(Seq<char>, StepView)>,
    pub init_step: Seq<char>,
}

impl View for TaskConfig {
    type V = TaskView;

    open spec fn view(&self) -> TaskView {
        TaskView {
            steps: Seq::new(self.config@.len(), |i: int| (self.config@[i].0@, self.config@[i].1@)),
            init_step: self.init_step@,
        }
    }
}

impl TaskView {
    /// The configuration of the step named `name`.
    pub open spec fn step(self, name: Seq<char>) -> Option<StepView> {
        lookup(self.steps, name)
    }
}

impl TaskConfig {
    /// The configuration of the step named `name`, if the task has one.
    pub fn step(&self, name: &String) -> (res: Option<&StepConfig>)
        ensures
            match res {
                Some(s) => self@.step(name@) == Some(s@),
                None => self@.step(name@) is None,
            },
    {
        let found = find_key(&self.config, name);
        proof {
            assert(Seq::new(self@.steps.len(), |i: int| self@.steps[i].0) =~= key_seq(
                self.config@,
            ));
        }
        match found {
            Some(i) => Some(&self.config[i].1),
            None => None,
        }
    }
}

/// All tasks of a flow, each under its name.
pub struct FlowConfig {
    tasks: Vec<(String, TaskConfig)>,
}

impl View for FlowConfig {
    type V = Seq<(Seq<char>, TaskView)>;

    closed spec fn view(&self) -> Seq<(Seq<char>, TaskView)> {
        Seq::new(self.tasks@.len(), |i: int| (self.tasks@[i].0@, self.tasks@[i].1@))
    }
}

impl FlowConfig {
    /// A flow made of the given named tasks.
    pub fn new(tasks: Vec<(String, TaskConfig)>) -> (res: FlowConfig)
        ensures
            res@ == Seq::new(tasks@.len(), |i: int| (tasks@[i].0@, tasks@[i].1@)),
    {
        FlowConfig { tasks }
    }

    /// The task named `name`, if the flow has one.
    pub fn task(&self, name: &str) -> (res: Option<&TaskConfig>)
        ensures
            match res {
                Some(t) => lookup(self@, name@) == Some(t@),
                None => lookup(self@, name@) is None,
            },
    {
        let key = String::from_str(name);
        let found = find_key(&self.tasks, &key);
        proof {
            assert(Seq::new(self@.len(), |i: int| self@[i].0) =~= key_seq(self.tasks@));
        }
        match found {
            Some(i) => Some(&self.tasks[i].1),
            None => None,
        }
    }

    /// The number of tasks.
    pub fn len(&self) -> (res: usize)
        ensures
            res == self@.len(),
    {
        self.tasks.len()
    }
}

} // verus!
