use std::collections::HashMap;

use freactor::flow::DEFAULT_RETRY_ATTEMPTS;
use freactor::{Code, Decision, Finish, FlowConfig, FlowRun, Meta, RetryPolicy, State, StepConfig, TaskConfig};

type Policy<'a> = Option<(u32, u64, Option<&'a str>)>;

fn step(edges: &[&str], retry: Policy) -> StepConfig {
    StepConfig::new(
        edges.iter().map(|e| e.to_string()).collect(),
        retry.map(|(a, i, s)| RetryPolicy::new(a, i, s.map(|s| s.to_string()))),
    )
}

fn task(init: &str, steps: Vec<(&str, StepConfig)>) -> TaskConfig {
    TaskConfig {
        config: steps.into_iter().map(|(n, s)| (n.to_string(), s)).collect(),
        init_step: init.to_string(),
    }
}

/// The flow of the examples: r1 -> (r2 | r3 | r4), r2 -> (r5 | r3), ...
fn example_task() -> TaskConfig {
    task(
        "r1",
        vec![
            ("r1", step(&["r2", "r3", "r4"], None)),
            ("r2", step(&["r5", "r3"], None)),
            ("r3", step(&["r6", "r4"], None)),
            ("r4", step(&[], None)),
            ("r5", step(&["r6", "r3"], None)),
            ("r6", step(&[], None)),
        ],
    )
}

fn path_of(state: &State) -> Vec<(String, u32)> {
    state.meta().path.clone()
}

fn decide(run: &mut FlowRun, t: &TaskConfig, state: &mut State, outcome: Result<Code, String>) -> Decision {
    assert!(run.can_decide(t, state, &outcome));
    run.decide(t, state, outcome)
}

fn next_name(d: &Decision) -> Option<String> {
    match d {
        Decision::Next(n) => Some(n.clone()),
        _ => None,
    }
}

#[test]
fn fresh_state_has_unspecified_meta() {
    let state = State::new(HashMap::new());
    assert_eq!(state.meta().id, 0);
    assert_eq!(state.meta().task, "unspecified");
    assert!(state.meta().path.is_empty());
    assert_eq!(state.summary(), "unspecified#0: ");
    assert!(state.data.is_empty());
}

#[test]
fn state_keeps_its_data() {
    let mut data = HashMap::new();
    data.insert("value".to_string(), serde_json::Value::from(5));
    let state = State::new(data);
    assert_eq!(state.data.get("value"), Some(&serde_json::Value::from(5)));
}

#[test]
fn meta_summary_marks_retries() {
    let meta = Meta {
        id: 42,
        task: "Task1".to_string(),
        path: vec![("r1".to_string(), 0), ("r2".to_string(), 2), ("r3".to_string(), 10)],
    };
    assert_eq!(meta.summary(), "Task1#42: r1 -> r2@2 -> r3@10");
}

#[test]
fn meta_summary_of_largest_id() {
    let meta = Meta { id: u64::MAX, task: "T".to_string(), path: vec![("a".to_string(), 0)] };
    assert_eq!(meta.summary(), "T#18446744073709551615: a");
}

#[test]
fn flow_config_finds_tasks_by_name() {
    let flow = FlowConfig::new(vec![
        ("Task1".to_string(), task("a", vec![])),
        ("Task2".to_string(), task("b", vec![])),
        ("Task1".to_string(), task("c", vec![])),
    ]);
    assert_eq!(flow.len(), 3);
    assert_eq!(flow.task("Task2").map(|t| t.init_step.clone()), Some("b".to_string()));
    assert_eq!(flow.task("Task1").map(|t| t.init_step.clone()), Some("a".to_string()));
    assert!(flow.task("Task3").is_none());
    assert!(flow.task("").is_none());
}

#[test]
fn task_config_finds_steps_by_name() {
    let t = example_task();
    assert_eq!(t.step(&"r2".to_string()).map(|s| s.edges().clone()), Some(vec!["r5".to_string(), "r3".to_string()]));
    assert!(t.step(&"r7".to_string()).is_none());
    assert!(t.step(&"r1".to_string()).unwrap().retry().is_none());
}

#[test]
fn start_marks_the_state() {
    let t = example_task();
    let mut state = State::new(HashMap::new());
    let run = FlowRun::start(&t, "ExampleTask1", 9, &mut state);
    assert_eq!(run.current_step(), "r1");
    assert!(!run.is_retrying());
    assert_eq!(state.meta().id, 9);
    assert_eq!(state.meta().task, "ExampleTask1");
    assert!(state.meta().path.is_empty());
}

#[test]
fn example_flow_walks_its_edges() {
    let t = example_task();
    let mut state = State::new(HashMap::new());
    let mut run = FlowRun::start(&t, "ExampleTask1", 0, &mut state);
    assert_eq!(run.begin_step(&mut state), "r1");
    let d = decide(&mut run, &t, &mut state, Ok(Code::Success));
    assert_eq!(next_name(&d), Some("r2".to_string()));
    assert_eq!(run.begin_step(&mut state), "r2");
    let d = decide(&mut run, &t, &mut state, Ok(Code::Success));
    assert_eq!(next_name(&d), Some("r5".to_string()));
    assert_eq!(run.begin_step(&mut state), "r5");
    let d = decide(&mut run, &t, &mut state, Ok(Code::Failure(1, Some("Whoo".to_string()))));
    assert_eq!(next_name(&d), Some("r3".to_string()));
    assert_eq!(run.begin_step(&mut state), "r3");
    let d = decide(&mut run, &t, &mut state, Ok(Code::Success));
    assert_eq!(next_name(&d), Some("r6".to_string()));
    assert_eq!(run.begin_step(&mut state), "r6");
    let d = decide(&mut run, &t, &mut state, Ok(Code::Success));
    assert!(matches!(d, Decision::Finish(Finish::EndOfFlow)));
    assert_eq!(state.summary(), "ExampleTask1#0: r1 -> r2 -> r5 -> r3 -> r6");
}

#[test]
fn failure_code_without_edge_ends_the_flow() {
    let t = example_task();
    let mut state = State::new(HashMap::new());
    let mut run = FlowRun::start(&t, "T", 1, &mut state);
    run.begin_step(&mut state);
    let d = decide(&mut run, &t, &mut state, Ok(Code::Failure(3, None)));
    assert!(matches!(d, Decision::Finish(Finish::EndOfFlow)));
    assert_eq!(run.current_step(), "r1");
    assert_eq!(path_of(&state), vec![("r1".to_string(), 0)]);
}

#[test]
fn success_is_the_same_as_failure_zero() {
    let t = example_task();
    let mut s1 = State::new(HashMap::new());
    let mut r1 = FlowRun::start(&t, "T", 1, &mut s1);
    r1.begin_step(&mut s1);
    let d1 = decide(&mut r1, &t, &mut s1, Ok(Code::Success));
    let mut s2 = State::new(HashMap::new());
    let mut r2 = FlowRun::start(&t, "T", 1, &mut s2);
    r2.begin_step(&mut s2);
    let d2 = decide(&mut r2, &t, &mut s2, Ok(Code::Failure(0, None)));
    assert_eq!(next_name(&d1), next_name(&d2));
    assert_eq!(r1.current_step(), r2.current_step());
}

#[test]
fn cancel_and_error_end_the_run_unchanged() {
    let t = example_task();
    let mut state = State::new(HashMap::new());
    let mut run = FlowRun::start(&t, "T", 1, &mut state);
    run.begin_step(&mut state);
    let d = decide(&mut run, &t, &mut state, Ok(Code::Cancel(Some("stop".to_string()))));
    assert!(matches!(d, Decision::Finish(Finish::Cancelled)));
    let d = decide(&mut run, &t, &mut state, Err("boom".to_string()));
    assert!(matches!(d, Decision::Finish(Finish::StepFailed)));
    assert_eq!(run.current_step(), "r1");
    assert_eq!(path_of(&state), vec![("r1".to_string(), 0)]);
}

#[test]
fn cancel_and_error_are_decidable_for_unknown_steps() {
    let t = task("ghost", vec![]);
    let mut state = State::new(HashMap::new());
    let mut run = FlowRun::start(&t, "T", 1, &mut state);
    run.begin_step(&mut state);
    assert!(!run.can_decide(&t, &state, &Ok(Code::Success)));
    assert!(!run.can_decide(&t, &state, &Ok(Code::Failure(1, None))));
    assert!(!run.can_decide(&t, &state, &Ok(Code::Retry(None))));
    assert!(run.can_decide(&t, &state, &Ok(Code::Cancel(None))));
    assert!(run.can_decide(&t, &state, &Err("e".to_string())));
}

#[test]
fn default_policy_retries_three_times_two_seconds_apart() {
    let t = task("r", vec![("r", step(&["next"], None))]);
    let mut state = State::new(HashMap::new());
    let mut run = FlowRun::start(&t, "T", 1, &mut state);
    for n in 0..DEFAULT_RETRY_ATTEMPTS {
        assert_eq!(run.begin_step(&mut state), "r");
        let d = decide(&mut run, &t, &mut state, Ok(Code::Retry(None)));
        assert!(matches!(d, Decision::RetryAfter(2)));
        assert!(run.is_retrying());
        assert_eq!(path_of(&state), vec![("r".to_string(), n + 1)]);
    }
    run.begin_step(&mut state);
    let d = decide(&mut run, &t, &mut state, Ok(Code::Retry(None)));
    assert!(matches!(d, Decision::Finish(Finish::RetriesExhausted)));
    assert_eq!(path_of(&state), vec![("r".to_string(), 3)]);
    assert_eq!(state.summary(), "T#1: r@3");
}

#[test]
fn exp_backoff_doubles_the_wait() {
    let t = task("r", vec![("r", step(&[], Some((4, 5, Some("exp_backoff")))))]);
    let mut state = State::new(HashMap::new());
    let mut run = FlowRun::start(&t, "T", 1, &mut state);
    let mut waits = vec![];
    loop {
        run.begin_step(&mut state);
        match decide(&mut run, &t, &mut state, Ok(Code::Retry(None))) {
            Decision::RetryAfter(w) => waits.push(w),
            Decision::Finish(f) => {
                assert_eq!(f, Finish::RetriesExhausted);
                break;
            }
            Decision::Next(_) => panic!("unexpected next step"),
        }
    }
    assert_eq!(waits, vec![5, 10, 20, 40]);
}

#[test]
fn other_strategy_keeps_the_wait() {
    let t = task("r", vec![("r", step(&[], Some((2, 7, Some("linear")))))]);
    let mut state = State::new(HashMap::new());
    let mut run = FlowRun::start(&t, "T", 1, &mut state);
    run.begin_step(&mut state);
    assert!(matches!(decide(&mut run, &t, &mut state, Ok(Code::Retry(None))), Decision::RetryAfter(7)));
    run.begin_step(&mut state);
    assert!(matches!(decide(&mut run, &t, &mut state, Ok(Code::Retry(None))), Decision::RetryAfter(7)));
    run.begin_step(&mut state);
    assert!(matches!(
        decide(&mut run, &t, &mut state, Ok(Code::Retry(None))),
        Decision::Finish(Finish::RetriesExhausted)
    ));
}

#[test]
fn zero_attempts_refuse_every_retry() {
    let t = task("r", vec![("r", step(&[], Some((0, 1, None))))]);
    let mut state = State::new(HashMap::new());
    let mut run = FlowRun::start(&t, "T", 1, &mut state);
    run.begin_step(&mut state);
    assert!(matches!(
        decide(&mut run, &t, &mut state, Ok(Code::Retry(None))),
        Decision::Finish(Finish::RetriesExhausted)
    ));
}

#[test]
fn overflowing_backoff_is_not_decidable() {
    let t = task("r", vec![("r", step(&[], Some((3, u64::MAX, Some("exp_backoff")))))]);
    let mut state = State::new(HashMap::new());
    let mut run = FlowRun::start(&t, "T", 1, &mut state);
    run.begin_step(&mut state);
    assert!(matches!(decide(&mut run, &t, &mut state, Ok(Code::Retry(None))), Decision::RetryAfter(u64::MAX)));
    run.begin_step(&mut state);
    assert!(!run.can_decide(&t, &state, &Ok(Code::Retry(None))));
}

#[test]
fn retry_without_a_path_is_not_decidable() {
    let t = task("r", vec![("r", step(&[], None))]);
    let mut state = State::new(HashMap::new());
    let run = FlowRun::start(&t, "T", 1, &mut state);
    assert!(!run.can_decide(&t, &state, &Ok(Code::Retry(None))));
    assert!(run.can_decide(&t, &state, &Ok(Code::Success)));
}

#[test]
fn a_second_run_extends_the_path() {
    let t = task("a", vec![("a", step(&[], None))]);
    let mut state = State::new(HashMap::new());
    for id in 0..2u64 {
        let mut run = FlowRun::start(&t, "T", id, &mut state);
        run.begin_step(&mut state);
        let d = decide(&mut run, &t, &mut state, Ok(Code::Success));
        assert!(matches!(d, Decision::Finish(Finish::EndOfFlow)));
    }
    assert_eq!(state.summary(), "T#1: a -> a");
}
