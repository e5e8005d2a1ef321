//! Properties that hold across the transitions of a run.
use vstd::prelude::*;
use vstd::arithmetic::power2::{lemma_pow2_unfold, pow2};
use crate::about::{feature_names, name_list};
use crate::config::{is_first, lookup, StepView, TaskView};
use crate::state::{entry_text, meta_text, path_text};
use crate::text::{decimal, lemma_joined_push};
use crate::flow::{
    attempts_for, backs_off, begin_spec, decidable, decide_spec, interval_of, retry_delay, DecisionView,
    Finish, RunView,
};
use crate::state::{Code, MetaView};

verus! {

/// Every step on the path has been retried no more often than the task
/// allows for it.
pub open spec fn within_retry_limits(task: TaskView, meta: MetaView) -> bool {
    forall|i: int|
        0 <= i < meta.path.len() ==> #[trigger] meta.path[i].1 <= attempts_for(task, meta.path[i].0)
}

/// The run is inside its current step: the step has started, is the last
/// entry of the path, and is not waiting for a retry.
pub open spec fn in_step(run: RunView, meta: MetaView) -> bool {
    &&& !run.retrying
    &&& meta.path.len() > 0
    &&& meta.path.last().0 == run.current
}

/// Where the run waits for a retry, the step to retry is the last entry of
/// the path.
pub open spec fn waits_at_last_step(run: RunView, meta: MetaView) -> bool {
    run.retrying ==> meta.path.len() > 0 && meta.path.last().0 == run.current
}

/// Starting a step puts the run inside that step and keeps every step within
/// its retry limit.
pub proof fn begin_step_keeps_retry_limits(task: TaskView, run: RunView, meta: MetaView)
    requires
        within_retry_limits(task, meta),
        waits_at_last_step(run, meta),
    ensures
        within_retry_limits(task, begin_spec(run, meta).1),
        in_step(begin_spec(run, meta).0, begin_spec(run, meta).1),
{
    let m = begin_spec(run, meta).1;
    assert forall|i: int| 0 <= i < m.path.len() implies #[trigger] m.path[i].1 <= attempts_for(
        task,
        m.path[i].0,
    ) by {
        if i < meta.path.len() {
            assert(m.path[i] == meta.path[i]);
        }
    }
}

/// Whatever a step reports, no step is retried more often than its retry
/// policy allows (three times without a policy), and a run that waits for a
/// retry waits at the last step of its path.
pub proof fn decide_keeps_retry_limits(
    task: TaskView,
    run: RunView,
    meta: MetaView,
    outcome: Result<Code, String>,
)
    requires
        within_retry_limits(task, meta),
        in_step(run, meta),
        decidable(task, run, meta, outcome),
    ensures
        within_retry_limits(task, decide_spec(task, run, meta, outcome).1),
        waits_at_last_step(decide_spec(task, run, meta, outcome).0, decide_spec(task, run, meta, outcome).1),
{
    let (r, m, d) = decide_spec(task, run, meta, outcome);
    assert forall|i: int| 0 <= i < m.path.len() implies #[trigger] m.path[i].1 <= attempts_for(
        task,
        m.path[i].0,
    ) by {
        if i < meta.path.len() - 1 {
            assert(m.path[i] == meta.path[i]);
        } else {
            assert(meta.path[i].1 <= attempts_for(task, meta.path[i].0));
        }
    }
}

/// A retried step is not added to the path again: its entry stays the last
/// one, with its retry count one higher, and the same step runs again.
pub proof fn retry_counts_on_the_same_entry(
    task: TaskView,
    run: RunView,
    meta: MetaView,
    note: Option<String>,
)
    requires
        in_step(run, meta),
        decidable(task, run, meta, Ok(Code::Retry(note))),
        meta.path.last().1 < attempts_for(task, run.current),
    ensures
        ({
            let (r1, m1, d) = decide_spec(task, run, meta, Ok(Code::Retry(note)));
            let (r2, m2) = begin_spec(r1, m1);
            &&& d is RetryAfter
            &&& r2.current == run.current
            &&& m2.path.len() == meta.path.len()
            &&& m2.path.last() == (run.current, (meta.path.last().1 + 1) as u32)
            &&& m2.path.take(meta.path.len() - 1) == meta.path.take(meta.path.len() - 1)
        }),
{
    let (r1, m1, d) = decide_spec(task, run, meta, Ok(Code::Retry(note)));
    assert(m1.path.take(meta.path.len() - 1) =~= meta.path.take(meta.path.len() - 1));
}

/// A retry is refused exactly when the step has used up its retries; the
/// run then ends with its run and path unchanged.
pub proof fn retries_are_bounded(task: TaskView, run: RunView, meta: MetaView, note: Option<String>)
    requires
        decidable(task, run, meta, Ok(Code::Retry(note))),
    ensures
        (decide_spec(task, run, meta, Ok(Code::Retry(note))).2 == DecisionView::Finish(
            Finish::RetriesExhausted,
        )) <==> meta.path.last().1 >= attempts_for(task, run.current),
{
}

/// A decision that ends the run leaves the run and its metadata as they
/// were.
pub proof fn finishing_changes_nothing(
    task: TaskView,
    run: RunView,
    meta: MetaView,
    outcome: Result<Code, String>,
)
    requires
        decidable(task, run, meta, outcome),
        decide_spec(task, run, meta, outcome).2 is Finish,
    ensures
        decide_spec(task, run, meta, outcome).0 == run,
        decide_spec(task, run, meta, outcome).1 == meta,
{
}

/// Success follows the step's first edge, as a failure with code 0 does.
pub proof fn success_is_failure_zero(
    task: TaskView,
    run: RunView,
    meta: MetaView,
    note: Option<String>,
)
    requires
        decidable(task, run, meta, Ok(Code::Success)),
    ensures
        decide_spec(task, run, meta, Ok(Code::Success)) == decide_spec(
            task,
            run,
            meta,
            Ok(Code::Failure(0, note)),
        ),
{
}

/// Under `exp_backoff` each retry waits twice as long as the one before.
pub proof fn backoff_doubles(step: StepView, retried: u32)
    requires
        backs_off(step),
        retried < u32::MAX,
    ensures
        retry_delay(step, (retried + 1) as u32) == 2 * retry_delay(step, retried),
{
    lemma_pow2_unfold((retried + 1) as nat);
    let p = pow2(retried as nat);
    let i = interval_of(step) as int;
    assert(i * (2 * p) == 2 * (i * p)) by (nonlinear_arith);
}

/// Without `exp_backoff` every retry waits the same interval.
pub proof fn fixed_wait(step: StepView, retried: u32)
    requires
        !backs_off(step),
    ensures
        retry_delay(step, retried) == interval_of(step),
{
}

/// A retry request is weighed against the step's own policy: it is refused,
/// ending the run with nothing changed, exactly when the step's retry count
/// has reached the policy's `attempts` (3 for a step without a policy);
/// otherwise the same step waits for a retry and its count goes up by one.
pub proof fn retry_respects_policy_attempts(
    task: TaskView,
    run: RunView,
    meta: MetaView,
    note: Option<String>,
)
    requires
        decidable(task, run, meta, Ok(Code::Retry(note))),
    ensures
        ({
            let step = task.step(run.current)->0;
            let limit: int = match step.retry {
                Some(r) => r.attempts as int,
                None => 3,
            };
            let count = meta.path.last().1;
            let (r2, m2, d) = decide_spec(task, run, meta, Ok(Code::Retry(note)));
            &&& count >= limit ==> {
                &&& d == DecisionView::Finish(Finish::RetriesExhausted)
                &&& r2 == run
                &&& m2 == meta
            }
            &&& count < limit ==> {
                &&& d is RetryAfter
                &&& r2.current == run.current
                &&& r2.retrying
                &&& m2.id == meta.id
                &&& m2.task == meta.task
                &&& m2.path.len() == meta.path.len()
                &&& m2.path.last() == (meta.path.last().0, (count + 1) as u32)
                &&& forall|i: int| 0 <= i < meta.path.len() - 1 ==> m2.path[i] == meta.path[i]
            }
        }),
{
}

/// The wait before a retry is the policy's interval (2 seconds without a
/// policy); only a policy whose strategy is exactly `exp_backoff` multiplies
/// it by two for each earlier retry.
pub proof fn retry_wait_follows_strategy(
    task: TaskView,
    run: RunView,
    meta: MetaView,
    note: Option<String>,
)
    requires
        decidable(task, run, meta, Ok(Code::Retry(note))),
        meta.path.last().1 < attempts_for(task, run.current),
    ensures
        ({
            let step = task.step(run.current)->0;
            let count = meta.path.last().1;
            decide_spec(task, run, meta, Ok(Code::Retry(note))).2 == DecisionView::RetryAfter(
                match step.retry {
                    None => 2u64,
                    Some(r) => if r.strategy == Some("exp_backoff"@) {
                        (r.interval * pow2(count as nat)) as u64
                    } else {
                        r.interval
                    },
                },
            )
        }),
        ({
            let step = task.step(run.current)->0;
            match step.retry {
                Some(r) => r.strategy != Some("exp_backoff"@) ==> decide_spec(
                    task,
                    run,
                    meta,
                    Ok(Code::Retry(note)),
                ).2 == DecisionView::RetryAfter(r.interval),
                None => true,
            }
        }),
{
}

/// A failure with code `k` goes on along edge `k` of the step when the step
/// has that edge, and the run moves there; only when the step has fewer
/// edges does the flow end. The path is not touched either way.
pub proof fn failure_takes_its_edge(
    task: TaskView,
    run: RunView,
    meta: MetaView,
    k: usize,
    note: Option<String>,
)
    requires
        decidable(task, run, meta, Ok(Code::Failure(k, note))),
    ensures
        ({
            let edges = task.step(run.current)->0.edges;
            let (r2, m2, d) = decide_spec(task, run, meta, Ok(Code::Failure(k, note)));
            &&& m2 == meta
            &&& k < edges.len() ==> {
                &&& d == DecisionView::Next(edges[k as int])
                &&& r2.current == edges[k as int]
                &&& r2.retrying == run.retrying
            }
            &&& k >= edges.len() ==> {
                &&& d == DecisionView::Finish(Finish::EndOfFlow)
                &&& r2 == run
            }
        }),
{
}

/// Success goes on along the step's first edge, and ends the flow only when
/// the step has no edge.
pub proof fn success_takes_first_edge(task: TaskView, run: RunView, meta: MetaView)
    requires
        decidable(task, run, meta, Ok(Code::Success)),
    ensures
        ({
            let edges = task.step(run.current)->0.edges;
            let (r2, m2, d) = decide_spec(task, run, meta, Ok(Code::Success));
            &&& m2 == meta
            &&& edges.len() > 0 ==> d == DecisionView::Next(edges[0]) && r2.current == edges[0]
            &&& edges.len() == 0 ==> d == DecisionView::Finish(Finish::EndOfFlow) && r2 == run
        }),
{
}

/// The metadata text of a run with no steps yet is `task#id: `.
pub proof fn summary_without_steps(m: MetaView)
    requires
        m.path.len() == 0,
    ensures
        meta_text(m) == m.task + seq!['#'] + decimal(m.id as nat) + seq![':', ' '],
{
    assert(Seq::new(m.path.len(), |i: int| entry_text(m.path[i])) =~= Seq::<Seq<char>>::empty());
    assert(meta_text(m) =~= m.task + seq!['#'] + decimal(m.id as nat) + seq![':', ' ']);
}

/// One more step on the path adds ` -> ` (unless it is the first step) and
/// the step's name to the text, followed by `@` and the retry count when the
/// step was retried at least once.
pub proof fn summary_appends_step(m: MetaView, name: Seq<char>, count: u32)
    ensures
        meta_text(MetaView { path: m.path.push((name, count)), ..m }) == meta_text(m) + (if m.path.len()
            > 0 {
            seq![' ', '-', '>', ' ']
        } else {
            Seq::empty()
        }) + name + (if count > 0 {
            seq!['@'] + decimal(count as nat)
        } else {
            Seq::empty()
        }),
{
    let p2 = m.path.push((name, count));
    let t1 = Seq::new(m.path.len(), |i: int| entry_text(m.path[i]));
    let t2 = Seq::new(p2.len(), |i: int| entry_text(p2[i]));
    assert(t2 =~= t1.push(entry_text((name, count))));
    lemma_joined_push(t1, seq![' ', '-', '>', ' '], entry_text((name, count)));
    let m2 = MetaView { path: p2, ..m };
    assert(path_text(p2) == if m.path.len() > 0 {
        path_text(m.path) + seq![' ', '-', '>', ' '] + entry_text((name, count))
    } else {
        entry_text((name, count))
    });
    if m.path.len() > 0 {
        assert(meta_text(m2) =~= meta_text(m) + seq![' ', '-', '>', ' '] + name + (if count > 0 {
            seq!['@'] + decimal(count as nat)
        } else {
            Seq::empty()
        }));
    } else {
        assert(path_text(m.path) =~= Seq::<char>::empty());
        assert(meta_text(m2) =~= meta_text(m) + name + (if count > 0 {
            seq!['@'] + decimal(count as nat)
        } else {
            Seq::empty()
        }));
    }
}

/// The position of a feature name in the version line's list.
pub open spec fn feature_rank(name: Seq<char>) -> int {
    if name == "tracing"@ {
        0
    } else if name == "runtime-tokio"@ {
        1
    } else {
        2
    }
}

/// Each feature is listed exactly when its flag is set, whatever the other
/// flags are; the list holds nothing else, and keeps the order `tracing`,
/// `runtime-tokio`, `runtime-async-std`.
pub proof fn features_follow_flags(tracing: bool, runtime_tokio: bool, runtime_async_std: bool)
    ensures
        feature_names(tracing, runtime_tokio, runtime_async_std).contains("tracing"@) <==> tracing,
        feature_names(tracing, runtime_tokio, runtime_async_std).contains("runtime-tokio"@)
            <==> runtime_tokio,
        feature_names(tracing, runtime_tokio, runtime_async_std).contains("runtime-async-std"@)
            <==> runtime_async_std,
        feature_names(tracing, runtime_tokio, runtime_async_std).len() == (if tracing {
            1int
        } else {
            0
        }) + (if runtime_tokio {
            1int
        } else {
            0
        }) + (if runtime_async_std {
            1int
        } else {
            0
        }),
        forall|i: int, j: int|
            0 <= i < j < feature_names(tracing, runtime_tokio, runtime_async_std).len() ==> feature_rank(
                #[trigger] feature_names(tracing, runtime_tokio, runtime_async_std)[i],
            ) < feature_rank(#[trigger] feature_names(tracing, runtime_tokio, runtime_async_std)[j]),
{
    reveal_strlit("tracing");
    reveal_strlit("runtime-tokio");
    reveal_strlit("runtime-async-std");
    let a = "tracing"@;
    let b = "runtime-tokio"@;
    let c = "runtime-async-std"@;
    assert(a != b) by { assert(a[0] != b[0]); }
    assert(a != c) by { assert(a[0] != c[0]); }
    assert(b != c) by { assert(b[8] != c[8]); }
    let f = feature_names(tracing, runtime_tokio, runtime_async_std);
    let sa: Seq<Seq<char>> = if tracing { seq![a] } else { Seq::empty() };
    let sb: Seq<Seq<char>> = if runtime_tokio { seq![b] } else { Seq::empty() };
    let sc: Seq<Seq<char>> = if runtime_async_std { seq![c] } else { Seq::empty() };
    assert(f == sa + sb + sc);
    assert(feature_rank(a) == 0);
    assert(feature_rank(b) == 1);
    assert(feature_rank(c) == 2);
    assert forall|x: Seq<char>| f.contains(x) <==> (sa.contains(x) || sb.contains(x) || sc.contains(x)) by {
        if f.contains(x) {
            let i = choose|i: int| 0 <= i < f.len() && f[i] == x;
            if i < sa.len() {
                assert(sa[i] == x);
            } else if i < sa.len() + sb.len() {
                assert(sb[i - sa.len()] == x);
            } else {
                assert(sc[i - sa.len() - sb.len()] == x);
            }
        }
        if sa.contains(x) {
            let i = choose|i: int| 0 <= i < sa.len() && sa[i] == x;
            assert(f[i] == x);
        }
        if sb.contains(x) {
            let i = choose|i: int| 0 <= i < sb.len() && sb[i] == x;
            assert(f[sa.len() + i] == x);
        }
        if sc.contains(x) {
            let i = choose|i: int| 0 <= i < sc.len() && sc[i] == x;
            assert(f[sa.len() + sb.len() + i] == x);
        }
    }
    assert(sa.contains(a) <==> tracing) by { if tracing { assert(sa[0] == a); } }
    assert(sb.contains(b) <==> runtime_tokio) by { if runtime_tokio { assert(sb[0] == b); } }
    assert(sc.contains(c) <==> runtime_async_std) by { if runtime_async_std { assert(sc[0] == c); } }
    assert forall|i: int, j: int| 0 <= i < j < f.len() implies feature_rank(#[trigger] f[i]) < feature_rank(
        #[trigger] f[j],
    ) by {
        let ri = if i < sa.len() { 0int } else if i < sa.len() + sb.len() { 1int } else { 2int };
        let rj = if j < sa.len() { 0int } else if j < sa.len() + sb.len() { 1int } else { 2int };
        assert(feature_rank(f[i]) == ri);
        assert(feature_rank(f[j]) == rj);
    }
}

/// A lookup by name gives the value of the first entry with that name, and
/// nothing exactly when no entry has that name.
pub proof fn lookup_finds_first_entry<V>(entries: Seq<(Seq<char>, V)>, name: Seq<char>)
    ensures
        match lookup(entries, name) {
            Some(v) => exists|i: int|
                0 <= i < entries.len() && entries[i] == (name, v) && forall|j: int|
                    0 <= j < i ==> #[trigger] entries[j].0 != name,
            None => forall|i: int| 0 <= i < entries.len() ==> #[trigger] entries[i].0 != name,
        },
{
    let keys = Seq::new(entries.len(), |i: int| entries[i].0);
    if exists|i: int| is_first(keys, name, i) {
        let i = choose|i: int| is_first(keys, name, i);
        assert(keys[i] == entries[i].0);
        assert forall|j: int| 0 <= j < i implies #[trigger] entries[j].0 != name by {
            assert(keys[j] == entries[j].0);
        }
    } else {
        assert forall|i: int| 0 <= i < entries.len() implies #[trigger] entries[i].0 != name by {
            if entries[i].0 == name {
                first_occurrence(keys, name, i);
            }
        }
    }
}

proof fn first_occurrence(keys: Seq<Seq<char>>, name: Seq<char>, i: int)
    requires
        0 <= i < keys.len(),
        keys[i] == name,
    ensures
        exists|k: int| is_first(keys, name, k),
    decreases i,
{
    if forall|j: int| 0 <= j < i ==> keys[j] != name {
        assert(is_first(keys, name, i));
    } else {
        let j = choose|j: int| 0 <= j < i && keys[j] == name;
        first_occurrence(keys, name, j);
    }
}

/// Starting a step that is not being retried appends exactly that step,
/// not yet retried, and keeps every earlier entry; starting a retried step
/// keeps the path. Either way the run is no longer retrying.
pub proof fn begin_step_records_fresh_steps(run: RunView, meta: MetaView)
    ensures
        ({
            let (r2, m2) = begin_spec(run, meta);
            &&& r2.current == run.current
            &&& !r2.retrying
            &&& m2.id == meta.id
            &&& m2.task == meta.task
            &&& run.retrying ==> m2.path == meta.path
            &&& !run.retrying ==> {
                &&& m2.path.len() == meta.path.len() + 1
                &&& m2.path.last() == (run.current, 0u32)
                &&& forall|i: int| 0 <= i < meta.path.len() ==> m2.path[i] == meta.path[i]
            }
        }),
{
}

/// A cancellation ends the run as cancelled and an error of the step ends
/// it as failed, whatever the task and the path; neither changes anything.
pub proof fn cancel_and_error_end_the_run(
    task: TaskView,
    run: RunView,
    meta: MetaView,
    note: Option<String>,
    err: String,
)
    ensures
        decidable(task, run, meta, Ok(Code::Cancel(note))),
        decidable(task, run, meta, Err(err)),
        decide_spec(task, run, meta, Ok(Code::Cancel(note))) == (run, meta, DecisionView::Finish(
            Finish::Cancelled,
        )),
        decide_spec(task, run, meta, Err(err)) == (run, meta, DecisionView::Finish(Finish::StepFailed)),
{
}

/// Success and failures can be decided exactly when the task configures the
/// current step; a retry also needs a path entry to count on and, under
/// `exp_backoff`, a wait that fits in 64 bits.
pub proof fn when_steps_can_be_decided(
    task: TaskView,
    run: RunView,
    meta: MetaView,
    k: usize,
    note: Option<String>,
)
    ensures
        decidable(task, run, meta, Ok(Code::Success)) <==> task.step(run.current) is Some,
        decidable(task, run, meta, Ok(Code::Failure(k, note))) <==> task.step(run.current) is Some,
        decidable(task, run, meta, Ok(Code::Retry(note))) <==> {
            &&& task.step(run.current) is Some
            &&& meta.path.len() > 0
            &&& match task.step(run.current)->0.retry {
                Some(r) => (meta.path.last().1 < r.attempts && r.strategy == Some("exp_backoff"@)) ==> (
                meta.path.last().1 < 64 && r.interval * pow2(meta.path.last().1 as nat) <= u64::MAX),
                None => true,
            }
        },
{
}

/// The number a string of decimal digits stands for.
pub open spec fn digits_value(s: Seq<char>) -> int
    decreases s.len(),
{
    if s.len() == 0 {
        0
    } else {
        10 * digits_value(s.drop_last()) + (s.last() as int - '0' as int)
    }
}

/// The decimal text of a number is made of digits only, starts with a
/// nonzero digit unless the number is 0, and reads back as the number.
pub proof fn decimal_reads_back(n: nat)
    ensures
        decimal(n).len() > 0,
        forall|i: int| 0 <= i < decimal(n).len() ==> '0' <= #[trigger] decimal(n)[i] <= '9',
        n > 0 ==> decimal(n)[0] != '0',
        n == 0 ==> decimal(n) == seq!['0'],
        digits_value(decimal(n)) == n,
    decreases n,
{
    let d = decimal(n);
    digit_value((n % 10) as nat);
    if n >= 10 {
        decimal_reads_back(n / 10);
        assert(d == decimal(n / 10).push(crate::text::digit_char(n % 10)));
        assert(d.drop_last() =~= decimal(n / 10));
        assert(d[0] == decimal(n / 10)[0]);
        assert(d.last() == crate::text::digit_char(n % 10));
        assert(digits_value(d) == 10 * digits_value(d.drop_last()) + (d.last() as int - '0' as int));
        assert(n == 10 * (n / 10) + n % 10);
    } else {
        assert(d.drop_last() =~= Seq::<char>::empty());
        assert(digits_value(d.drop_last()) == 0);
        assert(d.last() == crate::text::digit_char(n));
        assert(digits_value(d) == 10 * digits_value(d.drop_last()) + (d.last() as int - '0' as int));
    }
}

proof fn digit_value(d: nat)
    requires
        d < 10,
    ensures
        crate::text::digit_char(d) as int - '0' as int == d,
        '0' <= crate::text::digit_char(d) <= '9',
        d > 0 ==> crate::text::digit_char(d) != '0',
{
}

/// The feature list is written in brackets; each further name adds `, `
/// (unless it is the first) and the name in double quotes before the
/// closing bracket.
pub proof fn name_list_grows_by_quoted_names(names: Seq<Seq<char>>, x: Seq<char>)
    ensures
        name_list(Seq::empty()) == seq!['[', ']'],
        name_list(names.push(x)) == name_list(names).drop_last() + (if names.len() > 0 {
            seq![',', ' ']
        } else {
            Seq::empty()
        }) + seq!['"'] + x + seq!['"', ']'],
{
    let e = Seq::<Seq<char>>::empty();
    assert(Seq::new(e.len(), |i: int| crate::text::quoted(e[i])) =~= e);
    assert(name_list(e) =~= seq!['[', ']']);
    let q1 = Seq::new(names.len(), |i: int| crate::text::quoted(names[i]));
    let p2 = names.push(x);
    let q2 = Seq::new(p2.len(), |i: int| crate::text::quoted(p2[i]));
    assert(q2 =~= q1.push(crate::text::quoted(x)));
    lemma_joined_push(q1, seq![',', ' '], crate::text::quoted(x));
    let body = crate::text::joined(q1, seq![',', ' ']);
    assert(name_list(names).drop_last() =~= seq!['['] + body);
    if names.len() > 0 {
        assert(name_list(p2) =~= seq!['['] + body + seq![',', ' '] + seq!['"'] + x + seq!['"', ']']);
    } else {
        assert(body =~= Seq::<char>::empty());
        assert(name_list(p2) =~= seq!['['] + seq!['"'] + x + seq!['"', ']']);
    }
}

} // verus!
