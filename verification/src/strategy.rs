//! The decisions of a test run: after each new state, whether the test stops
//! and why, and which actions are available to go on with.
use vstd::prelude::*;

use vstd::string::StringExecFns;

use crate::duration::{decimal_text, push_decimal};
use crate::eval::Value;
use crate::formula::Violation;
use crate::time::{at_or_after, is_at_or_after};
use std::time::SystemTime;
use crate::tree::{filtered, pruned, top_size, Tree, TreeView};

verus! {

/// Whether a run goes on with an action or stops with a value.
#[derive(Debug, Clone, PartialEq, Eq)]
pub enum ControlFlow<T, A> {
    Continue(A),
    Stop(T),
}

/// Why a browser test stopped.
#[derive(Clone, Copy, Debug, PartialEq, Eq, Structural)]
pub enum ExitReason {
    ExitOnViolation,
    TimeLimit,
    Interrupted,
    Reproduced,
    AllDefinite,
}

/// How a browser test ended.
#[derive(Clone, Copy, Debug, PartialEq, Eq, Structural)]
pub struct TestResult {
    pub exit_reason: ExitReason,
    pub violations_count: u64,
}

/// Whether the deadline, if there is one, has come at `now`: `now` is not
/// before it.
pub open spec fn deadline_reached(deadline: Option<SystemTime>, now: SystemTime) -> bool {
    deadline matches Some(d) && at_or_after(now, d)
}

/// Why a browser test stops after a state, if it does: on a violation when
/// asked to, when every property is decided, when the actions to reproduce
/// are used up, or when the time is up, in that order.
pub open spec fn browser_stop_reason(
    violations_count: u64,
    exit_on_violation: bool,
    all_definite: bool,
    reproduction_done: bool,
    deadline: Option<SystemTime>,
    now: SystemTime,
) -> Option<ExitReason> {
    if violations_count > 0 && exit_on_violation {
        Some(ExitReason::ExitOnViolation)
    } else if all_definite {
        Some(ExitReason::AllDefinite)
    } else if reproduction_done {
        Some(ExitReason::Reproduced)
    } else if deadline_reached(deadline, now) {
        Some(ExitReason::TimeLimit)
    } else {
        None
    }
}

/// A browser test stops on a violation first, when asked to; otherwise when
/// every property is decided; otherwise when the actions to reproduce are
/// used up; otherwise when its deadline has come; and only then. It never
/// reports an interruption, which comes from outside.
pub proof fn law_browser_stop_order(
    violations_count: u64,
    exit_on_violation: bool,
    all_definite: bool,
    reproduction_done: bool,
    deadline: Option<SystemTime>,
    now: SystemTime,
)
    ensures
        ({
            let r = browser_stop_reason(violations_count, exit_on_violation, all_definite, reproduction_done, deadline, now);
            let violated = violations_count > 0 && exit_on_violation;
            let late = deadline is Some && at_or_after(now, deadline->0);
            &&& violated ==> r == Some(ExitReason::ExitOnViolation)
            &&& !violated && all_definite ==> r == Some(ExitReason::AllDefinite)
            &&& !violated && !all_definite && reproduction_done ==> r == Some(ExitReason::Reproduced)
            &&& !violated && !all_definite && !reproduction_done && late ==> r == Some(ExitReason::TimeLimit)
            &&& r is None <==> !violated && !all_definite && !reproduction_done && !late
            &&& r != Some(ExitReason::Interrupted)
            &&& exit_on_violation && violations_count == 0 ==> r != Some(ExitReason::ExitOnViolation)
        }),
{
}

/// Whether the deadline has come.
pub fn is_deadline_reached(deadline: Option<SystemTime>, now: SystemTime) -> (r: bool)
    ensures
        r == deadline_reached(deadline, now),
{
    match deadline {
        Some(d) => is_at_or_after(&now, &d),
        None => false,
    }
}

/// Adds the violations of a state to the count so far.
pub fn count_violations(count: u64, new_violations: usize) -> (r: u64)
    requires
        count + new_violations <= u64::MAX,
    ensures
        r == count + new_violations,
{
    count + new_violations as u64
}

/// Why a browser test stops after a state, given the violations counted so
/// far, or `None` when it goes on.
pub fn browser_stop(
    violations_count: u64,
    exit_on_violation: bool,
    all_definite: bool,
    reproduction_done: bool,
    deadline: Option<SystemTime>,
    now: SystemTime,
) -> (r: Option<TestResult>)
    ensures
        match browser_stop_reason(violations_count, exit_on_violation, all_definite, reproduction_done, deadline, now) {
            Some(reason) => r == Some(TestResult { exit_reason: reason, violations_count }),
            None => r is None,
        },
{
    let reason = if violations_count > 0 && exit_on_violation {
        Some(ExitReason::ExitOnViolation)
    } else if all_definite {
        Some(ExitReason::AllDefinite)
    } else if reproduction_done {
        Some(ExitReason::Reproduced)
    } else if is_deadline_reached(deadline, now) {
        Some(ExitReason::TimeLimit)
    } else {
        None
    };
    match reason {
        Some(exit_reason) => Some(TestResult { exit_reason, violations_count }),
        None => None,
    }
}

/// How a browser test that was interrupted ends.
pub fn interrupted(violations_count: u64) -> (r: TestResult)
    ensures
        r == (TestResult { exit_reason: ExitReason::Interrupted, violations_count }),
{
    TestResult { exit_reason: ExitReason::Interrupted, violations_count }
}

/// The actions that the test can go on with: all of them on a page within
/// the tested domain, only those that `is_back` accepts (going back)
/// elsewhere; in both cases without empty branches, and `None` when nothing
/// is left.
pub fn available_actions<A, P: Fn(&A) -> bool>(tree: Tree<A>, within_domain: bool, is_back: &P) -> (r: Option<Tree<A>>)
    requires
        forall|a: &A| is_back.requires((a,)),
    ensures
        within_domain ==> {
            &&& (r is None <==> top_size(pruned(tree.model())) == 0)
            &&& (r matches Some(t) ==> t.model() == pruned(tree.model()))
        },
        !within_domain ==> exists|kept: TreeView<A>| {
            &&& #[trigger] filtered(tree.model(), kept, *is_back)
            &&& (r is None <==> top_size(pruned(kept)) == 0)
            &&& (r matches Some(t) ==> t.model() == pruned(kept))
        },
{
    if within_domain {
        tree.prune()
    } else {
        let kept = tree.filter(is_back);
        let r = kept.prune();
        assert(filtered(tree.model(), kept.model(), *is_back));
        r
    }
}

/// What a driver reports: a new state, or an error.
#[derive(Debug, Clone)]
pub enum DriverEvent<S> {
    StateChanged(S),
    Error(String),
}

/// Why a run stopped without a result.
#[derive(Debug, Clone, PartialEq, Eq)]
pub enum RunError {
    /// The driver reported an error.
    Driver(String),
    /// The driver closed before the test ended.
    DriverClosed,
}

/// The state that a driver event brings, or why the run cannot go on.
pub fn next_state<S>(event: Option<DriverEvent<S>>) -> (r: Result<S, RunError>)
    ensures
        match event {
            Some(DriverEvent::StateChanged(state)) => r == Ok::<S, RunError>(state),
            Some(DriverEvent::Error(message)) => r == Err::<S, RunError>(RunError::Driver(message)),
            None => r == Err::<S, RunError>(RunError::DriverClosed),
        },
{
    match event {
        Some(DriverEvent::StateChanged(state)) => Ok(state),
        Some(DriverEvent::Error(message)) => Err(RunError::Driver(message)),
        None => Err(RunError::DriverClosed),
    }
}

/// A property that a state violated.
#[derive(Debug)]
pub struct PropertyViolation<F> {
    pub name: String,
    pub violation: Violation<F>,
}

/// The violations among the values that properties reported, in order.
pub open spec fn false_values<F>(values: Seq<(String, Value<F>)>) -> Seq<(String, Violation<F>)>
    decreases values.len(),
{
    if values.len() == 0 {
        Seq::empty()
    } else {
        let rest = false_values(values.drop_last());
        match values.last().1 {
            Value::False(violation, _) => rest.push((values.last().0, violation)),
            _ => rest,
        }
    }
}

/// The violations among the values that properties reported, in order,
/// each with its property's name.
pub fn violations_of<F>(values: Vec<(String, Value<F>)>) -> (r: Vec<PropertyViolation<F>>)
    ensures
        r@.map_values(|v: PropertyViolation<F>| (v.name, v.violation)) == false_values(values@),
{
    let ghost all = values@;
    let mut out: Vec<PropertyViolation<F>> = Vec::new();
    for item in it: values.into_iter()
        invariant
            it.seq() == all,
            out@.map_values(|v: PropertyViolation<F>| (v.name, v.violation)) == false_values(all.take(it.index() as int)),
    {
        let ghost j = it.index();
        proof {
            assert(all.take(j + 1).drop_last() =~= all.take(j as int));
            assert(all.take(j + 1).last() == all[j as int]);
        }
        let ghost before = out@;
        let (name, value) = item;
        match value {
            Value::False(violation, _) => {
                let entry = PropertyViolation { name, violation };
                let ghost pair = (entry.name, entry.violation);
                out.push(entry);
                assert(out@.map_values(|v: PropertyViolation<F>| (v.name, v.violation)) =~= before.map_values(
                    |v: PropertyViolation<F>| (v.name, v.violation),
                ).push(pair));
            },
            _ => {},
        }
    }
    assert(all.take(all.len() as int) =~= all);
    out
}

/// What a finished test found: nothing, one violation, or how many.
pub open spec fn findings(violations_count: u64) -> Seq<char> {
    if violations_count == 0 {
        Seq::empty()
    } else if violations_count == 1 {
        ", finding 1 violation"@
    } else {
        ", finding "@ + decimal_text(violations_count as nat) + " violations"@
    }
}

/// The heading printed when a browser test ends.
pub open spec fn heading(result: Option<TestResult>) -> Seq<char> {
    match result {
        None => "Test finished!"@,
        Some(r) => match r.exit_reason {
            ExitReason::TimeLimit => "Test finished after time limit"@ + findings(r.violations_count) + "!"@,
            ExitReason::Interrupted => "Test was interrupted by SIGINT"@ + findings(r.violations_count) + "!"@,
            _ => "Test finished"@ + findings(r.violations_count) + "!"@,
        },
    }
}

/// The heading printed when a browser test ends: why it ended, and how
/// many violations it found.
pub fn test_heading(result: Option<TestResult>) -> (r: String)
    ensures
        r@ == heading(result),
{
    match result {
        None => String::from_str("Test finished!"),
        Some(result) => {
            let mut text = match result.exit_reason {
                ExitReason::TimeLimit => String::from_str("Test finished after time limit"),
                ExitReason::Interrupted => String::from_str("Test was interrupted by SIGINT"),
                _ => String::from_str("Test finished"),
            };
            if result.violations_count == 1 {
                text.append(", finding 1 violation");
            } else if result.violations_count > 1 {
                text.append(", finding ");
                push_decimal(&mut text, result.violations_count);
                text.append(" violations");
            }
            text.append("!");
            assert(text@ =~= heading(Some(result)));
            text
        },
    }
}

} // verus!
