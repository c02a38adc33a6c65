//! The evaluator of the temporal logic. [Evaluator::evaluate] takes a
//! [Formula] and a time and gives a [Value]: true, false (a violation, with a
//! residual to go on evaluating for further violations) or a residual, when no
//! answer is definite yet. [Evaluator::step] takes a residual one state ahead.
//!
//! Thunks are computations of the host language that return formulas; the
//! evaluator hands them to an [EvaluateThunk] and evaluates what comes back,
//! together with the snapshots that the thunk read.
use vstd::prelude::*;

use crate::formula::{EventuallyViolation, Formula, Violation};
use crate::state::State;
use crate::time::{time_plus, Duration, Time};

verus! {

/// The outcome of evaluating a formula, or of stepping a residual.
#[derive(Debug, PartialEq)]
pub enum Value<F> {
    True(State),
    False(Violation<F>, Option<Residual<F>>),
    Residual(Residual<F>),
}

/// What to conclude of a residual when the test stops before it is decided.
#[derive(Debug, PartialEq)]
pub enum Leaning<F> {
    AssumeTrue,
    AssumeFalse(Violation<F>),
}

/// The part of a formula that still waits for future states.
#[derive(Debug, PartialEq)]
pub enum Residual<F> {
    True(State),
    False(Violation<F>),
    Derived(Derived<F>, Leaning<F>),
    And { left: Box<Residual<F>>, right: Box<Residual<F>> },
    Or { left: Box<Residual<F>>, right: Box<Residual<F>> },
    Implies { left_formula: Formula<F>, left: Box<Residual<F>>, right: Box<Residual<F>> },
    OrEventually {
        subformula: Box<Formula<F>>,
        start: Time,
        end: Option<Time>,
        left: Box<Residual<F>>,
        right: Box<Residual<F>>,
    },
    AndAlways {
        subformula: Box<Formula<F>>,
        start: Time,
        end: Option<Time>,
        /// When the left-side residual was first created: the time that a
        /// violation found through it is reported at.
        onset: Time,
        left: Box<Residual<F>>,
        right: Box<Residual<F>>,
    },
}

/// A temporal operator that is evaluated anew in the next state.
#[derive(Debug, PartialEq)]
pub enum Derived<F> {
    Once { start: Time, subformula: Box<Formula<F>> },
    Always { start: Time, end: Option<Time>, subformula: Box<Formula<F>> },
    Eventually { start: Time, end: Option<Time>, subformula: Box<Formula<F>> },
}

/// Why evaluation stopped without a value.
#[derive(Debug, PartialEq)]
pub enum EvalError<E> {
    /// Evaluating a thunk failed.
    Thunk(E),
    /// The evaluator has evaluated as many thunks as a 64-bit counter can
    /// count, and evaluates no more.
    BudgetExhausted,
}

/// Evaluates the thunks of formulas: calls `function` and returns the formula
/// that it gives (negated when `negated` is set) and the snapshots that it
/// read.
pub trait EvaluateThunk<F, E> {
    fn evaluate_thunk(&mut self, function: &F, negated: bool) -> Result<(Formula<F>, State), E>;
}

/// One call of a thunk and what it returned.
pub struct ThunkCall<F, E> {
    pub function: F,
    pub negated: bool,
    pub outcome: Result<(Formula<F>, State), E>,
}

// ---------------------------------------------------------------------------
// What each combination of values gives.

/// Whether a bound that ends at `end` has passed at `time`.
pub open spec fn expired(end: Option<Time>, time: Time) -> bool {
    match end {
        Some(e) => e.0 < time.0,
        None => false,
    }
}

/// The end of a bound that starts at `time`.
pub open spec fn bound_end(bound: Option<Duration>, time: Time) -> Option<Time> {
    match bound {
        Some(d) => Some(time_plus(time, d)),
        None => None,
    }
}

/// A constant: true, or false with its text as the failed condition.
pub open spec fn pure_value<F>(value: bool, pretty: String, time: Time) -> Value<F> {
    if value {
        Value::True(State::Empty)
    } else {
        Value::False(Violation::False { time, condition: pretty, state: State::Empty }, None)
    }
}

pub open spec fn residual_and<F>(left: Residual<F>, right: Residual<F>) -> Residual<F> {
    Residual::And { left: Box::new(left), right: Box::new(right) }
}

pub open spec fn residual_or<F>(left: Residual<F>, right: Residual<F>) -> Residual<F> {
    Residual::Or { left: Box::new(left), right: Box::new(right) }
}

/// Both residuals joined by `join`, or the one that is there.
pub open spec fn combined<F>(
    left: Option<Residual<F>>,
    right: Option<Residual<F>>,
    conjunction: bool,
) -> Option<Residual<F>> {
    match (left, right) {
        (Some(l), Some(r)) => Some(
            if conjunction {
                residual_and(l, r)
            } else {
                residual_or(l, r)
            },
        ),
        (Some(v), None) => Some(v),
        (None, Some(v)) => Some(v),
        (None, None) => None,
    }
}

/// The conjunction of two values.
pub open spec fn value_and<F>(left: Value<F>, right: Value<F>) -> Value<F> {
    match (left, right) {
        (Value::True(ls), Value::True(rs)) => Value::True(ls.merged(rs)),
        (Value::True(s), Value::Residual(r)) => Value::Residual(residual_and(Residual::True(s), r)),
        (Value::Residual(r), Value::True(s)) => Value::Residual(residual_and(r, Residual::True(s))),
        (Value::True(_), right) => right,
        (left, Value::True(_)) => left,
        (Value::False(vl, rl), Value::False(vr, rr)) => Value::False(
            Violation::And { left: Box::new(vl), right: Box::new(vr) },
            combined(rl, rr, true),
        ),
        (Value::Residual(r), Value::False(v, c)) => Value::False(
            v,
            Some(
                match c {
                    Some(c) => residual_and(r, c),
                    None => r,
                },
            ),
        ),
        (Value::False(v, c), Value::Residual(r)) => Value::False(
            v,
            Some(
                match c {
                    Some(c) => residual_and(r, c),
                    None => r,
                },
            ),
        ),
        (Value::Residual(l), Value::Residual(r)) => Value::Residual(residual_and(l, r)),
    }
}

/// The disjunction of two values.
pub open spec fn value_or<F>(left: Value<F>, right: Value<F>) -> Value<F> {
    match (left, right) {
        (Value::False(vl, rl), Value::False(vr, rr)) => Value::False(
            Violation::Or { left: Box::new(vl), right: Box::new(vr) },
            combined(rl, rr, false),
        ),
        (Value::True(ls), Value::True(rs)) => Value::True(ls.merged(rs)),
        (Value::True(s), _) => Value::True(s),
        (_, Value::True(s)) => Value::True(s),
        (left, Value::False(_, _)) => left,
        (Value::False(_, _), right) => right,
        (Value::Residual(l), Value::Residual(r)) => Value::Residual(residual_or(l, r)),
    }
}

/// The implication of two values; `left_formula` is the antecedent.
pub open spec fn value_implies<F>(left_formula: Formula<F>, left: Value<F>, right: Value<F>) -> Value<F> {
    match (left, right) {
        (Value::False(_, _), _) => Value::True(State::Empty),
        (Value::True(ls), Value::False(v, c)) => Value::False(
            Violation::Implies { left: left_formula, right: Box::new(v), state: ls },
            match c {
                Some(c) => Some(
                    Residual::Implies {
                        left_formula,
                        left: Box::new(Residual::True(ls)),
                        right: Box::new(c),
                    },
                ),
                None => None,
            },
        ),
        (Value::True(ls), Value::True(rs)) => Value::True(ls.merged(rs)),
        (Value::True(ls), Value::Residual(r)) => Value::Residual(
            Residual::Implies {
                left_formula,
                left: Box::new(Residual::True(ls)),
                right: Box::new(r),
            },
        ),
        (Value::Residual(_), Value::True(s)) => Value::True(s),
        (Value::Residual(l), Value::False(v, _)) => Value::Residual(
            Residual::Implies {
                left_formula,
                left: Box::new(l),
                right: Box::new(Residual::False(v)),
            },
        ),
        (Value::Residual(l), Value::Residual(r)) => Value::Residual(
            Residual::Implies { left_formula, left: Box::new(l), right: Box::new(r) },
        ),
    }
}

/// The residual of an `always` that goes on in the next state.
pub open spec fn always_residual<F>(subformula: Formula<F>, start: Time, end: Option<Time>) -> Residual<F> {
    Residual::Derived(
        Derived::Always { start, end, subformula: Box::new(subformula) },
        Leaning::AssumeTrue,
    )
}

pub open spec fn and_always<F>(
    subformula: Formula<F>,
    start: Time,
    end: Option<Time>,
    onset: Time,
    left: Residual<F>,
    right: Residual<F>,
) -> Residual<F> {
    Residual::AndAlways {
        subformula: Box::new(subformula),
        start,
        end,
        onset,
        left: Box::new(left),
        right: Box::new(right),
    }
}

/// An `always` at `time`, given the value of its subformula there.
pub open spec fn value_always<F>(
    subformula: Formula<F>,
    start: Time,
    end: Option<Time>,
    time: Time,
    inner: Value<F>,
) -> Value<F> {
    let residual = always_residual(subformula, start, end);
    match inner {
        Value::True(_) => Value::Residual(residual),
        Value::False(violation, continuation) => Value::False(
            Violation::Always {
                violation: Box::new(violation),
                subformula: Box::new(subformula),
                start,
                end,
                time,
            },
            Some(
                match continuation {
                    Some(c) => and_always(subformula, start, end, time, c, residual),
                    None => residual,
                },
            ),
        ),
        Value::Residual(r) => Value::Residual(and_always(subformula, start, end, time, r, residual)),
    }
}

/// The residual that a value still waits on, if any.
pub open spec fn pending<F>(value: Value<F>) -> Option<Residual<F>> {
    match value {
        Value::Residual(r) => Some(r),
        Value::False(_, Some(c)) => Some(c),
        _ => None,
    }
}

/// The violation under all the `always` wrappers around it.
pub open spec fn innermost<F>(v: Violation<F>) -> Violation<F>
    decreases v,
{
    match v {
        Violation::Always { violation, .. } => innermost(*violation),
        _ => v,
    }
}

/// The time of the innermost `always` wrapper, or `time` when there is none.
pub open spec fn innermost_time<F>(v: Violation<F>, time: Time) -> Time
    decreases v,
{
    match v {
        Violation::Always { violation, time: t, .. } => innermost_time(*violation, t),
        _ => time,
    }
}

/// The violation that an `always` reports when one of its parts failed: the
/// innermost one of the left part, at the onset, or else that of the right
/// part, at the time of its innermost `always`.
pub open spec fn always_violation<F>(left: Value<F>, right: Value<F>, onset: Time, time: Time) -> (Violation<F>, Time) {
    match left {
        Value::False(v, _) => (innermost(v), onset),
        _ => match right {
            Value::False(v, _) => (innermost(v), innermost_time(v, time)),
            _ => (vstd::pervasive::arbitrary(), time),
        },
    }
}

/// An `always` that goes on from an earlier state: `left` is the value of
/// what was pending of its subformula, `right` that of the `always` itself.
pub open spec fn value_and_always<F>(
    subformula: Formula<F>,
    start: Time,
    end: Option<Time>,
    onset: Time,
    time: Time,
    left: Value<F>,
    right: Value<F>,
) -> Value<F> {
    if expired(end, time) {
        Value::True(State::Empty)
    } else {
        match (left, right) {
            (Value::True(_), Value::True(_)) => Value::True(State::Empty),
            (Value::Residual(l), Value::True(_)) => Value::Residual(
                and_always(subformula, start, end, onset, l, Residual::True(State::Empty)),
            ),
            (Value::True(_), Value::Residual(r)) => Value::Residual(r),
            (Value::Residual(l), Value::Residual(r)) => Value::Residual(
                and_always(subformula, start, end, onset, l, r),
            ),
            (left, right) => {
                let residual = always_residual(subformula, start, end);
                let continuation = match combined(pending(left), pending(right), true) {
                    Some(inner) => and_always(subformula, start, end, onset, inner, residual),
                    None => residual,
                };
                let (violation, violation_time) = always_violation(left, right, onset, time);
                Value::False(
                    Violation::Always {
                        violation: Box::new(violation),
                        subformula: Box::new(subformula),
                        start,
                        end,
                        time: violation_time,
                    },
                    Some(continuation),
                )
            },
        }
    }
}

/// The residual of an `eventually` that goes on in the next state.
pub open spec fn eventually_residual<F>(subformula: Formula<F>, start: Time, end: Option<Time>) -> Residual<F> {
    Residual::Derived(
        Derived::Eventually { start, end, subformula: Box::new(subformula) },
        Leaning::AssumeFalse(
            Violation::Eventually { subformula: Box::new(subformula), reason: EventuallyViolation::TestEnded },
        ),
    )
}

/// An `eventually` whose bound has passed at `time`.
pub open spec fn timed_out<F>(subformula: Formula<F>, time: Time) -> Value<F> {
    Value::False(
        Violation::Eventually {
            subformula: Box::new(subformula),
            reason: EventuallyViolation::TimedOut(time),
        },
        None,
    )
}

/// An `eventually` at `time`, given the value of its subformula there.
pub open spec fn value_eventually<F>(
    subformula: Formula<F>,
    start: Time,
    end: Option<Time>,
    inner: Value<F>,
) -> Value<F> {
    match inner {
        Value::True(s) => Value::True(s),
        Value::False(_, _) => Value::Residual(eventually_residual(subformula, start, end)),
        Value::Residual(left) => Value::Residual(
            Residual::OrEventually {
                subformula: Box::new(subformula),
                start,
                end,
                left: Box::new(left),
                right: Box::new(eventually_residual(subformula, start, end)),
            },
        ),
    }
}

/// An `eventually` that goes on from an earlier state: `left` is the value
/// of what was pending of its subformula, `right` that of the `eventually`
/// itself.
pub open spec fn value_or_eventually<F>(
    subformula: Formula<F>,
    start: Time,
    end: Option<Time>,
    time: Time,
    left: Value<F>,
    right: Value<F>,
) -> Value<F> {
    if expired(end, time) {
        timed_out(subformula, time)
    } else {
        match (left, right) {
            (Value::True(s), _) => Value::True(s),
            (_, Value::True(s)) => Value::True(s),
            (Value::False(_, _), Value::False(r, _)) => Value::False(r, None),
            (Value::False(_, _), Value::Residual(r)) => Value::Residual(r),
            (Value::Residual(r), Value::False(_, _)) => Value::Residual(r),
            (Value::Residual(l), Value::Residual(r)) => Value::Residual(
                Residual::OrEventually {
                    subformula: Box::new(subformula),
                    start,
                    end,
                    left: Box::new(l),
                    right: Box::new(r),
                },
            ),
        }
    }
}

// ---------------------------------------------------------------------------
// The snapshots that a thunk read, added to everything that its formula gave.

pub open spec fn attach_violation<F>(v: Violation<F>, s: State) -> Violation<F>
    decreases v,
{
    match v {
        Violation::False { time, condition, state } => Violation::False {
            time,
            condition,
            state: state.merged(s),
        },
        Violation::Implies { left, right, state } => Violation::Implies {
            left,
            right: Box::new(attach_violation(*right, s)),
            state: state.merged(s),
        },
        Violation::And { left, right } => Violation::And {
            left: Box::new(attach_violation(*left, s)),
            right: Box::new(attach_violation(*right, s)),
        },
        Violation::Or { left, right } => Violation::Or {
            left: Box::new(attach_violation(*left, s)),
            right: Box::new(attach_violation(*right, s)),
        },
        Violation::Always { violation, subformula, start, end, time } => Violation::Always {
            violation: Box::new(attach_violation(*violation, s)),
            subformula,
            start,
            end,
            time,
        },
        Violation::Eventually { subformula, reason } => Violation::Eventually { subformula, reason },
    }
}

pub open spec fn attach_residual<F>(r: Residual<F>, s: State) -> Residual<F>
    decreases r,
{
    match r {
        Residual::True(state) => Residual::True(state.merged(s)),
        Residual::False(v) => Residual::False(attach_violation(v, s)),
        Residual::And { left, right } => Residual::And {
            left: Box::new(attach_residual(*left, s)),
            right: Box::new(attach_residual(*right, s)),
        },
        Residual::Or { left, right } => Residual::Or {
            left: Box::new(attach_residual(*left, s)),
            right: Box::new(attach_residual(*right, s)),
        },
        Residual::Implies { left_formula, left, right } => Residual::Implies {
            left_formula,
            left: Box::new(attach_residual(*left, s)),
            right: Box::new(attach_residual(*right, s)),
        },
        Residual::OrEventually { subformula, start, end, left, right } => Residual::OrEventually {
            subformula,
            start,
            end,
            left: Box::new(attach_residual(*left, s)),
            right: Box::new(attach_residual(*right, s)),
        },
        Residual::AndAlways { subformula, start, end, onset, left, right } => Residual::AndAlways {
            subformula,
            start,
            end,
            onset,
            left: Box::new(attach_residual(*left, s)),
            right: Box::new(attach_residual(*right, s)),
        },
        Residual::Derived(d, l) => Residual::Derived(d, l),
    }
}

/// A value with the snapshots `s` added to its state: to that of a true
/// value, to those of a violation (not to its continuation), to those of a
/// residual.
pub open spec fn attach_value<F>(value: Value<F>, s: State) -> Value<F> {
    if s == State::Empty {
        value
    } else {
        match value {
            Value::True(state) => Value::True(state.merged(s)),
            Value::False(v, c) => Value::False(attach_violation(v, s), c),
            Value::Residual(r) => Value::Residual(attach_residual(r, s)),
        }
    }
}


// ---------------------------------------------------------------------------
// What evaluation gives, as a function of the thunk calls that it makes.

/// The result of evaluating a piece of a formula, with the number of thunk
/// calls that it consumed; `None` when the calls given do not fit.
pub type Outcome<F, E> = Option<(Result<Value<F>, EvalError<E>>, nat)>;

/// How two values are joined.
pub enum Join<F> {
    And,
    Or,
    Implies(Formula<F>),
    OrEventually(Formula<F>, Time, Option<Time>, Time),
    AndAlways(Formula<F>, Time, Option<Time>, Time, Time),
}

pub open spec fn join_values<F>(join: Join<F>, left: Value<F>, right: Value<F>) -> Value<F> {
    match join {
        Join::And => value_and(left, right),
        Join::Or => value_or(left, right),
        Join::Implies(f) => value_implies(f, left, right),
        Join::OrEventually(sub, start, end, time) => value_or_eventually(sub, start, end, time, left, right),
        Join::AndAlways(sub, start, end, onset, time) => value_and_always(sub, start, end, onset, time, left, right),
    }
}

pub open spec fn consumed<F, E>(out: Outcome<F, E>) -> nat {
    match out {
        Some((_, k)) => k,
        None => 0,
    }
}

/// Whether the right part of a join can be evaluated after the left part.
pub open spec fn fits<F, E>(left: Outcome<F, E>, budget: nat, calls_len: nat) -> bool {
    consumed(left) <= budget && consumed(left) <= calls_len
}

/// Evaluating the left part, and the right part after it unless the left part
/// failed, and joining their values.
pub open spec fn join_outcomes<F, E>(join: Join<F>, left: Outcome<F, E>, right: Outcome<F, E>) -> Outcome<F, E> {
    match left {
        None => None,
        Some((Err(e), k)) => Some((Err(e), k)),
        Some((Ok(lv), k)) => match right {
            None => None,
            Some((Err(e), k2)) => Some((Err(e), k + k2)),
            Some((Ok(rv), k2)) => Some((Ok(join_values(join, lv, rv)), k + k2)),
        },
    }
}

pub open spec fn attach_outcome<F, E>(out: Outcome<F, E>, s: State) -> Outcome<F, E> {
    match out {
        Some((Ok(v), k)) => Some((Ok(attach_value(v, s)), k)),
        other => other,
    }
}

/// An `always` over `[start, end]` at `time`, given the outcome of its
/// subformula there.
pub open spec fn always_from<F, E>(
    subformula: Formula<F>,
    start: Time,
    end: Option<Time>,
    time: Time,
    inner: Outcome<F, E>,
) -> Outcome<F, E> {
    if expired(end, time) {
        Some((Ok(Value::True(State::Empty)), 0))
    } else {
        match inner {
            Some((Ok(v), k)) => Some((Ok(value_always(subformula, start, end, time, v)), k)),
            other => other,
        }
    }
}

/// An `eventually` over `[start, end]` at `time`, given the outcome of its
/// subformula there.
pub open spec fn eventually_from<F, E>(
    subformula: Formula<F>,
    start: Time,
    end: Option<Time>,
    time: Time,
    inner: Outcome<F, E>,
) -> Outcome<F, E> {
    if expired(end, time) {
        Some((Ok(timed_out(subformula, time)), 0))
    } else {
        match inner {
            Some((Ok(v), k)) => Some((Ok(value_eventually(subformula, start, end, v)), k)),
            other => other,
        }
    }
}

/// Evaluating `formula` at `time`, with `budget` thunk calls left, when the
/// thunk calls that it makes return what `calls` lists, in that order.
pub open spec fn eval_spec<F, E>(formula: Formula<F>, time: Time, budget: nat, calls: Seq<ThunkCall<F, E>>) -> Outcome<F, E>
    decreases budget, formula,
{
    match formula {
        Formula::Pure { value, pretty } => Some((Ok(pure_value(value, pretty, time)), 0)),
        Formula::Thunk { function, negated } => {
            if budget == 0 {
                Some((Err(EvalError::BudgetExhausted), 0))
            } else if calls.len() == 0 || calls[0].function != function || calls[0].negated != negated {
                None
            } else {
                match calls[0].outcome {
                    Err(e) => Some((Err(EvalError::Thunk(e)), 1)),
                    Ok((returned, state)) => match eval_spec(returned, time, (budget - 1) as nat, calls.skip(1)) {
                        Some((r, k)) => attach_outcome(Some((r, k + 1)), state),
                        None => None,
                    },
                }
            }
        },
        Formula::And(l, r) => {
            let lo = eval_spec(*l, time, budget, calls);
            let ro = if fits(lo, budget, calls.len()) {
                eval_spec(*r, time, (budget - consumed(lo)) as nat, calls.skip(consumed(lo) as int))
            } else {
                None
            };
            join_outcomes(Join::And, lo, ro)
        },
        Formula::Or(l, r) => {
            let lo = eval_spec(*l, time, budget, calls);
            let ro = if fits(lo, budget, calls.len()) {
                eval_spec(*r, time, (budget - consumed(lo)) as nat, calls.skip(consumed(lo) as int))
            } else {
                None
            };
            join_outcomes(Join::Or, lo, ro)
        },
        Formula::Implies(l, r) => {
            let lo = eval_spec(*l, time, budget, calls);
            let ro = if fits(lo, budget, calls.len()) {
                eval_spec(*r, time, (budget - consumed(lo)) as nat, calls.skip(consumed(lo) as int))
            } else {
                None
            };
            join_outcomes(Join::Implies(*l), lo, ro)
        },
        Formula::Next(sub) => Some((
            Ok(Value::Residual(Residual::Derived(Derived::Once { start: time, subformula: sub }, Leaning::AssumeTrue))),
            0,
        )),
        Formula::Always(sub, bound) => always_from(
            *sub,
            time,
            bound_end(bound, time),
            time,
            eval_spec(*sub, time, budget, calls),
        ),
        Formula::Eventually(sub, bound) => eventually_from(
            *sub,
            time,
            bound_end(bound, time),
            time,
            eval_spec(*sub, time, budget, calls),
        ),
    }
}

/// Stepping `residual` to `time`, with `budget` thunk calls left, when the
/// thunk calls that it makes return what `calls` lists, in that order.
pub open spec fn step_spec<F, E>(residual: Residual<F>, time: Time, budget: nat, calls: Seq<ThunkCall<F, E>>) -> Outcome<F, E>
    decreases residual,
{
    match residual {
        Residual::True(s) => Some((Ok(Value::True(s)), 0)),
        Residual::False(v) => Some((Ok(Value::False(v, None)), 0)),
        Residual::And { left, right } => {
            let lo = step_spec(*left, time, budget, calls);
            let ro = if fits(lo, budget, calls.len()) {
                step_spec(*right, time, (budget - consumed(lo)) as nat, calls.skip(consumed(lo) as int))
            } else {
                None
            };
            join_outcomes(Join::And, lo, ro)
        },
        Residual::Or { left, right } => {
            let lo = step_spec(*left, time, budget, calls);
            let ro = if fits(lo, budget, calls.len()) {
                step_spec(*right, time, (budget - consumed(lo)) as nat, calls.skip(consumed(lo) as int))
            } else {
                None
            };
            join_outcomes(Join::Or, lo, ro)
        },
        Residual::Implies { left_formula, left, right } => {
            let lo = step_spec(*left, time, budget, calls);
            let ro = if fits(lo, budget, calls.len()) {
                step_spec(*right, time, (budget - consumed(lo)) as nat, calls.skip(consumed(lo) as int))
            } else {
                None
            };
            join_outcomes(Join::Implies(left_formula), lo, ro)
        },
        Residual::Derived(derived, _) => match derived {
            Derived::Once { subformula, .. } => eval_spec(*subformula, time, budget, calls),
            Derived::Always { start, end, subformula } => always_from(
                *subformula,
                start,
                end,
                time,
                eval_spec(*subformula, time, budget, calls),
            ),
            Derived::Eventually { start, end, subformula } => eventually_from(
                *subformula,
                start,
                end,
                time,
                eval_spec(*subformula, time, budget, calls),
            ),
        },
        Residual::OrEventually { subformula, start, end, left, right } => {
            let lo = step_spec(*left, time, budget, calls);
            let ro = if fits(lo, budget, calls.len()) {
                step_spec(*right, time, (budget - consumed(lo)) as nat, calls.skip(consumed(lo) as int))
            } else {
                None
            };
            join_outcomes(Join::OrEventually(*subformula, start, end, time), lo, ro)
        },
        Residual::AndAlways { subformula, start, end, onset, left, right } => {
            let lo = step_spec(*left, time, budget, calls);
            let ro = if fits(lo, budget, calls.len()) {
                step_spec(*right, time, (budget - consumed(lo)) as nat, calls.skip(consumed(lo) as int))
            } else {
                None
            };
            join_outcomes(Join::AndAlways(*subformula, start, end, onset, time), lo, ro)
        },
    }
}

/// Appending calls after those that an evaluation consumes does not change
/// the evaluation, and an evaluation never consumes more calls than it is
/// given, nor more than its budget.
pub proof fn lemma_eval_prefix<F, E>(
    formula: Formula<F>,
    time: Time,
    budget: nat,
    calls: Seq<ThunkCall<F, E>>,
    extra: Seq<ThunkCall<F, E>>,
)
    requires
        eval_spec(formula, time, budget, calls) is Some,
    ensures
        eval_spec(formula, time, budget, calls + extra) == eval_spec(formula, time, budget, calls),
        consumed(eval_spec(formula, time, budget, calls)) <= calls.len(),
        consumed(eval_spec(formula, time, budget, calls)) <= budget,
    decreases budget, formula,
{
    let all = calls + extra;
    match formula {
        Formula::Pure { .. } => {},
        Formula::Thunk { function, negated } => {
            if budget > 0 {
                assert(all[0] == calls[0]);
                match calls[0].outcome {
                    Err(_) => {},
                    Ok((returned, state)) => {
                        assert(all.skip(1) =~= calls.skip(1) + extra);
                        lemma_eval_prefix(returned, time, (budget - 1) as nat, calls.skip(1), extra);
                    },
                }
            }
        },
        Formula::And(l, r) => {
            lemma_eval_prefix(*l, time, budget, calls, extra);
            let lo = eval_spec(*l, time, budget, calls);
            let k = consumed(lo);
            if lo matches Some((Ok(_), _)) {
                assert(all.skip(k as int) =~= calls.skip(k as int) + extra);
                lemma_eval_prefix(*r, time, (budget - k) as nat, calls.skip(k as int), extra);
            }
        },
        Formula::Or(l, r) => {
            lemma_eval_prefix(*l, time, budget, calls, extra);
            let lo = eval_spec(*l, time, budget, calls);
            let k = consumed(lo);
            if lo matches Some((Ok(_), _)) {
                assert(all.skip(k as int) =~= calls.skip(k as int) + extra);
                lemma_eval_prefix(*r, time, (budget - k) as nat, calls.skip(k as int), extra);
            }
        },
        Formula::Implies(l, r) => {
            lemma_eval_prefix(*l, time, budget, calls, extra);
            let lo = eval_spec(*l, time, budget, calls);
            let k = consumed(lo);
            if lo matches Some((Ok(_), _)) {
                assert(all.skip(k as int) =~= calls.skip(k as int) + extra);
                lemma_eval_prefix(*r, time, (budget - k) as nat, calls.skip(k as int), extra);
            }
        },
        Formula::Next(_) => {},
        Formula::Always(sub, bound) => {
            if !expired(bound_end(bound, time), time) {
                lemma_eval_prefix(*sub, time, budget, calls, extra);
            }
        },
        Formula::Eventually(sub, bound) => {
            if !expired(bound_end(bound, time), time) {
                lemma_eval_prefix(*sub, time, budget, calls, extra);
            }
        },
    }
}

/// The same for stepping a residual.
#[verifier::spinoff_prover]
#[verifier::rlimit(60)]
pub proof fn lemma_step_prefix<F, E>(
    residual: Residual<F>,
    time: Time,
    budget: nat,
    calls: Seq<ThunkCall<F, E>>,
    extra: Seq<ThunkCall<F, E>>,
)
    requires
        step_spec(residual, time, budget, calls) is Some,
    ensures
        step_spec(residual, time, budget, calls + extra) == step_spec(residual, time, budget, calls),
        consumed(step_spec(residual, time, budget, calls)) <= calls.len(),
        consumed(step_spec(residual, time, budget, calls)) <= budget,
    decreases residual,
{
    let all = calls + extra;
    match residual {
        Residual::True(_) => {},
        Residual::False(_) => {},
        Residual::Derived(derived, _) => match derived {
            Derived::Once { subformula, .. } => {
                lemma_eval_prefix(*subformula, time, budget, calls, extra);
            },
            Derived::Always { start, end, subformula } => {
                if !expired(end, time) {
                    lemma_eval_prefix(*subformula, time, budget, calls, extra);
                }
            },
            Derived::Eventually { start, end, subformula } => {
                if !expired(end, time) {
                    lemma_eval_prefix(*subformula, time, budget, calls, extra);
                }
            },
        },
        Residual::And { left, right } => {
            lemma_step_prefix(*left, time, budget, calls, extra);
            let lo = step_spec(*left, time, budget, calls);
            let k = consumed(lo);
            if lo matches Some((Ok(_), _)) {
                assert(all.skip(k as int) =~= calls.skip(k as int) + extra);
                lemma_step_prefix(*right, time, (budget - k) as nat, calls.skip(k as int), extra);
            }
        },
        Residual::Or { left, right } => {
            lemma_step_prefix(*left, time, budget, calls, extra);
            let lo = step_spec(*left, time, budget, calls);
            let k = consumed(lo);
            if lo matches Some((Ok(_), _)) {
                assert(all.skip(k as int) =~= calls.skip(k as int) + extra);
                lemma_step_prefix(*right, time, (budget - k) as nat, calls.skip(k as int), extra);
            }
        },
        Residual::Implies { left, right, .. } => {
            lemma_step_prefix(*left, time, budget, calls, extra);
            let lo = step_spec(*left, time, budget, calls);
            let k = consumed(lo);
            if lo matches Some((Ok(_), _)) {
                assert(all.skip(k as int) =~= calls.skip(k as int) + extra);
                lemma_step_prefix(*right, time, (budget - k) as nat, calls.skip(k as int), extra);
            }
        },
        Residual::OrEventually { left, right, .. } => {
            lemma_step_prefix(*left, time, budget, calls, extra);
            let lo = step_spec(*left, time, budget, calls);
            let k = consumed(lo);
            if lo matches Some((Ok(_), _)) {
                assert(all.skip(k as int) =~= calls.skip(k as int) + extra);
                lemma_step_prefix(*right, time, (budget - k) as nat, calls.skip(k as int), extra);
            }
        },
        Residual::AndAlways { left, right, .. } => {
            lemma_step_prefix(*left, time, budget, calls, extra);
            let lo = step_spec(*left, time, budget, calls);
            let k = consumed(lo);
            if lo matches Some((Ok(_), _)) {
                assert(all.skip(k as int) =~= calls.skip(k as int) + extra);
                lemma_step_prefix(*right, time, (budget - k) as nat, calls.skip(k as int), extra);
            }
        },
    }
}


// ---------------------------------------------------------------------------
// Copies.

impl<F: Copy> Leaning<F> {
    /// An equal copy.
    pub fn duplicate(&self) -> (r: Leaning<F>)
        ensures
            r == *self,
    {
        match self {
            Leaning::AssumeTrue => Leaning::AssumeTrue,
            Leaning::AssumeFalse(v) => Leaning::AssumeFalse(v.duplicate()),
        }
    }
}

impl<F: Copy> Derived<F> {
    /// An equal copy.
    pub fn duplicate(&self) -> (r: Derived<F>)
        ensures
            r == *self,
    {
        match self {
            Derived::Once { start, subformula } => Derived::Once {
                start: *start,
                subformula: Box::new(subformula.duplicate()),
            },
            Derived::Always { start, end, subformula } => Derived::Always {
                start: *start,
                end: *end,
                subformula: Box::new(subformula.duplicate()),
            },
            Derived::Eventually { start, end, subformula } => Derived::Eventually {
                start: *start,
                end: *end,
                subformula: Box::new(subformula.duplicate()),
            },
        }
    }
}

impl<F: Copy> Residual<F> {
    /// An equal copy.
    pub fn duplicate(&self) -> (r: Residual<F>)
        ensures
            r == *self,
        decreases self,
    {
        match self {
            Residual::True(s) => Residual::True(s.duplicate()),
            Residual::False(v) => Residual::False(v.duplicate()),
            Residual::Derived(d, l) => Residual::Derived(d.duplicate(), l.duplicate()),
            Residual::And { left, right } => Residual::And {
                left: Box::new(left.duplicate()),
                right: Box::new(right.duplicate()),
            },
            Residual::Or { left, right } => Residual::Or {
                left: Box::new(left.duplicate()),
                right: Box::new(right.duplicate()),
            },
            Residual::Implies { left_formula, left, right } => Residual::Implies {
                left_formula: left_formula.duplicate(),
                left: Box::new(left.duplicate()),
                right: Box::new(right.duplicate()),
            },
            Residual::OrEventually { subformula, start, end, left, right } => Residual::OrEventually {
                subformula: Box::new(subformula.duplicate()),
                start: *start,
                end: *end,
                left: Box::new(left.duplicate()),
                right: Box::new(right.duplicate()),
            },
            Residual::AndAlways { subformula, start, end, onset, left, right } => Residual::AndAlways {
                subformula: Box::new(subformula.duplicate()),
                start: *start,
                end: *end,
                onset: *onset,
                left: Box::new(left.duplicate()),
                right: Box::new(right.duplicate()),
            },
        }
    }
}

impl<F: Copy> Value<F> {
    /// An equal copy.
    pub fn duplicate(&self) -> (r: Value<F>)
        ensures
            r == *self,
    {
        match self {
            Value::True(s) => Value::True(s.duplicate()),
            Value::False(v, c) => Value::False(
                v.duplicate(),
                match c {
                    Some(c) => Some(c.duplicate()),
                    None => None,
                },
            ),
            Value::Residual(r) => Value::Residual(r.duplicate()),
        }
    }
}

impl<F: Copy> Clone for Value<F> {
    fn clone(&self) -> (r: Value<F>)
        ensures
            r == *self,
    {
        self.duplicate()
    }
}

impl<F: Copy> Clone for Residual<F> {
    fn clone(&self) -> (r: Residual<F>)
        ensures
            r == *self,
    {
        self.duplicate()
    }
}

impl<F: Copy> Clone for Leaning<F> {
    fn clone(&self) -> (r: Leaning<F>)
        ensures
            r == *self,
    {
        self.duplicate()
    }
}

impl<F: Copy> Clone for Derived<F> {
    fn clone(&self) -> (r: Derived<F>)
        ensures
            r == *self,
    {
        self.duplicate()
    }
}

/// Joins two optional values with `combine` when both are there, or gives the
/// one that is there.
pub fn combine_options<T, C: Fn(T, T) -> T>(left: Option<T>, right: Option<T>, combine: C) -> (r: Option<T>)
    requires
        forall|a: T, b: T| combine.requires((a, b)),
    ensures
        match (left, right) {
            (Some(a), Some(b)) => r is Some && combine.ensures((a, b), r->0),
            (Some(a), None) => r == Some(a),
            (None, Some(b)) => r == Some(b),
            (None, None) => r is None,
        },
{
    match (left, right) {
        (Some(left), Some(right)) => Some(combine(left, right)),
        (Some(value), None) => Some(value),
        (None, Some(value)) => Some(value),
        (None, None) => None,
    }
}

fn join_and<F>(left: Option<Residual<F>>, right: Option<Residual<F>>) -> (r: Option<Residual<F>>)
    ensures
        r == combined(left, right, true),
{
    let combine = |l: Residual<F>, r: Residual<F>| -> (c: Residual<F>)
        ensures
            c == residual_and(l, r),
    {
        let joined = Residual::And { left: Box::new(l), right: Box::new(r) };
        joined
    };
    combine_options(left, right, combine)
}

fn join_or<F>(left: Option<Residual<F>>, right: Option<Residual<F>>) -> (r: Option<Residual<F>>)
    ensures
        r == combined(left, right, false),
{
    let combine = |l: Residual<F>, r: Residual<F>| -> (c: Residual<F>)
        ensures
            c == residual_or(l, r),
    {
        let joined = Residual::Or { left: Box::new(l), right: Box::new(r) };
        joined
    };
    combine_options(left, right, combine)
}


// ---------------------------------------------------------------------------
// The combinations, executed.

fn evaluate_and<F>(left: Value<F>, right: Value<F>) -> (r: Value<F>)
    ensures
        r == value_and(left, right),
{
    match (left, right) {
        (Value::True(ls), Value::True(rs)) => Value::True(ls.merge(&rs)),
        (Value::True(s), Value::Residual(r)) => Value::Residual(
            Residual::And { left: Box::new(Residual::True(s)), right: Box::new(r) },
        ),
        (Value::Residual(r), Value::True(s)) => Value::Residual(
            Residual::And { left: Box::new(r), right: Box::new(Residual::True(s)) },
        ),
        (Value::True(_), right) => right,
        (left, Value::True(_)) => left,
        (Value::False(vl, rl), Value::False(vr, rr)) => Value::False(
            Violation::And { left: Box::new(vl), right: Box::new(vr) },
            join_and(rl, rr),
        ),
        (Value::Residual(r), Value::False(v, c)) => {
            let continuation = match c {
                Some(c) => Residual::And { left: Box::new(r), right: Box::new(c) },
                None => r,
            };
            Value::False(v, Some(continuation))
        },
        (Value::False(v, c), Value::Residual(r)) => {
            let continuation = match c {
                Some(c) => Residual::And { left: Box::new(r), right: Box::new(c) },
                None => r,
            };
            Value::False(v, Some(continuation))
        },
        (Value::Residual(l), Value::Residual(r)) => Value::Residual(
            Residual::And { left: Box::new(l), right: Box::new(r) },
        ),
    }
}

fn evaluate_or<F>(left: Value<F>, right: Value<F>) -> (r: Value<F>)
    ensures
        r == value_or(left, right),
{
    match (left, right) {
        (Value::False(vl, rl), Value::False(vr, rr)) => Value::False(
            Violation::Or { left: Box::new(vl), right: Box::new(vr) },
            join_or(rl, rr),
        ),
        (Value::True(ls), Value::True(rs)) => Value::True(ls.merge(&rs)),
        (Value::True(s), _) => Value::True(s),
        (_, Value::True(s)) => Value::True(s),
        (left, Value::False(_, _)) => left,
        (Value::False(_, _), right) => right,
        (Value::Residual(l), Value::Residual(r)) => Value::Residual(
            Residual::Or { left: Box::new(l), right: Box::new(r) },
        ),
    }
}

fn evaluate_implies<F: Copy>(left_formula: &Formula<F>, left: Value<F>, right: Value<F>) -> (r: Value<F>)
    ensures
        r == value_implies(*left_formula, left, right),
{
    match (left, right) {
        (Value::False(_, _), _) => Value::True(State::new()),
        (Value::True(ls), Value::False(v, c)) => {
            let continuation = match c {
                Some(c) => Some(
                    Residual::Implies {
                        left_formula: left_formula.duplicate(),
                        left: Box::new(Residual::True(ls.duplicate())),
                        right: Box::new(c),
                    },
                ),
                None => None,
            };
            Value::False(
                Violation::Implies { left: left_formula.duplicate(), right: Box::new(v), state: ls },
                continuation,
            )
        },
        (Value::True(ls), Value::True(rs)) => Value::True(ls.merge(&rs)),
        (Value::True(ls), Value::Residual(r)) => Value::Residual(
            Residual::Implies {
                left_formula: left_formula.duplicate(),
                left: Box::new(Residual::True(ls)),
                right: Box::new(r),
            },
        ),
        (Value::Residual(_), Value::True(s)) => Value::True(s),
        (Value::Residual(l), Value::False(v, _)) => Value::Residual(
            Residual::Implies {
                left_formula: left_formula.duplicate(),
                left: Box::new(l),
                right: Box::new(Residual::False(v)),
            },
        ),
        (Value::Residual(l), Value::Residual(r)) => Value::Residual(
            Residual::Implies {
                left_formula: left_formula.duplicate(),
                left: Box::new(l),
                right: Box::new(r),
            },
        ),
    }
}

fn make_always_residual<F: Copy>(subformula: &Formula<F>, start: Time, end: Option<Time>) -> (r: Residual<F>)
    ensures
        r == always_residual(*subformula, start, end),
{
    Residual::Derived(
        Derived::Always { start, end, subformula: Box::new(subformula.duplicate()) },
        Leaning::AssumeTrue,
    )
}

fn make_and_always<F: Copy>(
    subformula: &Formula<F>,
    start: Time,
    end: Option<Time>,
    onset: Time,
    left: Residual<F>,
    right: Residual<F>,
) -> (r: Residual<F>)
    ensures
        r == and_always(*subformula, start, end, onset, left, right),
{
    Residual::AndAlways {
        subformula: Box::new(subformula.duplicate()),
        start,
        end,
        onset,
        left: Box::new(left),
        right: Box::new(right),
    }
}

/// The `always` at `time`, once the value of its subformula is known.
fn always_after<F: Copy>(
    subformula: &Formula<F>,
    start: Time,
    end: Option<Time>,
    time: Time,
    inner: Value<F>,
) -> (r: Value<F>)
    ensures
        r == value_always(*subformula, start, end, time, inner),
{
    let residual = make_always_residual(subformula, start, end);
    match inner {
        Value::True(_) => Value::Residual(residual),
        Value::False(violation, continuation) => {
            let continuation = match continuation {
                Some(inner) => make_and_always(subformula, start, end, time, inner, residual),
                None => residual,
            };
            Value::False(
                Violation::Always {
                    violation: Box::new(violation),
                    subformula: Box::new(subformula.duplicate()),
                    start,
                    end,
                    time,
                },
                Some(continuation),
            )
        },
        Value::Residual(inner) => Value::Residual(make_and_always(subformula, start, end, time, inner, residual)),
    }
}

fn pending_residual<F: Copy>(value: &Value<F>) -> (r: Option<Residual<F>>)
    ensures
        r == pending(*value),
{
    match value {
        Value::Residual(residual) => Some(residual.duplicate()),
        Value::False(_, Some(continuation)) => Some(continuation.duplicate()),
        _ => None,
    }
}

fn innermost_violation<F: Copy>(v: &Violation<F>) -> (r: Violation<F>)
    ensures
        r == innermost(*v),
    decreases v,
{
    match v {
        Violation::Always { violation, .. } => innermost_violation(violation),
        _ => v.duplicate(),
    }
}

fn innermost_violation_time<F>(v: &Violation<F>, time: Time) -> (r: Time)
    ensures
        r == innermost_time(*v, time),
    decreases v,
{
    match v {
        Violation::Always { violation, time: t, .. } => innermost_violation_time(violation, *t),
        _ => time,
    }
}

fn is_expired(end: Option<Time>, time: Time) -> (r: bool)
    ensures
        r == expired(end, time),
{
    match end {
        Some(end) => end.0 < time.0,
        None => false,
    }
}

fn evaluate_and_always<F: Copy>(
    subformula: &Formula<F>,
    start: Time,
    end: Option<Time>,
    onset: Time,
    time: Time,
    left: Value<F>,
    right: Value<F>,
) -> (r: Value<F>)
    ensures
        r == value_and_always(*subformula, start, end, onset, time, left, right),
{
    if is_expired(end, time) {
        return Value::True(State::new());
    }
    match (left, right) {
        (Value::True(_), Value::True(_)) => Value::True(State::new()),
        (Value::Residual(l), Value::True(_)) => Value::Residual(
            make_and_always(subformula, start, end, onset, l, Residual::True(State::new())),
        ),
        (Value::True(_), Value::Residual(r)) => Value::Residual(r),
        (Value::Residual(l), Value::Residual(r)) => Value::Residual(
            make_and_always(subformula, start, end, onset, l, r),
        ),
        (left, right) => {
            let residual = make_always_residual(subformula, start, end);
            let inner = join_and(pending_residual(&left), pending_residual(&right));
            let continuation = match inner {
                Some(inner) => make_and_always(subformula, start, end, onset, inner, residual),
                None => residual,
            };
            let (violation, violation_time) = match &left {
                Value::False(v, _) => (innermost_violation(v), onset),
                _ => match &right {
                    Value::False(v, _) => (innermost_violation(v), innermost_violation_time(v, time)),
                    _ => vstd::pervasive::unreached(),
                },
            };
            Value::False(
                Violation::Always {
                    violation: Box::new(violation),
                    subformula: Box::new(subformula.duplicate()),
                    start,
                    end,
                    time: violation_time,
                },
                Some(continuation),
            )
        },
    }
}

fn make_eventually_residual<F: Copy>(subformula: &Formula<F>, start: Time, end: Option<Time>) -> (r: Residual<F>)
    ensures
        r == eventually_residual(*subformula, start, end),
{
    Residual::Derived(
        Derived::Eventually { start, end, subformula: Box::new(subformula.duplicate()) },
        Leaning::AssumeFalse(
            Violation::Eventually {
                subformula: Box::new(subformula.duplicate()),
                reason: EventuallyViolation::TestEnded,
            },
        ),
    )
}

fn make_timed_out<F: Copy>(subformula: &Formula<F>, time: Time) -> (r: Value<F>)
    ensures
        r == timed_out(*subformula, time),
{
    Value::False(
        Violation::Eventually {
            subformula: Box::new(subformula.duplicate()),
            reason: EventuallyViolation::TimedOut(time),
        },
        None,
    )
}

/// The `eventually` at `time`, once the value of its subformula is known.
fn eventually_after<F: Copy>(subformula: &Formula<F>, start: Time, end: Option<Time>, inner: Value<F>) -> (r: Value<F>)
    ensures
        r == value_eventually(*subformula, start, end, inner),
{
    let residual = make_eventually_residual(subformula, start, end);
    match inner {
        Value::True(state) => Value::True(state),
        Value::False(_, _) => Value::Residual(residual),
        Value::Residual(left) => Value::Residual(
            Residual::OrEventually {
                subformula: Box::new(subformula.duplicate()),
                start,
                end,
                left: Box::new(left),
                right: Box::new(residual),
            },
        ),
    }
}

fn evaluate_or_eventually<F: Copy>(
    subformula: &Formula<F>,
    start: Time,
    end: Option<Time>,
    time: Time,
    left: Value<F>,
    right: Value<F>,
) -> (r: Value<F>)
    ensures
        r == value_or_eventually(*subformula, start, end, time, left, right),
{
    if is_expired(end, time) {
        return make_timed_out(subformula, time);
    }
    match (left, right) {
        (Value::True(state), _) => Value::True(state),
        (_, Value::True(state)) => Value::True(state),
        (Value::False(_, _), Value::False(right, _)) => Value::False(right, None),
        (Value::False(_, _), Value::Residual(residual)) => Value::Residual(residual),
        (Value::Residual(residual), Value::False(_, _)) => Value::Residual(residual),
        (Value::Residual(left), Value::Residual(right)) => Value::Residual(
            Residual::OrEventually {
                subformula: Box::new(subformula.duplicate()),
                start,
                end,
                left: Box::new(left),
                right: Box::new(right),
            },
        ),
    }
}

fn attach_to_violation<F>(violation: Violation<F>, resolved: &State) -> (r: Violation<F>)
    ensures
        r == attach_violation(violation, *resolved),
    decreases violation,
{
    match violation {
        Violation::False { time, condition, state } => Violation::False {
            time,
            condition,
            state: state.merge(resolved),
        },
        Violation::Implies { left, right, state } => Violation::Implies {
            left,
            right: Box::new(attach_to_violation(*right, resolved)),
            state: state.merge(resolved),
        },
        Violation::And { left, right } => Violation::And {
            left: Box::new(attach_to_violation(*left, resolved)),
            right: Box::new(attach_to_violation(*right, resolved)),
        },
        Violation::Or { left, right } => Violation::Or {
            left: Box::new(attach_to_violation(*left, resolved)),
            right: Box::new(attach_to_violation(*right, resolved)),
        },
        Violation::Always { violation, subformula, start, end, time } => Violation::Always {
            violation: Box::new(attach_to_violation(*violation, resolved)),
            subformula,
            start,
            end,
            time,
        },
        Violation::Eventually { subformula, reason } => Violation::Eventually { subformula, reason },
    }
}

fn attach_to_residual<F>(residual: Residual<F>, resolved: &State) -> (r: Residual<F>)
    ensures
        r == attach_residual(residual, *resolved),
    decreases residual,
{
    match residual {
        Residual::True(state) => Residual::True(state.merge(resolved)),
        Residual::False(violation) => Residual::False(attach_to_violation(violation, resolved)),
        Residual::And { left, right } => Residual::And {
            left: Box::new(attach_to_residual(*left, resolved)),
            right: Box::new(attach_to_residual(*right, resolved)),
        },
        Residual::Or { left, right } => Residual::Or {
            left: Box::new(attach_to_residual(*left, resolved)),
            right: Box::new(attach_to_residual(*right, resolved)),
        },
        Residual::Implies { left_formula, left, right } => Residual::Implies {
            left_formula,
            left: Box::new(attach_to_residual(*left, resolved)),
            right: Box::new(attach_to_residual(*right, resolved)),
        },
        Residual::OrEventually { subformula, start, end, left, right } => Residual::OrEventually {
            subformula,
            start,
            end,
            left: Box::new(attach_to_residual(*left, resolved)),
            right: Box::new(attach_to_residual(*right, resolved)),
        },
        Residual::AndAlways { subformula, start, end, onset, left, right } => Residual::AndAlways {
            subformula,
            start,
            end,
            onset,
            left: Box::new(attach_to_residual(*left, resolved)),
            right: Box::new(attach_to_residual(*right, resolved)),
        },
        Residual::Derived(derived, leaning) => Residual::Derived(derived, leaning),
    }
}

fn attach_state<F>(value: Value<F>, resolved: &State) -> (r: Value<F>)
    ensures
        r == attach_value(value, *resolved),
{
    if resolved.is_empty() {
        return value;
    }
    match value {
        Value::True(state) => Value::True(state.merge(resolved)),
        Value::False(violation, continuation) => Value::False(
            attach_to_violation(violation, resolved),
            continuation,
        ),
        Value::Residual(residual) => Value::Residual(attach_to_residual(residual, resolved)),
    }
}


// ---------------------------------------------------------------------------
// The evaluator.

/// Whether `after` extends `before`.
pub open spec fn extends<A>(before: Seq<A>, after: Seq<A>) -> bool {
    &&& before.len() <= after.len()
    &&& forall|i: int| 0 <= i < before.len() ==> after[i] == before[i]
}

pub proof fn lemma_extends_concat<A>(c0: Seq<A>, c1: Seq<A>, c2: Seq<A>)
    requires
        extends(c0, c1),
        extends(c1, c2),
    ensures
        extends(c0, c2),
        c2.skip(c0.len() as int) == c1.skip(c0.len() as int) + c2.skip(c1.len() as int),
{
    assert(c2.skip(c0.len() as int) =~= c1.skip(c0.len() as int) + c2.skip(c1.len() as int));
}

/// Evaluates formulas and steps residuals, handing the thunks in them to an
/// [EvaluateThunk].
pub struct Evaluator<F, E, T> {
    evaluate_thunk: T,
    budget: u64,
    calls: Ghost<Seq<ThunkCall<F, E>>>,
}

impl<F: Copy, E, T: EvaluateThunk<F, E>> Evaluator<F, E, T> {
    /// How many more thunk calls the evaluator makes.
    pub closed spec fn budget(&self) -> nat {
        self.budget as nat
    }

    /// The thunk calls made so far, in order, with what they returned.
    pub closed spec fn calls(&self) -> Seq<ThunkCall<F, E>> {
        self.calls@
    }

    /// Whether `after` is `before` after some more thunk calls, each of which
    /// took one from the budget.
    pub open spec fn continues(before: Self, after: Self) -> bool {
        &&& extends(before.calls(), after.calls())
        &&& after.budget() + (after.calls().len() - before.calls().len()) == before.budget()
    }

    /// The thunk calls made between `before` and `after`.
    pub open spec fn made_calls(before: Self, after: Self) -> Seq<ThunkCall<F, E>> {
        after.calls().skip(before.calls().len() as int)
    }

    /// An evaluator that hands thunks to `evaluate_thunk`.
    pub fn new(evaluate_thunk: T) -> (r: Self)
        ensures
            r.budget() == u64::MAX,
            r.calls() == Seq::<ThunkCall<F, E>>::empty(),
    {
        Evaluator { evaluate_thunk, budget: u64::MAX, calls: Ghost(Seq::empty()) }
    }

    /// The value of `formula` at `time`.
    #[verifier::spinoff_prover]
    #[verifier::rlimit(50)]
    pub fn evaluate(&mut self, formula: &Formula<F>, time: Time) -> (r: Result<Value<F>, EvalError<E>>)
        ensures
            Self::continues(*old(self), *final(self)),
            eval_spec(*formula, time, old(self).budget(), Self::made_calls(*old(self), *final(self)))
                == Some((r, Self::made_calls(*old(self), *final(self)).len())),
        decreases old(self).budget(), formula,
    {
        let ghost b0 = self.budget();
        let ghost c0 = self.calls();
        match formula {
            Formula::Pure { value, pretty } => {
                assert(c0.skip(c0.len() as int).len() == 0);
                if *value {
                    Ok(Value::True(State::new()))
                } else {
                    Ok(Value::False(Violation::False { time, condition: pretty.clone(), state: State::new() }, None))
                }
            },
            Formula::Thunk { function, negated } => {
                if self.budget == 0 {
                    assert(c0.skip(c0.len() as int).len() == 0);
                    return Err(EvalError::BudgetExhausted);
                }
                self.budget = self.budget - 1;
                let outcome = self.evaluate_thunk.evaluate_thunk(function, *negated);
                let ghost call = ThunkCall { function: *function, negated: *negated, outcome };
                self.calls = Ghost(self.calls@.push(call));
                let ghost c1 = self.calls();
                assert(extends(c0, c1));
                match outcome {
                    Err(e) => {
                        assert(c1.skip(c0.len() as int) =~= seq![call]);
                        Err(EvalError::Thunk(e))
                    },
                    Ok((returned, state)) => {
                        let value = self.evaluate(&returned, time);
                        let ghost c2 = self.calls();
                        proof {
                            lemma_extends_concat(c0, c1, c2);
                            let made = c2.skip(c0.len() as int);
                            assert(made[0] == call);
                            assert(made.skip(1) =~= c2.skip(c1.len() as int));
                        }
                        match value {
                            Err(e) => Err(e),
                            Ok(value) => Ok(attach_state(value, &state)),
                        }
                    },
                }
            },
            Formula::And(l, r) => {
                let left = self.evaluate(l, time);
                let ghost c1 = self.calls();
                match left {
                    Err(e) => Err(e),
                    Ok(left) => {
                        let right = self.evaluate(r, time);
                        let ghost c2 = self.calls();
                        proof {
                            lemma_extends_concat(c0, c1, c2);
                            let cl = c1.skip(c0.len() as int);
                            let cr = c2.skip(c1.len() as int);
                            lemma_eval_prefix(**l, time, b0, cl, cr);
                            assert((cl + cr).skip(cl.len() as int) =~= cr);
                        }
                        match right {
                            Err(e) => Err(e),
                            Ok(right) => Ok(evaluate_and(left, right)),
                        }
                    },
                }
            },
            Formula::Or(l, r) => {
                let left = self.evaluate(l, time);
                let ghost c1 = self.calls();
                match left {
                    Err(e) => Err(e),
                    Ok(left) => {
                        let right = self.evaluate(r, time);
                        let ghost c2 = self.calls();
                        proof {
                            lemma_extends_concat(c0, c1, c2);
                            let cl = c1.skip(c0.len() as int);
                            let cr = c2.skip(c1.len() as int);
                            lemma_eval_prefix(**l, time, b0, cl, cr);
                            assert((cl + cr).skip(cl.len() as int) =~= cr);
                        }
                        match right {
                            Err(e) => Err(e),
                            Ok(right) => Ok(evaluate_or(left, right)),
                        }
                    },
                }
            },
            Formula::Implies(l, r) => {
                let left = self.evaluate(l, time);
                let ghost c1 = self.calls();
                match left {
                    Err(e) => Err(e),
                    Ok(left) => {
                        let right = self.evaluate(r, time);
                        let ghost c2 = self.calls();
                        proof {
                            lemma_extends_concat(c0, c1, c2);
                            let cl = c1.skip(c0.len() as int);
                            let cr = c2.skip(c1.len() as int);
                            lemma_eval_prefix(**l, time, b0, cl, cr);
                            assert((cl + cr).skip(cl.len() as int) =~= cr);
                        }
                        match right {
                            Err(e) => Err(e),
                            Ok(right) => Ok(evaluate_implies(l, left, right)),
                        }
                    },
                }
            },
            Formula::Next(sub) => {
                assert(c0.skip(c0.len() as int).len() == 0);
                Ok(Value::Residual(
                    Residual::Derived(
                        Derived::Once { start: time, subformula: Box::new(sub.duplicate()) },
                        Leaning::AssumeTrue,
                    ),
                ))
            },
            Formula::Always(sub, bound) => {
                let end = match bound {
                    Some(duration) => Some(time.plus(*duration)),
                    None => None,
                };
                if is_expired(end, time) {
                    assert(c0.skip(c0.len() as int).len() == 0);
                    return Ok(Value::True(State::new()));
                }
                match self.evaluate(sub, time) {
                    Err(e) => Err(e),
                    Ok(inner) => Ok(always_after(sub, time, end, time, inner)),
                }
            },
            Formula::Eventually(sub, bound) => {
                let end = match bound {
                    Some(duration) => Some(time.plus(*duration)),
                    None => None,
                };
                if is_expired(end, time) {
                    assert(c0.skip(c0.len() as int).len() == 0);
                    return Ok(make_timed_out(sub, time));
                }
                match self.evaluate(sub, time) {
                    Err(e) => Err(e),
                    Ok(inner) => Ok(eventually_after(sub, time, end, inner)),
                }
            },
        }
    }

    /// The value of `residual` one state ahead, at `time`.
    #[verifier::spinoff_prover]
    #[verifier::rlimit(50)]
    pub fn step(&mut self, residual: &Residual<F>, time: Time) -> (r: Result<Value<F>, EvalError<E>>)
        ensures
            Self::continues(*old(self), *final(self)),
            step_spec(*residual, time, old(self).budget(), Self::made_calls(*old(self), *final(self)))
                == Some((r, Self::made_calls(*old(self), *final(self)).len())),
        decreases residual,
    {
        let ghost b0 = self.budget();
        let ghost c0 = self.calls();
        match residual {
            Residual::True(state) => {
                assert(c0.skip(c0.len() as int).len() == 0);
                Ok(Value::True(state.duplicate()))
            },
            Residual::False(violation) => {
                assert(c0.skip(c0.len() as int).len() == 0);
                Ok(Value::False(violation.duplicate(), None))
            },
            Residual::And { left, right } => {
                let l = self.step(left, time);
                let ghost c1 = self.calls();
                match l {
                    Err(e) => Err(e),
                    Ok(l) => {
                        let r = self.step(right, time);
                        let ghost c2 = self.calls();
                        proof {
                            lemma_extends_concat(c0, c1, c2);
                            let cl = c1.skip(c0.len() as int);
                            let cr = c2.skip(c1.len() as int);
                            lemma_step_prefix(**left, time, b0, cl, cr);
                            assert((cl + cr).skip(cl.len() as int) =~= cr);
                        }
                        match r {
                            Err(e) => Err(e),
                            Ok(r) => Ok(evaluate_and(l, r)),
                        }
                    },
                }
            },
            Residual::Or { left, right } => {
                let l = self.step(left, time);
                let ghost c1 = self.calls();
                match l {
                    Err(e) => Err(e),
                    Ok(l) => {
                        let r = self.step(right, time);
                        let ghost c2 = self.calls();
                        proof {
                            lemma_extends_concat(c0, c1, c2);
                            let cl = c1.skip(c0.len() as int);
                            let cr = c2.skip(c1.len() as int);
                            lemma_step_prefix(**left, time, b0, cl, cr);
                            assert((cl + cr).skip(cl.len() as int) =~= cr);
                        }
                        match r {
                            Err(e) => Err(e),
                            Ok(r) => Ok(evaluate_or(l, r)),
                        }
                    },
                }
            },
            Residual::Implies { left_formula, left, right } => {
                let l = self.step(left, time);
                let ghost c1 = self.calls();
                match l {
                    Err(e) => Err(e),
                    Ok(l) => {
                        let r = self.step(right, time);
                        let ghost c2 = self.calls();
                        proof {
                            lemma_extends_concat(c0, c1, c2);
                            let cl = c1.skip(c0.len() as int);
                            let cr = c2.skip(c1.len() as int);
                            lemma_step_prefix(**left, time, b0, cl, cr);
                            assert((cl + cr).skip(cl.len() as int) =~= cr);
                        }
                        match r {
                            Err(e) => Err(e),
                            Ok(r) => Ok(evaluate_implies(left_formula, l, r)),
                        }
                    },
                }
            },
            Residual::Derived(derived, _) => match derived {
                Derived::Once { subformula, .. } => self.evaluate(subformula, time),
                Derived::Always { start, end, subformula } => {
                    if is_expired(*end, time) {
                        assert(c0.skip(c0.len() as int).len() == 0);
                        return Ok(Value::True(State::new()));
                    }
                    match self.evaluate(subformula, time) {
                        Err(e) => Err(e),
                        Ok(inner) => Ok(always_after(subformula, *start, *end, time, inner)),
                    }
                },
                Derived::Eventually { start, end, subformula } => {
                    if is_expired(*end, time) {
                        assert(c0.skip(c0.len() as int).len() == 0);
                        return Ok(make_timed_out(subformula, time));
                    }
                    match self.evaluate(subformula, time) {
                        Err(e) => Err(e),
                        Ok(inner) => Ok(eventually_after(subformula, *start, *end, inner)),
                    }
                },
            },
            Residual::OrEventually { subformula, start, end, left, right } => {
                let l = self.step(left, time);
                let ghost c1 = self.calls();
                match l {
                    Err(e) => Err(e),
                    Ok(l) => {
                        let r = self.step(right, time);
                        let ghost c2 = self.calls();
                        proof {
                            lemma_extends_concat(c0, c1, c2);
                            let cl = c1.skip(c0.len() as int);
                            let cr = c2.skip(c1.len() as int);
                            lemma_step_prefix(**left, time, b0, cl, cr);
                            assert((cl + cr).skip(cl.len() as int) =~= cr);
                        }
                        match r {
                            Err(e) => Err(e),
                            Ok(r) => Ok(evaluate_or_eventually(subformula, *start, *end, time, l, r)),
                        }
                    },
                }
            },
            Residual::AndAlways { subformula, start, end, onset, left, right } => {
                let l = self.step(left, time);
                let ghost c1 = self.calls();
                match l {
                    Err(e) => Err(e),
                    Ok(l) => {
                        let r = self.step(right, time);
                        let ghost c2 = self.calls();
                        proof {
                            lemma_extends_concat(c0, c1, c2);
                            let cl = c1.skip(c0.len() as int);
                            let cr = c2.skip(c1.len() as int);
                            lemma_step_prefix(**left, time, b0, cl, cr);
                            assert((cl + cr).skip(cl.len() as int) =~= cr);
                        }
                        match r {
                            Err(e) => Err(e),
                            Ok(r) => Ok(evaluate_and_always(subformula, *start, *end, *onset, time, l, r)),
                        }
                    },
                }
            },
        }
    }
}

} // verus!
