//! Properties of the evaluator that hold for every formula, every trace and
//! every answer that thunks give.
use vstd::prelude::*;

use crate::eval::{
    attach_value, pure_value, value_and, value_implies, value_or, always_from, eventually_from,
    eventually_residual, always_residual, and_always, consumed, eval_spec, residual_or, step_spec, Derived,
    EvalError, Leaning, Outcome, Residual, ThunkCall, Value,
};
use crate::formula::Formula;
use crate::state::{SnapshotKey, State};
use crate::time::Time;

verus! {

/// The residual that an outcome leaves, if it is a residual.
pub open spec fn residual_of<F, E>(out: Outcome<F, E>) -> Option<Residual<F>> {
    match out {
        Some((Ok(Value::Residual(r)), _)) => Some(r),
        _ => None,
    }
}

pub open spec fn next<F>(f: Formula<F>) -> Formula<F> {
    Formula::Next(Box::new(f))
}

pub open spec fn or<F>(l: Formula<F>, r: Formula<F>) -> Formula<F> {
    Formula::Or(Box::new(l), Box::new(r))
}

/// `next` distributes over `or`: `next(φ or ψ)` and `next(φ) or next(ψ)`
/// both wait at the first state without calling a thunk, and from then on
/// they give the same values in every later state, whatever the thunks
/// answer.
pub proof fn law_next_distributes_over_or<F, E>(
    phi: Formula<F>,
    psi: Formula<F>,
    start: Time,
    time: Time,
    budget: nat,
    calls: Seq<ThunkCall<F, E>>,
)
    ensures
        ({
            let none = Seq::<ThunkCall<F, E>>::empty();
            let left = eval_spec(next(or(phi, psi)), start, budget, none);
            let right = eval_spec(or(next(phi), next(psi)), start, budget, none);
            &&& residual_of(left) is Some
            &&& residual_of(right) is Some
            &&& consumed(left) == 0
            &&& consumed(right) == 0
            &&& step_spec(residual_of(left)->0, time, budget, calls)
                == step_spec(residual_of(right)->0, time, budget, calls)
        }),
{
    let none = Seq::<ThunkCall<F, E>>::empty();
    assert(none.skip(0) =~= none);
    let once_phi = Residual::<F>::Derived(
        Derived::Once { start, subformula: Box::new(phi) },
        Leaning::AssumeTrue,
    );
    let once_psi = Residual::<F>::Derived(
        Derived::Once { start, subformula: Box::new(psi) },
        Leaning::AssumeTrue,
    );
    let lo = eval_spec(next(phi), start, budget, none);
    assert(lo == Some((Ok::<Value<F>, EvalError<E>>(Value::Residual(once_phi)), 0nat)));
    let ro = eval_spec(next(psi), start, budget, none);
    assert(ro == Some((Ok::<Value<F>, EvalError<E>>(Value::Residual(once_psi)), 0nat)));
    let right = eval_spec(or(next(phi), next(psi)), start, budget, none);
    assert(right == Some((Ok::<Value<F>, EvalError<E>>(Value::Residual(residual_or(once_phi, once_psi))), 0nat)));
    let left = eval_spec(next(or(phi, psi)), start, budget, none);
    let r1 = residual_of(left)->0;
    assert(step_spec(r1, time, budget, calls) == eval_spec(or(phi, psi), time, budget, calls));
    assert(step_spec(once_phi, time, budget, calls) == eval_spec(phi, time, budget, calls));
    let k = consumed(eval_spec(phi, time, budget, calls));
    if k <= budget && k <= calls.len() {
        assert(step_spec(once_psi, time, (budget - k) as nat, calls.skip(k as int))
            == eval_spec(psi, time, (budget - k) as nat, calls.skip(k as int)));
    }
}

/// `always(next(true))`, with `pretty` as the text of the constant.
pub open spec fn always_next_true<F>(pretty: String) -> Formula<F> {
    Formula::Always(Box::new(next(Formula::Pure { value: true, pretty })), None)
}

/// The residual of `always(next(true))` started at `start`, last stepped at
/// `time`: two levels deep.
pub open spec fn always_next_residual<F>(pretty: String, start: Time, time: Time) -> Residual<F> {
    let sub = next(Formula::Pure { value: true, pretty: pretty });
    and_always(
        sub,
        start,
        None,
        time,
        Residual::Derived(
            Derived::Once { start: time, subformula: Box::new(Formula::Pure { value: true, pretty: pretty }) },
            Leaning::AssumeTrue,
        ),
        always_residual(sub, start, None),
    )
}

/// The residual of `always(next(true))` does not grow: evaluating it gives
/// a residual of two levels, and every step gives one of the same shape, with
/// no thunk call.
pub proof fn law_always_next_stays_bounded<F, E>(pretty: String, start: Time, time: Time, next_time: Time, budget: nat, calls: Seq<ThunkCall<F, E>>)
    ensures
        eval_spec(always_next_true::<F>(pretty), start, budget, calls)
            == Some((Ok::<Value<F>, EvalError<E>>(Value::Residual(always_next_residual(pretty, start, start))), 0nat)),
        step_spec(always_next_residual::<F>(pretty, start, time), next_time, budget, calls)
            == Some((Ok::<Value<F>, EvalError<E>>(Value::Residual(always_next_residual(pretty, start, next_time))), 0nat)),
{
    let t = Formula::<F>::Pure { value: true, pretty };
    let sub = next(t);
    let once = |at: Time| Residual::<F>::Derived(Derived::Once { start: at, subformula: Box::new(t) }, Leaning::AssumeTrue);
    assert(eval_spec::<F, E>(sub, start, budget, calls) == Some((Ok::<Value<F>, EvalError<E>>(Value::Residual(once(start))), 0nat)));
    assert(eval_spec::<F, E>(sub, next_time, budget, calls) == Some((Ok::<Value<F>, EvalError<E>>(Value::Residual(once(next_time))), 0nat)));
    assert(eval_spec::<F, E>(t, next_time, budget, calls) == Some((Ok::<Value<F>, EvalError<E>>(Value::True(State::Empty)), 0nat)));
    let r = always_next_residual::<F>(pretty, start, time);
    match r {
        Residual::AndAlways { left, right, .. } => {
            assert(*left == once(time));
            assert(step_spec::<F, E>(*left, next_time, budget, calls) == Some((Ok::<Value<F>, EvalError<E>>(Value::True(State::Empty)), 0nat)));
            assert(calls.skip(0) =~= calls);
            assert(step_spec::<F, E>(*right, next_time, budget, calls)
                == Some((Ok::<Value<F>, EvalError<E>>(Value::Residual(always_next_residual(pretty, start, next_time))), 0nat)));
        },
        _ => {},
    }
}

/// Whether a formula has no temporal operator.
pub open spec fn nontemporal<F>(f: Formula<F>) -> bool
    decreases f,
{
    match f {
        Formula::Pure { .. } => true,
        Formula::Thunk { .. } => true,
        Formula::And(l, r) => nontemporal(*l) && nontemporal(*r),
        Formula::Or(l, r) => nontemporal(*l) && nontemporal(*r),
        Formula::Implies(l, r) => nontemporal(*l) && nontemporal(*r),
        _ => false,
    }
}

/// Whether every one of the thunk calls answered with a constant.
pub open spec fn answers_constants<F, E>(calls: Seq<ThunkCall<F, E>>) -> bool {
    forall|i: int| 0 <= i < calls.len() ==> (#[trigger] calls[i]).outcome matches Ok((Formula::Pure { .. }, _))
}

/// The snapshots that made a formula without temporal operators true, read
/// off the thunks' answers in the order in which they are called, with the
/// number of calls read; `None` when the formula is false. A true thunk
/// contributes the snapshots it read; a conjunction, or a disjunction or
/// implication with both sides true, those of both sides; a disjunction with
/// one true side, that side's; an implication with a false antecedent, none.
pub open spec fn contributing<F, E>(f: Formula<F>, calls: Seq<ThunkCall<F, E>>) -> (Option<Set<SnapshotKey>>, nat)
    decreases f,
{
    match f {
        Formula::Pure { value, .. } => (if value { Some(Set::empty()) } else { None }, 0),
        Formula::Thunk { .. } => (
            match calls[0].outcome {
                Ok((Formula::Pure { value, .. }, s)) => if value { Some(s.keys()) } else { None },
                _ => None,
            },
            1,
        ),
        Formula::And(l, r) => {
            let (a, k) = contributing(*l, calls);
            let (b, k2) = contributing(*r, calls.skip(k as int));
            (
                match (a, b) {
                    (Some(x), Some(y)) => Some(x.union(y)),
                    _ => None,
                },
                k + k2,
            )
        },
        Formula::Or(l, r) => {
            let (a, k) = contributing(*l, calls);
            let (b, k2) = contributing(*r, calls.skip(k as int));
            (
                match (a, b) {
                    (Some(x), Some(y)) => Some(x.union(y)),
                    (Some(x), None) => Some(x),
                    (None, Some(y)) => Some(y),
                    (None, None) => None,
                },
                k + k2,
            )
        },
        Formula::Implies(l, r) => {
            let (a, k) = contributing(*l, calls);
            let (b, k2) = contributing(*r, calls.skip(k as int));
            (
                match (a, b) {
                    (None, _) => Some(Set::empty()),
                    (Some(x), Some(y)) => Some(x.union(y)),
                    (Some(_), None) => None,
                },
                k + k2,
            )
        },
        _ => (None, 0),
    }
}

/// Where evaluation of a formula without temporal operators, whose thunks
/// answer with constants, gives a value, it is no residual; it is true
/// exactly when [contributing] says so, and then its snapshots are exactly
/// the contributing ones.
proof fn lemma_evaluated_contributing<F, E>(
    f: Formula<F>,
    time: Time,
    budget: nat,
    calls: Seq<ThunkCall<F, E>>,
)
    requires
        nontemporal(f),
        answers_constants(calls),
        eval_spec(f, time, budget, calls) matches Some((Ok(_), _)),
    ensures
        ({
            let (value, k) = eval_spec(f, time, budget, calls)->0;
            let (expected, k2) = contributing(f, calls);
            &&& k == k2
            &&& match value->Ok_0 {
                Value::True(state) => expected == Some(state.keys()),
                Value::False(_, _) => expected is None,
                Value::Residual(_) => false,
            }
        }),
    decreases f, 1int,
{
    match f {
        Formula::Pure { value, pretty } => {
            if value {
                assert(State::Empty.keys() == Set::<SnapshotKey>::empty());
            }
        },
        Formula::Thunk { function, negated } => {
            assert(calls[0].outcome matches Ok((Formula::Pure { .. }, _)));
            match calls[0].outcome {
                Ok((Formula::Pure { value, pretty }, s)) => {
                    assert(eval_spec(Formula::<F>::Pure { value, pretty }, time, (budget - 1) as nat, calls.skip(1))
                        == Some((Ok::<Value<F>, EvalError<E>>(pure_value(value, pretty, time)), 0nat)));
                    if value {
                        State::Empty.lemma_merged(s);
                        assert(State::Empty.keys() == Set::<SnapshotKey>::empty());
                        assert(Set::<SnapshotKey>::empty().union(s.keys()) =~= s.keys());
                        if s == State::Empty {
                            assert(s.keys() == Set::<SnapshotKey>::empty());
                        }
                    }
                },
                _ => {},
            }
        },
        Formula::And(l, r) => {
            lemma_binary_contributing(f, time, budget, calls);
            let (lv, k) = eval_spec(*l, time, budget, calls)->0;
            let (rv, k2) = eval_spec(*r, time, (budget - k) as nat, calls.skip(k as int))->0;
            if let (Ok(Value::True(ls)), Ok(Value::True(rs))) = (lv, rv) {
                ls.lemma_merged(rs);
            }
        },
        Formula::Or(l, r) => {
            lemma_binary_contributing(f, time, budget, calls);
            let (lv, k) = eval_spec(*l, time, budget, calls)->0;
            let (rv, k2) = eval_spec(*r, time, (budget - k) as nat, calls.skip(k as int))->0;
            if let (Ok(Value::True(ls)), Ok(Value::True(rs))) = (lv, rv) {
                ls.lemma_merged(rs);
            }
        },
        Formula::Implies(l, r) => {
            lemma_binary_contributing(f, time, budget, calls);
            let (lv, k) = eval_spec(*l, time, budget, calls)->0;
            let (rv, k2) = eval_spec(*r, time, (budget - k) as nat, calls.skip(k as int))->0;
            if let (Ok(Value::True(ls)), Ok(Value::True(rs))) = (lv, rv) {
                ls.lemma_merged(rs);
            }
            assert(State::Empty.keys() == Set::<SnapshotKey>::empty());
        },
        _ => {},
    }
}

/// The thunks of a formula without temporal operators, from left to right,
/// each with whether it is negated.
pub open spec fn thunks<F>(f: Formula<F>) -> Seq<(F, bool)>
    decreases f,
{
    match f {
        Formula::Thunk { function, negated } => seq![(function, negated)],
        Formula::And(l, r) => thunks(*l) + thunks(*r),
        Formula::Or(l, r) => thunks(*l) + thunks(*r),
        Formula::Implies(l, r) => thunks(*l) + thunks(*r),
        _ => Seq::empty(),
    }
}

/// Whether the thunk calls begin with one call of each of `ts`, in order.
pub open spec fn calls_thunks<F, E>(calls: Seq<ThunkCall<F, E>>, ts: Seq<(F, bool)>) -> bool {
    &&& ts.len() <= calls.len()
    &&& forall|i: int| 0 <= i < ts.len() ==> (#[trigger] calls[i]).function == ts[i].0 && calls[i].negated == ts[i].1
}

/// A formula without temporal operators is evaluated in full: each of its
/// thunks is called once, from left to right, whatever the values met on
/// the way, and where they answer with constants and the budget allows
/// that many calls, evaluation gives a value, never leaves a residual, and
/// is true exactly when [contributing] says so, with exactly the
/// contributing snapshots.
pub proof fn law_true_snapshots_are_contributing<F, E>(
    f: Formula<F>,
    time: Time,
    budget: nat,
    calls: Seq<ThunkCall<F, E>>,
)
    requires
        nontemporal(f),
        answers_constants(calls),
        calls_thunks(calls, thunks(f)),
        thunks(f).len() <= budget,
    ensures
        eval_spec(f, time, budget, calls) matches Some((Ok(_), k)) && k == thunks(f).len(),
        ({
            let (value, k) = eval_spec(f, time, budget, calls)->0;
            let (expected, k2) = contributing(f, calls);
            &&& k == k2
            &&& match value->Ok_0 {
                Value::True(state) => expected == Some(state.keys()),
                Value::False(_, _) => expected is None,
                Value::Residual(_) => false,
            }
        }),
{
    lemma_nontemporal_evaluates(f, time, budget, calls);
    lemma_evaluated_contributing(f, time, budget, calls);
}

proof fn lemma_nontemporal_evaluates<F, E>(f: Formula<F>, time: Time, budget: nat, calls: Seq<ThunkCall<F, E>>)
    requires
        nontemporal(f),
        answers_constants(calls),
        calls_thunks(calls, thunks(f)),
        thunks(f).len() <= budget,
    ensures
        eval_spec(f, time, budget, calls) matches Some((Ok(_), k)) && k == thunks(f).len(),
    decreases f, 1int,
{
    match f {
        Formula::Thunk { function, negated } => {
            assert(thunks(f)[0] == (function, negated));
            assert(calls[0].outcome matches Ok((Formula::Pure { .. }, _)));
            match calls[0].outcome {
                Ok((Formula::Pure { value, pretty }, s)) => {
                    assert(eval_spec(Formula::<F>::Pure { value, pretty }, time, (budget - 1) as nat, calls.skip(1))
                        == Some((Ok::<Value<F>, EvalError<E>>(pure_value(value, pretty, time)), 0nat)));
                },
                _ => {},
            }
        },
        Formula::And(_, _) => lemma_binary_evaluates(f, time, budget, calls),
        Formula::Or(_, _) => lemma_binary_evaluates(f, time, budget, calls),
        Formula::Implies(_, _) => lemma_binary_evaluates(f, time, budget, calls),
        _ => {},
    }
}

/// Both sides of a binary connective are evaluated in full, one after the
/// other.
proof fn lemma_binary_evaluates<F, E>(f: Formula<F>, time: Time, budget: nat, calls: Seq<ThunkCall<F, E>>)
    requires
        f is And || f is Or || f is Implies,
        nontemporal(f),
        answers_constants(calls),
        calls_thunks(calls, thunks(f)),
        thunks(f).len() <= budget,
    ensures
        ({
            let (l, r) = sides(f);
            let lo = eval_spec(l, time, budget, calls);
            &&& lo matches Some((Ok(_), k)) && k == thunks(l).len()
            &&& eval_spec(r, time, (budget - consumed(lo)) as nat, calls.skip(consumed(lo) as int))
                matches Some((Ok(_), k2)) && k2 == thunks(r).len()
            &&& thunks(f) == thunks(l) + thunks(r)
        }),
        eval_spec(f, time, budget, calls) matches Some((Ok(_), k)) && k == thunks(f).len(),
    decreases f, 0int,
{
    let (l, r) = sides(f);
    assert(thunks(f) == thunks(l) + thunks(r));
    let k = thunks(l).len();
    assert forall|i: int| 0 <= i < thunks(l).len() implies (#[trigger] calls[i]).function == thunks(l)[i].0
        && calls[i].negated == thunks(l)[i].1 by {
        assert(thunks(f)[i] == thunks(l)[i]);
    }
    let rest = calls.skip(k as int);
    assert forall|i: int| 0 <= i < rest.len() implies (#[trigger] rest[i]).outcome matches Ok((Formula::Pure { .. }, _)) by {
        assert(rest[i] == calls[i + k]);
    }
    assert forall|i: int| 0 <= i < thunks(r).len() implies (#[trigger] rest[i]).function == thunks(r)[i].0
        && rest[i].negated == thunks(r)[i].1 by {
        assert(rest[i] == calls[i + k]);
        assert(thunks(f)[i + k] == thunks(r)[i]);
    }
    match f {
        Formula::And(a, b) => {
            lemma_nontemporal_evaluates(*a, time, budget, calls);
            lemma_nontemporal_evaluates(*b, time, (budget - k) as nat, rest);
        },
        Formula::Or(a, b) => {
            lemma_nontemporal_evaluates(*a, time, budget, calls);
            lemma_nontemporal_evaluates(*b, time, (budget - k) as nat, rest);
        },
        Formula::Implies(a, b) => {
            lemma_nontemporal_evaluates(*a, time, budget, calls);
            lemma_nontemporal_evaluates(*b, time, (budget - k) as nat, rest);
        },
        _ => {},
    }
}

/// The two sides of a binary connective.
pub open spec fn sides<F>(f: Formula<F>) -> (Formula<F>, Formula<F>) {
    match f {
        Formula::And(l, r) => (*l, *r),
        Formula::Or(l, r) => (*l, *r),
        Formula::Implies(l, r) => (*l, *r),
        _ => (f, f),
    }
}

/// Both sides of a binary connective satisfy the law when the whole does.
proof fn lemma_binary_contributing<F, E>(f: Formula<F>, time: Time, budget: nat, calls: Seq<ThunkCall<F, E>>)
    requires
        f is And || f is Or || f is Implies,
        nontemporal(sides(f).0),
        nontemporal(sides(f).1),
        answers_constants(calls),
        ({
            let lo = eval_spec(sides(f).0, time, budget, calls);
            &&& lo matches Some((Ok(_), _))
            &&& consumed(lo) <= budget
            &&& consumed(lo) <= calls.len()
            &&& eval_spec(sides(f).1, time, (budget - consumed(lo)) as nat, calls.skip(consumed(lo) as int)) matches Some((Ok(_), _))
        }),
    ensures
        ({
            let (l, r) = sides(f);
            let (lv, k) = eval_spec(l, time, budget, calls)->0;
            let (rv, k2) = eval_spec(r, time, (budget - k) as nat, calls.skip(k as int))->0;
            let (a, ka) = contributing(l, calls);
            let (b, kb) = contributing(r, calls.skip(k as int));
            &&& k == ka
            &&& k2 == kb
            &&& match lv->Ok_0 {
                Value::True(state) => a == Some(state.keys()),
                Value::False(_, _) => a is None,
                Value::Residual(_) => false,
            }
            &&& match rv->Ok_0 {
                Value::True(state) => b == Some(state.keys()),
                Value::False(_, _) => b is None,
                Value::Residual(_) => false,
            }
        }),
    decreases f, 0int,
{
    let (l, r) = sides(f);
    let k = consumed(eval_spec(l, time, budget, calls));
    let rest = calls.skip(k as int);
    assert forall|i: int| 0 <= i < rest.len() implies (#[trigger] rest[i]).outcome matches Ok((Formula::Pure { .. }, _)) by {
        assert(rest[i] == calls[i + k]);
    }
    match f {
        Formula::And(a, b) => {
            lemma_evaluated_contributing(*a, time, budget, calls);
            lemma_evaluated_contributing(*b, time, (budget - k) as nat, rest);
        },
        Formula::Or(a, b) => {
            lemma_evaluated_contributing(*a, time, budget, calls);
            lemma_evaluated_contributing(*b, time, (budget - k) as nat, rest);
        },
        Formula::Implies(a, b) => {
            lemma_evaluated_contributing(*a, time, budget, calls);
            lemma_evaluated_contributing(*b, time, (budget - k) as nat, rest);
        },
        _ => {},
    }
}

/// `next(φ)` holds if `φ` holds in the next state: it waits, calling no
/// thunk, and in the next state it is exactly `φ` evaluated there.
pub proof fn law_next_is_the_next_state<F, E>(
    phi: Formula<F>,
    time: Time,
    next_time: Time,
    budget: nat,
    calls: Seq<ThunkCall<F, E>>,
)
    ensures
        residual_of(eval_spec(next(phi), time, budget, calls)) matches Some(r) && {
            &&& consumed(eval_spec(next(phi), time, budget, calls)) == 0
            &&& step_spec(r, next_time, budget, calls) == eval_spec(phi, next_time, budget, calls)
        },
{
}

/// `always(φ)` holds if `φ` holds in this and every future state: where
/// `φ` is true it waits, and its residual evaluates `φ` anew in each later
/// state as the `always` itself did (until a bound, if any, has passed);
/// where `φ` is false (with nothing left pending) it is false, and it goes
/// on to look for further violations.
pub proof fn law_always_holds_in_every_state<F, E>(
    phi: Formula<F>,
    time: Time,
    later: Time,
    budget: nat,
    calls: Seq<ThunkCall<F, E>>,
)
    ensures
        eval_spec(phi, time, budget, calls) matches Some((Ok(Value::True(_)), k)) ==> eval_spec(
            Formula::Always(Box::new(phi), None),
            time,
            budget,
            calls,
        ) == Some((Ok::<Value<F>, EvalError<E>>(Value::Residual(always_residual(phi, time, None))), k)),
        eval_spec(phi, time, budget, calls) matches Some((Ok(Value::False(_, None)), k)) ==> eval_spec(
            Formula::Always(Box::new(phi), None),
            time,
            budget,
            calls,
        ) matches Some((Ok(Value::False(crate::formula::Violation::Always { .. }, Some(rest))), k2)) && k2 == k
            && rest == always_residual(phi, time, None),
        step_spec(always_residual(phi, time, None), later, budget, calls) == always_from(
            phi,
            time,
            None,
            later,
            eval_spec(phi, later, budget, calls),
        ),
{
}

/// `eventually(φ)` holds if `φ` holds in this or any future state: where
/// `φ` is true it is true, where `φ` is false it waits, and its residual
/// evaluates `φ` anew in each later state; should the test end first, it
/// leans false, for the test ended before `φ` held.
pub proof fn law_eventually_holds_in_some_state<F, E>(
    phi: Formula<F>,
    time: Time,
    later: Time,
    budget: nat,
    calls: Seq<ThunkCall<F, E>>,
)
    ensures
        eval_spec(phi, time, budget, calls) matches Some((Ok(Value::True(s)), k)) ==> eval_spec(
            Formula::Eventually(Box::new(phi), None),
            time,
            budget,
            calls,
        ) == Some((Ok::<Value<F>, EvalError<E>>(Value::True(s)), k)),
        eval_spec(phi, time, budget, calls) matches Some((Ok(Value::False(_, _)), k)) ==> eval_spec(
            Formula::Eventually(Box::new(phi), None),
            time,
            budget,
            calls,
        ) == Some((Ok::<Value<F>, EvalError<E>>(Value::Residual(eventually_residual(phi, time, None))), k)),
        eventually_residual(phi, time, None) matches Residual::Derived(_, Leaning::AssumeFalse(_)),
        step_spec(eventually_residual(phi, time, None), later, budget, calls) == eventually_from(
            phi,
            time,
            None,
            later,
            eval_spec(phi, later, budget, calls),
        ),
{
}

} // verus!
