//! The properties of a specification, stepped state by state.
//!
//! A property starts with its formula. In each state its formula is
//! evaluated, or the residual left from the state before is stepped. A
//! property that turns out true stays true; one that is violated with no
//! residual left stays false; the others carry their residual on. Only
//! properties that are not decided yet are evaluated, and they report their
//! value in each state.
use vstd::prelude::*;

use crate::eval::{
    consumed, eval_spec, lemma_eval_prefix, lemma_step_prefix, step_spec, EvalError, EvaluateThunk,
    Evaluator, Outcome, Residual, ThunkCall, Value,
};
use crate::formula::Formula;
use crate::state::State;
use crate::time::Time;
use crate::tree::{Tree, Weight};

verus! {

/// How far a property has been decided.
#[derive(Debug)]
pub enum PropertyState<F> {
    /// Not evaluated yet.
    Initial(Formula<F>),
    /// Evaluated, with this residual left to step.
    Residual(Residual<F>),
    /// Decided true.
    DefinitelyTrue,
    /// Decided false, with nothing left to evaluate.
    DefinitelyFalse,
}

/// A named property of a specification.
#[derive(Debug)]
pub struct Property<F> {
    pub name: String,
    pub state: PropertyState<F>,
}

/// Whether the property is decided.
pub open spec fn is_definite<F>(state: PropertyState<F>) -> bool {
    state is DefinitelyTrue || state is DefinitelyFalse
}

/// What evaluating an undecided property at `time` gives.
pub open spec fn property_outcome<F, E>(
    state: PropertyState<F>,
    time: Time,
    budget: nat,
    calls: Seq<ThunkCall<F, E>>,
) -> Outcome<F, E> {
    match state {
        PropertyState::Initial(formula) => eval_spec(formula, time, budget, calls),
        PropertyState::Residual(residual) => step_spec(residual, time, budget, calls),
        _ => Some((Ok(Value::True(State::Empty)), 0)),
    }
}

/// The state a property is left in after its value.
pub open spec fn settled<F>(value: Value<F>) -> PropertyState<F> {
    match value {
        Value::True(_) => PropertyState::DefinitelyTrue,
        Value::False(_, Some(residual)) => PropertyState::Residual(residual),
        Value::False(_, None) => PropertyState::DefinitelyFalse,
        Value::Residual(residual) => PropertyState::Residual(residual),
    }
}

/// The value a property reports: a true one without its snapshots, a false
/// one without the residual that goes on.
pub open spec fn reported<F>(value: Value<F>) -> Value<F> {
    match value {
        Value::True(_) => Value::True(State::Empty),
        Value::False(violation, _) => Value::False(violation, None),
        Value::Residual(residual) => Value::Residual(residual),
    }
}

/// The properties after a step, with the values they reported, each with
/// the position of its property, the error that stopped the step if any,
/// and the number of thunk calls made.
pub struct Steps<F, E> {
    pub states: Seq<PropertyState<F>>,
    pub reports: Seq<(int, Value<F>)>,
    pub error: Option<EvalError<E>>,
    pub consumed: nat,
}

/// Stepping the properties in `states`, in order, at `time`, with `budget`
/// thunk calls left, when the thunk calls return what `calls` lists. An
/// error stops the step: the properties after it keep their state.
pub open spec fn steps<F, E>(
    states: Seq<PropertyState<F>>,
    time: Time,
    budget: nat,
    calls: Seq<ThunkCall<F, E>>,
) -> Option<Steps<F, E>>
    decreases states.len(),
{
    if states.len() == 0 {
        Some(Steps { states: Seq::empty(), reports: Seq::empty(), error: None, consumed: 0 })
    } else {
        let last = states.last();
        let index = states.len() - 1;
        match steps(states.drop_last(), time, budget, calls) {
            None => None,
            Some(prev) => if prev.error is Some || is_definite(last) {
                Some(Steps { states: prev.states.push(last), ..prev })
            } else if prev.consumed > budget || prev.consumed > calls.len() {
                None
            } else {
                match property_outcome(last, time, (budget - prev.consumed) as nat, calls.skip(prev.consumed as int)) {
                    None => None,
                    Some((Err(e), k)) => Some(Steps {
                        states: prev.states.push(last),
                        reports: prev.reports,
                        error: Some(e),
                        consumed: prev.consumed + k,
                    }),
                    Some((Ok(v), k)) => Some(Steps {
                        states: prev.states.push(settled(v)),
                        reports: prev.reports.push((index, reported(v))),
                        error: None,
                        consumed: prev.consumed + k,
                    }),
                }
            },
        }
    }
}

pub proof fn lemma_property_outcome_prefix<F, E>(
    state: PropertyState<F>,
    time: Time,
    budget: nat,
    calls: Seq<ThunkCall<F, E>>,
    extra: Seq<ThunkCall<F, E>>,
)
    requires
        property_outcome(state, time, budget, calls) is Some,
    ensures
        property_outcome(state, time, budget, calls + extra) == property_outcome(state, time, budget, calls),
        consumed(property_outcome(state, time, budget, calls)) <= calls.len(),
        consumed(property_outcome(state, time, budget, calls)) <= budget,
{
    match state {
        PropertyState::Initial(formula) => lemma_eval_prefix(formula, time, budget, calls, extra),
        PropertyState::Residual(residual) => lemma_step_prefix(residual, time, budget, calls, extra),
        _ => {},
    }
}

/// What the step makes of the properties depends only on the thunk calls
/// that it makes, and it makes no more than it may.
pub proof fn lemma_steps_prefix<F, E>(
    states: Seq<PropertyState<F>>,
    time: Time,
    budget: nat,
    calls: Seq<ThunkCall<F, E>>,
    extra: Seq<ThunkCall<F, E>>,
)
    requires
        steps(states, time, budget, calls) is Some,
    ensures
        steps(states, time, budget, calls + extra) == steps(states, time, budget, calls),
        steps(states, time, budget, calls)->0.consumed <= calls.len(),
        steps(states, time, budget, calls)->0.consumed <= budget,
    decreases states.len(),
{
    if states.len() > 0 {
        let last = states.last();
        lemma_steps_prefix(states.drop_last(), time, budget, calls, extra);
        let prev = steps(states.drop_last(), time, budget, calls)->0;
        if !(prev.error is Some || is_definite(last)) {
            let rest = calls.skip(prev.consumed as int);
            assert((calls + extra).skip(prev.consumed as int) =~= rest + extra);
            lemma_property_outcome_prefix(last, time, (budget - prev.consumed) as nat, rest, extra);
        }
    }
}

/// A decided property stays decided: a step leaves its state as it is,
/// and it reports no value. Every property keeps its place. The reports
/// come in the order of the properties, one at most for each; a step that
/// meets no error reports every property that was undecided. A reported
/// false value carries no residual, and a property reported true is
/// decided true. A reported property is left in the state that its value
/// settles it in, so it is decided exactly when it evaluated to true, or to
/// false with nothing left to evaluate; a property that reports nothing
/// keeps its state.
pub proof fn law_decided_properties_stay_decided<F, E>(
    states: Seq<PropertyState<F>>,
    time: Time,
    budget: nat,
    calls: Seq<ThunkCall<F, E>>,
)
    requires
        steps(states, time, budget, calls) is Some,
    ensures
        ({
            let s = steps(states, time, budget, calls)->0;
            &&& s.states.len() == states.len()
            &&& forall|i: int| 0 <= i < states.len() && is_definite(states[i]) ==> #[trigger] s.states[i] == states[i]
            &&& forall|j: int| 0 <= j < s.reports.len() ==> {
                &&& 0 <= (#[trigger] s.reports[j]).0 < states.len()
                &&& !is_definite(states[s.reports[j].0])
                &&& (s.reports[j].1 matches Value::False(_, continuation) ==> continuation is None)
                &&& (s.reports[j].1 is True ==> s.states[s.reports[j].0] is DefinitelyTrue)
            }
            &&& forall|j: int, k: int| 0 <= j < k < s.reports.len() ==> (#[trigger] s.reports[j]).0 < (#[trigger] s.reports[k]).0
            &&& s.error is None ==> forall|i: int| 0 <= i < states.len() && !is_definite(#[trigger] states[i]) ==>
                exists|j: int| 0 <= j < s.reports.len() && (#[trigger] s.reports[j]).0 == i
            &&& forall|j: int| 0 <= j < s.reports.len() ==> exists|v: Value<F>|
                s.states[(#[trigger] s.reports[j]).0] == settled(v) && s.reports[j].1 == reported(v)
            &&& forall|i: int| 0 <= i < states.len() && !(exists|j: int| 0 <= j < s.reports.len() && (#[trigger] s.reports[j]).0 == i)
                ==> #[trigger] s.states[i] == states[i]
        }),
    decreases states.len(),
{
    if states.len() > 0 {
        law_decided_properties_stay_decided(states.drop_last(), time, budget, calls);
        let prev = steps(states.drop_last(), time, budget, calls)->0;
        let s = steps(states, time, budget, calls)->0;
        let n = states.len() - 1;
        assert(s.reports.len() >= prev.reports.len());
        assert forall|j: int| 0 <= j < prev.reports.len() implies #[trigger] s.reports[j] == prev.reports[j] by {}
        assert forall|i: int| 0 <= i < states.len() && is_definite(states[i]) implies #[trigger] s.states[i] == states[i] by {
            if i < n {
                assert(states.drop_last()[i] == states[i]);
            }
        }
        assert forall|j: int| 0 <= j < s.reports.len() implies {
            &&& 0 <= (#[trigger] s.reports[j]).0 < states.len()
            &&& !is_definite(states[s.reports[j].0])
            &&& (s.reports[j].1 matches Value::False(_, continuation) ==> continuation is None)
            &&& (s.reports[j].1 is True ==> s.states[s.reports[j].0] is DefinitelyTrue)
        } by {
            if j < prev.reports.len() {
                assert(s.reports[j] == prev.reports[j]);
                assert(states.drop_last()[prev.reports[j].0] == states[prev.reports[j].0]);
                assert(s.states[prev.reports[j].0] == prev.states[prev.reports[j].0]);
            }
        }
        assert forall|j: int, k: int| 0 <= j < k < s.reports.len() implies (#[trigger] s.reports[j]).0 < (#[trigger] s.reports[k]).0 by {
            assert(s.reports[j] == prev.reports[j]);
            if k < prev.reports.len() {
                assert(s.reports[k] == prev.reports[k]);
            }
        }
        if s.error is None {
            assert forall|i: int| 0 <= i < states.len() && !is_definite(#[trigger] states[i]) implies
                exists|j: int| 0 <= j < s.reports.len() && (#[trigger] s.reports[j]).0 == i by {
                if i < n {
                    assert(states.drop_last()[i] == states[i]);
                    let j = choose|j: int| 0 <= j < prev.reports.len() && (#[trigger] prev.reports[j]).0 == i;
                    assert(s.reports[j] == prev.reports[j]);
                } else {
                    assert(s.reports[prev.reports.len() as int].0 == n);
                }
            }
        }
        assert forall|j: int| 0 <= j < s.reports.len() implies exists|v: Value<F>|
            s.states[(#[trigger] s.reports[j]).0] == settled(v) && s.reports[j].1 == reported(v) by {
            if j < prev.reports.len() {
                let v = choose|v: Value<F>| prev.states[(#[trigger] prev.reports[j]).0] == settled(v) && prev.reports[j].1 == reported(v);
                assert(s.reports[j] == prev.reports[j]);
                assert(s.states[prev.reports[j].0] == prev.states[prev.reports[j].0]);
            }
        }
        assert forall|i: int| 0 <= i < states.len() && !(exists|j: int| 0 <= j < s.reports.len() && (#[trigger] s.reports[j]).0 == i)
            implies #[trigger] s.states[i] == states[i] by {
            if i < n {
                assert(states.drop_last()[i] == states[i]);
                if exists|j: int| 0 <= j < prev.reports.len() && (#[trigger] prev.reports[j]).0 == i {
                    let j = choose|j: int| 0 <= j < prev.reports.len() && (#[trigger] prev.reports[j]).0 == i;
                    assert(s.reports[j] == prev.reports[j]);
                }
                assert(s.states[i] == prev.states[i]);
            } else if s.reports.len() > prev.reports.len() {
                assert(s.reports[prev.reports.len() as int].0 == n);
            }
        }
    }
}

/// The states of a list of properties.
pub open spec fn states_of<F>(properties: Seq<Property<F>>) -> Seq<PropertyState<F>> {
    properties.map_values(|p: Property<F>| p.state)
}

impl<F: Copy> PropertyState<F> {
    /// An equal copy.
    pub fn duplicate(&self) -> (r: Self)
        ensures
            r == *self,
    {
        match self {
            PropertyState::Initial(formula) => PropertyState::Initial(formula.duplicate()),
            PropertyState::Residual(residual) => PropertyState::Residual(residual.duplicate()),
            PropertyState::DefinitelyTrue => PropertyState::DefinitelyTrue,
            PropertyState::DefinitelyFalse => PropertyState::DefinitelyFalse,
        }
    }
}

impl<F: Copy> Property<F> {
    /// A property that has not been evaluated yet.
    pub fn new(name: String, formula: Formula<F>) -> (r: Self)
        ensures
            r.name == name,
            r.state == PropertyState::Initial(formula),
    {
        Property { name, state: PropertyState::Initial(formula) }
    }

    /// Whether the property is decided.
    pub fn is_definite(&self) -> (r: bool)
        ensures
            r == is_definite(self.state),
    {
        matches!(self.state, PropertyState::DefinitelyTrue | PropertyState::DefinitelyFalse)
    }
}

/// One more property, stepped after the ones before it: its outcome is
/// that of its own thunk calls, which follow those made before.
pub proof fn lemma_steps_next<F, E>(
    states: Seq<PropertyState<F>>,
    time: Time,
    budget: nat,
    calls: Seq<ThunkCall<F, E>>,
    extra: Seq<ThunkCall<F, E>>,
)
    requires
        states.len() > 0,
        steps(states.drop_last(), time, budget, calls) matches Some(prev) && prev.error is None && prev.consumed == calls.len(),
    ensures
        ({
            let prev = steps(states.drop_last(), time, budget, calls)->0;
            let last = states.last();
            let index = states.len() - 1;
            &&& prev.consumed <= budget
            &&& steps(states.drop_last(), time, budget, calls + extra) == Some(prev)
            &&& steps(states, time, budget, calls + extra) == if is_definite(last) {
                Some(Steps { states: prev.states.push(last), ..prev })
            } else {
                match property_outcome(last, time, (budget - prev.consumed) as nat, extra) {
                    None => None,
                    Some((Err(e), k)) => Some(Steps {
                        states: prev.states.push(last),
                        reports: prev.reports,
                        error: Some(e),
                        consumed: prev.consumed + k,
                    }),
                    Some((Ok(v), k)) => Some(Steps {
                        states: prev.states.push(settled(v)),
                        reports: prev.reports.push((index, reported(v))),
                        error: None,
                        consumed: prev.consumed + k,
                    }),
                }
            }
        }),
{
    lemma_steps_prefix(states.drop_last(), time, budget, calls, extra);
    let prev = steps(states.drop_last(), time, budget, calls)->0;
    assert((calls + extra).skip(prev.consumed as int) =~= extra);
}

/// Evaluates an undecided property at `time`; a decided one is left alone.
fn evaluate_property<F: Copy, E, T: EvaluateThunk<F, E>>(
    state: &PropertyState<F>,
    evaluator: &mut Evaluator<F, E, T>,
    time: Time,
) -> (r: Option<Result<Value<F>, EvalError<E>>>)
    ensures
        Evaluator::continues(*old(evaluator), *final(evaluator)),
        is_definite(*state) ==> r is None && Evaluator::made_calls(*old(evaluator), *final(evaluator)).len() == 0,
        !is_definite(*state) ==> r is Some && property_outcome(*state, time, old(evaluator).budget(), Evaluator::made_calls(*old(evaluator), *final(evaluator)))
            == Some((r->0, Evaluator::made_calls(*old(evaluator), *final(evaluator)).len())),
{
    match state {
        PropertyState::Initial(formula) => Some(evaluator.evaluate(formula, time)),
        PropertyState::Residual(residual) => Some(evaluator.step(residual, time)),
        PropertyState::DefinitelyTrue | PropertyState::DefinitelyFalse => {
            assert(old(evaluator).calls().skip(old(evaluator).calls().len() as int).len() == 0);
            None
        },
    }
}

/// The state a property is left in after `value`, and what it reports.
fn settle<F: Copy>(value: Value<F>) -> (r: (PropertyState<F>, Value<F>))
    ensures
        r.0 == settled(value),
        r.1 == reported(value),
{
    match value {
        Value::True(_) => (PropertyState::DefinitelyTrue, Value::True(State::new())),
        Value::False(violation, continuation) => {
            let state = match continuation {
                Some(residual) => PropertyState::Residual(residual),
                None => PropertyState::DefinitelyFalse,
            };
            (state, Value::False(violation, None))
        },
        Value::Residual(residual) => (PropertyState::Residual(residual.duplicate()), Value::Residual(residual)),
    }
}

/// Steps `properties` at `time`: each undecided property is evaluated, or
/// its residual stepped, with `evaluator`, and its state and value follow
/// [steps]. The values come in the order of the properties, each with its
/// property's name.
#[verifier::spinoff_prover]
#[verifier::rlimit(40)]
pub fn step_properties<F: Copy, E, T: EvaluateThunk<F, E>>(
    properties: &mut Vec<Property<F>>,
    evaluator: &mut Evaluator<F, E, T>,
    time: Time,
) -> (r: Result<Vec<(String, Value<F>)>, EvalError<E>>)
    ensures
        Evaluator::continues(*old(evaluator), *final(evaluator)),
        steps(states_of(old(properties)@), time, old(evaluator).budget(), Evaluator::made_calls(*old(evaluator), *final(evaluator))) matches Some(s) && {
            &&& s.consumed == Evaluator::made_calls(*old(evaluator), *final(evaluator)).len()
            &&& states_of(final(properties)@) == s.states
            &&& final(properties)@.len() == old(properties)@.len()
            &&& forall|i: int| 0 <= i < old(properties)@.len() ==> #[trigger] final(properties)@[i].name == old(properties)@[i].name
            &&& match r {
                Err(e) => s.error == Some(e),
                Ok(values) => {
                    &&& s.error is None
                    &&& values@.len() == s.reports.len()
                    &&& forall|j: int| 0 <= j < values@.len() ==> {
                        &&& 0 <= (#[trigger] s.reports[j]).0 < old(properties)@.len()
                        &&& values@[j].0 == old(properties)@[s.reports[j].0].name
                        &&& values@[j].1 == s.reports[j].1
                    }
                },
            }
        },
{
    let ghost e0 = *evaluator;
    let ghost orig = properties@;
    let ghost all = states_of(orig);
    let mut values: Vec<(String, Value<F>)> = Vec::new();
    let mut i: usize = 0;
    assert(all.take(0) =~= Seq::<PropertyState<F>>::empty());
    assert(Evaluator::made_calls(e0, *evaluator) =~= Seq::<ThunkCall<F, E>>::empty());
    while i < properties.len()
        invariant
            i <= properties@.len(),
            e0 == *old(evaluator),
            orig == old(properties)@,
            properties@.len() == orig.len(),
            all == states_of(orig),
            Evaluator::continues(e0, *evaluator),
            forall|j: int| 0 <= j < orig.len() ==> #[trigger] properties@[j].name == orig[j].name,
            forall|j: int| i <= j < orig.len() ==> #[trigger] properties@[j].state == orig[j].state,
            steps(all.take(i as int), time, e0.budget(), Evaluator::made_calls(e0, *evaluator)) matches Some(s) && {
                &&& s.consumed == Evaluator::made_calls(e0, *evaluator).len()
                &&& s.error is None
                &&& s.states.len() == i
                &&& forall|j: int| 0 <= j < i ==> #[trigger] properties@[j].state == s.states[j]
                &&& values@.len() == s.reports.len()
                &&& forall|j: int| 0 <= j < values@.len() ==> {
                    &&& 0 <= (#[trigger] s.reports[j]).0 < i
                    &&& values@[j].0 == orig[s.reports[j].0].name
                    &&& values@[j].1 == s.reports[j].1
                }
            },
        decreases orig.len() - i,
    {
        let ghost before = *evaluator;
        let ghost c_before = Evaluator::made_calls(e0, before);
        let ghost prefix = all.take(i + 1);
        proof {
            assert(prefix.drop_last() =~= all.take(i as int));
            assert(prefix.last() == orig[i as int].state);
        }
        let outcome = evaluate_property(&properties[i].state, evaluator, time);
        let ghost made = Evaluator::made_calls(before, *evaluator);
        proof {
            assert(Evaluator::made_calls(e0, *evaluator) =~= c_before + made);
            lemma_steps_next(prefix, time, e0.budget(), c_before, made);
        }
        match outcome {
            None => {},
            Some(Err(e)) => {
                proof {
                    let s = steps(prefix, time, e0.budget(), c_before + made)->0;
                    lemma_steps_error_stays(all, i as int + 1, time, e0.budget(), c_before + made);
                    let t = steps(all, time, e0.budget(), c_before + made)->0;
                    assert forall|j: int| 0 <= j < orig.len() implies #[trigger] states_of(properties@)[j] == t.states[j] by {
                        if j > i {
                            assert(t.states[j] == all[j]);
                        }
                    }
                    assert(states_of(properties@) =~= t.states);
                }
                return Err(e);
            },
            Some(Ok(value)) => {
                let name = properties[i].name.clone();
                let (state, report) = settle(value);
                values.push((name.clone(), report));
                properties.set(i, Property { name, state });
            },
        }
        i = i + 1;
    }
    proof {
        assert(all.take(orig.len() as int) =~= all);
        let s = steps(all, time, e0.budget(), Evaluator::made_calls(e0, *evaluator))->0;
        assert(states_of(properties@) =~= s.states);
    }
    Ok(values)
}

/// Once a step has stopped on an error, the properties after the one that
/// failed keep their states, and nothing more is reported or called.
pub proof fn lemma_steps_error_stays<F, E>(
    states: Seq<PropertyState<F>>,
    n: int,
    time: Time,
    budget: nat,
    calls: Seq<ThunkCall<F, E>>,
)
    requires
        0 <= n <= states.len(),
        steps(states.take(n), time, budget, calls) matches Some(s) && s.error is Some,
    ensures
        steps(states, time, budget, calls) matches Some(t) && {
            let s = steps(states.take(n), time, budget, calls)->0;
            &&& t.error == s.error
            &&& t.reports == s.reports
            &&& t.consumed == s.consumed
            &&& t.states == s.states + states.skip(n)
        },
    decreases states.len() - n,
{
    if n < states.len() {
        assert(states.take(n + 1).drop_last() =~= states.take(n));
        lemma_steps_error_stays(states, n + 1, time, budget, calls);
        let s = steps(states.take(n), time, budget, calls)->0;
        assert(s.states.push(states[n]) + states.skip(n + 1) =~= s.states + states.skip(n));
    } else {
        assert(states.take(n) =~= states);
        let s = steps(states.take(n), time, budget, calls)->0;
        assert(s.states + states.skip(n) =~= s.states);
    }
}

/// Whether every property is decided.
pub fn all_definite<F: Copy>(properties: &Vec<Property<F>>) -> (r: bool)
    ensures
        r == forall|i: int| 0 <= i < properties@.len() ==> is_definite(#[trigger] properties@[i].state),
{
    let mut i: usize = 0;
    while i < properties.len()
        invariant
            i <= properties@.len(),
            forall|j: int| 0 <= j < i ==> is_definite(#[trigger] properties@[j].state),
        decreases properties@.len() - i,
    {
        if !properties[i].is_definite() {
            return false;
        }
        i = i + 1;
    }
    true
}

/// The tree of actions of a state: one branch of weight one for each
/// action generator, in order.
pub fn equally_weighted<A>(trees: Vec<Tree<A>>) -> (r: Tree<A>)
    ensures
        r matches Tree::Branch { branches } && branches@.len() == trees@.len() && forall|i: int|
            0 <= i < trees@.len() ==> #[trigger] branches@[i] == (1 as Weight, trees@[i]),
{
    let mut branches: Vec<(Weight, Tree<A>)> = Vec::new();
    for tree in it: trees.into_iter()
        invariant
            it.seq() == trees@,
            branches@.len() == it.index(),
            forall|i: int| 0 <= i < branches@.len() ==> #[trigger] branches@[i] == (1 as Weight, trees@[i]),
    {
        branches.push((1, tree));
    }
    Tree::Branch { branches }
}

/// What a step of a specification gives: the values that the undecided
/// properties reported, with their names, the tree of actions to go on
/// with, and whether every property is now decided.
pub struct StepResult<F, A> {
    pub properties: Vec<(String, Value<F>)>,
    pub actions: Tree<A>,
    pub all_definite: bool,
}

/// Completes a step once `properties` have been stepped, reporting
/// `values`, and the action generators have given `generated`: the
/// generators weighted equally, in order, and whether every property is
/// decided.
pub fn step_result<F: Copy, A>(
    properties: &Vec<Property<F>>,
    values: Vec<(String, Value<F>)>,
    generated: Vec<Tree<A>>,
) -> (r: StepResult<F, A>)
    ensures
        r.properties == values,
        r.actions matches Tree::Branch { branches } && branches@.len() == generated@.len() && forall|i: int|
            0 <= i < generated@.len() ==> #[trigger] branches@[i] == (1 as Weight, generated@[i]),
        r.all_definite == forall|i: int| 0 <= i < properties@.len() ==> is_definite(#[trigger] properties@[i].state),
{
    let actions = equally_weighted(generated);
    let all_definite = all_definite(properties);
    StepResult { properties: values, actions, all_definite }
}

} // verus!
