use std::collections::BTreeSet;

use bombadil::eval::{EvalError, EvaluateThunk, Evaluator, Residual, Value};
use bombadil::formula::{Formula, Violation};
use bombadil::state::{SnapshotKey, State};
use bombadil::time::Time;

#[derive(Copy, Clone, Debug, PartialEq)]
enum Variable {
    X,
    Y,
    Z,
}

fn variable_index(variable: &Variable) -> usize {
    match variable {
        Variable::X => 0,
        Variable::Y => 1,
        Variable::Z => 2,
    }
}

fn t0() -> Time {
    Time(0)
}

fn time_from_millis(millis: u64) -> Time {
    Time(millis * 1000)
}

fn time_from_secs(secs: u64) -> Time {
    Time(secs * 1_000_000)
}

fn snapshot_name(index: usize) -> String {
    match index {
        0 => "x_val".to_string(),
        1 => "y_val".to_string(),
        2 => "z_val".to_string(),
        _ => format!("snapshot {}", index),
    }
}

fn names(state: &State) -> Vec<String> {
    state.key_list().iter().map(|key| snapshot_name(key.index)).collect()
}

fn variable_snapshot(variable: &Variable) -> State {
    State::singleton(SnapshotKey { index: variable_index(variable), time: t0() })
}

fn thunk(variable: Variable) -> Formula<Variable> {
    Formula::Thunk { function: variable, negated: false }
}

fn pure(value: bool) -> Formula<Variable> {
    Formula::Pure { value, pretty: format!("{}", value) }
}

#[derive(Clone, Copy)]
struct EvalState {
    x: bool,
    y: bool,
    z: bool,
}

impl EvalState {
    fn value(&self, variable: &Variable, negated: bool) -> bool {
        let value = match variable {
            Variable::X => self.x,
            Variable::Y => self.y,
            Variable::Z => self.z,
        };
        if negated {
            !value
        } else {
            value
        }
    }
}

/// Thunks that read the value of their variable.
struct Plain(EvalState);

impl EvaluateThunk<Variable, ()> for Plain {
    fn evaluate_thunk(&mut self, variable: &Variable, negated: bool) -> Result<(Formula<Variable>, State), ()> {
        let value = self.0.value(variable, negated);
        Ok((
            Formula::Pure { value, pretty: format!("{:?}={}", variable, value) },
            variable_snapshot(variable),
        ))
    }
}

/// The thunk of `x` returns `true => y`; the others read their variable.
struct OuterImplies(EvalState);

impl EvaluateThunk<Variable, ()> for OuterImplies {
    fn evaluate_thunk(&mut self, variable: &Variable, negated: bool) -> Result<(Formula<Variable>, State), ()> {
        let value = self.0.value(variable, negated);
        match variable {
            Variable::X => Ok((
                Formula::Implies(Box::new(pure(true)), Box::new(thunk(Variable::Y))),
                variable_snapshot(variable),
            )),
            _ => Ok((
                Formula::Pure { value, pretty: format!("{:?}={}", variable, value) },
                variable_snapshot(variable),
            )),
        }
    }
}

/// The thunk of `x` returns `y => z`; the others read their variable in
/// the state that is current.
struct OuterAlways(EvalState);

impl EvaluateThunk<Variable, ()> for OuterAlways {
    fn evaluate_thunk(&mut self, variable: &Variable, negated: bool) -> Result<(Formula<Variable>, State), ()> {
        let value = self.0.value(variable, negated);
        match variable {
            Variable::X => Ok((
                Formula::Implies(Box::new(thunk(Variable::Y)), Box::new(thunk(Variable::Z))),
                variable_snapshot(variable),
            )),
            _ => Ok((
                Formula::Pure { value, pretty: format!("{:?}={}", variable, value) },
                variable_snapshot(variable),
            )),
        }
    }
}

fn evaluate_with_state(formula: &Formula<Variable>, eval_state: &EvalState) -> Value<Variable> {
    let mut evaluator = Evaluator::new(Plain(*eval_state));
    evaluator.evaluate(formula, t0()).unwrap()
}

fn step_with_state(residual: &Residual<Variable>, eval_state: &EvalState, time: Time) -> Value<Variable> {
    let mut evaluator = Evaluator::new(Plain(*eval_state));
    evaluator.step(residual, time).unwrap()
}

fn state_names(value: &Value<Variable>) -> Vec<String> {
    match value {
        Value::True(state) => names(state),
        Value::False(violation, _) => violation_state_names(violation),
        Value::Residual(_) => vec![],
    }
}

fn violation_state_names(violation: &Violation<Variable>) -> Vec<String> {
    match violation {
        Violation::False { state, .. } => names(state),
        Violation::Implies { state, right, .. } => {
            let mut all = names(state);
            all.extend(violation_state_names(right));
            all
        }
        _ => vec![],
    }
}

#[test]
fn test_and_merges_snapshots_when_both_true() {
    let eval_state = EvalState { x: true, y: true, z: false };
    let formula = Formula::And(Box::new(thunk(Variable::X)), Box::new(thunk(Variable::Y)));
    let value = evaluate_with_state(&formula, &eval_state);
    assert!(matches!(value, Value::True(_)));
    let names = state_names(&value);
    assert!(names.contains(&"x_val".to_string()));
    assert!(names.contains(&"y_val".to_string()));
}

#[test]
fn test_and_preserves_left_snapshots_with_residual() {
    let eval_state = EvalState { x: true, y: true, z: false };
    let formula = Formula::And(
        Box::new(thunk(Variable::X)),
        Box::new(Formula::Next(Box::new(thunk(Variable::Y)))),
    );
    let value = evaluate_with_state(&formula, &eval_state);
    assert!(matches!(value, Value::Residual(_)));

    if let Value::Residual(residual) = &value {
        let time = time_from_millis(1);
        let stepped = step_with_state(residual, &eval_state, time);
        assert!(matches!(stepped, Value::True(_)));
        let names = state_names(&stepped);
        assert!(names.contains(&"x_val".to_string()), "left snapshots lost: {:?}", names);
        assert!(names.contains(&"y_val".to_string()), "right snapshots lost: {:?}", names);
    }
}

#[test]
fn test_and_preserves_right_snapshots_with_residual() {
    let eval_state = EvalState { x: true, y: true, z: false };
    let formula = Formula::And(
        Box::new(Formula::Next(Box::new(thunk(Variable::X)))),
        Box::new(thunk(Variable::Y)),
    );
    let value = evaluate_with_state(&formula, &eval_state);
    assert!(matches!(value, Value::Residual(_)));

    if let Value::Residual(residual) = &value {
        let time = time_from_millis(1);
        let stepped = step_with_state(residual, &eval_state, time);
        assert!(matches!(stepped, Value::True(_)));
        let names = state_names(&stepped);
        assert!(names.contains(&"x_val".to_string()), "left snapshots lost: {:?}", names);
        assert!(names.contains(&"y_val".to_string()), "right snapshots lost: {:?}", names);
    }
}

#[test]
fn test_implies_after_and_has_all_antecedent_snapshots() {
    let eval_state = EvalState { x: true, y: true, z: false };
    let antecedent = Formula::And(Box::new(thunk(Variable::X)), Box::new(thunk(Variable::Y)));
    let formula = Formula::Implies(Box::new(antecedent), Box::new(thunk(Variable::Z)));
    let value = evaluate_with_state(&formula, &eval_state);
    assert!(matches!(value, Value::False(_, _)));
    if let Value::False(violation, _) = &value {
        let names = violation_state_names(violation);
        assert!(names.contains(&"x_val".to_string()), "x snapshots missing from antecedent: {:?}", names);
        assert!(names.contains(&"y_val".to_string()), "y snapshots missing from antecedent: {:?}", names);
    }
}

#[test]
fn test_always_implies_and_has_all_antecedent_snapshots() {
    let antecedent = Formula::And(Box::new(thunk(Variable::X)), Box::new(thunk(Variable::Y)));
    let inner = Formula::Implies(Box::new(antecedent), Box::new(thunk(Variable::Z)));
    let formula = Formula::Always(Box::new(inner), None);

    let state1 = EvalState { x: true, y: true, z: true };
    let value = evaluate_with_state(&formula, &state1);
    assert!(matches!(value, Value::Residual(_)));

    if let Value::Residual(residual) = &value {
        let state2 = EvalState { x: true, y: true, z: false };
        let time = time_from_millis(1);
        let stepped = step_with_state(residual, &state2, time);
        assert!(matches!(stepped, Value::False(_, _)));
        if let Value::False(Violation::Always { violation, .. }, _) = &stepped {
            let names = violation_state_names(violation);
            assert!(names.contains(&"x_val".to_string()), "x snapshots missing: {:?}", names);
            assert!(names.contains(&"y_val".to_string()), "y snapshots missing: {:?}", names);
        } else {
            panic!("expected Always violation, got: {:?}", stepped);
        }
    }
}

#[test]
fn test_or_merges_snapshots_when_both_true() {
    let eval_state = EvalState { x: true, y: true, z: false };
    let formula = Formula::Or(Box::new(thunk(Variable::X)), Box::new(thunk(Variable::Y)));
    let value = evaluate_with_state(&formula, &eval_state);
    assert!(matches!(value, Value::True(_)));
    let names = state_names(&value);
    assert!(names.contains(&"x_val".to_string()));
    assert!(names.contains(&"y_val".to_string()));
}

#[test]
fn test_or_true_short_circuits_with_snapshots() {
    let eval_state = EvalState { x: true, y: true, z: false };
    let formula = Formula::Or(
        Box::new(thunk(Variable::X)),
        Box::new(Formula::Next(Box::new(thunk(Variable::Y)))),
    );
    let value = evaluate_with_state(&formula, &eval_state);
    assert!(matches!(value, Value::True(_)));
    let names = state_names(&value);
    assert!(names.contains(&"x_val".to_string()), "x snapshots lost: {:?}", names);
}

#[test]
fn test_implies_after_or_has_all_antecedent_snapshots() {
    let eval_state = EvalState { x: true, y: true, z: false };
    let antecedent = Formula::Or(Box::new(thunk(Variable::X)), Box::new(thunk(Variable::Y)));
    let formula = Formula::Implies(Box::new(antecedent), Box::new(thunk(Variable::Z)));
    let value = evaluate_with_state(&formula, &eval_state);
    assert!(matches!(value, Value::False(_, _)));
    if let Value::False(violation, _) = &value {
        let names = violation_state_names(violation);
        assert!(names.contains(&"x_val".to_string()), "x snapshots missing from antecedent: {:?}", names);
        assert!(names.contains(&"y_val".to_string()), "y snapshots missing from antecedent: {:?}", names);
    }
}

/// Which thunks' truth made a non-temporal formula true, computed without
/// the evaluator: `Some` of their indices when it is true, `None` when not.
fn truth_contributing(formula: &Formula<Variable>, state_x: bool, state_y: bool) -> Option<BTreeSet<usize>> {
    match formula {
        Formula::Pure { value, .. } => {
            if *value {
                Some(BTreeSet::new())
            } else {
                None
            }
        }
        Formula::Thunk { function, negated } => {
            let raw = match function {
                Variable::X => state_x,
                Variable::Y => state_y,
                Variable::Z => unreachable!(),
            };
            let value = if *negated { !raw } else { raw };
            if value {
                Some(BTreeSet::from([variable_index(function)]))
            } else {
                None
            }
        }
        Formula::And(left, right) => {
            let l = truth_contributing(left, state_x, state_y);
            let r = truth_contributing(right, state_x, state_y);
            match (l, r) {
                (Some(mut a), Some(b)) => {
                    a.extend(b);
                    Some(a)
                }
                _ => None,
            }
        }
        Formula::Or(left, right) => {
            let l = truth_contributing(left, state_x, state_y);
            let r = truth_contributing(right, state_x, state_y);
            match (l, r) {
                (Some(mut a), Some(b)) => {
                    a.extend(b);
                    Some(a)
                }
                (some @ Some(_), None) | (None, some @ Some(_)) => some,
                (None, None) => None,
            }
        }
        Formula::Implies(left, right) => {
            let l = truth_contributing(left, state_x, state_y);
            let r = truth_contributing(right, state_x, state_y);
            match (l, r) {
                (None, _) => Some(BTreeSet::new()),
                (Some(mut a), Some(b)) => {
                    a.extend(b);
                    Some(a)
                }
                (Some(_), None) => None,
            }
        }
        _ => unreachable!("non-temporal formulas only"),
    }
}

/// The non-temporal formulas in negation normal form up to `depth`.
fn nontemporal_formulas(depth: u32) -> Vec<Formula<Variable>> {
    let mut leaves = vec![pure(true), pure(false)];
    for variable in [Variable::X, Variable::Y] {
        for negated in [false, true] {
            leaves.push(Formula::Thunk { function: variable, negated });
        }
    }
    if depth == 0 {
        return leaves;
    }
    let smaller = nontemporal_formulas(depth - 1);
    let mut all = leaves;
    for l in &smaller {
        for r in &smaller {
            all.push(Formula::And(Box::new(l.clone()), Box::new(r.clone())));
            all.push(Formula::Or(Box::new(l.clone()), Box::new(r.clone())));
            all.push(Formula::Implies(Box::new(l.clone()), Box::new(r.clone())));
        }
    }
    all
}

#[test]
fn test_true_snapshots_equal_truth_contributing() {
    for formula in nontemporal_formulas(1) {
        for state_x in [false, true] {
            for state_y in [false, true] {
                let eval_state = EvalState { x: state_x, y: state_y, z: false };
                let expected = truth_contributing(&formula, state_x, state_y);
                let value = evaluate_with_state(&formula, &eval_state);
                match (&expected, &value) {
                    (Some(expected_indices), Value::True(state)) => {
                        let actual: BTreeSet<usize> = state.key_list().iter().map(|key| key.index).collect();
                        assert_eq!(expected_indices, &actual, "formula: {:?}, x={}, y={}", formula, state_x, state_y);
                    }
                    (None, Value::False(_, _)) => {}
                    (Some(_), Value::False(_, _)) => {
                        panic!("oracle=true, evaluator=false: {:?}, x={}, y={}", formula, state_x, state_y)
                    }
                    (None, Value::True(_)) => {
                        panic!("oracle=false, evaluator=true: {:?}, x={}, y={}", formula, state_x, state_y)
                    }
                    (_, Value::Residual(_)) => panic!("non-temporal formula produced Residual"),
                }
            }
        }
    }
}

#[test]
fn test_thunk_returning_implies_preserves_outer_snapshots() {
    let eval_state = EvalState { x: true, y: false, z: false };
    let mut evaluator = Evaluator::new(OuterImplies(eval_state));
    let value = evaluator.evaluate(&thunk(Variable::X), t0()).unwrap();

    assert!(matches!(value, Value::False(_, _)));
    if let Value::False(violation, _) = &value {
        let names = violation_state_names(violation);
        assert!(
            names.contains(&"x_val".to_string()),
            "x snapshot from outer thunk missing from antecedent: {:?}",
            names
        );
        assert!(names.contains(&"y_val".to_string()), "y snapshot from consequent missing: {:?}", names);
    }
}

fn residual_depth(root: &Residual<Variable>) -> usize {
    let mut stack: Vec<(&Residual<Variable>, usize)> = vec![(root, 1)];
    let mut max_depth = 0;
    while let Some((residual, depth)) = stack.pop() {
        max_depth = max_depth.max(depth);
        match residual {
            Residual::True(_) | Residual::False(_) | Residual::Derived(_, _) => {}
            Residual::And { left, right }
            | Residual::Or { left, right }
            | Residual::OrEventually { left, right, .. }
            | Residual::AndAlways { left, right, .. }
            | Residual::Implies { left, right, .. } => {
                stack.push((left, depth + 1));
                stack.push((right, depth + 1));
            }
        }
    }
    max_depth
}

#[test]
fn test_always_next_residual_stays_bounded() {
    let eval_state = EvalState { x: true, y: true, z: true };
    let formula: Formula<Variable> =
        Formula::Always(Box::new(Formula::Next(Box::new(pure(true)))), None);
    let mut value = evaluate_with_state(&formula, &eval_state);
    for i in 1..=2000u64 {
        let residual = match value {
            Value::Residual(residual) => residual,
            other => panic!("expected residual at step {}, got {:?}", i, other),
        };
        let depth = residual_depth(&residual);
        assert!(depth <= 4, "residual depth grew to {} at step {}", depth, i);
        value = step_with_state(&residual, &eval_state, time_from_millis(i));
    }
}

#[test]
fn test_always_with_outer_thunk_preserves_snapshots() {
    let state_t0 = EvalState { x: true, y: true, z: true };
    let state_t1 = EvalState { x: true, y: true, z: false };
    let time_t0 = t0();
    let time_t1 = time_from_secs(1);

    let mut evaluator = Evaluator::new(OuterAlways(state_t0));
    let value = evaluator
        .evaluate(&Formula::Always(Box::new(thunk(Variable::X)), None), time_t0)
        .unwrap();
    assert!(matches!(value, Value::Residual(_)));

    let residual = match value {
        Value::Residual(r) => r,
        _ => unreachable!(),
    };
    let mut evaluator = Evaluator::new(OuterAlways(state_t1));
    let value = evaluator.step(&residual, time_t1).unwrap();

    assert!(matches!(value, Value::False(_, _)));
    if let Value::False(Violation::Always { violation, .. }, _) = &value {
        if let Violation::Implies { state, right, .. } = violation.as_ref() {
            let names = names(state);
            assert!(
                names.contains(&"x_val".to_string()),
                "x snapshot from outer thunk missing from antecedent: {:?}",
                names
            );
            assert!(names.contains(&"y_val".to_string()), "y snapshot missing from antecedent: {:?}", names);
            if let Violation::False { state: consequent_state, .. } = right.as_ref() {
                let consequent_names = self::names(consequent_state);
                assert!(
                    consequent_names.contains(&"z_val".to_string()),
                    "z snapshot missing from consequent: {:?}",
                    consequent_names
                );
            }
        } else {
            panic!("Expected Implies violation, got: {:?}", violation);
        }
    } else {
        panic!("Expected Always(Implies(...)) violation, got: {:?}", value);
    }
}

/// Thunks that fail.
struct Failing;

impl EvaluateThunk<Variable, &'static str> for Failing {
    fn evaluate_thunk(&mut self, _variable: &Variable, _negated: bool) -> Result<(Formula<Variable>, State), &'static str> {
        Err("thunk failed")
    }
}

#[test]
fn thunk_errors_are_reported() {
    let mut evaluator = Evaluator::new(Failing);
    let formula = Formula::And(Box::new(pure(true)), Box::new(thunk(Variable::X)));
    assert_eq!(evaluator.evaluate(&formula, t0()), Err(EvalError::Thunk("thunk failed")));
}

#[test]
fn test_next_disjunction_distributivity() {
    for x in [false, true] {
        for y in [false, true] {
            let eval_state = EvalState { x, y, z: false };
            let left = Formula::Next(Box::new(Formula::Or(Box::new(thunk(Variable::X)), Box::new(thunk(Variable::Y)))));
            let right = Formula::Or(
                Box::new(Formula::Next(Box::new(thunk(Variable::X)))),
                Box::new(Formula::Next(Box::new(thunk(Variable::Y)))),
            );
            let (Value::Residual(l), Value::Residual(r)) =
                (evaluate_with_state(&left, &eval_state), evaluate_with_state(&right, &eval_state))
            else {
                panic!("next gives a residual");
            };
            let stepped_left = step_with_state(&l, &eval_state, time_from_millis(1));
            let stepped_right = step_with_state(&r, &eval_state, time_from_millis(1));
            assert_eq!(matches!(stepped_left, Value::True(_)), matches!(stepped_right, Value::True(_)));
            assert_eq!(matches!(stepped_left, Value::False(_, _)), matches!(stepped_right, Value::False(_, _)));
        }
    }
}
