use bombadil::eval::{EvaluateThunk, Evaluator, Value};
use bombadil::formula::Formula;
use bombadil::properties::{all_definite, equally_weighted, step_properties, step_result, Property, PropertyState};
use bombadil::state::{SnapshotKey, State};
use bombadil::time::Time;
use bombadil::tree::Tree;

/// A thunk that reads a number and compares it with its function's bound.
struct Below(u64);

impl EvaluateThunk<u64, ()> for Below {
    fn evaluate_thunk(&mut self, bound: &u64, negated: bool) -> Result<(Formula<u64>, State), ()> {
        let value = (self.0 < *bound) != negated;
        Ok((Formula::Pure { value, pretty: format!("{} < {}", self.0, bound) }, State::singleton(SnapshotKey { index: 0, time: Time(0) })))
    }
}

fn below(bound: u64) -> Formula<u64> {
    Formula::Thunk { function: bound, negated: false }
}

#[test]
fn properties_are_stepped_and_decided() {
    let mut properties = vec![
        Property::new("always_below_5".to_string(), Formula::Always(Box::new(below(5)), None)),
        Property::new("now_below_3".to_string(), below(3)),
        Property::new("now_below_1".to_string(), below(1)),
    ];

    let mut evaluator = Evaluator::new(Below(2));
    let values = step_properties(&mut properties, &mut evaluator, Time(0)).unwrap();
    assert_eq!(values.len(), 3);
    assert_eq!(values[0].0, "always_below_5");
    assert!(matches!(values[0].1, Value::Residual(_)));
    assert_eq!(values[1].0, "now_below_3");
    assert!(matches!(values[1].1, Value::True(State::Empty)));
    assert_eq!(values[2].0, "now_below_1");
    assert!(matches!(values[2].1, Value::False(_, None)));
    assert!(matches!(properties[0].state, PropertyState::Residual(_)));
    assert!(matches!(properties[1].state, PropertyState::DefinitelyTrue));
    assert!(matches!(properties[2].state, PropertyState::DefinitelyFalse));
    assert!(!all_definite(&properties));

    // Decided properties report nothing more.
    let mut evaluator = Evaluator::new(Below(7));
    let values = step_properties(&mut properties, &mut evaluator, Time(1000)).unwrap();
    assert_eq!(values.len(), 1);
    assert_eq!(values[0].0, "always_below_5");
    assert!(matches!(values[0].1, Value::False(_, None)));
    // An `always` goes on after a violation.
    assert!(matches!(properties[0].state, PropertyState::Residual(_)));
}

#[test]
fn all_definite_when_every_property_is_decided() {
    let mut properties = vec![Property::new("p".to_string(), below(3)), Property::new("q".to_string(), below(1))];
    let mut evaluator = Evaluator::new(Below(2));
    step_properties(&mut properties, &mut evaluator, Time(0)).unwrap();
    assert!(all_definite(&properties));
    let empty: Vec<Property<u64>> = vec![];
    assert!(all_definite(&empty));
}

#[test]
fn generators_are_weighted_equally() {
    let tree = equally_weighted(vec![Tree::Leaf { value: 'a' }, Tree::Branch { branches: vec![(5, Tree::Leaf { value: 'b' })] }]);
    assert_eq!(
        tree,
        Tree::Branch {
            branches: vec![(1, Tree::Leaf { value: 'a' }), (1, Tree::Branch { branches: vec![(5, Tree::Leaf { value: 'b' })] })]
        }
    );
}

#[test]
fn a_step_gives_the_reports_the_actions_and_whether_all_is_decided() {
    let mut properties = vec![Property::new("p".to_string(), below(3)), Property::new("q".to_string(), below(1))];
    let mut evaluator = Evaluator::new(Below(2));
    let values = step_properties(&mut properties, &mut evaluator, Time(0)).unwrap();
    let result = step_result(&properties, values, vec![Tree::Leaf { value: 'x' }, Tree::Leaf { value: 'y' }]);
    assert_eq!(result.properties.len(), 2);
    assert_eq!(result.properties[0].0, "p");
    assert_eq!(result.properties[1].0, "q");
    assert!(result.all_definite);
    assert_eq!(
        result.actions,
        Tree::Branch { branches: vec![(1, Tree::Leaf { value: 'x' }), (1, Tree::Leaf { value: 'y' })] }
    );
}
