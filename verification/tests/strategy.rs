use bombadil::strategy::{available_actions, browser_stop, count_violations, interrupted, ExitReason, TestResult};
use bombadil::time::Time;
use std::time::{Duration, SystemTime, UNIX_EPOCH};
use bombadil::tree::Tree;

#[test]
fn stop_reasons_come_in_order() {
    let result = |exit_reason| Some(TestResult { exit_reason, violations_count: 2 });
    assert_eq!(browser_stop(2, true, true, true, Some(at(0)), at(5)), result(ExitReason::ExitOnViolation));
    assert_eq!(browser_stop(2, false, true, true, Some(at(0)), at(5)), result(ExitReason::AllDefinite));
    assert_eq!(browser_stop(2, false, false, true, Some(at(0)), at(5)), result(ExitReason::Reproduced));
    assert_eq!(browser_stop(2, false, false, false, Some(at(5)), at(5)), result(ExitReason::TimeLimit));
    assert_eq!(browser_stop(2, false, false, false, Some(at(6)), at(5)), None);
    assert_eq!(browser_stop(0, true, false, false, None, at(5)), None);
}

#[test]
fn interruption_and_counting() {
    assert_eq!(interrupted(3), TestResult { exit_reason: ExitReason::Interrupted, violations_count: 3 });
    assert_eq!(count_violations(3, 4), 7);
}

#[derive(Debug, Clone, PartialEq)]
enum Action {
    Back,
    Click(u32),
}

#[test]
fn off_domain_only_back_is_available() {
    let tree = Tree::Branch {
        branches: vec![(1, Tree::Leaf { value: Action::Click(1) }), (2, Tree::Leaf { value: Action::Back })],
    };
    let is_back = |a: &Action| *a == Action::Back;
    let within = available_actions(tree, true, &is_back).unwrap();
    assert_eq!(within.values().len(), 2);

    let tree = Tree::Branch {
        branches: vec![(1, Tree::Leaf { value: Action::Click(1) }), (2, Tree::Leaf { value: Action::Back })],
    };
    let outside = available_actions(tree, false, &is_back).unwrap();
    assert_eq!(outside, Tree::Branch { branches: vec![(2, Tree::Leaf { value: Action::Back })] });

    let tree = Tree::Branch { branches: vec![(1, Tree::Leaf { value: Action::Click(1) })] };
    assert_eq!(available_actions(tree, false, &is_back), None);
}

use bombadil::eval::Value;
use bombadil::formula::Violation;
use bombadil::state::State;
use bombadil::strategy::{next_state, violations_of, DriverEvent, RunError};

#[test]
fn driver_events() {
    assert_eq!(next_state(Some(DriverEvent::StateChanged(7))), Ok(7));
    assert_eq!(next_state::<u8>(Some(DriverEvent::Error("gone".to_string()))), Err(RunError::Driver("gone".to_string())));
    assert_eq!(next_state::<u8>(None), Err(RunError::DriverClosed));
}

#[test]
fn violations_are_the_false_values() {
    let violation = |condition: &str| Violation::<u8>::False { time: Time(1), condition: condition.to_string(), state: State::Empty };
    let values = vec![
        ("a".to_string(), Value::True(State::Empty)),
        ("b".to_string(), Value::False(violation("b failed"), None)),
        ("c".to_string(), Value::False(violation("c failed"), None)),
    ];
    let found = violations_of(values);
    assert_eq!(found.len(), 2);
    assert_eq!(found[0].name, "b");
    assert_eq!(found[0].violation, violation("b failed"));
    assert_eq!(found[1].name, "c");
}

use bombadil::strategy::test_heading;

#[test]
fn headings() {
    assert_eq!(test_heading(None), "Test finished!");
    assert_eq!(
        test_heading(Some(TestResult { exit_reason: ExitReason::TimeLimit, violations_count: 0 })),
        "Test finished after time limit!"
    );
    assert_eq!(
        test_heading(Some(TestResult { exit_reason: ExitReason::Interrupted, violations_count: 1 })),
        "Test was interrupted by SIGINT, finding 1 violation!"
    );
    assert_eq!(
        test_heading(Some(TestResult { exit_reason: ExitReason::ExitOnViolation, violations_count: 12 })),
        "Test finished, finding 12 violations!"
    );
}

#[test]
fn the_deadline_is_compared_to_the_nanosecond() {
    assert_eq!(browser_stop(0, false, false, false, Some(at(1_001)), at(1_000)), None);
    assert_eq!(
        browser_stop(0, false, false, false, Some(at(1_001)), at(1_001)),
        Some(TestResult { exit_reason: ExitReason::TimeLimit, violations_count: 0 })
    );
}

fn at(nanos: u64) -> SystemTime {
    UNIX_EPOCH + Duration::from_nanos(nanos)
}
