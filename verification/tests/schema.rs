use bombadil::formula::{EventuallyViolation as Reason, Formula as Internal};
use bombadil::schema::{EventuallyViolation, Formula, PrettyFunction, ToInternal, ToSchema};
use bombadil::time::{Duration, Time};

#[test]
fn formulas_are_reported_with_function_text() {
    let internal: Internal<PrettyFunction> = Internal::Always(
        Box::new(Internal::Implies(
            Box::new(Internal::Thunk { function: PrettyFunction("() => x > 1".to_string()), negated: true }),
            Box::new(Internal::Pure { value: false, pretty: "false".to_string() }),
        )),
        Some(Duration::from_secs(3)),
    );
    let expected = Formula::Always(
        Box::new(Formula::Implies(
            Box::new(Formula::Thunk { function: "() => x > 1".to_string(), negated: true }),
            Box::new(Formula::Pure { value: false, pretty: "false".to_string() }),
        )),
        Some(Duration::from_secs(3)),
    );
    assert_eq!(internal.to_schema(), expected);
    assert_eq!(expected.clone(), expected);
}

#[test]
fn eventually_reasons_convert_both_ways() {
    assert_eq!(Reason::TimedOut(Time(9)).to_schema(), EventuallyViolation::TimedOut(Time(9)));
    assert_eq!(EventuallyViolation::TestEnded.to_internal(), Reason::TestEnded);
}
