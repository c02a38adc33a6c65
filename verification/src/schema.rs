//! The form in which formulas and violations are reported: thunks are
//! named by the source text of their function.
use vstd::prelude::*;

use crate::formula::{EventuallyViolation as Reason, Formula as Internal};
use crate::time::{Duration, Time};

verus! {

/// Converts a value of the library to its reported form.
pub trait ToSchema<Output> {
    fn to_schema(&self) -> Output;
}

/// Converts a reported value back to the library's form.
pub trait ToInternal<Output> {
    fn to_internal(&self) -> Output;
}

/// A function of a specification, known by its source text.
#[derive(Debug, Clone, PartialEq)]
pub struct PrettyFunction(pub String);

/// A formula as it is reported.
#[derive(Debug, PartialEq)]
pub enum Formula {
    Pure { value: bool, pretty: String },
    Thunk { function: String, negated: bool },
    And(Box<Formula>, Box<Formula>),
    Or(Box<Formula>, Box<Formula>),
    Implies(Box<Formula>, Box<Formula>),
    Next(Box<Formula>),
    Always(Box<Formula>, Option<Duration>),
    Eventually(Box<Formula>, Option<Duration>),
}

impl Formula {
    /// An equal copy.
    pub fn duplicate(&self) -> (r: Formula)
        ensures
            r == *self,
        decreases self,
    {
        match self {
            Formula::Pure { value, pretty } => Formula::Pure { value: *value, pretty: pretty.clone() },
            Formula::Thunk { function, negated } => Formula::Thunk { function: function.clone(), negated: *negated },
            Formula::And(l, r) => Formula::And(Box::new(l.duplicate()), Box::new(r.duplicate())),
            Formula::Or(l, r) => Formula::Or(Box::new(l.duplicate()), Box::new(r.duplicate())),
            Formula::Implies(l, r) => Formula::Implies(Box::new(l.duplicate()), Box::new(r.duplicate())),
            Formula::Next(sub) => Formula::Next(Box::new(sub.duplicate())),
            Formula::Always(sub, bound) => Formula::Always(Box::new(sub.duplicate()), *bound),
            Formula::Eventually(sub, bound) => Formula::Eventually(Box::new(sub.duplicate()), *bound),
        }
    }
}

impl Clone for Formula {
    fn clone(&self) -> (r: Self)
        ensures
            r == *self,
    {
        self.duplicate()
    }
}

/// Why an `eventually` did not hold, as it is reported.
#[derive(Debug, Clone, Copy, PartialEq, Eq, Structural)]
pub enum EventuallyViolation {
    TimedOut(Time),
    TestEnded,
}

/// The reported form of a formula: the same shape, each thunk named by its
/// function's source text.
pub open spec fn formula_schema(f: Internal<PrettyFunction>) -> Formula
    decreases f,
{
    match f {
        Internal::Pure { value, pretty } => Formula::Pure { value, pretty },
        Internal::Thunk { function, negated } => Formula::Thunk { function: function.0, negated },
        Internal::And(l, r) => Formula::And(Box::new(formula_schema(*l)), Box::new(formula_schema(*r))),
        Internal::Or(l, r) => Formula::Or(Box::new(formula_schema(*l)), Box::new(formula_schema(*r))),
        Internal::Implies(l, r) => Formula::Implies(Box::new(formula_schema(*l)), Box::new(formula_schema(*r))),
        Internal::Next(sub) => Formula::Next(Box::new(formula_schema(*sub))),
        Internal::Always(sub, bound) => Formula::Always(Box::new(formula_schema(*sub)), bound),
        Internal::Eventually(sub, bound) => Formula::Eventually(Box::new(formula_schema(*sub)), bound),
    }
}

fn formula_to_schema(f: &Internal<PrettyFunction>) -> (r: Formula)
    ensures
        r == formula_schema(*f),
    decreases f,
{
    match f {
        Internal::Pure { value, pretty } => Formula::Pure { value: *value, pretty: pretty.clone() },
        Internal::Thunk { function, negated } => Formula::Thunk { function: function.0.clone(), negated: *negated },
        Internal::And(l, r) => Formula::And(Box::new(formula_to_schema(l)), Box::new(formula_to_schema(r))),
        Internal::Or(l, r) => Formula::Or(Box::new(formula_to_schema(l)), Box::new(formula_to_schema(r))),
        Internal::Implies(l, r) => Formula::Implies(Box::new(formula_to_schema(l)), Box::new(formula_to_schema(r))),
        Internal::Next(sub) => Formula::Next(Box::new(formula_to_schema(sub))),
        Internal::Always(sub, bound) => Formula::Always(Box::new(formula_to_schema(sub)), *bound),
        Internal::Eventually(sub, bound) => Formula::Eventually(Box::new(formula_to_schema(sub)), *bound),
    }
}

impl ToSchema<Formula> for Internal<PrettyFunction> {
    fn to_schema(&self) -> (r: Formula)
        ensures
            r == formula_schema(*self),
    {
        formula_to_schema(self)
    }
}

/// The reported form of why an `eventually` did not hold.
pub open spec fn reason_schema(reason: Reason) -> EventuallyViolation {
    match reason {
        Reason::TimedOut(t) => EventuallyViolation::TimedOut(t),
        Reason::TestEnded => EventuallyViolation::TestEnded,
    }
}

impl ToSchema<EventuallyViolation> for Reason {
    fn to_schema(&self) -> (r: EventuallyViolation)
        ensures
            r == reason_schema(*self),
    {
        match self {
            Reason::TimedOut(t) => EventuallyViolation::TimedOut(*t),
            Reason::TestEnded => EventuallyViolation::TestEnded,
        }
    }
}

impl ToInternal<Reason> for EventuallyViolation {
    fn to_internal(&self) -> (r: Reason)
        ensures
            reason_schema(r) == *self,
    {
        match self {
            EventuallyViolation::TimedOut(t) => Reason::TimedOut(*t),
            EventuallyViolation::TestEnded => Reason::TestEnded,
        }
    }
}

} // verus!
