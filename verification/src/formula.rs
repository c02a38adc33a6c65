use vstd::prelude::*;

use crate::state::State;
use crate::time::{Duration, Time};

verus! {

/// A formula of the temporal logic, in negation normal form. `F` stands for
/// the host-language functions that thunks call: the evaluator never looks
/// inside one, it hands it back to whoever evaluates thunks.
#[derive(Debug, PartialEq)]
pub enum Formula<F> {
    Pure { value: bool, pretty: String },
    Thunk { function: F, negated: bool },
    And(Box<Formula<F>>, Box<Formula<F>>),
    Or(Box<Formula<F>>, Box<Formula<F>>),
    Implies(Box<Formula<F>>, Box<Formula<F>>),
    Next(Box<Formula<F>>),
    Always(Box<Formula<F>>, Option<Duration>),
    Eventually(Box<Formula<F>>, Option<Duration>),
}

/// Why an `eventually` did not hold.
#[derive(Debug, Clone, Copy, PartialEq, Eq)]
pub enum EventuallyViolation {
    TimedOut(Time),
    TestEnded,
}

/// An explanation of why a formula does not hold.
#[derive(Debug, PartialEq)]
pub enum Violation<F> {
    False { time: Time, condition: String, state: State },
    Eventually { subformula: Box<Formula<F>>, reason: EventuallyViolation },
    Always {
        violation: Box<Violation<F>>,
        subformula: Box<Formula<F>>,
        start: Time,
        end: Option<Time>,
        time: Time,
    },
    And { left: Box<Violation<F>>, right: Box<Violation<F>> },
    Or { left: Box<Violation<F>>, right: Box<Violation<F>> },
    Implies { left: Formula<F>, right: Box<Violation<F>>, state: State },
}

impl<F: Copy> Formula<F> {
    /// An equal copy.
    pub fn duplicate(&self) -> (r: Formula<F>)
        ensures
            r == *self,
        decreases self,
    {
        match self {
            Formula::Pure { value, pretty } => Formula::Pure { value: *value, pretty: pretty.clone() },
            Formula::Thunk { function, negated } => Formula::Thunk {
                function: *function,
                negated: *negated,
            },
            Formula::And(l, r) => Formula::And(Box::new(l.duplicate()), Box::new(r.duplicate())),
            Formula::Or(l, r) => Formula::Or(Box::new(l.duplicate()), Box::new(r.duplicate())),
            Formula::Implies(l, r) => Formula::Implies(
                Box::new(l.duplicate()),
                Box::new(r.duplicate()),
            ),
            Formula::Next(f) => Formula::Next(Box::new(f.duplicate())),
            Formula::Always(f, bound) => Formula::Always(Box::new(f.duplicate()), *bound),
            Formula::Eventually(f, bound) => Formula::Eventually(Box::new(f.duplicate()), *bound),
        }
    }
}

impl<F: Copy> Clone for Formula<F> {
    fn clone(&self) -> (r: Formula<F>)
        ensures
            r == *self,
    {
        self.duplicate()
    }
}

impl<F: Copy> Violation<F> {
    /// An equal copy.
    pub fn duplicate(&self) -> (r: Violation<F>)
        ensures
            r == *self,
        decreases self,
    {
        match self {
            Violation::False { time, condition, state } => Violation::False {
                time: *time,
                condition: condition.clone(),
                state: state.duplicate(),
            },
            Violation::Eventually { subformula, reason } => Violation::Eventually {
                subformula: Box::new(subformula.duplicate()),
                reason: *reason,
            },
            Violation::Always { violation, subformula, start, end, time } => Violation::Always {
                violation: Box::new(violation.duplicate()),
                subformula: Box::new(subformula.duplicate()),
                start: *start,
                end: *end,
                time: *time,
            },
            Violation::And { left, right } => Violation::And {
                left: Box::new(left.duplicate()),
                right: Box::new(right.duplicate()),
            },
            Violation::Or { left, right } => Violation::Or {
                left: Box::new(left.duplicate()),
                right: Box::new(right.duplicate()),
            },
            Violation::Implies { left, right, state } => Violation::Implies {
                left: left.duplicate(),
                right: Box::new(right.duplicate()),
                state: state.duplicate(),
            },
        }
    }
}

impl<F: Copy> Clone for Violation<F> {
    fn clone(&self) -> (r: Violation<F>)
        ensures
            r == *self,
    {
        self.duplicate()
    }
}

} // verus!
