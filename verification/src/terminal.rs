//! Testing a program in a terminal: its actions, the states it goes
//! through, when a test stops, and which action it takes next.
use vstd::prelude::*;

use std::collections::VecDeque;
use std::time::SystemTime;


use vstd::string::StringExecFns;
use vstd::utf8::encode_utf8;

use crate::duration::{decimal_text, push_decimal};

use crate::strategy::deadline_reached;
use crate::terminal_grid::{ProcessExitStatus, TerminalGrid};
use crate::tree::{
    breadth_first, draws_between, drew_more, pick_outcome, pruned, reachable, top_size, weights_positive, PickError,
    RandomSource, Tree,
};

verus! {

/// The size of the terminal that the program runs in.
#[derive(Copy, Clone, Debug, PartialEq, Eq, Structural)]
pub struct Size {
    pub columns: u16,
    pub rows: u16,
}

impl Size {
    /// The number of cells of a terminal of this size.
    pub fn cell_count(&self) -> (r: u32)
        ensures
            r == self.columns * self.rows,
    {
        assert(self.columns * self.rows <= 65535 * 65535) by (nonlinear_arith)
            requires
                self.columns <= 65535,
                self.rows <= 65535,
        ;
        self.columns as u32 * self.rows as u32
    }
}

/// An action on the terminal.
#[derive(Debug)]
pub enum TerminalAction {
    /// Type the text.
    TypeText { text: String },
    /// Press the key of the character with this code.
    PressKey { code: u32 },
    /// Resize the terminal.
    Resize { size: Size },
    /// Scroll to the top.
    ScrollUp {},
    /// Scroll to the bottom.
    ScrollDown {},
}

impl Clone for TerminalAction {
    fn clone(&self) -> (r: Self)
        ensures
            r == *self,
    {
        match self {
            TerminalAction::TypeText { text } => TerminalAction::TypeText { text: text.clone() },
            TerminalAction::PressKey { code } => TerminalAction::PressKey { code: *code },
            TerminalAction::Resize { size } => TerminalAction::Resize { size: *size },
            TerminalAction::ScrollUp {} => TerminalAction::ScrollUp {},
            TerminalAction::ScrollDown {} => TerminalAction::ScrollDown {},
        }
    }
}

/// Two actions are the same action: the same kind, with the same text, key
/// or size. (Two actions that serialize to the same JSON value are exactly
/// these.)
pub open spec fn same_action(a: TerminalAction, b: TerminalAction) -> bool {
    match (a, b) {
        (TerminalAction::TypeText { text: x }, TerminalAction::TypeText { text: y }) => x@ == y@,
        (TerminalAction::PressKey { code: x }, TerminalAction::PressKey { code: y }) => x == y,
        (TerminalAction::Resize { size: x }, TerminalAction::Resize { size: y }) => x == y,
        (TerminalAction::ScrollUp {}, TerminalAction::ScrollUp {}) => true,
        (TerminalAction::ScrollDown {}, TerminalAction::ScrollDown {}) => true,
        _ => false,
    }
}

/// Matching actions is an equivalence: every action matches itself, and a
/// match goes both ways and carries over; actions of different kinds never
/// match, and two of one kind match exactly when their text, key or size
/// are equal.
pub proof fn law_actions_match_by_kind_and_contents(a: TerminalAction, b: TerminalAction, c: TerminalAction)
    ensures
        same_action(a, a),
        same_action(a, b) == same_action(b, a),
        same_action(a, b) && same_action(b, c) ==> same_action(a, c),
        (a is TypeText && !(b is TypeText)) || (a is PressKey && !(b is PressKey)) || (a is Resize && !(b is Resize))
            || (a is ScrollUp && !(b is ScrollUp)) || (a is ScrollDown && !(b is ScrollDown)) ==> !same_action(a, b),
        a is TypeText && b is TypeText ==> (same_action(a, b) <==> a->TypeText_text@ == b->TypeText_text@),
        a is PressKey && b is PressKey ==> (same_action(a, b) <==> a->PressKey_code == b->PressKey_code),
        a is Resize && b is Resize ==> (same_action(a, b) <==> a->Resize_size == b->Resize_size),
{
}

/// Whether two actions are the same action.
pub fn actions_match(a: &TerminalAction, b: &TerminalAction) -> (r: bool)
    ensures
        r == same_action(*a, *b),
{
    match (a, b) {
        (TerminalAction::TypeText { text: x }, TerminalAction::TypeText { text: y }) => x.eq(y),
        (TerminalAction::PressKey { code: x }, TerminalAction::PressKey { code: y }) => *x == *y,
        (TerminalAction::Resize { size: x }, TerminalAction::Resize { size: y }) => x.columns == y.columns && x.rows == y.rows,
        (TerminalAction::ScrollUp {}, TerminalAction::ScrollUp {}) => true,
        (TerminalAction::ScrollDown {}, TerminalAction::ScrollDown {}) => true,
        _ => false,
    }
}

/// How the next action is chosen.
pub enum TerminalTestMode {
    /// At random, by the weights of the action tree.
    RandomWalk,
    /// The actions of an earlier run, in order.
    Reproduce(VecDeque<TerminalAction>),
}

/// Why a terminal test stopped.
#[derive(Clone, Copy, Debug, PartialEq, Eq, Structural)]
pub enum ExitReason {
    ExitOnViolation,
    TimeLimit,
    Interrupted,
    Terminated,
    Reproduced,
    AllDefinite,
}

/// A state of the terminal.
#[derive(Clone, Debug)]
pub struct TerminalState {
    pub timestamp: SystemTime,
    pub grid: TerminalGrid,
    pub scrollback: TerminalGrid,
    pub scroll_offset: u32,
    pub exit_status: Option<ProcessExitStatus>,
    pub last_action: Option<TerminalAction>,
}

/// Why a terminal test stops after a state, if it does: on a violation
/// when asked to, when the actions to reproduce are used up, when the
/// program has ended, or when the time is up, in that order.
pub open spec fn terminal_stop_reason(
    violations_count: u64,
    exit_on_violation: bool,
    reproduction_done: bool,
    terminated: bool,
    deadline: Option<SystemTime>,
    now: SystemTime,
) -> Option<ExitReason> {
    if violations_count > 0 && exit_on_violation {
        Some(ExitReason::ExitOnViolation)
    } else if reproduction_done {
        Some(ExitReason::Reproduced)
    } else if terminated {
        Some(ExitReason::Terminated)
    } else if deadline_reached(deadline, now) {
        Some(ExitReason::TimeLimit)
    } else {
        None
    }
}

/// A terminal test stops on a violation first, when asked to; otherwise
/// when the actions to reproduce are used up; otherwise when the program
/// has ended; otherwise when its deadline has come; and only then. It never
/// stops because every property is decided, nor reports an interruption.
pub proof fn law_terminal_stop_order(
    violations_count: u64,
    exit_on_violation: bool,
    reproduction_done: bool,
    terminated: bool,
    deadline: Option<SystemTime>,
    now: SystemTime,
)
    ensures
        ({
            let r = terminal_stop_reason(violations_count, exit_on_violation, reproduction_done, terminated, deadline, now);
            let violated = violations_count > 0 && exit_on_violation;
            let late = deadline is Some && crate::time::at_or_after(now, deadline->0);
            &&& violated ==> r == Some(ExitReason::ExitOnViolation)
            &&& !violated && reproduction_done ==> r == Some(ExitReason::Reproduced)
            &&& !violated && !reproduction_done && terminated ==> r == Some(ExitReason::Terminated)
            &&& !violated && !reproduction_done && !terminated && late ==> r == Some(ExitReason::TimeLimit)
            &&& r is None <==> !violated && !reproduction_done && !terminated && !late
            &&& r != Some(ExitReason::AllDefinite)
            &&& r != Some(ExitReason::Interrupted)
        }),
{
}

/// Why a terminal test stops after a state, or `None` when it goes on.
pub fn terminal_stop(
    violations_count: u64,
    exit_on_violation: bool,
    reproduction_done: bool,
    terminated: bool,
    deadline: Option<SystemTime>,
    now: SystemTime,
) -> (r: Option<ExitReason>)
    ensures
        r == terminal_stop_reason(violations_count, exit_on_violation, reproduction_done, terminated, deadline, now),
{
    if violations_count > 0 && exit_on_violation {
        Some(ExitReason::ExitOnViolation)
    } else if reproduction_done {
        Some(ExitReason::Reproduced)
    } else if terminated {
        Some(ExitReason::Terminated)
    } else if crate::strategy::is_deadline_reached(deadline, now) {
        Some(ExitReason::TimeLimit)
    } else {
        None
    }
}

/// Whether the actions to reproduce, if the test reproduces, are used up.
pub fn reproduction_done(mode: &TerminalTestMode) -> (r: bool)
    ensures
        r == (mode matches TerminalTestMode::Reproduce(actions) && actions@.len() == 0),
{
    match mode {
        TerminalTestMode::Reproduce(actions) => actions.len() == 0,
        TerminalTestMode::RandomWalk => false,
    }
}

/// Why no action was picked.
#[derive(Debug)]
pub enum PickActionError {
    /// The action tree has no action left.
    NoActionsAvailable,
    /// Picking from the tree failed.
    Pick(PickError),
    /// The actions to reproduce are used up.
    NoRemainingActions,
    /// The action to reproduce is not one that the specification offers in
    /// this state.
    NotProduced(TerminalAction),
}

/// Whether some action of `actions` is the same as `action`.
pub open spec fn offers(actions: Seq<TerminalAction>, action: TerminalAction) -> bool {
    exists|i: int| 0 <= i < actions.len() && same_action(#[trigger] actions[i], action)
}

fn any_matches(available: &Vec<TerminalAction>, original: &TerminalAction) -> (r: bool)
    ensures
        r == offers(available@, *original),
{
    let mut i: usize = 0;
    while i < available.len()
        invariant
            i <= available@.len(),
            forall|k: int| 0 <= k < i ==> !same_action(#[trigger] available@[k], *original),
        decreases available@.len() - i,
    {
        if actions_match(&available[i], original) {
            return true;
        }
        i = i + 1;
    }
    false
}

/// The next action: without empty branches in the tree, an error when
/// nothing is left; at random when walking, and when reproducing, the next
/// action to reproduce, which the tree must offer.
pub fn pick_action(mode: &mut TerminalTestMode, tree: Tree<TerminalAction>, rng: &mut RandomSource) -> (r: Result<
    TerminalAction,
    PickActionError,
>)
    ensures
        drew_more(*old(rng), *final(rng)),
        !(*old(mode) is RandomWalk && top_size(pruned(tree.model())) != 0) ==> *final(rng) == *old(rng),
        top_size(pruned(tree.model())) == 0 ==> (r matches Err(PickActionError::NoActionsAvailable)) && *final(mode) == *old(mode),
        top_size(pruned(tree.model())) != 0 ==> match *old(mode) {
            TerminalTestMode::RandomWalk => {
                &&& *final(mode) == *old(mode)
                &&& pick_outcome(pruned(tree.model()), draws_between(*old(rng), *final(rng))) matches Some((out, k)) && {
                    &&& k == draws_between(*old(rng), *final(rng)).len()
                    &&& match r {
                        Ok(a) => out == Ok::<TerminalAction, PickError>(a),
                        Err(e) => out matches Err(p) && e == PickActionError::Pick(p),
                    }
                }
                &&& r matches Ok(a) ==> reachable(pruned(tree.model()), a)
                &&& r matches Err(e) ==> e == PickActionError::Pick(PickError::ZeroTotalWeight)
                &&& weights_positive(pruned(tree.model())) ==> r is Ok
            },
            TerminalTestMode::Reproduce(actions) => if actions@.len() == 0 {
                &&& *final(mode) == *old(mode)
                &&& r matches Err(PickActionError::NoRemainingActions)
            } else {
                &&& *final(mode) matches TerminalTestMode::Reproduce(rest) && rest@ == actions@.skip(1)
                &&& offers(breadth_first(seq![pruned(tree.model())]), actions@[0]) ==> r == Ok::<
                    TerminalAction,
                    PickActionError,
                >(actions@[0])
                &&& !offers(breadth_first(seq![pruned(tree.model())]), actions@[0]) ==> r == Err::<
                    TerminalAction,
                    PickActionError,
                >(PickActionError::NotProduced(actions@[0]))
            },
        },
{
    proof {
        crate::tree::lemma_drew_nothing(*rng);
    }
    let tree = match tree.prune() {
        Some(tree) => tree,
        None => return Err(PickActionError::NoActionsAvailable),
    };
    match mode {
        TerminalTestMode::RandomWalk => match tree.pick(rng) {
            Ok(action) => Ok(action.clone()),
            Err(e) => Err(PickActionError::Pick(e)),
        },
        TerminalTestMode::Reproduce(actions) => {
            if actions.len() == 0 {
                return Err(PickActionError::NoRemainingActions);
            }
            let original = match actions.pop_front() {
                Some(original) => original,
                None => return Err(PickActionError::NoRemainingActions),
            };
            let available = tree.values();
            proof {
                let all = breadth_first(seq![tree.model()]);
                assert(available@ =~= all) by {
                    assert forall|i: int| 0 <= i < available@.len() implies available@[i] == all[i] by {
                        assert(cloned(all[i], available@[i]));
                    }
                }
            }
            if any_matches(&available, &original) {
                Ok(original)
            } else {
                Err(PickActionError::NotProduced(original))
            }
        },
    }
}

/// What the driver does to the terminal for an action.
#[derive(Debug, PartialEq, Eq)]
pub enum TerminalInput {
    /// Write these bytes to the program's input.
    Write(Vec<u8>),
    /// Resize the terminal and the program's pseudo-terminal.
    Resize(Size),
    /// Scroll the view to the top.
    ScrollTop,
    /// Scroll the view to the bottom.
    ScrollBottom,
}

/// Why an action cannot be applied.
#[derive(Debug, Clone, Copy, PartialEq, Eq, Structural)]
pub enum InputError {
    /// The key code is not a Unicode scalar value.
    InvalidKeyCode(u32),
}

/// Whether a number is a Unicode scalar value: a code point that is not a
/// surrogate.
pub open spec fn is_scalar_value(code: u32) -> bool {
    code < 0xD800 || (0xE000 <= code && code <= 0x10FFFF)
}

/// `char::from_u32`: the character of a Unicode scalar value, `None` for
/// any other number.
#[verifier::external_body]
fn char_from_u32(code: u32) -> (r: Option<char>)
    ensures
        r is Some <==> is_scalar_value(code),
        r matches Some(c) ==> c as u32 == code,
{
    char::from_u32(code)
}

/// What an action does to the terminal: typed text and pressed keys are
/// written as UTF-8, a key code that is no character is refused.
pub fn terminal_input(action: &TerminalAction) -> (r: Result<TerminalInput, InputError>)
    ensures
        match *action {
            TerminalAction::TypeText { text } => r matches Ok(TerminalInput::Write(bytes)) && bytes@ == encode_utf8(text@),
            TerminalAction::PressKey { code } => if is_scalar_value(code) {
                r matches Ok(TerminalInput::Write(bytes)) && exists|c: char| c as u32 == code && bytes@ == encode_utf8(seq![c])
            } else {
                r == Err::<TerminalInput, InputError>(InputError::InvalidKeyCode(code))
            },
            TerminalAction::Resize { size } => r == Ok::<TerminalInput, InputError>(TerminalInput::Resize(size)),
            TerminalAction::ScrollUp {} => r == Ok::<TerminalInput, InputError>(TerminalInput::ScrollTop),
            TerminalAction::ScrollDown {} => r == Ok::<TerminalInput, InputError>(TerminalInput::ScrollBottom),
        },
{
    match action {
        TerminalAction::TypeText { text } => Ok(TerminalInput::Write(vstd::slice::slice_to_vec(text.as_str().as_bytes()))),
        TerminalAction::PressKey { code } => match char_from_u32(*code) {
            Some(c) => {
                let mut one = String::new();
                crate::duration::push_char(&mut one, c);
                assert(one@ =~= seq![c]);
                Ok(TerminalInput::Write(vstd::slice::slice_to_vec(one.as_str().as_bytes())))
            },
            None => Err(InputError::InvalidKeyCode(*code)),
        },
        TerminalAction::Resize { size } => Ok(TerminalInput::Resize(*size)),
        TerminalAction::ScrollUp {} => Ok(TerminalInput::ScrollTop),
        TerminalAction::ScrollDown {} => Ok(TerminalInput::ScrollBottom),
    }
}

/// The line printed when a terminal test ends: why it ended, with the exit
/// code of the program, and the signal that ended it if one did, when it
/// terminated.
pub open spec fn exit_message_text(reason: ExitReason, status: Option<ProcessExitStatus>) -> Seq<char> {
    match reason {
        ExitReason::ExitOnViolation => "Exited due to violation"@,
        ExitReason::TimeLimit => "Exited after time limit hit"@,
        ExitReason::Interrupted => "Exited after SIGINT"@,
        ExitReason::Terminated => {
            let status = status->0;
            let base = "Exited as process terminated with exit code "@ + decimal_text(status.code as nat);
            match status.signal {
                None => base,
                Some(signal) => base + " after signal "@ + signal@,
            }
        },
        ExitReason::Reproduced => "Exited after reproduction finished"@,
        ExitReason::AllDefinite => "Exited as all properties are definite"@,
    }
}

/// The line printed when a terminal test ends; `status` is how the program
/// ended, given when it terminated.
pub fn exit_message(reason: ExitReason, status: &Option<ProcessExitStatus>) -> (r: String)
    requires
        reason is Terminated ==> status is Some,
    ensures
        r@ == exit_message_text(reason, *status),
{
    match reason {
        ExitReason::ExitOnViolation => String::from_str("Exited due to violation"),
        ExitReason::TimeLimit => String::from_str("Exited after time limit hit"),
        ExitReason::Interrupted => String::from_str("Exited after SIGINT"),
        ExitReason::Terminated => {
            let exit = match status {
                Some(exit) => exit,
                None => {
                    assert(false);
                    return String::new();
                },
            };
            let mut text = String::from_str("Exited as process terminated with exit code ");
            push_decimal(&mut text, exit.code as u64);
            match &exit.signal {
                None => {},
                Some(signal) => {
                    text.append(" after signal ");
                    text.append(signal.as_str());
                },
            }
            text
        },
        ExitReason::Reproduced => String::from_str("Exited after reproduction finished"),
        ExitReason::AllDefinite => String::from_str("Exited as all properties are definite"),
    }
}

/// The error a terminal test ends with when it found violations.
pub fn violations_reported(count: u64) -> (r: String)
    ensures
        r@ == decimal_text(count as nat) + " violation(s) reported"@,
{
    let mut text = String::new();
    push_decimal(&mut text, count);
    text.append(" violation(s) reported");
    text
}

} // verus!
