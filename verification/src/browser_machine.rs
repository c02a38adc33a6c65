//! The state machine that drives a browser under test.
//!
//! The page goes through phases: it navigates and loads, runs until its
//! activity quiesces, is paused in the debugger while its state is captured,
//! and resumes to have the next action applied. Events from the browser and
//! from the machine's own timers move it from phase to phase;
//! [BrowserMachine::step] decides each move and the [Effect] that the driver
//! carries out, and [BrowserMachine::capture] finishes a state capture once
//! the driver has looked for an execution context and a screencast frame.
//!
//! Each state capture starts a new generation; events that carry the
//! generation they were meant for are ignored once it has passed.
use vstd::prelude::*;

use crate::page::{Screenshot, ScreenshotFormat};

verus! {

/// The number of the page state that is being worked towards.
#[derive(Clone, Copy, Debug, PartialEq, Eq, Structural)]
pub struct Generation(pub u64);

impl Default for Generation {
    fn default() -> (r: Self)
        ensures
            r.0 == 0,
    {
        Generation(0)
    }
}

impl Generation {
    /// The generation after this one, as a number without bound.
    pub open spec fn next_spec(self) -> Generation {
        Generation((self.0 + 1) as u64)
    }

    /// The generation after this one.
    pub fn next(self) -> (r: Self)
        requires
            self.0 < u64::MAX,
        ensures
            r.0 == self.0 + 1,
    {
        Generation(self.0 + 1)
    }
}

/// Where the page is.
#[derive(Debug)]
pub enum Phase<A> {
    /// A pause in the debugger was asked for, and is awaited.
    Pausing,
    /// The page is paused in the debugger, its state captured.
    Paused,
    /// The page was told to resume; the action follows once it has.
    Resuming(A),
    /// The page is navigating to `url`.
    Navigating { url: String },
    /// The page is loading.
    Loading,
    /// The page runs; a quiescence timer is running.
    Running,
    /// An action is being applied; its activity is being watched.
    Acting,
}

/// What the machine keeps across phases.
#[derive(Debug)]
pub struct Shared<C, X> {
    pub generation: Generation,
    /// The console entries of the current generation.
    pub console_entries: Vec<C>,
    /// The uncaught exceptions of the current generation.
    pub exceptions: Vec<X>,
    /// The screenshot taken when the pause was asked for.
    pub screenshot: Option<Screenshot>,
}

/// The state machine of a browser: a phase, and what it keeps.
#[derive(Debug)]
pub struct BrowserMachine<A, C, X> {
    pub phase: Phase<A>,
    pub shared: Shared<C, X>,
}

/// Why a state was requested.
#[derive(Clone, Copy, Debug, PartialEq, Eq, Structural)]
pub enum StateRequestReason {
    Start,
    Quiesced,
}

/// What the browser, or one of the machine's timers, reports.
#[derive(Debug)]
pub enum MachineEvent<A, C, X> {
    /// A state capture was requested for a generation.
    StateRequested(StateRequestReason, Generation),
    /// The page has loaded.
    Loaded,
    /// The debugger paused: whether for the reason "other" (the pause that
    /// the machine asks for), and whether it paused in a call frame.
    Paused { reason_is_other: bool, has_call_frame: bool },
    /// The debugger resumed.
    Resumed,
    /// A frame asked to navigate to `url`; whether it is the main frame.
    FrameRequestedNavigation { main_frame: bool, url: String },
    /// A frame navigated; whether it is the main frame, and whether the page
    /// came back from the back-forward cache.
    FrameNavigated { main_frame: bool, restored: bool },
    /// A frame started a download; whether it is the main frame.
    DownloadWillBegin { main_frame: bool },
    /// A target was destroyed; whether it is the page's.
    TargetDestroyed { main_target: bool },
    /// The page wrote to the console.
    ConsoleEntry(C),
    /// An action to apply was accepted.
    ActionAccepted(A),
    /// The action of a generation was applied.
    ActionApplied(Generation),
    /// The page threw an uncaught exception.
    ExceptionThrown(X),
    /// The page's activity quiesced in a generation.
    Quiesced(Generation),
    /// The navigation of a generation took too long.
    NavigationTimedOut(Generation),
}

/// What the driver does after a step.
#[derive(Debug)]
pub enum Effect<A, C, X> {
    /// Nothing.
    Nothing,
    /// Capture the state: look for the execution context and the latest
    /// screencast frame, then call [BrowserMachine::capture].
    Capture,
    /// Resume the debugger, start a quiescence timer, then capture the state
    /// as [Effect::Capture] does.
    ResumeAndCapture,
    /// Build the browser state in the paused call frame from these entries,
    /// exceptions and screenshot, and send it.
    EmitState { console_entries: Vec<C>, exceptions: Vec<X>, screenshot: Screenshot },
    /// Resume the debugger.
    Resume,
    /// Apply the action in the background, then report it applied in the
    /// generation; watch the page's activity meanwhile.
    ApplyAction(A, Generation),
    /// Start a quiescence timer on a new watch of the page's activity.
    StartTimer,
    /// Start a quiescence timer on the watch started for the action.
    StartTimerFromSubscription,
    /// Report the navigation of the generation timed out, if it is not over
    /// in time.
    ScheduleNavigationTimeout(Generation),
    /// Request a state for the generation, for quiescence.
    RequestState(Generation),
}

/// What the driver does after a capture.
#[derive(Debug, Clone, Copy, PartialEq, Eq, Structural)]
pub enum CaptureEffect {
    /// Start a quiescence timer, to try again when the page quiesces.
    StartTimer,
    /// Make the page pause in the debugger.
    Pause,
}

/// Why the machine stopped.
#[derive(Debug, Clone, Copy, PartialEq, Eq, Structural)]
pub enum MachineError {
    /// The debugger paused in a call frame for a reason that the machine did
    /// not ask for.
    UnexpectedPauseReason,
    /// The debugger paused before a screenshot was taken.
    NoScreenshot,
    /// The page's target was destroyed.
    TargetDestroyed,
    /// A navigation took too long.
    NavigationTimedOut,
    /// The event has no meaning in the phase.
    UnhandledTransition,
}

// ---------------------------------------------------------------------------
// The transition table.

/// Whether the phase waits for the page: navigating, loading, pausing or
/// paused.
pub open spec fn is_waiting<A>(phase: Phase<A>) -> bool {
    phase is Navigating || phase is Loading || phase is Paused || phase is Pausing
}

/// `after` is `before` with another phase and the same shared part.
pub open spec fn moved<A, C, X>(before: BrowserMachine<A, C, X>, after: BrowserMachine<A, C, X>, phase: Phase<A>) -> bool {
    after.phase == phase && after.shared == before.shared
}

/// `after` keeps the phase and generation of `before`, its exceptions and
/// screenshot, and holds `entries` as console entries.
pub open spec fn with_entries<A, C, X>(before: BrowserMachine<A, C, X>, after: BrowserMachine<A, C, X>, entries: Seq<C>) -> bool {
    &&& after.phase == before.phase
    &&& after.shared.generation == before.shared.generation
    &&& after.shared.console_entries@ == entries
    &&& after.shared.exceptions@ == before.shared.exceptions@
    &&& after.shared.screenshot == before.shared.screenshot
}

/// The answer `r` is the machine `before`, unchanged, with nothing to do.
pub open spec fn kept<A, C, X>(before: BrowserMachine<A, C, X>, r: Result<(BrowserMachine<A, C, X>, Effect<A, C, X>), MachineError>) -> bool {
    r matches Ok((after, effect)) && after == before && effect is Nothing
}

/// The answer `r` moves `before` to `phase`, with the same shared part, and
/// asks for `effect`.
pub open spec fn goes<A, C, X>(
    before: BrowserMachine<A, C, X>,
    r: Result<(BrowserMachine<A, C, X>, Effect<A, C, X>), MachineError>,
    phase: Phase<A>,
    effect: Effect<A, C, X>,
) -> bool {
    r matches Ok((after, eff)) && moved(before, after, phase) && eff == effect
}

/// What the machine answers to an event: the next machine and the effect,
/// or the error that stops it.
pub open spec fn answers<A, C, X>(
    m: BrowserMachine<A, C, X>,
    event: MachineEvent<A, C, X>,
    r: Result<(BrowserMachine<A, C, X>, Effect<A, C, X>), MachineError>,
) -> bool {
    let generation = m.shared.generation;
    match event {
        MachineEvent::StateRequested(_, g) => if g != generation || is_waiting(m.phase) {
            kept(m, r)
        } else {
            r matches Ok((after, effect)) && after == m && effect is Capture
        },
        MachineEvent::Paused { reason_is_other, has_call_frame } => if !has_call_frame {
            goes(m, r, Phase::Running, Effect::ResumeAndCapture)
        } else if !reason_is_other {
            r == Err::<(BrowserMachine<A, C, X>, Effect<A, C, X>), MachineError>(MachineError::UnexpectedPauseReason)
        } else {
            match m.shared.screenshot {
                None => r == Err::<(BrowserMachine<A, C, X>, Effect<A, C, X>), MachineError>(MachineError::NoScreenshot),
                Some(screenshot) => r matches Ok((after, effect)) && {
                    &&& after.phase is Paused
                    &&& after.shared.generation.0 == generation.0 + 1
                    &&& after.shared.console_entries@.len() == 0
                    &&& after.shared.exceptions@.len() == 0
                    &&& after.shared.screenshot is None
                    &&& effect matches Effect::EmitState { console_entries, exceptions, screenshot: shot } && {
                        &&& console_entries@ == m.shared.console_entries@
                        &&& exceptions@ == m.shared.exceptions@
                        &&& shot == screenshot
                    }
                },
            }
        },
        MachineEvent::ActionAccepted(action) => match m.phase {
            Phase::Paused => goes(m, r, Phase::Resuming(action), Effect::Resume),
            Phase::Loading | Phase::Navigating { .. } | Phase::Pausing => kept(m, r),
            _ => r == Err::<(BrowserMachine<A, C, X>, Effect<A, C, X>), MachineError>(MachineError::UnhandledTransition),
        },
        MachineEvent::Resumed => match m.phase {
            Phase::Pausing => kept(m, r),
            Phase::Running => r matches Ok((after, effect)) && with_entries(m, after, Seq::empty()) && effect is Nothing,
            Phase::Resuming(action) => r matches Ok((after, effect)) && {
                &&& after.phase is Acting
                &&& after.shared.generation == generation
                &&& after.shared.console_entries@.len() == 0
                &&& after.shared.exceptions@ == m.shared.exceptions@
                &&& after.shared.screenshot == m.shared.screenshot
                &&& effect == Effect::<A, C, X>::ApplyAction(action, generation)
            },
            _ => r == Err::<(BrowserMachine<A, C, X>, Effect<A, C, X>), MachineError>(MachineError::UnhandledTransition),
        },
        MachineEvent::ActionApplied(g) => if m.phase is Acting && g == generation {
            goes(m, r, Phase::Running, Effect::StartTimerFromSubscription)
        } else {
            kept(m, r)
        },
        MachineEvent::Loaded => goes(m, r, Phase::Running, Effect::StartTimer),
        MachineEvent::FrameRequestedNavigation { main_frame, url } => if main_frame {
            goes(m, r, Phase::Navigating { url }, Effect::ScheduleNavigationTimeout(generation))
        } else {
            kept(m, r)
        },
        MachineEvent::DownloadWillBegin { main_frame } => if main_frame && m.phase is Navigating {
            goes(m, r, Phase::Running, Effect::StartTimer)
        } else {
            kept(m, r)
        },
        MachineEvent::ConsoleEntry(entry) => if m.phase is Navigating {
            r matches Ok((after, effect)) && with_entries(m, after, Seq::empty()) && effect is Nothing
        } else {
            r matches Ok((after, effect)) && with_entries(m, after, m.shared.console_entries@.push(entry)) && effect is Nothing
        },
        MachineEvent::ExceptionThrown(exception) => r matches Ok((after, effect)) && {
            &&& after.phase == m.phase
            &&& after.shared.generation == generation
            &&& after.shared.console_entries@ == m.shared.console_entries@
            &&& after.shared.exceptions@ == m.shared.exceptions@.push(exception)
            &&& after.shared.screenshot == m.shared.screenshot
            &&& if m.phase is Running { effect is Capture } else { effect is Nothing }
        },
        MachineEvent::FrameNavigated { main_frame, restored } => if !main_frame {
            kept(m, r)
        } else if restored {
            goes(m, r, Phase::Running, Effect::StartTimer)
        } else {
            goes(m, r, Phase::Loading, Effect::Nothing)
        },
        MachineEvent::TargetDestroyed { main_target } => if main_target {
            r == Err::<(BrowserMachine<A, C, X>, Effect<A, C, X>), MachineError>(MachineError::TargetDestroyed)
        } else {
            kept(m, r)
        },
        MachineEvent::Quiesced(g) => if g == generation && m.phase is Running {
            r matches Ok((after, effect)) && after == m && effect == Effect::<A, C, X>::RequestState(generation)
        } else {
            kept(m, r)
        },
        MachineEvent::NavigationTimedOut(g) => if g == generation && (m.phase is Navigating || m.phase is Loading) {
            r == Err::<(BrowserMachine<A, C, X>, Effect<A, C, X>), MachineError>(MachineError::NavigationTimedOut)
        } else {
            kept(m, r)
        },
    }
}

/// What a state capture gives: when the page has no execution context or
/// no screencast frame yet, the machine runs again and retries on
/// quiescence; otherwise the frame becomes the screenshot, a new generation
/// starts, and the machine waits for the pause.
pub open spec fn captured<A, C, X>(
    m: BrowserMachine<A, C, X>,
    has_context: bool,
    frame: Option<Vec<u8>>,
    r: (BrowserMachine<A, C, X>, CaptureEffect),
) -> bool {
    if !has_context || frame is None {
        moved(m, r.0, Phase::Running) && r.1 == CaptureEffect::StartTimer
    } else {
        &&& r.0.phase is Pausing
        &&& r.0.shared.generation.0 == m.shared.generation.0 + 1
        &&& r.0.shared.console_entries@ == m.shared.console_entries@
        &&& r.0.shared.exceptions@ == m.shared.exceptions@
        &&& r.0.shared.screenshot == Some(Screenshot { format: ScreenshotFormat::Jpeg, data: frame->0 })
        &&& r.1 == CaptureEffect::Pause
    }
}

impl<A, C, X> BrowserMachine<A, C, X> {
    /// The machine as a browser starts it: navigating to `origin`, in
    /// generation zero, with nothing kept.
    pub fn new(origin: String) -> (r: Self)
        ensures
            r.phase == (Phase::<A>::Navigating { url: origin }),
            r.shared.generation.0 == 0,
            r.shared.console_entries@.len() == 0,
            r.shared.exceptions@.len() == 0,
            r.shared.screenshot is None,
    {
        BrowserMachine {
            phase: Phase::Navigating { url: origin },
            shared: Shared {
                generation: Generation(0),
                console_entries: Vec::new(),
                exceptions: Vec::new(),
                screenshot: None,
            },
        }
    }

    /// The machine after `event`, and what the driver does next.
    pub fn step(self, event: MachineEvent<A, C, X>) -> (r: Result<(Self, Effect<A, C, X>), MachineError>)
        requires
            (event matches MachineEvent::Paused { reason_is_other, has_call_frame } && reason_is_other && has_call_frame
                && self.shared.screenshot is Some) ==> self.shared.generation.0 < u64::MAX,
        ensures
            answers(self, event, r),
    {
        let ghost before = self;
        let generation = self.shared.generation;
        match event {
            MachineEvent::StateRequested(_, g) => {
                if g != generation {
                    Ok((self, Effect::Nothing))
                } else {
                    match self.phase {
                        Phase::Navigating { .. } | Phase::Loading | Phase::Paused | Phase::Pausing => Ok((self, Effect::Nothing)),
                        _ => Ok((self, Effect::Capture)),
                    }
                }
            },
            MachineEvent::Paused { reason_is_other, has_call_frame } => {
                if !has_call_frame {
                    Ok((BrowserMachine { phase: Phase::Running, shared: self.shared }, Effect::ResumeAndCapture))
                } else if !reason_is_other {
                    Err(MachineError::UnexpectedPauseReason)
                } else {
                    let Shared { generation, console_entries, exceptions, screenshot } = self.shared;
                    match screenshot {
                        None => Err(MachineError::NoScreenshot),
                        Some(screenshot) => {
                            let next = BrowserMachine {
                                phase: Phase::Paused,
                                shared: Shared {
                                    generation: generation.next(),
                                    console_entries: Vec::new(),
                                    exceptions: Vec::new(),
                                    screenshot: None,
                                },
                            };
                            Ok((next, Effect::EmitState { console_entries, exceptions, screenshot }))
                        },
                    }
                }
            },
            MachineEvent::ActionAccepted(action) => match self.phase {
                Phase::Paused => Ok((BrowserMachine { phase: Phase::Resuming(action), shared: self.shared }, Effect::Resume)),
                Phase::Loading | Phase::Navigating { .. } | Phase::Pausing => Ok((self, Effect::Nothing)),
                _ => Err(MachineError::UnhandledTransition),
            },
            MachineEvent::Resumed => {
                let BrowserMachine { phase, shared } = self;
                match phase {
                    Phase::Pausing => Ok((BrowserMachine { phase: Phase::Pausing, shared }, Effect::Nothing)),
                    Phase::Running => {
                        let Shared { generation, console_entries: _, exceptions, screenshot } = shared;
                        let shared = Shared { generation, console_entries: Vec::new(), exceptions, screenshot };
                        Ok((BrowserMachine { phase: Phase::Running, shared }, Effect::Nothing))
                    },
                    Phase::Resuming(action) => {
                        let Shared { generation, console_entries: _, exceptions, screenshot } = shared;
                        let shared = Shared { generation, console_entries: Vec::new(), exceptions, screenshot };
                        Ok((BrowserMachine { phase: Phase::Acting, shared }, Effect::ApplyAction(action, generation)))
                    },
                    _ => Err(MachineError::UnhandledTransition),
                }
            },
            MachineEvent::ActionApplied(g) => {
                if g == generation && matches!(self.phase, Phase::Acting) {
                    Ok((BrowserMachine { phase: Phase::Running, shared: self.shared }, Effect::StartTimerFromSubscription))
                } else {
                    Ok((self, Effect::Nothing))
                }
            },
            MachineEvent::Loaded => Ok((BrowserMachine { phase: Phase::Running, shared: self.shared }, Effect::StartTimer)),
            MachineEvent::FrameRequestedNavigation { main_frame, url } => {
                if main_frame {
                    Ok((BrowserMachine { phase: Phase::Navigating { url }, shared: self.shared }, Effect::ScheduleNavigationTimeout(generation)))
                } else {
                    Ok((self, Effect::Nothing))
                }
            },
            MachineEvent::DownloadWillBegin { main_frame } => {
                if main_frame && matches!(self.phase, Phase::Navigating { .. }) {
                    Ok((BrowserMachine { phase: Phase::Running, shared: self.shared }, Effect::StartTimer))
                } else {
                    Ok((self, Effect::Nothing))
                }
            },
            MachineEvent::ConsoleEntry(entry) => {
                let BrowserMachine { phase, shared } = self;
                let Shared { generation, console_entries, exceptions, screenshot } = shared;
                let mut console_entries = console_entries;
                if matches!(phase, Phase::Navigating { .. }) {
                    console_entries = Vec::new();
                } else {
                    console_entries.push(entry);
                }
                Ok((BrowserMachine { phase, shared: Shared { generation, console_entries, exceptions, screenshot } }, Effect::Nothing))
            },
            MachineEvent::ExceptionThrown(exception) => {
                let BrowserMachine { phase, shared } = self;
                let Shared { generation, console_entries, exceptions, screenshot } = shared;
                let mut exceptions = exceptions;
                exceptions.push(exception);
                let effect = if matches!(phase, Phase::Running) { Effect::Capture } else { Effect::Nothing };
                Ok((BrowserMachine { phase, shared: Shared { generation, console_entries, exceptions, screenshot } }, effect))
            },
            MachineEvent::FrameNavigated { main_frame, restored } => {
                if !main_frame {
                    Ok((self, Effect::Nothing))
                } else if restored {
                    Ok((BrowserMachine { phase: Phase::Running, shared: self.shared }, Effect::StartTimer))
                } else {
                    Ok((BrowserMachine { phase: Phase::Loading, shared: self.shared }, Effect::Nothing))
                }
            },
            MachineEvent::TargetDestroyed { main_target } => {
                if main_target {
                    Err(MachineError::TargetDestroyed)
                } else {
                    Ok((self, Effect::Nothing))
                }
            },
            MachineEvent::Quiesced(g) => {
                if g == generation && matches!(self.phase, Phase::Running) {
                    Ok((self, Effect::RequestState(generation)))
                } else {
                    Ok((self, Effect::Nothing))
                }
            },
            MachineEvent::NavigationTimedOut(g) => {
                if g == generation && matches!(self.phase, Phase::Navigating { .. } | Phase::Loading) {
                    Err(MachineError::NavigationTimedOut)
                } else {
                    Ok((self, Effect::Nothing))
                }
            },
        }
    }

    /// The machine after a state capture, given whether the page has an
    /// execution context and the latest screencast frame.
    pub fn capture(self, has_context: bool, frame: Option<Vec<u8>>) -> (r: (Self, CaptureEffect))
        requires
            has_context && frame is Some ==> self.shared.generation.0 < u64::MAX,
        ensures
            captured(self, has_context, frame, r),
    {
        if !has_context {
            return (BrowserMachine { phase: Phase::Running, shared: self.shared }, CaptureEffect::StartTimer);
        }
        match frame {
            None => (BrowserMachine { phase: Phase::Running, shared: self.shared }, CaptureEffect::StartTimer),
            Some(data) => {
                let Shared { generation, console_entries, exceptions, screenshot: _ } = self.shared;
                let shared = Shared {
                    generation: generation.next(),
                    console_entries,
                    exceptions,
                    screenshot: Some(Screenshot { format: ScreenshotFormat::Jpeg, data }),
                };
                (BrowserMachine { phase: Phase::Pausing, shared }, CaptureEffect::Pause)
            },
        }
    }
}

// ---------------------------------------------------------------------------
// Laws of the machine.

/// An event meant for a generation that has passed (a state request, an
/// applied action, a quiescence or a navigation timeout) leaves the machine
/// as it is and asks for nothing.
pub proof fn law_stale_events_are_ignored<A, C, X>(
    m: BrowserMachine<A, C, X>,
    event: MachineEvent<A, C, X>,
    r: Result<(BrowserMachine<A, C, X>, Effect<A, C, X>), MachineError>,
)
    requires
        answers(m, event, r),
        match event {
            MachineEvent::StateRequested(_, g) => g != m.shared.generation,
            MachineEvent::ActionApplied(g) => g != m.shared.generation,
            MachineEvent::Quiesced(g) => g != m.shared.generation,
            MachineEvent::NavigationTimedOut(g) => g != m.shared.generation,
            _ => false,
        },
    ensures
        kept(m, r),
{
}

/// A step keeps the generation, except when it emits a state: then the
/// generation grows by one, and the machine is paused with nothing kept of
/// the generation that was captured.
pub proof fn law_step_generation<A, C, X>(
    m: BrowserMachine<A, C, X>,
    event: MachineEvent<A, C, X>,
    r: Result<(BrowserMachine<A, C, X>, Effect<A, C, X>), MachineError>,
)
    requires
        answers(m, event, r),
    ensures
        r matches Ok((after, effect)) ==> {
            if effect is EmitState {
                &&& after.shared.generation.0 == m.shared.generation.0 + 1
                &&& after.phase is Paused
                &&& after.shared.console_entries@.len() == 0
                &&& after.shared.exceptions@.len() == 0
                &&& after.shared.screenshot is None
            } else {
                after.shared.generation == m.shared.generation
            }
        },
{
}

/// A state is emitted only when the debugger paused for the machine's own
/// pause, in a call frame, and it carries the screenshot that the capture
/// took and the entries and exceptions of the generation.
pub proof fn law_emitted_states_carry_the_capture<A, C, X>(
    m: BrowserMachine<A, C, X>,
    event: MachineEvent<A, C, X>,
    r: Result<(BrowserMachine<A, C, X>, Effect<A, C, X>), MachineError>,
)
    requires
        answers(m, event, r),
        r matches Ok((_, effect)) && effect is EmitState,
    ensures
        event matches MachineEvent::Paused { reason_is_other, has_call_frame } && reason_is_other && has_call_frame,
        r matches Ok((_, Effect::EmitState { console_entries, exceptions, screenshot })) && {
            &&& m.shared.screenshot == Some(screenshot)
            &&& console_entries@ == m.shared.console_entries@
            &&& exceptions@ == m.shared.exceptions@
        },
{
}

/// A capture that finds a frame starts the next generation, takes the frame
/// as its screenshot, keeps the generation's entries and exceptions and
/// waits for the pause; one that does not leaves the machine's part as it
/// is and runs again.
pub proof fn law_capture_generation<A, C, X>(
    m: BrowserMachine<A, C, X>,
    has_context: bool,
    frame: Option<Vec<u8>>,
    r: (BrowserMachine<A, C, X>, CaptureEffect),
)
    requires
        captured(m, has_context, frame, r),
    ensures
        r.1 == CaptureEffect::Pause <==> (has_context && frame is Some),
        r.1 == CaptureEffect::Pause ==> r.0.shared.generation.0 == m.shared.generation.0 + 1 && r.0.phase is Pausing,
        r.1 == CaptureEffect::StartTimer ==> r.0.shared.generation == m.shared.generation && r.0.phase is Running,
        r.1 == CaptureEffect::StartTimer ==> r.0.shared == m.shared,
        r.1 == CaptureEffect::Pause ==> {
            &&& r.0.shared.screenshot == Some(Screenshot { format: ScreenshotFormat::Jpeg, data: frame->0 })
            &&& r.0.shared.console_entries@ == m.shared.console_entries@
            &&& r.0.shared.exceptions@ == m.shared.exceptions@
        },
{
}

/// A main-frame navigation is followed to the end: a request to navigate
/// moves the machine to navigating and schedules a timeout for the
/// generation; the frame's navigation then waits for the load, except when
/// the page came back from the back-forward cache, which fires no load
/// event: then the page runs at once and its quiescence timer starts. The
/// load runs the page and starts the timer too. A navigation of another
/// frame changes nothing, and a navigation that times out while it is still
/// under way stops the machine. Each of these keeps what the machine holds
/// of the generation.
pub proof fn law_navigations_end_in_a_running_page<A, C, X>(
    m: BrowserMachine<A, C, X>,
    event: MachineEvent<A, C, X>,
    r: Result<(BrowserMachine<A, C, X>, Effect<A, C, X>), MachineError>,
)
    requires
        answers(m, event, r),
    ensures
        event matches MachineEvent::FrameNavigated { main_frame, restored } && main_frame && restored ==> (r matches Ok(
            (after, effect),
        ) && after.phase is Running && after.shared == m.shared && effect is StartTimer),
        event matches MachineEvent::FrameNavigated { main_frame, restored } && main_frame && !restored ==> (r matches Ok(
            (after, effect),
        ) && after.phase is Loading && after.shared == m.shared && effect is Nothing),
        event matches MachineEvent::FrameNavigated { main_frame, .. } && !main_frame ==> (r matches Ok((after, effect))
            && after == m && effect is Nothing),
        event is Loaded ==> (r matches Ok((after, effect)) && after.phase is Running && after.shared == m.shared
            && effect is StartTimer),
        match event {
            MachineEvent::FrameRequestedNavigation { main_frame: true, url: target } => r matches Ok(
                (after, Effect::ScheduleNavigationTimeout(g)),
            ) && after.phase == (Phase::<A>::Navigating { url: target }) && after.shared == m.shared && g
                == m.shared.generation,
            _ => true,
        },
        event matches MachineEvent::DownloadWillBegin { main_frame } && main_frame && m.phase is Navigating ==> (r matches Ok(
            (after, effect),
        ) && after.phase is Running && after.shared == m.shared && effect is StartTimer),
        event matches MachineEvent::NavigationTimedOut(g) && g == m.shared.generation && (m.phase is Navigating
            || m.phase is Loading) ==> r == Err::<(BrowserMachine<A, C, X>, Effect<A, C, X>), MachineError>(
            MachineError::NavigationTimedOut,
        ),
        event matches MachineEvent::TargetDestroyed { main_target } && main_target ==> r == Err::<
            (BrowserMachine<A, C, X>, Effect<A, C, X>),
            MachineError,
        >(MachineError::TargetDestroyed),
{
}

/// Going back to a page that the back-forward cache restores ends in a
/// capture of its state: after the restore, the page's quiescence in the
/// same generation asks for the state, and the request for it is answered
/// with a capture.
pub proof fn law_restored_pages_are_captured<A, C, X>(
    m: BrowserMachine<A, C, X>,
    r1: Result<(BrowserMachine<A, C, X>, Effect<A, C, X>), MachineError>,
    r2: Result<(BrowserMachine<A, C, X>, Effect<A, C, X>), MachineError>,
    reason: StateRequestReason,
    r3: Result<(BrowserMachine<A, C, X>, Effect<A, C, X>), MachineError>,
)
    requires
        answers(m, MachineEvent::FrameNavigated { main_frame: true, restored: true }, r1),
        r1 is Ok ==> answers(r1->Ok_0.0, MachineEvent::Quiesced(m.shared.generation), r2),
        r2 is Ok ==> answers(r2->Ok_0.0, MachineEvent::StateRequested(reason, m.shared.generation), r3),
    ensures
        r1 is Ok,
        r2 matches Ok((_, Effect::RequestState(g))) && g == m.shared.generation,
        r3 matches Ok((after, effect)) && effect is Capture && after.phase is Running && after.shared == m.shared,
{
}

/// One turn of a test, from a running page: its quiescence asks for the
/// state, the request is answered with a capture, a capture that finds a
/// frame asks for the pause in the next generation, the pause emits the
/// state with the frame as its screenshot and starts the generation after,
/// the accepted action resumes the page, the resume applies the action in
/// that generation, and once it is applied the page runs again.
pub proof fn law_a_turn_of_the_test<A, C, X>(
    m: BrowserMachine<A, C, X>,
    frame: Vec<u8>,
    action: A,
    r1: Result<(BrowserMachine<A, C, X>, Effect<A, C, X>), MachineError>,
    r2: Result<(BrowserMachine<A, C, X>, Effect<A, C, X>), MachineError>,
    c: (BrowserMachine<A, C, X>, CaptureEffect),
    r4: Result<(BrowserMachine<A, C, X>, Effect<A, C, X>), MachineError>,
    r5: Result<(BrowserMachine<A, C, X>, Effect<A, C, X>), MachineError>,
    r6: Result<(BrowserMachine<A, C, X>, Effect<A, C, X>), MachineError>,
    r7: Result<(BrowserMachine<A, C, X>, Effect<A, C, X>), MachineError>,
)
    requires
        m.phase is Running,
        answers(m, MachineEvent::Quiesced(m.shared.generation), r1),
        r1 is Ok ==> answers(r1->Ok_0.0, MachineEvent::StateRequested(StateRequestReason::Quiesced, m.shared.generation), r2),
        r2 is Ok ==> captured(r2->Ok_0.0, true, Some(frame), c),
        answers(c.0, MachineEvent::Paused { reason_is_other: true, has_call_frame: true }, r4),
        r4 is Ok ==> answers(r4->Ok_0.0, MachineEvent::ActionAccepted(action), r5),
        r5 is Ok ==> answers(r5->Ok_0.0, MachineEvent::Resumed, r6),
        r6 is Ok ==> answers(r6->Ok_0.0, MachineEvent::ActionApplied(m.shared.generation.next_spec().next_spec()), r7),
    ensures
        r1 matches Ok((after, Effect::RequestState(g))) && after == m && g == m.shared.generation,
        r2 matches Ok((after, effect)) && after == m && effect is Capture,
        c.1 == CaptureEffect::Pause && c.0.phase is Pausing && c.0.shared.generation.0 == m.shared.generation.0 + 1,
        r4 matches Ok((after, Effect::EmitState { console_entries, exceptions, screenshot })) && {
            &&& screenshot == Screenshot { format: ScreenshotFormat::Jpeg, data: frame }
            &&& console_entries@ == m.shared.console_entries@
            &&& exceptions@ == m.shared.exceptions@
            &&& after.phase is Paused
            &&& after.shared.generation.0 == m.shared.generation.0 + 2
        },
        r5 matches Ok((after, effect)) && after.phase == Phase::Resuming(action) && effect is Resume,
        r6 matches Ok((after, Effect::ApplyAction(applied, g))) && applied == action && g.0 == m.shared.generation.0 + 2
            && after.phase is Acting,
        r7 matches Ok((after, effect)) && after.phase is Running && effect is StartTimerFromSubscription
            && after.shared.generation.0 == m.shared.generation.0 + 2,
{
}

/// What the debugger, the actions and the page's own output do to the
/// machine. A pause outside a call frame is resumed and the state captured
/// while the page runs; a pause for a reason other than the machine's own,
/// or one before a screenshot was taken, stops it. An action is accepted
/// only while the page is paused, and is held back while the page
/// navigates, loads or is being paused. A resume while the page runs starts
/// a new list of console entries. While the page is waiting (navigating,
/// loading, pausing or paused) a state request is passed over; quiescence
/// counts only while the page runs, an applied action only while one is
/// being applied, and a download only while the main frame navigates.
/// Console entries are gathered, but dropped during a navigation; every
/// uncaught exception is kept, and one thrown while the page runs has its
/// state captured.
pub proof fn law_pauses_actions_and_page_events<A, C, X>(
    m: BrowserMachine<A, C, X>,
    event: MachineEvent<A, C, X>,
    r: Result<(BrowserMachine<A, C, X>, Effect<A, C, X>), MachineError>,
)
    requires
        answers(m, event, r),
    ensures
        event matches MachineEvent::Paused { has_call_frame, .. } && !has_call_frame ==> (r matches Ok((after, effect))
            && after.phase is Running && after.shared == m.shared && effect is ResumeAndCapture),
        event matches MachineEvent::Paused { reason_is_other, has_call_frame } && has_call_frame && !reason_is_other
            ==> r == Err::<(BrowserMachine<A, C, X>, Effect<A, C, X>), MachineError>(MachineError::UnexpectedPauseReason),
        event matches MachineEvent::Paused { reason_is_other, has_call_frame } && has_call_frame && reason_is_other
            && m.shared.screenshot is None ==> r == Err::<(BrowserMachine<A, C, X>, Effect<A, C, X>), MachineError>(
            MachineError::NoScreenshot,
        ),
        event is ActionAccepted && (m.phase is Running || m.phase is Acting || m.phase is Resuming) ==> r == Err::<
            (BrowserMachine<A, C, X>, Effect<A, C, X>),
            MachineError,
        >(MachineError::UnhandledTransition),
        event is ActionAccepted && (m.phase is Loading || m.phase is Navigating || m.phase is Pausing) ==> (r matches Ok(
            (after, effect),
        ) && after == m && effect is Nothing),
        event is Resumed && m.phase is Pausing ==> (r matches Ok((after, effect)) && after == m && effect is Nothing),
        event is Resumed && m.phase is Running ==> (r matches Ok((after, effect)) && effect is Nothing
            && after.phase is Running && after.shared.generation == m.shared.generation
            && after.shared.console_entries@.len() == 0 && after.shared.exceptions@ == m.shared.exceptions@
            && after.shared.screenshot == m.shared.screenshot),
        event is Resumed && (m.phase is Navigating || m.phase is Loading || m.phase is Paused || m.phase is Acting)
            ==> r == Err::<(BrowserMachine<A, C, X>, Effect<A, C, X>), MachineError>(MachineError::UnhandledTransition),
        event is StateRequested && is_waiting(m.phase) ==> (r matches Ok((after, effect)) && after == m
            && effect is Nothing),
        event matches MachineEvent::StateRequested(_, g) && g == m.shared.generation && (m.phase is Running
            || m.phase is Acting || m.phase is Resuming) ==> (r matches Ok((after, effect)) && after == m
            && effect is Capture),
        event is Quiesced && !(m.phase is Running) ==> (r matches Ok((after, effect)) && after == m && effect is Nothing),
        event is ActionApplied && !(m.phase is Acting) ==> (r matches Ok((after, effect)) && after == m
            && effect is Nothing),
        event matches MachineEvent::DownloadWillBegin { main_frame } && !(main_frame && m.phase is Navigating) ==> (
        r matches Ok((after, effect)) && after == m && effect is Nothing),
        event matches MachineEvent::TargetDestroyed { main_target } && !main_target ==> (r matches Ok((after, effect))
            && after == m && effect is Nothing),
        event is FrameRequestedNavigation && !(event->FrameRequestedNavigation_main_frame) ==> (r matches Ok(
            (after, effect),
        ) && after == m && effect is Nothing),
        match event {
            MachineEvent::ConsoleEntry(entry) => r matches Ok((after, effect)) && {
                &&& effect is Nothing
                &&& after.phase == m.phase
                &&& after.shared.generation == m.shared.generation
                &&& after.shared.exceptions@ == m.shared.exceptions@
                &&& after.shared.screenshot == m.shared.screenshot
                &&& after.shared.console_entries@ == if m.phase is Navigating {
                    Seq::empty()
                } else {
                    m.shared.console_entries@.push(entry)
                }
            },
            MachineEvent::ExceptionThrown(exception) => r matches Ok((after, effect)) && {
                &&& after.phase == m.phase
                &&& after.shared.generation == m.shared.generation
                &&& after.shared.console_entries@ == m.shared.console_entries@
                &&& after.shared.exceptions@ == m.shared.exceptions@.push(exception)
                &&& after.shared.screenshot == m.shared.screenshot
                &&& (effect is Capture <==> m.phase is Running)
                &&& (effect is Capture || effect is Nothing)
            },
            _ => true,
        },
{
}

} // verus!
