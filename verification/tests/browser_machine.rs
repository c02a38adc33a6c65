use bombadil::browser_machine::{
    BrowserMachine, CaptureEffect, Effect, Generation, MachineError, MachineEvent, Phase, StateRequestReason,
};
use bombadil::page::ScreenshotFormat;

type Machine = BrowserMachine<&'static str, &'static str, &'static str>;
type Event = MachineEvent<&'static str, &'static str, &'static str>;

fn step(machine: Machine, event: Event) -> (Machine, Effect<&'static str, &'static str, &'static str>) {
    machine.step(event).unwrap()
}

/// Loads the page, lets it quiesce, captures its state and pauses it.
fn paused_machine() -> Machine {
    let machine = BrowserMachine::new("https://example.com/".to_string());
    let (machine, effect) = step(machine, MachineEvent::Loaded);
    assert!(matches!(effect, Effect::StartTimer));
    let (machine, effect) = step(machine, MachineEvent::Quiesced(Generation(0)));
    assert!(matches!(effect, Effect::RequestState(Generation(0))));
    let (machine, effect) = step(machine, MachineEvent::StateRequested(StateRequestReason::Quiesced, Generation(0)));
    assert!(matches!(effect, Effect::Capture));
    let (machine, effect) = machine.capture(true, Some(vec![1, 2, 3]));
    assert_eq!(effect, CaptureEffect::Pause);
    assert!(matches!(machine.phase, Phase::Pausing));
    assert_eq!(machine.shared.generation, Generation(1));
    let (machine, effect) = step(machine, MachineEvent::ConsoleEntry("warning"));
    assert!(matches!(effect, Effect::Nothing));
    let (machine, effect) = step(machine, MachineEvent::Paused { reason_is_other: true, has_call_frame: true });
    match effect {
        Effect::EmitState { console_entries, exceptions, screenshot } => {
            assert_eq!(console_entries, vec!["warning"]);
            assert!(exceptions.is_empty());
            assert_eq!(screenshot.format, ScreenshotFormat::Jpeg);
            assert_eq!(screenshot.data, vec![1, 2, 3]);
        }
        other => panic!("expected a state, got {:?}", other),
    }
    assert!(matches!(machine.phase, Phase::Paused));
    assert_eq!(machine.shared.generation, Generation(2));
    assert!(machine.shared.console_entries.is_empty());
    assert!(machine.shared.screenshot.is_none());
    machine
}

#[test]
fn a_page_goes_from_navigation_to_a_captured_state() {
    paused_machine();
}

#[test]
fn an_action_is_applied_after_resuming() {
    let machine = paused_machine();
    let (machine, effect) = step(machine, MachineEvent::ActionAccepted("click"));
    assert!(matches!(effect, Effect::Resume));
    assert!(matches!(machine.phase, Phase::Resuming("click")));
    let (machine, effect) = step(machine, MachineEvent::Resumed);
    assert!(matches!(effect, Effect::ApplyAction("click", Generation(2))));
    assert!(matches!(machine.phase, Phase::Acting));
    let (machine, effect) = step(machine, MachineEvent::ActionApplied(Generation(1)));
    assert!(matches!(effect, Effect::Nothing));
    assert!(matches!(machine.phase, Phase::Acting));
    let (machine, effect) = step(machine, MachineEvent::ActionApplied(Generation(2)));
    assert!(matches!(effect, Effect::StartTimerFromSubscription));
    assert!(matches!(machine.phase, Phase::Running));
}

#[test]
fn stale_events_are_ignored() {
    let machine = BrowserMachine::new("https://example.com/".to_string());
    let (machine, _) = step(machine, MachineEvent::Loaded);
    let (machine, effect) = step(machine, MachineEvent::Quiesced(Generation(5)));
    assert!(matches!(effect, Effect::Nothing));
    let (machine, effect) = step(machine, MachineEvent::StateRequested(StateRequestReason::Start, Generation(5)));
    assert!(matches!(effect, Effect::Nothing));
    let (machine, effect) = step(machine, MachineEvent::NavigationTimedOut(Generation(5)));
    assert!(matches!(effect, Effect::Nothing));
    assert!(matches!(machine.phase, Phase::Running));
}

#[test]
fn navigation_timeout_stops_the_machine() {
    let machine: Machine = BrowserMachine::new("https://example.com/".to_string());
    assert_eq!(machine.step(MachineEvent::NavigationTimedOut(Generation(0))).err(), Some(MachineError::NavigationTimedOut));
}

#[test]
fn a_pause_without_screenshot_stops_the_machine() {
    let machine: Machine = BrowserMachine::new("https://example.com/".to_string());
    assert_eq!(
        machine.step(MachineEvent::Paused { reason_is_other: true, has_call_frame: true }).err(),
        Some(MachineError::NoScreenshot)
    );
    let machine: Machine = BrowserMachine::new("https://example.com/".to_string());
    assert_eq!(
        machine.step(MachineEvent::Paused { reason_is_other: false, has_call_frame: true }).err(),
        Some(MachineError::UnexpectedPauseReason)
    );
}

#[test]
fn capture_without_frame_runs_again() {
    let machine: Machine = BrowserMachine::new("https://example.com/".to_string());
    let (machine, _) = step(machine, MachineEvent::Loaded);
    let (machine, effect) = machine.capture(true, None);
    assert_eq!(effect, CaptureEffect::StartTimer);
    assert!(matches!(machine.phase, Phase::Running));
    assert_eq!(machine.shared.generation, Generation(0));
    let (machine, effect) = machine.capture(false, Some(vec![9]));
    assert_eq!(effect, CaptureEffect::StartTimer);
    assert_eq!(machine.shared.generation, Generation(0));
}

#[test]
fn console_entries_are_cleared_while_navigating() {
    let machine: Machine = BrowserMachine::new("https://example.com/".to_string());
    let (machine, _) = step(machine, MachineEvent::ConsoleEntry("first"));
    assert!(machine.shared.console_entries.is_empty());
    let (machine, _) = step(machine, MachineEvent::FrameNavigated { main_frame: true, restored: false });
    assert!(matches!(machine.phase, Phase::Loading));
    let (machine, _) = step(machine, MachineEvent::ConsoleEntry("second"));
    assert_eq!(machine.shared.console_entries, vec!["second"]);
}

#[test]
fn an_exception_while_running_captures_the_state() {
    let machine: Machine = BrowserMachine::new("https://example.com/".to_string());
    let (machine, _) = step(machine, MachineEvent::Loaded);
    let (machine, effect) = step(machine, MachineEvent::ExceptionThrown("boom"));
    assert!(matches!(effect, Effect::Capture));
    assert_eq!(machine.shared.exceptions, vec!["boom"]);
}

#[test]
fn an_action_while_running_is_an_unhandled_transition() {
    let machine: Machine = BrowserMachine::new("https://example.com/".to_string());
    let (machine, _) = step(machine, MachineEvent::Loaded);
    assert_eq!(machine.step(MachineEvent::ActionAccepted("click")).err(), Some(MachineError::UnhandledTransition));
}

#[test]
fn navigation_of_the_main_frame_schedules_a_timeout() {
    let machine: Machine = BrowserMachine::new("https://example.com/".to_string());
    let (machine, _) = step(machine, MachineEvent::Loaded);
    let (machine, effect) = step(
        machine,
        MachineEvent::FrameRequestedNavigation { main_frame: true, url: "https://example.com/next".to_string() },
    );
    assert!(matches!(effect, Effect::ScheduleNavigationTimeout(Generation(0))));
    match &machine.phase {
        Phase::Navigating { url } => assert_eq!(url, "https://example.com/next"),
        other => panic!("expected navigating, got {:?}", other),
    }
    let (machine, effect) = step(machine, MachineEvent::DownloadWillBegin { main_frame: true });
    assert!(matches!(effect, Effect::StartTimer));
    assert!(matches!(machine.phase, Phase::Running));
}

#[test]
fn generation_next_and_default() {
    assert_eq!(Generation::default(), Generation(0));
    assert_eq!(Generation(41).next(), Generation(42));
}
