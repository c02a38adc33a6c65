use bombadil::terminal::{exit_message, violations_reported};
use bombadil::terminal_grid::ProcessExitStatus;
use std::collections::VecDeque;

use bombadil::terminal::{
    actions_match, pick_action, reproduction_done, terminal_stop, ExitReason, PickActionError, Size, TerminalAction,
    TerminalTestMode,
};
use std::time::{Duration, SystemTime, UNIX_EPOCH};
use bombadil::tree::{RandomSource, Tree};

fn type_text(text: &str) -> TerminalAction {
    TerminalAction::TypeText { text: text.to_string() }
}

#[test]
fn size_cell_count() {
    assert_eq!(Size { columns: 80, rows: 24 }.cell_count(), 1920);
    assert_eq!(Size { columns: 65535, rows: 65535 }.cell_count(), 4294836225);
}

#[test]
fn actions_match_by_kind_and_contents() {
    assert!(actions_match(&type_text("ls"), &type_text("ls")));
    assert!(!actions_match(&type_text("ls"), &type_text("pwd")));
    assert!(actions_match(&TerminalAction::PressKey { code: 13 }, &TerminalAction::PressKey { code: 13 }));
    assert!(!actions_match(&TerminalAction::PressKey { code: 13 }, &TerminalAction::ScrollUp {}));
    assert!(actions_match(
        &TerminalAction::Resize { size: Size { columns: 80, rows: 24 } },
        &TerminalAction::Resize { size: Size { columns: 80, rows: 24 } }
    ));
    assert!(actions_match(&TerminalAction::ScrollDown {}, &TerminalAction::ScrollDown {}));
}

#[test]
fn terminal_stop_reasons() {
    assert_eq!(terminal_stop(1, true, true, true, None, at(0)), Some(ExitReason::ExitOnViolation));
    assert_eq!(terminal_stop(1, false, true, true, None, at(0)), Some(ExitReason::Reproduced));
    assert_eq!(terminal_stop(1, false, false, true, None, at(0)), Some(ExitReason::Terminated));
    assert_eq!(terminal_stop(1, false, false, false, Some(at(0)), at(0)), Some(ExitReason::TimeLimit));
    assert_eq!(terminal_stop(1, false, false, false, Some(at(1)), at(0)), None);
}

#[test]
fn reproduction_takes_the_actions_in_order() {
    let mut mode = TerminalTestMode::Reproduce(VecDeque::from(vec![type_text("a"), type_text("z")]));
    let mut rng = RandomSource::new(rand::rng());
    let tree = || Tree::Branch { branches: vec![(1, Tree::Leaf { value: type_text("a") }), (1, Tree::Leaf { value: type_text("b") })] };
    assert!(!reproduction_done(&mode));
    let first = pick_action(&mut mode, tree(), &mut rng).unwrap();
    assert!(actions_match(&first, &type_text("a")));
    match pick_action(&mut mode, tree(), &mut rng) {
        Err(PickActionError::NotProduced(action)) => assert!(actions_match(&action, &type_text("z"))),
        other => panic!("expected the action not to be offered, got {:?}", other),
    }
    assert!(reproduction_done(&mode));
    assert!(matches!(pick_action(&mut mode, tree(), &mut rng), Err(PickActionError::NoRemainingActions)));
}

#[test]
fn an_empty_tree_offers_no_action() {
    let mut mode = TerminalTestMode::RandomWalk;
    let mut rng = RandomSource::new(rand::rng());
    let tree: Tree<TerminalAction> = Tree::Branch { branches: vec![(1, Tree::Branch { branches: vec![] })] };
    assert!(matches!(pick_action(&mut mode, tree, &mut rng), Err(PickActionError::NoActionsAvailable)));
    let tree = Tree::Leaf { value: TerminalAction::ScrollUp {} };
    assert!(matches!(pick_action(&mut mode, tree, &mut rng), Ok(TerminalAction::ScrollUp {})));
}

use bombadil::terminal::{terminal_input, InputError, TerminalInput};

#[test]
fn inputs_of_actions() {
    assert_eq!(terminal_input(&type_text("héllo")), Ok(TerminalInput::Write("héllo".as_bytes().to_vec())));
    assert_eq!(terminal_input(&TerminalAction::PressKey { code: 13 }), Ok(TerminalInput::Write(vec![13])));
    assert_eq!(terminal_input(&TerminalAction::PressKey { code: 0x1F600 }), Ok(TerminalInput::Write("😀".as_bytes().to_vec())));
    assert_eq!(terminal_input(&TerminalAction::PressKey { code: 0xD800 }), Err(InputError::InvalidKeyCode(0xD800)));
    assert_eq!(
        terminal_input(&TerminalAction::Resize { size: Size { columns: 100, rows: 30 } }),
        Ok(TerminalInput::Resize(Size { columns: 100, rows: 30 }))
    );
    assert_eq!(terminal_input(&TerminalAction::ScrollUp {}), Ok(TerminalInput::ScrollTop));
    assert_eq!(terminal_input(&TerminalAction::ScrollDown {}), Ok(TerminalInput::ScrollBottom));
}

fn at(nanos: u64) -> SystemTime {
    UNIX_EPOCH + Duration::from_nanos(nanos)
}

#[test]
fn terminal_exit_messages() {
    assert_eq!(exit_message(ExitReason::ExitOnViolation, &None), "Exited due to violation");
    assert_eq!(exit_message(ExitReason::TimeLimit, &None), "Exited after time limit hit");
    assert_eq!(exit_message(ExitReason::Interrupted, &None), "Exited after SIGINT");
    assert_eq!(exit_message(ExitReason::Reproduced, &None), "Exited after reproduction finished");
    assert_eq!(exit_message(ExitReason::AllDefinite, &None), "Exited as all properties are definite");
    assert_eq!(
        exit_message(ExitReason::Terminated, &Some(ProcessExitStatus { signal: None, code: 3 })),
        "Exited as process terminated with exit code 3"
    );
    assert_eq!(
        exit_message(ExitReason::Terminated, &Some(ProcessExitStatus { signal: Some("SIGKILL".to_string()), code: 137 })),
        "Exited as process terminated with exit code 137 after signal SIGKILL"
    );
    assert_eq!(violations_reported(12), "12 violation(s) reported");
}
