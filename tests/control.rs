use sysmon::cycle::{RunLoop, Step};
use sysmon::input::{is_quit, AppState, InputEvent, KeyCode, KeyInput, KeyKind};

fn key(code: KeyCode, control: bool, other_modifiers: bool, kind: KeyKind) -> KeyInput {
    KeyInput { code, control, other_modifiers, kind }
}

fn press(c: char) -> InputEvent {
    InputEvent::Key(key(KeyCode::Char(c), false, false, KeyKind::Press))
}

#[test]
fn release_of_q_keeps_running_press_stops() {
    let mut s = AppState::new();
    s.handle_event(&InputEvent::Key(key(KeyCode::Char('q'), false, false, KeyKind::Release)));
    assert!(s.running);
    s.handle_event(&press('q'));
    assert!(!s.running);
}

#[test]
fn quit_keys() {
    assert!(is_quit(&key(KeyCode::Esc, false, false, KeyKind::Press)));
    assert!(is_quit(&key(KeyCode::Char('q'), false, false, KeyKind::Press)));
    assert!(is_quit(&key(KeyCode::Char('Q'), false, true, KeyKind::Press)));
    assert!(is_quit(&key(KeyCode::Char('c'), true, false, KeyKind::Press)));
    assert!(is_quit(&key(KeyCode::Char('C'), true, false, KeyKind::Press)));
    assert!(!is_quit(&key(KeyCode::Char('c'), false, false, KeyKind::Press)));
    assert!(!is_quit(&key(KeyCode::Char('c'), true, true, KeyKind::Press)));
    assert!(!is_quit(&key(KeyCode::Char('x'), true, false, KeyKind::Press)));
    assert!(!is_quit(&key(KeyCode::Other, false, false, KeyKind::Press)));
}

#[test]
fn other_events_change_nothing() {
    let mut s = AppState::new();
    s.handle_event(&InputEvent::Mouse);
    s.handle_event(&InputEvent::Resize(80, 24));
    s.handle_event(&InputEvent::Other);
    s.handle_event(&press('a'));
    s.handle_event(&InputEvent::Key(key(KeyCode::Esc, false, false, KeyKind::Repeat)));
    assert!(s.running);
}

#[test]
fn a_stopped_monitor_stays_stopped() {
    let mut s = AppState::new();
    s.quit();
    s.handle_event(&press('x'));
    assert!(!s.running);
}

#[test]
fn cycle_order_while_running() {
    let mut l = RunLoop::new();
    let mut seen = Vec::new();
    for _ in 0..8 {
        seen.push(l.next);
        l.complete(None);
    }
    assert_eq!(
        seen,
        vec![
            Step::Draw,
            Step::Poll,
            Step::Refresh,
            Step::Sleep,
            Step::Draw,
            Step::Poll,
            Step::Refresh,
            Step::Sleep,
        ]
    );
}

#[test]
fn quit_during_poll_ends_cycle_without_another_draw() {
    let mut l = RunLoop::new();
    l.complete(None);
    assert_eq!(l.next, Step::Poll);
    l.complete(Some(press('q')));
    assert!(!l.state.running);
    let mut rest = Vec::new();
    for _ in 0..5 {
        rest.push(l.next);
        l.complete(Some(press('a')));
    }
    assert_eq!(rest, vec![Step::Refresh, Step::Sleep, Step::Exit, Step::Exit, Step::Exit]);
    assert!(!l.state.running);
}

#[test]
fn events_outside_poll_are_ignored() {
    let mut l = RunLoop::new();
    l.complete(Some(press('q')));
    assert!(l.state.running);
    assert_eq!(l.next, Step::Poll);
}
