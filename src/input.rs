//! Keys that stop the monitor, and the running flag that they clear.
use vstd::prelude::*;

verus! {

/// The key of a key event, as far as the monitor tells keys apart.
#[derive(PartialEq, Eq, Structural, Clone, Copy, Debug)]
pub enum KeyCode {
    Esc,
    Char(char),
    Other,
}

/// Whether a key went down, repeats or went up.
#[derive(PartialEq, Eq, Structural, Clone, Copy, Debug)]
pub enum KeyKind {
    Press,
    Repeat,
    Release,
}

/// One key event.
#[derive(PartialEq, Eq, Structural, Clone, Copy, Debug)]
pub struct KeyInput {
    pub code: KeyCode,
    /// Control is held.
    pub control: bool,
    /// A modifier other than Control is held (Shift, Alt, Super, ...).
    pub other_modifiers: bool,
    pub kind: KeyKind,
}

/// One event of the terminal.
#[derive(PartialEq, Eq, Structural, Clone, Copy, Debug)]
pub enum InputEvent {
    Key(KeyInput),
    Mouse,
    Resize(u16, u16),
    Other,
}

/// The monitor's lifecycle: it runs until a quit key is pressed.
#[derive(PartialEq, Eq, Structural, Clone, Copy, Debug)]
pub struct AppState {
    pub running: bool,
}

/// Esc or `q`/`Q`, with any modifiers, or Control (alone) with `c`/`C`.
pub open spec fn is_quit_key(k: KeyInput) -> bool {
    ||| k.code == KeyCode::Esc
    ||| k.code == KeyCode::Char('q')
    ||| k.code == KeyCode::Char('Q')
    ||| (k.control && !k.other_modifiers && (k.code == KeyCode::Char('c') || k.code
        == KeyCode::Char('C')))
}

/// The event is the press of a quit key; releases and repeats are not.
pub open spec fn requests_quit(e: InputEvent) -> bool {
    match e {
        InputEvent::Key(k) => k.kind == KeyKind::Press && is_quit_key(k),
        _ => false,
    }
}

/// Whether the key, pressed, stops the monitor.
pub fn is_quit(k: &KeyInput) -> (r: bool)
    ensures
        r == is_quit_key(*k),
{
    match k.code {
        KeyCode::Esc => true,
        KeyCode::Char(c) => c == 'q' || c == 'Q' || (k.control && !k.other_modifiers && (c == 'c'
            || c == 'C')),
        KeyCode::Other => false,
    }
}

impl AppState {
    pub fn new() -> (r: AppState)
        ensures
            r.running,
    {
        AppState { running: true }
    }

    /// Stops the monitor.
    pub fn quit(&mut self)
        ensures
            !final(self).running,
    {
        self.running = false;
    }

    /// Acts on a pressed key: a quit key stops the monitor, any other key
    /// changes nothing.
    pub fn on_key_event(&mut self, key: &KeyInput)
        ensures
            final(self).running == (old(self).running && !is_quit_key(*key)),
    {
        if is_quit(key) {
            self.quit();
        }
    }

    /// Acts on one event: only the press of a quit key changes the state, and
    /// a stopped monitor never runs again.
    pub fn handle_event(&mut self, e: &InputEvent)
        ensures
            final(self).running == (old(self).running && !requests_quit(*e)),
    {
        match e {
            InputEvent::Key(k) => {
                if k.kind == KeyKind::Press {
                    self.on_key_event(k);
                }
            },
            InputEvent::Mouse => {},
            InputEvent::Resize(_, _) => {},
            InputEvent::Other => {},
        }
    }
}

} // verus!
