//! Terminal input events, as far as the calculator reads them.

use vstd::prelude::*;

verus! {

/// The key of a key event.
pub enum KeyCode {
    Char(char),
    Enter,
    Backspace,
    Esc,
    /// Any other key.
    Other,
}

/// Whether a key went down, repeats or went up.
pub enum KeyEventKind {
    Press,
    Repeat,
    Release,
}

/// A key event.
pub struct KeyEvent {
    pub code: KeyCode,
    pub kind: KeyEventKind,
}

/// A terminal event.
pub enum Event {
    Key(KeyEvent),
    /// Any event that is not a key event (mouse, resize, focus, paste).
    Other,
}

/// The key that `e` presses, if it is a key press.
pub open spec fn pressed_key(e: Event) -> Option<KeyCode> {
    match e {
        Event::Key(k) => match k.kind {
            KeyEventKind::Press => Some(k.code),
            _ => None,
        },
        Event::Other => None,
    }
}

/// Whether `e` asks the program to stop: a press of `q` or of Escape.
pub open spec fn is_quit(e: Event) -> bool {
    pressed_key(e) == Some(KeyCode::Char('q')) || pressed_key(e) == Some(KeyCode::Esc)
}

} // verus!
