//! The key events that drive the viewer.

use vstd::prelude::*;

verus! {

/// The logical key of an event. Keys that the viewer gives no meaning to are
/// `Other`.
#[derive(Clone, Copy, Debug, PartialEq, Eq)]
pub enum Key {
    Char(char),
    Esc,
    Backspace,
    Enter,
    Up,
    Down,
    Other,
}

/// One key event: the key, and whether the event is a press (and not a
/// release or a repeat).
#[derive(Clone, Copy, Debug, PartialEq, Eq)]
pub struct KeyInput {
    pub key: Key,
    pub pressed: bool,
}

/// What the event loop does after an event was handled.
#[derive(Clone, Copy, Debug, PartialEq, Eq)]
pub enum LoopAction {
    Continue,
    Quit,
}

impl Key {
    /// One of the two keys that quit.
    pub open spec fn is_quit(self) -> bool {
        self == Key::Char('q') || self == Key::Esc
    }

    /// One of the two keys that go down.
    pub open spec fn is_down(self) -> bool {
        self == Key::Char('j') || self == Key::Down
    }

    /// One of the two keys that go up.
    pub open spec fn is_up(self) -> bool {
        self == Key::Char('k') || self == Key::Up
    }

    /// The key that starts the entry of a filter.
    pub open spec fn is_filter_start(self) -> bool {
        self == Key::Char('/')
    }
}

} // verus!
