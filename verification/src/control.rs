//! The input controller: which key presses quit the animation, and the
//! two-state frame-loop machine they drive.

use vstd::prelude::*;

verus! {

/// A key press, held as plain values; the terminal layer translates its
/// backend's events into this shape.
#[derive(Clone, Copy, Debug, PartialEq, Eq, Structural)]
pub enum KeyCode {
    Char(char),
    Esc,
    Other,
}

/// A key press together with whether Control was held.
#[derive(Clone, Copy, Debug, PartialEq, Eq, Structural)]
pub struct KeyPress {
    pub code: KeyCode,
    pub ctrl: bool,
}

/// The frame loop's state: it runs until a quit key stops it, and
/// `Stopped` is terminal.
#[derive(Clone, Copy, Debug, PartialEq, Eq, Structural)]
pub enum RunState {
    Running,
    Stopped,
}

/// The quit signals: `q`, Escape, or Ctrl+C.
pub open spec fn spec_is_quit(k: KeyPress) -> bool {
    ||| k.code == KeyCode::Char('q')
    ||| k.code == KeyCode::Esc
    ||| (k.code == KeyCode::Char('c') && k.ctrl)
}

pub fn is_quit_key(k: &KeyPress) -> (r: bool)
    ensures
        r == spec_is_quit(*k),
{
    match k.code {
        KeyCode::Char(c) => c == 'q' || (c == 'c' && k.ctrl),
        KeyCode::Esc => true,
        KeyCode::Other => false,
    }
}

/// Where one polled tick leaves the loop: `Stopped` stays stopped, a quit
/// key stops a running loop, and anything else leaves it running.
pub open spec fn spec_step_state(s: RunState, key: Option<KeyPress>) -> RunState {
    if s == RunState::Stopped {
        RunState::Stopped
    } else {
        match key {
            Some(k) => if spec_is_quit(k) {
                RunState::Stopped
            } else {
                RunState::Running
            },
            None => RunState::Running,
        }
    }
}

pub fn step_state(s: RunState, key: Option<KeyPress>) -> (r: RunState)
    ensures
        r == spec_step_state(s, key),
        r == RunState::Stopped <==> (s == RunState::Stopped || (key matches Some(k)
            && spec_is_quit(k))),
{
    match s {
        RunState::Stopped => RunState::Stopped,
        RunState::Running => match key {
            Some(k) => if is_quit_key(&k) {
                RunState::Stopped
            } else {
                RunState::Running
            },
            None => RunState::Running,
        },
    }
}

} // verus!
