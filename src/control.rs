//! Decisions of the dashboard's control loop: when to sample again and what
//! a key press asks for.
use vstd::prelude::*;

verus! {

/// A key press, as far as the dashboard tells keys apart.
#[derive(Debug, Clone, Copy, PartialEq, Eq, Structural)]
pub enum Key {
    Char(char),
    Esc,
    Other,
}

/// What the control loop does in answer to a key press.
#[derive(Debug, Clone, Copy, PartialEq, Eq, Structural)]
pub enum KeyAction {
    /// Leave the dashboard.
    Quit,
    /// Read the host facts again at once.
    Refresh,
    /// Nothing.
    Ignore,
}

/// 'q' and Escape quit, 'r' refreshes, every other key is ignored.
pub open spec fn action_for(key: Key) -> KeyAction {
    match key {
        Key::Char(c) => if c == 'q' {
            KeyAction::Quit
        } else if c == 'r' {
            KeyAction::Refresh
        } else {
            KeyAction::Ignore
        },
        Key::Esc => KeyAction::Quit,
        Key::Other => KeyAction::Ignore,
    }
}

/// What a key press asks for.
pub fn handle_key_event(key: Key) -> (r: KeyAction)
    ensures
        r == action_for(key),
{
    match key {
        Key::Char(c) => {
            if c == 'q' {
                KeyAction::Quit
            } else if c == 'r' {
                KeyAction::Refresh
            } else {
                KeyAction::Ignore
            }
        },
        Key::Esc => KeyAction::Quit,
        Key::Other => KeyAction::Ignore,
    }
}

/// A new sample is due once the time since the last one, in milliseconds,
/// has reached the refresh interval.
pub fn refresh_due(elapsed_ms: u64, interval_ms: u64) -> (r: bool)
    ensures
        r == (elapsed_ms >= interval_ms),
{
    elapsed_ms >= interval_ms
}

} // verus!
