//! Keyboard commands of the terminal dashboard.
use vstd::prelude::*;

verus! {

/// A key press, as far as the dashboard distinguishes keys.
#[derive(Debug, Clone, Copy, PartialEq, Eq, Structural)]
pub enum Key {
    Char(char),
    Esc,
    Other,
}

/// Command that a key press gives.
#[derive(Debug, Clone, Copy, PartialEq, Eq, Structural)]
pub enum UiAction {
    /// Stop the dashboard and shut the bot down.
    Quit,
    /// Pause or resume trading.
    TogglePause,
    /// Reset the daily PnL and the risk flags.
    ResetDaily,
}

/// 'q' or Esc quits, Ctrl+'c' quits, 'p' pauses or resumes, 'r' resets the
/// daily counters; every other key does nothing.
pub open spec fn key_command(key: Key, ctrl: bool) -> Option<UiAction> {
    match key {
        Key::Esc => Some(UiAction::Quit),
        Key::Char(c) => if c == 'q' {
            Some(UiAction::Quit)
        } else if c == 'c' && ctrl {
            Some(UiAction::Quit)
        } else if c == 'p' {
            Some(UiAction::TogglePause)
        } else if c == 'r' {
            Some(UiAction::ResetDaily)
        } else {
            None
        },
        Key::Other => None,
    }
}

/// The command of a key press, given whether Control was held.
pub fn action_for_key(key: Key, ctrl: bool) -> (r: Option<UiAction>)
    ensures
        r == key_command(key, ctrl),
{
    match key {
        Key::Esc => Some(UiAction::Quit),
        Key::Char(c) => if c == 'q' {
            Some(UiAction::Quit)
        } else if c == 'c' && ctrl {
            Some(UiAction::Quit)
        } else if c == 'p' {
            Some(UiAction::TogglePause)
        } else if c == 'r' {
            Some(UiAction::ResetDaily)
        } else {
            None
        },
        Key::Other => None,
    }
}

} // verus!
