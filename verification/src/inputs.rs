//! Input events: key presses reduced to the shapes the binding table
//! distinguishes, and the events pulled from the input/tick stream.

use vstd::prelude::*;

verus! {

/// A single key press.
#[derive(Clone, Copy, Debug, PartialEq, Eq, Structural)]
pub enum Key {
    Enter,
    Esc,
    Backspace,
    Tab,
    Char(char),
    Ctrl(char),
    Alt(char),
    Unknown,
}

/// One event pulled from the input/tick stream.
#[derive(Clone, Copy, Debug, PartialEq, Eq, Structural)]
pub enum InputEvent {
    /// A key was pressed.
    Input(Key),
    /// The current input line should be sent.
    Send,
    /// The tick timer fired.
    Tick,
}

} // verus!
