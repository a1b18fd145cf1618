//! The states of the connection to the target, and the events that the
//! terminal and the serial port hand to the state machine.
use vstd::prelude::*;

verus! {

/// The states of the connection to the target.
#[derive(Clone, Copy, Debug, PartialEq, Eq, Structural)]
pub enum DeviceConnectionState {
    /// No serial port is open; the shell keeps trying to open it.
    EstablishingSerialPortConnection,
    /// The port is open; the shell waits for the target's start-up report.
    RequestingDeviceReset,
    /// The shell has asked for the dictionary and collects the answer.
    InitialHandshake,
    /// The shell runs the interactive terminal.
    Connected,
}

/// What one read of the serial port gave.
pub enum ReadOutcome {
    /// Bytes arrived.
    Data(Vec<u8>),
    /// Nothing arrived before the port's timeout.
    TimedOut,
    /// The read failed for another reason.
    Failed,
}

/// A key press, as far as the shell tells keys apart.
#[derive(Clone, Copy, Debug, PartialEq, Eq, Structural)]
pub enum Key {
    Char(char),
    Enter,
    Backspace,
    Up,
    Down,
    Esc,
    Other,
}

/// What the shell does in answer to a key.
#[derive(Clone, Copy, Debug, PartialEq, Eq, Structural)]
pub enum KeyAction {
    /// Nothing beyond the state change.
    Nothing,
    /// Leave the program.
    Quit,
    /// Send this byte to the target.
    Send(u8),
}

/// A key press that only tells whether the user asked to leave (`q`), as in
/// every state but the interactive terminal.
pub fn quit_requested(key: Key) -> (r: bool)
    ensures
        r == (key == Key::Char('q')),
{
    match key {
        Key::Char(c) => c == 'q',
        _ => false,
    }
}

} // verus!
