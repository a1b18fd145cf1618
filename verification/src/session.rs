//! The connection state machine of the shell:
//!
//! ```text
//! establishing serial port <---------------------------+
//!        | (port opened)                               |
//!        v                                             | read/write failure
//! requesting device reset  (start-up report seen)      |
//!        v                                             |
//! initial handshake        (dictionary received) ------+
//!        v                                             |
//! connected -------------------------------------------+
//! ```
//!
//! The serial port, the clock and the screen stay with the caller, which
//! hands in key presses and read outcomes and carries out the actions that
//! come back.
use vstd::prelude::*;
use crate::connected_state::{
    content_selection_after_key, has_cr, mode_after_key, scroll_after_key, term_run,
    words_selection_after_key, ConnectedState, InputMode,
};
use crate::connection::{DeviceConnectionState, Key, KeyAction, ReadOutcome, quit_requested};
use crate::forth_state::ForthState;
use crate::handshake_state::{answer_ok, enter_answer, received_text, InitialHandshakeState, ANSWER_WAIT_MS};
use crate::reset_state::{start_up_report_complete, RequestingDeviceResetState};
use crate::show_words::{listing_ok, listing_result};
use crate::text::{bytes_as_chars, lines_after_first};

verus! {

/// What the caller does after a change of state.
#[derive(Clone, Copy, Debug, PartialEq, Eq)]
pub enum Transition {
    /// The state did not change.
    Stay,
    /// The connection was dropped: close the serial port.
    ClosePort,
    /// A state was entered; nothing is owed.
    Entered,
    /// The handshake was entered: restart its clock and send this command.
    EnteredAndSend(&'static str),
}

/// The shell's state: the connection state, the per-state data and the
/// dictionary learnt from the target.
pub struct Session {
    pub connection_state: DeviceConnectionState,
    /// Where the connection goes after an attempt to open the port.
    pub establishing_connection_next_state: DeviceConnectionState,
    /// Whether the caller holds an open serial port.
    pub port_open: bool,
    pub connected: ConnectedState,
    pub requesting_reset: RequestingDeviceResetState,
    pub initial_handshake: InitialHandshakeState,
    pub forth_state: ForthState,
}

/// Whether a key press can be handled in the terminal without a panic.
pub open spec fn connected_key_ok(c: ConnectedState, key: Key) -> bool {
    &&& c.input_mode == InputMode::ScrollingWords && key == Key::Down && c.dictionary_selected is Some
        ==> c.num_words >= 1
    &&& c.input_mode == InputMode::ScrollingWordContent && key == Key::Down
        && c.word_content_selected is Some ==> c.current_selected_word_data_size >= 1
}

/// Whether a read can be taken in the terminal without a panic.
pub open spec fn connected_read_ok(c: ConnectedState, outcome: ReadOutcome) -> bool {
    &&& c.input_mode != InputMode::AutomatedComms ==> match outcome {
        ReadOutcome::Data(bytes) => {
            &&& has_cr(bytes@) ==> c.serialterm_height >= 3
            &&& c.input@.len() + bytes@.len() < usize::MAX
        },
        _ => true,
    }
    &&& c.input_mode == InputMode::AutomatedComms && outcome == ReadOutcome::TimedOut ==> listing_ok(
        lines_after_first(c.automated_comms_string@),
    )
}

impl Session {
    /// The invariant: the port is open in every state past the first, and
    /// the first state only moves on once the port is open.
    pub open spec fn wf(&self) -> bool {
        &&& self.forth_state.wf()
        &&& self.connected.wf()
        &&& self.connection_state != DeviceConnectionState::EstablishingSerialPortConnection
            ==> self.port_open
        &&& self.establishing_connection_next_state
            == DeviceConnectionState::EstablishingSerialPortConnection
            || self.establishing_connection_next_state
            == DeviceConnectionState::RequestingDeviceReset
        &&& self.establishing_connection_next_state == DeviceConnectionState::RequestingDeviceReset
            ==> self.port_open
        &&& self.requesting_reset.next_state != DeviceConnectionState::Connected
        &&& self.initial_handshake.next_state != DeviceConnectionState::RequestingDeviceReset
        &&& (self.connected.next_state == DeviceConnectionState::Connected
            || self.connected.next_state == DeviceConnectionState::EstablishingSerialPortConnection)
        &&& self.connection_state != DeviceConnectionState::Connected ==> self.connected.next_state
            == DeviceConnectionState::Connected
    }

    /// The state that the current state asks to move to.
    pub open spec fn spec_next_state(&self) -> DeviceConnectionState {
        match self.connection_state {
            DeviceConnectionState::EstablishingSerialPortConnection => self.establishing_connection_next_state,
            DeviceConnectionState::RequestingDeviceReset => self.requesting_reset.next_state,
            DeviceConnectionState::InitialHandshake => self.initial_handshake.next_state,
            DeviceConnectionState::Connected => self.connected.next_state,
        }
    }

    /// A session that has no port yet.
    pub fn new() -> (r: Self)
        ensures
            r.wf(),
            r.connection_state == DeviceConnectionState::EstablishingSerialPortConnection,
            r.establishing_connection_next_state
                == DeviceConnectionState::EstablishingSerialPortConnection,
            !r.port_open,
            r.forth_state@.len() == 0,
            r.requesting_reset.input@.len() == 0,
            r.requesting_reset.next_state == DeviceConnectionState::RequestingDeviceReset,
            r.initial_handshake.input@.len() == 0,
            r.initial_handshake.next_state == DeviceConnectionState::InitialHandshake,
            r.connected.input@.len() == 0,
            r.connected.character_x == 0,
            r.connected.character_y == 0,
            r.connected.input_mode == InputMode::Normal,
            r.connected.scroll_serialterm == 0,
            r.connected.serialterm_height == 0,
            r.connected.next_state == DeviceConnectionState::Connected,
            r.connected.dictionary_selected is None,
            r.connected.word_content_selected is None,
            r.connected.num_words == 0,
            r.connected.current_selected_word_data_size == 0,
            r.connected.automated_comms_string@.len() == 0,
    {
        Self {
            connection_state: DeviceConnectionState::EstablishingSerialPortConnection,
            establishing_connection_next_state: DeviceConnectionState::EstablishingSerialPortConnection,
            port_open: false,
            connected: ConnectedState::new(),
            requesting_reset: RequestingDeviceResetState::new(),
            initial_handshake: InitialHandshakeState::new(),
            forth_state: ForthState::new(),
        }
    }

    /// Whether `handle_input` may be called with this key.
    pub fn key_ok(&self, key: Key) -> (r: bool)
        ensures
            r == connected_key_ok(self.connected, key),
    {
        let c = &self.connected;
        let scroll_words_down = c.input_mode == InputMode::ScrollingWords && key == Key::Down
            && c.dictionary_selected.is_some();
        let scroll_cells_down = c.input_mode == InputMode::ScrollingWordContent && key == Key::Down
            && c.word_content_selected.is_some();
        (!scroll_words_down || c.num_words >= 1) && (!scroll_cells_down
            || c.current_selected_word_data_size >= 1)
    }

    /// Takes a key press, in the current state.
    pub fn handle_input(&mut self, key: Key) -> (r: KeyAction)
        requires
            old(self).wf(),
            connected_key_ok(old(self).connected, key),
        ensures
            final(self).wf(),
            final(self).connection_state == old(self).connection_state,
            final(self).port_open == old(self).port_open,
            final(self).forth_state@ == old(self).forth_state@,
            old(self).connection_state == DeviceConnectionState::EstablishingSerialPortConnection || (
            old(self).connection_state != DeviceConnectionState::Connected && old(self).port_open)
                ==> r == if key == Key::Char('q') {
                KeyAction::Quit
            } else {
                KeyAction::Nothing
            },
            old(self).connection_state == DeviceConnectionState::Connected && old(self).port_open
                ==> r == crate::connected_state::key_action(old(self).connected.input_mode, key),
            old(self).connection_state != DeviceConnectionState::EstablishingSerialPortConnection
                && !old(self).port_open ==> r == KeyAction::Nothing,
            old(self).connection_state == DeviceConnectionState::Connected && old(self).port_open
                ==> {
                &&& final(self).connected.input_mode == mode_after_key(
                    old(self).connected.input_mode,
                    key,
                )
                &&& final(self).connected.dictionary_selected == words_selection_after_key(
                    old(self).connected.input_mode,
                    key,
                    old(self).connected.dictionary_selected,
                    old(self).connected.num_words,
                )
                &&& final(self).connected.word_content_selected == content_selection_after_key(
                    old(self).connected.input_mode,
                    key,
                    old(self).connected.word_content_selected,
                    old(self).connected.current_selected_word_data_size,
                )
                &&& final(self).connected.scroll_serialterm == scroll_after_key(
                    old(self).connected.input_mode,
                    key,
                    old(self).connected.scroll_serialterm,
                )
                &&& final(self).connected.input@ == old(self).connected.input@
                &&& final(self).connected.character_x == old(self).connected.character_x
                &&& final(self).connected.character_y == old(self).connected.character_y
                &&& final(self).connected.serialterm_height == old(self).connected.serialterm_height
                &&& final(self).connected.next_state == old(self).connected.next_state
                &&& final(self).connected.num_words == old(self).connected.num_words
                &&& final(self).connected.current_selected_word_data_size == old(
                    self).connected.current_selected_word_data_size
                &&& final(self).connected.automated_comms_string@ == old(
                    self).connected.automated_comms_string@
            },
            !(old(self).connection_state == DeviceConnectionState::Connected && old(self).port_open)
                ==> final(self).connected == old(self).connected,
            final(self).requesting_reset == old(self).requesting_reset,
            final(self).initial_handshake == old(self).initial_handshake,
            final(self).spec_next_state() == old(self).spec_next_state(),
    {
        match self.connection_state {
            DeviceConnectionState::EstablishingSerialPortConnection => {
                if quit_requested(key) {
                    KeyAction::Quit
                } else {
                    KeyAction::Nothing
                }
            },
            DeviceConnectionState::RequestingDeviceReset => {
                if self.port_open && self.requesting_reset.handle_input(key) {
                    KeyAction::Quit
                } else {
                    KeyAction::Nothing
                }
            },
            DeviceConnectionState::InitialHandshake => {
                if self.port_open && self.initial_handshake.handle_input(key) {
                    KeyAction::Quit
                } else {
                    KeyAction::Nothing
                }
            },
            DeviceConnectionState::Connected => {
                if self.port_open {
                    self.connected.handle_input(key)
                } else {
                    KeyAction::Nothing
                }
            },
        }
    }

    /// A byte could not be sent to the target: in the terminal, the
    /// connection is dropped.
    pub fn on_write_failed(&mut self)
        requires
            old(self).wf(),
        ensures
            final(self).wf(),
            final(self).connection_state == old(self).connection_state,
            final(self).port_open == old(self).port_open,
            final(self).forth_state@ == old(self).forth_state@,
            final(self).requesting_reset == old(self).requesting_reset,
            final(self).initial_handshake == old(self).initial_handshake,
            old(self).connection_state == DeviceConnectionState::Connected ==> final(self).connected
                == (ConnectedState {
                next_state: DeviceConnectionState::EstablishingSerialPortConnection,
                ..old(self).connected
            }),
            old(self).connection_state != DeviceConnectionState::Connected ==> final(self).connected
                == old(self).connected,
    {
        if self.connection_state == DeviceConnectionState::Connected {
            self.connected.on_write_failed();
        }
    }

    /// The caller tried to open the serial port, and `opened` says whether it did.
    pub fn on_port_open_attempt(&mut self, opened: bool)
        requires
            old(self).wf(),
            old(self).connection_state == DeviceConnectionState::EstablishingSerialPortConnection,
        ensures
            final(self).wf(),
            final(self).connection_state == old(self).connection_state,
            final(self).port_open == (opened || old(self).port_open),
            final(self).establishing_connection_next_state == if opened {
                DeviceConnectionState::RequestingDeviceReset
            } else {
                DeviceConnectionState::EstablishingSerialPortConnection
            },
            final(self).forth_state@ == old(self).forth_state@,
            final(self).connected == old(self).connected,
            final(self).requesting_reset == old(self).requesting_reset,
            final(self).initial_handshake == old(self).initial_handshake,
    {
        if opened {
            self.port_open = true;
            self.establishing_connection_next_state = DeviceConnectionState::RequestingDeviceReset;
        } else {
            self.establishing_connection_next_state =
            DeviceConnectionState::EstablishingSerialPortConnection;
        }
    }

    /// Whether `read_serial` may be called with this outcome, `elapsed_ms`
    /// after the current state was entered.
    pub fn read_ok(&self, outcome: &ReadOutcome, elapsed_ms: u128) -> (r: bool)
        ensures
            r == ((self.connection_state == DeviceConnectionState::InitialHandshake && elapsed_ms
                > ANSWER_WAIT_MS ==> answer_ok(
                lines_after_first(received_text(self.initial_handshake.input@, *outcome)),
            )) && (self.connection_state == DeviceConnectionState::Connected ==> connected_read_ok(
                self.connected,
                *outcome,
            ))),
    {
        let handshake_ok = if self.connection_state == DeviceConnectionState::InitialHandshake
            && elapsed_ms > ANSWER_WAIT_MS {
            self.initial_handshake.answer_readable_after(outcome)
        } else {
            true
        };
        let connected_ok = if self.connection_state == DeviceConnectionState::Connected {
            let c = &self.connected;
            if c.input_mode == InputMode::AutomatedComms {
                match outcome {
                    ReadOutcome::TimedOut => c.pending_listing_readable(),
                    _ => true,
                }
            } else {
                match outcome {
                    ReadOutcome::Data(bytes) => {
                        let cr_ok = c.serialterm_height >= 3 || !crate::connected_state::holds_cr(
                            bytes.as_slice(),
                        );
                        let len = crate::text::char_count(c.input.as_str());
                        cr_ok && len < usize::MAX && bytes.len() < usize::MAX - len
                    },
                    _ => true,
                }
            }
        } else {
            true
        };
        handshake_ok && connected_ok
    }

    /// Takes the outcome of one serial read in a state past the first,
    /// `elapsed_ms` after that state was entered. Returns the commands to
    /// send to the target.
    pub fn read_serial(&mut self, outcome: &ReadOutcome, elapsed_ms: u128) -> (sends: Vec<&'static str>)
        requires
            old(self).wf(),
            old(self).connection_state != DeviceConnectionState::EstablishingSerialPortConnection,
            old(self).connection_state == DeviceConnectionState::InitialHandshake && elapsed_ms
                > ANSWER_WAIT_MS ==> answer_ok(
                lines_after_first(received_text(old(self).initial_handshake.input@, *outcome)),
            ),
            old(self).connection_state == DeviceConnectionState::Connected ==> connected_read_ok(
                old(self).connected,
                *outcome,
            ),
        ensures
            final(self).wf(),
            final(self).connection_state == old(self).connection_state,
            final(self).port_open == old(self).port_open,
            old(self).connection_state != DeviceConnectionState::Connected ==> sends@.len() == 0,
            forall|i: int| 0 <= i < sends@.len() ==> sends@[i]@ == "showLastWord\r"@,
            old(self).connection_state == DeviceConnectionState::RequestingDeviceReset ==> {
                &&& final(self).requesting_reset.input@ == received_text(
                    old(self).requesting_reset.input@,
                    *outcome,
                )
                &&& outcome is Data ==> final(self).requesting_reset.next_state == if start_up_report_complete(
                    final(self).requesting_reset.input@,
                ) {
                    DeviceConnectionState::InitialHandshake
                } else {
                    old(self).requesting_reset.next_state
                }
                &&& final(self).forth_state@ == old(self).forth_state@
            },
            old(self).connection_state == DeviceConnectionState::InitialHandshake ==> {
                &&& final(self).initial_handshake.input@ == received_text(
                    old(self).initial_handshake.input@,
                    *outcome,
                )
                &&& elapsed_ms > ANSWER_WAIT_MS ==> {
                    &&& final(self).forth_state@ == enter_answer(
                        lines_after_first(final(self).initial_handshake.input@),
                        old(self).forth_state@,
                    )
                    &&& final(self).initial_handshake.next_state == if final(self).forth_state@.len()
                        > 0 {
                        DeviceConnectionState::Connected
                    } else {
                        DeviceConnectionState::EstablishingSerialPortConnection
                    }
                }
                &&& elapsed_ms <= ANSWER_WAIT_MS ==> final(self).forth_state@ == old(self).forth_state@
            },
            old(self).connection_state == DeviceConnectionState::Connected
                && old(self).connected.input_mode == InputMode::AutomatedComms
                && *outcome == ReadOutcome::TimedOut ==> {
                &&& final(self).forth_state@ == listing_result(
                    lines_after_first(old(self).connected.automated_comms_string@),
                    old(self).forth_state@,
                )
                &&& final(self).connected.input_mode == InputMode::Editing
            },
            old(self).connection_state == DeviceConnectionState::Connected
                && old(self).connected.input_mode == InputMode::AutomatedComms ==> match *outcome {
                ReadOutcome::Data(bytes) => {
                    &&& final(self).connected.automated_comms_string@ == old(self).connected.automated_comms_string@ + bytes_as_chars(bytes@)
                    &&& final(self).connected.input_mode == InputMode::AutomatedComms
                    &&& final(self).forth_state@ == old(self).forth_state@
                },
                _ => final(self).connected.automated_comms_string@ == old(self).connected.automated_comms_string@,
            },
            old(self).connection_state == DeviceConnectionState::Connected
                && old(self).connected.input_mode != InputMode::AutomatedComms ==> {
                &&& final(self).forth_state@ == old(self).forth_state@
                &&& outcome matches ReadOutcome::Data(bytes) ==> final(self).connected.term(
                    sends@.len() as nat,
                ) == term_run(
                    old(self).connected.term(0),
                    old(self).connected.serialterm_height,
                    bytes@,
                )
            },
            old(self).connection_state == DeviceConnectionState::Connected ==> {
                &&& final(self).connected.scroll_serialterm == old(self).connected.scroll_serialterm
                &&& final(self).connected.serialterm_height == old(self).connected.serialterm_height
                &&& final(self).connected.dictionary_selected == old(
                    self).connected.dictionary_selected
                &&& final(self).connected.word_content_selected == old(
                    self).connected.word_content_selected
                &&& final(self).connected.num_words == old(self).connected.num_words
                &&& final(self).connected.current_selected_word_data_size == old(
                    self).connected.current_selected_word_data_size
            },
            old(self).connection_state == DeviceConnectionState::Connected
                && old(self).connected.input_mode == InputMode::AutomatedComms ==> {
                &&& sends@.len() == 0
                &&& final(self).connected.input@ == old(self).connected.input@
                &&& final(self).connected.character_x == old(self).connected.character_x
                &&& final(self).connected.character_y == old(self).connected.character_y
                &&& *outcome == ReadOutcome::Failed ==> final(self).forth_state@ == old(
                    self).forth_state@ && final(self).connected.input_mode == InputMode::AutomatedComms
            },
            old(self).connection_state == DeviceConnectionState::Connected
                && old(self).connected.input_mode != InputMode::AutomatedComms && *outcome
                == ReadOutcome::Failed ==> sends@.len() == 0 && final(self).connected.term(0) == old(
                self).connected.term(0),
            old(self).connection_state != DeviceConnectionState::Connected ==> final(self).connected
                == old(self).connected,
            old(self).connection_state != DeviceConnectionState::RequestingDeviceReset ==> final(self).requesting_reset == old(self).requesting_reset,
            old(self).connection_state != DeviceConnectionState::InitialHandshake ==> final(self).initial_handshake == old(self).initial_handshake,
            final(self).establishing_connection_next_state == old(self).establishing_connection_next_state,
            old(self).connection_state == DeviceConnectionState::RequestingDeviceReset
                && *outcome == ReadOutcome::TimedOut ==> final(self).requesting_reset.next_state
                == old(self).requesting_reset.next_state,
            old(self).connection_state == DeviceConnectionState::InitialHandshake && elapsed_ms
                <= ANSWER_WAIT_MS && !(*outcome is Failed) ==> final(self).initial_handshake.next_state
                == old(self).initial_handshake.next_state,
            old(self).connection_state == DeviceConnectionState::Connected && !(*outcome is Failed)
                ==> final(self).connected.next_state == old(self).connected.next_state,
            old(self).connection_state == DeviceConnectionState::Connected
                && old(self).connected.input_mode != InputMode::AutomatedComms && *outcome
                == ReadOutcome::TimedOut ==> final(self).connected.term(0) == old(self).connected.term(
                0,
            ),
            final(self).spec_next_state() == DeviceConnectionState::EstablishingSerialPortConnection
                && old(self).spec_next_state()
                != DeviceConnectionState::EstablishingSerialPortConnection ==> *outcome
                == ReadOutcome::Failed || (old(self).connection_state
                == DeviceConnectionState::InitialHandshake && elapsed_ms > ANSWER_WAIT_MS && final(self).forth_state@.len() == 0),
            *outcome == ReadOutcome::Failed && !(old(self).connection_state
                == DeviceConnectionState::InitialHandshake && elapsed_ms > ANSWER_WAIT_MS)
                ==> final(self).spec_next_state()
                == DeviceConnectionState::EstablishingSerialPortConnection,
    {
        match self.connection_state {
            DeviceConnectionState::EstablishingSerialPortConnection => Vec::new(),
            DeviceConnectionState::RequestingDeviceReset => {
                self.requesting_reset.read_serial(outcome);
                Vec::new()
            },
            DeviceConnectionState::InitialHandshake => {
                self.initial_handshake.read_serial(outcome, elapsed_ms, &mut self.forth_state);
                Vec::new()
            },
            DeviceConnectionState::Connected => {
                self.connected.read_serial(outcome, &mut self.forth_state)
            },
        }
    }

    /// The state that the current state asks to move to.
    pub fn next_state(&self) -> (r: DeviceConnectionState)
        ensures
            r == self.spec_next_state(),
    {
        match self.connection_state {
            DeviceConnectionState::EstablishingSerialPortConnection => self.establishing_connection_next_state,
            DeviceConnectionState::RequestingDeviceReset => self.requesting_reset.next_state(),
            DeviceConnectionState::InitialHandshake => self.initial_handshake.next_state(),
            DeviceConnectionState::Connected => self.connected.next_state(),
        }
    }

    /// Moves to the state that the current state asks for, if it differs:
    /// the old state is left and the new one entered. Entering the first
    /// state closes the port; entering the handshake forgets the dictionary
    /// and sends `showWords`.
    pub fn transition(&mut self) -> (r: Transition)
        requires
            old(self).wf(),
        ensures
            final(self).wf(),
            final(self).connection_state == old(self).spec_next_state(),
            old(self).spec_next_state() == old(self).connection_state ==> r == Transition::Stay,
            old(self).spec_next_state() != old(self).connection_state ==> match old(self).spec_next_state() {
                DeviceConnectionState::EstablishingSerialPortConnection => {
                    &&& r == Transition::ClosePort
                    &&& !final(self).port_open
                },
                DeviceConnectionState::RequestingDeviceReset => {
                    &&& r == Transition::Entered
                    &&& final(self).requesting_reset.input@.len() == 0
                    &&& final(self).requesting_reset.next_state
                        == DeviceConnectionState::RequestingDeviceReset
                },
                DeviceConnectionState::InitialHandshake => {
                    &&& r matches Transition::EnteredAndSend(cmd) && cmd@ == "showWords\r"@
                    &&& final(self).forth_state@.len() == 0
                    &&& final(self).initial_handshake.input@.len() == 0
                    &&& final(self).initial_handshake.next_state
                        == DeviceConnectionState::InitialHandshake
                },
                DeviceConnectionState::Connected => {
                    &&& r == Transition::Entered
                    &&& final(self).connected.input@.len() == 0
                    &&& final(self).connected.input_mode == InputMode::Normal
                    &&& final(self).connected.next_state == DeviceConnectionState::Connected
                    &&& final(self).connected.character_x == 0
                    &&& final(self).connected.character_y == 0
                    &&& final(self).connected.scroll_serialterm == 0
                    &&& final(self).connected.serialterm_height == old(self).connected.serialterm_height
                    &&& final(self).connected.dictionary_selected == old(
                        self).connected.dictionary_selected
                    &&& final(self).connected.word_content_selected == old(
                        self).connected.word_content_selected
                    &&& final(self).connected.num_words == old(self).connected.num_words
                    &&& final(self).connected.current_selected_word_data_size == old(
                        self).connected.current_selected_word_data_size
                    &&& final(self).connected.automated_comms_string@ == old(
                        self).connected.automated_comms_string@
                },
            },
            old(self).connection_state == DeviceConnectionState::Connected && old(self).spec_next_state() != old(self).connection_state ==> final(self).connected == (
            ConnectedState { next_state: DeviceConnectionState::Connected, ..old(self).connected }),
            !(old(self).spec_next_state() != old(self).connection_state && (old(self).connection_state
                == DeviceConnectionState::Connected || old(self).spec_next_state()
                == DeviceConnectionState::Connected)) ==> final(self).connected == old(self).connected,
            !(old(self).spec_next_state() != old(self).connection_state && old(self).spec_next_state()
                == DeviceConnectionState::RequestingDeviceReset) ==> final(self).requesting_reset
                == old(self).requesting_reset,
            !(old(self).spec_next_state() != old(self).connection_state && old(self).spec_next_state()
                == DeviceConnectionState::InitialHandshake) ==> final(self).initial_handshake == old(self).initial_handshake && final(self).forth_state@ == old(self).forth_state@,
            !(old(self).spec_next_state() != old(self).connection_state && old(self).spec_next_state()
                == DeviceConnectionState::EstablishingSerialPortConnection) ==> final(self).port_open
                == old(self).port_open,
    {
        let new_state = self.next_state();
        if new_state == self.connection_state {
            return Transition::Stay;
        }
        match self.connection_state {
            DeviceConnectionState::Connected => self.connected.on_exit_state(),
            _ => {},
        }
        self.connection_state = new_state;
        match new_state {
            DeviceConnectionState::EstablishingSerialPortConnection => {
                self.port_open = false;
                self.establishing_connection_next_state =
                DeviceConnectionState::EstablishingSerialPortConnection;
                Transition::ClosePort
            },
            DeviceConnectionState::RequestingDeviceReset => {
                assert(self.port_open);
                self.requesting_reset.on_enter_state();
                Transition::Entered
            },
            DeviceConnectionState::InitialHandshake => {
                assert(self.port_open);
                let cmd = self.initial_handshake.on_enter_state(&mut self.forth_state);
                Transition::EnteredAndSend(cmd)
            },
            DeviceConnectionState::Connected => {
                assert(self.port_open);
                self.connected.on_enter_state();
                Transition::Entered
            },
        }
    }
}

/// Whether the connection may move from `from` to `to` in one step: along
/// the arrows of the state diagram, or not at all.
pub open spec fn allowed_step(from: DeviceConnectionState, to: DeviceConnectionState) -> bool {
    from == to || match from {
        DeviceConnectionState::EstablishingSerialPortConnection => to
            == DeviceConnectionState::RequestingDeviceReset,
        DeviceConnectionState::RequestingDeviceReset => to == DeviceConnectionState::InitialHandshake
            || to == DeviceConnectionState::EstablishingSerialPortConnection,
        DeviceConnectionState::InitialHandshake => to == DeviceConnectionState::Connected || to
            == DeviceConnectionState::EstablishingSerialPortConnection,
        DeviceConnectionState::Connected => to
            == DeviceConnectionState::EstablishingSerialPortConnection,
    }
}

/// Law: the connection only ever moves along the arrows of the state
/// diagram: from the first state to the reset request once the port is
/// open, onwards one state at a time, and back to the first state on failure.
pub proof fn lemma_transitions_follow_diagram(s: Session)
    requires
        s.wf(),
    ensures
        allowed_step(s.connection_state, s.spec_next_state()),
        s.spec_next_state() != s.connection_state && s.spec_next_state()
            != DeviceConnectionState::EstablishingSerialPortConnection ==> s.port_open,
{
}

} // verus!
