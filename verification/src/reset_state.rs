//! The state in which the shell waits for the target's start-up report,
//! printed after the user presses reset on the microcontroller.
use vstd::prelude::*;
use vstd::string::StringExecFns;
use crate::connection::{DeviceConnectionState, Key, ReadOutcome, quit_requested};
use crate::patterns::{captures_found, compile, regex_compiles, regex_finds};
use crate::text::{bytes_as_chars, push_bytes_as_chars};

verus! {

/// The five register reports of the start-up message, as regular expressions.
pub open spec fn register_patterns() -> Seq<Seq<char>> {
    seq![
        "data stack base:\\s*(0x[0-9A-Fa-f]{8})"@,
        "return stack base:\\s*(0x[0-9A-Fa-f]{8})"@,
        "instruction ptr:\\s*(0x[0-9A-Fa-f]{8})"@,
        "memory end:\\s*(0x[0-9A-Fa-f]{8})"@,
        "dict end:\\s*(0x[0-9A-Fa-f]{8})"@,
    ]
}

/// Whether the pattern compiles and matches somewhere in the text.
pub open spec fn pattern_found(pattern: Seq<char>, text: Seq<char>) -> bool {
    regex_compiles(pattern) && regex_finds(pattern, text)
}

/// Whether the text holds all five register reports.
pub open spec fn start_up_report_complete(text: Seq<char>) -> bool {
    forall|k: int| 0 <= k < 5 ==> pattern_found(#[trigger] register_patterns()[k], text)
}

fn register_pattern(k: usize) -> (p: &'static str)
    requires
        k < 5,
    ensures
        p@ == register_patterns()[k as int],
{
    if k == 0 {
        "data stack base:\\s*(0x[0-9A-Fa-f]{8})"
    } else if k == 1 {
        "return stack base:\\s*(0x[0-9A-Fa-f]{8})"
    } else if k == 2 {
        "instruction ptr:\\s*(0x[0-9A-Fa-f]{8})"
    } else if k == 3 {
        "memory end:\\s*(0x[0-9A-Fa-f]{8})"
    } else {
        "dict end:\\s*(0x[0-9A-Fa-f]{8})"
    }
}

/// Whether `pattern` compiles and is found in `text`.
pub fn search(pattern: &str, text: &str) -> (r: bool)
    ensures
        r == pattern_found(pattern@, text@),
{
    match compile(String::from_str(pattern)) {
        Ok(p) => captures_found(&p, text),
        Err(_) => false,
    }
}

/// Whether every search succeeded: the number of successes equals the
/// number of searches.
pub fn all_found(found: &Vec<bool>) -> (r: bool)
    ensures
        r == forall|i: int| 0 <= i < found@.len() ==> found@[i],
{
    let n = found.len();
    let mut matches: usize = 0;
    for i in 0..n
        invariant
            n == found@.len(),
            matches <= i,
            (matches == i) == (forall|j: int| 0 <= j < i ==> found@[j]),
    {
        if found[i] {
            matches = matches + 1;
        }
    }
    matches == n
}

/// The state in which the shell waits for the target's start-up report.
pub struct RequestingDeviceResetState {
    /// What the target has sent while in this state.
    pub input: String,
    /// The state that the connection moves to next.
    pub next_state: DeviceConnectionState,
}

impl RequestingDeviceResetState {
    /// A fresh state, with nothing received.
    pub fn new() -> (r: Self)
        ensures
            r.input@ == Seq::<char>::empty(),
            r.next_state == DeviceConnectionState::RequestingDeviceReset,
    {
        Self { next_state: DeviceConnectionState::RequestingDeviceReset, input: String::new() }
    }

    /// Whether a key press asks to leave the program.
    pub fn handle_input(&self, key: Key) -> (quit: bool)
        ensures
            quit == (key == Key::Char('q')),
    {
        quit_requested(key)
    }

    /// Takes the outcome of one serial read: received bytes are kept, and
    /// once all five register reports have arrived the connection moves on
    /// to the handshake; a failed read (not a timeout) drops the connection.
    pub fn read_serial(&mut self, outcome: &ReadOutcome)
        ensures
            match outcome {
                ReadOutcome::Data(bytes) => {
                    &&& final(self).input@ == old(self).input@ + bytes_as_chars(bytes@)
                    &&& final(self).next_state == if start_up_report_complete(final(self).input@) {
                        DeviceConnectionState::InitialHandshake
                    } else {
                        old(self).next_state
                    }
                },
                ReadOutcome::TimedOut => {
                    &&& final(self).input@ == old(self).input@
                    &&& final(self).next_state == old(self).next_state
                },
                ReadOutcome::Failed => {
                    &&& final(self).input@ == old(self).input@
                    &&& final(self).next_state
                        == DeviceConnectionState::EstablishingSerialPortConnection
                },
            },
    {
        match outcome {
            ReadOutcome::Data(bytes) => {
                push_bytes_as_chars(&mut self.input, bytes.as_slice());
                let mut found: Vec<bool> = Vec::new();
                for k in 0..5
                    invariant
                        found@.len() == k,
                        forall|j: int|
                            0 <= j < k ==> found@[j] == pattern_found(register_patterns()[j], self.input@),
                {
                    let p = register_pattern(k);
                    found.push(search(p, self.input.as_str()));
                }
                let complete = all_found(&found);
                if complete {
                    self.next_state = DeviceConnectionState::InitialHandshake;
                }
                proof {
                    if complete {
                        assert forall|k: int| 0 <= k < 5 implies pattern_found(
                            #[trigger] register_patterns()[k],
                            self.input@,
                        ) by {
                            assert(found@[k]);
                        }
                    }
                    if start_up_report_complete(self.input@) {
                        assert forall|j: int| 0 <= j < found@.len() implies found@[j] by {
                            assert(pattern_found(register_patterns()[j], self.input@));
                        }
                    }
                }
            },
            ReadOutcome::TimedOut => {},
            ReadOutcome::Failed => {
                self.next_state = DeviceConnectionState::EstablishingSerialPortConnection;
            },
        }
    }

    /// Entering the state: the report is awaited afresh.
    pub fn on_enter_state(&mut self)
        ensures
            final(self).input@ == Seq::<char>::empty(),
            final(self).next_state == DeviceConnectionState::RequestingDeviceReset,
    {
        self.next_state = DeviceConnectionState::RequestingDeviceReset;
        self.input = String::new();
    }

    /// The state that the connection moves to next.
    pub fn next_state(&self) -> (r: DeviceConnectionState)
        ensures
            r == self.next_state,
    {
        self.next_state
    }
}

/// Law: the start-up report is complete exactly when each of the five
/// register reports (data stack base, return stack base, instruction
/// pointer, memory end, dictionary end, each followed by `0x` and eight hex
/// digits) is found, and these five searches are distinct.
pub proof fn lemma_report_complete_iff_all_registers(text: Seq<char>)
    ensures
        start_up_report_complete(text) <==> {
            &&& pattern_found("data stack base:\\s*(0x[0-9A-Fa-f]{8})"@, text)
            &&& pattern_found("return stack base:\\s*(0x[0-9A-Fa-f]{8})"@, text)
            &&& pattern_found("instruction ptr:\\s*(0x[0-9A-Fa-f]{8})"@, text)
            &&& pattern_found("memory end:\\s*(0x[0-9A-Fa-f]{8})"@, text)
            &&& pattern_found("dict end:\\s*(0x[0-9A-Fa-f]{8})"@, text)
        },
        forall|i: int, j: int|
            0 <= i < 5 && 0 <= j < 5 && i != j ==> register_patterns()[i] != register_patterns()[j],
{
    let p = register_patterns();
    if start_up_report_complete(text) {
        assert(pattern_found(p[0], text));
        assert(pattern_found(p[1], text));
        assert(pattern_found(p[2], text));
        assert(pattern_found(p[3], text));
        assert(pattern_found(p[4], text));
    }
    reveal_strlit("data stack base:\\s*(0x[0-9A-Fa-f]{8})");
    reveal_strlit("return stack base:\\s*(0x[0-9A-Fa-f]{8})");
    reveal_strlit("instruction ptr:\\s*(0x[0-9A-Fa-f]{8})");
    reveal_strlit("memory end:\\s*(0x[0-9A-Fa-f]{8})");
    reveal_strlit("dict end:\\s*(0x[0-9A-Fa-f]{8})");
    assert(p[0][0] == 'd' && p[0][1] == 'a');
    assert(p[1][0] == 'r');
    assert(p[2][0] == 'i');
    assert(p[3][0] == 'm');
    assert(p[4][0] == 'd' && p[4][1] == 'i');
}

} // verus!
