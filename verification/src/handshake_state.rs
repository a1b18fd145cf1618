//! The state in which the shell asks the target for its dictionary
//! (`showWords`) and, after a fixed wait, reads the answer.
use vstd::prelude::*;
use vstd::string::StringExecFns;
use crate::connection::{DeviceConnectionState, Key, ReadOutcome, quit_requested};
use crate::forth_state::{data_views, index_of_name, insert_word, DataWordView, ForthState, ForthWord, WordView, HEADER_SIZE};
use crate::hex::{format_hex8, hex8, hex_token_value, lemma_hex8_roundtrip, parse_hex_token};
use crate::text::{bytes_as_chars, lines_after_first, push_bytes_as_chars, split_lines, split_whitespace, str_views, words_of};

verus! {

/// How long, in milliseconds, the answer to `showWords` is collected before it is read.
pub const ANSWER_WAIT_MS: u128 = 2000;

/// What the text of the state is after a read with this outcome.
pub open spec fn received_text(input: Seq<char>, outcome: ReadOutcome) -> Seq<char> {
    match outcome {
        ReadOutcome::Data(bytes) => input + bytes_as_chars(bytes@),
        _ => input,
    }
}

/// Whether an answer line can be read: it has an address and a name.
pub open spec fn answer_line_ok(line: Seq<char>) -> bool {
    let t = words_of(line);
    t.len() >= 2 && hex_token_value(t[0]) is Some
}

/// Whether every answer line can be read.
pub open spec fn answer_ok(lines: Seq<Seq<char>>) -> bool {
    forall|i: int| 0 <= i < lines.len() ==> answer_line_ok(#[trigger] lines[i])
}

/// The word that an answer line introduces: its name and address, no cells,
/// no flags, implementation address `address + HEADER_SIZE` (wrapping).
pub open spec fn answer_word(line: Seq<char>) -> WordView {
    let t = words_of(line);
    let a = hex_token_value(t[0])->0;
    WordView {
        name: t[1],
        address: a,
        address_string: hex8(a),
        data: Seq::empty(),
        is_primitive: false,
        is_immediate: false,
        impl_address: ((a + HEADER_SIZE) % 0x1_0000_0000) as u32,
    }
}

/// The dictionary after the words of the answer lines are entered in order.
pub open spec fn enter_answer(lines: Seq<Seq<char>>, ws: Seq<WordView>) -> Seq<WordView>
    decreases lines.len(),
{
    if lines.len() == 0 {
        ws
    } else {
        enter_answer(lines.drop_first(), insert_word(ws, answer_word(lines[0])))
    }
}

/// Whether every line of the text after the first can be read.
pub fn answer_is_readable(text: &str) -> (r: bool)
    ensures
        r == answer_ok(lines_after_first(text@)),
{
    let lines = split_lines(text);
    let ghost ls = str_views(lines@);
    let n = lines.len();
    if n == 0 {
        return true;
    }
    assert(lines_after_first(text@) =~= ls.drop_first());
    for i in 1..n
        invariant
            n == ls.len(),
            n >= 1,
            ls == str_views(lines@),
            lines_after_first(text@) == ls.drop_first(),
            forall|j: int| 0 <= j < i - 1 ==> answer_line_ok(#[trigger] ls.drop_first()[j]),
    {
        assert(ls.drop_first()[i - 1] == lines[i as int]@);
        let tokens = split_whitespace(lines[i]);
        if tokens.len() < 2 {
            return false;
        }
        assert(tokens[0]@ == str_views(tokens@)[0]);
        if parse_hex_token(tokens[0]).is_none() {
            return false;
        }
    }
    true
}

/// The state in which the shell collects the target's dictionary.
pub struct InitialHandshakeState {
    /// What the target has sent while in this state.
    pub input: String,
    /// The state that the connection moves to next.
    pub next_state: DeviceConnectionState,
}

impl InitialHandshakeState {
    /// A fresh state, with nothing received.
    pub fn new() -> (r: Self)
        ensures
            r.input@ == Seq::<char>::empty(),
            r.next_state == DeviceConnectionState::InitialHandshake,
    {
        Self { next_state: DeviceConnectionState::InitialHandshake, input: String::new() }
    }

    /// Whether a key press asks to leave the program.
    pub fn handle_input(&self, key: Key) -> (quit: bool)
        ensures
            quit == (key == Key::Char('q')),
    {
        quit_requested(key)
    }

    /// Whether `read_serial` can read the answer after a read with this
    /// outcome; a caller that must not panic tests this first.
    pub fn answer_readable_after(&self, outcome: &ReadOutcome) -> (r: bool)
        ensures
            r == answer_ok(lines_after_first(received_text(self.input@, *outcome))),
    {
        let mut text = self.input.clone();
        if let ReadOutcome::Data(bytes) = outcome {
            push_bytes_as_chars(&mut text, bytes.as_slice());
        }
        answer_is_readable(text.as_str())
    }

    /// Takes the outcome of one serial read, `elapsed_ms` after the state was
    /// entered: received bytes are kept and a failed read (not a timeout)
    /// drops the connection; once the wait is over, every answer line enters
    /// a word, and the connection goes on if the dictionary is not empty,
    /// otherwise it is dropped.
    pub fn read_serial(&mut self, outcome: &ReadOutcome, elapsed_ms: u128, forth_state: &mut ForthState)
        requires
            old(forth_state).wf(),
            elapsed_ms > ANSWER_WAIT_MS ==> answer_ok(
                lines_after_first(received_text(old(self).input@, *outcome)),
            ),
        ensures
            final(forth_state).wf(),
            final(self).input@ == received_text(old(self).input@, *outcome),
            elapsed_ms <= ANSWER_WAIT_MS ==> {
                &&& final(forth_state)@ == old(forth_state)@
                &&& final(self).next_state == match outcome {
                    ReadOutcome::Failed => DeviceConnectionState::EstablishingSerialPortConnection,
                    _ => old(self).next_state,
                }
            },
            elapsed_ms > ANSWER_WAIT_MS ==> {
                &&& final(forth_state)@ == enter_answer(lines_after_first(final(self).input@), old(forth_state)@)
                &&& final(self).next_state == if final(forth_state)@.len() > 0 {
                    DeviceConnectionState::Connected
                } else {
                    DeviceConnectionState::EstablishingSerialPortConnection
                }
            },
    {
        match outcome {
            ReadOutcome::Data(bytes) => {
                push_bytes_as_chars(&mut self.input, bytes.as_slice());
            },
            ReadOutcome::TimedOut => {},
            ReadOutcome::Failed => {
                self.next_state = DeviceConnectionState::EstablishingSerialPortConnection;
            },
        }
        if elapsed_ms > ANSWER_WAIT_MS {
            let lines = split_lines(self.input.as_str());
            let ghost ls = str_views(lines@);
            let ghost ws0 = forth_state@;
            let n = lines.len();
            if n > 0 {
                assert(lines_after_first(self.input@) =~= ls.drop_first());
                assert(ls.drop_first().skip(0) =~= ls.drop_first());
                for i in 1..n
                    invariant
                        n == ls.len(),
                        n >= 1,
                        ls == str_views(lines@),
                        lines_after_first(self.input@) == ls.drop_first(),
                        answer_ok(ls.drop_first()),
                        forth_state.wf(),
                        enter_answer(ls.drop_first().skip(i - 1), forth_state@) == enter_answer(
                            ls.drop_first(),
                            ws0,
                        ),
                {
                    let ghost rest = ls.drop_first().skip(i - 1);
                    assert(rest[0] == lines[i as int]@);
                    assert(rest.drop_first() =~= ls.drop_first().skip(i as int));
                    assert(answer_line_ok(ls.drop_first()[i - 1]));
                    let tokens = split_whitespace(lines[i]);
                    assert(tokens[0]@ == str_views(tokens@)[0]);
                    assert(tokens[1]@ == str_views(tokens@)[1]);
                    let addr: u32 = match parse_hex_token(tokens[0]) {
                        Some(a) => a,
                        None => 0,
                    };
                    let w = ForthWord {
                        name: String::from_str(tokens[1]),
                        address: addr,
                        address_string: format_hex8(addr),
                        data: Vec::new(),
                        is_primitive: false,
                        is_immediate: false,
                        impl_address: addr.wrapping_add(HEADER_SIZE),
                    };
                    assert(data_views(w.data@) =~= Seq::<DataWordView>::empty());
                    assert(w.impl_address == ((addr + HEADER_SIZE) % 0x1_0000_0000) as u32);
                    assert(w@ =~= answer_word(rest[0]));
                    forth_state.insert(w);
                }
                assert(ls.drop_first().skip(n - 1) =~= Seq::<Seq<char>>::empty());
            } else {
                assert(lines_after_first(self.input@) =~= Seq::<Seq<char>>::empty());
            }
            if forth_state.len() > 0 {
                self.next_state = DeviceConnectionState::Connected;
            } else {
                self.next_state = DeviceConnectionState::EstablishingSerialPortConnection;
            }
        }
    }

    /// Entering the state: the dictionary is forgotten and the answer is
    /// awaited afresh. Returns the command to send to the target.
    pub fn on_enter_state(&mut self, forth_state: &mut ForthState) -> (cmd: &'static str)
        ensures
            final(self).input@ == Seq::<char>::empty(),
            final(self).next_state == DeviceConnectionState::InitialHandshake,
            final(forth_state).wf(),
            final(forth_state)@ == Seq::<WordView>::empty(),
            cmd@ == "showWords\r"@,
    {
        self.next_state = DeviceConnectionState::InitialHandshake;
        self.input = String::new();
        forth_state.clear();
        "showWords\r"
    }

    /// The state that the connection moves to next.
    pub fn next_state(&self) -> (r: DeviceConnectionState)
        ensures
            r == self.next_state,
    {
        self.next_state
    }
}

/// Whether a word's address text is its address written as `0x` and eight
/// lower-case hex digits.
pub open spec fn shows_own_address(w: WordView) -> bool {
    w.address_string == hex8(w.address)
}

/// Every word of a dictionary after an insert is the new word or an old one.
proof fn lemma_insert_word_members(ws: Seq<WordView>, w: WordView, i: int)
    requires
        0 <= i < insert_word(ws, w).len(),
    ensures
        insert_word(ws, w)[i] == w || exists|j: int| 0 <= j < ws.len() && insert_word(ws, w)[i]
            == ws[j],
{
    match index_of_name(ws, w.name) {
        Some(k) => {
            if i != k {
                assert(insert_word(ws, w)[i] == ws[i]);
            }
        },
        None => {
            if i < ws.len() {
                assert(insert_word(ws, w)[i] == ws[i]);
            }
        },
    }
}

/// Law: every word entered from the handshake answer shows, next to its
/// name, its own address written as `0x` and eight lower-case hex digits
/// (text that reads back as the address, which is the line's first token),
/// so a dictionary whose words all show their address still does after the
/// answer is read.
pub proof fn lemma_handshake_words_show_their_address(lines: Seq<Seq<char>>, ws: Seq<WordView>)
    requires
        answer_ok(lines),
        forall|i: int| 0 <= i < ws.len() ==> shows_own_address(#[trigger] ws[i]),
    ensures
        forall|i: int|
            0 <= i < enter_answer(lines, ws).len() ==> shows_own_address(
                #[trigger] enter_answer(lines, ws)[i],
            ),
        forall|i: int|
            0 <= i < enter_answer(lines, ws).len() ==> hex_token_value(
                (#[trigger] enter_answer(lines, ws)[i]).address_string,
            ) == Some(enter_answer(lines, ws)[i].address),
        forall|i: int|
            0 <= i < lines.len() ==> Some(answer_word(#[trigger] lines[i]).address)
                == hex_token_value(words_of(lines[i])[0]),
    decreases lines.len(),
{
    assert forall|i: int| 0 <= i < lines.len() implies Some(
        answer_word(#[trigger] lines[i]).address,
    ) == hex_token_value(words_of(lines[i])[0]) by {
        assert(answer_line_ok(lines[i]));
    }
    if lines.len() > 0 {
        let w = answer_word(lines[0]);
        assert(answer_line_ok(lines[0]));
        lemma_hex8_roundtrip(w.address);
        let ws1 = insert_word(ws, w);
        assert forall|i: int| 0 <= i < ws1.len() implies shows_own_address(#[trigger] ws1[i]) by {
            lemma_insert_word_members(ws, w, i);
        }
        assert forall|i: int| 0 <= i < lines.drop_first().len() implies answer_line_ok(
            #[trigger] lines.drop_first()[i],
        ) by {
            assert(lines.drop_first()[i] == lines[i + 1]);
        }
        lemma_handshake_words_show_their_address(lines.drop_first(), ws1);
        assert(enter_answer(lines, ws) == enter_answer(lines.drop_first(), ws1));
    } else {
        assert(enter_answer(lines, ws) == ws);
    }
    let r = enter_answer(lines, ws);
    assert forall|i: int| 0 <= i < r.len() implies hex_token_value(
        (#[trigger] r[i]).address_string,
    ) == Some(r[i].address) by {
        lemma_hex8_roundtrip(r[i].address);
    }
}

} // verus!
