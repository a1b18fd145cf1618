//! The interactive terminal: what the user types goes to the target, what
//! the target answers is shown, and after each definition (a line holding
//! `;`) the shell asks the target for the new word (`showLastWord`) and reads
//! it into the dictionary.
use vstd::prelude::*;
use crate::connection::{DeviceConnectionState, Key, KeyAction, ReadOutcome};
use crate::forth_state::ForthState;
use crate::show_words::{listing_ok, listing_result, listing_is_readable, parse_showWords};
use crate::text::{
    lemma_last_line,
    byte_char, bytes_as_chars, char_low_byte, contains_char, last_line_contains, line_count_with_space,
    lines_after_first, lines_of, pop_char, push_bytes_as_chars, push_char, split_lines_after_first,
};

verus! {

/// What the keyboard currently controls.
#[derive(Clone, Copy, Debug, PartialEq, Eq, Structural)]
pub enum InputMode {
    /// Keys choose a mode.
    Normal,
    /// Keys are sent to the target.
    Editing,
    /// Up and down move through the dictionary.
    ScrollingWords,
    /// Up and down move through the cells of the selected word.
    ScrollingWordContent,
    /// The shell is reading the listing of a new word.
    AutomatedComms,
}

/// The text at the top of the screen: parts, each marked bold or not, and
/// whether the line blinks.
pub open spec fn top_message_spec(mode: InputMode) -> (Seq<(Seq<char>, bool)>, bool) {
    match mode {
        InputMode::Normal => (
            seq![
                ("Press "@, false),
                ("q"@, true),
                (" to exit, "@, false),
                ("e"@, true),
                (" to start editing, "@, false),
                ("d"@, true),
                (" to scroll dictionary. "@, false),
            ],
            true,
        ),
        InputMode::Editing => (
            seq![("Press "@, false), ("Esc"@, true), (" to stop editing, "@, false)],
            false,
        ),
        InputMode::ScrollingWords => (
            seq![
                ("Press "@, false),
                ("Esc"@, true),
                (" to stop scrolling, "@, false),
                ("Press w to scroll words memory"@, false),
            ],
            false,
        ),
        InputMode::ScrollingWordContent => (
            seq![
                ("Press "@, false),
                ("Esc"@, true),
                (" to stop scrolling, Press "@, false),
                ("d "@, true),
                ("to scroll words"@, false),
            ],
            false,
        ),
        InputMode::AutomatedComms => (seq![("loading new word data"@, false)], false),
    }
}

/// The views of a list of message parts.
pub open spec fn part_views(parts: Seq<(&str, bool)>) -> Seq<(Seq<char>, bool)> {
    Seq::new(parts.len(), |i: int| (parts[i].0@, parts[i].1))
}

/// What a key does, by mode: `q` leaves outside the terminal, and in the
/// terminal every typed character (low byte), Enter (13) and Backspace (8)
/// is sent to the target.
pub open spec fn key_action(mode: InputMode, key: Key) -> KeyAction {
    match mode {
        InputMode::Normal | InputMode::ScrollingWords | InputMode::ScrollingWordContent => {
            if key == Key::Char('q') {
                KeyAction::Quit
            } else {
                KeyAction::Nothing
            }
        },
        InputMode::Editing => match key {
            Key::Enter => KeyAction::Send(13),
            Key::Char(c) => KeyAction::Send(((c as u32) % 256) as u8),
            Key::Backspace => KeyAction::Send(8),
            _ => KeyAction::Nothing,
        },
        InputMode::AutomatedComms => KeyAction::Nothing,
    }
}

/// The mode after a key.
pub open spec fn mode_after_key(mode: InputMode, key: Key) -> InputMode {
    match mode {
        InputMode::Normal => if key == Key::Char('e') {
            InputMode::Editing
        } else if key == Key::Char('d') {
            InputMode::ScrollingWords
        } else {
            InputMode::Normal
        },
        InputMode::Editing => if key == Key::Esc {
            InputMode::Normal
        } else {
            InputMode::Editing
        },
        InputMode::ScrollingWords => if key == Key::Esc {
            InputMode::Normal
        } else if key == Key::Char('w') {
            InputMode::ScrollingWordContent
        } else {
            InputMode::ScrollingWords
        },
        InputMode::ScrollingWordContent => if key == Key::Esc {
            InputMode::Normal
        } else if key == Key::Char('d') {
            InputMode::ScrollingWords
        } else {
            InputMode::ScrollingWordContent
        },
        InputMode::AutomatedComms => InputMode::AutomatedComms,
    }
}

/// A selection moved one row up, stopping at the first row.
pub open spec fn step_up(sel: Option<usize>) -> Option<usize> {
    match sel {
        Some(x) => if x == 0 {
            Some(x)
        } else {
            Some((x - 1) as usize)
        },
        None => None,
    }
}

/// A selection moved one row down, stopping at the last of `count` rows.
pub open spec fn step_down(sel: Option<usize>, count: usize) -> Option<usize> {
    match sel {
        Some(x) => if x >= count - 1 {
            Some(x)
        } else {
            Some((x + 1) as usize)
        },
        None => None,
    }
}

/// The dictionary selection after a key.
pub open spec fn words_selection_after_key(
    mode: InputMode,
    key: Key,
    sel: Option<usize>,
    num_words: usize,
) -> Option<usize> {
    match mode {
        InputMode::Normal => if key == Key::Char('d') && sel is None {
            Some(0)
        } else {
            sel
        },
        InputMode::ScrollingWords => if key == Key::Up {
            step_up(sel)
        } else if key == Key::Down {
            step_down(sel, num_words)
        } else {
            sel
        },
        _ => sel,
    }
}

/// The cell selection after a key.
pub open spec fn content_selection_after_key(
    mode: InputMode,
    key: Key,
    sel: Option<usize>,
    num_cells: usize,
) -> Option<usize> {
    match mode {
        InputMode::ScrollingWords => if key == Key::Char('w') && sel is None {
            Some(0)
        } else {
            sel
        },
        InputMode::ScrollingWordContent => if key == Key::Up {
            step_up(sel)
        } else if key == Key::Down {
            step_down(sel, num_cells)
        } else {
            sel
        },
        _ => sel,
    }
}

/// The terminal's scroll offset after a key: Down and Up move it by one
/// (saturating) while editing.
pub open spec fn scroll_after_key(mode: InputMode, key: Key, scroll: u16) -> u16 {
    if mode == InputMode::Editing && key == Key::Down {
        if scroll == u16::MAX {
            scroll
        } else {
            (scroll + 1) as u16
        }
    } else if mode == InputMode::Editing && key == Key::Up {
        if scroll == 0 {
            scroll
        } else {
            (scroll - 1) as u16
        }
    } else {
        scroll
    }
}

/// What the terminal part of the state holds while bytes are processed.
pub struct TermView {
    pub input: Seq<char>,
    pub x: nat,
    pub y: nat,
    pub mode: InputMode,
    pub comms: Seq<char>,
    pub requests: nat,
}

/// The terminal after one received byte: 8 erases the last character (if
/// the cursor is not at the line start), 13 moves the cursor to the start of
/// the next line (kept above the bottom border) and, if the last line holds a
/// `;`, starts reading a new word's listing; any other byte is shown.
pub open spec fn term_step(t: TermView, height: u16, b: u8) -> TermView {
    if b == 8 {
        if t.x != 0 {
            TermView { input: t.input.drop_last(), x: (t.x - 1) as nat, ..t }
        } else {
            t
        }
    } else if b == 13 {
        let y1 = t.y + 1;
        let y2: nat = if y1 >= height - 2 {
            (height - 3) as nat
        } else {
            y1
        };
        let ls = lines_of(t.input);
        if ls.len() > 0 && contains_char(ls.last(), ';') {
            TermView {
                y: y2,
                x: 0,
                mode: InputMode::AutomatedComms,
                comms: Seq::empty(),
                requests: t.requests + 1,
                ..t
            }
        } else {
            TermView { y: y2, x: 0, ..t }
        }
    } else {
        TermView { input: t.input.push(byte_char(b)), x: t.x + 1, ..t }
    }
}

/// The terminal after a run of received bytes.
pub open spec fn term_run(t: TermView, height: u16, bytes: Seq<u8>) -> TermView
    decreases bytes.len(),
{
    if bytes.len() == 0 {
        t
    } else {
        term_step(term_run(t, height, bytes.drop_last()), height, bytes.last())
    }
}

/// Whether a run of bytes holds a carriage return.
pub open spec fn has_cr(bytes: Seq<u8>) -> bool {
    exists|i: int| 0 <= i < bytes.len() && bytes[i] == 13
}

/// Whether a run of bytes holds a carriage return.
pub fn holds_cr(bytes: &[u8]) -> (r: bool)
    ensures
        r == has_cr(bytes@),
{
    let n = bytes.len();
    for i in 0..n
        invariant
            n == bytes@.len(),
            forall|j: int| 0 <= j < i ==> bytes@[j] != 13,
    {
        if bytes[i] == 13 {
            return true;
        }
    }
    false
}

/// The interactive terminal's state.
pub struct ConnectedState {
    /// Everything shown in the terminal.
    pub input: String,
    /// Cursor column.
    pub character_x: usize,
    /// Cursor row.
    pub character_y: usize,
    /// What the keyboard controls.
    pub input_mode: InputMode,
    /// First terminal line shown.
    pub scroll_serialterm: u16,
    /// Height of the terminal pane, borders included.
    pub serialterm_height: u16,
    /// The state that the connection moves to next.
    pub next_state: DeviceConnectionState,
    /// Selected row of the dictionary table.
    pub dictionary_selected: Option<usize>,
    /// Selected row of the cell table.
    pub word_content_selected: Option<usize>,
    /// Rows of the dictionary table at the last drawing.
    pub num_words: usize,
    /// Rows of the cell table at the last drawing.
    pub current_selected_word_data_size: usize,
    /// The listing of a new word, while it is read.
    pub automated_comms_string: String,
}

impl ConnectedState {
    /// The state's invariant: the cursor column never passes the text's
    /// length and the cursor row fits a terminal.
    pub open spec fn wf(&self) -> bool {
        &&& self.character_x <= self.input@.len()
        &&& self.character_y <= u16::MAX
    }

    /// The terminal part of the state, with `requests` requests made.
    pub open spec fn term(&self, requests: nat) -> TermView {
        TermView {
            input: self.input@,
            x: self.character_x as nat,
            y: self.character_y as nat,
            mode: self.input_mode,
            comms: self.automated_comms_string@,
            requests,
        }
    }

    /// A fresh terminal.
    pub fn new() -> (r: Self)
        ensures
            r.wf(),
            r.input@ == Seq::<char>::empty(),
            r.character_x == 0,
            r.character_y == 0,
            r.input_mode == InputMode::Normal,
            r.scroll_serialterm == 0,
            r.serialterm_height == 0,
            r.next_state == DeviceConnectionState::Connected,
            r.dictionary_selected is None,
            r.word_content_selected is None,
            r.num_words == 0,
            r.current_selected_word_data_size == 0,
            r.automated_comms_string@ == Seq::<char>::empty(),
    {
        Self {
            input: String::new(),
            character_x: 0,
            character_y: 0,
            input_mode: InputMode::Normal,
            scroll_serialterm: 0,
            serialterm_height: 0,
            next_state: DeviceConnectionState::Connected,
            dictionary_selected: None,
            word_content_selected: None,
            num_words: 0,
            current_selected_word_data_size: 0,
            automated_comms_string: String::new(),
        }
    }

    /// The text at the top of the screen, as bold-or-not parts, and whether it blinks.
    pub fn get_top_msg(&self) -> (r: (Vec<(&'static str, bool)>, bool))
        ensures
            part_views(r.0@) == top_message_spec(self.input_mode).0,
            r.1 == top_message_spec(self.input_mode).1,
    {
        let r = match self.input_mode {
            InputMode::Normal => (
                vec![
                    ("Press ", false),
                    ("q", true),
                    (" to exit, ", false),
                    ("e", true),
                    (" to start editing, ", false),
                    ("d", true),
                    (" to scroll dictionary. ", false),
                ],
                true,
            ),
            InputMode::Editing => (
                vec![("Press ", false), ("Esc", true), (" to stop editing, ", false)],
                false,
            ),
            InputMode::ScrollingWords => (
                vec![
                    ("Press ", false),
                    ("Esc", true),
                    (" to stop scrolling, ", false),
                    ("Press w to scroll words memory", false),
                ],
                false,
            ),
            InputMode::ScrollingWordContent => (
                vec![
                    ("Press ", false),
                    ("Esc", true),
                    (" to stop scrolling, Press ", false),
                    ("d ", true),
                    ("to scroll words", false),
                ],
                false,
            ),
            InputMode::AutomatedComms => (vec![("loading new word data", false)], false),
        };
        assert(part_views(r.0@) =~= top_message_spec(self.input_mode).0);
        r
    }

    /// Takes a key press: changes mode, selection or scroll offset, and says
    /// whether to leave or which byte to send to the target.
    pub fn handle_input(&mut self, key: Key) -> (r: KeyAction)
        requires
            old(self).input_mode == InputMode::ScrollingWords && key == Key::Down
                && old(self).dictionary_selected is Some ==> old(self).num_words >= 1,
            old(self).input_mode == InputMode::ScrollingWordContent && key == Key::Down
                && old(self).word_content_selected is Some ==> old(
                self,
            ).current_selected_word_data_size >= 1,
        ensures
            r == key_action(old(self).input_mode, key),
            final(self).input_mode == mode_after_key(old(self).input_mode, key),
            final(self).dictionary_selected == words_selection_after_key(
                old(self).input_mode,
                key,
                old(self).dictionary_selected,
                old(self).num_words,
            ),
            final(self).word_content_selected == content_selection_after_key(
                old(self).input_mode,
                key,
                old(self).word_content_selected,
                old(self).current_selected_word_data_size,
            ),
            final(self).scroll_serialterm == scroll_after_key(
                old(self).input_mode,
                key,
                old(self).scroll_serialterm,
            ),
            final(self).input@ == old(self).input@,
            final(self).character_x == old(self).character_x,
            final(self).character_y == old(self).character_y,
            final(self).serialterm_height == old(self).serialterm_height,
            final(self).next_state == old(self).next_state,
            final(self).num_words == old(self).num_words,
            final(self).current_selected_word_data_size == old(self).current_selected_word_data_size,
            final(self).automated_comms_string@ == old(self).automated_comms_string@,
    {
        match self.input_mode {
            InputMode::Normal => match key {
                Key::Char('e') => {
                    self.input_mode = InputMode::Editing;
                },
                Key::Char('d') => {
                    if self.dictionary_selected.is_none() {
                        self.dictionary_selected = Some(0);
                    }
                    self.input_mode = InputMode::ScrollingWords;
                },
                Key::Char('q') => {
                    return KeyAction::Quit;
                },
                _ => {},
            },
            InputMode::Editing => match key {
                Key::Enter => {
                    return KeyAction::Send(13);
                },
                Key::Char(to_insert) => {
                    return KeyAction::Send(char_low_byte(to_insert));
                },
                Key::Backspace => {
                    return KeyAction::Send(8);
                },
                Key::Down => {
                    self.scroll_serialterm = self.scroll_serialterm.saturating_add(1);
                },
                Key::Up => {
                    self.scroll_serialterm = self.scroll_serialterm.saturating_sub(1);
                },
                Key::Esc => {
                    self.input_mode = InputMode::Normal;
                },
                _ => {},
            },
            InputMode::ScrollingWords => match key {
                Key::Esc => {
                    self.input_mode = InputMode::Normal;
                },
                Key::Char('q') => {
                    return KeyAction::Quit;
                },
                Key::Char('w') => {
                    if self.word_content_selected.is_none() {
                        self.word_content_selected = Some(0);
                    }
                    self.input_mode = InputMode::ScrollingWordContent;
                },
                Key::Up => {
                    match self.dictionary_selected {
                        Some(x) => {
                            if x != 0 {
                                self.dictionary_selected = Some(x - 1);
                            }
                        },
                        None => {},
                    }
                },
                Key::Down => {
                    match self.dictionary_selected {
                        Some(i) => {
                            if i < self.num_words - 1 {
                                self.dictionary_selected = Some(i + 1);
                            }
                        },
                        None => {},
                    }
                },
                _ => {},
            },
            InputMode::ScrollingWordContent => match key {
                Key::Esc => {
                    self.input_mode = InputMode::Normal;
                },
                Key::Char('q') => {
                    return KeyAction::Quit;
                },
                Key::Char('d') => {
                    self.input_mode = InputMode::ScrollingWords;
                },
                Key::Up => {
                    match self.word_content_selected {
                        Some(x) => {
                            if x != 0 {
                                self.word_content_selected = Some(x - 1);
                            }
                        },
                        None => {},
                    }
                },
                Key::Down => {
                    match self.word_content_selected {
                        Some(i) => {
                            if i < self.current_selected_word_data_size - 1 {
                                self.word_content_selected = Some(i + 1);
                            }
                        },
                        None => {},
                    }
                },
                _ => {},
            },
            InputMode::AutomatedComms => {},
        }
        KeyAction::Nothing
    }

    /// A byte could not be sent: the connection is dropped.
    pub fn on_write_failed(&mut self)
        ensures
            final(self).next_state == DeviceConnectionState::EstablishingSerialPortConnection,
            *final(self) == (ConnectedState {
                next_state: DeviceConnectionState::EstablishingSerialPortConnection,
                ..*old(self)
            }),
    {
        self.next_state = DeviceConnectionState::EstablishingSerialPortConnection;
    }

    /// Whether the listing collected so far can be read; a caller that must
    /// not panic tests this before a timed-out read while a word is loaded.
    pub fn pending_listing_readable(&self) -> (r: bool)
        ensures
            r == listing_ok(lines_after_first(self.automated_comms_string@)),
    {
        let lines = split_lines_after_first(self.automated_comms_string.as_str());
        listing_is_readable(&lines)
    }

    /// Processes one byte received in the terminal; returns whether it asks
    /// for the listing of a new word.
    fn process_byte(&mut self, b: u8) -> (request: bool)
        requires
            old(self).wf(),
            b == 13 ==> old(self).serialterm_height >= 3,
            old(self).input@.len() + 1 < usize::MAX,
        ensures
            final(self).wf(),
            final(self).term(if request { 1nat } else { 0nat }) == term_step(
                old(self).term(0),
                old(self).serialterm_height,
                b,
            ),
            final(self).serialterm_height == old(self).serialterm_height,
            final(self).scroll_serialterm == old(self).scroll_serialterm,
            final(self).next_state == old(self).next_state,
            final(self).dictionary_selected == old(self).dictionary_selected,
            final(self).word_content_selected == old(self).word_content_selected,
            final(self).num_words == old(self).num_words,
            final(self).current_selected_word_data_size == old(self).current_selected_word_data_size,
            final(self).input@.len() <= old(self).input@.len() + 1,
    {
        if b == 8 {
            if self.character_x != 0 {
                pop_char(&mut self.input);
                self.character_x = self.character_x - 1;
            }
            false
        } else if b == 13 {
            let y1 = self.character_y + 1;
            if y1 >= (self.serialterm_height - 2) as usize {
                self.character_y = (self.serialterm_height - 3) as usize;
            } else {
                self.character_y = y1;
            }
            self.character_x = 0;
            if last_line_contains(self.input.as_str(), ';') {
                self.automated_comms_string = String::new();
                self.input_mode = InputMode::AutomatedComms;
                true
            } else {
                false
            }
        } else {
            let c = crate::text::byte_to_char(b);
            push_char(&mut self.input, c);
            self.character_x = self.character_x + 1;
            false
        }
    }

    /// Takes the outcome of one serial read. While a word's listing is read,
    /// bytes are collected, and a timeout ends the listing: it is read into
    /// the dictionary and the terminal resumes editing. Otherwise bytes are
    /// processed as `term_run` says. A failed read (not a timeout) drops the
    /// connection. Returns the commands to send to the target: one
    /// `showLastWord` request per finished definition.
    pub fn read_serial(&mut self, outcome: &ReadOutcome, forth_state: &mut ForthState) -> (sends: Vec<
        &'static str,
    >)
        requires
            old(self).wf(),
            old(forth_state).wf(),
            old(self).input_mode != InputMode::AutomatedComms ==> match *outcome {
                ReadOutcome::Data(bytes) => {
                    &&& has_cr(bytes@) ==> old(self).serialterm_height >= 3
                    &&& old(self).input@.len() + bytes@.len() < usize::MAX
                },
                _ => true,
            },
            old(self).input_mode == InputMode::AutomatedComms && *outcome == ReadOutcome::TimedOut
                ==> listing_ok(lines_after_first(old(self).automated_comms_string@)),
        ensures
            final(self).wf(),
            final(forth_state).wf(),
            forall|i: int| 0 <= i < sends@.len() ==> sends@[i]@ == "showLastWord\r"@,
            final(self).serialterm_height == old(self).serialterm_height,
            final(self).scroll_serialterm == old(self).scroll_serialterm,
            final(self).dictionary_selected == old(self).dictionary_selected,
            final(self).word_content_selected == old(self).word_content_selected,
            final(self).num_words == old(self).num_words,
            final(self).current_selected_word_data_size == old(self).current_selected_word_data_size,
            old(self).input_mode == InputMode::AutomatedComms ==> {
                &&& sends@.len() == 0
                &&& final(self).input@ == old(self).input@
                &&& final(self).character_x == old(self).character_x
                &&& final(self).character_y == old(self).character_y
                &&& match *outcome {
                    ReadOutcome::Data(bytes) => {
                        &&& final(self).automated_comms_string@ == old(self).automated_comms_string@
                            + bytes_as_chars(bytes@)
                        &&& final(self).input_mode == old(self).input_mode
                        &&& final(self).next_state == old(self).next_state
                        &&& final(forth_state)@ == old(forth_state)@
                    },
                    ReadOutcome::TimedOut => {
                        &&& final(self).automated_comms_string@ == old(self).automated_comms_string@
                        &&& final(self).input_mode == InputMode::Editing
                        &&& final(self).next_state == old(self).next_state
                        &&& final(forth_state)@ == listing_result(
                            lines_after_first(old(self).automated_comms_string@),
                            old(forth_state)@,
                        )
                    },
                    ReadOutcome::Failed => {
                        &&& final(self).automated_comms_string@ == old(self).automated_comms_string@
                        &&& final(self).input_mode == old(self).input_mode
                        &&& final(self).next_state
                            == DeviceConnectionState::EstablishingSerialPortConnection
                        &&& final(forth_state)@ == old(forth_state)@
                    },
                }
            },
            old(self).input_mode != InputMode::AutomatedComms ==> {
                &&& final(forth_state)@ == old(forth_state)@
                &&& match *outcome {
                    ReadOutcome::Data(bytes) => {
                        &&& final(self).term(sends@.len() as nat) == term_run(
                            old(self).term(0),
                            old(self).serialterm_height,
                            bytes@,
                        )
                        &&& final(self).next_state == old(self).next_state
                    },
                    ReadOutcome::TimedOut => {
                        &&& sends@.len() == 0
                        &&& final(self).term(0) == old(self).term(0)
                        &&& final(self).next_state == old(self).next_state
                    },
                    ReadOutcome::Failed => {
                        &&& sends@.len() == 0
                        &&& final(self).term(0) == old(self).term(0)
                        &&& final(self).next_state
                            == DeviceConnectionState::EstablishingSerialPortConnection
                    },
                }
            },
    {
        let mut sends: Vec<&'static str> = Vec::new();
        if self.input_mode == InputMode::AutomatedComms {
            match outcome {
                ReadOutcome::Data(bytes) => {
                    push_bytes_as_chars(&mut self.automated_comms_string, bytes.as_slice());
                },
                ReadOutcome::TimedOut => {
                    let lines = split_lines_after_first(self.automated_comms_string.as_str());
                    parse_showWords(&lines, forth_state);
                    self.input_mode = InputMode::Editing;
                },
                ReadOutcome::Failed => {
                    self.next_state = DeviceConnectionState::EstablishingSerialPortConnection;
                },
            }
        } else {
            match outcome {
                ReadOutcome::Data(bytes) => {
                    let n = bytes.len();
                    let ghost t0 = self.term(0);
                    let ghost h = self.serialterm_height;
                    let ghost len0 = self.input@.len();
                    assert(bytes@.take(0) =~= Seq::<u8>::empty());
                    for i in 0..n
                        invariant
                            n == bytes@.len(),
                            self.wf(),
                            self.serialterm_height == h,
                            has_cr(bytes@) ==> h >= 3,
                            len0 + n < usize::MAX,
                            self.input@.len() <= len0 + i,
                            self.term(sends@.len() as nat) == term_run(t0, h, bytes@.take(i as int)),
                            forall|k: int| 0 <= k < sends@.len() ==> sends@[k]@ == "showLastWord\r"@,
                            self.scroll_serialterm == old(self).scroll_serialterm,
                            self.next_state == old(self).next_state,
                            self.dictionary_selected == old(self).dictionary_selected,
                            self.word_content_selected == old(self).word_content_selected,
                            self.num_words == old(self).num_words,
                            self.current_selected_word_data_size
                                == old(self).current_selected_word_data_size,
                    {
                        let b = bytes[i];
                        assert(bytes@.take(i + 1).drop_last() =~= bytes@.take(i as int));
                        assert(bytes@.take(i + 1).last() == b);
                        if b == 13 {
                            assert(has_cr(bytes@));
                        }
                        let ghost before = self.term(sends@.len() as nat);
                        let ghost k = sends@.len();
                        let request = self.process_byte(b);
                        assert(term_step(before, h, b).requests == k + (if request { 1nat } else { 0nat }));
                        if request {
                            sends.push("showLastWord\r");
                        }
                        assert(self.term(sends@.len() as nat) == term_step(before, h, b));
                    }
                    assert(bytes@.take(n as int) =~= bytes@);
                },
                ReadOutcome::TimedOut => {},
                ReadOutcome::Failed => {
                    self.next_state = DeviceConnectionState::EstablishingSerialPortConnection;
                },
            }
        }
        sends
    }

    /// Before drawing: the terminal pane is `height` rows high (borders
    /// included), and the view scrolls so that the last line shows.
    pub fn begin_render(&mut self, height: u16)
        ensures
            final(self).serialterm_height == height,
            ({
                let total = (lines_of(old(self).input@.push(' ')).len() % 0x1_0000) as u16;
                let visible: u16 = if height >= 2 {
                    (height - 2) as u16
                } else {
                    0
                };
                final(self).scroll_serialterm == if total > visible {
                    (total - visible) as u16
                } else {
                    0
                }
            }),
            final(self).input@ == old(self).input@,
            final(self).character_x == old(self).character_x,
            final(self).character_y == old(self).character_y,
            final(self).input_mode == old(self).input_mode,
            final(self).next_state == old(self).next_state,
            final(self).dictionary_selected == old(self).dictionary_selected,
            final(self).word_content_selected == old(self).word_content_selected,
            final(self).num_words == old(self).num_words,
            final(self).current_selected_word_data_size == old(self).current_selected_word_data_size,
            final(self).automated_comms_string@ == old(self).automated_comms_string@,
    {
        let total_lines = line_count_with_space(self.input.as_str());
        let visible_height = height.saturating_sub(2);
        self.serialterm_height = height;
        if total_lines > visible_height {
            self.scroll_serialterm = total_lines - visible_height;
        } else {
            self.scroll_serialterm = 0;
        }
    }

    /// After drawing: the tables showed the dictionary and the cells of the
    /// selected word, and the drawing left these selections.
    pub fn end_render(
        &mut self,
        dictionary_selected: Option<usize>,
        word_content_selected: Option<usize>,
        forth_state: &ForthState,
    )
        requires
            dictionary_selected matches Some(x) ==> x < forth_state@.len(),
        ensures
            final(self).num_words == forth_state@.len(),
            final(self).dictionary_selected == dictionary_selected,
            final(self).word_content_selected == word_content_selected,
            final(self).current_selected_word_data_size == match dictionary_selected {
                Some(x) => forth_state@[x as int].data.len(),
                None => 0,
            },
            final(self).input@ == old(self).input@,
            final(self).character_x == old(self).character_x,
            final(self).character_y == old(self).character_y,
            final(self).input_mode == old(self).input_mode,
            final(self).next_state == old(self).next_state,
            final(self).scroll_serialterm == old(self).scroll_serialterm,
            final(self).serialterm_height == old(self).serialterm_height,
            final(self).automated_comms_string@ == old(self).automated_comms_string@,
    {
        self.num_words = forth_state.len();
        self.dictionary_selected = dictionary_selected;
        self.current_selected_word_data_size = match dictionary_selected {
            Some(x) => {
                let words = forth_state.words();
                assert(words@[x as int]@ == forth_state@[x as int]);
                words[x].data.len()
            },
            None => 0,
        };
        self.word_content_selected = word_content_selected;
    }

    /// Entering the state: the terminal is cleared and the keyboard chooses modes.
    pub fn on_enter_state(&mut self)
        ensures
            final(self).wf(),
            final(self).input@ == Seq::<char>::empty(),
            final(self).scroll_serialterm == 0,
            final(self).character_x == 0,
            final(self).character_y == 0,
            final(self).input_mode == InputMode::Normal,
            final(self).next_state == old(self).next_state,
            final(self).serialterm_height == old(self).serialterm_height,
            final(self).dictionary_selected == old(self).dictionary_selected,
            final(self).word_content_selected == old(self).word_content_selected,
            final(self).num_words == old(self).num_words,
            final(self).current_selected_word_data_size == old(self).current_selected_word_data_size,
            final(self).automated_comms_string@ == old(self).automated_comms_string@,
    {
        self.input = String::new();
        self.scroll_serialterm = 0;
        self.character_x = 0;
        self.character_y = 0;
        self.input_mode = InputMode::Normal;
    }

    /// Leaving the state: a later entry starts connected again.
    pub fn on_exit_state(&mut self)
        ensures
            final(self).next_state == DeviceConnectionState::Connected,
            final(self).input@ == old(self).input@,
            final(self).character_x == old(self).character_x,
            final(self).character_y == old(self).character_y,
            final(self).input_mode == old(self).input_mode,
            final(self).scroll_serialterm == old(self).scroll_serialterm,
            final(self).serialterm_height == old(self).serialterm_height,
            final(self).dictionary_selected == old(self).dictionary_selected,
            final(self).word_content_selected == old(self).word_content_selected,
            final(self).num_words == old(self).num_words,
            final(self).current_selected_word_data_size == old(self).current_selected_word_data_size,
            final(self).automated_comms_string@ == old(self).automated_comms_string@,
            *final(self) == (ConnectedState { next_state: DeviceConnectionState::Connected, ..*old(self) }),
    {
        self.next_state = DeviceConnectionState::Connected;
    }

    /// The state that the connection moves to next.
    pub fn next_state(&self) -> (r: DeviceConnectionState)
        ensures
            r == self.next_state,
    {
        self.next_state
    }
}

/// Law: a carriage return asks for the listing of a new word exactly when
/// the last line of the terminal text holds a `;`; a `;` on an earlier line
/// asks for nothing, and the mode then stays as it was.
pub proof fn lemma_enter_requests_listing_iff_last_line_has_semicolon(
    t: TermView,
    height: u16,
    pre: Seq<char>,
    last: Seq<char>,
)
    requires
        height >= 3,
        last.len() > 0,
        forall|i: int| 0 <= i < last.len() ==> last[i] != '\n',
        t.input == pre + seq!['\n'] + last || t.input == last,
    ensures
        term_step(t, height, 13).requests == t.requests + 1 <==> exists|i: int|
            0 <= i < last.len() && last[i] == ';',
        term_step(t, height, 13).requests == t.requests || term_step(t, height, 13).requests
            == t.requests + 1,
        !(exists|i: int| 0 <= i < last.len() && last[i] == ';') ==> term_step(t, height, 13).mode
            == t.mode && term_step(t, height, 13).comms == t.comms,
        (exists|i: int| 0 <= i < last.len() && last[i] == ';') ==> term_step(t, height, 13).mode
            == InputMode::AutomatedComms && term_step(t, height, 13).comms.len() == 0,
        term_step(t, height, 13).input == t.input,
        term_step(t, height, 13).x == 0,
{
    lemma_last_line(pre, last);
    assert(lines_of(t.input).len() > 0 && lines_of(t.input).last() == last);
}

/// Law: outside the terminal and the loading mode, `q` is the one key that
/// quits; in the terminal nothing quits, and while loading no key acts.
pub proof fn lemma_q_quits_outside_terminal(mode: InputMode, key: Key)
    ensures
        (mode == InputMode::Normal || mode == InputMode::ScrollingWords || mode
            == InputMode::ScrollingWordContent) ==> (key_action(mode, key) == KeyAction::Quit
            <==> key == Key::Char('q')),
        (mode == InputMode::Normal || mode == InputMode::ScrollingWords || mode
            == InputMode::ScrollingWordContent) ==> key_action(mode, key) == KeyAction::Quit
            || key_action(mode, key) == KeyAction::Nothing,
        mode == InputMode::Editing ==> key_action(mode, key) != KeyAction::Quit,
        mode == InputMode::AutomatedComms ==> key_action(mode, key) == KeyAction::Nothing,
{
}

} // verus!
