use forth_shell::connected_state::{ConnectedState, InputMode};
use forth_shell::connection::{quit_requested, DeviceConnectionState, Key, KeyAction, ReadOutcome};
use forth_shell::forth_state::ForthState;
use forth_shell::handshake_state::{answer_is_readable, InitialHandshakeState};
use forth_shell::reset_state::{all_found, search, RequestingDeviceResetState};
use forth_shell::session::{Session, Transition};

const REPORT: &str = "Forth\r\ndata stack base: 0x20001000\r\nreturn stack base: 0x20002000\r\n\
instruction ptr: 0x20000400\r\nmemory end: 0x20005000\r\ndict end: 0x20000800\r\n";

#[test]
fn quit_key() {
    assert!(quit_requested(Key::Char('q')));
    assert!(!quit_requested(Key::Char('Q')));
    assert!(!quit_requested(Key::Esc));
}

#[test]
fn regex_search() {
    assert!(search(r"data stack base:\s*(0x[0-9A-Fa-f]{8})", "x data stack base:   0x2000ABCD y"));
    assert!(!search(r"data stack base:\s*(0x[0-9A-Fa-f]{8})", "data stack base: 0x2000"));
    assert!(!search(r"data stack base:\s*(0x[0-9A-Fa-f]{8})", "memory end: 0x20001000"));
    assert!(!search(r"unclosed(", "unclosed("));
    assert!(all_found(&vec![true, true]));
    assert!(all_found(&vec![]));
    assert!(!all_found(&vec![true, false, true]));
}

#[test]
fn reset_state_waits_for_full_report() {
    let mut st = RequestingDeviceResetState::new();
    assert_eq!(st.next_state(), DeviceConnectionState::RequestingDeviceReset);
    let (first, second) = REPORT.split_at(60);
    st.read_serial(&ReadOutcome::Data(first.as_bytes().to_vec()));
    assert_eq!(st.input, first);
    assert_eq!(st.next_state(), DeviceConnectionState::RequestingDeviceReset);
    st.read_serial(&ReadOutcome::TimedOut);
    assert_eq!(st.next_state(), DeviceConnectionState::RequestingDeviceReset);
    st.read_serial(&ReadOutcome::Data(second.as_bytes().to_vec()));
    assert_eq!(st.input, REPORT);
    assert_eq!(st.next_state(), DeviceConnectionState::InitialHandshake);
    st.on_enter_state();
    assert_eq!(st.input, "");
    assert_eq!(st.next_state(), DeviceConnectionState::RequestingDeviceReset);
    st.read_serial(&ReadOutcome::Failed);
    assert_eq!(st.next_state(), DeviceConnectionState::EstablishingSerialPortConnection);
    assert!(st.handle_input(Key::Char('q')));
    assert!(!st.handle_input(Key::Enter));
}

#[test]
fn handshake_collects_dictionary() {
    let mut words = ForthState::new();
    let mut st = InitialHandshakeState::new();
    assert_eq!(st.on_enter_state(&mut words), "showWords\r");
    let answer = "showWords\r\n0x20000000 DUP 0x0 0x1\r\n0x20000040 SWAP 0x0 0x1\r\n";
    let outcome = ReadOutcome::Data(answer.as_bytes().to_vec());
    assert!(st.answer_readable_after(&outcome));
    st.read_serial(&outcome, 100, &mut words);
    assert_eq!(words.len(), 0);
    assert_eq!(st.next_state(), DeviceConnectionState::InitialHandshake);
    st.read_serial(&ReadOutcome::TimedOut, 2001, &mut words);
    assert_eq!(words.len(), 2);
    assert_eq!(words.words()[0].name, "DUP");
    assert_eq!(words.words()[0].address, 0x2000_0000);
    assert_eq!(words.words()[0].impl_address, 0x2000_0000 + 44);
    assert_eq!(words.words()[1].name, "SWAP");
    assert_eq!(st.next_state(), DeviceConnectionState::Connected);
    // Entering again forgets the dictionary.
    st.on_enter_state(&mut words);
    assert_eq!(words.len(), 0);
    assert_eq!(st.input, "");
    st.read_serial(&ReadOutcome::Data(b"showWords\r\n".to_vec()), 2500, &mut words);
    assert_eq!(st.next_state(), DeviceConnectionState::EstablishingSerialPortConnection);
}

#[test]
fn handshake_answer_check() {
    assert!(answer_is_readable("echo\n0x1 A\n0x2 B extra"));
    assert!(answer_is_readable(""));
    assert!(answer_is_readable("only the echo"));
    assert!(!answer_is_readable("echo\n0x1"));
    assert!(!answer_is_readable("echo\nzz A"));
    assert!(!answer_is_readable("echo\n\n0x1 A"));
}

#[test]
fn connected_keys_change_modes() {
    let mut st = ConnectedState::new();
    assert_eq!(st.input_mode, InputMode::Normal);
    assert_eq!(st.handle_input(Key::Char('x')), KeyAction::Nothing);
    assert_eq!(st.handle_input(Key::Char('e')), KeyAction::Nothing);
    assert_eq!(st.input_mode, InputMode::Editing);
    assert_eq!(st.handle_input(Key::Char('q')), KeyAction::Send(b'q'));
    assert_eq!(st.handle_input(Key::Char('\u{0141}')), KeyAction::Send(0x41));
    assert_eq!(st.handle_input(Key::Enter), KeyAction::Send(13));
    assert_eq!(st.handle_input(Key::Backspace), KeyAction::Send(8));
    assert_eq!(st.handle_input(Key::Down), KeyAction::Nothing);
    assert_eq!(st.scroll_serialterm, 1);
    assert_eq!(st.handle_input(Key::Up), KeyAction::Nothing);
    assert_eq!(st.handle_input(Key::Up), KeyAction::Nothing);
    assert_eq!(st.scroll_serialterm, 0);
    assert_eq!(st.handle_input(Key::Esc), KeyAction::Nothing);
    assert_eq!(st.input_mode, InputMode::Normal);
    assert_eq!(st.handle_input(Key::Char('d')), KeyAction::Nothing);
    assert_eq!(st.input_mode, InputMode::ScrollingWords);
    assert_eq!(st.dictionary_selected, Some(0));
    st.num_words = 3;
    st.handle_input(Key::Down);
    st.handle_input(Key::Down);
    st.handle_input(Key::Down);
    assert_eq!(st.dictionary_selected, Some(2));
    st.handle_input(Key::Up);
    assert_eq!(st.dictionary_selected, Some(1));
    assert_eq!(st.handle_input(Key::Char('w')), KeyAction::Nothing);
    assert_eq!(st.input_mode, InputMode::ScrollingWordContent);
    assert_eq!(st.word_content_selected, Some(0));
    st.current_selected_word_data_size = 2;
    st.handle_input(Key::Down);
    st.handle_input(Key::Down);
    assert_eq!(st.word_content_selected, Some(1));
    st.handle_input(Key::Up);
    st.handle_input(Key::Up);
    assert_eq!(st.word_content_selected, Some(0));
    assert_eq!(st.handle_input(Key::Char('d')), KeyAction::Nothing);
    assert_eq!(st.input_mode, InputMode::ScrollingWords);
    assert_eq!(st.handle_input(Key::Char('q')), KeyAction::Quit);
    st.handle_input(Key::Esc);
    assert_eq!(st.handle_input(Key::Char('q')), KeyAction::Quit);
    st.on_write_failed();
    assert_eq!(st.next_state(), DeviceConnectionState::EstablishingSerialPortConnection);
    st.on_exit_state();
    assert_eq!(st.next_state(), DeviceConnectionState::Connected);
}

#[test]
fn connected_terminal_shows_and_erases() {
    let mut words = ForthState::new();
    let mut st = ConnectedState::new();
    st.begin_render(10);
    let sends = st.read_serial(&ReadOutcome::Data(b"ok".to_vec()), &mut words);
    assert!(sends.is_empty());
    assert_eq!(st.input, "ok");
    assert_eq!(st.character_x, 2);
    st.read_serial(&ReadOutcome::Data(vec![8]), &mut words);
    assert_eq!(st.input, "o");
    assert_eq!(st.character_x, 1);
    st.read_serial(&ReadOutcome::Data(vec![13, 10]), &mut words);
    assert_eq!(st.character_x, 1);
    assert_eq!(st.character_y, 1);
    assert_eq!(st.input, "o\n");
    st.read_serial(&ReadOutcome::Data(vec![13, 13, 13, 13, 13, 13, 13, 13, 13]), &mut words);
    assert_eq!(st.character_y, 7);
    assert_eq!(st.character_x, 0);
    st.read_serial(&ReadOutcome::Data(vec![8]), &mut words);
    assert_eq!(st.input, "o\n");
    st.read_serial(&ReadOutcome::TimedOut, &mut words);
    assert_eq!(st.next_state(), DeviceConnectionState::Connected);
    st.read_serial(&ReadOutcome::Failed, &mut words);
    assert_eq!(st.next_state(), DeviceConnectionState::EstablishingSerialPortConnection);
}

#[test]
fn connected_loads_new_word_after_definition() {
    let mut words = ForthState::new();
    let mut st = ConnectedState::new();
    st.begin_render(20);
    st.handle_input(Key::Char('e'));
    let sends = st.read_serial(&ReadOutcome::Data(b": sq dup * ;\r".to_vec()), &mut words);
    assert_eq!(sends, vec!["showLastWord\r"]);
    assert_eq!(st.input_mode, InputMode::AutomatedComms);
    assert_eq!(st.automated_comms_string, "");
    let listing = "showLastWord\r\n0x20000100 sq 0x0 0x0\r\n0x2000012c 0x00000010\r\n";
    st.read_serial(&ReadOutcome::Data(listing.as_bytes().to_vec()), &mut words);
    assert_eq!(st.automated_comms_string, listing);
    assert!(st.pending_listing_readable());
    st.read_serial(&ReadOutcome::TimedOut, &mut words);
    assert_eq!(st.input_mode, InputMode::Editing);
    assert_eq!(words.len(), 1);
    assert_eq!(words.words()[0].name, "sq");
    assert_eq!(words.words()[0].data.len(), 1);
}

#[test]
fn connected_render_bookkeeping() {
    let mut words = ForthState::new();
    let mut st = ConnectedState::new();
    st.input = "a\nb\nc\nd\ne".to_string();
    st.begin_render(5);
    assert_eq!(st.serialterm_height, 5);
    assert_eq!(st.scroll_serialterm, 2);
    st.begin_render(40);
    assert_eq!(st.scroll_serialterm, 0);
    st.begin_render(1);
    assert_eq!(st.scroll_serialterm, 5);
    let lines = vec!["0x1000 A 0x0 0x0", "0x1100 0x1", "0x1104 0x2", "0x2000 B 0x0 0x0"];
    forth_shell::show_words::parse_showWords(&lines, &mut words);
    st.end_render(Some(0), Some(1), &words);
    assert_eq!(st.num_words, 2);
    assert_eq!(st.current_selected_word_data_size, 2);
    assert_eq!(st.word_content_selected, Some(1));
    st.end_render(None, None, &words);
    assert_eq!(st.current_selected_word_data_size, 0);
    st.on_enter_state();
    assert_eq!(st.input, "");
    assert_eq!(st.input_mode, InputMode::Normal);
    assert_eq!((st.character_x, st.character_y, st.scroll_serialterm), (0, 0, 0));
}

#[test]
fn connected_top_message() {
    let mut st = ConnectedState::new();
    let (parts, blink) = st.get_top_msg();
    assert!(blink);
    let text: String = parts.iter().map(|p| p.0).collect();
    assert_eq!(text, "Press q to exit, e to start editing, d to scroll dictionary. ");
    assert_eq!(parts[1], ("q", true));
    st.input_mode = InputMode::AutomatedComms;
    let (parts, blink) = st.get_top_msg();
    assert!(!blink);
    assert_eq!(parts, vec![("loading new word data", false)]);
    st.input_mode = InputMode::ScrollingWordContent;
    let (parts, _) = st.get_top_msg();
    assert_eq!(parts[3], ("d ", true));
}

#[test]
fn session_runs_through_the_connection_states() {
    let mut s = Session::new();
    assert_eq!(s.connection_state, DeviceConnectionState::EstablishingSerialPortConnection);
    assert_eq!(s.handle_input(Key::Char('x')), KeyAction::Nothing);
    s.on_port_open_attempt(false);
    assert_eq!(s.transition(), Transition::Stay);
    s.on_port_open_attempt(true);
    assert!(s.port_open);
    assert_eq!(s.transition(), Transition::Entered);
    assert_eq!(s.connection_state, DeviceConnectionState::RequestingDeviceReset);
    let report = ReadOutcome::Data(REPORT.as_bytes().to_vec());
    assert!(s.read_ok(&report, 0));
    assert!(s.read_serial(&report, 0).is_empty());
    assert_eq!(s.transition(), Transition::EnteredAndSend("showWords\r"));
    assert_eq!(s.connection_state, DeviceConnectionState::InitialHandshake);
    let answer = ReadOutcome::Data(b"showWords\r\n0x20000000 DUP 0x0 0x1\r\n".to_vec());
    assert!(s.read_ok(&answer, 2500));
    s.read_serial(&answer, 2500);
    assert_eq!(s.forth_state.len(), 1);
    assert_eq!(s.transition(), Transition::Entered);
    assert_eq!(s.connection_state, DeviceConnectionState::Connected);
    assert!(s.key_ok(Key::Char('e')));
    s.handle_input(Key::Char('e'));
    assert_eq!(s.handle_input(Key::Char('1')), KeyAction::Send(b'1'));
    s.connected.begin_render(10);
    let sends = s.read_serial(&ReadOutcome::Data(b": x ;\r".to_vec()), 0);
    assert_eq!(sends, vec!["showLastWord\r"]);
    assert_eq!(s.transition(), Transition::Stay);
    s.read_serial(&ReadOutcome::Failed, 0);
    assert_eq!(s.transition(), Transition::ClosePort);
    assert!(!s.port_open);
    assert_eq!(s.connection_state, DeviceConnectionState::EstablishingSerialPortConnection);
    assert_eq!(s.handle_input(Key::Char('q')), KeyAction::Quit);
}

#[test]
fn session_read_checks() {
    let mut s = Session::new();
    s.on_port_open_attempt(true);
    s.transition();
    s.read_serial(&ReadOutcome::Data(REPORT.as_bytes().to_vec()), 0);
    s.transition();
    let bad = ReadOutcome::Data(b"showWords\r\nnot-a-number DUP\r\n".to_vec());
    assert!(s.read_ok(&bad, 100));
    assert!(!s.read_ok(&bad, 2500));
    let mut c = Session::new();
    c.on_port_open_attempt(true);
    c.connection_state = DeviceConnectionState::Connected;
    assert!(!c.read_ok(&ReadOutcome::Data(vec![13]), 0));
    c.connected.begin_render(3);
    assert!(c.read_ok(&ReadOutcome::Data(vec![13]), 0));
    c.connected.input_mode = InputMode::ScrollingWords;
    c.connected.dictionary_selected = Some(0);
    assert!(!c.key_ok(Key::Down));
    assert!(c.key_ok(Key::Up));
}

#[test]
fn session_reconnects_into_terminal_after_write_failure() {
    let mut s = Session::new();
    s.on_port_open_attempt(true);
    s.transition();
    s.read_serial(&ReadOutcome::Data(REPORT.as_bytes().to_vec()), 0);
    s.transition();
    s.read_serial(&ReadOutcome::Data(b"showWords\r\n0x20000000 DUP 0x0 0x1\r\n".to_vec()), 2500);
    assert_eq!(s.transition(), Transition::Entered);
    s.handle_input(Key::Char('e'));
    s.on_write_failed();
    assert_eq!(s.transition(), Transition::ClosePort);
    assert_eq!(s.connected.next_state(), DeviceConnectionState::Connected);
    s.on_port_open_attempt(true);
    s.transition();
    s.read_serial(&ReadOutcome::Data(REPORT.as_bytes().to_vec()), 0);
    s.transition();
    s.read_serial(&ReadOutcome::Data(b"showWords\r\n0x20000000 DUP 0x0 0x1\r\n".to_vec()), 2500);
    assert_eq!(s.transition(), Transition::Entered);
    assert_eq!(s.connection_state, DeviceConnectionState::Connected);
    s.read_serial(&ReadOutcome::TimedOut, 0);
    assert_eq!(s.transition(), Transition::Stay);
    assert_eq!(s.connection_state, DeviceConnectionState::Connected);
}
