use forth_shell::hex::{format_hex8, parse_hex_token};
use forth_shell::text::{
    byte_to_char, char_count, char_low_byte, is_whitespace,
    last_line_contains, line_count_with_space, push_bytes_as_chars, split_lines,
    split_lines_after_first, split_whitespace, str_to_chars,
};

#[test]
fn whitespace_agrees_with_std_for_every_char() {
    for u in 0u32..=0x10FFFF {
        if let Some(c) = char::from_u32(u) {
            assert_eq!(is_whitespace(c), c.is_whitespace(), "code point {:#x}", u);
        }
    }
}

#[test]
fn split_whitespace_agrees_with_std() {
    let samples = [
        "",
        "   ",
        "0x20000000 DUP 0x0 0x1",
        "  0x20000000\t0x00001234  ",
        "a\u{00A0}b\u{3000}c",
        "one",
        "\r\n x \n",
    ];
    for s in samples.iter() {
        let expected: Vec<&str> = s.trim().split_whitespace().collect();
        assert_eq!(split_whitespace(s), expected, "sample {:?}", s);
    }
}

#[test]
fn split_lines_agrees_with_std() {
    let samples = [
        "",
        "\n",
        "a",
        "a\n",
        "a\r\nb\r\n",
        "a\n\nb",
        "a\r",
        "a\rb\nc",
        "showWords\r\n0x20000000 DUP 0x0 0x1\r\n0x20000004 0x0000abcd\r\n",
        "\r\n\r\n",
    ];
    for s in samples.iter() {
        let expected: Vec<&str> = s.lines().collect();
        assert_eq!(split_lines(s), expected, "sample {:?}", s);
        let expected_rest: Vec<&str> = s.lines().skip(1).collect();
        assert_eq!(split_lines_after_first(s), expected_rest, "sample {:?}", s);
    }
}

#[test]
fn last_line_check_agrees_with_std() {
    let samples = ["", ": sq dup * ;", "ok\n: sq dup * ;", ": a ;\nok", ": a ;\n", "x;\r\n", "\n"];
    for s in samples.iter() {
        let expected = match s.lines().last() {
            Some(l) => l.contains(';'),
            None => false,
        };
        assert_eq!(last_line_contains(s, ';'), expected, "sample {:?}", s);
    }
}

#[test]
fn line_count_with_space_counts_lines() {
    assert_eq!(line_count_with_space(""), 1);
    assert_eq!(line_count_with_space("abc"), 1);
    assert_eq!(line_count_with_space("abc\n"), 2);
    assert_eq!(line_count_with_space("a\nb\nc"), 3);
    let long = "\n".repeat(70000);
    let expected = ((long.clone() + " ").lines().count() as u16) as u16;
    assert_eq!(line_count_with_space(&long), expected);
}

#[test]
fn bytes_and_chars() {
    assert_eq!(byte_to_char(65), 'A');
    assert_eq!(byte_to_char(0xe9), 'é');
    assert_eq!(char_low_byte('A'), 65);
    assert_eq!(char_low_byte('\u{0141}'), 0x41);
    assert_eq!(char_low_byte('é'), 0xe9);
    let mut s = String::from("ab");
    push_bytes_as_chars(&mut s, &[0x63, 0x0d, 0xff]);
    assert_eq!(s, "abc\r\u{ff}");
    assert_eq!(str_to_chars("hé!"), vec!['h', 'é', '!']);
    assert_eq!(char_count("hé!"), 3);
}

#[test]
fn hex_tokens_read_like_from_str_radix() {
    assert_eq!(parse_hex_token("0x20000000"), Some(0x2000_0000));
    assert_eq!(parse_hex_token("0x1f"), Some(31));
    assert_eq!(parse_hex_token("1F"), Some(31));
    assert_eq!(parse_hex_token("0x0x10"), Some(16));
    assert_eq!(parse_hex_token("+ff"), Some(255));
    assert_eq!(parse_hex_token("0xffffffff"), Some(u32::MAX));
    assert_eq!(parse_hex_token("0x100000000"), None);
    assert_eq!(parse_hex_token("0x00000000000000000001"), Some(1));
    assert_eq!(parse_hex_token(""), None);
    assert_eq!(parse_hex_token("0x"), None);
    assert_eq!(parse_hex_token("+"), None);
    assert_eq!(parse_hex_token("-1"), None);
    assert_eq!(parse_hex_token("0xg1"), None);
    assert_eq!(parse_hex_token("DUP"), None);
    for t in ["0x1f", "1F", "+ff", "ffffffff", "100000000", "", "+", "-1", "g", "0x0x10"] {
        let expected = u32::from_str_radix(t.trim_start_matches("0x"), 16).ok();
        assert_eq!(parse_hex_token(t), expected, "token {:?}", t);
    }
}

#[test]
fn hex_values_are_written_with_eight_digits() {
    assert_eq!(format_hex8(0x2000_001c), "0x2000001c");
    assert_eq!(format_hex8(0), "0x00000000");
    assert_eq!(format_hex8(u32::MAX), "0xffffffff");
    assert_eq!(format_hex8(0xabc), format!("{:#010x}", 0xabc));
}

#[test]
fn hex_written_values_read_back() {
    for v in [0u32, 1, 9, 10, 15, 16, 0x2000_001c, 0x8000_0000, u32::MAX, 0x1234_5678] {
        assert_eq!(parse_hex_token(&format_hex8(v)), Some(v));
    }
}
