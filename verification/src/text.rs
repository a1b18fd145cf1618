//! Character-level text handling: whitespace tokens, lines, and the
//! `0x`-prefixed hexadecimal numbers that the Forth target prints.
use vstd::prelude::*;
use vstd::string::StrSliceExecFns;

verus! {

// ---------------------------------------------------------------------------
// Characters and bytes
// ---------------------------------------------------------------------------

/// The character whose code point is the byte's value (what `b as char` gives).
pub open spec fn byte_char(b: u8) -> char {
    b as char
}

/// The characters that a run of serial bytes stands for, one per byte.
pub open spec fn bytes_as_chars(bytes: Seq<u8>) -> Seq<char> {
    Seq::new(bytes.len(), |i: int| byte_char(bytes[i]))
}

/// Converts a byte to the character with that code point.
pub fn byte_to_char(b: u8) -> (c: char)
    ensures
        c == byte_char(b),
        c as u32 == b as u32,
{
    b as char
}

/// The low eight bits of a character's code point (what `c as u8` gives).
pub fn char_low_byte(c: char) -> (b: u8)
    ensures
        b == (c as u32) % 256,
{
    let u: u32 = c as u32;
    let b: u8 = (u % 256) as u8;
    b
}

/// Appends one character to a string (`String::push`).
#[verifier::external_body]
pub(crate) fn push_char(s: &mut String, c: char)
    ensures
        final(s)@ == old(s)@.push(c),
{
    s.push(c);
}

/// Removes the last character of a string, if any (`String::pop`).
#[verifier::external_body]
pub(crate) fn pop_char(s: &mut String) -> (r: Option<char>)
    ensures
        old(s)@.len() == 0 ==> r is None && final(s)@ == old(s)@,
        old(s)@.len() > 0 ==> r == Some(old(s)@.last()) && final(s)@ == old(s)@.drop_last(),
{
    s.pop()
}

/// Appends every byte of `bytes`, read as a character, to `s`.
pub fn push_bytes_as_chars(s: &mut String, bytes: &[u8])
    ensures
        final(s)@ == old(s)@ + bytes_as_chars(bytes@),
{
    let n = bytes.len();
    for i in 0..n
        invariant
            n == bytes@.len(),
            s@ == old(s)@ + bytes_as_chars(bytes@).take(i as int),
    {
        let c = byte_to_char(bytes[i]);
        push_char(s, c);
        assert(bytes_as_chars(bytes@).take(i + 1) =~= bytes_as_chars(bytes@).take(i as int).push(c));
    }
    assert(bytes_as_chars(bytes@).take(n as int) =~= bytes_as_chars(bytes@));
}

/// The characters of a string slice, in order.
pub fn str_to_chars(s: &str) -> (v: Vec<char>)
    ensures
        v@ == s@,
{
    let mut v: Vec<char> = Vec::new();
    for c in it: s.chars()
        invariant
            v@ == it.seq().take(it.index() as int),
            it.seq() == s@,
    {
        v.push(c);
    }
    v
}

/// The number of characters of a string slice.
pub fn char_count(s: &str) -> (r: usize)
    ensures
        r == s@.len(),
{
    s.unicode_len()
}

/// Whether the character `c` occurs in `hay`.
pub open spec fn contains_char(hay: Seq<char>, c: char) -> bool {
    exists|i: int| 0 <= i < hay.len() && hay[i] == c
}

// ---------------------------------------------------------------------------
// Whitespace-separated tokens
// ---------------------------------------------------------------------------

/// Unicode `White_Space`, the property that `char::is_whitespace` tests.
pub open spec fn is_ws(c: char) -> bool {
    let u = c as u32;
    ||| 9 <= u <= 13
    ||| u == 32
    ||| u == 0x85
    ||| u == 0xA0
    ||| u == 0x1680
    ||| 0x2000 <= u <= 0x200A
    ||| u == 0x2028
    ||| u == 0x2029
    ||| u == 0x202F
    ||| u == 0x205F
    ||| u == 0x3000
}

/// Whether a character is Unicode whitespace.
pub fn is_whitespace(c: char) -> (r: bool)
    ensures
        r == is_ws(c),
{
    let u: u32 = c as u32;
    (9 <= u && u <= 13) || u == 32 || u == 0x85 || u == 0xA0 || u == 0x1680 || (0x2000 <= u && u
        <= 0x200A) || u == 0x2028 || u == 0x2029 || u == 0x202F || u == 0x205F || u == 0x3000
}

/// The token `cur` (possibly empty) as a list of zero or one tokens.
pub open spec fn flush(cur: Seq<char>) -> Seq<Seq<char>> {
    if cur.len() > 0 {
        seq![cur]
    } else {
        seq![]
    }
}

/// The tokens of `s`, given that `cur` is the token read just before it.
pub open spec fn words_from(s: Seq<char>, cur: Seq<char>) -> Seq<Seq<char>>
    decreases s.len(),
{
    if s.len() == 0 {
        flush(cur)
    } else if is_ws(s[0]) {
        flush(cur) + words_from(s.drop_first(), seq![])
    } else {
        words_from(s.drop_first(), cur.push(s[0]))
    }
}

/// The maximal runs of non-whitespace characters of `s`, in order: what
/// `s.trim().split_whitespace()` yields.
pub open spec fn words_of(s: Seq<char>) -> Seq<Seq<char>> {
    words_from(s, seq![])
}

/// The views of a list of string slices.
pub open spec fn str_views(v: Seq<&str>) -> Seq<Seq<char>> {
    Seq::new(v.len(), |i: int| v[i]@)
}

/// Splits a line into its whitespace-separated tokens.
pub fn split_whitespace(line: &str) -> (tokens: Vec<&str>)
    ensures
        str_views(tokens@) == words_of(line@),
{
    let chars = str_to_chars(line);
    let n = chars.len();
    let mut tokens: Vec<&str> = Vec::new();
    let mut start: usize = 0;
    let mut i: usize = 0;
    assert(chars@.skip(0) =~= chars@);
    assert(chars@.subrange(0, 0) =~= Seq::<char>::empty());
    assert(str_views(tokens@) =~= Seq::<Seq<char>>::empty());
    while i < n
        invariant
            n == chars@.len(),
            chars@ == line@,
            start <= i <= n,
            str_views(tokens@) + words_from(chars@.skip(i as int), chars@.subrange(start as int, i as int))
                == words_of(line@),
        decreases n - i,
    {
        let ghost rest = chars@.skip(i as int);
        let ghost cur = chars@.subrange(start as int, i as int);
        assert(rest[0] == chars@[i as int]);
        assert(rest.drop_first() =~= chars@.skip(i + 1));
        if is_whitespace(chars[i]) {
            if start < i {
                let t = line.substring_char(start, i);
                let ghost before = str_views(tokens@);
                tokens.push(t);
                assert(str_views(tokens@) =~= before + seq![cur]);
            }
            assert(chars@.subrange((i + 1) as int, (i + 1) as int) =~= Seq::<char>::empty());
            start = i + 1;
        } else {
            assert(chars@.subrange(start as int, i + 1) =~= cur.push(chars@[i as int]));
        }
        i = i + 1;
    }
    let ghost cur = chars@.subrange(start as int, n as int);
    if start < n {
        let t = line.substring_char(start, n);
        let ghost before = str_views(tokens@);
        tokens.push(t);
        assert(str_views(tokens@) =~= before + seq![cur]);
    }
    tokens
}

// ---------------------------------------------------------------------------
// Lines
// ---------------------------------------------------------------------------

/// A line with one trailing carriage return removed, if it has one.
pub open spec fn strip_cr(line: Seq<char>) -> Seq<char> {
    if line.len() > 0 && line.last() == '\r' {
        line.drop_last()
    } else {
        line
    }
}

/// The lines of `s`, given that `cur` is the part of the current line read before it.
pub open spec fn lines_from(s: Seq<char>, cur: Seq<char>) -> Seq<Seq<char>>
    decreases s.len(),
{
    if s.len() == 0 {
        flush(cur)
    } else if s[0] == '\n' {
        seq![strip_cr(cur)] + lines_from(s.drop_first(), seq![])
    } else {
        lines_from(s.drop_first(), cur.push(s[0]))
    }
}

/// The lines of `s` as `str::lines` yields them: split at `\n`, a `\r` right
/// before a `\n` dropped, and no empty line after a final `\n`.
pub open spec fn lines_of(s: Seq<char>) -> Seq<Seq<char>> {
    lines_from(s, seq![])
}

/// Splits a text into its lines.
pub fn split_lines(text: &str) -> (lines: Vec<&str>)
    ensures
        str_views(lines@) == lines_of(text@),
{
    let chars = str_to_chars(text);
    let n = chars.len();
    let mut lines: Vec<&str> = Vec::new();
    let mut start: usize = 0;
    let mut i: usize = 0;
    assert(chars@.skip(0) =~= chars@);
    assert(chars@.subrange(0, 0) =~= Seq::<char>::empty());
    assert(str_views(lines@) =~= Seq::<Seq<char>>::empty());
    while i < n
        invariant
            n == chars@.len(),
            chars@ == text@,
            start <= i <= n,
            str_views(lines@) + lines_from(chars@.skip(i as int), chars@.subrange(start as int, i as int))
                == lines_of(text@),
        decreases n - i,
    {
        let ghost rest = chars@.skip(i as int);
        let ghost cur = chars@.subrange(start as int, i as int);
        assert(rest[0] == chars@[i as int]);
        assert(rest.drop_first() =~= chars@.skip(i + 1));
        if chars[i] == '\n' {
            let end = if start < i && chars[i - 1] == '\r' { i - 1 } else { i };
            assert(chars@.subrange(start as int, end as int) =~= strip_cr(cur));
            let t = text.substring_char(start, end);
            let ghost before = str_views(lines@);
            lines.push(t);
            assert(str_views(lines@) =~= before + seq![strip_cr(cur)]);
            assert(chars@.subrange((i + 1) as int, (i + 1) as int) =~= Seq::<char>::empty());
            start = i + 1;
        } else {
            assert(chars@.subrange(start as int, i + 1) =~= cur.push(chars@[i as int]));
        }
        i = i + 1;
    }
    let ghost cur = chars@.subrange(start as int, n as int);
    if start < n {
        let t = text.substring_char(start, n);
        let ghost before = str_views(lines@);
        lines.push(t);
        assert(str_views(lines@) =~= before + seq![cur]);
    }
    lines
}

/// The lines of `text` but the first (what `text.lines().skip(1)` yields).
pub open spec fn lines_after_first(text: Seq<char>) -> Seq<Seq<char>> {
    let ls = lines_of(text);
    if ls.len() == 0 {
        ls
    } else {
        ls.drop_first()
    }
}

/// The lines of a text but the first.
pub fn split_lines_after_first(text: &str) -> (lines: Vec<&str>)
    ensures
        str_views(lines@) == lines_after_first(text@),
{
    let mut lines = split_lines(text);
    if lines.len() > 0 {
        let ghost before = str_views(lines@);
        lines.remove(0);
        assert(str_views(lines@) =~= before.drop_first());
    }
    lines
}

/// Dropping a trailing carriage return keeps every other character.
proof fn lemma_strip_cr_contains(s: Seq<char>, c: char)
    requires
        c != '\r',
    ensures
        contains_char(strip_cr(s), c) == contains_char(s, c),
{
    if s.len() > 0 && s.last() == '\r' {
        if contains_char(s, c) {
            let i = choose|i: int| 0 <= i < s.len() && s[i] == c;
            assert(strip_cr(s)[i] == c);
        }
        if contains_char(strip_cr(s), c) {
            let i = choose|i: int| 0 <= i < strip_cr(s).len() && strip_cr(s)[i] == c;
            assert(s[i] == c);
        }
    }
}

/// Whether the last line of `text` holds the character `c`.
pub fn last_line_contains(text: &str, c: char) -> (r: bool)
    requires
        c != '\r',
    ensures
        r == (lines_of(text@).len() > 0 && contains_char(lines_of(text@).last(), c)),
{
    let chars = str_to_chars(text);
    let n = chars.len();
    let ghost mut done: Seq<Seq<char>> = seq![];
    let mut has_done: bool = false;
    let mut done_has: bool = false;
    let mut cur_has: bool = false;
    let mut start: usize = 0;
    let mut i: usize = 0;
    assert(chars@.skip(0) =~= chars@);
    assert(chars@.subrange(0, 0) =~= Seq::<char>::empty());
    while i < n
        invariant
            n == chars@.len(),
            chars@ == text@,
            start <= i <= n,
            done + lines_from(chars@.skip(i as int), chars@.subrange(start as int, i as int))
                == lines_of(text@),
            has_done == (done.len() > 0),
            c != '\r',
            done.len() > 0 ==> done_has == contains_char(done.last(), c),
            cur_has == contains_char(chars@.subrange(start as int, i as int), c),
        decreases n - i,
    {
        let ghost rest = chars@.skip(i as int);
        let ghost cur = chars@.subrange(start as int, i as int);
        assert(rest[0] == chars@[i as int]);
        assert(rest.drop_first() =~= chars@.skip(i + 1));
        if chars[i] == '\n' {
            proof {
                lemma_strip_cr_contains(cur, c);
                assert(done + lines_from(rest, cur) =~= done.push(strip_cr(cur)) + lines_from(
                    chars@.skip(i + 1),
                    Seq::<char>::empty(),
                ));
                done = done.push(strip_cr(cur));
            }
            has_done = true;
            done_has = cur_has;
            cur_has = false;
            assert(chars@.subrange((i + 1) as int, (i + 1) as int) =~= Seq::<char>::empty());
            start = i + 1;
        } else {
            let ghost next = chars@.subrange(start as int, i + 1);
            assert(next =~= cur.push(chars@[i as int]));
            if chars[i] == c {
                assert(next[i - start] == c);
                cur_has = true;
                proof {
                    if contains_char(cur, c) {
                        let k = choose|k: int| 0 <= k < cur.len() && cur[k] == c;
                        assert(next[k] == c);
                    }
                }
            } else {
                proof {
                    if contains_char(next, c) {
                        let k = choose|k: int| 0 <= k < next.len() && next[k] == c;
                        assert(cur[k] == c);
                    }
                }
            }
        }
        i = i + 1;
    }
    let ghost cur = chars@.subrange(start as int, n as int);
    assert(chars@.skip(n as int) =~= Seq::<char>::empty());
    assert(lines_of(text@) == done + flush(cur));
    if start < n {
        assert(lines_of(text@).last() == cur);
        cur_has
    } else {
        assert(cur.len() == 0);
        assert(lines_of(text@) =~= done);
        has_done && done_has
    }
}

/// The number of line feeds in `s`.
pub open spec fn count_newlines(s: Seq<char>) -> nat
    decreases s.len(),
{
    if s.len() == 0 {
        0
    } else {
        (if s[0] == '\n' { 1nat } else { 0nat }) + count_newlines(s.drop_first())
    }
}

/// A text followed by a space has one line more than it has line feeds.
proof fn lemma_lines_with_space(s: Seq<char>, cur: Seq<char>)
    ensures
        lines_from(s.push(' '), cur).len() == count_newlines(s) + 1,
    decreases s.len(),
{
    if s.len() == 0 {
        let t = s.push(' ');
        assert(t.drop_first() =~= Seq::<char>::empty());
        assert(lines_from(t.drop_first(), cur.push(' ')) == flush(cur.push(' ')));
    } else {
        assert(s.push(' ').drop_first() =~= s.drop_first().push(' '));
        if s[0] == '\n' {
            lemma_lines_with_space(s.drop_first(), Seq::<char>::empty());
        } else {
            lemma_lines_with_space(s.drop_first(), cur.push(s[0]));
        }
    }
}

/// The number of lines of the text followed by a space, modulo 2^16 (what
/// `(text + " ").lines().count() as u16` gives).
pub fn line_count_with_space(text: &str) -> (r: u16)
    ensures
        r == lines_of(text@.push(' ')).len() % 0x1_0000,
{
    let chars = str_to_chars(text);
    let n = chars.len();
    let mut count: u16 = 1;
    for i in 0..n
        invariant
            n == chars@.len(),
            chars@ == text@,
            count == (count_newlines(chars@.take(i as int)) + 1) % 0x1_0000,
    {
        proof {
            lemma_count_newlines_push(chars@.take(i as int), chars@[i as int]);
        }
        assert(chars@.take(i + 1) =~= chars@.take(i as int).push(chars@[i as int]));
        if chars[i] == '\n' {
            count = count.wrapping_add(1);
        }
    }
    assert(chars@.take(n as int) =~= chars@);
    proof {
        lemma_lines_with_space(text@, Seq::<char>::empty());
    }
    count
}

/// Appending a character adds one line feed if it is one.
proof fn lemma_count_newlines_push(s: Seq<char>, c: char)
    ensures
        count_newlines(s.push(c)) == count_newlines(s) + (if c == '\n' { 1nat } else { 0nat }),
    decreases s.len(),
{
    if s.len() > 0 {
        assert(s.push(c).drop_first() =~= s.drop_first().push(c));
        assert(s.push(c)[0] == s[0]);
        lemma_count_newlines_push(s.drop_first(), c);
        assert(count_newlines(s.push(c)) == (if s[0] == '\n' { 1nat } else { 0nat })
            + count_newlines(s.drop_first().push(c)));
    } else {
        assert(s.push(c).drop_first() =~= Seq::<char>::empty());
        assert(s.push(c)[0] == c);
        assert(count_newlines(Seq::<char>::empty()) == 0);
        assert(count_newlines(s.push(c)) == (if c == '\n' { 1nat } else { 0nat })
            + count_newlines(Seq::<char>::empty()));
    }
}

/// Text with no line feed adds to the current line and ends it.
proof fn lemma_lines_from_no_newline(s: Seq<char>, cur: Seq<char>)
    requires
        forall|i: int| 0 <= i < s.len() ==> s[i] != '\n',
    ensures
        lines_from(s, cur) == flush(cur + s),
    decreases s.len(),
{
    if s.len() == 0 {
        assert(cur + s =~= cur);
    } else {
        assert(s[0] != '\n');
        lemma_lines_from_no_newline(s.drop_first(), cur.push(s[0]));
        assert(cur.push(s[0]) + s.drop_first() =~= cur + s);
    }
}

/// After a line feed, a non-empty run without line feeds is the last line.
proof fn lemma_lines_from_last(pre: Seq<char>, cur: Seq<char>, last: Seq<char>)
    requires
        last.len() > 0,
        forall|i: int| 0 <= i < last.len() ==> last[i] != '\n',
    ensures
        lines_from(pre + seq!['\n'] + last, cur).len() > 0,
        lines_from(pre + seq!['\n'] + last, cur).last() == last,
    decreases pre.len(),
{
    let s = pre + seq!['\n'] + last;
    if pre.len() == 0 {
        assert(s[0] == '\n');
        assert(s.drop_first() =~= last);
        lemma_lines_from_no_newline(last, Seq::<char>::empty());
        assert(Seq::<char>::empty() + last =~= last);
    } else {
        assert(s[0] == pre[0]);
        assert(s.drop_first() =~= pre.drop_first() + seq!['\n'] + last);
        if pre[0] == '\n' {
            lemma_lines_from_last(pre.drop_first(), Seq::<char>::empty(), last);
        } else {
            lemma_lines_from_last(pre.drop_first(), cur.push(pre[0]), last);
        }
    }
}

/// Law: the last line of a text is what follows its last line feed, when
/// that part is not empty; a text without line feeds is its only line.
pub proof fn lemma_last_line(pre: Seq<char>, last: Seq<char>)
    requires
        last.len() > 0,
        forall|i: int| 0 <= i < last.len() ==> last[i] != '\n',
    ensures
        lines_of(pre + seq!['\n'] + last).len() > 0,
        lines_of(pre + seq!['\n'] + last).last() == last,
        lines_of(last) == seq![last],
{
    lemma_lines_from_last(pre, Seq::<char>::empty(), last);
    lemma_lines_from_no_newline(last, Seq::<char>::empty());
    assert(Seq::<char>::empty() + last =~= last);
}

} // verus!
