//! The hexadecimal numbers of the Forth target's listings: reading a token such
//! as `0x2000001c`, and writing a value as `0x` and eight lower-case digits.
use vstd::prelude::*;
use vstd::arithmetic::div_mod::{lemma_div_denominator, lemma_fundamental_div_mod};
use crate::text::{push_char, str_to_chars};

verus! {

/// The token with every leading `0x` removed (what `trim_start_matches("0x")` gives).
pub open spec fn strip_hex_prefix(s: Seq<char>) -> Seq<char>
    decreases s.len(),
{
    if s.len() >= 2 && s[0] == '0' && s[1] == 'x' {
        strip_hex_prefix(s.skip(2))
    } else {
        s
    }
}

/// Whether `c` is a hexadecimal digit, in either case.
pub open spec fn is_hex_digit(c: char) -> bool {
    ('0' <= c <= '9') || ('a' <= c <= 'f') || ('A' <= c <= 'F')
}

/// The value of a hexadecimal digit (0 for any other character).
pub open spec fn hex_digit_value(c: char) -> nat {
    if '0' <= c <= '9' {
        (c as int - '0' as int) as nat
    } else if 'a' <= c <= 'f' {
        (c as int - 'a' as int + 10) as nat
    } else if 'A' <= c <= 'F' {
        (c as int - 'A' as int + 10) as nat
    } else {
        0
    }
}

/// The number that a string of hexadecimal digits denotes.
pub open spec fn hex_value(d: Seq<char>) -> nat
    decreases d.len(),
{
    if d.len() == 0 {
        0
    } else {
        hex_value(d.drop_last()) * 16 + hex_digit_value(d.last())
    }
}

/// Whether every character of `d` is a hexadecimal digit.
pub open spec fn all_hex_digits(d: Seq<char>) -> bool {
    forall|i: int| 0 <= i < d.len() ==> is_hex_digit(#[trigger] d[i])
}

/// What `u32::from_str_radix(t, 16)` gives: an optional `+`, then at least one
/// hexadecimal digit, with a value that fits in 32 bits.
pub open spec fn radix16_u32(t: Seq<char>) -> Option<u32> {
    let d = if t.len() > 0 && t[0] == '+' {
        t.drop_first()
    } else {
        t
    };
    if d.len() > 0 && all_hex_digits(d) && hex_value(d) <= u32::MAX {
        Some(hex_value(d) as u32)
    } else {
        None
    }
}

/// The value of a listing token: `0x` prefixes removed, then read in base 16.
pub open spec fn hex_token_value(t: Seq<char>) -> Option<u32> {
    radix16_u32(strip_hex_prefix(t))
}

/// A prefix of digits never denotes more than the whole string.
proof fn lemma_hex_value_prefix(d: Seq<char>, k: int)
    requires
        0 <= k <= d.len(),
    ensures
        hex_value(d.take(k)) <= hex_value(d),
    decreases d.len() - k,
{
    if k < d.len() {
        lemma_hex_value_prefix(d, k + 1);
        assert(d.take(k + 1).drop_last() =~= d.take(k));
    } else {
        assert(d.take(k) =~= d);
    }
}

/// The value of a hexadecimal digit, or `None` for another character.
fn digit_value(c: char) -> (r: Option<u64>)
    ensures
        r is Some <==> is_hex_digit(c),
        r matches Some(v) ==> v == hex_digit_value(c) && v < 16,
{
    if '0' <= c && c <= '9' {
        Some((c as u64) - ('0' as u64))
    } else if 'a' <= c && c <= 'f' {
        Some((c as u64) - ('a' as u64) + 10)
    } else if 'A' <= c && c <= 'F' {
        Some((c as u64) - ('A' as u64) + 10)
    } else {
        None
    }
}

/// Reads a listing token as a hexadecimal number: leading `0x` prefixes are
/// skipped, then the rest is read as `u32::from_str_radix(.., 16)` reads it.
/// `None` where `from_str_radix` reports an error.
pub fn parse_hex_token(token: &str) -> (r: Option<u32>)
    ensures
        r == hex_token_value(token@),
{
    let chars = str_to_chars(token);
    let n = chars.len();
    let mut i: usize = 0;
    assert(chars@.skip(0) =~= chars@);
    while n - i >= 2 && chars[i] == '0' && chars[i + 1] == 'x'
        invariant
            n == chars@.len(),
            i <= n,
            strip_hex_prefix(chars@.skip(i as int)) == strip_hex_prefix(token@),
            chars@ == token@,
        decreases n - i,
    {
        assert(chars@.skip(i as int).skip(2) =~= chars@.skip(i + 2));
        i = i + 2;
    }
    let ghost t = chars@.skip(i as int);
    assert(strip_hex_prefix(t) == t);
    if i < n && chars[i] == '+' {
        assert(t.drop_first() =~= chars@.skip(i + 1));
        i = i + 1;
    }
    let ghost d = chars@.skip(i as int);
    assert(hex_token_value(token@) == (if d.len() > 0 && all_hex_digits(d) && hex_value(d) <= u32::MAX {
        Some(hex_value(d) as u32)
    } else {
        None
    }));
    if i == n {
        return None;
    }
    let start = i;
    let mut acc: u64 = 0;
    assert(d.take(0) =~= Seq::<char>::empty());
    while i < n
        invariant
            n == chars@.len(),
            start <= i <= n,
            start < n,
            d == chars@.skip(start as int),
            acc == hex_value(d.take(i - start)),
            acc <= u32::MAX,
            all_hex_digits(d.take(i - start)),
            hex_token_value(token@) == (if d.len() > 0 && all_hex_digits(d) && hex_value(d) <= u32::MAX {
                Some(hex_value(d) as u32)
            } else {
                None
            }),
        decreases n - i,
    {
        let k: usize = i - start;
        assert(d[k as int] == chars@[i as int]);
        assert(d.take(k + 1).drop_last() =~= d.take(k as int));
        assert(d.take(k + 1).last() == d[k as int]);
        match digit_value(chars[i]) {
            None => {
                assert(!is_hex_digit(d[k as int]));
                return None;
            },
            Some(v) => {
                let next = acc * 16 + v;
                assert(next == hex_value(d.take(k + 1)));
                if next > 0xffff_ffff {
                    proof {
                        lemma_hex_value_prefix(d, k + 1);
                    }
                    return None;
                }
                acc = next;
                assert forall|j: int| 0 <= j < k + 1 implies is_hex_digit(#[trigger] d.take(k + 1)[j]) by {
                    if j < k {
                        assert(d.take(k + 1)[j] == d.take(k as int)[j]);
                    }
                }
            },
        }
        i = i + 1;
    }
    assert(d.take(n - start) =~= d);
    Some(acc as u32)
}

/// The lower-case hexadecimal digit for a value below 16.
pub open spec fn hex_char(v: nat) -> char {
    if v < 10 {
        (v + 48) as char
    } else {
        (v + 87) as char
    }
}

/// The place value of the `k`-th of eight digits, the first being the highest.
pub open spec fn place(k: int) -> nat {
    if k <= 0 {
        0x1000_0000
    } else if k == 1 {
        0x100_0000
    } else if k == 2 {
        0x10_0000
    } else if k == 3 {
        0x1_0000
    } else if k == 4 {
        0x1000
    } else if k == 5 {
        0x100
    } else if k == 6 {
        0x10
    } else {
        1
    }
}

/// The eight hexadecimal digits of `v`, highest first.
pub open spec fn hex_digits8(v: u32) -> Seq<char> {
    Seq::new(8, |k: int| hex_char(((v as nat) / place(k)) % 16))
}

/// `v` written as `format!("{:#010x}", v)` writes it: `0x` and eight lower-case digits.
pub open spec fn hex8(v: u32) -> Seq<char> {
    seq!['0', 'x'] + hex_digits8(v)
}

/// Writes `v` as `0x` followed by eight lower-case hexadecimal digits.
pub fn format_hex8(v: u32) -> (s: String)
    ensures
        s@ == hex8(v),
{
    let mut s = String::new();
    push_char(&mut s, '0');
    push_char(&mut s, 'x');
    let mut k: usize = 0;
    let mut p: u32 = 0x1000_0000;
    while k < 8
        invariant
            k <= 8,
            p == place(k as int),
            s@ == seq!['0', 'x'] + hex_digits8(v).take(k as int),
        decreases 8 - k,
    {
        let d: u32 = (v / p) % 16;
        let c: char = if d < 10 {
            ((d + 48) as u8) as char
        } else {
            ((d + 87) as u8) as char
        };
        assert(c == hex_char(d as nat));
        push_char(&mut s, c);
        assert(hex_digits8(v).take(k + 1) =~= hex_digits8(v).take(k as int).push(c));
        k = k + 1;
        if k < 8 {
            p = p / 16;
        }
    }
    assert(hex_digits8(v).take(8) =~= hex_digits8(v));
    s
}

/// A hexadecimal digit written by `hex_char` reads back as its value.
proof fn lemma_hex_char_roundtrip(d: nat)
    requires
        d < 16,
    ensures
        is_hex_digit(hex_char(d)),
        hex_digit_value(hex_char(d)) == d,
        hex_char(d) != 'x',
        hex_char(d) != '+',
{
}

/// Each place value is sixteen times the next, so one more digit refines the quotient.
proof fn lemma_place_step(v: nat, k: int)
    requires
        1 <= k < 8,
    ensures
        (v / place(k - 1)) * 16 + (v / place(k)) % 16 == v / place(k),
{
    assert(place(k - 1) == place(k) * 16);
    lemma_div_denominator(v as int, place(k) as int, 16);
    lemma_fundamental_div_mod((v / place(k)) as int, 16);
}

/// Law: reading back a value written by `format_hex8` gives the value again.
pub proof fn lemma_hex8_roundtrip(v: u32)
    ensures
        hex_token_value(hex8(v)) == Some(v),
{
    let s = hex8(v);
    let d = hex_digits8(v);
    assert(s.skip(2) =~= d);
    assert forall|k: int| 0 <= k < 8 implies is_hex_digit(#[trigger] d[k]) && d[k] != 'x' by {
        lemma_hex_char_roundtrip(((v as nat) / place(k)) % 16);
    }
    lemma_hex_char_roundtrip(((v as nat) / place(0)) % 16);
    assert(strip_hex_prefix(d) == d);
    assert(strip_hex_prefix(s) == d);
    lemma_digits_prefix(v, 8);
    assert(d.take(8) =~= d);
    assert(place(7) == 1);
    assert(d[0] != '+');
}

/// The first `k` digits of `v` denote `v` divided by the place value of the `k`-th.
proof fn lemma_digits_prefix(v: u32, k: int)
    requires
        0 <= k <= 8,
    ensures
        k == 0 ==> hex_value(hex_digits8(v).take(k)) == 0,
        k > 0 ==> hex_value(hex_digits8(v).take(k)) == (v as nat) / place(k - 1),
    decreases k,
{
    let d = hex_digits8(v);
    if k == 0 {
        assert(d.take(0) =~= Seq::<char>::empty());
    } else {
        lemma_digits_prefix(v, k - 1);
        assert(d.take(k).drop_last() =~= d.take(k - 1));
        let x = (v as nat) / place(k - 1);
        lemma_hex_char_roundtrip(x % 16);
        if k == 1 {
            assert((v as nat) / place(0) < 16);
        } else {
            lemma_place_step(v as nat, k - 1);
        }
        assert(d.take(k).last() == d[k - 1]);
    }
}

} // verus!
