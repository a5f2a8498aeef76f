//! Backslash escapes in format strings given on the command line.

use crate::text::{chars_of, push_range};
use vstd::prelude::*;
use vstd::utf8::is_scalar;

verus! {

/// `char::from_u32` gives the character with the given code, and `None` for a
/// number that is no Unicode scalar value.
pub assume_specification[ char::from_u32 ](i: u32) -> (c: Option<char>)
    ensures
        is_scalar(i) ==> c == Some(i as char),
        !is_scalar(i) ==> c is None,
;

/// The value of a hexadecimal digit.
pub open spec fn hex_digit(c: char) -> Option<nat> {
    if '0' <= c <= '9' {
        Some((c as nat - '0' as nat) as nat)
    } else if 'a' <= c <= 'f' {
        Some((c as nat - 'a' as nat + 10) as nat)
    } else if 'A' <= c <= 'F' {
        Some((c as nat - 'A' as nat + 10) as nat)
    } else {
        None
    }
}

/// The number that a run of hexadecimal digits writes, most significant digit
/// first; `None` where a character is no such digit. The empty run is zero.
pub open spec fn hex_digits(s: Seq<char>) -> Option<nat>
    decreases s.len(),
{
    if s.len() == 0 {
        Some(0)
    } else {
        match (hex_digits(s.drop_last()), hex_digit(s.last())) {
            (Some(high), Some(low)) => Some(high * 16 + low),
            _ => None,
        }
    }
}

/// The number that `s` writes in hexadecimal: one or more digits, which a
/// single `+` may precede.
pub open spec fn hex_number(s: Seq<char>) -> Option<nat> {
    if s.len() == 0 {
        None
    } else if s[0] == '+' {
        if s.len() == 1 {
            None
        } else {
            hex_digits(s.skip(1))
        }
    } else {
        hex_digits(s)
    }
}

/// The character that the digits of a `\u` or `\U` escape stand for.
pub open spec fn escaped_char(digits: Seq<char>) -> Option<char> {
    match hex_number(digits) {
        Some(n) => if n <= u32::MAX && is_scalar(n as u32) {
            Some(n as u32 as char)
        } else {
            None
        },
        None => None,
    }
}

/// The character that a one-letter escape stands for.
pub open spec fn simple_escape(c: char) -> Option<char> {
    if c == 'b' {
        Some('\u{8}')
    } else if c == 'f' {
        Some('\u{c}')
    } else if c == 'n' {
        Some('\n')
    } else if c == 'r' {
        Some('\r')
    } else if c == 't' {
        Some('\t')
    } else if c == '"' {
        Some('"')
    } else if c == '\\' {
        Some('\\')
    } else {
        None
    }
}

/// How many digits follow the letter of a numbered escape: four after `u`,
/// eight after `U`, and no numbered escape for any other letter.
pub open spec fn escape_width(c: char) -> Option<int> {
    if c == 'u' {
        Some(4)
    } else if c == 'U' {
        Some(8)
    } else {
        None
    }
}

/// What `s[i..]` reads as once its escapes are replaced.
///
/// A character other than a backslash stands for itself. A backslash with a
/// known letter stands for that letter's character. `\u` with four digits and
/// `\U` with eight stand for the character with that code; where the digits
/// name no character the escape is kept as written, and where too few
/// characters follow, everything from the backslash on is kept as written
/// and nothing after it is read. A backslash before any other character is
/// kept together with that character, and so is a backslash at the very end.
pub open spec fn unescaped_from(s: Seq<char>, i: int) -> Seq<char>
    decreases s.len() - i,
{
    if i < 0 || i >= s.len() {
        Seq::empty()
    } else if s[i] != '\\' {
        seq![s[i]] + unescaped_from(s, i + 1)
    } else if i + 1 >= s.len() {
        seq!['\\']
    } else if let Some(c) = simple_escape(s[i + 1]) {
        seq![c] + unescaped_from(s, i + 2)
    } else if let Some(width) = escape_width(s[i + 1]) {
        if i + 2 + width > s.len() {
            s.subrange(i, s.len() as int)
        } else if let Some(c) = escaped_char(s.subrange(i + 2, i + 2 + width)) {
            seq![c] + unescaped_from(s, i + 2 + width)
        } else {
            s.subrange(i, i + 2 + width) + unescaped_from(s, i + 2 + width)
        }
    } else {
        seq!['\\', s[i + 1]] + unescaped_from(s, i + 2)
    }
}

/// What `s` reads as once its escapes are replaced.
pub open spec fn unescaped(s: Seq<char>) -> Seq<char> {
    unescaped_from(s, 0)
}

/// Text without a backslash reads as it is written.
pub proof fn lemma_plain_text_stays(s: Seq<char>, i: int)
    requires
        0 <= i <= s.len(),
        forall|j: int| i <= j < s.len() ==> s[j] != '\\',
    ensures
        unescaped_from(s, i) == s.subrange(i, s.len() as int),
    decreases s.len() - i,
{
    if i < s.len() {
        lemma_plain_text_stays(s, i + 1);
        assert(seq![s[i]] + s.subrange(i + 1, s.len() as int) == s.subrange(i, s.len() as int));
    } else {
        assert(s.subrange(i, s.len() as int) == Seq::<char>::empty());
    }
}

fn hex_digit_value(c: char) -> (value: Option<u32>)
    ensures
        value is Some == hex_digit(c) is Some,
        value is Some ==> value->0 == hex_digit(c)->0 && value->0 < 16,
{
    if '0' <= c && c <= '9' {
        Some(c as u32 - '0' as u32)
    } else if 'a' <= c && c <= 'f' {
        Some(c as u32 - 'a' as u32 + 10)
    } else if 'A' <= c && c <= 'F' {
        Some(c as u32 - 'A' as u32 + 10)
    } else {
        None
    }
}

/// Reads `chars[from..to]` as the digits of a numbered escape.
fn read_escaped_char(chars: &Vec<char>, from: usize, to: usize) -> (c: Option<char>)
    requires
        from < to <= chars.len(),
        to - from <= 8,
    ensures
        c == escaped_char(chars@.subrange(from as int, to as int)),
{
    let ghost digits = chars@.subrange(from as int, to as int);
    let start: usize = if chars[from] == '+' {
        from + 1
    } else {
        from
    };
    if start == to {
        return None;
    }
    let ghost run = chars@.subrange(start as int, to as int);
    assert(run == if digits[0] == '+' {
        digits.skip(1)
    } else {
        digits
    });
    assert(hex_number(digits) == hex_digits(run));
    let mut value: u32 = 0;
    let mut i: usize = start;
    while i < to
        invariant
            start <= i <= to <= chars.len(),
            to - start <= 8,
            run == chars@.subrange(start as int, to as int),
            digits == chars@.subrange(from as int, to as int),
            hex_number(digits) == hex_digits(run),
            hex_digits(run.take(i - start)) == Some(value as nat),
            value < pow16((i - start) as nat),
        decreases to - i,
    {
        let ghost next = run.take(i - start + 1);
        assert(next.drop_last() == run.take(i - start));
        assert(next.last() == chars[i as int]);
        match hex_digit_value(chars[i]) {
            Some(d) => {
                proof {
                    lemma_pow16_bound((i - start) as nat);
                }
                value = value * 16 + d;
            },
            None => {
                proof {
                    lemma_hex_digits_prefix(run, i - start + 1);
                }
                return None;
            },
        }
        i += 1;
    }
    assert(run.take(to - start) == run);
    char::from_u32(value)
}

/// Sixteen to the power of `n`.
pub open spec fn pow16(n: nat) -> nat
    decreases n,
{
    if n == 0 {
        1
    } else {
        16 * pow16((n - 1) as nat)
    }
}

proof fn lemma_pow16_bound(n: nat)
    requires
        n <= 7,
    ensures
        pow16(n) * 16 == pow16(n + 1),
        pow16(n + 1) <= 0x1_0000_0000,
{
    reveal_with_fuel(pow16, 10);
}

/// Digits that fail to parse keep failing however many more follow.
proof fn lemma_hex_digits_prefix(s: Seq<char>, n: int)
    requires
        0 <= n <= s.len(),
        hex_digits(s.take(n)) is None,
    ensures
        hex_digits(s) is None,
    decreases s.len() - n,
{
    if n < s.len() {
        assert(s.take(n + 1).drop_last() == s.take(n));
        lemma_hex_digits_prefix(s, n + 1);
    } else {
        assert(s.take(n) == s);
    }
}

/// Replaces the backslash escapes in `input` by the characters they stand for.
pub fn unescape(input: &str) -> (res: String)
    ensures
        res@ == unescaped(input@),
{
    let chars = chars_of(input);
    let len = chars.len();
    let mut res = String::new();
    let mut i: usize = 0;
    while i < len
        invariant
            len == chars.len(),
            i <= len,
            res@ + unescaped_from(chars@, i as int) == unescaped_from(chars@, 0),
        decreases len - i,
    {
        let c = chars[i];
        if c != '\\' {
            res.push(c);
            i += 1;
        } else if len - i < 2 {
            res.push('\\');
            i = len;
        } else {
            let e = chars[i + 1];
            if e == 'b' {
                res.push('\u{8}');
                i += 2;
            } else if e == 'f' {
                res.push('\u{c}');
                i += 2;
            } else if e == 'n' {
                res.push('\n');
                i += 2;
            } else if e == 'r' {
                res.push('\r');
                i += 2;
            } else if e == 't' {
                res.push('\t');
                i += 2;
            } else if e == '"' {
                res.push('"');
                i += 2;
            } else if e == '\\' {
                res.push('\\');
                i += 2;
            } else if e == 'u' || e == 'U' {
                let width: usize = if e == 'u' {
                    4
                } else {
                    8
                };
                if len - i - 2 < width {
                    push_range(&mut res, &chars, i, len);
                    i = len;
                } else {
                    match read_escaped_char(&chars, i + 2, i + 2 + width) {
                        Some(ch) => res.push(ch),
                        None => push_range(&mut res, &chars, i, i + 2 + width),
                    }
                    i += 2 + width;
                }
            } else {
                res.push('\\');
                res.push(e);
                i += 2;
            }
        }
    }
    res
}

} // verus!
