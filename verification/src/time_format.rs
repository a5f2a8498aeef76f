//! Time formats: how a remaining time is written out.

use crate::text::{chars_of, decimal, padded, push_decimal, push_decimal_padded, string_of};
use crate::time::Span;
use vstd::prelude::*;

verus! {

/// A unit of time that a time format can show.
#[derive(Clone, Copy, Debug, PartialEq, Eq)]
pub enum Numeric {
    Year,
    Month,
    Day,
    Hour,
    Minute,
    Second,
}

/// How a number narrower than two digits is filled up.
#[derive(Clone, Copy, Debug, PartialEq, Eq)]
pub enum Pad {
    Zero,
    Space,
    Unpadded,
}

/// One piece of a time format.
///
/// A `Numeric` shows one unit, padded as told; its flag asks to leave the
/// unit out, together with the text behind it, while the unit is zero.
#[derive(Debug, PartialEq)]
pub enum TimeFormatToken {
    Numeric(Numeric, Pad, bool),
    Literal(String),
    Plural,
}

/// A `TimeFormatToken` with its text as a sequence of characters.
pub ghost enum TimeTokenView {
    Numeric(Numeric, Pad, bool),
    Literal(Seq<char>),
    Plural,
}

impl DeepView for TimeFormatToken {
    type V = TimeTokenView;

    open spec fn deep_view(&self) -> TimeTokenView {
        match self {
            TimeFormatToken::Numeric(n, pad, skip) => TimeTokenView::Numeric(*n, *pad, *skip),
            TimeFormatToken::Literal(s) => TimeTokenView::Literal(s@),
            TimeFormatToken::Plural => TimeTokenView::Plural,
        }
    }
}

impl Clone for TimeFormatToken {
    fn clone(&self) -> (copy: TimeFormatToken)
        ensures
            copy.deep_view() == self.deep_view(),
    {
        match self {
            TimeFormatToken::Numeric(n, pad, skip) => TimeFormatToken::Numeric(*n, *pad, *skip),
            TimeFormatToken::Literal(s) => TimeFormatToken::Literal(s.clone()),
            TimeFormatToken::Plural => TimeFormatToken::Plural,
        }
    }
}

/// Seconds in a year of 365.25 days.
pub const YEAR_SECS: u64 = 31_557_600;

/// Seconds in a month of 30.44 days.
pub const MONTH_SECS: u64 = 2_630_016;

/// Seconds in a day.
pub const DAY_SECS: u64 = 86_400;

/// How many of the unit `n` a time of `secs` seconds holds, once the larger
/// units are taken out.
pub open spec fn numeric_value(n: Numeric, secs: nat) -> nat {
    let in_year = secs % 31_557_600;
    let in_month = in_year % 2_630_016;
    let in_day = in_month % 86_400;
    match n {
        Numeric::Year => secs / 31_557_600,
        Numeric::Month => in_year / 2_630_016,
        Numeric::Day => in_month / 86_400,
        Numeric::Hour => in_day / 3600,
        Numeric::Minute => in_day % 3600 / 60,
        Numeric::Second => in_day % 60,
    }
}

/// A number as a time format writes it.
pub open spec fn numeric_text(value: nat, pad: Pad) -> Seq<char> {
    match pad {
        Pad::Zero => padded(decimal(value), 2, '0'),
        Pad::Space => padded(decimal(value), 2, ' '),
        Pad::Unpadded => decimal(value),
    }
}

/// What one token writes for a time of `secs` seconds.
///
/// `skip` says that the last unit was left out, so that the text up to the
/// next unit is left out too; `plural` says that the last unit shown was
/// greater than one.
pub open spec fn time_token_text(token: TimeTokenView, secs: nat, skip: bool, plural: bool) -> Seq<
    char,
> {
    match token {
        TimeTokenView::Numeric(n, pad, optional) => {
            let value = numeric_value(n, secs);
            if optional && value == 0 {
                Seq::empty()
            } else {
                numeric_text(value, pad)
            }
        },
        TimeTokenView::Literal(text) => if skip {
            Seq::empty()
        } else {
            text
        },
        TimeTokenView::Plural => if !skip && plural {
            seq!['s']
        } else {
            Seq::empty()
        },
    }
}

/// What `skip` and `plural` are behind one token: a unit that is left out
/// sets `skip`, a unit that is shown clears it and sets `plural` by its
/// value, and other tokens change neither.
pub open spec fn time_state_after(token: TimeTokenView, secs: nat, skip: bool, plural: bool) -> (
    bool,
    bool,
) {
    match token {
        TimeTokenView::Numeric(n, pad, optional) => {
            let value = numeric_value(n, secs);
            if optional && value == 0 {
                (true, plural)
            } else {
                (false, value > 1)
            }
        },
        _ => (skip, plural),
    }
}

/// What `tokens[i..]` write for a time of `secs` seconds, one after the other.
pub open spec fn time_text_from(
    tokens: Seq<TimeTokenView>,
    i: int,
    secs: nat,
    skip: bool,
    plural: bool,
) -> Seq<char>
    decreases tokens.len() - i,
{
    if i < 0 || i >= tokens.len() {
        Seq::empty()
    } else {
        let state = time_state_after(tokens[i], secs, skip, plural);
        time_token_text(tokens[i], secs, skip, plural) + time_text_from(
            tokens,
            i + 1,
            secs,
            state.0,
            state.1,
        )
    }
}

/// What a time format writes for a time of `secs` seconds.
pub open spec fn time_text(tokens: Seq<TimeTokenView>, secs: nat) -> Seq<char> {
    time_text_from(tokens, 0, secs, false, false)
}

fn numeric_of(n: Numeric, secs: u64) -> (value: u64)
    ensures
        value == numeric_value(n, secs as nat),
{
    let in_year = secs % YEAR_SECS;
    let in_month = in_year % MONTH_SECS;
    let in_day = in_month % DAY_SECS;
    match n {
        Numeric::Year => secs / YEAR_SECS,
        Numeric::Month => in_year / MONTH_SECS,
        Numeric::Day => in_month / DAY_SECS,
        Numeric::Hour => in_day / 3600,
        Numeric::Minute => in_day % 3600 / 60,
        Numeric::Second => in_day % 60,
    }
}

/// Appends to `out` what one token writes, and gives the new `skip` and `plural`.
fn push_time_token(out: &mut String, token: &TimeFormatToken, secs: u64, skip: bool, plural: bool)
    -> (state: (bool, bool))
    ensures
        state == time_state_after(token.deep_view(), secs as nat, skip, plural),
        final(out)@ == old(out)@ + time_token_text(token.deep_view(), secs as nat, skip, plural),
{
    match token {
        TimeFormatToken::Numeric(n, pad, optional) => {
            let value = numeric_of(*n, secs);
            if *optional && value == 0 {
                assert(out@ =~= old(out)@ + Seq::<char>::empty());
                (true, plural)
            } else {
                match pad {
                    Pad::Zero => push_decimal_padded(out, value, '0'),
                    Pad::Space => push_decimal_padded(out, value, ' '),
                    Pad::Unpadded => push_decimal(out, value),
                }
                (false, value > 1)
            }
        },
        TimeFormatToken::Literal(text) => {
            if !skip {
                crate::text::push_text(out, text.as_str());
            }
            assert(out@ =~= old(out)@ + time_token_text(
                token.deep_view(),
                secs as nat,
                skip,
                plural,
            ));
            (skip, plural)
        },
        TimeFormatToken::Plural => {
            if !skip && plural {
                out.push('s');
            }
            assert(out@ =~= old(out)@ + time_token_text(
                token.deep_view(),
                secs as nat,
                skip,
                plural,
            ));
            (skip, plural)
        },
    }
}

/// Appends to `out` what the time format `tokens` writes for `secs` seconds.
pub fn push_time(out: &mut String, tokens: &[TimeFormatToken], secs: u64)
    ensures
        final(out)@ == old(out)@ + time_text(tokens.deep_view(), secs as nat),
{
    let ghost views = tokens.deep_view();
    let mut skip = false;
    let mut plural = false;
    let mut i: usize = 0;
    while i < tokens.len()
        invariant
            views == tokens.deep_view(),
            i <= tokens.len(),
            out@ + time_text_from(views, i as int, secs as nat, skip, plural) == old(out)@
                + time_text(views, secs as nat),
        decreases tokens.len() - i,
    {
        assert(views[i as int] == tokens@[i as int].deep_view());
        let ghost before = out@;
        let ghost piece = time_token_text(views[i as int], secs as nat, skip, plural);
        let ghost rest = time_text_from(views, i as int, secs as nat, skip, plural);
        let state = push_time_token(out, &tokens[i], secs, skip, plural);
        assert(rest == piece + time_text_from(views, i + 1, secs as nat, state.0, state.1));
        skip = state.0;
        plural = state.1;
        i += 1;
        assert(out@ + time_text_from(views, i as int, secs as nat, skip, plural) =~= before
            + rest);
    }
}

/// Whether `c` is a padding flag.
pub open spec fn is_flag(c: char) -> bool {
    c == '-' || c == '_' || c == '0'
}

/// The characters of an optional character.
pub open spec fn optional_char(c: Option<char>) -> Seq<char> {
    match c {
        Some(c) => seq![c],
        None => Seq::empty(),
    }
}

/// The token that a `%` directive stands for: `star` asks to leave a zero
/// unit out, `flag` picks the padding, and `spec` names the unit. A directive
/// that names no unit is kept as the text that wrote it.
pub open spec fn identified(star: Option<char>, flag: Option<char>, spec: Option<char>)
    -> TimeTokenView {
    let skip = star is Some;
    let pad = if flag == Some('-') {
        Pad::Unpadded
    } else if flag == Some('_') {
        Pad::Space
    } else {
        Pad::Zero
    };
    if spec == Some('Y') {
        TimeTokenView::Numeric(Numeric::Year, pad, skip)
    } else if spec == Some('B') {
        TimeTokenView::Numeric(Numeric::Month, pad, skip)
    } else if spec == Some('D') {
        TimeTokenView::Numeric(Numeric::Day, pad, skip)
    } else if spec == Some('H') {
        TimeTokenView::Numeric(Numeric::Hour, pad, skip)
    } else if spec == Some('M') {
        TimeTokenView::Numeric(Numeric::Minute, pad, skip)
    } else if spec == Some('S') {
        TimeTokenView::Numeric(Numeric::Second, pad, skip)
    } else if spec == Some('P') {
        TimeTokenView::Plural
    } else {
        TimeTokenView::Literal(
            seq!['%'] + optional_char(star) + optional_char(flag) + optional_char(spec),
        )
    }
}

/// The first index at or after `i` that holds a `%`, or the length of `s`.
pub open spec fn next_percent(s: Seq<char>, i: int) -> int
    decreases s.len() - i,
{
    if i < 0 || i >= s.len() {
        s.len() as int
    } else if s[i] == '%' {
        i
    } else {
        next_percent(s, i + 1)
    }
}

/// The character at `i`, where there is one and it satisfies `wanted`.
pub open spec fn char_at(s: Seq<char>, i: int, wanted: spec_fn(char) -> bool) -> Option<char> {
    if 0 <= i < s.len() && wanted(s[i]) {
        Some(s[i])
    } else {
        None
    }
}

/// The index behind an optional character that starts at `i`.
pub open spec fn behind(i: int, c: Option<char>) -> int {
    if c is Some {
        i + 1
    } else {
        i
    }
}

/// The tokens of `s[i..]`.
///
/// A `%` opens a directive: an optional `*`, an optional padding flag and
/// one more character, as far as the text reaches. Text before the next `%`
/// is one literal.
pub open spec fn time_tokens_from(s: Seq<char>, i: int) -> Seq<TimeTokenView>
    decreases s.len() - i,
{
    if i < 0 || i >= s.len() {
        Seq::empty()
    } else if s[i] == '%' {
        let star = char_at(s, i + 1, |c: char| c == '*');
        let a = behind(i + 1, star);
        let flag = char_at(s, a, |c: char| is_flag(c));
        let b = behind(a, flag);
        let spec = char_at(s, b, |c: char| true);
        let c = behind(b, spec);
        seq![identified(star, flag, spec)] + time_tokens_from(s, c)
    } else {
        let end = next_percent(s, i);
        if i < end <= s.len() {
            seq![TimeTokenView::Literal(s.subrange(i, end))] + time_tokens_from(s, end)
        } else {
            Seq::empty()
        }
    }
}

/// The tokens of a time format.
pub open spec fn parsed_time_tokens(s: Seq<char>) -> Seq<TimeTokenView> {
    time_tokens_from(s, 0)
}

/// The next `%` lies no earlier than where the search starts, and within the text.
pub proof fn lemma_next_percent_bounds(s: Seq<char>, i: int)
    requires
        0 <= i <= s.len(),
    ensures
        i <= next_percent(s, i) <= s.len(),
        i < s.len() && s[i] != '%' ==> i < next_percent(s, i),
    decreases s.len() - i,
{
    if i < s.len() && s[i] != '%' {
        lemma_next_percent_bounds(s, i + 1);
    }
}

fn find_percent(chars: &Vec<char>, from: usize) -> (end: usize)
    requires
        from <= chars.len(),
    ensures
        end == next_percent(chars@, from as int),
        from <= end <= chars.len(),
{
    let mut j: usize = from;
    while j < chars.len() && chars[j] != '%'
        invariant
            from <= j <= chars.len(),
            next_percent(chars@, from as int) == next_percent(chars@, j as int),
        decreases chars.len() - j,
    {
        j += 1;
    }
    j
}

impl TimeFormatToken {
    /// Splits a time format into its tokens.
    pub fn parse(format: &str) -> (tokens: Vec<TimeFormatToken>)
        ensures
            tokens.deep_view() == parsed_time_tokens(format@),
    {
        let chars = chars_of(format);
        let len = chars.len();
        let mut tokens: Vec<TimeFormatToken> = Vec::new();
        let mut i: usize = 0;
        assert(tokens.deep_view() =~= Seq::<TimeTokenView>::empty());
        while i < len
            invariant
                chars@ == format@,
                len == chars.len(),
                i <= len,
                tokens.deep_view() + time_tokens_from(chars@, i as int) == parsed_time_tokens(
                    chars@,
                ),
            decreases len - i,
        {
            let ghost before = tokens.deep_view();
            if chars[i] == '%' {
                let mut at: usize = i + 1;
                let star = if at < len && chars[at] == '*' {
                    at += 1;
                    Some('*')
                } else {
                    None
                };
                let flag = if at < len && (chars[at] == '-' || chars[at] == '_' || chars[at]
                    == '0') {
                    at += 1;
                    Some(chars[at - 1])
                } else {
                    None
                };
                let spec = if at < len {
                    at += 1;
                    Some(chars[at - 1])
                } else {
                    None
                };
                let token = Self::identify((star, flag, spec));
                let ghost view = token.deep_view();
                tokens.push(token);
                assert(tokens.deep_view() =~= before + seq![view]);
                i = at;
            } else {
                let end = find_percent(&chars, i);
                proof {
                    lemma_next_percent_bounds(chars@, i as int);
                }
                let token = TimeFormatToken::Literal(string_of(&chars, i, end));
                let ghost view = token.deep_view();
                tokens.push(token);
                assert(tokens.deep_view() =~= before + seq![view]);
                i = end;
            }
        }
        tokens
    }

    /// The token that the parts of a `%` directive stand for.
    pub fn identify(parts: (Option<char>, Option<char>, Option<char>)) -> (token: TimeFormatToken)
        requires
            parts.1 is Some ==> is_flag(parts.1->0),
        ensures
            token.deep_view() == identified(parts.0, parts.1, parts.2),
    {
        let (star, flag, spec) = parts;
        let skip = star.is_some();
        let pad = match flag {
            Some('-') => Pad::Unpadded,
            Some('_') => Pad::Space,
            _ => Pad::Zero,
        };
        match spec {
            Some('Y') => TimeFormatToken::Numeric(Numeric::Year, pad, skip),
            Some('B') => TimeFormatToken::Numeric(Numeric::Month, pad, skip),
            Some('D') => TimeFormatToken::Numeric(Numeric::Day, pad, skip),
            Some('H') => TimeFormatToken::Numeric(Numeric::Hour, pad, skip),
            Some('M') => TimeFormatToken::Numeric(Numeric::Minute, pad, skip),
            Some('S') => TimeFormatToken::Numeric(Numeric::Second, pad, skip),
            Some('P') => TimeFormatToken::Plural,
            _ => {
                let mut l = String::new();
                l.push('%');
                if let Some(s) = star {
                    l.push(s);
                }
                if let Some(f) = flag {
                    l.push(f);
                }
                if let Some(c) = spec {
                    l.push(c);
                }
                assert(l@ =~= seq!['%'] + optional_char(star) + optional_char(flag)
                    + optional_char(spec));
                TimeFormatToken::Literal(l)
            },
        }
    }
}

/// What `humantime::format_duration` writes for a duration of `secs` seconds
/// and `nanos` nanoseconds.
pub uninterp spec fn humantime_text(secs: u64, nanos: u32) -> Seq<char>;

/// What `humantime::format_duration` writes for a span of `total` nanoseconds.
pub open spec fn span_humantime(total: nat) -> Seq<char> {
    humantime_text((total / 1_000_000_000) as u64, (total % 1_000_000_000) as u32)
}

/// Calls `humantime::format_duration` on the duration of `secs` seconds and
/// `nanos` nanoseconds and takes the text it displays. The crate leaves the
/// exact wording open, so the contract only names the text: it is the same
/// for the same duration.
#[verifier::external_body]
fn humantime_string(secs: u64, nanos: u32) -> (text: String)
    requires
        nanos < 1_000_000_000,
    ensures
        text@ == humantime_text(secs, nanos),
{
    humantime::format_duration(std::time::Duration::new(secs, nanos)).to_string()
}

/// A time of `secs` seconds as `MM:SS`, or as `HH:MM:SS` from one hour on.
pub open spec fn min_sec_text(secs: nat) -> Seq<char> {
    let hours = padded(decimal(secs / 3600), 2, '0');
    let minutes = padded(decimal((secs / 60) % 60), 2, '0');
    let seconds = padded(decimal(secs % 60), 2, '0');
    if secs >= 3600 {
        hours + seq![':'] + minutes + seq![':'] + seconds
    } else {
        minutes + seq![':'] + seconds
    }
}

/// A ready-made way to write a duration.
#[derive(Clone, Copy, Debug, PartialEq, Eq)]
pub enum TimeFormat {
    Humantime,
    MinSec,
}

impl TimeFormat {
    /// Writes `duration` the way this format asks for.
    pub fn format_duration(&self, duration: Span) -> (text: String)
        requires
            self is MinSec ==> duration@ < 86_400 * 1_000_000_000,
        ensures
            text@ == match self {
                TimeFormat::Humantime => span_humantime(duration@),
                TimeFormat::MinSec => min_sec_text(duration@ / 1_000_000_000),
            },
    {
        match self {
            TimeFormat::Humantime => Self::humantime(duration),
            TimeFormat::MinSec => Self::min_sec(duration),
        }
    }

    /// Writes `duration` in words, as `humantime` does.
    pub fn humantime(duration: Span) -> (text: String)
        ensures
            text@ == span_humantime(duration@),
    {
        humantime_string(duration.as_secs(), duration.subsec_nanos())
    }

    /// Writes `duration` as `MM:SS`, or as `HH:MM:SS` from one hour on.
    /// A duration of a day or more has no such form.
    pub fn min_sec(duration: Span) -> (text: String)
        requires
            duration@ < 86_400 * 1_000_000_000,
        ensures
            text@ == min_sec_text(duration@ / 1_000_000_000),
    {
        let secs = duration.as_secs();
        let hours = secs / 3600;
        let minutes = (secs / 60) % 60;
        let seconds = secs % 60;
        let mut text = String::new();
        if secs >= 3600 {
            push_decimal_padded(&mut text, hours, '0');
            text.push(':');
        }
        push_decimal_padded(&mut text, minutes, '0');
        text.push(':');
        push_decimal_padded(&mut text, seconds, '0');
        assert(text@ =~= min_sec_text(secs as nat));
        text
    }
}

} // verus!
