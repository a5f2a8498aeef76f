//! Display formats: text with placeholders in braces.

use crate::text::{chars_of, string_of};
use vstd::prelude::*;

verus! {

/// A terminal colour that a format can switch to.
#[derive(Clone, Copy, Debug, PartialEq, Eq)]
pub enum Color {
    Black,
    Red,
    Green,
    Yellow,
    Blue,
    Purple,
    Cyan,
    White,
    End,
}

/// One piece of a display format.
#[derive(Debug, PartialEq)]
pub enum Token {
    Name,
    Percent,
    Time,
    Total,
    State,
    Color(Color),
    Literal(String),
}

/// A `Token` with its text as a sequence of characters.
pub ghost enum TokenView {
    Name,
    Percent,
    Time,
    Total,
    State,
    Color(Color),
    Literal(Seq<char>),
}

impl DeepView for Token {
    type V = TokenView;

    open spec fn deep_view(&self) -> TokenView {
        match self {
            Token::Name => TokenView::Name,
            Token::Percent => TokenView::Percent,
            Token::Time => TokenView::Time,
            Token::Total => TokenView::Total,
            Token::State => TokenView::State,
            Token::Color(c) => TokenView::Color(*c),
            Token::Literal(s) => TokenView::Literal(s@),
        }
    }
}

impl Clone for Token {
    fn clone(&self) -> (copy: Token)
        ensures
            copy.deep_view() == self.deep_view(),
    {
        match self {
            Token::Name => Token::Name,
            Token::Percent => Token::Percent,
            Token::Time => Token::Time,
            Token::Total => Token::Total,
            Token::State => Token::State,
            Token::Color(c) => Token::Color(*c),
            Token::Literal(s) => Token::Literal(s.clone()),
        }
    }
}

/// The token that a placeholder, braces included, stands for.
pub open spec fn placeholder(word: Seq<char>) -> Option<TokenView> {
    if word == "{name}"@ {
        Some(TokenView::Name)
    } else if word == "{percent}"@ {
        Some(TokenView::Percent)
    } else if word == "{time}"@ {
        Some(TokenView::Time)
    } else if word == "{total}"@ {
        Some(TokenView::Total)
    } else if word == "{state}"@ {
        Some(TokenView::State)
    } else if word == "{black}"@ {
        Some(TokenView::Color(Color::Black))
    } else if word == "{red}"@ {
        Some(TokenView::Color(Color::Red))
    } else if word == "{green}"@ {
        Some(TokenView::Color(Color::Green))
    } else if word == "{yellow}"@ {
        Some(TokenView::Color(Color::Yellow))
    } else if word == "{blue}"@ {
        Some(TokenView::Color(Color::Blue))
    } else if word == "{purple}"@ {
        Some(TokenView::Color(Color::Purple))
    } else if word == "{cyan}"@ {
        Some(TokenView::Color(Color::Cyan))
    } else if word == "{white}"@ {
        Some(TokenView::Color(Color::White))
    } else if word == "{end}"@ {
        Some(TokenView::Color(Color::End))
    } else {
        None
    }
}

/// The index just past the first `}` at or after `j`.
pub open spec fn closing(s: Seq<char>, j: int) -> Option<int>
    decreases s.len() - j,
{
    if j < 0 || j >= s.len() {
        None
    } else if s[j] == '}' {
        Some(j + 1)
    } else {
        closing(s, j + 1)
    }
}

/// The token of the placeholder that starts at `i`, with the index just past
/// it. A placeholder opens with `{` and runs up to the next `}`.
pub open spec fn placeholder_at(s: Seq<char>, i: int) -> Option<(TokenView, int)> {
    if 0 <= i < s.len() && s[i] == '{' {
        match closing(s, i + 1) {
            Some(end) => match placeholder(s.subrange(i, end)) {
                Some(token) => Some((token, end)),
                None => None,
            },
            None => None,
        }
    } else {
        None
    }
}

/// Plain text as tokens: a literal, or nothing where the text is empty.
pub open spec fn literal(text: Seq<char>) -> Seq<TokenView> {
    if text.len() == 0 {
        Seq::empty()
    } else {
        seq![TokenView::Literal(text)]
    }
}

/// The tokens of `s[k..]`, given that no placeholder starts in `s[k..i]`.
pub open spec fn tokens_from(s: Seq<char>, k: int, i: int) -> Seq<TokenView>
    decreases s.len() - i,
{
    if k < 0 || i < k || i >= s.len() {
        literal(s.subrange(k, s.len() as int))
    } else {
        match placeholder_at(s, i) {
            Some((token, end)) => if i < end <= s.len() {
                literal(s.subrange(k, i)) + seq![token] + tokens_from(s, end, end)
            } else {
                Seq::empty()
            },
            None => tokens_from(s, k, i + 1),
        }
    }
}

/// The tokens of a format: every placeholder becomes its token, and each
/// stretch of text between placeholders becomes one literal.
pub open spec fn parsed_tokens(s: Seq<char>) -> Seq<TokenView> {
    tokens_from(s, 0, 0)
}

/// An index that `closing` gives lies past its start and within the text.
pub proof fn lemma_closing_bounds(s: Seq<char>, j: int)
    requires
        closing(s, j) is Some,
    ensures
        j < closing(s, j)->0 <= s.len(),
    decreases s.len() - j,
{
    if s[j] != '}' {
        lemma_closing_bounds(s, j + 1);
    }
}

/// What a token is written as in a format.
pub open spec fn written(token: TokenView) -> Seq<char> {
    match token {
        TokenView::Name => "{name}"@,
        TokenView::Percent => "{percent}"@,
        TokenView::Time => "{time}"@,
        TokenView::Total => "{total}"@,
        TokenView::State => "{state}"@,
        TokenView::Color(Color::Black) => "{black}"@,
        TokenView::Color(Color::Red) => "{red}"@,
        TokenView::Color(Color::Green) => "{green}"@,
        TokenView::Color(Color::Yellow) => "{yellow}"@,
        TokenView::Color(Color::Blue) => "{blue}"@,
        TokenView::Color(Color::Purple) => "{purple}"@,
        TokenView::Color(Color::Cyan) => "{cyan}"@,
        TokenView::Color(Color::White) => "{white}"@,
        TokenView::Color(Color::End) => "{end}"@,
        TokenView::Literal(text) => text,
    }
}

/// What tokens are written as, one after the other.
pub open spec fn written_all(tokens: Seq<TokenView>) -> Seq<char>
    decreases tokens.len(),
{
    if tokens.len() == 0 {
        Seq::empty()
    } else {
        written(tokens.first()) + written_all(tokens.drop_first())
    }
}

/// Tokens listed one after the other are written one after the other.
pub proof fn lemma_written_all_concat(first: Seq<TokenView>, second: Seq<TokenView>)
    ensures
        written_all(first + second) == written_all(first) + written_all(second),
    decreases first.len(),
{
    if first.len() == 0 {
        assert(first + second == second);
    } else {
        assert((first + second).drop_first() == first.drop_first() + second);
        lemma_written_all_concat(first.drop_first(), second);
    }
}

/// A single token is written as that token is.
pub proof fn lemma_written_one(token: TokenView)
    ensures
        written_all(seq![token]) == written(token),
{
    assert(written_all(Seq::<TokenView>::empty()) == Seq::<char>::empty());
    assert(seq![token].drop_first() == Seq::<TokenView>::empty());
    assert(seq![token].first() == token);
    assert(written(token) + Seq::<char>::empty() == written(token));
}

/// Plain text is written as it is.
pub proof fn lemma_written_literal(text: Seq<char>)
    ensures
        written_all(literal(text)) == text,
{
    if text.len() > 0 {
        lemma_written_one(TokenView::Literal(text));
    }
}

/// The tokens of `s[k..]` are written as `s[k..]`.
pub proof fn lemma_tokens_from_spell(s: Seq<char>, k: int, i: int)
    requires
        0 <= k <= i <= s.len(),
    ensures
        written_all(tokens_from(s, k, i)) == s.subrange(k, s.len() as int),
    decreases s.len() - i,
{
    if i >= s.len() {
        lemma_written_literal(s.subrange(k, s.len() as int));
    } else {
        match placeholder_at(s, i) {
            Some((token, end)) => {
                lemma_closing_bounds(s, i + 1);
                lemma_tokens_from_spell(s, end, end);
                let before = literal(s.subrange(k, i));
                let rest = tokens_from(s, end, end);
                lemma_written_all_concat(before + seq![token], rest);
                lemma_written_all_concat(before, seq![token]);
                lemma_written_one(token);
                lemma_written_literal(s.subrange(k, i));
                assert(written(token) == s.subrange(i, end));
                assert(s.subrange(k, i) + s.subrange(i, end) + s.subrange(end, s.len() as int)
                    == s.subrange(k, s.len() as int));
            },
            None => {
                lemma_tokens_from_spell(s, k, i + 1);
            },
        }
    }
}

/// The tokens of a format are written as the format itself: nothing of it
/// is lost and nothing is added.
pub proof fn lemma_tokens_spell_format(s: Seq<char>)
    ensures
        written_all(parsed_tokens(s)) == s,
{
    lemma_tokens_from_spell(s, 0, 0);
    assert(s.subrange(0, s.len() as int) == s);
}

/// Whether `chars[from..to]` spells `word`.
fn spells(chars: &Vec<char>, from: usize, to: usize, word: &str) -> (same: bool)
    requires
        from <= to <= chars.len(),
    ensures
        same == (chars@.subrange(from as int, to as int) == word@),
{
    let w = chars_of(word);
    if w.len() != to - from {
        return false;
    }
    let mut n: usize = 0;
    while n < w.len()
        invariant
            from <= to <= chars.len(),
            w.len() == to - from,
            w@ == word@,
            n <= w.len(),
            forall|m: int| 0 <= m < n ==> chars@[from + m] == w@[m],
        decreases w.len() - n,
    {
        if chars[from + n] != w[n] {
            assert(chars@.subrange(from as int, to as int)[n as int] != word@[n as int]);
            return false;
        }
        n += 1;
    }
    assert(chars@.subrange(from as int, to as int) =~= word@);
    true
}

/// The token that `chars[from..to]` stands for, braces included.
fn token_of(chars: &Vec<char>, from: usize, to: usize) -> (token: Option<Token>)
    requires
        from <= to <= chars.len(),
    ensures
        token.deep_view() == placeholder(chars@.subrange(from as int, to as int)),
{
    if spells(chars, from, to, "{name}") {
        Some(Token::Name)
    } else if spells(chars, from, to, "{percent}") {
        Some(Token::Percent)
    } else if spells(chars, from, to, "{time}") {
        Some(Token::Time)
    } else if spells(chars, from, to, "{total}") {
        Some(Token::Total)
    } else if spells(chars, from, to, "{state}") {
        Some(Token::State)
    } else if spells(chars, from, to, "{black}") {
        Some(Token::Color(Color::Black))
    } else if spells(chars, from, to, "{red}") {
        Some(Token::Color(Color::Red))
    } else if spells(chars, from, to, "{green}") {
        Some(Token::Color(Color::Green))
    } else if spells(chars, from, to, "{yellow}") {
        Some(Token::Color(Color::Yellow))
    } else if spells(chars, from, to, "{blue}") {
        Some(Token::Color(Color::Blue))
    } else if spells(chars, from, to, "{purple}") {
        Some(Token::Color(Color::Purple))
    } else if spells(chars, from, to, "{cyan}") {
        Some(Token::Color(Color::Cyan))
    } else if spells(chars, from, to, "{white}") {
        Some(Token::Color(Color::White))
    } else if spells(chars, from, to, "{end}") {
        Some(Token::Color(Color::End))
    } else {
        None
    }
}

/// The index just past the first `}` at or after `from`.
fn find_closing(chars: &Vec<char>, from: usize) -> (end: Option<usize>)
    requires
        from <= chars.len(),
    ensures
        match end {
            Some(e) => closing(chars@, from as int) == Some(e as int),
            None => closing(chars@, from as int) is None,
        },
{
    let mut j: usize = from;
    while j < chars.len()
        invariant
            from <= j <= chars.len(),
            closing(chars@, from as int) == closing(chars@, j as int),
        decreases chars.len() - j,
    {
        if chars[j] == '}' {
            return Some(j + 1);
        }
        j += 1;
    }
    None
}

impl Token {
    /// The token that the placeholder `s` stands for, braces included.
    pub fn from_str(s: &str) -> (token: Result<Token, ()>)
        ensures
            match token {
                Ok(t) => placeholder(s@) == Some(t.deep_view()),
                Err(_) => placeholder(s@) is None,
            },
    {
        let chars = chars_of(s);
        assert(chars@.subrange(0, chars.len() as int) == s@);
        match token_of(&chars, 0, chars.len()) {
            Some(t) => Ok(t),
            None => Err(()),
        }
    }

    /// Splits a format into its tokens.
    pub fn parse(format: &str) -> (tokens: Vec<Token>)
        ensures
            tokens.deep_view() == parsed_tokens(format@),
    {
        let chars = chars_of(format);
        let len = chars.len();
        let mut tokens: Vec<Token> = Vec::new();
        let mut k: usize = 0;
        let mut i: usize = 0;
        assert(tokens.deep_view() =~= Seq::<TokenView>::empty());
        while i < len
            invariant
                chars@ == format@,
                len == chars.len(),
                k <= i <= len,
                tokens.deep_view() + tokens_from(chars@, k as int, i as int) == parsed_tokens(
                    chars@,
                ),
            decreases len - i,
        {
            let found = if chars[i] != '{' {
                None
            } else {
                match find_closing(&chars, i + 1) {
                    Some(end) => {
                        proof {
                            lemma_closing_bounds(chars@, i + 1);
                        }
                        match token_of(&chars, i, end) {
                            Some(token) => Some((token, end)),
                            None => None,
                        }
                    },
                    None => None,
                }
            };
            match found {
                Some((token, end)) => {
                    let ghost before = tokens.deep_view();
                    if k != i {
                        tokens.push(Token::Literal(string_of(&chars, k, i)));
                    }
                    assert(tokens.deep_view() =~= before + literal(
                        chars@.subrange(k as int, i as int),
                    ));
                    let ghost middle = tokens.deep_view();
                    let ghost token_view = token.deep_view();
                    tokens.push(token);
                    assert(tokens.deep_view() =~= middle + seq![token_view]);
                    k = end;
                    i = end;
                },
                None => {
                    i += 1;
                },
            }
        }
        let ghost before = tokens.deep_view();
        if k != len {
            tokens.push(Token::Literal(string_of(&chars, k, len)));
        }
        assert(tokens.deep_view() =~= before + literal(chars@.subrange(k as int, len as int)));
        tokens
    }
}

} // verus!
