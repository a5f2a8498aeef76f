//! Sessions and how they are shown.

use crate::table::Table;
use crate::text::{decimal, push_decimal, push_text};
use crate::time::Span;
use crate::time_format::{
    push_time, span_humantime, time_text, TimeFormat, TimeFormatToken, TimeTokenView,
};
use crate::token::{Color, Token, TokenView};
use vstd::prelude::*;

verus! {

/// What a named override may replace of a session's display.
pub struct Overridables {
    pub format: Option<Vec<Token>>,
    pub time_format: Option<Vec<TimeFormatToken>>,
    pub paused_state_text: Option<String>,
    pub resumed_state_text: Option<String>,
}

/// An `Overridables` as plain values.
pub ghost struct OverridablesView {
    pub format: Option<Seq<TokenView>>,
    pub time_format: Option<Seq<TimeTokenView>>,
    pub paused_state_text: Option<Seq<char>>,
    pub resumed_state_text: Option<Seq<char>>,
}

impl DeepView for Overridables {
    type V = OverridablesView;

    open spec fn deep_view(&self) -> OverridablesView {
        OverridablesView {
            format: self.format.deep_view(),
            time_format: self.time_format.deep_view(),
            paused_state_text: self.paused_state_text.deep_view(),
            resumed_state_text: self.resumed_state_text.deep_view(),
        }
    }
}

/// A copy of `tokens`.
pub fn clone_tokens(tokens: &Vec<Token>) -> (copy: Vec<Token>)
    ensures
        copy.deep_view() == tokens.deep_view(),
{
    let mut copy: Vec<Token> = Vec::new();
    let mut i: usize = 0;
    while i < tokens.len()
        invariant
            i <= tokens.len(),
            copy.len() == i,
            forall|j: int| 0 <= j < i ==> copy@[j].deep_view() == tokens@[j].deep_view(),
        decreases tokens.len() - i,
    {
        copy.push(tokens[i].clone());
        i += 1;
    }
    assert(copy.deep_view() =~= tokens.deep_view());
    copy
}

/// A copy of `tokens`.
pub fn clone_time_tokens(tokens: &Vec<TimeFormatToken>) -> (copy: Vec<TimeFormatToken>)
    ensures
        copy.deep_view() == tokens.deep_view(),
{
    let mut copy: Vec<TimeFormatToken> = Vec::new();
    let mut i: usize = 0;
    while i < tokens.len()
        invariant
            i <= tokens.len(),
            copy.len() == i,
            forall|j: int| 0 <= j < i ==> copy@[j].deep_view() == tokens@[j].deep_view(),
        decreases tokens.len() - i,
    {
        copy.push(tokens[i].clone());
        i += 1;
    }
    assert(copy.deep_view() =~= tokens.deep_view());
    copy
}

impl Clone for Overridables {
    fn clone(&self) -> (copy: Overridables)
        ensures
            copy.deep_view() == self.deep_view(),
    {
        Overridables {
            format: match &self.format {
                Some(tokens) => Some(clone_tokens(tokens)),
                None => None,
            },
            time_format: match &self.time_format {
                Some(tokens) => Some(clone_time_tokens(tokens)),
                None => None,
            },
            paused_state_text: self.paused_state_text.clone(),
            resumed_state_text: self.resumed_state_text.clone(),
        }
    }
}

impl Default for Overridables {
    fn default() -> (overrid: Overridables)
        ensures
            overrid.deep_view() == (OverridablesView {
                format: None,
                time_format: None,
                paused_state_text: None,
                resumed_state_text: None,
            }),
    {
        Overridables {
            format: None,
            time_format: None,
            paused_state_text: None,
            resumed_state_text: None,
        }
    }
}

impl Overridables {
    /// An override that replaces nothing.
    pub fn new() -> (overrid: Overridables)
        ensures
            overrid.deep_view() == (OverridablesView {
                format: None,
                time_format: None,
                paused_state_text: None,
                resumed_state_text: None,
            }),
    {
        Overridables {
            format: None,
            time_format: None,
            paused_state_text: None,
            resumed_state_text: None,
        }
    }

    /// This override with its format replaced by the tokens of `format`.
    pub fn format(self, format: &str) -> (overrid: Overridables)
        ensures
            overrid.deep_view() == (OverridablesView {
                format: Some(crate::token::parsed_tokens(format@)),
                ..self.deep_view()
            }),
    {
        Overridables {
            format: Some(Token::parse(format)),
            time_format: self.time_format,
            paused_state_text: self.paused_state_text,
            resumed_state_text: self.resumed_state_text,
        }
    }
}

/// One timed interval of the configured run.
pub struct Session {
    pub id: String,
    pub name: String,
    pub duration: Span,
    pub command: String,
    pub format: Vec<Token>,
    pub time_format: Vec<TimeFormatToken>,
    pub autostart: bool,
    pub paused_state_text: String,
    pub resumed_state_text: String,
    pub overrides: Table<Overridables>,
}

/// A `Session` as plain values; `duration` is in nanoseconds.
pub ghost struct SessionView {
    pub id: Seq<char>,
    pub name: Seq<char>,
    pub duration: nat,
    pub command: Seq<char>,
    pub format: Seq<TokenView>,
    pub time_format: Seq<TimeTokenView>,
    pub autostart: bool,
    pub paused_state_text: Seq<char>,
    pub resumed_state_text: Seq<char>,
    pub overrides: Map<Seq<char>, OverridablesView>,
}

impl DeepView for Session {
    type V = SessionView;

    open spec fn deep_view(&self) -> SessionView {
        SessionView {
            id: self.id@,
            name: self.name@,
            duration: self.duration@,
            command: self.command@,
            format: self.format.deep_view(),
            time_format: self.time_format.deep_view(),
            autostart: self.autostart,
            paused_state_text: self.paused_state_text@,
            resumed_state_text: self.resumed_state_text@,
            overrides: self.overrides.deep_view(),
        }
    }
}

/// What is needed to write out a session at one moment: the session's name
/// and length, the time to show, and the formats and state text in force.
/// Times are in nanoseconds.
pub ghost struct Shown {
    pub name: Seq<char>,
    pub duration: nat,
    pub time: nat,
    pub format: Seq<TokenView>,
    pub time_format: Seq<TimeTokenView>,
    pub state_text: Seq<char>,
}

/// How `session` is shown at `time`, counting (`resumed`) or halted, under
/// an optional override: what the override gives replaces the session's own
/// format, time format and state text, and the rest stays the session's.
pub open spec fn shown(
    session: SessionView,
    time: nat,
    overrid: Option<OverridablesView>,
    resumed: bool,
) -> Shown {
    let own_state = if resumed {
        session.resumed_state_text
    } else {
        session.paused_state_text
    };
    match overrid {
        Some(o) => {
            let given_state = if resumed {
                o.resumed_state_text
            } else {
                o.paused_state_text
            };
            Shown {
                name: session.name,
                duration: session.duration,
                time,
                format: if o.format is Some {
                    o.format->0
                } else {
                    session.format
                },
                time_format: if o.time_format is Some {
                    o.time_format->0
                } else {
                    session.time_format
                },
                state_text: if given_state is Some {
                    given_state->0
                } else {
                    own_state
                },
            }
        },
        None => Shown {
            name: session.name,
            duration: session.duration,
            time,
            format: session.format,
            time_format: session.time_format,
            state_text: own_state,
        },
    }
}

/// The escape sequence that switches a terminal to `color`.
pub open spec fn color_code(color: Color) -> Seq<char> {
    match color {
        Color::Black => seq!['\u{1b}', '[', '0', ';', '3', '0', 'm'],
        Color::Red => seq!['\u{1b}', '[', '0', ';', '3', '1', 'm'],
        Color::Green => seq!['\u{1b}', '[', '0', ';', '3', '2', 'm'],
        Color::Yellow => seq!['\u{1b}', '[', '0', ';', '3', '3', 'm'],
        Color::Blue => seq!['\u{1b}', '[', '0', ';', '3', '4', 'm'],
        Color::Purple => seq!['\u{1b}', '[', '0', ';', '3', '5', 'm'],
        Color::Cyan => seq!['\u{1b}', '[', '0', ';', '3', '6', 'm'],
        Color::White => seq!['\u{1b}', '[', '0', ';', '3', '7', 'm'],
        Color::End => seq!['\u{1b}', '[', '0', 'm'],
    }
}

/// What one token writes. `percent` is the share of the session's length
/// that the shown time makes up, and `total` the session's length in words.
pub open spec fn token_text(token: TokenView, s: Shown, percent: u8, total: Seq<char>) -> Seq<
    char,
> {
    match token {
        TokenView::Name => s.name,
        TokenView::Percent => decimal(percent as nat),
        TokenView::Time => time_text(s.time_format, s.time / 1_000_000_000),
        TokenView::Total => total,
        TokenView::State => s.state_text,
        TokenView::Color(c) => color_code(c),
        TokenView::Literal(text) => text,
    }
}

/// What the tokens `s.format[i..]` write, one after the other.
pub open spec fn shown_text_from(s: Shown, i: int, percent: u8, total: Seq<char>) -> Seq<char>
    decreases s.format.len() - i,
{
    if i < 0 || i >= s.format.len() {
        Seq::empty()
    } else {
        token_text(s.format[i], s, percent, total) + shown_text_from(s, i + 1, percent, total)
    }
}

/// The text that shows a session.
pub open spec fn shown_text(s: Shown, percent: u8, total: Seq<char>) -> Seq<char> {
    shown_text_from(s, 0, percent, total)
}

/// A time together with the format that writes it.
struct DisplayableTime<'s> {
    time: Span,
    format: &'s [TimeFormatToken],
}

impl<'s> DisplayableTime<'s> {
    /// Appends the time to `out` as its format writes it.
    fn push_to(&self, out: &mut String)
        ensures
            final(out)@ == old(out)@ + time_text(
                self.format.deep_view(),
                self.time@ / 1_000_000_000,
            ),
    {
        push_time(out, self.format, self.time.as_secs());
    }
}

/// A session at one moment, ready to be written out. `R` says whether the
/// session is counting.
pub struct DisplayableSession<'s, const R: bool> {
    session: &'s Session,
    time: DisplayableTime<'s>,
    format: &'s [Token],
    pst_override: Option<&'s str>,
    rst_override: Option<&'s str>,
}

impl<'s, const R: bool> DisplayableSession<'s, R> {
    /// What this value shows.
    pub closed spec fn view(&self) -> Shown {
        Shown {
            name: self.session.name@,
            duration: self.session.duration@,
            time: self.time.time@,
            format: self.format.deep_view(),
            time_format: self.time.format.deep_view(),
            state_text: if R {
                if self.rst_override is Some {
                    self.rst_override->0@
                } else {
                    self.session.resumed_state_text@
                }
            } else {
                if self.pst_override is Some {
                    self.pst_override->0@
                } else {
                    self.session.paused_state_text@
                }
            },
        }
    }

    /// Writes the session out, given the text for its length.
    pub fn render_with(&self, percent: u8, total: &str) -> (text: String)
        ensures
            text@ == shown_text(self.view(), percent, total@),
    {
        let ghost s = self.view();
        let mut text = String::new();
        let mut i: usize = 0;
        while i < self.format.len()
            invariant
                i <= self.format.len(),
                s == self.view(),
                s.format == self.format.deep_view(),
                text@ + shown_text_from(s, i as int, percent, total@) == shown_text(
                    s,
                    percent,
                    total@,
                ),
            decreases self.format.len() - i,
        {
            assert(s.format[i as int] == self.format@[i as int].deep_view());
            let ghost before = text@;
            match &self.format[i] {
                Token::Name => push_text(&mut text, self.session.name.as_str()),
                Token::Percent => push_decimal(&mut text, percent as u64),
                Token::Time => self.time.push_to(&mut text),
                Token::Total => push_text(&mut text, total),
                Token::State => {
                    let state: &str = if R {
                        match self.rst_override {
                            Some(t) => t,
                            None => self.session.resumed_state_text.as_str(),
                        }
                    } else {
                        match self.pst_override {
                            Some(t) => t,
                            None => self.session.paused_state_text.as_str(),
                        }
                    };
                    push_text(&mut text, state)
                },
                Token::Color(c) => push_color(&mut text, *c),
                Token::Literal(literal) => push_text(&mut text, literal.as_str()),
            }
            assert(text@ == before + token_text(s.format[i as int], s, percent, total@));
            i += 1;
        }
        text
    }

    /// Writes the session out. `percent` is the share of the session's
    /// length that the shown time makes up.
    pub fn render(&self, percent: u8) -> (text: String)
        ensures
            text@ == shown_text(self.view(), percent, span_humantime(self.view().duration)),
    {
        let total = TimeFormat::humantime(self.session.duration);
        self.render_with(percent, total.as_str())
    }
}

fn push_color(out: &mut String, color: Color)
    ensures
        final(out)@ == old(out)@ + color_code(color),
{
    out.push('\u{1b}');
    out.push('[');
    out.push('0');
    match color {
        Color::End => {},
        _ => {
            out.push(';');
            out.push('3');
            out.push(
                match color {
                    Color::Black => '0',
                    Color::Red => '1',
                    Color::Green => '2',
                    Color::Yellow => '3',
                    Color::Blue => '4',
                    Color::Purple => '5',
                    Color::Cyan => '6',
                    _ => '7',
                },
            );
        },
    }
    out.push('m');
    assert(out@ =~= old(out)@ + color_code(color));
}

/// What is to be run when a session ends: the session's command, with the
/// session's name and its length in words for the command to use.
#[derive(Debug, PartialEq)]
pub struct EndAction {
    pub name: String,
    pub duration: String,
    pub command: String,
}

/// An `EndAction` as plain values.
pub ghost struct EndActionView {
    pub name: Seq<char>,
    pub duration: Seq<char>,
    pub command: Seq<char>,
}

impl DeepView for EndAction {
    type V = EndActionView;

    open spec fn deep_view(&self) -> EndActionView {
        EndActionView { name: self.name@, duration: self.duration@, command: self.command@ }
    }
}

/// What is to be run when `session` ends: nothing where it has no command.
pub open spec fn end_action_of(session: SessionView) -> Option<EndActionView> {
    if session.command.len() == 0 {
        None
    } else {
        Some(
            EndActionView {
                name: session.name,
                duration: span_humantime(session.duration),
                command: session.command,
            },
        )
    }
}

impl Session {
    /// What is to be run when this session ends.
    pub fn end_action(&self) -> (action: Option<EndAction>)
        ensures
            action.deep_view() == end_action_of(self.deep_view()),
    {
        if self.command.as_str().is_empty() {
            None
        } else {
            Some(
                EndAction {
                    name: self.name.clone(),
                    duration: TimeFormat::humantime(self.duration),
                    command: self.command.clone(),
                },
            )
        }
    }

    /// This session at `time`, shown under `overrid` where one is given.
    pub fn display<'s, const R: bool>(
        &'s self,
        time: Span,
        overrid: Option<&'s Overridables>,
    ) -> (d: DisplayableSession<'s, R>)
        ensures
            d@ == shown(self.deep_view(), time@, overrid.deep_view(), R),
    {
        let time_format: &'s [TimeFormatToken] = match overrid {
            Some(o) => match &o.time_format {
                Some(f) => f.as_slice(),
                None => self.time_format.as_slice(),
            },
            None => self.time_format.as_slice(),
        };
        let format: &'s [Token] = match overrid {
            Some(o) => match &o.format {
                Some(f) => f.as_slice(),
                None => self.format.as_slice(),
            },
            None => self.format.as_slice(),
        };
        let pst_override: Option<&'s str> = match overrid {
            Some(o) => match &o.paused_state_text {
                Some(t) => Some(t.as_str()),
                None => None,
            },
            None => None,
        };
        let rst_override: Option<&'s str> = match overrid {
            Some(o) => match &o.resumed_state_text {
                Some(t) => Some(t.as_str()),
                None => None,
            },
            None => None,
        };
        DisplayableSession {
            session: self,
            time: DisplayableTime { time, format: time_format },
            format,
            pst_override,
            rst_override,
        }
    }
}

} // verus!
