//! The configuration of a run, and how it is built from what a
//! configuration file gives.

use crate::session::{Overridables, OverridablesView, Session, SessionView};
use crate::table::{
    lemma_table_map_concat, lemma_table_map_remade, lookup, overlaid, remade, remade_entry,
    Table,
};
use crate::time::Span;
use crate::time_format::{parsed_time_tokens, TimeFormatToken};
use crate::token::{parsed_tokens, Token};
use vstd::prelude::*;

verus! {

/// A run as the scheduler takes it: the sessions in order, the number of
/// passes over them (`None` for a run without end), and how to start.
pub struct Config {
    pub iterations: Option<u64>,
    pub pause_at_start: bool,
    pub startup_text: String,
    pub sessions: Vec<Session>,
}

/// A `Config` as plain values.
pub ghost struct ConfigView {
    pub iterations: Option<u64>,
    pub pause_at_start: bool,
    pub startup_text: Seq<char>,
    pub sessions: Seq<SessionView>,
}

impl DeepView for Config {
    type V = ConfigView;

    open spec fn deep_view(&self) -> ConfigView {
        ConfigView {
            iterations: self.iterations,
            pause_at_start: self.pause_at_start,
            startup_text: self.startup_text@,
            sessions: self.sessions.deep_view(),
        }
    }
}

impl Default for Config {
    fn default() -> (config: Config)
        ensures
            config.deep_view() == (ConfigView {
                iterations: None,
                pause_at_start: false,
                startup_text: Seq::empty(),
                sessions: Seq::empty(),
            }),
    {
        let config = Config {
            iterations: None,
            pause_at_start: false,
            startup_text: String::new(),
            sessions: Vec::new(),
        };
        assert(config.sessions.deep_view() =~= Seq::empty());
        config
    }
}

/// The index of the session that `id` names: the last one that carries it.
pub open spec fn index_of_id(sessions: Seq<SessionView>, id: Seq<char>) -> Option<int>
    decreases sessions.len(),
{
    if sessions.len() == 0 {
        None
    } else if sessions.last().id == id {
        Some(sessions.len() - 1)
    } else {
        index_of_id(sessions.drop_last(), id)
    }
}

/// What `index_of_id` gives is an index of a session with that id, and no
/// session after it has the id.
pub proof fn lemma_index_of_id(sessions: Seq<SessionView>, id: Seq<char>)
    ensures
        match index_of_id(sessions, id) {
            Some(i) => 0 <= i < sessions.len() && sessions[i].id == id && forall|j: int|
                i < j < sessions.len() ==> sessions[j].id != id,
            None => forall|j: int| 0 <= j < sessions.len() ==> sessions[j].id != id,
        },
    decreases sessions.len(),
{
    if sessions.len() > 0 && sessions.last().id != id {
        let shorter = sessions.drop_last();
        lemma_index_of_id(shorter, id);
        assert(forall|j: int| 0 <= j < shorter.len() ==> shorter[j] == sessions[j]);
    }
}

impl Config {
    /// The index of the session that `id` names.
    pub fn index_of(&self, id: &str) -> (index: Option<usize>)
        ensures
            match index {
                Some(i) => index_of_id(self.deep_view().sessions, id@) == Some(i as int),
                None => index_of_id(self.deep_view().sessions, id@) is None,
            },
    {
        let wanted = id.to_owned();
        let ghost views = self.sessions.deep_view();
        let mut i: usize = self.sessions.len();
        assert(views.take(i as int) == views);
        while i > 0
            invariant
                i <= self.sessions.len(),
                views == self.sessions.deep_view(),
                wanted@ == id@,
                index_of_id(views, id@) == index_of_id(views.take(i as int), id@),
            decreases i,
        {
            i -= 1;
            assert(views[i as int] == self.sessions@[i as int].deep_view());
            assert(views.take(i + 1).drop_last() == views.take(i as int));
            if self.sessions[i].id == wanted {
                return Some(i);
            }
        }
        None
    }
}

/// What an override gives in a configuration file: formats as text.
pub struct OverridablesBuilder {
    pub format: Option<String>,
    pub time_format: Option<String>,
    pub paused_state_text: Option<String>,
    pub resumed_state_text: Option<String>,
}

/// An `OverridablesBuilder` as plain values.
pub ghost struct OverridablesBuilderView {
    pub format: Option<Seq<char>>,
    pub time_format: Option<Seq<char>>,
    pub paused_state_text: Option<Seq<char>>,
    pub resumed_state_text: Option<Seq<char>>,
}

impl DeepView for OverridablesBuilder {
    type V = OverridablesBuilderView;

    open spec fn deep_view(&self) -> OverridablesBuilderView {
        OverridablesBuilderView {
            format: self.format.deep_view(),
            time_format: self.time_format.deep_view(),
            paused_state_text: self.paused_state_text.deep_view(),
            resumed_state_text: self.resumed_state_text.deep_view(),
        }
    }
}

impl Clone for OverridablesBuilder {
    fn clone(&self) -> (copy: OverridablesBuilder)
        ensures
            copy.deep_view() == self.deep_view(),
    {
        OverridablesBuilder {
            format: self.format.clone(),
            time_format: self.time_format.clone(),
            paused_state_text: self.paused_state_text.clone(),
            resumed_state_text: self.resumed_state_text.clone(),
        }
    }
}

impl Default for OverridablesBuilder {
    fn default() -> (builder: OverridablesBuilder)
        ensures
            builder.deep_view() == empty_override(),
    {
        OverridablesBuilder {
            format: None,
            time_format: None,
            paused_state_text: None,
            resumed_state_text: None,
        }
    }
}

/// The override that gives nothing.
pub open spec fn empty_override() -> OverridablesBuilderView {
    OverridablesBuilderView {
        format: None,
        time_format: None,
        paused_state_text: None,
        resumed_state_text: None,
    }
}

/// `first` where it is given, and `second` otherwise.
pub open spec fn or<T>(first: Option<T>, second: Option<T>) -> Option<T> {
    if first is Some {
        first
    } else {
        second
    }
}

/// The override that `own` builds over the default of the same name: each
/// part is its own where given, else the default's, and formats are parsed.
pub open spec fn built_override(
    own: OverridablesBuilderView,
    defaults: Option<OverridablesBuilderView>,
) -> OverridablesView {
    let d = if defaults is Some {
        defaults->0
    } else {
        empty_override()
    };
    OverridablesView {
        format: match or(own.format, d.format) {
            Some(f) => Some(parsed_tokens(f)),
            None => None,
        },
        time_format: match or(own.time_format, d.time_format) {
            Some(f) => Some(parsed_time_tokens(f)),
            None => None,
        },
        paused_state_text: or(own.paused_state_text, d.paused_state_text),
        resumed_state_text: or(own.resumed_state_text, d.resumed_state_text),
    }
}

fn or_text(first: Option<String>, second: &Option<String>) -> (text: Option<String>)
    ensures
        text.deep_view() == or(first.deep_view(), second.deep_view()),
{
    match first {
        Some(t) => Some(t),
        None => second.clone(),
    }
}

impl OverridablesBuilder {
    /// Builds the override, filling what it leaves open from `defaults`.
    pub fn build(self, defaults: Option<&OverridablesBuilder>) -> (overrid: Overridables)
        ensures
            overrid.deep_view() == built_override(self.deep_view(), defaults.deep_view()),
    {
        let default_ob = OverridablesBuilder::default();
        let defaults = match defaults {
            Some(d) => d,
            None => &default_ob,
        };
        Overridables {
            format: match or_text(self.format, &defaults.format) {
                Some(f) => Some(Token::parse(f.as_str())),
                None => None,
            },
            time_format: match or_text(self.time_format, &defaults.time_format) {
                Some(f) => Some(TimeFormatToken::parse(f.as_str())),
                None => None,
            },
            paused_state_text: or_text(self.paused_state_text, &defaults.paused_state_text),
            resumed_state_text: or_text(self.resumed_state_text, &defaults.resumed_state_text),
        }
    }
}

/// What a session has where its own entry leaves it open.
pub struct Defaults {
    pub name: String,
    pub duration: Span,
    pub command: String,
    pub format: String,
    pub time_format: String,
    pub autostart: bool,
    pub paused_state_text: String,
    pub resumed_state_text: String,
    pub overrides: Table<OverridablesBuilder>,
}

/// A `Defaults` as plain values; `duration` is in nanoseconds.
pub ghost struct DefaultsView {
    pub name: Seq<char>,
    pub duration: nat,
    pub command: Seq<char>,
    pub format: Seq<char>,
    pub time_format: Seq<char>,
    pub autostart: bool,
    pub paused_state_text: Seq<char>,
    pub resumed_state_text: Seq<char>,
    pub overrides: Map<Seq<char>, OverridablesBuilderView>,
}

impl DeepView for Defaults {
    type V = DefaultsView;

    open spec fn deep_view(&self) -> DefaultsView {
        DefaultsView {
            name: self.name@,
            duration: self.duration@,
            command: self.command@,
            format: self.format@,
            time_format: self.time_format@,
            autostart: self.autostart,
            paused_state_text: self.paused_state_text@,
            resumed_state_text: self.resumed_state_text@,
            overrides: self.overrides.deep_view(),
        }
    }
}

impl Defaults {
    /// The name of a session that gives none.
    pub fn name() -> (name: String)
        ensures
            name@ == "Work"@,
    {
        "Work".to_owned()
    }

    /// The length of a session that gives none: twenty-five minutes.
    pub fn duration() -> (duration: Span)
        ensures
            duration@ == 1500 * 1_000_000_000,
    {
        Span::from_secs(25 * 60)
    }

    /// The command of a session that gives none.
    pub fn command() -> (command: String)
        ensures
            command@ == "notify-send 'Session Completed!'"@,
    {
        "notify-send 'Session Completed!'".to_owned()
    }

    /// The format of a session that gives none.
    pub fn format() -> (format: String)
        ensures
            format@ == "{time}\n"@,
    {
        "{time}\n".to_owned()
    }

    /// The time format of a session that gives none.
    pub fn time_format() -> (format: String)
        ensures
            format@ == "%*-Yyear%P %*-Bmonth%P %*-Dday%P %*-Hh %*-Mm %*-Ss"@,
    {
        "%*-Yyear%P %*-Bmonth%P %*-Dday%P %*-Hh %*-Mm %*-Ss".to_owned()
    }

    /// Whether a session that does not say so starts by itself: it does not.
    pub fn autostart() -> (autostart: bool)
        ensures
            !autostart,
    {
        false
    }

    /// The text for a halted session that gives none.
    pub fn paused_state_text() -> (text: String)
        ensures
            text@ == "⏸"@,
    {
        "⏸".to_owned()
    }

    /// The text for a counting session that gives none.
    pub fn resumed_state_text() -> (text: String)
        ensures
            text@ == "⏵"@,
    {
        "⏵".to_owned()
    }

    /// The overrides where none are given: none.
    pub fn overrides() -> (overrides: Table<OverridablesBuilder>)
        ensures
            overrides.deep_view() == Map::<Seq<char>, OverridablesBuilderView>::empty(),
    {
        Table::new()
    }
}

impl Default for Defaults {
    fn default() -> (defaults: Defaults)
        ensures
            defaults.deep_view() == (DefaultsView {
                name: "Work"@,
                duration: 1500 * 1_000_000_000,
                command: "notify-send 'Session Completed!'"@,
                format: "{time}\n"@,
                time_format: "%*-Yyear%P %*-Bmonth%P %*-Dday%P %*-Hh %*-Mm %*-Ss"@,
                autostart: false,
                paused_state_text: "⏸"@,
                resumed_state_text: "⏵"@,
                overrides: Map::empty(),
            }),
    {
        Defaults {
            name: Defaults::name(),
            duration: Defaults::duration(),
            command: Defaults::command(),
            format: Defaults::format(),
            time_format: Defaults::time_format(),
            autostart: Defaults::autostart(),
            paused_state_text: Defaults::paused_state_text(),
            resumed_state_text: Defaults::resumed_state_text(),
            overrides: Defaults::overrides(),
        }
    }
}

/// One session as a configuration file gives it.
pub struct SessionBuilder {
    pub id: String,
    pub name: Option<String>,
    pub duration: Option<Span>,
    pub command: Option<String>,
    pub format: Option<String>,
    pub time_format: Option<String>,
    pub autostart: Option<bool>,
    pub paused_state_text: Option<String>,
    pub resumed_state_text: Option<String>,
    pub overrides: Table<OverridablesBuilder>,
}

/// A `SessionBuilder` as plain values; `duration` is in nanoseconds.
pub ghost struct SessionBuilderView {
    pub id: Seq<char>,
    pub name: Option<Seq<char>>,
    pub duration: Option<nat>,
    pub command: Option<Seq<char>>,
    pub format: Option<Seq<char>>,
    pub time_format: Option<Seq<char>>,
    pub autostart: Option<bool>,
    pub paused_state_text: Option<Seq<char>>,
    pub resumed_state_text: Option<Seq<char>>,
    pub overrides: Map<Seq<char>, OverridablesBuilderView>,
}

impl DeepView for SessionBuilder {
    type V = SessionBuilderView;

    open spec fn deep_view(&self) -> SessionBuilderView {
        SessionBuilderView {
            id: self.id@,
            name: self.name.deep_view(),
            duration: match self.duration {
                Some(d) => Some(d@),
                None => None,
            },
            command: self.command.deep_view(),
            format: self.format.deep_view(),
            time_format: self.time_format.deep_view(),
            autostart: self.autostart,
            paused_state_text: self.paused_state_text.deep_view(),
            resumed_state_text: self.resumed_state_text.deep_view(),
            overrides: self.overrides.deep_view(),
        }
    }
}

/// `given` where there is one, and `default` otherwise.
pub open spec fn or_default<T>(given: Option<T>, default: T) -> T {
    if given is Some {
        given->0
    } else {
        default
    }
}

/// Builds an override over the default of its name.
pub open spec fn built_over(defaults: Map<Seq<char>, OverridablesBuilderView>) -> spec_fn(
    Seq<char>,
    OverridablesBuilderView,
) -> OverridablesView {
    |name: Seq<char>, o: OverridablesBuilderView| built_override(o, lookup(defaults, name))
}

/// The overrides of a session: one for every name that the defaults or the
/// session itself give an override for. Where both do, the session's own
/// entry counts. Each is built over the default of the same name.
pub open spec fn built_overrides(
    defaults: Map<Seq<char>, OverridablesBuilderView>,
    own: Map<Seq<char>, OverridablesBuilderView>,
) -> Map<Seq<char>, OverridablesView> {
    remade(overlaid(defaults, own), built_over(defaults))
}

/// The session that `own` builds over `defaults`.
pub open spec fn built_session(own: SessionBuilderView, defaults: DefaultsView) -> SessionView {
    SessionView {
        id: own.id,
        name: or_default(own.name, defaults.name),
        duration: or_default(own.duration, defaults.duration),
        command: or_default(own.command, defaults.command),
        format: parsed_tokens(or_default(own.format, defaults.format)),
        time_format: parsed_time_tokens(or_default(own.time_format, defaults.time_format)),
        autostart: or_default(own.autostart, defaults.autostart),
        paused_state_text: or_default(own.paused_state_text, defaults.paused_state_text),
        resumed_state_text: or_default(own.resumed_state_text, defaults.resumed_state_text),
        overrides: built_overrides(defaults.overrides, own.overrides),
    }
}

fn text_or(given: Option<String>, default: &String) -> (text: String)
    ensures
        text@ == or_default(given.deep_view(), default@),
{
    match given {
        Some(t) => t,
        None => default.clone(),
    }
}

/// Appends to `out` the overrides that `entries` give, each built over the
/// default of its name.
fn build_overrides_onto(
    out: &mut Table<Overridables>,
    entries: &Vec<(String, OverridablesBuilder)>,
    defaults: &Table<OverridablesBuilder>,
)
    ensures
        final(out).entries.deep_view().len() == old(out).entries.deep_view().len()
            + entries.deep_view().len(),
        forall|i: int|
            0 <= i < old(out).entries.deep_view().len() ==> final(out).entries.deep_view()[i]
                == old(out).entries.deep_view()[i],
        forall|i: int|
            0 <= i < entries.deep_view().len() ==> final(out).entries.deep_view()[old(
                out,
            ).entries.deep_view().len() + i] == remade_entry(
                #[trigger] entries.deep_view()[i],
                built_over(defaults.deep_view()),
            ),
{
    let ghost f = built_over(defaults.deep_view());
    let ghost before = out.entries.deep_view();
    let ghost given = entries.deep_view();
    let mut i: usize = 0;
    while i < entries.len()
        invariant
            i <= entries.len(),
            given == entries.deep_view(),
            f == built_over(defaults.deep_view()),
            out.entries.deep_view().len() == before.len() + i,
            forall|j: int| 0 <= j < before.len() ==> out.entries.deep_view()[j] == before[j],
            forall|j: int|
                0 <= j < i ==> out.entries.deep_view()[before.len() + j] == remade_entry(
                    #[trigger] given[j],
                    f,
                ),
        decreases entries.len() - i,
    {
        assert(given[i as int] == entries@[i as int].deep_view());
        let ghost so_far = out.entries.deep_view();
        let name = entries[i].0.clone();
        let default = defaults.get(name.as_str());
        let built = entries[i].1.clone().build(default);
        let ghost entry = (name@, built.deep_view());
        assert(entry == remade_entry(given[i as int], f));
        out.insert(name, built);
        assert(out.entries.deep_view() =~= so_far.push(entry));
        i += 1;
    }
}

impl SessionBuilder {
    /// Builds the session, filling what it leaves open from `defaults`.
    pub fn build(self, defaults: &Defaults) -> (session: Session)
        ensures
            session.deep_view() == built_session(self.deep_view(), defaults.deep_view()),
    {
        let ghost f = built_over(defaults.overrides.deep_view());
        let ghost first = defaults.overrides.entries.deep_view();
        let ghost second = self.overrides.entries.deep_view();
        let mut overrides: Table<Overridables> = Table::new();
        assert(overrides.entries.deep_view() =~= Seq::empty());
        build_overrides_onto(&mut overrides, &defaults.overrides.entries, &defaults.overrides);
        build_overrides_onto(&mut overrides, &self.overrides.entries, &defaults.overrides);
        proof {
            let made = overrides.entries.deep_view();
            let all = first + second;
            assert forall|i: int| 0 <= i < all.len() implies made[i] == remade_entry(
                #[trigger] all[i],
                f,
            ) by {
                if i < first.len() {
                    assert(all[i] == first[i]);
                } else {
                    assert(all[i] == second[i - first.len()]);
                }
            }
            lemma_table_map_remade(all, made, f);
            lemma_table_map_concat(first, second);
        }
        let format = match self.format {
            Some(f) => Token::parse(f.as_str()),
            None => Token::parse(defaults.format.as_str()),
        };
        let time_format = match self.time_format {
            Some(f) => TimeFormatToken::parse(f.as_str()),
            None => TimeFormatToken::parse(defaults.time_format.as_str()),
        };
        Session {
            id: self.id,
            name: text_or(self.name, &defaults.name),
            duration: match self.duration {
                Some(d) => d,
                None => defaults.duration,
            },
            command: text_or(self.command, &defaults.command),
            format,
            time_format,
            autostart: match self.autostart {
                Some(a) => a,
                None => defaults.autostart,
            },
            paused_state_text: text_or(self.paused_state_text, &defaults.paused_state_text),
            resumed_state_text: text_or(self.resumed_state_text, &defaults.resumed_state_text),
            overrides,
        }
    }
}

/// A run as a configuration file gives it.
pub struct ConfigBuilder {
    pub loop_on_end: bool,
    pub iterations: Option<u64>,
    pub pause_at_start: bool,
    pub startup_text: String,
    pub defaults: Defaults,
    pub sessions: Vec<SessionBuilder>,
}

/// A `ConfigBuilder` as plain values.
pub ghost struct ConfigBuilderView {
    pub loop_on_end: bool,
    pub iterations: Option<u64>,
    pub pause_at_start: bool,
    pub startup_text: Seq<char>,
    pub defaults: DefaultsView,
    pub sessions: Seq<SessionBuilderView>,
}

impl DeepView for ConfigBuilder {
    type V = ConfigBuilderView;

    open spec fn deep_view(&self) -> ConfigBuilderView {
        ConfigBuilderView {
            loop_on_end: self.loop_on_end,
            iterations: self.iterations,
            pause_at_start: self.pause_at_start,
            startup_text: self.startup_text@,
            defaults: self.defaults.deep_view(),
            sessions: self.sessions.deep_view(),
        }
    }
}

/// How many passes a run makes: none given means one; a run that loops on
/// its end goes on for ever, unless it is told to make no pass at all.
pub open spec fn built_iterations(loop_on_end: bool, iterations: Option<u64>) -> Option<u64> {
    if loop_on_end && iterations != Some(0u64) {
        None
    } else if iterations is Some {
        iterations
    } else {
        Some(1u64)
    }
}

/// The run that `builder` builds.
pub open spec fn built_config(builder: ConfigBuilderView) -> ConfigView {
    ConfigView {
        iterations: built_iterations(builder.loop_on_end, builder.iterations),
        pause_at_start: builder.pause_at_start,
        startup_text: builder.startup_text,
        sessions: Seq::new(
            builder.sessions.len(),
            |i: int| built_session(builder.sessions[i], builder.defaults),
        ),
    }
}

impl ConfigBuilder {
    /// Builds the run.
    pub fn build(self) -> (config: Config)
        ensures
            config.deep_view() == built_config(self.deep_view()),
    {
        let iterations = if self.loop_on_end && !is_zero(self.iterations) {
            None
        } else if self.iterations.is_some() {
            self.iterations
        } else {
            Some(1)
        };
        let defaults = self.defaults;
        let ghost builders = self.sessions@;
        let mut sessions: Vec<Session> = Vec::new();
        for builder in it: self.sessions.into_iter()
            invariant
                it.seq() == builders,
                sessions.len() == it.index(),
                forall|j: int|
                    0 <= j < sessions.len() ==> (#[trigger] sessions@[j]).deep_view()
                        == built_session(builders[j].deep_view(), defaults.deep_view()),
        {
            sessions.push(builder.build(&defaults));
        }
        let config = Config {
            iterations,
            pause_at_start: self.pause_at_start,
            startup_text: self.startup_text,
            sessions,
        };
        assert(config.deep_view().sessions =~= built_config(self.deep_view()).sessions);
        config
    }
}

/// Where the configuration file lies: under the directory for
/// configuration where one is set, else under the home directory, else under
/// `~`, unexpanded.
pub open spec fn config_path(xdg_config_home: Option<Seq<char>>, home: Option<Seq<char>>) -> Seq<
    char,
> {
    match xdg_config_home {
        Some(dir) => dir + "/uair/uair.toml"@,
        None => match home {
            Some(dir) => dir + "/.config/uair/uair.toml"@,
            None => "~/.config/uair/uair.toml"@,
        },
    }
}

/// The path of the configuration file, given the values of
/// `XDG_CONFIG_HOME` and of `HOME`, where they are set.
pub fn get_config_path(xdg_config_home: Option<String>, home: Option<String>) -> (path: String)
    ensures
        path@ == config_path(xdg_config_home.deep_view(), home.deep_view()),
{
    match xdg_config_home {
        Some(dir) => dir.concat("/uair/uair.toml"),
        None => match home {
            Some(dir) => dir.concat("/.config/uair/uair.toml"),
            None => "~/.config/uair/uair.toml".to_owned(),
        },
    }
}

fn is_zero(iterations: Option<u64>) -> (zero: bool)
    ensures
        zero == (iterations == Some(0u64)),
{
    match iterations {
        Some(n) => n == 0,
        None => false,
    }
}

} // verus!
