//! The scheduler: which session is active, whether it counts or is halted,
//! and what each event makes of that.

use crate::command::{Command, CommandView, PauseArgs, ResumeArgs};
use crate::config::{index_of_id, lemma_index_of_id, Config, ConfigView};
use crate::session::{
    end_action_of, shown, shown_text, EndAction, EndActionView, Overridables, OverridablesView,
    Session, SessionView,
};
use crate::session_id::{lemma_bounded_run, Cursor, SessionId};
use crate::time::{clipped, Moment, Span};
use crate::time_format::span_humantime;
use crate::timer::{
    first_tick_at, frame_text, kept, listen_accepted, next_tick_at, rejection, stream_frames,
    Frames, State, StateView, UairTimer, WriterView,
};
use crate::token::parsed_tokens;
use vstd::prelude::*;

verus! {

/// Something for the scheduler to react to. A `Fetch` and a `Listen` carry
/// the handle of the connection that the reply goes to.
#[derive(Debug, PartialEq)]
pub enum Event {
    Command(Command),
    Jump(usize),
    Fetch(String, u64),
    Finished,
    Listen(Option<String>, u64),
}

/// An `Event` as plain values.
pub ghost enum EventView {
    Command(CommandView),
    Jump(nat),
    Fetch(Seq<char>, u64),
    Finished,
    Listen(Option<Seq<char>>, u64),
}

impl DeepView for Event {
    type V = EventView;

    open spec fn deep_view(&self) -> EventView {
        match self {
            Event::Command(c) => EventView::Command(c.deep_view()),
            Event::Jump(i) => EventView::Jump(*i as nat),
            Event::Fetch(format, stream) => EventView::Fetch(format@, *stream),
            Event::Finished => EventView::Finished,
            Event::Listen(overrid, stream) => EventView::Listen(overrid.deep_view(), *stream),
        }
    }
}

/// What is left to the surrounding program after a step.
#[derive(Debug, PartialEq)]
pub enum Action {
    /// Nothing.
    Idle,
    /// Run the command of the session that has ended.
    Spawn(EndAction),
    /// Write the active session out to all sinks, showing `time`.
    Write { resumed: bool, time: Span },
    /// Write the active session out to the connection `stream`, in
    /// `format` and showing `time`, and close the connection.
    Fetch { stream: u64, format: String, resumed: bool, time: Span },
    /// Keep the connection `stream` open: its client listens from now on.
    Subscribed { stream: u64 },
    /// Send `reply` to the connection `stream` and close it.
    Reject { stream: u64, reply: Vec<u8> },
    /// Load the configuration anew and hand it over.
    Reload,
}

/// An `Action` as plain values; times are in nanoseconds.
pub ghost enum ActionView {
    Idle,
    Spawn(EndActionView),
    Write { resumed: bool, time: nat },
    Fetch { stream: u64, format: Seq<char>, resumed: bool, time: nat },
    Subscribed { stream: u64 },
    Reject { stream: u64, reply: Seq<u8> },
    Reload,
}

impl DeepView for Action {
    type V = ActionView;

    open spec fn deep_view(&self) -> ActionView {
        match self {
            Action::Idle => ActionView::Idle,
            Action::Spawn(a) => ActionView::Spawn(a.deep_view()),
            Action::Write { resumed, time } => ActionView::Write {
                resumed: *resumed,
                time: time@,
            },
            Action::Fetch { stream, format, resumed, time } => ActionView::Fetch {
                stream: *stream,
                format: format@,
                resumed: *resumed,
                time: time@,
            },
            Action::Subscribed { stream } => ActionView::Subscribed { stream: *stream },
            Action::Reject { stream, reply } => ActionView::Reject {
                stream: *stream,
                reply: reply@,
            },
            Action::Reload => ActionView::Reload,
        }
    }
}

/// What the surrounding program is to do next.
#[derive(Clone, Copy, Debug, PartialEq, Eq)]
pub enum Prompt {
    /// Take a step at once, without an event: the run is to start.
    Step,
    /// Write the halted session out to all sinks, showing this time; then
    /// wait for an event and take a step with it.
    Halt(Span),
    /// Count down from the first moment to the second, tick by tick, and
    /// take a step with the first event that arrives, or with `Finished`
    /// once the ticks have run out.
    Count(Moment, Moment),
    /// Stop: the run is over.
    Exit,
}

/// The cursor and the configuration it walks over.
pub ghost struct DataView {
    pub cursor: Cursor,
    pub config: ConfigView,
}

/// The number of passes as the cursor takes it.
pub open spec fn limit_of(iterations: Option<u64>) -> Option<nat> {
    match iterations {
        Some(n) => Some(n as nat),
        None => None,
    }
}

impl DataView {
    /// The cursor stands within the sessions of the configuration and
    /// counts the passes that the configuration asks for.
    pub open spec fn wf(self) -> bool {
        &&& self.cursor.wf()
        &&& self.cursor.len == self.config.sessions.len()
        &&& self.cursor.limit == limit_of(self.config.iterations)
    }

    /// The data at the start of the run that `config` describes.
    pub open spec fn fresh(config: ConfigView) -> DataView {
        DataView {
            cursor: Cursor::start(config.sessions.len(), limit_of(config.iterations)),
            config,
        }
    }

    /// The active session, where there are sessions at all.
    pub open spec fn current(self) -> Option<SessionView> {
        if self.cursor.position < self.config.sessions.len() {
            Some(self.config.sessions[self.cursor.position as int])
        } else {
            None
        }
    }

    /// The data with the cursor at `cursor`.
    pub open spec fn at(self, cursor: Cursor) -> DataView {
        DataView { cursor, ..self }
    }

    /// The data with the cursor sent to `index`; an index beyond the
    /// sessions leaves it where it is.
    pub open spec fn jumped(self, index: nat) -> DataView {
        if index < self.cursor.len {
            self.at(self.cursor.jumped(index))
        } else {
            self
        }
    }

    /// The state in which the active session starts at `now`: counting
    /// down its whole length if it starts by itself, else halted with its
    /// whole length left. Without a session there is nothing left to run.
    pub open spec fn new_state(self, now: nat) -> StateView {
        match self.current() {
            Some(session) => if session.autostart {
                StateView::Resumed(now, clipped(now + session.duration))
            } else {
                StateView::Paused(session.duration)
            },
            None => StateView::Finished,
        }
    }

    /// The state in which the run starts at `now`: over, where it has no
    /// session or no pass to make; else halted with the whole length of the
    /// active session left, where the run is told to wait at its start or
    /// the session does not start by itself; else counting down that length.
    pub open spec fn initial_state(self, now: nat) -> StateView {
        match self.current() {
            Some(session) => if self.cursor.is_run_finished() {
                StateView::Finished
            } else if self.config.pause_at_start || !session.autostart {
                StateView::Paused(session.duration)
            } else {
                StateView::Resumed(now, clipped(now + session.duration))
            },
            None => StateView::Finished,
        }
    }

    /// The data once `config` has taken the place of the configuration.
    ///
    /// Without `keep` the run starts over. With it, the cursor goes to the
    /// session that has the id of the active one, where there is such a
    /// session, and the passes completed are kept where they stay below the
    /// new limit; otherwise they are counted from none again.
    pub open spec fn reloaded(self, config: ConfigView, keep: bool) -> DataView {
        let fresh = DataView::fresh(config);
        if !keep {
            fresh
        } else {
            let found = match self.current() {
                Some(session) => index_of_id(config.sessions, session.id),
                None => None,
            };
            let at = match found {
                Some(i) => fresh.cursor.jumped(i as nat),
                None => fresh.cursor,
            };
            let cursor = if at.limit is Some && self.cursor.iteration < at.limit->0 {
                Cursor { iteration: self.cursor.iteration, ..at }
            } else {
                at
            };
            fresh.at(cursor)
        }
    }

    /// The event that a command becomes, if any, while the timer counts
    /// (`resumed`) or is halted: a request to pause counts only while the
    /// timer counts and one to resume only while it is halted, a toggle is
    /// the one of the two that applies, a step forward is dropped at the
    /// last session of the run and a step back at the first, and a jump is
    /// dropped unless a session has the id.
    pub open spec fn surfaced(self, command: CommandView, stream: u64, resumed: bool) -> Option<
        EventView,
    > {
        match command {
            CommandView::Pause => if resumed {
                Some(EventView::Command(CommandView::Pause))
            } else {
                None
            },
            CommandView::Resume => if !resumed {
                Some(EventView::Command(CommandView::Resume))
            } else {
                None
            },
            CommandView::Toggle => if resumed {
                Some(EventView::Command(CommandView::Pause))
            } else {
                Some(EventView::Command(CommandView::Resume))
            },
            CommandView::Next => if !self.cursor.is_last() {
                Some(EventView::Command(CommandView::Next))
            } else {
                None
            },
            CommandView::Prev => if !self.cursor.is_first() {
                Some(EventView::Command(CommandView::Prev))
            } else {
                None
            },
            CommandView::Finish => Some(EventView::Finished),
            CommandView::Jump(id) => match index_of_id(self.config.sessions, id) {
                Some(i) => Some(EventView::Jump(i as nat)),
                None => None,
            },
            CommandView::Reload => Some(EventView::Command(CommandView::Reload)),
            CommandView::Fetch(format) => Some(EventView::Fetch(format, stream)),
            CommandView::Listen(overrid) => Some(EventView::Listen(overrid, stream)),
        }
    }
}

/// After a jump to an index within the sessions the active session is the
/// one at that index, whatever passes have been completed, and these stay
/// as they are.
pub proof fn lemma_jump_then_current(data: DataView, index: nat)
    requires
        data.wf(),
        index < data.config.sessions.len(),
    ensures
        data.jumped(index).wf(),
        data.jumped(index).current() == Some(data.config.sessions[index as int]),
        data.jumped(index).cursor.iteration == data.cursor.iteration,
{
}

/// The override that replaces the format alone.
pub open spec fn format_override(format: Seq<char>) -> OverridablesView {
    OverridablesView {
        format: Some(parsed_tokens(format)),
        time_format: None,
        paused_state_text: None,
        resumed_state_text: None,
    }
}

/// What a client that fetches in `format` is sent for `session` at `time`.
pub open spec fn fetch_text(
    session: SessionView,
    format: Seq<char>,
    time: nat,
    resumed: bool,
    percent: u8,
) -> Seq<char> {
    shown_text(
        shown(session, time, Some(format_override(format)), resumed),
        percent,
        span_humantime(session.duration),
    )
}

/// The cursor of a run together with its configuration.
pub struct AppData {
    sid: SessionId,
    config: Config,
}

impl View for AppData {
    type V = DataView;

    closed spec fn view(&self) -> DataView {
        DataView { cursor: self.sid@, config: self.config.deep_view() }
    }
}

impl AppData {
    #[verifier::type_invariant]
    spec fn valid(self) -> bool {
        self@.wf()
    }

    /// The data at the start of the run that `config` describes.
    pub fn new(config: Config) -> (data: AppData)
        ensures
            data@ == DataView::fresh(config.deep_view()),
            data@.wf(),
    {
        let sid = SessionId::new(config.sessions.as_slice(), config.iterations);
        AppData { sid, config }
    }

    /// The cursor.
    pub fn sid(&self) -> (sid: SessionId)
        ensures
            sid@ == self@.cursor,
            self@.wf(),
    {
        proof {
            use_type_invariant(self);
        }
        self.sid
    }

    /// The configuration.
    pub fn config(&self) -> (config: &Config)
        ensures
            config.deep_view() == self@.config,
    {
        &self.config
    }

    /// Puts `config` in the place of the configuration. With `R` the run
    /// goes on where it stands, as far as the new configuration allows;
    /// without it the run starts over.
    pub fn read_conf<const R: bool>(&mut self, config: Config)
        ensures
            final(self)@ == old(self)@.reloaded(config.deep_view(), R),
            final(self)@.wf(),
    {
        proof {
            use_type_invariant(&*self);
        }
        let mut sid = SessionId::new(config.sessions.as_slice(), config.iterations);
        if R {
            if self.sid.len() > 0 {
                let index = self.sid.curr();
                assert(self.config.sessions.deep_view()[index as int]
                    == self.config.sessions@[index as int].deep_view());
                proof {
                    lemma_index_of_id(
                        config.deep_view().sessions,
                        self.config.sessions@[index as int].id@,
                    );
                }
                match config.index_of(self.config.sessions[index].id.as_str()) {
                    Some(idx) => {
                        sid = sid.jump(idx);
                    },
                    None => {},
                }
            }
            sid = sid.with_iter_no(self.sid.iter_no());
        }
        *self = AppData { sid, config };
    }

    /// The event that `command`, received on the connection `stream`,
    /// becomes while the timer counts (`R`) or is halted; `None` for a
    /// command that is to be dropped.
    pub fn handle_commands<const R: bool>(&self, command: Command, stream: u64) -> (event:
        Option<Event>)
        ensures
            event.deep_view() == self@.surfaced(command.deep_view(), stream, R),
    {
        match command {
            Command::Pause(args) => if R {
                Some(Event::Command(Command::Pause(args)))
            } else {
                None
            },
            Command::Resume(args) => if !R {
                Some(Event::Command(Command::Resume(args)))
            } else {
                None
            },
            Command::Toggle(_) => if R {
                Some(Event::Command(Command::Pause(PauseArgs {  })))
            } else {
                Some(Event::Command(Command::Resume(ResumeArgs {  })))
            },
            Command::Next(args) => if !self.sid.is_last() {
                Some(Event::Command(Command::Next(args)))
            } else {
                None
            },
            Command::Prev(args) => if !self.sid.is_first() {
                Some(Event::Command(Command::Prev(args)))
            } else {
                None
            },
            Command::Finish(_) => Some(Event::Finished),
            Command::Jump(args) => match self.config.index_of(args.id.as_str()) {
                Some(idx) => Some(Event::Jump(idx)),
                None => None,
            },
            Command::Reload(args) => Some(Event::Command(Command::Reload(args))),
            Command::Fetch(args) => Some(Event::Fetch(args.format, stream)),
            Command::Listen(args) => Some(Event::Listen(args.overrid, stream)),
        }
    }

    /// The active session, where there are sessions at all.
    pub fn curr_session(&self) -> (session: Option<&Session>)
        ensures
            session.deep_view() == self@.current(),
    {
        proof {
            use_type_invariant(self);
        }
        let index = self.sid.curr();
        if index < self.config.sessions.len() {
            assert(self.config.sessions.deep_view()[index as int]
                == self.config.sessions@[index as int].deep_view());
            Some(&self.config.sessions[index])
        } else {
            None
        }
    }

    /// What a client that fetches in `format` is sent, where the active
    /// session shows `time` while it counts (`R`) or is halted. `percent`
    /// is the share of the session's length that `time` makes up. Without
    /// a session there is nothing to send.
    pub fn handle_fetch<const R: bool>(&self, format: &str, time: Span, percent: u8) -> (text:
        Option<String>)
        ensures
            match self@.current() {
                Some(session) => text is Some && text->0@ == fetch_text(
                    session,
                    format@,
                    time@,
                    R,
                    percent,
                ),
                None => text is None,
            },
    {
        match self.curr_session() {
            Some(session) => {
                let overrid = Overridables::new().format(format);
                Some(session.display::<R>(time, Some(&overrid)).render(percent))
            },
            None => None,
        }
    }

    /// What a client that fetches in `format` is sent while the timer is
    /// halted with `duration` to show.
    pub fn handle_fetch_paused(&self, format: &str, duration: Span, percent: u8) -> (text:
        Option<String>)
        ensures
            match self@.current() {
                Some(session) => text is Some && text->0@ == fetch_text(
                    session,
                    format@,
                    duration@,
                    false,
                    percent,
                ),
                None => text is None,
            },
    {
        self.handle_fetch::<false>(format, duration, percent)
    }

    /// What a client that fetches in `format` at `now` is sent while the
    /// timer counts down to `dest`: the session shows the time left.
    pub fn handle_fetch_resumed(&self, format: &str, dest: Moment, now: Moment, percent: u8)
        -> (text: Option<String>)
        ensures
            match self@.current() {
                Some(session) => text is Some && text->0@ == fetch_text(
                    session,
                    format@,
                    left_at(dest@, now@),
                    true,
                    percent,
                ),
                None => text is None,
            },
    {
        self.handle_fetch::<true>(format, dest.since(&now), percent)
    }

    /// The state in which the run starts at `now`.
    pub fn initial_state(&self, now: Moment) -> (state: State)
        ensures
            state@ == self@.initial_state(now@),
    {
        proof {
            use_type_invariant(self);
        }
        match self.curr_session() {
            Some(session) => if self.sid.is_run_finished() {
                State::Finished
            } else if self.config.pause_at_start || !session.autostart {
                State::Paused(session.duration)
            } else {
                State::Resumed(now, now.plus(&session.duration))
            },
            None => State::Finished,
        }
    }

    /// Moves the cursor one session on and gives the state in which that
    /// session starts at `now`.
    pub fn next_session(&mut self, now: Moment) -> (state: State)
        ensures
            final(self)@.wf(),
            final(self)@ == old(self)@.at(old(self)@.cursor.advanced()),
            state@ == final(self)@.new_state(now@),
    {
        proof {
            use_type_invariant(&*self);
        }
        let next = self.sid.next();
        self.sid = next;
        self.new_state(now)
    }

    /// Moves the cursor one session back and gives the state in which that
    /// session starts at `now`.
    pub fn prev_session(&mut self, now: Moment) -> (state: State)
        ensures
            final(self)@.wf(),
            final(self)@ == old(self)@.at(old(self)@.cursor.retreated()),
            state@ == final(self)@.new_state(now@),
    {
        proof {
            use_type_invariant(&*self);
        }
        let prev = self.sid.prev();
        self.sid = prev;
        self.new_state(now)
    }

    /// Sends the cursor to `idx` and gives the state in which that session
    /// starts at `now`. An index beyond the sessions leaves the cursor
    /// where it is.
    pub fn jump_session(&mut self, idx: usize, now: Moment) -> (state: State)
        ensures
            final(self)@.wf(),
            final(self)@ == old(self)@.jumped(idx as nat),
            state@ == final(self)@.new_state(now@),
    {
        proof {
            use_type_invariant(&*self);
        }
        if idx < self.sid.len() {
            let at = self.sid.jump(idx);
            self.sid = at;
        }
        self.new_state(now)
    }

    /// The state in which the active session starts at `now`.
    pub fn new_state(&self, now: Moment) -> (state: State)
        ensures
            state@ == self@.new_state(now@),
    {
        match self.curr_session() {
            Some(session) => if session.autostart {
                State::Resumed(now, now.plus(&session.duration))
            } else {
                State::Paused(session.duration)
            },
            None => State::Finished,
        }
    }
}

/// The time left at `now` of a countdown to `dest`.
pub open spec fn left_at(dest: nat, now: nat) -> nat {
    if dest >= now {
        (dest - now) as nat
    } else {
        0
    }
}

/// The scheduler as plain values: the data, the state of the timer, the
/// sinks, and the interval between ticks in nanoseconds.
pub ghost struct AppView {
    pub data: DataView,
    pub state: StateView,
    pub writer: WriterView,
    pub interval: nat,
}

/// What the display of a halted session adds to the time left, so that a
/// second that has begun is shown in full: one nanosecond short of a second.
pub open spec fn halted_shown(left: nat) -> nat {
    clipped(left + 999_999_999)
}

impl AppView {
    /// The data is well formed, ticks are apart, and while a session counts
    /// or is halted the run has something to run.
    pub open spec fn wf(self) -> bool {
        &&& self.data.wf()
        &&& self.interval > 0
        &&& (self.state is Paused || self.state is Resumed)
            ==> !self.data.cursor.is_run_finished()
    }

    /// The scheduler with its data replaced and the active session started
    /// anew at `now`.
    pub open spec fn moved(self, data: DataView, now: nat) -> AppView {
        AppView { data, state: data.new_state(now), ..self }
    }

    /// The scheduler in the state `state`.
    pub open spec fn in_state(self, state: StateView) -> AppView {
        AppView { state, ..self }
    }

    /// The end of the active session: its command is to be run, and the
    /// run goes on with the next session, or is over after the last.
    pub open spec fn finished(self, now: nat) -> (AppView, ActionView) {
        let action = match self.data.current() {
            Some(session) => match end_action_of(session) {
                Some(a) => ActionView::Spawn(a),
                None => ActionView::Idle,
            },
            None => ActionView::Idle,
        };
        if self.data.cursor.is_last() {
            (self.in_state(StateView::Finished), action)
        } else {
            (self.moved(self.data.at(self.data.cursor.advanced()), now), action)
        }
    }

    /// A client asks to listen on `stream` under `overrid`: it is taken in,
    /// unless it names an override that the active session does not have;
    /// then it is sent the refusal and nothing else changes.
    pub open spec fn listened(self, overrid: Option<Seq<char>>, stream: u64) -> (
        AppView,
        ActionView,
    ) {
        if listen_accepted(self.data.current(), overrid) {
            (
                AppView {
                    writer: WriterView {
                        streams: self.writer.streams.push((stream, overrid)),
                        ..self.writer
                    },
                    ..self
                },
                ActionView::Subscribed { stream },
            )
        } else {
            (self, ActionView::Reject { stream, reply: seq![0u8] })
        }
    }

    /// What an event makes of a session that counts or is halted, apart
    /// from pausing and resuming. `time` is the time that the session shows.
    ///
    /// The end of the session, by itself or on request, runs its command
    /// and moves on. A step forward, a step back and a jump start the
    /// session they lead to; at the last session of the run there is no
    /// step forward, at the first no step back, and no jump beyond the
    /// sessions. A reload and a fetch are left to the surrounding program,
    /// and a client that asks to listen is taken in or refused. Any other
    /// event changes nothing.
    pub open spec fn reacted(self, event: EventView, now: nat, resumed: bool, time: nat) -> (
        AppView,
        ActionView,
    ) {
        match event {
            EventView::Finished => self.finished(now),
            EventView::Command(CommandView::Next) => if !self.data.cursor.is_last() {
                (self.moved(self.data.at(self.data.cursor.advanced()), now), ActionView::Idle)
            } else {
                (self, ActionView::Idle)
            },
            EventView::Command(CommandView::Prev) => if !self.data.cursor.is_first() {
                (self.moved(self.data.at(self.data.cursor.retreated()), now), ActionView::Idle)
            } else {
                (self, ActionView::Idle)
            },
            EventView::Jump(index) => if index < self.data.cursor.len {
                (self.moved(self.data.jumped(index), now), ActionView::Idle)
            } else {
                (self, ActionView::Idle)
            },
            EventView::Command(CommandView::Reload) => (self, ActionView::Reload),
            EventView::Fetch(format, stream) => (
                self,
                ActionView::Fetch { stream, format, resumed, time },
            ),
            EventView::Listen(overrid, stream) => self.listened(overrid, stream),
            _ => (self, ActionView::Idle),
        }
    }

    /// What an event makes of a session halted with `left`.
    pub open spec fn paused_step(self, left: nat, event: EventView, now: nat) -> (
        AppView,
        ActionView,
    ) {
        match event {
            EventView::Command(CommandView::Resume) => (
                self.in_state(StateView::Resumed(now, clipped(now + left))),
                ActionView::Write { resumed: true, time: halted_shown(left) },
            ),
            _ => self.reacted(event, now, false, halted_shown(left)),
        }
    }

    /// What an event at `now` makes of a session that counts down to
    /// `dest`: where the session goes on counting, it does so from `now`.
    pub open spec fn resumed_step(self, dest: nat, event: EventView, now: nat) -> (
        AppView,
        ActionView,
    ) {
        match event {
            EventView::Command(CommandView::Pause) => (
                self.in_state(StateView::Paused(left_at(dest, now))),
                ActionView::Idle,
            ),
            _ => self.in_state(StateView::Resumed(now, dest)).reacted(
                event,
                now,
                true,
                left_at(dest, now),
            ),
        }
    }

    /// The start of the run at `now`.
    pub open spec fn started(self, now: nat) -> AppView {
        self.in_state(self.data.initial_state(now))
    }

    /// What an event at `now` makes of the scheduler, and what it leaves
    /// to the surrounding program. A run that has not started starts,
    /// whatever the event; a run that is over stays so.
    pub open spec fn stepped(self, event: Option<EventView>, now: nat) -> (AppView, ActionView) {
        match self.state {
            StateView::PreInit => (self.started(now), ActionView::Idle),
            StateView::Paused(left) => match event {
                Some(e) => self.paused_step(left, e, now),
                None => (self, ActionView::Idle),
            },
            StateView::Resumed(_, dest) => match event {
                Some(e) => self.resumed_step(dest, e, now),
                None => (self, ActionView::Idle),
            },
            StateView::Finished => (self, ActionView::Idle),
        }
    }

    /// The scheduler once `config` has taken the place of its
    /// configuration: the run goes on where it stands, in the state it is
    /// in; but a session that counts or is halted comes to an end where the
    /// new configuration leaves nothing to run.
    pub open spec fn reloaded(self, config: ConfigView) -> AppView {
        let data = self.data.reloaded(config, true);
        if (self.state is Paused || self.state is Resumed) && data.cursor.is_run_finished() {
            AppView { data, state: StateView::Finished, ..self }
        } else {
            AppView { data, ..self }
        }
    }

    /// What the surrounding program is to do next.
    pub open spec fn prompt(self) -> PromptView {
        match self.state {
            StateView::PreInit => PromptView::Step,
            StateView::Paused(left) => PromptView::Halt(halted_shown(left)),
            StateView::Resumed(start, dest) => PromptView::Count(start, dest),
            StateView::Finished => PromptView::Exit,
        }
    }
}

impl AppView {
    /// The scheduler after `count` sessions have ended one after the
    /// other, the one numbered `k` at the moment `times(k)`.
    pub open spec fn after_ends(self, count: nat, times: spec_fn(nat) -> nat) -> AppView
        decreases count,
    {
        if count == 0 {
            self
        } else {
            let before = self.after_ends((count - 1) as nat, times);
            before.stepped(Some(EventView::Finished), times((count - 1) as nat)).0
        }
    }
}

/// A bounded run that has started ends with its last session: while fewer
/// than `len * limit` sessions have ended, a session counts or is halted,
/// the one that the cursor has reached by as many steps; once that many
/// have ended, the run is over and stays so.
pub proof fn lemma_bounded_run_ends(v: AppView, limit: nat, count: nat, times: spec_fn(nat) -> nat)
    requires
        v.wf(),
        v.data.cursor == Cursor::start(v.data.config.sessions.len(), Some(limit)),
        v.state is Paused || v.state is Resumed,
    ensures
        ({
            let len = v.data.config.sessions.len();
            let w = v.after_ends(count, times);
            &&& w.wf()
            &&& w.data.config == v.data.config
            &&& w.writer == v.writer
            &&& count < len * limit ==> (w.state is Paused || w.state is Resumed) && w.data.cursor
                == v.data.cursor.advanced_by(count)
            &&& count >= len * limit ==> w.state is Finished
        }),
    decreases count,
{
    let len = v.data.config.sessions.len();
    assert(len * limit >= 1) by (nonlinear_arith)
        requires
            len > 0,
            limit > 0,
    ;
    if count > 0 {
        let k = (count - 1) as nat;
        lemma_bounded_run_ends(v, limit, k, times);
        lemma_bounded_run(len, limit, k);
        let before = v.after_ends(k, times);
        if k < len * limit {
            let c = before.data.cursor;
            assert(c == Cursor::start(len, Some(limit)).advanced_by(k));
            if !c.is_last() {
                lemma_bounded_run(len, limit, count);
                let data = before.data.at(c.advanced());
                assert(data.current() is Some);
            }
        }
    }
}

/// A `Prompt` with its times in nanoseconds.
pub ghost enum PromptView {
    Step,
    Halt(nat),
    Count(nat, nat),
    Exit,
}

impl View for Prompt {
    type V = PromptView;

    open spec fn view(&self) -> PromptView {
        match self {
            Prompt::Step => PromptView::Step,
            Prompt::Halt(time) => PromptView::Halt(time@),
            Prompt::Count(start, dest) => PromptView::Count(start@, dest@),
            Prompt::Exit => PromptView::Exit,
        }
    }
}

/// The scheduler.
pub struct App {
    data: AppData,
    timer: UairTimer,
}

impl View for App {
    type V = AppView;

    closed spec fn view(&self) -> AppView {
        AppView {
            data: self.data@,
            state: self.timer.state_view(),
            writer: self.timer.writer_view(),
            interval: self.timer.interval(),
        }
    }
}

impl App {
    /// The scheduler of the run that `config` describes, before its start,
    /// with ticks one second apart and with standard output as a sink
    /// unless `quiet`.
    pub fn new(config: Config, quiet: bool) -> (app: App)
        ensures
            app@ == (AppView {
                data: DataView::fresh(config.deep_view()),
                state: StateView::PreInit,
                writer: WriterView { stdout: !quiet, streams: Seq::empty() },
                interval: 1_000_000_000,
            }),
            app@.wf(),
    {
        let timer = UairTimer::new(Span::from_secs(1), quiet);
        let data = AppData::new(config);
        App { data, timer }
    }

    /// The state of the timer.
    pub fn state(&self) -> (state: State)
        ensures
            state@ == self@.state,
    {
        self.timer.state()
    }

    /// The cursor and the configuration.
    pub fn data(&self) -> (data: &AppData)
        ensures
            data@ == self@.data,
    {
        &self.data
    }

    /// The text to write once, before the run starts.
    pub fn startup_text(&self) -> (text: &str)
        ensures
            text@ == self@.data.config.startup_text,
    {
        self.data.config.startup_text.as_str()
    }

    /// What the surrounding program is to do next.
    pub fn prompt(&self) -> (prompt: Prompt)
        ensures
            prompt@ == self@.prompt(),
    {
        match self.timer.state() {
            State::PreInit => Prompt::Step,
            State::Paused(left) => Prompt::Halt(
                left.saturating_add(&Span::from_nanos(999_999_999)),
            ),
            State::Resumed(start, dest) => Prompt::Count(start, dest),
            State::Finished => Prompt::Exit,
        }
    }

    /// Takes the step that `event` at `now` calls for, and says what is
    /// left to the surrounding program.
    pub fn step(&mut self, event: Option<Event>, now: Moment) -> (action: Action)
        requires
            old(self)@.wf(),
        ensures
            final(self)@ == old(self)@.stepped(event.deep_view(), now@).0,
            action.deep_view() == old(self)@.stepped(event.deep_view(), now@).1,
            final(self)@.wf(),
    {
        match self.timer.state() {
            State::PreInit => {
                self.start_up(now);
                Action::Idle
            },
            State::Paused(left) => match event {
                Some(e) => self.pause_session(left, e, now),
                None => Action::Idle,
            },
            State::Resumed(_, dest) => match event {
                Some(e) => self.run_session(dest, e, now),
                None => Action::Idle,
            },
            State::Finished => Action::Idle,
        }
    }

    /// Starts the run at `now`.
    fn start_up(&mut self, now: Moment)
        requires
            old(self)@.wf(),
        ensures
            final(self)@ == old(self)@.started(now@),
            final(self)@.wf(),
    {
        self.timer.set_state(self.data.initial_state(now));
    }

    /// The step of a session that is halted with `left`.
    fn pause_session(&mut self, left: Span, event: Event, now: Moment) -> (action: Action)
        requires
            old(self)@.wf(),
            old(self)@.state == StateView::Paused(left@),
        ensures
            final(self)@ == old(self)@.paused_step(left@, event.deep_view(), now@).0,
            action.deep_view() == old(self)@.paused_step(left@, event.deep_view(), now@).1,
            final(self)@.wf(),
    {
        let shown = left.saturating_add(&Span::from_nanos(999_999_999));
        match event {
            Event::Command(Command::Resume(_)) => {
                self.timer.set_state(State::Resumed(now, now.plus(&left)));
                Action::Write { resumed: true, time: shown }
            },
            other => self.react(other, now, false, shown),
        }
    }

    /// The step of a session that counts down to `dest`.
    fn run_session(&mut self, dest: Moment, event: Event, now: Moment) -> (action: Action)
        requires
            old(self)@.wf(),
            old(self)@.state is Resumed,
            old(self)@.state->Resumed_1 == dest@,
        ensures
            final(self)@ == old(self)@.resumed_step(dest@, event.deep_view(), now@).0,
            action.deep_view() == old(self)@.resumed_step(dest@, event.deep_view(), now@).1,
            final(self)@.wf(),
    {
        let left = dest.since(&now);
        match event {
            Event::Command(Command::Pause(_)) => {
                self.timer.set_state(State::Paused(left));
                Action::Idle
            },
            other => {
                self.timer.set_state(State::Resumed(now, dest));
                self.react(other, now, true, left)
            },
        }
    }

    /// The step that a session takes whether it counts or is halted.
    fn react(&mut self, event: Event, now: Moment, resumed: bool, time: Span) -> (action: Action)
        requires
            old(self)@.wf(),
            old(self)@.state is Paused || old(self)@.state is Resumed,
        ensures
            final(self)@ == old(self)@.reacted(event.deep_view(), now@, resumed, time@).0,
            action.deep_view() == old(self)@.reacted(event.deep_view(), now@, resumed, time@).1,
            final(self)@.wf(),
    {
        match event {
            Event::Finished => {
                let action = match self.data.curr_session() {
                    Some(session) => match session.end_action() {
                        Some(a) => Action::Spawn(a),
                        None => Action::Idle,
                    },
                    None => Action::Idle,
                };
                if self.data.sid.is_last() {
                    self.timer.set_state(State::Finished);
                } else {
                    let state = self.data.next_session(now);
                    self.timer.set_state(state);
                }
                action
            },
            Event::Command(Command::Next(_)) => {
                if !self.data.sid.is_last() {
                    let state = self.data.next_session(now);
                    self.timer.set_state(state);
                }
                Action::Idle
            },
            Event::Command(Command::Prev(_)) => {
                if !self.data.sid.is_first() {
                    let state = self.data.prev_session(now);
                    self.timer.set_state(state);
                }
                Action::Idle
            },
            Event::Jump(idx) => {
                if idx < self.data.sid.len() {
                    let state = self.data.jump_session(idx, now);
                    self.timer.set_state(state);
                }
                Action::Idle
            },
            Event::Command(Command::Reload(_)) => Action::Reload,
            Event::Fetch(format, stream) => Action::Fetch { stream, format, resumed, time },
            Event::Listen(overrid, stream) => self.listen(overrid, stream),
            _ => Action::Idle,
        }
    }

    /// Takes in the client that asks to listen on `stream`, or refuses it.
    fn listen(&mut self, overrid: Option<String>, stream: u64) -> (action: Action)
        requires
            old(self)@.wf(),
        ensures
            final(self)@ == old(self)@.listened(overrid.deep_view(), stream).0,
            action.deep_view() == old(self)@.listened(overrid.deep_view(), stream).1,
            final(self)@.wf(),
    {
        if self.timer.register(self.data.curr_session(), stream, overrid) {
            Action::Subscribed { stream }
        } else {
            Action::Reject { stream, reply: rejection() }
        }
    }

    /// Puts `config` in the place of the configuration, as a reload asks.
    pub fn reload(&mut self, config: Config)
        requires
            old(self)@.wf(),
        ensures
            final(self)@ == old(self)@.reloaded(config.deep_view()),
            final(self)@.wf(),
    {
        let counting = match self.timer.state() {
            State::Paused(_) => true,
            State::Resumed(_, _) => true,
            _ => false,
        };
        self.data.read_conf::<true>(config);
        if counting && self.data.sid.is_run_finished() {
            self.timer.set_state(State::Finished);
        }
    }

    /// The first tick of the countdown from `start` to `dest`.
    pub fn first_tick(&self, start: Moment, dest: Moment) -> (tick: Option<Moment>)
        requires
            self@.wf(),
        ensures
            match tick {
                Some(t) => first_tick_at(start@, dest@, self@.interval) == Some(t@),
                None => first_tick_at(start@, dest@, self@.interval) is None,
            },
    {
        self.timer.first_tick(start, dest)
    }

    /// The tick that follows the one at `end` in the countdown to `dest`.
    pub fn next_tick(&self, end: Moment, dest: Moment) -> (tick: Option<Moment>)
        ensures
            match tick {
                Some(t) => next_tick_at(end@, dest@, self@.interval) == Some(t@),
                None => next_tick_at(end@, dest@, self@.interval) is None,
            },
    {
        self.timer.next_tick(end, dest)
    }

    /// What is to be written to each sink to show the active session at
    /// `time`; nothing where there is no session.
    pub fn frames<const R: bool>(&self, time: Span, percent: u8) -> (frames: Option<Frames>)
        ensures
            match self@.data.current() {
                Some(session) => {
                    &&& frames is Some
                    &&& frames->0.stdout.deep_view() == if self@.writer.stdout {
                        Some(frame_text(session, time@, None, R, percent))
                    } else {
                        None
                    }
                    &&& frames->0.streams.deep_view() == stream_frames(
                        self@.writer.streams,
                        session,
                        time@,
                        R,
                        percent,
                    )
                },
                None => frames is None,
            },
    {
        match self.data.curr_session() {
            Some(session) => Some(self.timer.writer().frames::<R>(session, time, percent)),
            None => None,
        }
    }

    /// Takes note of how a round of writes went.
    pub fn settle(&mut self, stdout_ok: bool, delivered: &Vec<bool>)
        requires
            old(self)@.wf(),
        ensures
            final(self)@ == (AppView {
                writer: WriterView {
                    stdout: old(self)@.writer.stdout && stdout_ok,
                    streams: kept(old(self)@.writer.streams, delivered@),
                },
                ..old(self)@
            }),
            final(self)@.wf(),
    {
        self.timer.settle(stdout_ok, delivered);
    }
}

} // verus!
