//! The timer of a run: its state, the ticks of a countdown, and the sinks
//! that the remaining time is written to.

use crate::session::{shown, shown_text, OverridablesView, Session, SessionView};
use crate::table::lookup;
use crate::time::{Moment, Span};
use crate::time_format::{span_humantime, TimeFormat};
use vstd::prelude::*;

verus! {

/// What the timer is doing.
#[derive(Clone, Copy, Debug, PartialEq, Eq)]
pub enum State {
    /// Nothing has started yet.
    PreInit,
    /// The countdown is halted with this much left.
    Paused(Span),
    /// The countdown runs: it was taken up at the first moment and ends at
    /// the second.
    Resumed(Moment, Moment),
    /// The run is over.
    Finished,
}

/// A `State` with its times in nanoseconds.
pub ghost enum StateView {
    PreInit,
    Paused(nat),
    Resumed(nat, nat),
    Finished,
}

impl View for State {
    type V = StateView;

    open spec fn view(&self) -> StateView {
        match self {
            State::PreInit => StateView::PreInit,
            State::Paused(left) => StateView::Paused(left@),
            State::Resumed(start, dest) => StateView::Resumed(start@, dest@),
            State::Finished => StateView::Finished,
        }
    }
}

/// The first tick of a countdown from `start` to `dest`: as far behind
/// `start` as leaves a whole number of intervals up to `dest`. A countdown
/// whose end lies before its start has no tick.
pub open spec fn first_tick_at(start: nat, dest: nat, interval: nat) -> Option<nat> {
    if start <= dest {
        Some((start + (dest - start) % (interval as int)) as nat)
    } else {
        None
    }
}

/// The tick that follows the one at `end`: one interval later, unless that
/// lies behind `dest`.
pub open spec fn next_tick_at(end: nat, dest: nat, interval: nat) -> Option<nat> {
    if end + interval <= dest {
        Some(end + interval)
    } else {
        None
    }
}

/// The tick number `k` of a countdown, counted from zero.
pub open spec fn tick_at(start: nat, dest: nat, interval: nat, k: nat) -> Option<nat>
    decreases k,
{
    if k == 0 {
        first_tick_at(start, dest, interval)
    } else {
        match tick_at(start, dest, interval, (k - 1) as nat) {
            Some(end) => next_tick_at(end, dest, interval),
            None => None,
        }
    }
}

/// The ticks of a countdown lie whole intervals before its end: tick `k`
/// leaves `(dest - start) / interval - k` intervals, the last of them falls
/// on `dest` itself, and none follows it.
pub proof fn lemma_ticks_count_down(start: nat, dest: nat, interval: nat, k: nat)
    requires
        interval > 0,
        start <= dest,
    ensures
        ({
            let whole = (dest - start) / (interval as int);
            match tick_at(start, dest, interval, k) {
                Some(end) => k <= whole && dest - end == (whole - k) * interval,
                None => k > whole,
            }
        }),
    decreases k,
{
    let span = dest - start;
    let whole = span / (interval as int);
    let part = span % (interval as int);
    assert(span == whole * interval + part && 0 <= part < interval && whole >= 0)
        by (nonlinear_arith)
        requires
            interval > 0,
            span >= 0,
            whole == span / (interval as int),
            part == span % (interval as int),
    ;
    if k == 0 {
        assert((whole - 0) * interval == whole * interval) by (nonlinear_arith);
    } else {
        lemma_ticks_count_down(start, dest, interval, (k - 1) as nat);
        match tick_at(start, dest, interval, (k - 1) as nat) {
            Some(end) => {
                assert((whole - (k - 1)) * interval == (whole - k) * interval + interval)
                    by (nonlinear_arith);
                if k <= whole {
                    assert((whole - k) * interval >= 0) by (nonlinear_arith)
                        requires
                            whole - k >= 0,
                            interval > 0,
                    ;
                } else {
                    assert(k - 1 == whole);
                    assert((whole - (k - 1)) * interval == 0) by (nonlinear_arith)
                        requires
                            whole - (k - 1) == 0,
                    ;
                }
            },
            None => {},
        }
    }
}

/// A `Writer` as plain values.
pub ghost struct WriterView {
    pub stdout: bool,
    pub streams: Seq<(u64, Option<Seq<char>>)>,
}

/// The sinks that the remaining time is written to: standard output, unless
/// it is switched off, and the connections of the clients that listen.
pub struct Writer {
    streams: Vec<(u64, Option<String>)>,
    stdout: bool,
}

impl View for Writer {
    type V = WriterView;

    closed spec fn view(&self) -> WriterView {
        WriterView { stdout: self.stdout, streams: self.streams.deep_view() }
    }
}

/// What is to be written to each sink: the text for standard output, where
/// it is in use, and for each listening client the handle of its connection
/// with the text for it.
#[derive(Debug, PartialEq)]
pub struct Frames {
    pub stdout: Option<String>,
    pub streams: Vec<(u64, String)>,
}

/// The override that a name picks from a session's table; none where no
/// name is given or the table has no such name.
pub open spec fn resolved(session: SessionView, overrid: Option<Seq<char>>) -> Option<
    OverridablesView,
> {
    match overrid {
        Some(name) => lookup(session.overrides, name),
        None => None,
    }
}

/// The text that shows `session` at `time` to a sink that asked for `overrid`.
pub open spec fn frame_text(
    session: SessionView,
    time: nat,
    overrid: Option<Seq<char>>,
    resumed: bool,
    percent: u8,
) -> Seq<char> {
    shown_text(
        shown(session, time, resolved(session, overrid), resumed),
        percent,
        span_humantime(session.duration),
    )
}

/// What is to be written to each listening client, in their order: the
/// handle of its connection with the text for it, which ends in a NUL.
pub open spec fn stream_frames(
    streams: Seq<(u64, Option<Seq<char>>)>,
    session: SessionView,
    time: nat,
    resumed: bool,
    percent: u8,
) -> Seq<(u64, Seq<char>)> {
    Seq::new(
        streams.len(),
        |i: int|
            (streams[i].0, frame_text(session, time, streams[i].1, resumed, percent).push('\0')),
    )
}

/// Whether the sink at `i` is reported to have failed.
pub open spec fn failed(delivered: Seq<bool>, i: int) -> bool {
    0 <= i < delivered.len() && !delivered[i]
}

/// The sinks that stay after a round of writes: those not reported to have
/// failed, in their order.
pub open spec fn kept<T>(sinks: Seq<T>, delivered: Seq<bool>) -> Seq<T>
    decreases sinks.len(),
{
    if sinks.len() == 0 {
        Seq::empty()
    } else if failed(delivered, sinks.len() - 1) {
        kept(sinks.drop_last(), delivered)
    } else {
        kept(sinks.drop_last(), delivered).push(sinks.last())
    }
}

/// Where no write failed, every sink stays.
pub proof fn lemma_all_delivered<T>(sinks: Seq<T>, delivered: Seq<bool>)
    requires
        forall|i: int| 0 <= i < sinks.len() ==> !failed(delivered, i),
    ensures
        kept(sinks, delivered) == sinks,
    decreases sinks.len(),
{
    if sinks.len() > 0 {
        lemma_all_delivered(sinks.drop_last(), delivered);
        assert(sinks.drop_last().push(sinks.last()) == sinks);
    }
}

/// Where the write to one sink fails and all others succeed, exactly that
/// sink leaves, and the others stay as they were, in their order.
pub proof fn lemma_failed_sink_leaves<T>(sinks: Seq<T>, delivered: Seq<bool>, k: int)
    requires
        0 <= k < sinks.len(),
        failed(delivered, k),
        forall|i: int| 0 <= i < sinks.len() && i != k ==> !failed(delivered, i),
    ensures
        kept(sinks, delivered) == sinks.remove(k),
    decreases sinks.len(),
{
    let shorter = sinks.drop_last();
    if k == sinks.len() - 1 {
        lemma_all_delivered(shorter, delivered);
        assert(sinks.remove(k) == shorter);
    } else {
        lemma_failed_sink_leaves(shorter, delivered, k);
        assert(shorter.remove(k).push(sinks.last()) == sinks.remove(k));
    }
}

/// Where the write to one client fails and all others succeed, every
/// client is written to in that round, and in the rounds that follow
/// exactly the others are, with the text that is theirs.
pub proof fn lemma_failed_client_gets_no_more(
    streams: Seq<(u64, Option<Seq<char>>)>,
    delivered: Seq<bool>,
    k: int,
    session: SessionView,
    time: nat,
    resumed: bool,
    percent: u8,
)
    requires
        0 <= k < streams.len(),
        failed(delivered, k),
        forall|i: int| 0 <= i < streams.len() && i != k ==> !failed(delivered, i),
    ensures
        stream_frames(streams, session, time, resumed, percent).len() == streams.len(),
        stream_frames(kept(streams, delivered), session, time, resumed, percent) == stream_frames(
            streams,
            session,
            time,
            resumed,
            percent,
        ).remove(k),
{
    lemma_failed_sink_leaves(streams, delivered, k);
    assert(stream_frames(streams.remove(k), session, time, resumed, percent) =~= stream_frames(
        streams,
        session,
        time,
        resumed,
        percent,
    ).remove(k));
}

/// A sink is kept exactly if its write is not reported to have failed:
/// every sink that is kept was such a sink, and every such sink is kept.
pub proof fn lemma_kept_sinks<T>(sinks: Seq<T>, delivered: Seq<bool>)
    ensures
        kept(sinks, delivered).len() <= sinks.len(),
        forall|j: int|
            0 <= j < kept(sinks, delivered).len() ==> exists|i: int|
                0 <= i < sinks.len() && !failed(delivered, i) && sinks[i] == #[trigger] kept(
                    sinks,
                    delivered,
                )[j],
        forall|i: int|
            0 <= i < sinks.len() && !failed(delivered, i) ==> kept(sinks, delivered).contains(
                #[trigger] sinks[i],
            ),
    decreases sinks.len(),
{
    if sinks.len() > 0 {
        let shorter = sinks.drop_last();
        let rest = kept(shorter, delivered);
        let all = kept(sinks, delivered);
        lemma_kept_sinks(shorter, delivered);
        assert forall|j: int| 0 <= j < all.len() implies exists|i: int|
            0 <= i < sinks.len() && !failed(delivered, i) && sinks[i] == #[trigger] all[j] by {
            if j < rest.len() {
                let i = choose|i: int|
                    0 <= i < shorter.len() && !failed(delivered, i) && shorter[i] == rest[j];
                assert(sinks[i] == all[j]);
            } else {
                assert(sinks[sinks.len() - 1] == all[j]);
            }
        }
        assert forall|i: int| 0 <= i < sinks.len() && !failed(delivered, i) implies all.contains(
            #[trigger] sinks[i],
        ) by {
            if i < shorter.len() {
                assert(shorter[i] == sinks[i]);
                let j = choose|j: int| 0 <= j < rest.len() && rest[j] == shorter[i];
                assert(all[j] == sinks[i]);
            } else {
                assert(all[all.len() - 1] == sinks[i]);
            }
        }
    }
}

/// Whether a client that asks for `overrid` may listen: it asks for none,
/// or the active session has an override of that name.
pub open spec fn listen_accepted(session: Option<SessionView>, overrid: Option<Seq<char>>)
    -> bool {
    match overrid {
        None => true,
        Some(name) => match session {
            Some(s) => s.overrides.contains_key(name),
            None => false,
        },
    }
}

/// What a client is sent whose request to listen is refused: one zero byte.
pub fn rejection() -> (reply: Vec<u8>)
    ensures
        reply@ == seq![0u8],
{
    let mut reply: Vec<u8> = Vec::new();
    reply.push(0);
    reply
}

impl Writer {
    /// The sinks at the start: standard output unless `quiet`, and no client.
    pub fn new(quiet: bool) -> (writer: Writer)
        ensures
            writer@ == (WriterView { stdout: !quiet, streams: Seq::empty() }),
    {
        let writer = Writer { streams: Vec::new(), stdout: !quiet };
        assert(writer.streams.deep_view() =~= Seq::empty());
        writer
    }

    /// Takes in the client on connection `stream`, which asked for `overrid`.
    pub fn add_stream(&mut self, stream: u64, overrid: Option<String>)
        ensures
            final(self)@ == (WriterView {
                streams: old(self)@.streams.push((stream, overrid.deep_view())),
                ..old(self)@
            }),
    {
        self.streams.push((stream, overrid));
        assert(self.streams.deep_view() =~= old(self).streams.deep_view().push(
            (stream, overrid.deep_view()),
        ));
    }

    /// Takes in the client on connection `stream` if its request is in
    /// order, and says whether it did. A client that names an override
    /// which the active session does not have is refused.
    pub fn register(&mut self, session: Option<&Session>, stream: u64, overrid: Option<String>)
        -> (accepted: bool)
        ensures
            accepted == listen_accepted(session.deep_view(), overrid.deep_view()),
            final(self)@ == if accepted {
                WriterView {
                    streams: old(self)@.streams.push((stream, overrid.deep_view())),
                    ..old(self)@
                }
            } else {
                old(self)@
            },
    {
        let accepted = match &overrid {
            None => true,
            Some(name) => match session {
                Some(s) => s.overrides.contains(name.as_str()),
                None => false,
            },
        };
        if accepted {
            self.add_stream(stream, overrid);
        }
        accepted
    }

    /// What is to be written to each sink to show `session` at `duration`,
    /// counting (`R`) or halted. `percent` is the share of the session's
    /// length that `duration` makes up. Each client's text ends in a NUL.
    pub fn frames<const R: bool>(&self, session: &Session, duration: Span, percent: u8) -> (frames:
        Frames)
        ensures
            frames.stdout.deep_view() == if self@.stdout {
                Some(frame_text(session.deep_view(), duration@, None, R, percent))
            } else {
                None
            },
            frames.streams.deep_view() == stream_frames(
                self@.streams,
                session.deep_view(),
                duration@,
                R,
                percent,
            ),
    {
        let total = TimeFormat::humantime(session.duration);
        let stdout = if self.stdout {
            Some(session.display::<R>(duration, None).render_with(percent, total.as_str()))
        } else {
            None
        };
        let ghost wanted = stream_frames(
            self@.streams,
            session.deep_view(),
            duration@,
            R,
            percent,
        );
        let mut streams: Vec<(u64, String)> = Vec::new();
        let mut i: usize = 0;
        while i < self.streams.len()
            invariant
                i <= self.streams.len(),
                streams.len() == i,
                total@ == span_humantime(session.deep_view().duration),
                wanted == stream_frames(
                    self@.streams,
                    session.deep_view(),
                    duration@,
                    R,
                    percent,
                ),
                forall|j: int| 0 <= j < i ==> (#[trigger] streams@[j]).deep_view() == wanted[j],
            decreases self.streams.len() - i,
        {
            assert(self@.streams[i as int] == self.streams@[i as int].deep_view());
            let overrid = match &self.streams[i].1 {
                Some(name) => session.overrides.get(name.as_str()),
                None => None,
            };
            let mut text = session.display::<R>(duration, overrid).render_with(
                percent,
                total.as_str(),
            );
            text.push('\0');
            streams.push((self.streams[i].0, text));
            i += 1;
        }
        assert(streams.deep_view() =~= wanted);
        Frames { stdout, streams }
    }

    /// Takes note of how a round of writes went: standard output is given
    /// up for good once a write to it fails, and each client whose write is
    /// reported to have failed leaves.
    pub fn settle(&mut self, stdout_ok: bool, delivered: &Vec<bool>)
        ensures
            final(self)@ == (WriterView {
                stdout: old(self)@.stdout && stdout_ok,
                streams: kept(old(self)@.streams, delivered@),
            }),
    {
        let ghost before = self.streams.deep_view();
        let mut streams: Vec<(u64, Option<String>)> = Vec::new();
        let mut i: usize = 0;
        assert(streams.deep_view() =~= kept(before.take(0), delivered@));
        while i < self.streams.len()
            invariant
                i <= self.streams.len(),
                before == self.streams.deep_view(),
                streams.deep_view() == kept(before.take(i as int), delivered@),
            decreases self.streams.len() - i,
        {
            assert(before[i as int] == self.streams@[i as int].deep_view());
            assert(before.take(i + 1).drop_last() == before.take(i as int));
            let ghost so_far = streams.deep_view();
            if i >= delivered.len() || delivered[i] {
                let entry = (self.streams[i].0, self.streams[i].1.clone());
                streams.push(entry);
                assert(streams.deep_view() =~= so_far.push(before[i as int]));
            }
            i += 1;
        }
        assert(before.take(i as int) == before);
        self.streams = streams;
        self.stdout = self.stdout && stdout_ok;
    }
}

/// The timer: the interval between ticks, the sinks, and the state.
pub struct UairTimer {
    interval: Span,
    writer: Writer,
    state: State,
}

impl UairTimer {
    /// The interval between ticks, in nanoseconds.
    pub closed spec fn interval(&self) -> nat {
        self.interval@
    }

    /// The state of the timer.
    pub closed spec fn state_view(&self) -> StateView {
        self.state@
    }

    /// The sinks of the timer.
    pub closed spec fn writer_view(&self) -> WriterView {
        self.writer@
    }

    /// A timer that has not started, with ticks `interval` apart.
    pub fn new(interval: Span, quiet: bool) -> (timer: UairTimer)
        requires
            interval@ > 0,
        ensures
            timer.interval() == interval@,
            timer.state_view() == StateView::PreInit,
            timer.writer_view() == (WriterView { stdout: !quiet, streams: Seq::empty() }),
    {
        UairTimer { interval, writer: Writer::new(quiet), state: State::PreInit }
    }

    /// The state of the timer.
    pub fn state(&self) -> (state: State)
        ensures
            state@ == self.state_view(),
    {
        self.state
    }

    /// Puts the timer in the state `state`.
    pub fn set_state(&mut self, state: State)
        ensures
            final(self).state_view() == state@,
            final(self).writer_view() == old(self).writer_view(),
            final(self).interval() == old(self).interval(),
    {
        self.state = state;
    }

    /// The sinks of the timer.
    pub fn writer(&self) -> (writer: &Writer)
        ensures
            writer@ == self.writer_view(),
    {
        &self.writer
    }

    /// Takes in the client on connection `stream` if its request is in
    /// order, and says whether it did.
    pub fn register(&mut self, session: Option<&Session>, stream: u64, overrid: Option<String>)
        -> (accepted: bool)
        ensures
            accepted == listen_accepted(session.deep_view(), overrid.deep_view()),
            final(self).writer_view() == if accepted {
                WriterView {
                    streams: old(self).writer_view().streams.push((stream, overrid.deep_view())),
                    ..old(self).writer_view()
                }
            } else {
                old(self).writer_view()
            },
            final(self).state_view() == old(self).state_view(),
            final(self).interval() == old(self).interval(),
    {
        self.writer.register(session, stream, overrid)
    }

    /// Takes note of how a round of writes went.
    pub fn settle(&mut self, stdout_ok: bool, delivered: &Vec<bool>)
        ensures
            final(self).writer_view() == (WriterView {
                stdout: old(self).writer_view().stdout && stdout_ok,
                streams: kept(old(self).writer_view().streams, delivered@),
            }),
            final(self).state_view() == old(self).state_view(),
            final(self).interval() == old(self).interval(),
    {
        self.writer.settle(stdout_ok, delivered);
    }

    /// The first tick of a countdown from `start` to `dest`.
    pub fn first_tick(&self, start: Moment, dest: Moment) -> (tick: Option<Moment>)
        requires
            self.interval() > 0,
        ensures
            match tick {
                Some(t) => first_tick_at(start@, dest@, self.interval()) == Some(t@),
                None => first_tick_at(start@, dest@, self.interval()) is None,
            },
    {
        if start.le(&dest) {
            let left = dest.since(&start);
            let part = left.rem(&self.interval);
            assert(part@ <= left@) by (nonlinear_arith)
                requires
                    part@ == left@ % self.interval@,
                    self.interval@ > 0,
            ;
            let whole = left.saturating_sub(&part);
            Some(dest.minus(&whole))
        } else {
            None
        }
    }

    /// The tick that follows the one at `end` in a countdown to `dest`.
    pub fn next_tick(&self, end: Moment, dest: Moment) -> (tick: Option<Moment>)
        ensures
            match tick {
                Some(t) => next_tick_at(end@, dest@, self.interval()) == Some(t@),
                None => next_tick_at(end@, dest@, self.interval()) is None,
            },
    {
        let limit = dest.since_origin();
        match end.since_origin().checked_add(&self.interval) {
            Some(next) => if next.le(&limit) {
                Some(Moment::new(next))
            } else {
                None
            },
            None => None,
        }
    }
}

} // verus!
