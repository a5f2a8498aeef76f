use uair::app::{Action, App, Event};
use uair::config::Config;
use uair::session::{Overridables, Session};
use uair::table::Table;
use uair::time::{Moment, Span};
use uair::time_format::TimeFormatToken;
use uair::timer::{rejection, Writer};
use uair::token::Token;

fn session() -> Session {
    let mut overrides = Table::new();
    overrides.insert("short".to_string(), Overridables::new().format("{time}"));
    let mut long = Overridables::new().format("{name} is {state} with {time} of {total} left");
    long.time_format = Some(TimeFormatToken::parse("%-Mm%-Ss"));
    long.resumed_state_text = Some("on".into());
    overrides.insert("long".to_string(), long);
    Session {
        id: "work".into(),
        name: "Work".into(),
        duration: Span::from_secs(1500),
        command: String::new(),
        format: Token::parse("{state} {time}\n"),
        time_format: TimeFormatToken::parse("%M:%S"),
        autostart: false,
        paused_state_text: "||".into(),
        resumed_state_text: ">".into(),
        overrides,
    }
}

fn streams(writer: &Writer, s: &Session) -> Vec<(u64, String)> {
    writer.frames::<true>(s, Span::from_secs(61), 4).streams
}

#[test]
fn every_sink_gets_its_own_text() {
    let s = session();
    let mut writer = Writer::new(false);
    writer.add_stream(7, None);
    writer.add_stream(8, Some("short".into()));
    writer.add_stream(9, Some("long".into()));
    writer.add_stream(10, Some("gone".into()));
    let frames = writer.frames::<true>(&s, Span::from_secs(61), 4);
    assert_eq!(frames.stdout, Some("> 01:01\n".to_string()));
    assert_eq!(
        frames.streams,
        vec![
            (7, "> 01:01\n\0".to_string()),
            (8, "01:01\0".to_string()),
            (9, "Work is on with 1m1s of 25m left\0".to_string()),
            (10, "> 01:01\n\0".to_string()),
        ]
    );
    let frames = writer.frames::<false>(&s, Span::from_secs(61), 4);
    assert_eq!(frames.stdout, Some("|| 01:01\n".to_string()));
    assert_eq!(frames.streams[2], (9, "Work is || with 1m1s of 25m left\0".to_string()));
    assert_eq!(Writer::new(true).frames::<true>(&s, Span::zero(), 0).stdout, None);
}

#[test]
fn a_sink_that_fails_leaves_and_the_others_stay() {
    let s = session();
    let mut writer = Writer::new(false);
    for stream in 1..=4 {
        writer.add_stream(stream, None);
    }
    // All four get their text in this round, whichever of them fails.
    assert_eq!(streams(&writer, &s).len(), 4);
    writer.settle(true, &vec![true, true, false, true]);
    let left: Vec<u64> = streams(&writer, &s).into_iter().map(|f| f.0).collect();
    assert_eq!(left, vec![1, 2, 4]);
    assert!(writer.frames::<true>(&s, Span::zero(), 0).stdout.is_some());
    // It stays away in the rounds that follow.
    writer.settle(true, &vec![true, true, true]);
    let left: Vec<u64> = streams(&writer, &s).into_iter().map(|f| f.0).collect();
    assert_eq!(left, vec![1, 2, 4]);
    writer.settle(true, &vec![false, true, false]);
    assert_eq!(streams(&writer, &s), vec![(2, "> 01:01\n\0".to_string())]);
    // A sink of which nothing is reported stays.
    writer.settle(true, &Vec::new());
    assert_eq!(streams(&writer, &s).len(), 1);
    writer.settle(true, &vec![false]);
    assert_eq!(streams(&writer, &s).len(), 0);
}

#[test]
fn standard_output_is_given_up_for_good() {
    let s = session();
    let mut writer = Writer::new(false);
    writer.settle(true, &Vec::new());
    assert!(writer.frames::<true>(&s, Span::zero(), 0).stdout.is_some());
    writer.settle(false, &Vec::new());
    assert_eq!(writer.frames::<true>(&s, Span::zero(), 0).stdout, None);
    writer.settle(true, &Vec::new());
    assert_eq!(writer.frames::<true>(&s, Span::zero(), 0).stdout, None);
}

#[test]
fn an_unknown_override_is_refused() {
    let s = session();
    let mut writer = Writer::new(true);
    assert!(writer.register(Some(&s), 1, None));
    assert!(writer.register(Some(&s), 2, Some("short".into())));
    assert!(!writer.register(Some(&s), 3, Some("nothing".into())));
    assert!(!writer.register(None, 4, Some("short".into())));
    assert!(writer.register(None, 5, None));
    let ids: Vec<u64> = streams(&writer, &s).into_iter().map(|f| f.0).collect();
    assert_eq!(ids, vec![1, 2, 5]);
    assert_eq!(rejection(), vec![0u8]);
}

#[test]
fn the_scheduler_refuses_with_a_single_zero_byte() {
    let config = Config {
        iterations: Some(1),
        pause_at_start: false,
        startup_text: String::new(),
        sessions: vec![session()],
    };
    let mut app = App::new(config, true);
    let now = Moment::new(Span::zero());
    app.step(None, now);
    assert_eq!(
        app.step(Some(Event::Listen(Some("nothing".into()), 11)), now),
        Action::Reject { stream: 11, reply: vec![0u8] }
    );
    assert_eq!(app.frames::<false>(Span::zero(), 0).unwrap().streams.len(), 0);
    assert_eq!(
        app.step(Some(Event::Listen(Some("short".into()), 12)), now),
        Action::Subscribed { stream: 12 }
    );
    assert_eq!(app.step(Some(Event::Listen(None, 13)), now), Action::Subscribed { stream: 13 });
    let frames = app.frames::<false>(Span::from_secs(1500), 100).unwrap();
    assert_eq!(frames.stdout, None);
    assert_eq!(
        frames.streams,
        vec![(12, "25:00\0".to_string()), (13, "|| 25:00\n\0".to_string())]
    );
    app.settle(true, &vec![false, true]);
    assert_eq!(
        app.frames::<false>(Span::from_secs(1500), 100).unwrap().streams,
        vec![(13, "|| 25:00\n\0".to_string())]
    );
    let empty = App::new(
        Config {
            iterations: None,
            pause_at_start: true,
            startup_text: String::new(),
            sessions: Vec::new(),
        },
        false,
    );
    assert_eq!(empty.frames::<true>(Span::zero(), 0), None);
}
