use uair::session::{Overridables, Session};
use uair::table::Table;
use uair::time::{Moment, Span};
use uair::time_format::TimeFormatToken;
use uair::token::Token;

fn session(format: &str, time_format: &str) -> Session {
    Session {
        id: "work".into(),
        name: "Work".into(),
        duration: Span::from_secs(1500),
        command: "notify-send done".into(),
        format: Token::parse(format),
        time_format: TimeFormatToken::parse(time_format),
        autostart: false,
        paused_state_text: "⏸".into(),
        resumed_state_text: "⏵".into(),
        overrides: Table::new(),
    }
}

const DEFAULT_TIME: &str = "%*-Yyear%P %*-Bmonth%P %*-Dday%P %*-Hh %*-Mm %*-Ss";

#[test]
fn every_token_writes_its_part() {
    let s = session("{name} {time} {percent}% {total} {state}{red}x{end}\n", DEFAULT_TIME);
    let text = s.display::<true>(Span::from_secs(1499), None).render(99);
    assert_eq!(text, "Work 24m 59s 99% 25m ⏵\x1b[0;31mx\x1b[0m\n");
    let text = s.display::<false>(Span::from_secs(1499), None).render(99);
    assert_eq!(text, "Work 24m 59s 99% 25m ⏸\x1b[0;31mx\x1b[0m\n");
}

#[test]
fn the_length_in_words_can_be_given() {
    let s = session("{total}|{time}", "%M:%S");
    let shown = s.display::<true>(Span::from_secs(61), None);
    assert_eq!(shown.render_with(0, "a while"), "a while|01:01");
    assert_eq!(shown.render(0), "25m|01:01");
}

#[test]
fn colours_have_their_codes() {
    let s = session(
        "{black}{red}{green}{yellow}{blue}{purple}{cyan}{white}{end}",
        DEFAULT_TIME,
    );
    assert_eq!(
        s.display::<true>(Span::zero(), None).render(0),
        "\x1b[0;30m\x1b[0;31m\x1b[0;32m\x1b[0;33m\x1b[0;34m\x1b[0;35m\x1b[0;36m\x1b[0;37m\x1b[0m"
    );
}

#[test]
fn time_units_and_padding() {
    let show = |time_format: &str, secs: u64| {
        session("{time}", time_format).display::<true>(Span::from_secs(secs), None).render(0)
    };
    assert_eq!(show("%H:%M:%S", 3723), "01:02:03");
    assert_eq!(show("%_H:%_M:%_S", 3723), " 1: 2: 3");
    assert_eq!(show("%-H:%-M:%-S", 3723), "1:2:3");
    assert_eq!(show("%H:%M:%S", 86_399), "23:59:59");
    // A year has 365.25 days and a month 30.44.
    assert_eq!(show("%-Y %-B %-D", 31_557_600), "1 0 0");
    assert_eq!(show("%-Y %-B %-D", 31_557_600 + 2_630_016 + 86_400), "1 1 1");
    assert_eq!(show("%-Y", 315_576_000_000), "10000");
    assert_eq!(show("%-B %-D %-H", 2_630_015), "0 30 10");
    // Sub-second parts do not show.
    let s = session("{time}", "%S");
    assert_eq!(s.display::<true>(Span::new(5, 999_999_999).unwrap(), None).render(0), "05");
}

#[test]
fn zero_units_can_be_left_out_with_their_text() {
    let show = |secs: u64| {
        session("{time}", DEFAULT_TIME).display::<true>(Span::from_secs(secs), None).render(0)
    };
    assert_eq!(show(0), "");
    assert_eq!(show(59), "59s");
    assert_eq!(show(60), "1m ");
    assert_eq!(show(3600), "1h ");
    assert_eq!(show(86_400 + 1), "1day 1s");
    assert_eq!(show(2 * 86_400 + 3 * 3600), "2days 3h ");
    assert_eq!(show(2 * 31_557_600 + 2_630_016), "2years 1month ");
}

#[test]
fn an_override_replaces_what_it_gives() {
    let s = session("{state} {time}", "%M:%S");
    let mut o = Overridables::new().format("<{time}|{state}>");
    let at = Span::from_secs(90);
    assert_eq!(s.display::<true>(at, Some(&o)).render(0), "<01:30|⏵>");
    o.time_format = Some(TimeFormatToken::parse("%-Ss"));
    o.resumed_state_text = Some("on".into());
    assert_eq!(s.display::<true>(at, Some(&o)).render(0), "<30s|on>");
    assert_eq!(s.display::<false>(at, Some(&o)).render(0), "<30s|⏸>");
    o.paused_state_text = Some("off".into());
    o.format = None;
    assert_eq!(s.display::<false>(at, Some(&o)).render(0), "off 30s");
    assert_eq!(s.display::<false>(at, Some(&Overridables::new())).render(0), "⏸ 01:30");
}

#[test]
fn a_session_without_command_runs_nothing() {
    let mut s = session("", "");
    let action = s.end_action().unwrap();
    assert_eq!(action.name, "Work");
    assert_eq!(action.duration, "25m");
    assert_eq!(action.command, "notify-send done");
    s.command = String::new();
    assert_eq!(s.end_action(), None);
}

#[test]
fn spans_and_moments_add_up() {
    assert_eq!(Span::new(1, 1_000_000_000), None);
    let a = Span::new(1, 700_000_000).unwrap();
    let b = Span::new(2, 600_000_000).unwrap();
    let sum = a.checked_add(&b).unwrap();
    assert_eq!((sum.as_secs(), sum.subsec_nanos()), (4, 300_000_000));
    assert_eq!(b.saturating_sub(&a), Span::new(0, 900_000_000).unwrap());
    assert_eq!(a.saturating_sub(&b), Span::zero());
    assert!(a.le(&b) && !b.le(&a));
    assert_eq!(Span::from_nanos(2_300_000_000), Span::new(2, 300_000_000).unwrap());
    assert_eq!(b.rem(&Span::from_secs(1)), Span::from_nanos(600_000_000));
    assert_eq!(b.rem(&Span::from_nanos(700_000_000)), Span::from_nanos(500_000_000));
    let longest = Span::new(u64::MAX, 999_999_999).unwrap();
    assert_eq!(longest.checked_add(&Span::from_nanos(1)), None);
    assert_eq!(longest.saturating_add(&a), longest);
    assert!(Span::zero().is_zero() && !a.is_zero());

    let t = Moment::new(a);
    assert_eq!(t.since_origin(), a);
    assert_eq!(t.plus(&b), Moment::new(sum));
    assert_eq!(t.plus(&b).since(&t), b);
    assert_eq!(t.since(&t.plus(&b)), Span::zero());
    assert_eq!(t.plus(&b).minus(&b), t);
    assert_eq!(t.minus(&b), Moment::new(Span::zero()));
    assert!(t.le(&t.plus(&b)));
    assert_eq!(Moment::new(longest).plus(&a), Moment::new(longest));
}
