use uair::time::Span;
use uair::time_format::{Numeric, Pad, TimeFormat, TimeFormatToken};
use uair::token::{Color, Token};

#[test]
fn parse_format() {
    assert_eq!(
        &Token::parse("{cyan}{time}{end}\n"),
        &[
            Token::Color(Color::Cyan),
            Token::Time,
            Token::Color(Color::End),
            Token::Literal("\n".into()),
        ]
    );
    assert_eq!(
        &Token::parse("String with {time} with some text ahead."),
        &[
            Token::Literal("String with ".into()),
            Token::Time,
            Token::Literal(" with some text ahead.".into())
        ]
    );
    assert_eq!(
        &Token::parse("}}{}{{}{}}}{{}{{}}}"),
        &[Token::Literal("}}{}{{}{}}}{{}{{}}}".into())]
    );
    assert_eq!(
        &Token::parse("{time} text {time}"),
        &[Token::Time, Token::Literal(" text ".into()), Token::Time,]
    );
}

#[test]
fn parse_time_format() {
    assert_eq!(
        &TimeFormatToken::parse("%H:%M:%S"),
        &[
            TimeFormatToken::Numeric(Numeric::Hour, Pad::Zero, false),
            TimeFormatToken::Literal(":".into()),
            TimeFormatToken::Numeric(Numeric::Minute, Pad::Zero, false),
            TimeFormatToken::Literal(":".into()),
            TimeFormatToken::Numeric(Numeric::Second, Pad::Zero, false),
        ]
    );
    assert_eq!(
        &TimeFormatToken::parse("%L:%M:%S"),
        &[
            TimeFormatToken::Literal("%L".into()),
            TimeFormatToken::Literal(":".into()),
            TimeFormatToken::Numeric(Numeric::Minute, Pad::Zero, false),
            TimeFormatToken::Literal(":".into()),
            TimeFormatToken::Numeric(Numeric::Second, Pad::Zero, false),
        ]
    );
    assert_eq!(
        &TimeFormatToken::parse("%H:%M:%"),
        &[
            TimeFormatToken::Numeric(Numeric::Hour, Pad::Zero, false),
            TimeFormatToken::Literal(":".into()),
            TimeFormatToken::Numeric(Numeric::Minute, Pad::Zero, false),
            TimeFormatToken::Literal(":".into()),
            TimeFormatToken::Literal("%".into()),
        ]
    );
    assert_eq!(
        &TimeFormatToken::parse("%_H:%-M:%S"),
        &[
            TimeFormatToken::Numeric(Numeric::Hour, Pad::Space, false),
            TimeFormatToken::Literal(":".into()),
            TimeFormatToken::Numeric(Numeric::Minute, Pad::Unpadded, false),
            TimeFormatToken::Literal(":".into()),
            TimeFormatToken::Numeric(Numeric::Second, Pad::Zero, false),
        ]
    );
    assert_eq!(
        &TimeFormatToken::parse("%H:%*-M:%S"),
        &[
            TimeFormatToken::Numeric(Numeric::Hour, Pad::Zero, false),
            TimeFormatToken::Literal(":".into()),
            TimeFormatToken::Numeric(Numeric::Minute, Pad::Unpadded, true),
            TimeFormatToken::Literal(":".into()),
            TimeFormatToken::Numeric(Numeric::Second, Pad::Zero, false),
        ]
    );
    assert_eq!(
        &TimeFormatToken::parse("%*-Hh %*-Mm %-Ss"),
        &[
            TimeFormatToken::Numeric(Numeric::Hour, Pad::Unpadded, true),
            TimeFormatToken::Literal("h ".into()),
            TimeFormatToken::Numeric(Numeric::Minute, Pad::Unpadded, true),
            TimeFormatToken::Literal("m ".into()),
            TimeFormatToken::Numeric(Numeric::Second, Pad::Unpadded, false),
            TimeFormatToken::Literal("s".into()),
        ]
    );
}

#[test]
fn valid_min_sec() {
    assert_eq!("00:00", TimeFormat::min_sec(Span::from_secs(0)));
    assert_eq!("00:11", TimeFormat::min_sec(Span::from_secs(11)));
    assert_eq!("03:23", TimeFormat::min_sec(Span::from_secs(203)));
    assert_eq!("59:59", TimeFormat::min_sec(Span::from_secs(3599)));
    assert_eq!("01:00:11", TimeFormat::min_sec(Span::from_secs(3611)));
    assert_eq!("11:00:00", TimeFormat::min_sec(Span::from_secs(39600)));
    assert_eq!("23:59:59", TimeFormat::min_sec(Span::from_secs(86399)));
}

#[test]
fn format_duration_follows_the_format() {
    assert_eq!(TimeFormat::MinSec.format_duration(Span::from_secs(1234)), "20:34");
    assert_eq!(TimeFormat::Humantime.format_duration(Span::from_secs(9420)), "2h 37m");
}

#[test]
fn humantime_writes_the_duration_in_words() {
    assert_eq!(TimeFormat::humantime(Span::from_secs(9420)), "2h 37m");
    assert_eq!(TimeFormat::humantime(Span::new(0, 32_000_000).unwrap()), "32ms");
    assert_eq!(TimeFormat::humantime(Span::from_secs(1500)), "25m");
    assert_eq!(TimeFormat::humantime(Span::zero()), "0s");
}

#[test]
fn placeholders_are_told_from_other_words() {
    assert_eq!(Token::from_str("{name}"), Ok(Token::Name));
    assert_eq!(Token::from_str("{percent}"), Ok(Token::Percent));
    assert_eq!(Token::from_str("{time}"), Ok(Token::Time));
    assert_eq!(Token::from_str("{total}"), Ok(Token::Total));
    assert_eq!(Token::from_str("{state}"), Ok(Token::State));
    assert_eq!(Token::from_str("{black}"), Ok(Token::Color(Color::Black)));
    assert_eq!(Token::from_str("{red}"), Ok(Token::Color(Color::Red)));
    assert_eq!(Token::from_str("{green}"), Ok(Token::Color(Color::Green)));
    assert_eq!(Token::from_str("{yellow}"), Ok(Token::Color(Color::Yellow)));
    assert_eq!(Token::from_str("{blue}"), Ok(Token::Color(Color::Blue)));
    assert_eq!(Token::from_str("{purple}"), Ok(Token::Color(Color::Purple)));
    assert_eq!(Token::from_str("{white}"), Ok(Token::Color(Color::White)));
    assert_eq!(Token::from_str("{end}"), Ok(Token::Color(Color::End)));
    assert_eq!(Token::from_str("time"), Err(()));
    assert_eq!(Token::from_str("{Time}"), Err(()));
    assert_eq!(Token::from_str(""), Err(()));
}

#[test]
fn format_edges() {
    assert_eq!(Token::parse(""), Vec::<Token>::new());
    assert_eq!(Token::parse("{time}"), vec![Token::Time]);
    assert_eq!(Token::parse("{time"), vec![Token::Literal("{time".into())]);
    assert_eq!(
        Token::parse("{time{time}"),
        vec![Token::Literal("{time".into()), Token::Time]
    );
    assert_eq!(
        Token::parse("{name}{state}é{total}"),
        vec![Token::Name, Token::State, Token::Literal("é".into()), Token::Total]
    );
}

#[test]
fn time_format_edges() {
    assert_eq!(TimeFormatToken::parse(""), Vec::<TimeFormatToken>::new());
    assert_eq!(
        TimeFormatToken::parse("plain"),
        vec![TimeFormatToken::Literal("plain".into())]
    );
    assert_eq!(
        TimeFormatToken::parse("%%H"),
        vec![TimeFormatToken::Literal("%%".into()), TimeFormatToken::Literal("H".into())]
    );
    assert_eq!(TimeFormatToken::parse("%*"), vec![TimeFormatToken::Literal("%*".into())]);
    assert_eq!(TimeFormatToken::parse("%0"), vec![TimeFormatToken::Literal("%0".into())]);
    assert_eq!(
        TimeFormatToken::parse("%*_Y%P"),
        vec![
            TimeFormatToken::Numeric(Numeric::Year, Pad::Space, true),
            TimeFormatToken::Plural
        ]
    );
    assert_eq!(
        TimeFormatToken::parse("%B%D"),
        vec![
            TimeFormatToken::Numeric(Numeric::Month, Pad::Zero, false),
            TimeFormatToken::Numeric(Numeric::Day, Pad::Zero, false)
        ]
    );
    assert_eq!(
        TimeFormatToken::identify((Some('*'), Some('-'), Some('x'))),
        TimeFormatToken::Literal("%*-x".into())
    );
}

fn written(token: &Token) -> String {
    match token {
        Token::Name => "{name}".into(),
        Token::Percent => "{percent}".into(),
        Token::Time => "{time}".into(),
        Token::Total => "{total}".into(),
        Token::State => "{state}".into(),
        Token::Color(Color::Black) => "{black}".into(),
        Token::Color(Color::Red) => "{red}".into(),
        Token::Color(Color::Green) => "{green}".into(),
        Token::Color(Color::Yellow) => "{yellow}".into(),
        Token::Color(Color::Blue) => "{blue}".into(),
        Token::Color(Color::Purple) => "{purple}".into(),
        Token::Color(Color::Cyan) => "{cyan}".into(),
        Token::Color(Color::White) => "{white}".into(),
        Token::Color(Color::End) => "{end}".into(),
        Token::Literal(text) => text.clone(),
    }
}

#[test]
fn tokens_spell_the_format() {
    for format in [
        "",
        "{time}",
        "{cyan}{time}{end}\n",
        "}}{}{{}{}}}{{}{{}}}",
        "{name {state}} {percent}% of {total}{",
        "⏸ {time} ⏵",
    ] {
        let tokens = Token::parse(format);
        let spelled: String = tokens.iter().map(written).collect();
        assert_eq!(spelled, format);
        assert!(tokens.iter().all(|t| *t != Token::Literal(String::new())));
    }
}
