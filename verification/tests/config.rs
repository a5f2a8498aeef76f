use uair::config::{
    get_config_path, ConfigBuilder, Defaults, OverridablesBuilder, SessionBuilder,
};
use uair::get_socket_path;
use uair::table::Table;
use uair::time::Span;
use uair::time_format::TimeFormatToken;
use uair::token::Token;

fn bare(id: &str) -> SessionBuilder {
    SessionBuilder {
        id: id.into(),
        name: None,
        duration: None,
        command: None,
        format: None,
        time_format: None,
        autostart: None,
        paused_state_text: None,
        resumed_state_text: None,
        overrides: Table::new(),
    }
}

fn builder(
    loop_on_end: bool,
    iterations: Option<u64>,
    sessions: Vec<SessionBuilder>,
) -> ConfigBuilder {
    ConfigBuilder {
        loop_on_end,
        iterations,
        pause_at_start: true,
        startup_text: "hello".into(),
        defaults: Defaults::default(),
        sessions,
    }
}

fn given(format: Option<&str>, paused: Option<&str>) -> OverridablesBuilder {
    OverridablesBuilder {
        format: format.map(String::from),
        time_format: None,
        paused_state_text: paused.map(String::from),
        resumed_state_text: None,
    }
}

#[test]
fn defaults_are_as_documented() {
    assert_eq!(Defaults::name(), "Work");
    assert_eq!(Defaults::duration(), Span::from_secs(25 * 60));
    assert_eq!(Defaults::command(), "notify-send 'Session Completed!'");
    assert_eq!(Defaults::format(), "{time}\n");
    assert_eq!(
        Defaults::time_format(),
        "%*-Yyear%P %*-Bmonth%P %*-Dday%P %*-Hh %*-Mm %*-Ss"
    );
    assert!(!Defaults::autostart());
    assert_eq!(Defaults::paused_state_text(), "⏸");
    assert_eq!(Defaults::resumed_state_text(), "⏵");
    assert!(Defaults::overrides().entries.is_empty());
    let d = Defaults::default();
    assert_eq!(d.name, "Work");
    assert_eq!(d.duration, Span::from_secs(1500));
    assert_eq!(d.format, "{time}\n");
}

#[test]
fn iterations_follow_the_loop_flag() {
    assert_eq!(builder(false, None, Vec::new()).build().iterations, Some(1));
    assert_eq!(builder(false, Some(4), Vec::new()).build().iterations, Some(4));
    assert_eq!(builder(false, Some(0), Vec::new()).build().iterations, Some(0));
    assert_eq!(builder(true, None, Vec::new()).build().iterations, None);
    assert_eq!(builder(true, Some(4), Vec::new()).build().iterations, None);
    assert_eq!(builder(true, Some(0), Vec::new()).build().iterations, Some(0));
}

#[test]
fn sessions_take_what_they_leave_open_from_the_defaults() {
    let mut own = bare("rest");
    own.name = Some("Rest".into());
    own.duration = Some(Span::from_secs(300));
    own.format = Some("{state} {time}".into());
    own.autostart = Some(true);
    let config = builder(false, None, vec![bare("work"), own]).build();
    assert!(config.pause_at_start);
    assert_eq!(config.startup_text, "hello");
    assert_eq!(config.sessions.len(), 2);
    let work = &config.sessions[0];
    assert_eq!(work.id, "work");
    assert_eq!(work.name, "Work");
    assert_eq!(work.duration, Span::from_secs(1500));
    assert_eq!(work.command, "notify-send 'Session Completed!'");
    assert_eq!(work.format, vec![Token::Time, Token::Literal("\n".into())]);
    assert_eq!(work.time_format, TimeFormatToken::parse(&Defaults::time_format()));
    assert!(!work.autostart);
    assert_eq!(work.paused_state_text, "⏸");
    assert_eq!(work.resumed_state_text, "⏵");
    let rest = &config.sessions[1];
    assert_eq!(rest.id, "rest");
    assert_eq!(rest.name, "Rest");
    assert_eq!(rest.duration, Span::from_secs(300));
    assert_eq!(rest.format, vec![Token::State, Token::Literal(" ".into()), Token::Time]);
    assert!(rest.autostart);
}

#[test]
fn overrides_are_built_over_the_default_of_their_name() {
    let mut defaults = Defaults::default();
    defaults.overrides.insert("bar".into(), given(Some("{time}"), Some("zz")));
    defaults.overrides.insert("only_default".into(), given(Some("d"), None));
    let mut own = bare("work");
    own.overrides.insert("bar".into(), given(None, Some("halt")));
    own.overrides.insert("only_own".into(), given(Some("{name}"), None));
    let session = own.build(&defaults);

    let bar = session.overrides.get("bar").unwrap();
    assert_eq!(bar.format, Some(vec![Token::Time]));
    assert_eq!(bar.paused_state_text, Some("halt".to_string()));
    assert_eq!(bar.time_format, None);
    let only_default = session.overrides.get("only_default").unwrap();
    assert_eq!(only_default.format, Some(vec![Token::Literal("d".into())]));
    assert_eq!(only_default.paused_state_text, None);
    let only_own = session.overrides.get("only_own").unwrap();
    assert_eq!(only_own.format, Some(vec![Token::Name]));
    assert!(session.overrides.get("other").is_none());
    assert!(session.overrides.contains("bar"));
    assert!(!session.overrides.contains("other"));
}

#[test]
fn an_override_builder_fills_in_from_its_default() {
    let default = OverridablesBuilder {
        format: Some("{name}".into()),
        time_format: Some("%S".into()),
        paused_state_text: None,
        resumed_state_text: Some("go".into()),
    };
    let own = OverridablesBuilder {
        format: Some("{time}".into()),
        time_format: None,
        paused_state_text: Some("stop".into()),
        resumed_state_text: None,
    };
    let built = own.clone().build(Some(&default));
    assert_eq!(built.format, Some(vec![Token::Time]));
    assert_eq!(built.time_format, Some(TimeFormatToken::parse("%S")));
    assert_eq!(built.paused_state_text, Some("stop".to_string()));
    assert_eq!(built.resumed_state_text, Some("go".to_string()));
    let alone = own.build(None);
    assert_eq!(alone.time_format, None);
    assert_eq!(alone.resumed_state_text, None);
    let nothing = OverridablesBuilder::default().build(None);
    assert_eq!(nothing.format, None);
}

#[test]
fn a_later_entry_for_a_name_replaces_an_earlier_one() {
    let mut table: Table<u32> = Table::new();
    assert_eq!(table.get("a"), None);
    table.insert("a".into(), 1);
    table.insert("b".into(), 2);
    table.insert("a".into(), 3);
    assert_eq!(table.get("a"), Some(&3));
    assert_eq!(table.get("b"), Some(&2));
    assert_eq!(table.get(""), None);
}

#[test]
fn the_socket_lies_under_the_runtime_directory() {
    assert_eq!(
        get_socket_path(Some("/run/user/1000".into()), Some("/var/tmp".into())),
        "/run/user/1000/uair.sock"
    );
    assert_eq!(get_socket_path(None, Some("/var/tmp".into())), "/var/tmp/uair.sock");
    assert_eq!(get_socket_path(None, None), "/tmp/uair.sock");
}

#[test]
fn the_configuration_lies_under_the_configuration_directory() {
    assert_eq!(
        get_config_path(Some("/etc/xdg".into()), Some("/home/me".into())),
        "/etc/xdg/uair/uair.toml"
    );
    assert_eq!(get_config_path(None, Some("/home/me".into())), "/home/me/.config/uair/uair.toml");
    assert_eq!(get_config_path(None, None), "~/.config/uair/uair.toml");
}
