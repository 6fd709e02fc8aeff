use hyprstream::control::{Command, ControlError};

#[test]
fn parse_command_trims_whitespace() {
    assert_eq!(Command::parse(" enable ").unwrap(), Command::Enable);
    assert_eq!(Command::parse("status\n").unwrap(), Command::Status);
}

#[test]
fn parse_command_rejects_unknown() {
    let err = Command::parse("nope").unwrap_err();
    assert!(err.message().contains("unknown command"));
}

#[test]
fn parse_is_case_sensitive_and_reports_trimmed_text() {
    match Command::parse("  Enable\t") {
        Err(ControlError::UnknownCommand(t)) => assert_eq!(t, "Enable"),
        Ok(c) => panic!("parsed as {:?}", c),
    }
    let err = Command::parse("\u{3000}quit now ").unwrap_err();
    assert_eq!(err.message(), "unknown command: quit now");
}

#[test]
fn every_command_round_trips_through_its_word() {
    for c in [
        Command::Enable,
        Command::Disable,
        Command::Toggle,
        Command::Status,
        Command::Quit,
    ] {
        assert_eq!(Command::parse(c.as_str()).unwrap(), c);
    }
    assert_eq!(Command::Toggle.as_str(), "toggle");
    assert_eq!(Command::parse("\u{a0}quit\r\n").unwrap(), Command::Quit);
}
