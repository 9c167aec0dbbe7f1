use subniri::logs::{
    all_log_components, journal_filter, journal_scope, log_fields, log_line, parse_duration_secs,
    priority_label, whole_seconds, DurationError, JournalScope, LogComponent,
};

#[test]
fn components_select_their_identifier_or_target() {
    assert_eq!(all_log_components().len(), 7);
    assert_eq!(
        log_fields(LogComponent::FileManager),
        vec![("SYSLOG_IDENTIFIER", "file-manager"), ("TARGET", "file_manager")]
    );
    assert_eq!(
        journal_filter(&vec![LogComponent::Bar, LogComponent::Settings]),
        vec![
            ("SYSLOG_IDENTIFIER", "polarbar"),
            ("TARGET", "bar"),
            ("SYSLOG_IDENTIFIER", "snowconf"),
            ("TARGET", "settings"),
        ]
    );
    let all = journal_filter(&Vec::new());
    assert_eq!(all.len(), 14);
    assert_eq!(all[2], ("SYSLOG_IDENTIFIER", "permafrostd"));
    assert_eq!(all[13], ("TARGET", "settings"));
}

#[test]
fn journals_and_priorities() {
    assert_eq!(journal_scope(true, true), JournalScope::System);
    assert_eq!(journal_scope(false, true), JournalScope::AllUsers);
    assert_eq!(journal_scope(false, false), JournalScope::CurrentUser);
    assert_eq!(priority_label("3"), "error");
    assert_eq!(priority_label("7"), "debug");
    assert_eq!(priority_label("9"), "?");
    assert_eq!(priority_label(""), "?");
}

#[test]
fn log_lines_fill_in_missing_fields() {
    assert_eq!(
        log_line(Some("1700000000"), Some("polarbar"), Some("bar"), Some("4"), Some("hello")),
        "1700000000 polarbar warn: hello"
    );
    assert_eq!(log_line(None, None, Some("daemon"), None, None), "- daemon ?: ");
    assert_eq!(log_line(None, None, None, Some("6"), Some("m")), "- - info: m");
}

#[test]
fn durations_round_up_to_whole_seconds() {
    assert_eq!(parse_duration_secs("1h 30m").unwrap(), 5400);
    assert_eq!(parse_duration_secs("PT2M").unwrap(), 120);
    assert_eq!(parse_duration_secs("1s 500ms").unwrap(), 2);
    assert_eq!(parse_duration_secs("0s").unwrap(), 0);
    assert!(matches!(parse_duration_secs("-5m"), Err(DurationError::Negative)));
    assert!(matches!(parse_duration_secs("soon"), Err(DurationError::Invalid(_))));
    assert_eq!(DurationError::Negative.message(), "duration must not be negative");
    assert_eq!(whole_seconds(10, 0).unwrap(), 10);
    assert_eq!(whole_seconds(10, 1).unwrap(), 11);
    assert!(matches!(whole_seconds(0, -1), Err(DurationError::Negative)));
}
