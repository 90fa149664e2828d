use yshell::logging::{
    filter_parses_safely,
    init_tracing, rotated_path, rotation_steps, sanitize_path_component, transcript_line,
    transfer_line, try_init_tracing_for_tests, InitLoggingError, LogPathContext, LoggingConfig,
    PathTemplate, Redactor, RotationPolicy, RotationStep, TranscriptDirection, TranscriptFormat,
    REDACTED_MARKER,
};

#[test]
fn rejects_invalid_filter() {
    let error = init_tracing(&LoggingConfig::with_env_filter("[not-a-filter"))
        .0
        .expect_err("invalid filter should fail before subscriber install");

    assert!(matches!(error, InitLoggingError::InvalidFilter(_)));
}

#[test]
fn test_initializer_is_idempotent() {
    try_init_tracing_for_tests().expect("first init should succeed");
    try_init_tracing_for_tests().expect("second init should be ignored");
}

#[test]
fn path_template_sanitizes_components() {
    let template = PathTemplate::new("logs/{session_id}/{kind}-{timestamp}.log");
    let rendered = template.render(&LogPathContext {
        session_id: "prod/session:1".to_owned(),
        kind: "terminal".to_owned(),
        timestamp: 42,
    });

    assert_eq!(rendered, "logs/prod_session_1/terminal-42.log");
}

#[test]
fn sanitized_transcript_redacts_sensitive_input_and_output() {
    let redactor = Redactor::new().with_secret("hunter2");
    let input = transcript_line(
        TranscriptFormat::Sanitized,
        &redactor,
        TranscriptDirection::Input,
        b"password=hunter2",
    );
    let output = transcript_line(
        TranscriptFormat::Sanitized,
        &redactor,
        TranscriptDirection::Output,
        b"echo hunter2",
    );
    let log = format!("{input}\n{output}\n");
    assert!(!log.contains("hunter2"));
    assert!(log.contains(REDACTED_MARKER));
    assert!(log.contains("input"));
    assert!(log.contains("output"));
    assert_eq!(input, "input\tpassword=[REDACTED]");
}

#[test]
fn raw_transcript_preserves_content() {
    let line = transcript_line(
        TranscriptFormat::Raw,
        &Redactor::new().with_secret("hunter2"),
        TranscriptDirection::Input,
        b"password=hunter2",
    );
    assert!(line.contains("hunter2"));
}

#[test]
fn transcript_lines_escape_control_characters() {
    let line = transcript_line(
        TranscriptFormat::Raw,
        &Redactor::new(),
        TranscriptDirection::Output,
        b"a\tb\n\"q\"",
    );
    assert_eq!(line, "output\ta\\tb\\n\\\"q\\\"");
}

#[test]
fn rotates_session_log_when_threshold_is_crossed() {
    let policy = RotationPolicy { max_bytes: 10, keep: 2 };
    assert!(!policy.rotation_due(0, 10));
    assert!(policy.rotation_due(0, 11));
    assert!(policy.rotation_due(u64::MAX, 1));
    assert_eq!(
        rotation_steps(policy.keep),
        vec![RotationStep::Remove { index: 2 }, RotationStep::Rename { from: 1, to: 2 }]
    );
    assert_eq!(rotated_path("/logs/rotate.log", 1), "/logs/rotate.log.1");
}

#[test]
fn disabled_rotation_never_rotates() {
    let policy = RotationPolicy::disabled();
    assert!(!policy.rotation_due(u64::MAX - 1, 1_000));
    assert!(!RotationPolicy { max_bytes: 1, keep: 0 }.rotation_due(5, 5));
    assert!(rotation_steps(0).is_empty());
}

#[test]
fn redactor_replaces_every_known_secret() {
    let redactor = Redactor::new().with_secret("abc").with_secret("").with_secret("xyz");
    assert_eq!(redactor.redact("abc xyz abcabc"), "[REDACTED] [REDACTED] [REDACTED][REDACTED]");
    assert_eq!(Redactor::new().redact("abc"), "abc");
    assert_eq!(redactor.clone().redact("abc"), "[REDACTED]");
}

#[test]
fn path_components_and_transfer_lines() {
    assert_eq!(sanitize_path_component("a b/c.d-e_f"), "a_b_c.d-e_f");
    assert_eq!(
        transfer_line("upload", "/l/a", "/r/a", 12),
        "operation=upload local=/l/a remote=/r/a bytes=12"
    );
    let context = LogPathContext::now("s/1", "sftp");
    assert_eq!(context.session_id, "s/1");
    assert_eq!(context.kind, "sftp");
}

#[test]
fn logging_config_builders() {
    let config = LoggingConfig::default();
    let tweaked = LoggingConfig::with_env_filter("debug").with_ansi(false).compact();
    assert_ne!(format!("{config:?}"), format!("{tweaked:?}"));
}

#[test]
fn stamped_context_falls_back_to_zero_before_the_epoch() {
    let before = LogPathContext::stamped("s1", "terminal", None);
    assert_eq!(before.timestamp, 0);
    assert_eq!(before.session_id, "s1");
    assert_eq!(before.kind, "terminal");
    assert_eq!(LogPathContext::stamped("s1", "terminal", Some(42)).timestamp, 42);
}

#[test]
fn filter_strings_that_parse_safely() {
    assert!(filter_parses_safely("yshell=info,warn"));
    assert!(filter_parses_safely(" yshell=info"));
    assert!(filter_parses_safely("caf\u{e9}=info"));
    assert!(!filter_parses_safely(" a\u{e9}=info"));
    assert!(!filter_parses_safely("warn, a\u{e9}"));
}
