use tmux_lib::error::{check_empty_process_output, check_process_success, map_add_intent, Error, Output};
use tmux_lib::parse::{ErrorKind, GrammarError};

fn make_output(status_code: i32, stdout: &[u8], stderr: &[u8]) -> Output {
    Output {
        status: Some(status_code),
        stdout: stdout.to_vec(),
        stderr: stderr.to_vec(),
    }
}

#[test]
fn check_empty_process_output_succeeds_when_empty() {
    let output = make_output(0, b"", b"");
    let result = check_empty_process_output(&output, "test-intent");
    assert!(result.is_ok());
}

#[test]
fn check_empty_process_output_fails_when_stdout_not_empty() {
    let output = make_output(0, b"some output", b"");
    let result = check_empty_process_output(&output, "test-intent");
    assert!(result.is_err());

    match result.unwrap_err() {
        Error::UnexpectedTmuxOutput {
            intent,
            stdout,
            stderr,
        } => {
            assert_eq!(intent, "test-intent");
            assert_eq!(stdout, "some output");
            assert_eq!(stderr, "");
        }
        _ => panic!("Expected UnexpectedTmuxOutput error"),
    }
}

#[test]
fn check_empty_process_output_fails_when_stderr_not_empty() {
    let output = make_output(0, b"", b"error message");
    let result = check_empty_process_output(&output, "test-intent");
    assert!(result.is_err());

    match result.unwrap_err() {
        Error::UnexpectedTmuxOutput {
            intent,
            stdout,
            stderr,
        } => {
            assert_eq!(intent, "test-intent");
            assert_eq!(stdout, "");
            assert_eq!(stderr, "error message");
        }
        _ => panic!("Expected UnexpectedTmuxOutput error"),
    }
}

#[test]
fn check_empty_process_output_fails_when_both_not_empty() {
    let output = make_output(0, b"stdout", b"stderr");
    let result = check_empty_process_output(&output, "test-intent");
    assert!(result.is_err());

    match result.unwrap_err() {
        Error::UnexpectedTmuxOutput { stdout, stderr, .. } => {
            assert_eq!(stdout, "stdout");
            assert_eq!(stderr, "stderr");
        }
        _ => panic!("Expected UnexpectedTmuxOutput error"),
    }
}

#[test]
fn check_process_success_succeeds_on_zero_exit() {
    let output = make_output(0, b"output", b"");
    let result = check_process_success(&output, "test-intent");
    assert!(result.is_ok());
}

#[test]
fn check_process_success_fails_on_nonzero_exit() {
    let output = make_output(1, b"", b"command failed");
    let result = check_process_success(&output, "test-intent");
    assert!(result.is_err());

    match result.unwrap_err() {
        Error::UnexpectedTmuxOutput {
            intent,
            stdout,
            stderr,
        } => {
            assert_eq!(intent, "test-intent");
            assert_eq!(stdout, "");
            assert_eq!(stderr, "command failed");
        }
        _ => panic!("Expected UnexpectedTmuxOutput error"),
    }
}

#[test]
fn map_add_intent_creates_parse_error() {
    let grammar_err = GrammarError {
        input: "remaining input".to_string(),
        code: ErrorKind::Tag,
    };

    let error = map_add_intent("description", "expected format", grammar_err);

    match error {
        Error::ParseError { desc, intent, err } => {
            assert_eq!(desc, "description");
            assert_eq!(intent, "expected format");
            assert_eq!(err.input, "remaining input");
            assert_eq!(err.code, ErrorKind::Tag);
        }
        _ => panic!("Expected ParseError"),
    }
}

#[test]
fn error_display_messages() {
    // Test UnexpectedTmuxOutput display
    let err = Error::UnexpectedTmuxOutput {
        intent: "test",
        stdout: "out".to_string(),
        stderr: "err".to_string(),
    };
    let msg = err.message();
    assert!(msg.contains("unexpected process output"));
    assert!(msg.contains("test"));

    // Test TmuxConfig display
    let err = Error::TmuxConfig("missing default-shell");
    let msg = err.message();
    assert!(msg.contains("unexpected tmux config"));
    assert!(msg.contains("missing default-shell"));
}

#[test]
fn error_messages_are_exact() {
    let err = Error::UnexpectedTmuxOutput {
        intent: "kill-session",
        stdout: "out".to_string(),
        stderr: "err".to_string(),
    };
    assert_eq!(
        err.message(),
        "unexpected process output: intent: `kill-session`, stdout: `out`, stderr: `err`"
    );
    assert_eq!(
        Error::TmuxConfig("no default-shell").message(),
        "unexpected tmux config: `no default-shell`"
    );
    let err = map_add_intent(
        "Client",
        "'##{client_session}':'##{client_last_session}'",
        GrammarError { input: "x".to_string(), code: ErrorKind::Eof },
    );
    assert_eq!(
        err.message(),
        "failed parsing: `'##{client_session}':'##{client_last_session}'`"
    );
}

#[test]
fn error_messages_of_outside_errors_hold_their_text() {
    let source = String::from_utf8(vec![0xff]).unwrap_err();
    let detail = source.to_string();
    let err = Error::Utf8 { source };
    assert_eq!(err.message(), format!("failed parsing utf-8 string: `{}`", detail));

    let source = std::io::Error::new(std::io::ErrorKind::NotFound, "no tmux");
    let err = Error::Io { source };
    assert_eq!(err.message(), "failed with io: `no tmux`");
}

#[test]
fn check_empty_process_output_ignores_exit_code() {
    assert!(check_empty_process_output(&make_output(1, b"", b""), "x").is_ok());
    let killed = Output { status: None, stdout: vec![], stderr: vec![] };
    assert!(check_empty_process_output(&killed, "x").is_ok());
    assert!(check_empty_process_output(&make_output(0, b" ", b""), "x").is_err());
}

#[test]
fn check_process_success_ignores_outputs() {
    assert!(check_process_success(&make_output(0, b"out", b"err"), "x").is_ok());
    assert!(check_process_success(&make_output(0, b"", b""), "x").is_ok());
    assert!(check_process_success(&make_output(2, b"", b""), "x").is_err());
    assert!(check_process_success(&make_output(-1, b"", b""), "x").is_err());
    let killed = Output { status: None, stdout: vec![], stderr: vec![] };
    assert!(check_process_success(&killed, "x").is_err());
    assert!(make_output(0, b"", b"").success());
    assert!(!killed.success());
}

#[test]
fn outputs_that_are_not_utf8_are_kept_with_replacement_characters() {
    let output = make_output(1, b"a\xffb", b"\xf0\x9f");
    match check_process_success(&output, "list").unwrap_err() {
        Error::UnexpectedTmuxOutput { intent, stdout, stderr } => {
            assert_eq!(intent, "list");
            assert_eq!(stdout, "a\u{fffd}b");
            assert_eq!(stderr, "\u{fffd}");
        }
        _ => panic!("Expected UnexpectedTmuxOutput error"),
    }
    let output = make_output(0, "héllo".as_bytes(), b"");
    match check_empty_process_output(&output, "kill").unwrap_err() {
        Error::UnexpectedTmuxOutput { stdout, stderr, .. } => {
            assert_eq!(stdout, "héllo");
            assert_eq!(stderr, "");
        }
        _ => panic!("Expected UnexpectedTmuxOutput error"),
    }
}
