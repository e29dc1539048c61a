use tmux_lib::client::current_result;
use tmux_lib::error::{Error, Output};
use tmux_lib::options::{parse_options, OptionsMap};
use tmux_lib::server::{
    default_command_from, kill_session_result, show_option_result, show_options_result,
    start_result,
};

fn printed(status: i32, stdout: &[u8], stderr: &[u8]) -> Output {
    Output { status: Some(status), stdout: stdout.to_vec(), stderr: stderr.to_vec() }
}

#[test]
fn start_result_wants_silence() {
    assert!(start_result(&printed(0, b"", b"")).is_ok());
    match start_result(&printed(0, b"", b"duplicate session: x")).unwrap_err() {
        Error::UnexpectedTmuxOutput { intent, stdout, stderr } => {
            assert_eq!(intent, "new-session");
            assert_eq!(stdout, "");
            assert_eq!(stderr, "duplicate session: x");
        }
        _ => panic!("Expected UnexpectedTmuxOutput error"),
    }
}

#[test]
fn kill_session_result_wants_silence() {
    assert!(kill_session_result(&printed(0, b"", b"")).is_ok());
    match kill_session_result(&printed(1, b"out", b"can't find session")).unwrap_err() {
        Error::UnexpectedTmuxOutput { intent, stdout, stderr } => {
            assert_eq!(intent, "kill-session");
            assert_eq!(stdout, "out");
            assert_eq!(stderr, "can't find session");
        }
        _ => panic!("Expected UnexpectedTmuxOutput error"),
    }
}

#[test]
fn show_option_result_trims_the_value() {
    let value = show_option_result(printed(0, b"status on\n", b"")).unwrap();
    assert_eq!(value, Some("status on".to_string()));
    let value = show_option_result(printed(0, b"  x \t\n\n", b"")).unwrap();
    assert_eq!(value, Some("  x".to_string()));
}

#[test]
fn show_option_result_is_absent_for_blank_output() {
    assert_eq!(show_option_result(printed(0, b"", b"")).unwrap(), None);
    assert_eq!(show_option_result(printed(0, b"\n", b"")).unwrap(), None);
    assert_eq!(show_option_result(printed(1, b" \t\n", b"unknown")).unwrap(), None);
}

#[test]
fn show_option_result_refuses_bytes_that_are_not_utf8() {
    assert!(matches!(
        show_option_result(printed(0, b"status \xff\n", b"")),
        Err(Error::Utf8 { .. })
    ));
}

#[test]
fn show_options_result_reads_the_options() {
    let options = show_options_result(printed(
        0,
        b"default-command ''\ndefault-shell /bin/zsh\nprefix C-b\n",
        b"",
    ))
    .unwrap();
    assert_eq!(options.get("default-shell"), Some(&"/bin/zsh".to_string()));
    assert_eq!(options.get("prefix"), Some(&"C-b".to_string()));
    assert_eq!(options.get("default-command"), None);
}

#[test]
fn show_options_result_refuses_bytes_that_are_not_utf8() {
    assert!(matches!(
        show_options_result(printed(0, b"a \xc3\x28\n", b"")),
        Err(Error::Utf8 { .. })
    ));
}

#[test]
fn current_result_reads_the_client_line() {
    let client = current_result(printed(0, b"'main':'other'\n", b"")).unwrap();
    assert_eq!(client.session_name, "main");
    assert_eq!(client.last_session_name, "other");
    let client = current_result(printed(0, "'séance':''\n".as_bytes(), b"")).unwrap();
    assert_eq!(client.session_name, "séance");
    assert_eq!(client.last_session_name, "");
}

#[test]
fn current_result_fails_on_other_output() {
    assert!(matches!(
        current_result(printed(1, b"", b"no current client")),
        Err(Error::ParseError { desc: "Client", .. })
    ));
    assert!(matches!(
        current_result(printed(0, b"'a':'b'\n'c':'d'\n", b"")),
        Err(Error::ParseError { desc: "Client", .. })
    ));
    assert!(matches!(current_result(printed(0, b"'\xff':''\n", b"")), Err(Error::Utf8 { .. })));
}

fn options(entries: &[(&str, &str)]) -> OptionsMap {
    let mut options = OptionsMap::new();
    for (name, value) in entries {
        options.insert(name.to_string(), value.to_string());
    }
    options
}

#[test]
fn default_command_is_the_shell_where_no_command_is_set() {
    let command = default_command_from(&options(&[("default-shell", "/bin/zsh")])).unwrap();
    assert_eq!(command, "/bin/zsh");
}

#[test]
fn default_command_starts_bash_as_login_shell() {
    let command = default_command_from(&options(&[("default-shell", "/usr/bin/bash")])).unwrap();
    assert_eq!(command, "-l /usr/bin/bash");
    let command = default_command_from(&options(&[("default-shell", "bash")])).unwrap();
    assert_eq!(command, "-l bash");
    let command = default_command_from(&options(&[("default-shell", "/bin/bash5")])).unwrap();
    assert_eq!(command, "/bin/bash5");
}

#[test]
fn default_command_prefers_the_command_that_is_set() {
    let command = default_command_from(&options(&[
        ("default-shell", "/bin/bash"),
        ("default-command", "reattach-to-user-namespace -l zsh"),
    ]))
    .unwrap();
    assert_eq!(command, "reattach-to-user-namespace -l zsh");
}

#[test]
fn default_command_needs_a_default_shell() {
    match default_command_from(&options(&[])).unwrap_err() {
        Error::TmuxConfig(reason) => assert_eq!(reason, "no default-shell"),
        _ => panic!("Expected TmuxConfig error"),
    }
    match default_command_from(&options(&[("default-command", "fish")])).unwrap_err() {
        Error::TmuxConfig(reason) => assert_eq!(reason, "no default-shell"),
        _ => panic!("Expected TmuxConfig error"),
    }
}

#[test]
fn default_command_from_printed_options() {
    let printed = "default-command ''\ndefault-shell /bin/bash\n";
    assert_eq!(default_command_from(&parse_options(printed)).unwrap(), "-l /bin/bash");
}
