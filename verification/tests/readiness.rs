use tmux_lib::error::{Error, Output};
use tmux_lib::readiness::{
    begin, step, timeout_error, Action, Event, Readiness, SERVER_READY_POLL_INTERVAL_MS,
    SERVER_READY_TIMEOUT_MS,
};

fn finished(status: i32, stdout: &[u8], stderr: &[u8]) -> Event {
    Event::Finished(Output { status: Some(status), stdout: stdout.to_vec(), stderr: stderr.to_vec() })
}

fn refusal() -> Event {
    finished(1, b"", b"no server running on /tmp/tmux-1000/default")
}

fn poll_args() -> Vec<String> {
    vec!["list-sessions".to_string(), "-F".to_string(), "#{session_name}".to_string()]
}

/// A caller that answers every question with the next event of `answers`,
/// and the end of the clock once they are used up. It hands back the state
/// and the result at the end, the number of commands that it ran, and the
/// time that it was told to wait.
fn drive(name: &str, answers: Vec<Event>) -> (Readiness, Result<(), Error>, usize, u64) {
    let mut answers = answers.into_iter();
    let (mut state, mut action) = begin(name);
    let mut runs = 0;
    let mut waited = 0;
    loop {
        match action {
            Action::Run(_) | Action::StartClock { .. } => runs += 1,
            Action::RunAfter { delay_ms, .. } => {
                waited += delay_ms;
                runs += 1;
            }
            Action::Finish(result) => return (state, result, runs, waited),
            Action::Ignore => panic!("nothing to do before the end"),
        }
        let event = answers.next().unwrap_or(Event::DeadlineElapsed);
        (state, action) = step(state, event);
    }
}

#[test]
fn constants_are_five_seconds_and_fifty_milliseconds() {
    assert_eq!(SERVER_READY_TIMEOUT_MS, 5000);
    assert_eq!(SERVER_READY_POLL_INTERVAL_MS, 50);
}

#[test]
fn begin_starts_the_server() {
    let (state, action) = begin("[placeholder]");
    assert_eq!(state, Readiness::Starting);
    match action {
        Action::Run(args) => assert_eq!(args, vec!["new-session", "-d", "-s", "[placeholder]"]),
        other => panic!("unexpected {:?}", other),
    }
}

#[test]
fn silent_start_leads_to_polling() {
    let (state, action) = step(Readiness::Starting, finished(0, b"", b""));
    assert_eq!(state, Readiness::Polling);
    match action {
        Action::StartClock { timeout_ms, args } => {
            assert_eq!(timeout_ms, 5000);
            assert_eq!(args, poll_args());
        }
        other => panic!("unexpected {:?}", other),
    }
}

#[test]
fn start_that_prints_fails() {
    let (state, action) = step(Readiness::Starting, finished(0, b"", b"duplicate session"));
    assert_eq!(state, Readiness::SpawnFailed);
    match action {
        Action::Finish(Err(Error::UnexpectedTmuxOutput { intent, stdout, stderr })) => {
            assert_eq!(intent, "new-session");
            assert_eq!(stdout, "");
            assert_eq!(stderr, "duplicate session");
        }
        other => panic!("unexpected {:?}", other),
    }
}

#[test]
fn command_that_cannot_run_fails() {
    for state in [Readiness::Starting, Readiness::Polling] {
        let source = std::io::Error::new(std::io::ErrorKind::NotFound, "tmux");
        let (next, action) = step(state, Event::Failed(source));
        assert_eq!(next, Readiness::SpawnFailed);
        assert!(matches!(action, Action::Finish(Err(Error::Io { .. }))));
    }
}

#[test]
fn refusal_is_followed_by_the_next_question() {
    let (state, action) = step(Readiness::Polling, refusal());
    assert_eq!(state, Readiness::Polling);
    match action {
        Action::RunAfter { delay_ms, args } => {
            assert_eq!(delay_ms, 50);
            assert_eq!(args, poll_args());
        }
        other => panic!("unexpected {:?}", other),
    }
}

#[test]
fn answer_ends_the_wait() {
    let (state, action) = step(Readiness::Polling, finished(0, b"0\n", b""));
    assert_eq!(state, Readiness::Ready);
    assert!(matches!(action, Action::Finish(Ok(()))));
}

#[test]
fn end_of_clock_ends_the_wait_with_an_error() {
    let (state, action) = step(Readiness::Polling, Event::DeadlineElapsed);
    assert_eq!(state, Readiness::TimedOut);
    match action {
        Action::Finish(Err(Error::UnexpectedTmuxOutput { intent, stdout, stderr })) => {
            assert_eq!(intent, "wait-for-server-ready");
            assert_eq!(stdout, "");
            assert_eq!(stderr, "server did not become ready within 5s");
        }
        other => panic!("unexpected {:?}", other),
    }
}

#[test]
fn timeout_error_names_the_wait() {
    assert_eq!(
        timeout_error().message(),
        "unexpected process output: intent: `wait-for-server-ready`, stdout: ``, stderr: `server did not become ready within 5s`"
    );
}

#[test]
fn clock_does_not_run_while_starting() {
    let (state, action) = step(Readiness::Starting, Event::DeadlineElapsed);
    assert_eq!(state, Readiness::Starting);
    assert!(matches!(action, Action::Ignore));
}

#[test]
fn nothing_follows_the_end() {
    for state in [Readiness::Ready, Readiness::TimedOut, Readiness::SpawnFailed] {
        for event in [finished(0, b"", b""), refusal(), Event::DeadlineElapsed] {
            let (next, action) = step(state, event);
            assert_eq!(next, state);
            assert!(matches!(action, Action::Ignore));
        }
    }
}

#[test]
fn server_is_ready_after_as_many_waits_as_refusals() {
    for n in [0usize, 1, 2, 7, 99] {
        let mut answers = vec![finished(0, b"", b"")];
        for _ in 0..n {
            answers.push(refusal());
        }
        answers.push(finished(0, b"0\n", b""));
        let (state, result, runs, waited) = drive("s", answers);
        assert_eq!(state, Readiness::Ready);
        assert!(result.is_ok());
        assert_eq!(runs, n + 2);
        assert_eq!(waited, 50 * n as u64);
    }
}

#[test]
fn server_that_always_refuses_times_out() {
    let mut answers = vec![finished(0, b"", b"")];
    for _ in 0..100 {
        answers.push(refusal());
    }
    let (state, result, runs, waited) = drive("s", answers);
    assert_eq!(state, Readiness::TimedOut);
    assert_eq!(runs, 102);
    assert_eq!(waited, 5000);
    match result {
        Err(Error::UnexpectedTmuxOutput { intent, .. }) => assert_eq!(intent, "wait-for-server-ready"),
        other => panic!("unexpected {:?}", other),
    }
}
