//! Waiting for a tmux server that was just started.
//!
//! `tmux new-session -d` returns before the server answers further
//! commands. So after starting it the caller asks for the list of sessions
//! again and again, until tmux answers with the exit code zero or too much
//! time has gone by. This module decides; the caller runs the commands,
//! waits, and keeps the clock.

use crate::command::{args1, strings_view, with_arg};
use crate::error::{
    check_empty_process_output, is_unexpected_output, lossy_text, unexpected_output, Error, Output,
};
use crate::server::start_args;
use vstd::prelude::*;

verus! {

/// The time after which the wait for the server is given up, in
/// milliseconds.
pub const SERVER_READY_TIMEOUT_MS: u64 = 5000;

/// The time between two questions to the server, in milliseconds.
pub const SERVER_READY_POLL_INTERVAL_MS: u64 = 50;

/// Where the start of the server stands.
#[derive(Debug, Clone, Copy, PartialEq, Eq, Structural)]
pub enum Readiness {
    /// The command that starts the server runs.
    Starting,
    /// The server was started and is asked whether it answers.
    Polling,
    /// The server answers. Nothing follows.
    Ready,
    /// The server did not answer in time. Nothing follows.
    TimedOut,
    /// A command could not be run, or the start printed something. Nothing
    /// follows.
    SpawnFailed,
}

/// What the caller reports.
#[derive(Debug)]
pub enum Event {
    /// The command that was asked for has finished and left this.
    Finished(Output),
    /// The command that was asked for could not be run.
    Failed(std::io::Error),
    /// The clock that was started with the polling has run out.
    DeadlineElapsed,
}

/// What the caller does next.
#[derive(Debug)]
pub enum Action {
    /// Run tmux with these arguments and report how it went.
    Run(Vec<String>),
    /// Start the clock that reports `Event::DeadlineElapsed` after
    /// `timeout_ms`, then run tmux with these arguments and report how it
    /// went.
    StartClock { timeout_ms: u64, args: Vec<String> },
    /// Wait for `delay_ms`, then run tmux with these arguments and report
    /// how it went.
    RunAfter { delay_ms: u64, args: Vec<String> },
    /// Stop and hand this result on.
    Finish(Result<(), Error>),
    /// Nothing: the event came when no clock ran or after the end.
    Ignore,
}

/// The arguments of the command that asks the server for its sessions.
pub open spec fn list_sessions_args_spec() -> Seq<Seq<char>> {
    seq!["list-sessions"@, "-F"@, "#{session_name}"@]
}

/// The arguments with which tmux prints the names of its sessions. The
/// command succeeds as soon as the server answers.
pub fn list_sessions_args() -> (args: Vec<String>)
    ensures
        strings_view(args@) == list_sessions_args_spec(),
{
    let args = args1("list-sessions");
    let args = with_arg(args, "-F");
    let args = with_arg(args, "#{session_name}");
    assert(strings_view(args@) =~= list_sessions_args_spec());
    args
}

/// The command left nothing on its outputs.
pub open spec fn is_silent(output: Output) -> bool {
    output.stdout@.len() == 0 && output.stderr@.len() == 0
}

/// The state that follows `state` on `event`.
pub open spec fn next_state(state: Readiness, event: Event) -> Readiness {
    match state {
        Readiness::Starting => match event {
            Event::Finished(output) => if is_silent(output) {
                Readiness::Polling
            } else {
                Readiness::SpawnFailed
            },
            Event::Failed(_) => Readiness::SpawnFailed,
            Event::DeadlineElapsed => Readiness::Starting,
        },
        Readiness::Polling => match event {
            Event::Finished(output) => if output.success() {
                Readiness::Ready
            } else {
                Readiness::Polling
            },
            Event::Failed(_) => Readiness::SpawnFailed,
            Event::DeadlineElapsed => Readiness::TimedOut,
        },
        _ => state,
    }
}

/// `e` is the error of a server that did not answer in time.
pub open spec fn is_timeout_error(e: Error) -> bool {
    is_unexpected_output(
        e,
        "wait-for-server-ready"@,
        Seq::empty(),
        "server did not become ready within 5s"@,
    )
}

/// `action` is what the caller has to do after `event` came in `state`.
pub open spec fn is_action_for(state: Readiness, event: Event, action: Action) -> bool {
    match (state, event) {
        (Readiness::Starting, Event::Finished(output)) => if is_silent(output) {
            action matches Action::StartClock { timeout_ms, args } && timeout_ms
                == SERVER_READY_TIMEOUT_MS && strings_view(args@) == list_sessions_args_spec()
        } else {
            action matches Action::Finish(Err(e)) && is_unexpected_output(
                e,
                "new-session"@,
                lossy_text(output.stdout@),
                lossy_text(output.stderr@),
            )
        },
        (Readiness::Polling, Event::Finished(output)) => if output.success() {
            action matches Action::Finish(Ok(_))
        } else {
            action matches Action::RunAfter { delay_ms, args } && delay_ms
                == SERVER_READY_POLL_INTERVAL_MS && strings_view(args@)
                == list_sessions_args_spec()
        },
        (Readiness::Starting, Event::Failed(cause)) => action matches Action::Finish(
            Err(Error::Io { source }),
        ) && source == cause,
        (Readiness::Polling, Event::Failed(cause)) => action matches Action::Finish(
            Err(Error::Io { source }),
        ) && source == cause,
        (Readiness::Polling, Event::DeadlineElapsed) => action matches Action::Finish(Err(e))
            && is_timeout_error(e),
        _ => action is Ignore,
    }
}

/// The first step: the state to start from, and the command that starts the
/// server with the detached session `initial_session_name`.
pub fn begin(initial_session_name: &str) -> (first: (Readiness, Action))
    ensures
        first.0 == Readiness::Starting,
        first.1 matches Action::Run(args) && strings_view(args@) == seq![
            "new-session"@,
            "-d"@,
            "-s"@,
            initial_session_name@,
        ],
{
    (Readiness::Starting, Action::Run(start_args(initial_session_name)))
}

/// The error of a server that did not answer in time.
pub fn timeout_error() -> (e: Error)
    ensures
        is_timeout_error(e),
{
    unexpected_output(
        "wait-for-server-ready",
        String::new(),
        "server did not become ready within 5s".to_owned(),
    )
}

/// Take one event: the state that follows, and what the caller does next.
///
/// - While the server starts, a start that printed nothing leads to the
///   polling; anything else ends the wait with the error.
/// - While the server is polled, an answer with the exit code zero ends the
///   wait with success. Another answer is followed by the next question,
///   after `SERVER_READY_POLL_INTERVAL_MS`. The end of the clock ends the
///   wait with an error, and so does a command that cannot be run.
/// - After the end every event is ignored.
pub fn step(state: Readiness, event: Event) -> (next: (Readiness, Action))
    ensures
        next.0 == next_state(state, event),
        is_action_for(state, event, next.1),
{
    match state {
        Readiness::Starting => match event {
            Event::Finished(output) => match check_empty_process_output(&output, "new-session") {
                Ok(_) => (
                    Readiness::Polling,
                    Action::StartClock {
                        timeout_ms: SERVER_READY_TIMEOUT_MS,
                        args: list_sessions_args(),
                    },
                ),
                Err(e) => (Readiness::SpawnFailed, Action::Finish(Err(e))),
            },
            Event::Failed(source) => (
                Readiness::SpawnFailed,
                Action::Finish(Err(Error::Io { source })),
            ),
            Event::DeadlineElapsed => (Readiness::Starting, Action::Ignore),
        },
        Readiness::Polling => match event {
            Event::Finished(output) => if output.success() {
                (Readiness::Ready, Action::Finish(Ok(())))
            } else {
                (
                    Readiness::Polling,
                    Action::RunAfter {
                        delay_ms: SERVER_READY_POLL_INTERVAL_MS,
                        args: list_sessions_args(),
                    },
                )
            },
            Event::Failed(source) => (
                Readiness::SpawnFailed,
                Action::Finish(Err(Error::Io { source })),
            ),
            Event::DeadlineElapsed => (Readiness::TimedOut, Action::Finish(Err(timeout_error()))),
        },
        Readiness::Ready => (Readiness::Ready, Action::Ignore),
        Readiness::TimedOut => (Readiness::TimedOut, Action::Ignore),
        Readiness::SpawnFailed => (Readiness::SpawnFailed, Action::Ignore),
    }
}

/// The state that a run of events leads to from `state`.
pub open spec fn run(state: Readiness, events: Seq<Event>) -> Readiness
    decreases events.len(),
{
    if events.len() == 0 {
        state
    } else {
        next_state(run(state, events.drop_last()), events.last())
    }
}

/// The time that the caller is told to wait after `event` came in `state`,
/// in milliseconds.
pub open spec fn delay_after(state: Readiness, event: Event) -> nat {
    match (state, event) {
        (Readiness::Polling, Event::Finished(output)) => if output.success() {
            0
        } else {
            SERVER_READY_POLL_INTERVAL_MS as nat
        },
        _ => 0,
    }
}

/// The time that the caller is told to wait in all during a run of events
/// from `state`, in milliseconds.
pub open spec fn waited_ms(state: Readiness, events: Seq<Event>) -> nat
    decreases events.len(),
{
    if events.len() == 0 {
        0
    } else {
        waited_ms(state, events.drop_last()) + delay_after(
            run(state, events.drop_last()),
            events.last(),
        )
    }
}

/// The server was asked and did not answer with the exit code zero.
pub open spec fn is_refusal(event: Event) -> bool {
    event matches Event::Finished(output) && !output.success()
}

/// The server was asked and answered with the exit code zero.
pub open spec fn is_answer(event: Event) -> bool {
    event matches Event::Finished(output) && output.success()
}

/// The caller is told to wait exactly where `delay_after` says so, and for
/// that time.
pub proof fn lemma_action_delay(state: Readiness, event: Event, action: Action)
    requires
        is_action_for(state, event, action),
    ensures
        action is RunAfter <==> delay_after(state, event) > 0,
        action matches Action::RunAfter { delay_ms, .. } ==> delay_ms == delay_after(state, event),
{
}

/// While the server refuses, the polling goes on, and the caller waits one
/// interval for each refusal.
pub proof fn lemma_refusals_keep_polling(events: Seq<Event>)
    requires
        forall|i: int| 0 <= i < events.len() ==> is_refusal(#[trigger] events[i]),
    ensures
        run(Readiness::Polling, events) == Readiness::Polling,
        waited_ms(Readiness::Polling, events) == events.len() * SERVER_READY_POLL_INTERVAL_MS,
    decreases events.len(),
{
    if events.len() > 0 {
        let before = events.drop_last();
        assert forall|i: int| 0 <= i < before.len() implies is_refusal(#[trigger] before[i]) by {
            assert(before[i] == events[i]);
        }
        lemma_refusals_keep_polling(before);
        assert(is_refusal(events.last()));
        assert(events.len() * SERVER_READY_POLL_INTERVAL_MS == before.len()
            * SERVER_READY_POLL_INTERVAL_MS + SERVER_READY_POLL_INTERVAL_MS) by (nonlinear_arith)
            requires
                events.len() == before.len() + 1,
        ;
    }
}

/// A server that refuses `n` times and then answers is ready after the
/// answer and not before it, and the caller has waited `n` intervals by
/// then.
pub proof fn lemma_ready_after_refusals(events: Seq<Event>)
    requires
        events.len() >= 1,
        forall|i: int| 0 <= i < events.len() - 1 ==> is_refusal(#[trigger] events[i]),
        is_answer(events.last()),
    ensures
        run(Readiness::Polling, events) == Readiness::Ready,
        forall|k: int|
            0 <= k < events.len() ==> run(Readiness::Polling, #[trigger] events.take(k))
                == Readiness::Polling,
        waited_ms(Readiness::Polling, events) == (events.len() - 1)
            * SERVER_READY_POLL_INTERVAL_MS,
{
    let before = events.drop_last();
    assert forall|i: int| 0 <= i < before.len() implies is_refusal(#[trigger] before[i]) by {
        assert(before[i] == events[i]);
    }
    lemma_refusals_keep_polling(before);
    assert forall|k: int| 0 <= k < events.len() implies run(
        Readiness::Polling,
        #[trigger] events.take(k),
    ) == Readiness::Polling by {
        let head = events.take(k);
        assert forall|i: int| 0 <= i < head.len() implies is_refusal(#[trigger] head[i]) by {
            assert(head[i] == events[i]);
        }
        lemma_refusals_keep_polling(head);
    }
}

/// A server that refuses until the clock runs out has timed out then, and
/// the wait ends with the error that says so.
pub proof fn lemma_timed_out_after_refusals(events: Seq<Event>, action: Action)
    requires
        events.len() >= 1,
        forall|i: int| 0 <= i < events.len() - 1 ==> is_refusal(#[trigger] events[i]),
        events.last() is DeadlineElapsed,
        is_action_for(run(Readiness::Polling, events.drop_last()), events.last(), action),
    ensures
        run(Readiness::Polling, events) == Readiness::TimedOut,
        action matches Action::Finish(Err(e)) && is_timeout_error(e),
{
    let before = events.drop_last();
    assert forall|i: int| 0 <= i < before.len() implies is_refusal(#[trigger] before[i]) by {
        assert(before[i] == events[i]);
    }
    lemma_refusals_keep_polling(before);
}

/// After the end nothing changes: whatever comes, the state stays as it is.
pub proof fn lemma_end_is_final(state: Readiness, events: Seq<Event>)
    requires
        state == Readiness::Ready || state == Readiness::TimedOut || state
            == Readiness::SpawnFailed,
    ensures
        run(state, events) == state,
    decreases events.len(),
{
    if events.len() > 0 {
        lemma_end_is_final(state, events.drop_last());
    }
}

} // verus!
