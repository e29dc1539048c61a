//! The tmux server: starting it, reading its options, and the commands that
//! end a session.

use crate::command::{args1, exact_target, exact_target_spec, strings_view, with_arg};
use crate::error::{
    check_empty_process_output, is_config_error, is_unexpected_output, lossy_text, Error, Output,
};
use crate::options::{options_of_text, parse_options, OptionsMap};
use crate::text::{ends_with, ends_with_spec, trim_end, trim_end_spec};
use vstd::prelude::*;
use vstd::string::StringExecFns;
use vstd::utf8::{decode_utf8, valid_utf8};

verus! {

/// The arguments with which tmux starts its server, if none runs yet, and
/// makes the detached session `initial_session_name` that keeps it running.
pub fn start_args(initial_session_name: &str) -> (args: Vec<String>)
    ensures
        strings_view(args@) == seq!["new-session"@, "-d"@, "-s"@, initial_session_name@],
{
    let args = args1("new-session");
    let args = with_arg(args, "-d");
    let args = with_arg(args, "-s");
    let args = with_arg(args, initial_session_name);
    assert(strings_view(args@) =~= seq!["new-session"@, "-d"@, "-s"@, initial_session_name@]);
    args
}

/// What the command of `start_args` must have left: nothing on either
/// output.
pub fn start_result(output: &Output) -> (r: Result<(), Error>)
    ensures
        r is Ok <==> output.stdout@.len() == 0 && output.stderr@.len() == 0,
        r matches Err(e) ==> is_unexpected_output(
            e,
            "new-session"@,
            lossy_text(output.stdout@),
            lossy_text(output.stderr@),
        ),
{
    check_empty_process_output(output, "new-session")
}

/// The arguments with which tmux ends the session that is named exactly
/// `name`.
pub fn kill_session_args(name: &str) -> (args: Vec<String>)
    ensures
        strings_view(args@) == seq!["kill-session"@, "-t"@, exact_target_spec(name@)],
{
    let target = exact_target(name);
    let args = args1("kill-session");
    let args = with_arg(args, "-t");
    let args = with_arg(args, target.as_str());
    assert(strings_view(args@) =~= seq!["kill-session"@, "-t"@, exact_target_spec(name@)]);
    args
}

/// What the command of `kill_session_args` must have left: nothing on either
/// output.
pub fn kill_session_result(output: &Output) -> (r: Result<(), Error>)
    ensures
        r is Ok <==> output.stdout@.len() == 0 && output.stderr@.len() == 0,
        r matches Err(e) ==> is_unexpected_output(
            e,
            "kill-session"@,
            lossy_text(output.stdout@),
            lossy_text(output.stderr@),
        ),
{
    check_empty_process_output(output, "kill-session")
}

/// The arguments of `show_option_args`.
pub open spec fn show_option_args_spec(option_name: Seq<char>, global: bool) -> Seq<Seq<char>> {
    if global {
        seq!["show-options"@, "-w"@, "-q"@, "-g"@, option_name]
    } else {
        seq!["show-options"@, "-w"@, "-q"@, option_name]
    }
}

/// The arguments with which tmux prints the value of the option
/// `option_name`, the global one if `global` is set.
pub fn show_option_args(option_name: &str, global: bool) -> (args: Vec<String>)
    ensures
        strings_view(args@) == show_option_args_spec(option_name@, global),
{
    let args = args1("show-options");
    let args = with_arg(args, "-w");
    let args = with_arg(args, "-q");
    let args = if global {
        with_arg(args, "-g")
    } else {
        args
    };
    let args = with_arg(args, option_name);
    assert(strings_view(args@) =~= show_option_args_spec(option_name@, global));
    args
}

/// The value that the output of the command of `show_option_args` holds: the
/// output without the white space at its end, or nothing if that is empty.
///
/// # Errors
///
/// `Error::Utf8` where the standard output is not UTF-8.
pub fn show_option_result(output: Output) -> (r: Result<Option<String>, Error>)
    ensures
        !valid_utf8(output.stdout@) ==> r matches Err(Error::Utf8 { .. }),
        valid_utf8(output.stdout@) ==> r is Ok,
        r matches Ok(None) ==> trim_end_spec(decode_utf8(output.stdout@)).len() == 0,
        r matches Ok(Some(value)) ==> value@.len() > 0 && value@ == trim_end_spec(
            decode_utf8(output.stdout@),
        ),
{
    match String::from_utf8(output.stdout) {
        Ok(buffer) => {
            let value: &str = trim_end(buffer.as_str());
            if value.is_empty() {
                Ok(None)
            } else {
                Ok(Some(value.to_owned()))
            }
        },
        Err(source) => Err(Error::Utf8 { source }),
    }
}

/// The arguments of `show_options_args`.
pub open spec fn show_options_args_spec(global: bool) -> Seq<Seq<char>> {
    if global {
        seq!["show-options"@, "-g"@]
    } else {
        seq!["show-options"@]
    }
}

/// The arguments with which tmux prints all its options, the global ones if
/// `global` is set.
pub fn show_options_args(global: bool) -> (args: Vec<String>)
    ensures
        strings_view(args@) == show_options_args_spec(global),
{
    let args = args1("show-options");
    let args = if global {
        with_arg(args, "-g")
    } else {
        args
    };
    assert(strings_view(args@) =~= show_options_args_spec(global));
    args
}

/// The options that the output of the command of `show_options_args` holds.
///
/// # Errors
///
/// `Error::Utf8` where the standard output is not UTF-8.
pub fn show_options_result(output: Output) -> (r: Result<OptionsMap, Error>)
    ensures
        !valid_utf8(output.stdout@) ==> r matches Err(Error::Utf8 { .. }),
        valid_utf8(output.stdout@) ==> (r matches Ok(options) && options@ == options_of_text(
            decode_utf8(output.stdout@),
        )),
{
    match String::from_utf8(output.stdout) {
        Ok(buffer) => Ok(parse_options(buffer.as_str())),
        Err(source) => Err(Error::Utf8 { source }),
    }
}

/// The command that starts a pane under the options `options`, if they name
/// a default shell.
///
/// It is the option `default-command` where that is set. Else it is the
/// option `default-shell`, as a login shell (after `-l `) where its value
/// ends with `bash`.
pub open spec fn default_command_spec(options: Map<Seq<char>, Seq<char>>) -> Option<Seq<char>> {
    if !options.contains_key("default-shell"@) {
        None
    } else if options.contains_key("default-command"@) {
        Some(options["default-command"@])
    } else {
        let shell = options["default-shell"@];
        if ends_with_spec(shell, "bash"@) {
            Some("-l "@ + shell)
        } else {
            Some(shell)
        }
    }
}

/// The command that starts a pane: the option `default-command`, or the
/// default shell where that option is not set. A shell whose name ends with
/// `bash` is started as a login shell.
///
/// # Errors
///
/// `Error::TmuxConfig` where the options name no default shell, whether or
/// not they name a default command.
pub fn default_command_from(options: &OptionsMap) -> (r: Result<String, Error>)
    ensures
        match r {
            Ok(command) => default_command_spec(options@) == Some(command@),
            Err(e) => default_command_spec(options@) is None && is_config_error(
                e,
                "no default-shell"@,
            ),
        },
{
    let default_shell: String = match options.get("default-shell") {
        Some(shell) => {
            if ends_with(shell.as_str(), "bash") {
                let login: String = "-l ".to_owned();
                login.concat(shell.as_str())
            } else {
                shell.clone()
            }
        },
        None => {
            return Err(Error::TmuxConfig("no default-shell"));
        },
    };
    match options.get("default-command") {
        Some(command) => Ok(command.clone()),
        None => Ok(default_shell),
    }
}

} // verus!
