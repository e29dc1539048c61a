//! The errors of this crate, and the checks on the output of a finished tmux
//! command.

use crate::parse::{GrammarError, GrammarFailure};
use vstd::prelude::*;
use vstd::string::StringExecFns;
use vstd::utf8::{decode_utf8, valid_utf8};

verus! {

/// The error of `String::from_utf8`. Nothing is known of what it holds.
#[verifier::external_type_specification]
#[verifier::external_body]
pub struct ExFromUtf8Error(std::string::FromUtf8Error);

/// The error of an input or output operation. Nothing is known of what it
/// holds.
#[verifier::external_type_specification]
#[verifier::external_body]
pub struct ExIoError(std::io::Error);

/// All the errors of this crate.
#[derive(Debug)]
pub enum Error {
    /// A tmux command printed something where nothing was expected, or ended
    /// with a status other than zero.
    UnexpectedTmuxOutput { intent: &'static str, stdout: String, stderr: String },
    /// The configuration of tmux lacks something, such as `default-shell`.
    TmuxConfig(&'static str),
    /// A line did not have the form that was asked of tmux.
    ParseError { desc: &'static str, intent: &'static str, err: GrammarError },
    /// What a command printed is not UTF-8.
    Utf8 { source: std::string::FromUtf8Error },
    /// tmux could not be started, waited for or read.
    Io { source: std::io::Error },
}

/// What a finished command left: its exit code, and what it wrote to its
/// standard output and to its standard error.
#[derive(Debug, Clone)]
pub struct Output {
    /// The exit code; `None` where the process ended without one.
    pub status: Option<i32>,
    /// The bytes written to the standard output.
    pub stdout: Vec<u8>,
    /// The bytes written to the standard error.
    pub stderr: Vec<u8>,
}

impl Output {
    /// A command succeeded if it ended with the exit code zero.
    pub open spec fn spec_success(&self) -> bool {
        self.status == Some(0i32)
    }

    /// Whether the command ended with the exit code zero.
    #[verifier::when_used_as_spec(spec_success)]
    pub fn success(&self) -> (ok: bool)
        ensures
            ok == self.spec_success(),
    {
        match self.status {
            Some(code) => code == 0,
            None => false,
        }
    }
}

/// `e` is the error of a line that did not parse: `desc` names what was
/// read, `intent` the form that was expected, `err` says where and why the
/// grammar stopped.
pub open spec fn is_parse_error(
    e: Error,
    desc: Seq<char>,
    intent: Seq<char>,
    err: GrammarFailure,
) -> bool {
    match e {
        Error::ParseError { desc: d, intent: i, err: g } => d@ == desc && i@ == intent && g@
            == err,
        _ => false,
    }
}

/// `e` is the error of a command that printed `stdout` and `stderr` against
/// what `intent` expected.
pub open spec fn is_unexpected_output(
    e: Error,
    intent: Seq<char>,
    stdout: Seq<char>,
    stderr: Seq<char>,
) -> bool {
    match e {
        Error::UnexpectedTmuxOutput { intent: i, stdout: out, stderr: err } => i@ == intent
            && out@ == stdout && err@ == stderr,
        _ => false,
    }
}

/// `e` is the error of a tmux configuration that lacks something; `reason`
/// says what.
pub open spec fn is_config_error(e: Error, reason: Seq<char>) -> bool {
    match e {
        Error::TmuxConfig(r) => r@ == reason,
        _ => false,
    }
}

/// Make the error of a line that did not parse out of the failure of the
/// grammar.
#[must_use]
pub fn map_add_intent(desc: &'static str, intent: &'static str, err: GrammarError) -> (e: Error)
    ensures
        is_parse_error(e, desc@, intent@, err@),
{
    Error::ParseError { desc, intent, err }
}

/// The text that `String::from_utf8_lossy` makes of bytes: the bytes decoded
/// as UTF-8, with the replacement character in place of each part that is
/// not UTF-8.
pub uninterp spec fn lossy_text(bytes: Seq<u8>) -> Seq<char>;

/// Calls `String::from_utf8_lossy` and owns the result. The text depends on
/// the bytes alone; bytes that are UTF-8 give the text that they encode.
#[verifier::external_body]
fn decode_lossy(bytes: &[u8]) -> (text: String)
    ensures
        text@ == lossy_text(bytes@),
        valid_utf8(bytes@) ==> text@ == decode_utf8(bytes@),
{
    String::from_utf8_lossy(bytes).to_string()
}

/// The error of a command that printed `stdout` and `stderr` against what
/// `intent` expected.
pub fn unexpected_output(intent: &'static str, stdout: String, stderr: String) -> (e: Error)
    ensures
        is_unexpected_output(e, intent@, stdout@, stderr@),
{
    Error::UnexpectedTmuxOutput { intent, stdout, stderr }
}

/// Make sure that the command printed nothing, neither to its standard
/// output nor to its standard error. The exit code is not looked at.
///
/// # Errors
///
/// `Error::UnexpectedTmuxOutput` with both outputs as text if either holds
/// a byte.
pub fn check_empty_process_output(output: &Output, intent: &'static str) -> (r: Result<(), Error>)
    ensures
        r is Ok <==> output.stdout@.len() == 0 && output.stderr@.len() == 0,
        r matches Err(e) ==> is_unexpected_output(
            e,
            intent@,
            lossy_text(output.stdout@),
            lossy_text(output.stderr@),
        ),
{
    if !output.stdout.is_empty() || !output.stderr.is_empty() {
        let stdout = decode_lossy(output.stdout.as_slice());
        let stderr = decode_lossy(output.stderr.as_slice());
        return Err(unexpected_output(intent, stdout, stderr));
    }
    Ok(())
}

/// Make sure that the command ended with the exit code zero, before its
/// output is parsed. What it printed is not looked at.
///
/// # Errors
///
/// `Error::UnexpectedTmuxOutput` with both outputs as text if the exit code
/// is not zero.
pub fn check_process_success(output: &Output, intent: &'static str) -> (r: Result<(), Error>)
    ensures
        r is Ok <==> output.success(),
        r matches Err(e) ==> is_unexpected_output(
            e,
            intent@,
            lossy_text(output.stdout@),
            lossy_text(output.stderr@),
        ),
{
    if !output.success() {
        let stdout = decode_lossy(output.stdout.as_slice());
        let stderr = decode_lossy(output.stderr.as_slice());
        return Err(unexpected_output(intent, stdout, stderr));
    }
    Ok(())
}

/// The text of three pieces, one after the other.
fn concat3(a: &str, b: &str, c: &str) -> (text: String)
    ensures
        text@ == a@ + b@ + c@,
{
    let text: String = a.to_owned();
    let text = text.concat(b);
    text.concat(c)
}

/// Calls `to_string` on a `FromUtf8Error`: the text that describes the
/// error. Nothing is stated of it.
#[verifier::external_body]
fn utf8_error_text(source: &std::string::FromUtf8Error) -> (text: String) {
    source.to_string()
}

/// Calls `to_string` on an `io::Error`: the text that describes the error.
/// Nothing is stated of it.
#[verifier::external_body]
fn io_error_text(source: &std::io::Error) -> (text: String) {
    source.to_string()
}

/// The message of the error of a command that printed `stdout` and `stderr`
/// against what `intent` expected.
pub open spec fn unexpected_output_message(
    intent: Seq<char>,
    stdout: Seq<char>,
    stderr: Seq<char>,
) -> Seq<char> {
    "unexpected process output: intent: `"@ + intent + "`, stdout: `"@ + stdout
        + "`, stderr: `"@ + stderr + "`"@
}

impl Error {
    /// The message of the error, for a reader.
    pub fn message(&self) -> (text: String)
        ensures
            match self {
                Error::UnexpectedTmuxOutput { intent, stdout, stderr } => text@
                    == unexpected_output_message(intent@, stdout@, stderr@),
                Error::TmuxConfig(reason) => text@ == "unexpected tmux config: `"@ + reason@
                    + "`"@,
                Error::ParseError { intent, .. } => text@ == "failed parsing: `"@ + intent@
                    + "`"@,
                Error::Utf8 { .. } => exists|detail: Seq<char>|
                    text@ == "failed parsing utf-8 string: `"@ + detail + "`"@,
                Error::Io { .. } => exists|detail: Seq<char>|
                    text@ == "failed with io: `"@ + detail + "`"@,
            },
    {
        match self {
            Error::UnexpectedTmuxOutput { intent, stdout, stderr } => {
                let text = concat3("unexpected process output: intent: `", intent, "`, stdout: `");
                let text = text.concat(stdout.as_str());
                let text = text.concat("`, stderr: `");
                let text = text.concat(stderr.as_str());
                text.concat("`")
            },
            Error::TmuxConfig(reason) => concat3("unexpected tmux config: `", reason, "`"),
            Error::ParseError { intent, .. } => concat3("failed parsing: `", intent, "`"),
            Error::Utf8 { source } => {
                let detail = utf8_error_text(source);
                concat3("failed parsing utf-8 string: `", detail.as_str(), "`")
            },
            Error::Io { source } => {
                let detail = io_error_text(source);
                concat3("failed with io: `", detail.as_str(), "`")
            },
        }
    }
}

} // verus!
