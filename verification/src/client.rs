//! The client of a tmux server: the session it shows and the one it showed
//! before.

use crate::command::{args1, exact_target, exact_target_spec, strings_view, with_arg};
use crate::error::{is_parse_error, map_add_intent, Error, Output};
use crate::parse::{
    failure, quoted_nonempty_string, quoted_nonempty_string_spec, quoted_string,
    quoted_string_spec, ErrorKind, GrammarError, GrammarFailure,
};
use crate::parse_laws::{
    is_body, lemma_quoted_nonempty_string_accepts, lemma_quoted_nonempty_string_agrees,
    lemma_quoted_string_accepts, lemma_quoted_string_accepts_only, quoted,
};
use crate::text::{trim_end, trim_end_spec};
use vstd::prelude::*;
use vstd::utf8::{decode_utf8, valid_utf8};

verus! {

/// A tmux client.
#[derive(Debug, Clone)]
pub struct Client {
    /// The name of the current session, which is never empty.
    pub session_name: String,
    /// The name of the last session, empty where there was none.
    pub last_session_name: String,
}

/// The character between the two names of a client line.
pub const NAME_SEPARATOR: char = ':';

/// What `Client::parse` reads in `s`: the name of the current session and
/// the name of the last one.
///
/// The line is a quoted string that is not empty, a colon, and a quoted
/// string, with nothing after it.
pub open spec fn client_spec(s: Seq<char>) -> Result<(Seq<char>, Seq<char>), GrammarFailure> {
    match quoted_nonempty_string_spec(s) {
        Err(e) => Err(e),
        Ok((after_name, name)) => if after_name.len() == 0 || after_name[0] != NAME_SEPARATOR {
            Err(failure(after_name, ErrorKind::Char))
        } else {
            match quoted_string_spec(after_name.skip(1)) {
                Err(e) => Err(e),
                Ok((rest, last)) => if rest.len() == 0 {
                    Ok((name, last))
                } else {
                    Err(failure(rest, ErrorKind::Eof))
                },
            }
        },
    }
}

/// `r` is what reading the client line `line` gives: the two names that the
/// grammar finds in it, or the parse error that holds the failure of the
/// grammar.
pub open spec fn is_client_of(r: Result<Client, Error>, line: Seq<char>) -> bool {
    match r {
        Ok(client) => client_spec(line) == Ok::<(Seq<char>, Seq<char>), GrammarFailure>(
            (client.session_name@, client.last_session_name@),
        ),
        Err(e) => client_spec(line) matches Err(f) && is_parse_error(
            e,
            "Client"@,
            "'##{client_session}':'##{client_last_session}'"@,
            f,
        ),
    }
}

/// The line of a client with these two names.
pub open spec fn client_line(name: Seq<char>, last: Seq<char>) -> Seq<char> {
    quoted(name, seq![NAME_SEPARATOR] + quoted(last, Seq::empty()))
}

/// A line that is read as a client is the line of the two names that are
/// handed back, and nothing else; the first name is not empty.
pub proof fn lemma_client_line(s: Seq<char>)
    requires
        client_spec(s) is Ok,
    ensures
        ({
            let (name, last) = client_spec(s)->Ok_0;
            &&& name.len() > 0
            &&& is_body(name)
            &&& is_body(last)
            &&& s == client_line(name, last)
        }),
{
    lemma_quoted_nonempty_string_agrees(s);
    lemma_quoted_string_accepts_only(s);
    let (after_name, name) = quoted_nonempty_string_spec(s)->Ok_0;
    let after_colon = after_name.skip(1);
    lemma_quoted_string_accepts_only(after_colon);
    let (rest, last) = quoted_string_spec(after_colon)->Ok_0;
    assert(rest =~= Seq::<char>::empty());
    assert(after_name =~= seq![NAME_SEPARATOR] + after_colon);
}

/// The line of two names is read as the client with these names, whenever
/// both are bodies of quoted strings and the first is not empty.
pub proof fn lemma_client_line_is_read(name: Seq<char>, last: Seq<char>)
    requires
        is_body(name),
        is_body(last),
        name.len() > 0,
    ensures
        client_spec(client_line(name, last)) == Ok::<(Seq<char>, Seq<char>), GrammarFailure>(
            (name, last),
        ),
{
    let after_colon = quoted(last, Seq::empty());
    let after_name = seq![NAME_SEPARATOR] + after_colon;
    lemma_quoted_nonempty_string_accepts(name, after_name);
    assert(after_name.skip(1) =~= after_colon);
    lemma_quoted_string_accepts(last, Seq::empty());
}

/// Read the colon at the start of `input`.
fn separator(input: &str) -> (r: Result<&str, GrammarError>)
    ensures
        match r {
            Ok(rest) => input@.len() > 0 && input@[0] == NAME_SEPARATOR && rest@ == input@.skip(1),
            Err(e) => (input@.len() == 0 || input@[0] != NAME_SEPARATOR) && e@ == failure(
                input@,
                ErrorKind::Char,
            ),
        },
{
    let n: usize = input.unicode_len();
    if n > 0 && input.get_char(0) == NAME_SEPARATOR {
        let rest: &str = input.substring_char(1, n);
        assert(input@.subrange(1, n as int) =~= input@.skip(1));
        Ok(rest)
    } else {
        Err(GrammarError { input: input.to_owned(), code: ErrorKind::Char })
    }
}

/// Read the two names of a client line as the grammar gives them.
fn client_names(input: &str) -> (r: Result<(&str, &str), GrammarError>)
    ensures
        match r {
            Ok((name, last)) => client_spec(input@) == Ok::<
                (Seq<char>, Seq<char>),
                GrammarFailure,
            >((name@, last@)),
            Err(e) => client_spec(input@) == Err::<(Seq<char>, Seq<char>), GrammarFailure>(e@),
        },
{
    let (after_name, name) = match quoted_nonempty_string(input) {
        Ok(read) => read,
        Err(e) => {
            return Err(e);
        },
    };
    let after_colon = match separator(after_name) {
        Ok(rest) => rest,
        Err(e) => {
            return Err(e);
        },
    };
    let (rest, last) = match quoted_string(after_colon) {
        Ok(read) => read,
        Err(e) => {
            return Err(e);
        },
    };
    if rest.is_empty() {
        Ok((name, last))
    } else {
        Err(GrammarError { input: rest.to_owned(), code: ErrorKind::Eof })
    }
}

impl Client {
    /// Read the line that describes a client.
    ///
    /// tmux prints it for the format
    /// `'#{client_session}':'#{client_last_session}'`: the name of the
    /// current session and the name of the last one, each between single
    /// quotes, with a colon between them.
    ///
    /// # Errors
    ///
    /// `Error::ParseError` where the line has another form.
    pub fn parse(input: &str) -> (r: Result<Client, Error>)
        ensures
            is_client_of(r, input@),
            r matches Ok(client) ==> client.session_name@.len() > 0,
    {
        proof {
            if client_spec(input@) is Ok {
                lemma_client_line(input@);
            }
        }
        let desc = "Client";
        let intent = "'##{client_session}':'##{client_last_session}'";
        match client_names(input) {
            Ok((name, last)) => Ok(
                Client { session_name: name.to_owned(), last_session_name: last.to_owned() },
            ),
            Err(e) => Err(map_add_intent(desc, intent, e)),
        }
    }
}

impl std::str::FromStr for Client {
    type Err = Error;

    /// Read the line that describes a client, as `Client::parse` does.
    fn from_str(input: &str) -> (r: Result<Client, Error>)
        ensures
            is_client_of(r, input@),
            r matches Ok(client) ==> client.session_name@.len() > 0,
    {
        Client::parse(input)
    }
}

/// The arguments with which tmux prints the line that describes the current
/// client.
pub fn current_args() -> (args: Vec<String>)
    ensures
        strings_view(args@) == seq![
            "display-message"@,
            "-p"@,
            "-F"@,
            "'#{client_session}':'#{client_last_session}'"@,
        ],
{
    let args = args1("display-message");
    let args = with_arg(args, "-p");
    let args = with_arg(args, "-F");
    let args = with_arg(args, "'#{client_session}':'#{client_last_session}'");
    assert(strings_view(args@) =~= seq![
        "display-message"@,
        "-p"@,
        "-F"@,
        "'#{client_session}':'#{client_last_session}'"@,
    ]);
    args
}

/// The client that the output of the command of `current_args` describes.
///
/// The output is read as UTF-8, the white space at its end is dropped, and
/// the line is read as `Client::parse` reads it. The exit code is not
/// looked at.
///
/// # Errors
///
/// `Error::Utf8` where the standard output is not UTF-8, `Error::ParseError`
/// where the line has another form.
pub fn current_result(output: Output) -> (r: Result<Client, Error>)
    ensures
        !valid_utf8(output.stdout@) ==> r matches Err(Error::Utf8 { .. }),
        valid_utf8(output.stdout@) ==> is_client_of(
            r,
            trim_end_spec(decode_utf8(output.stdout@)),
        ),
        r matches Ok(client) ==> client.session_name@.len() > 0,
{
    match String::from_utf8(output.stdout) {
        Ok(buffer) => Client::parse(trim_end(buffer.as_str())),
        Err(source) => Err(Error::Utf8 { source }),
    }
}

/// The arguments with which tmux shows `message` in its status line.
pub fn display_message_args(message: &str) -> (args: Vec<String>)
    ensures
        strings_view(args@) == seq!["display-message"@, message@],
{
    let args = args1("display-message");
    let args = with_arg(args, message);
    assert(strings_view(args@) =~= seq!["display-message"@, message@]);
    args
}

/// The arguments with which tmux switches the client to the session that is
/// named exactly `session_name`.
pub fn switch_client_args(session_name: &str) -> (args: Vec<String>)
    ensures
        strings_view(args@) == seq!["switch-client"@, "-t"@, exact_target_spec(session_name@)],
{
    let target = exact_target(session_name);
    let args = args1("switch-client");
    let args = with_arg(args, "-t");
    let args = with_arg(args, target.as_str());
    assert(strings_view(args@) =~= seq![
        "switch-client"@,
        "-t"@,
        exact_target_spec(session_name@),
    ]);
    args
}

} // verus!
