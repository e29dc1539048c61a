//! The grammars of the library are held against the same grammars written
//! with the combinators of `nom`: on every input both accept or both refuse,
//! with the same rest and the same value, or the same place and reason.

use nom::branch::alt;
use nom::bytes::complete::{escaped, tag};
use nom::character::complete::{char, digit1, none_of};
use nom::combinator::{all_consuming, value};
use nom::sequence::{delimited, preceded};
use nom::{IResult, Parser};
use tmux_lib::client::Client;
use tmux_lib::error::Error;
use tmux_lib::parse::{
    boolean, opaque_id, quoted_nonempty_string, quoted_string, whole_opaque_id, ErrorKind,
    GrammarError,
};

fn nom_quoted_string(input: &str) -> IResult<&str, &str> {
    let esc = escaped(none_of("\\\'"), '\\', tag("'"));
    let esc_or_empty = alt((esc, tag("")));
    delimited(tag("'"), esc_or_empty, tag("'")).parse(input)
}

fn nom_quoted_nonempty_string(input: &str) -> IResult<&str, &str> {
    let esc = escaped(none_of("\\\'"), '\\', tag("'"));
    delimited(tag("'"), esc, tag("'")).parse(input)
}

fn nom_boolean(input: &str) -> IResult<&str, bool> {
    let parse_true = value(true, tag("true"));
    let parse_false = value(false, tag("false"));
    alt((parse_true, parse_false)).parse(input)
}

fn nom_id(prefix: char, input: &str) -> IResult<&str, String> {
    let (input, digit) = preceded(char(prefix), digit1).parse(input)?;
    Ok((input, format!("{prefix}{digit}")))
}

fn nom_session_id(input: &str) -> IResult<&str, String> {
    nom_id('$', input)
}

fn nom_client(input: &str) -> IResult<&str, (&str, char, &str)> {
    all_consuming((nom_quoted_nonempty_string, char(':'), nom_quoted_string)).parse(input)
}

/// The reason of the library that stands for a reason of `nom`.
fn kind(code: nom::error::ErrorKind) -> ErrorKind {
    match code {
        nom::error::ErrorKind::Tag => ErrorKind::Tag,
        nom::error::ErrorKind::Char => ErrorKind::Char,
        nom::error::ErrorKind::Digit => ErrorKind::Digit,
        nom::error::ErrorKind::Escaped => ErrorKind::Escaped,
        nom::error::ErrorKind::Eof => ErrorKind::Eof,
        other => panic!("a reason that the library does not have: {:?}", other),
    }
}

/// What `nom` returned, in the types of the library.
fn expected<T>(r: IResult<&str, T>) -> Result<(&str, T), GrammarError> {
    match r {
        Ok(read) => Ok(read),
        Err(nom::Err::Error(e)) => Err(GrammarError { input: e.input.to_string(), code: kind(e.code) }),
        Err(other) => panic!("not a plain error: {:?}", other.map(|e| e.code)),
    }
}

/// Every text of at most `len` characters out of `alphabet`.
fn texts(alphabet: &[char], len: usize) -> Vec<String> {
    let mut all = vec![String::new()];
    let mut last = vec![String::new()];
    for _ in 0..len {
        let mut next = Vec::new();
        for text in &last {
            for c in alphabet {
                let mut longer = text.clone();
                longer.push(*c);
                next.push(longer);
            }
        }
        all.extend(next.iter().cloned());
        last = next;
    }
    all
}

#[test]
fn quoted_string_agrees_with_nom() {
    for input in texts(&['\'', '\\', 'a', ':', 'é'], 6) {
        assert_eq!(quoted_string(&input), expected(nom_quoted_string(&input)), "{:?}", input);
    }
}

#[test]
fn quoted_nonempty_string_agrees_with_nom() {
    for input in texts(&['\'', '\\', 'a', ':', 'é'], 6) {
        assert_eq!(
            quoted_nonempty_string(&input),
            expected(nom_quoted_nonempty_string(&input)),
            "{:?}",
            input
        );
    }
}

#[test]
fn boolean_agrees_with_nom() {
    let words = [
        "", "t", "tr", "tru", "true", "truee", "true ", " true", "True", "TRUE", "f", "fa", "fal",
        "fals", "false", "falsey", "false:true", "truefalse", "False", "FALSE", "1", "0", "yes",
        "no", "trüe", "true\n",
    ];
    for input in words {
        assert_eq!(boolean(input), expected(nom_boolean(input)), "{:?}", input);
    }
    for input in texts(&['t', 'r', 'u', 'e', 'f'], 5) {
        assert_eq!(boolean(&input), expected(nom_boolean(&input)), "{:?}", input);
    }
}

#[test]
fn opaque_id_agrees_with_nom() {
    for prefix in ['$', '@', '%'] {
        for input in texts(&['$', '@', '%', '0', '7', '9', 'a', ':', '٣'], 5) {
            let ours = opaque_id(prefix, &input).map(|(rest, id)| (rest, id.to_string()));
            assert_eq!(ours, expected(nom_id(prefix, &input)), "{:?} {:?}", prefix, input);
        }
    }
}

#[test]
fn whole_opaque_id_agrees_with_nom() {
    for input in texts(&['$', '@', '0', '7', '9', 'a', ':'], 5) {
        let ours = whole_opaque_id('$', &input).map(|id| id.to_string());
        let theirs = expected(all_consuming(nom_session_id).parse(&input)).map(|(_, id)| id);
        assert_eq!(ours, theirs, "{:?}", input);
    }
}

#[test]
fn client_agrees_with_nom() {
    for input in texts(&['\'', '\\', 'a', ':'], 8) {
        let theirs = expected(nom_client(&input));
        match (Client::parse(&input), theirs) {
            (Ok(client), Ok((rest, (name, _, last)))) => {
                assert_eq!(rest, "");
                assert_eq!(client.session_name, name, "{:?}", input);
                assert_eq!(client.last_session_name, last, "{:?}", input);
            }
            (Err(Error::ParseError { desc, intent, err }), Err(e)) => {
                assert_eq!(desc, "Client");
                assert_eq!(intent, "'##{client_session}':'##{client_last_session}'");
                assert_eq!(err, e, "{:?}", input);
            }
            (ours, theirs) => panic!("{:?}: {:?} against {:?}", input, ours, theirs),
        }
    }
}
