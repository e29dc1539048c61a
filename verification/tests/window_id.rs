use std::str::FromStr;
use tmux_lib::error::Error;
use tmux_lib::window_id::{window_id, WindowId};

/// The id with the text `text`.
fn window(text: &str) -> WindowId {
    let id = WindowId::from_str(text).unwrap();
    assert_eq!(id.as_str(), text);
    id
}

#[test]
fn test_parse_window_id_fn() {
    let actual = window_id("@43");
    let expected = Ok(("", window("@43")));
    assert_eq!(actual, expected);

    let actual = window_id("@4");
    let expected = Ok(("", window("@4")));
    assert_eq!(actual, expected);
}

#[test]
fn test_parse_window_id_struct() {
    let actual = WindowId::from_str("@43");
    assert!(actual.is_ok());
    assert_eq!(actual.unwrap().as_str(), "@43");

    let actual = WindowId::from_str("4:38");
    assert!(matches!(
        actual,
        Err(Error::ParseError {
            desc: "WindowId",
            intent: "##{window_id}",
            err: _
        })
    ));
}

#[test]
fn test_parse_window_id_with_large_number() {
    let window_id = WindowId::from_str("@99999").unwrap();
    assert_eq!(window_id.as_str(), "@99999");
}

#[test]
fn test_parse_window_id_zero() {
    let window_id = WindowId::from_str("@0").unwrap();
    assert_eq!(window_id.as_str(), "@0");
}

#[test]
fn test_parse_window_id_fails_on_wrong_prefix() {
    // $ is for session, % is for pane
    assert!(WindowId::from_str("$1").is_err());
    assert!(WindowId::from_str("%1").is_err());
}

#[test]
fn test_parse_window_id_fails_on_no_prefix() {
    assert!(WindowId::from_str("123").is_err());
}

#[test]
fn test_parse_window_id_fails_on_empty() {
    assert!(WindowId::from_str("").is_err());
    assert!(WindowId::from_str("@").is_err());
}

#[test]
fn test_parse_window_id_fails_on_non_numeric() {
    assert!(WindowId::from_str("@abc").is_err());
    assert!(WindowId::from_str("@12abc").is_err());
}

#[test]
fn test_parse_window_id_fails_on_extra_content() {
    // all_consuming should reject trailing content
    assert!(WindowId::from_str("@12:extra").is_err());
}

#[test]
fn test_window_id_as_str() {
    let window_id = WindowId::from_str("@42").unwrap();
    assert_eq!(window_id.as_str(), "@42");
}

#[test]
fn test_window_id_leaves_remaining_in_parser() {
    // The parse function (not FromStr) should leave remaining input
    let (remaining, window_id) = window_id("@42:rest").unwrap();
    assert_eq!(remaining, ":rest");
    assert_eq!(window_id.as_str(), "@42");
}
