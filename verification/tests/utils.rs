use tmux_lib::utils::{
    buf_trim_trailing, cleanup_captured_buffer, drop_last_empty_lines, is_not_whitespace,
    is_whitespace, SliceExt,
};

#[test]
fn trims_trailing_whitespaces() {
    let input = "  text   ".as_bytes();
    let expected = "  text".as_bytes();

    let actual = input.trim_trailing();
    assert_eq!(actual, expected);
}

#[test]
fn trims_whitespaces() {
    let input = "  text   ".as_bytes();
    let expected = "text".as_bytes();

    let actual = input.trim();
    assert_eq!(actual, expected);
}

#[test]
fn test_buf_trim_trailing() {
    let text = "line1\n\nline3   ";
    let actual = buf_trim_trailing(text.as_bytes());
    let expected = vec!["line1".as_bytes(), "".as_bytes(), "line3".as_bytes()];
    assert_eq!(actual, expected);
}

#[test]
fn test_buf_drop_last_empty_lines() {
    let text = "line1\nline2\n\nline3   ";

    let trimmed_lines = buf_trim_trailing(text.as_bytes());
    let actual = drop_last_empty_lines(&trimmed_lines);
    let expected = trimmed_lines;
    assert_eq!(actual, expected);

    //

    let text = "line1\nline2\n\n\n     ";

    let trimmed_lines = buf_trim_trailing(text.as_bytes());
    let actual = drop_last_empty_lines(&trimmed_lines);
    let expected = vec!["line1".as_bytes(), "line2".as_bytes()];
    assert_eq!(actual, expected);
}

#[test]
fn test_trim_only_whitespace() {
    let input = "   \t  ".as_bytes();
    assert_eq!(input.trim(), &[]);
    assert_eq!(input.trim_trailing(), &[]);
}

#[test]
fn test_trim_empty() {
    let input = "".as_bytes();
    assert_eq!(input.trim(), &[]);
    assert_eq!(input.trim_trailing(), &[]);
}

#[test]
fn test_trim_tabs() {
    let input = "\t\ttext\t\t".as_bytes();
    assert_eq!(input.trim(), "text".as_bytes());
    assert_eq!(input.trim_trailing(), "\t\ttext".as_bytes());
}

#[test]
fn test_cleanup_captured_buffer_basic() {
    let input = "line1\nline2\n";
    let result = cleanup_captured_buffer(input.as_bytes(), 0);

    // Should have lines with reset code on last line
    let result_str = String::from_utf8(result).unwrap();
    assert!(result_str.contains("line1\n"));
    assert!(result_str.contains("line2"));
    assert!(result_str.contains("\u{001b}[0m")); // reset code
}

#[test]
fn test_cleanup_captured_buffer_trims_trailing_spaces() {
    let input = "line1   \nline2   \n";
    let result = cleanup_captured_buffer(input.as_bytes(), 0);

    let result_str = String::from_utf8(result).unwrap();
    // Lines should be trimmed of trailing spaces
    assert!(result_str.starts_with("line1\n"));
    assert!(result_str.contains("line2\u{001b}[0m\n"));
}

#[test]
fn test_cleanup_captured_buffer_drops_empty_trailing_lines() {
    let input = "line1\nline2\n\n\n   \n";
    let result = cleanup_captured_buffer(input.as_bytes(), 0);

    let result_str = String::from_utf8(result).unwrap();
    // Should only have line1 and line2, no trailing empty lines
    assert_eq!(result_str, "line1\nline2\u{001b}[0m\n");
}

#[test]
fn test_cleanup_captured_buffer_drop_n_last_lines() {
    let input = "line1\nline2\nline3\nline4\n";
    let result = cleanup_captured_buffer(input.as_bytes(), 2);

    let result_str = String::from_utf8(result).unwrap();
    // Should drop last 2 lines (line3 and line4)
    assert_eq!(result_str, "line1\nline2\u{001b}[0m\n");
}

#[test]
fn test_cleanup_captured_buffer_single_line() {
    let input = "single line   \n";
    let result = cleanup_captured_buffer(input.as_bytes(), 0);

    let result_str = String::from_utf8(result).unwrap();
    assert_eq!(result_str, "single line\u{001b}[0m\n");
}

#[test]
fn test_cleanup_captured_buffer_preserves_escape_codes() {
    // Simulate content with existing escape codes
    let input = "\u{001b}[32mgreen text\u{001b}[0m\n";
    let result = cleanup_captured_buffer(input.as_bytes(), 0);

    let result_str = String::from_utf8(result).unwrap();
    // Should preserve existing escape codes and add reset at end
    assert!(result_str.contains("\u{001b}[32m"));
    assert!(result_str.ends_with("\u{001b}[0m\n"));
}

#[test]
fn test_drop_last_empty_lines_all_empty() {
    let lines: Vec<&[u8]> = vec![b"", b"", b""];
    let result = drop_last_empty_lines(&lines);
    // When all lines are empty, should return as-is
    assert_eq!(result, lines);
}

#[test]
fn test_drop_last_empty_lines_no_empty() {
    let lines: Vec<&[u8]> = vec![b"a", b"b", b"c"];
    let result = drop_last_empty_lines(&lines);
    assert_eq!(result, lines);
}

#[test]
fn whitespace_is_space_and_tab_only() {
    for c in 0u8..=255 {
        let blank = c == b' ' || c == b'\t';
        assert_eq!(is_whitespace(&c), blank);
        assert_eq!(is_not_whitespace(&c), !blank);
    }
}

#[test]
fn trim_keeps_inner_blanks() {
    assert_eq!(b" a \t b ".trim(), b"a \t b");
    assert_eq!(b" a \t b ".trim_trailing(), b" a \t b");
    // a newline is not blank
    assert_eq!(b"a \n ".trim_trailing(), b"a \n");
}

#[test]
fn buf_trim_trailing_of_empty_buffer_is_one_empty_line() {
    let expected: Vec<&[u8]> = vec![b""];
    assert_eq!(buf_trim_trailing(b""), expected);
}

#[test]
fn buf_trim_trailing_keeps_last_empty_line() {
    let expected: Vec<&[u8]> = vec![b"a", b"", b"  b", b""];
    assert_eq!(buf_trim_trailing(b"a  \n \t\n  b\n"), expected);
}

#[test]
fn drop_last_empty_lines_of_no_line() {
    let lines: Vec<&[u8]> = vec![];
    assert_eq!(drop_last_empty_lines(&lines), lines);
}

#[test]
fn drop_last_empty_lines_keeps_inner_empty_lines() {
    let lines: Vec<&[u8]> = vec![b"", b"a", b"", b"b", b"", b""];
    let expected: Vec<&[u8]> = vec![b"", b"a", b"", b"b"];
    assert_eq!(drop_last_empty_lines(&lines), expected);
}

#[test]
fn cleanup_trims_each_line() {
    assert_eq!(
        cleanup_captured_buffer(b"line1   \nline2   \n", 0),
        b"line1\nline2\x1b[0m\n"
    );
}

#[test]
fn cleanup_drops_lines_from_the_end() {
    assert_eq!(cleanup_captured_buffer(b"a\nb\nc\nd\n", 2), b"a\nb\x1b[0m\n");
}

#[test]
fn cleanup_of_empty_buffer_is_one_reset_line() {
    assert_eq!(cleanup_captured_buffer(b"", 0), b"\x1b[0m\n");
    assert_eq!(cleanup_captured_buffer(b"", 1), b"");
}

#[test]
fn cleanup_keeps_blank_buffer_lines() {
    // where every line is empty, none is dropped
    assert_eq!(cleanup_captured_buffer(b" \n\t\n", 0), b"\n\n\x1b[0m\n");
}

#[test]
fn cleanup_keeps_leading_blanks_and_inner_empty_lines() {
    assert_eq!(
        cleanup_captured_buffer(b"  a\n\n\tb  \n", 0),
        b"  a\n\n\tb\x1b[0m\n"
    );
}

#[test]
fn cleanup_truncation_gives_each_prefix() {
    let buffer = b"a\nb\nc\nd\n";
    assert_eq!(cleanup_captured_buffer(buffer, 0), b"a\nb\nc\nd\x1b[0m\n");
    assert_eq!(cleanup_captured_buffer(buffer, 1), b"a\nb\nc\x1b[0m\n");
    assert_eq!(cleanup_captured_buffer(buffer, 3), b"a\x1b[0m\n");
    assert_eq!(cleanup_captured_buffer(buffer, 4), b"");
}

#[test]
fn cleanup_dropping_more_lines_than_there_are_leaves_nothing() {
    assert_eq!(cleanup_captured_buffer(b"a\nb\n", 3), b"");
    assert_eq!(cleanup_captured_buffer(b"a\nb\n", usize::MAX), b"");
}

#[test]
fn cleanup_ignores_blanks_at_line_ends() {
    let plain = cleanup_captured_buffer(b"one\ntwo\nthree", 1);
    assert_eq!(cleanup_captured_buffer(b"one \t\ntwo\nthree", 1), plain);
    assert_eq!(cleanup_captured_buffer(b"one\ntwo  \nthree", 1), plain);
    assert_eq!(cleanup_captured_buffer(b"one\ntwo\nthree\t\t", 1), plain);
}

#[test]
fn cleanup_ignores_newlines_at_the_end() {
    let plain = cleanup_captured_buffer(b"one\ntwo", 0);
    assert_eq!(cleanup_captured_buffer(b"one\ntwo\n", 0), plain);
    assert_eq!(cleanup_captured_buffer(b"one\ntwo\n\n  \n\t\n", 0), plain);
    assert_eq!(plain, b"one\ntwo\x1b[0m\n");
}

#[test]
fn cleanup_puts_reset_on_last_line_only() {
    let out = cleanup_captured_buffer(b"a\nb\nc\n", 0);
    assert!(out.ends_with(b"\x1b[0m\n"));
    let lines: Vec<&[u8]> = out.split(|c| *c == b'\n').collect();
    let expected: Vec<&[u8]> = vec![b"a", b"b", b"c\x1b[0m", b""];
    assert_eq!(lines, expected);
}
