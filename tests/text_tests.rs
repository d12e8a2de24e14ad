use minigrep::text::{chars_of, decimal_string, find_first, split_lines, string_of};

fn lines(s: &str) -> Vec<String> {
    split_lines(&chars_of(s))
}

#[test]
fn lines_drop_terminators() {
    assert_eq!(lines("a\r\nb\n\nc"), vec!["a", "b", "", "c"]);
    assert_eq!(lines("foo\nbar\nfoobar\n"), vec!["foo", "bar", "foobar"]);
}

#[test]
fn lines_of_empty_text() {
    assert!(lines("").is_empty());
    assert_eq!(lines("\n"), vec![""]);
}

#[test]
fn lone_carriage_return_at_end_is_kept() {
    assert_eq!(lines("a\r"), vec!["a\r"]);
    assert_eq!(lines("a\rb\n"), vec!["a\rb"]);
}

#[test]
fn decimal_notation() {
    assert_eq!(decimal_string(0), "0");
    assert_eq!(decimal_string(7), "7");
    assert_eq!(decimal_string(1234), "1234");
    assert_eq!(decimal_string(usize::MAX), usize::MAX.to_string());
}

#[test]
fn first_occurrence_is_found() {
    let s = chars_of("xfoofoo");
    assert_eq!(find_first(&s, &chars_of("foo")), Some(1));
    assert_eq!(find_first(&s, &chars_of("")), Some(0));
    assert_eq!(find_first(&s, &chars_of("bar")), None);
    assert_eq!(find_first(&chars_of("fo"), &chars_of("foo")), None);
}

#[test]
fn substrings_by_position() {
    let s = chars_of("héllo");
    assert_eq!(string_of(&s, 1, 3), "él");
    assert_eq!(string_of(&s, 2, 2), "");
}
