use minigrep::config::Config;
use minigrep::scan::{
    contains_text, is_selected, line_matches, render, render_line, scan_text, LineBody,
};

const FILE: &str = "foo\nbar\nfoobar\n";

fn config(ws: &[&str]) -> Config {
    let args: Vec<String> = ws.iter().map(|w| w.to_string()).collect();
    Config::new(&args).ok().unwrap()
}

fn output(cfg: &Config, file: &str, contents: &str) -> Vec<String> {
    scan_text(cfg, file, contents).iter().map(render).collect()
}

#[test]
fn plain_search_prints_matching_lines() {
    let cfg = config(&["grep", "foo", "a.txt"]);
    assert_eq!(output(&cfg, "a.txt", FILE), vec!["foo", "foobar"]);
}

#[test]
fn numbers_and_file_names() {
    let cfg = config(&["grep", "-n", "-f", "foo", "a.txt"]);
    assert_eq!(output(&cfg, "a.txt", FILE), vec!["a.txt: 1: foo", "a.txt: 3: foobar"]);
}

#[test]
fn inverted_search_prints_other_lines() {
    let cfg = config(&["grep", "-v", "foo", "a.txt"]);
    assert_eq!(output(&cfg, "a.txt", FILE), vec!["bar"]);
}

#[test]
fn case_insensitive_search_folds_case() {
    let cfg = config(&["grep", "-i", "FOO", "a.txt"]);
    assert_eq!(output(&cfg, "a.txt", FILE), vec!["foo", "foobar"]);
    let exact = config(&["grep", "FOO", "a.txt"]);
    assert!(output(&exact, "a.txt", FILE).is_empty());
}

#[test]
fn coloured_match_is_split_out() {
    let cfg = config(&["grep", "-c", "foo", "a.txt"]);
    let e = render_line(&cfg, "a.txt", 1, "xfoobar").unwrap();
    match &e.body {
        LineBody::Highlighted(b, m, a) => {
            assert_eq!(b, "x");
            assert_eq!(m, "foo");
            assert_eq!(a, "bar");
        }
        LineBody::Plain(_) => panic!("expected a highlighted line"),
    }
    colored::control::set_override(true);
    assert_eq!(render(&e), "x\u{1b}[31mfoo\u{1b}[0mbar");
    colored::control::set_override(false);
    assert_eq!(render(&e), "xfoobar");
}

#[test]
fn highlighting_is_skipped_under_invert_or_case_folding() {
    let cfg = config(&["grep", "-c", "-i", "FOO", "a.txt"]);
    let e = render_line(&cfg, "a.txt", 1, "xfoobar").unwrap();
    assert!(matches!(e.body, LineBody::Plain(ref t) if t == "xfoobar"));
    let cfg = config(&["grep", "-c", "-v", "foo", "a.txt"]);
    let e = render_line(&cfg, "a.txt", 2, "bar").unwrap();
    assert!(matches!(e.body, LineBody::Plain(ref t) if t == "bar"));
    assert!(render_line(&cfg, "a.txt", 1, "xfoobar").is_none());
}

#[test]
fn invert_flips_each_line() {
    for line in ["foo", "bar", "FOO", ""] {
        for ci in [false, true] {
            assert_eq!(is_selected(line, "foo", ci, true), !is_selected(line, "foo", ci, false));
        }
    }
}

#[test]
fn matching_with_and_without_case_folding() {
    assert!(line_matches("HELLO world", "ell", true));
    assert!(!line_matches("HELLO world", "ell", false));
    assert!(line_matches("Straße", "STRASSE".to_lowercase().as_str(), false) == false);
    assert!(line_matches("ÄRGER", "är", true));
    assert!(contains_text("abc", ""));
    assert!(!contains_text("", "a"));
}

#[test]
fn scanning_twice_gives_the_same_output() {
    let cfg = config(&["grep", "-n", "-f", "-c", "o", "a.txt"]);
    assert_eq!(output(&cfg, "a.txt", FILE), output(&cfg, "a.txt", FILE));
}

#[test]
fn line_numbers_start_at_one_and_stay_in_range() {
    let cfg = config(&["grep", "-n", "", "a.txt"]);
    let out = scan_text(&cfg, "a.txt", "x\r\ny\n\nz");
    let numbers: Vec<usize> = out.iter().map(|e| e.line_no).collect();
    assert_eq!(numbers, vec![1, 2, 3, 4]);
    assert_eq!(out[3].prefix, "4: ");
    let none = config(&["grep", "q", "a.txt"]);
    assert!(scan_text(&none, "a.txt", "").is_empty());
}
