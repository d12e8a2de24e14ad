use minigrep::config::{Config, INVALID_ARGS_INFO};

fn words(ws: &[&str]) -> Vec<String> {
    ws.iter().map(|w| w.to_string()).collect()
}

#[test]
fn too_few_words_is_an_error() {
    let r = Config::new(&words(&["grep"]));
    assert_eq!(r.err(), Some(INVALID_ARGS_INFO));
}

#[test]
fn missing_path_is_an_error() {
    let r = Config::new(&words(&["grep", "-n", "foo"]));
    assert_eq!(r.err(), Some(INVALID_ARGS_INFO));
}

#[test]
fn help_alone_is_accepted() {
    let c = Config::new(&words(&["grep", "--help"])).ok().unwrap();
    assert!(c.print_usage);
    assert!(c.search_string.is_empty());
    assert!(c.filenames.is_empty());
    let c = Config::new(&words(&["grep", "-h"])).ok().unwrap();
    assert!(c.print_usage);
}

#[test]
fn options_may_stand_anywhere() {
    let c = Config::new(&words(&["grep", "-i", "foo", "-n", "a.txt", "-v", "b.txt", "-r", "-f", "-c"]))
        .ok()
        .unwrap();
    assert!(!c.print_usage);
    assert_eq!(c.search_string, "foo");
    assert_eq!(c.filenames, vec!["a.txt".to_string(), "b.txt".to_string()]);
    assert!(c.is_case_insensitive);
    assert!(c.print_line_no);
    assert!(c.invert_match);
    assert!(c.recursive_search);
    assert!(c.print_filenames);
    assert!(c.coloured_output);
}

#[test]
fn no_options_leaves_all_off() {
    let c = Config::new(&words(&["grep", "foo", "a.txt"])).ok().unwrap();
    assert_eq!(c.search_string, "foo");
    assert_eq!(c.filenames, vec!["a.txt".to_string()]);
    assert!(!c.is_case_insensitive);
    assert!(!c.print_line_no);
    assert!(!c.invert_match);
    assert!(!c.recursive_search);
    assert!(!c.print_filenames);
    assert!(!c.coloured_output);
    assert!(!c.print_usage);
}
