use minigrep::paths::{contains_wildcard, directory_notice, path_action, PathAction};

#[test]
fn directory_without_recursion_is_skipped() {
    assert_eq!(path_action("src", true, false), PathAction::SkipDirectory);
    assert_eq!(
        directory_notice("src"),
        "src is a directory. Use -r option to search recursively."
    );
}

#[test]
fn directory_with_recursion_is_walked() {
    assert_eq!(path_action("src", true, true), PathAction::Walk);
}

#[test]
fn wildcards_are_expanded() {
    assert_eq!(path_action("*.txt", false, false), PathAction::Expand);
    assert_eq!(path_action("a/b*", false, true), PathAction::Expand);
    assert!(contains_wildcard("x*"));
    assert!(!contains_wildcard("x"));
}

#[test]
fn plain_paths_stay_as_they_are() {
    assert_eq!(path_action("a.txt", false, false), PathAction::Literal);
    assert_eq!(path_action("missing.txt", false, true), PathAction::Literal);
}
