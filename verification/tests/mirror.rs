use raur::mirror::{github_package_exists, parse_branches};

#[test]
fn package_is_found_among_branches() {
    let list = vec!["bar".to_string(), "foo".to_string()];
    assert!(github_package_exists("foo", &list));
    assert!(github_package_exists("bar", &list));
}

#[test]
fn package_is_matched_whole() {
    let list = vec!["foobar".to_string(), "Foo".to_string()];
    assert!(!github_package_exists("foo", &list));
    assert!(!github_package_exists("", &list));
    assert!(!github_package_exists("foo", &[]));
}

#[test]
fn branches_are_read_off_the_heads() {
    let listing = "0123abc\trefs/heads/foo\n4567def\trefs/heads/bar-git\n";
    assert_eq!(parse_branches(listing), vec!["foo".to_string(), "bar-git".to_string()]);
}

#[test]
fn other_references_are_kept_whole() {
    let listing = "0123abc refs/tags/v1\n4567def HEAD\n89 refs/heads/\n";
    assert_eq!(
        parse_branches(listing),
        vec!["refs/tags/v1".to_string(), "HEAD".to_string(), "".to_string()]
    );
}

#[test]
fn lines_without_a_reference_name_nothing() {
    assert_eq!(parse_branches("0123abc\n\n  \n"), Vec::<String>::new());
    assert_eq!(parse_branches(""), Vec::<String>::new());
    assert_eq!(parse_branches("a refs/heads/x third\r\n"), vec!["x".to_string()]);
}

#[test]
fn only_the_leading_prefix_is_taken_off() {
    assert_eq!(
        parse_branches("1 refs/heads/refs/heads/x\n2 xrefs/heads/y\n"),
        vec!["refs/heads/x".to_string(), "xrefs/heads/y".to_string()]
    );
}
