use raur::package::{is_debug_package, parse_installed, PackageRecord};

#[test]
fn debug_suffixes_are_recognised() {
    assert!(is_debug_package("foo-debug"));
    assert!(is_debug_package("foo-dbg"));
    assert!(is_debug_package("foo-dbgsym"));
    assert!(is_debug_package("foo-debuginfo"));
    assert!(is_debug_package("-debug"));
}

#[test]
fn debug_suffixes_ignore_case() {
    assert!(is_debug_package("Foo-DEBUG"));
    assert!(is_debug_package("foo-DbgSym"));
    assert!(is_debug_package("FOO-DEBUGINFO"));
}

#[test]
fn other_names_are_no_debug_packages() {
    assert!(!is_debug_package("foo"));
    assert!(!is_debug_package(""));
    assert!(!is_debug_package("debug"));
    assert!(!is_debug_package("foo-debug-tools"));
    assert!(!is_debug_package("foo_debug"));
    assert!(!is_debug_package("foo-debuginf"));
    assert!(!is_debug_package("foo-dbg "));
}

fn record(name: &str, version: &str) -> PackageRecord {
    PackageRecord { name: name.to_string(), installed_version: version.to_string() }
}

#[test]
fn inventory_lists_name_and_version() {
    assert_eq!(
        parse_installed("foo 1.0-1\nbar-git r12.abc-2\n"),
        vec![record("foo", "1.0-1"), record("bar-git", "r12.abc-2")]
    );
}

#[test]
fn inventory_passes_over_short_lines() {
    assert_eq!(parse_installed("foo\n\n   \nbar 2\n"), vec![record("bar", "2")]);
    assert_eq!(parse_installed(""), vec![]);
    assert_eq!(parse_installed("lonely"), vec![]);
}

#[test]
fn inventory_takes_any_white_space_between_words() {
    assert_eq!(
        parse_installed("  foo \t 1.0   extra words\r\nbar\u{a0}2.0\r\nbaz 3"),
        vec![record("foo", "1.0"), record("bar", "2.0"), record("baz", "3")]
    );
}

#[test]
fn inventory_keeps_the_order_and_repeated_names() {
    assert_eq!(
        parse_installed("b 1\na 1\nb 2\n"),
        vec![record("b", "1"), record("a", "1"), record("b", "2")]
    );
}
