use raur::recipe::{parse, parse_pkgbuild_version};
use raur::resolution::VersionResolution;

fn found(version: &str) -> VersionResolution {
    VersionResolution::Found(version.to_string())
}

#[test]
fn version_and_release_are_joined() {
    assert_eq!(parse("pkgver=1.2.3\npkgrel=4\n"), found("1.2.3-4"));
}

#[test]
fn computed_version_is_unparseable() {
    assert_eq!(
        parse("pkgver=$(git describe)\npkgrel=1\n"),
        VersionResolution::Unparseable
    );
}

#[test]
fn version_alone_is_found() {
    assert_eq!(parse("pkgname=foo\npkgver=2.0\n"), found("2.0"));
}

#[test]
fn release_alone_is_not_found() {
    assert_eq!(parse("pkgrel=3\n"), VersionResolution::NotFound);
}

#[test]
fn empty_recipe_is_not_found() {
    assert_eq!(parse(""), VersionResolution::NotFound);
    assert_eq!(parse("\n\n"), VersionResolution::NotFound);
}

#[test]
fn quotes_are_taken_off_in_pairs() {
    assert_eq!(parse("pkgver='1.0'\npkgrel=\"2\"\n"), found("1.0-2"));
    assert_eq!(parse("pkgver='1.0\"\n"), found("'1.0\""));
    assert_eq!(parse("pkgver='1.0\n"), found("'1.0"));
    assert_eq!(parse("pkgver=''\n"), found(""));
}

#[test]
fn a_lone_quote_is_a_value() {
    assert_eq!(parse("pkgver='\n"), found("'"));
    assert_eq!(parse("pkgver=\"\npkgrel=1"), found("\"-1"));
}

#[test]
fn leading_white_space_is_ignored() {
    assert_eq!(parse("  \tpkgver=1.0  \r\n\u{a0}pkgrel=7\u{3000}\n"), found("1.0-7"));
}

#[test]
fn value_is_all_that_follows_the_first_equals_sign() {
    assert_eq!(parse("pkgver=a=b\n"), found("a=b"));
    assert_eq!(parse("pkgver= 1.0\n"), found(" 1.0"));
    assert_eq!(parse("pkgver=\n"), found(""));
}

#[test]
fn comments_are_ignored() {
    assert_eq!(parse("#pkgver=1\n # pkgver=$x\npkgver=2\n"), found("2"));
}

#[test]
fn longer_keys_are_other_keys() {
    assert_eq!(parse("pkgrelextra=9\npkgver=1\n"), found("1"));
    assert_eq!(parse("pkgverbose=9\n"), VersionResolution::NotFound);
    assert_eq!(parse("pkgver =1\n"), VersionResolution::NotFound);
    assert_eq!(parse("_pkgver=1\n"), VersionResolution::NotFound);
}

#[test]
fn last_value_before_the_pair_is_complete_counts() {
    assert_eq!(parse("pkgver=1\npkgver=2\npkgrel=3\npkgrel=4\npkgver=5\n"), found("2-3"));
    assert_eq!(parse("pkgrel=1\npkgrel=2\npkgver=3\n"), found("3-2"));
}

#[test]
fn reading_stops_with_the_complete_pair() {
    assert_eq!(parse("pkgver=1\npkgrel=2\npkgver=$(later)\n"), found("1-2"));
    assert_eq!(parse("pkgver=1\npkgrel=2"), parse("pkgver=1\npkgrel=2\nanything(else)\n"));
}

#[test]
fn computed_value_before_the_pair_is_complete_aborts() {
    assert_eq!(parse("pkgver=1\npkgver=$x\npkgrel=2\n"), VersionResolution::Unparseable);
    assert_eq!(parse("pkgver=1\npkgrel=r(2)\n"), VersionResolution::Unparseable);
    assert_eq!(parse("pkgrel=${_rel}\n"), VersionResolution::Unparseable);
    assert_eq!(parse("pkgver=\"$_ver\"\npkgrel=1\n"), VersionResolution::Unparseable);
}

#[test]
fn first_computed_value_aborts_whatever_follows() {
    assert_eq!(
        parse("pkgver=$(date)\npkgver=1.0\npkgrel=1\n"),
        VersionResolution::Unparseable
    );
    assert_eq!(parse("pkgver=1.0\npkgrel=$((1+1))\npkgrel=1\n"), VersionResolution::Unparseable);
}

#[test]
fn option_form_keeps_found_versions_only() {
    assert_eq!(parse_pkgbuild_version("pkgver=1.2.3\npkgrel=4\n"), Some("1.2.3-4".to_string()));
    assert_eq!(parse_pkgbuild_version("pkgver=1.2.3\n"), Some("1.2.3".to_string()));
    assert_eq!(parse_pkgbuild_version("pkgver=$(git describe)\npkgrel=1\n"), None);
    assert_eq!(parse_pkgbuild_version("pkgname=foo\n"), None);
}

#[test]
fn text_beyond_ascii_is_kept() {
    assert_eq!(parse("pkgver=1.0~β\npkgrel=1\n"), found("1.0~β-1"));
}
