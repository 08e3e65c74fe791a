use raur::resolution::{Failure, VersionResolution};
use raur::source::{
    info_url, recipe_url, resolve_lookup, resolve_recipe, search_url, RemoteVersion,
};

#[test]
fn addresses_are_spelled_out() {
    assert_eq!(search_url("fire fox"), "https://aur.archlinux.org/rpc/?v=5&type=search&arg=fire fox");
    assert_eq!(info_url("yay"), "https://aur.archlinux.org/rpc/?v=5&type=info&arg=yay");
    assert_eq!(
        recipe_url("yay"),
        "https://raw.githubusercontent.com/archlinux/aur/yay/PKGBUILD"
    );
    assert_eq!(recipe_url(""), "https://raw.githubusercontent.com/archlinux/aur//PKGBUILD");
}

#[test]
fn lookup_with_a_record_is_found() {
    let record = RemoteVersion { package_name: "yay".to_string(), version: "12.3-1".to_string() };
    assert_eq!(
        resolve_lookup(Ok(Some(record))),
        VersionResolution::Found("12.3-1".to_string())
    );
    let bare = RemoteVersion { package_name: "yay".to_string(), version: String::new() };
    assert_eq!(resolve_lookup(Ok(Some(bare))), VersionResolution::Found(String::new()));
}

#[test]
fn lookup_without_a_record_is_not_found() {
    assert_eq!(resolve_lookup(Ok(None)), VersionResolution::NotFound);
}

#[test]
fn failed_lookup_is_a_source_error() {
    assert_eq!(
        resolve_lookup(Err("timed out".to_string())),
        VersionResolution::SourceError("timed out".to_string())
    );
}

#[test]
fn fetched_recipe_is_parsed() {
    assert_eq!(
        resolve_recipe(Ok(Some("pkgver=1.2.3\npkgrel=4\n".to_string()))),
        VersionResolution::Found("1.2.3-4".to_string())
    );
    assert_eq!(
        resolve_recipe(Ok(Some("pkgver=$(git describe)\npkgrel=1\n".to_string()))),
        VersionResolution::Unparseable
    );
    assert_eq!(resolve_recipe(Ok(Some("pkgname=x\n".to_string()))), VersionResolution::NotFound);
}

#[test]
fn missing_recipe_is_not_found() {
    assert_eq!(resolve_recipe(Ok(None)), VersionResolution::NotFound);
}

#[test]
fn failed_fetch_is_a_source_error() {
    assert_eq!(
        resolve_recipe(Err("dns".to_string())),
        VersionResolution::SourceError("dns".to_string())
    );
}

#[test]
fn resolutions_split_into_version_and_failure() {
    assert_eq!(VersionResolution::Found("1".to_string()).into_result(), Ok("1".to_string()));
    assert_eq!(VersionResolution::NotFound.into_result(), Err(Failure::NotFound));
    assert_eq!(VersionResolution::Unparseable.into_result(), Err(Failure::Unparseable));
    assert_eq!(
        VersionResolution::SourceError("x".to_string()).into_result(),
        Err(Failure::SourceError("x".to_string()))
    );
    assert!(VersionResolution::Found("1".to_string()).is_found());
    assert!(!VersionResolution::Unparseable.is_found());
    assert_eq!(VersionResolution::Found("1".to_string()).version(), Some(&"1".to_string()));
    assert_eq!(VersionResolution::NotFound.version(), None);
}

#[test]
fn failures_are_described() {
    assert_eq!(Failure::NotFound.describe(), "not found");
    assert_eq!(Failure::Unparseable.describe(), "version is computed by the recipe");
    assert_eq!(Failure::SourceError("boom".to_string()).describe(), "boom");
}
