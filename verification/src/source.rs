//! The two metadata sources: the package-info endpoint of the repository and
//! the mirror that holds the recipes.
//!
//! Asking a source is the caller's business. Here is where to ask, and how
//! what comes back reads as a [`VersionResolution`].

use crate::recipe::{parse, parse_spec};
use crate::resolution::{Resolution, VersionResolution};
use vstd::prelude::*;
use vstd::string::*;

verus! {

/// The address of the package-info endpoint, up to the query.
pub const AUR_RPC: &'static str = "https://aur.archlinux.org/rpc/?v=5&";

/// The address under which the mirror serves the files of its branches.
pub const GITHUB_AUR_MIRROR_RAW_BASE: &'static str = "https://raw.githubusercontent.com/archlinux/aur";

/// The name of the recipe in the branch of a package.
pub const RECIPE_FILE: &'static str = "PKGBUILD";

/// What a successful lookup at the package-info endpoint holds.
#[derive(Debug, Clone, PartialEq, Eq)]
pub struct RemoteVersion {
    pub package_name: String,
    pub version: String,
}

/// The address that searches the repository for `term`.
pub fn search_url(term: &str) -> (url: String)
    ensures
        url@ == AUR_RPC@ + "type=search&arg="@ + term@,
{
    let mut url = String::from_str(AUR_RPC);
    url.append("type=search&arg=");
    url.append(term);
    url
}

/// The address that looks up the package `name`.
pub fn info_url(name: &str) -> (url: String)
    ensures
        url@ == AUR_RPC@ + "type=info&arg="@ + name@,
{
    let mut url = String::from_str(AUR_RPC);
    url.append("type=info&arg=");
    url.append(name);
    url
}

/// The address of the recipe of the package `name` on the mirror: the base,
/// the name of the package and the name of the recipe, parted by slashes.
pub fn recipe_url(name: &str) -> (url: String)
    ensures
        url@ == GITHUB_AUR_MIRROR_RAW_BASE@ + "/"@ + name@ + "/"@ + RECIPE_FILE@,
{
    let mut url = String::from_str(GITHUB_AUR_MIRROR_RAW_BASE);
    url.append("/");
    url.append(name);
    url.append("/");
    url.append(RECIPE_FILE);
    url
}

/// How a lookup at the package-info endpoint resolves: a record holds the
/// version, no record means that the package is unknown, and a lookup that
/// failed is an error of the source.
pub open spec fn lookup_resolution(lookup: Result<Option<RemoteVersion>, String>) -> Resolution {
    match lookup {
        Ok(Some(record)) => Resolution::Found(record.version@),
        Ok(None) => Resolution::NotFound,
        Err(reason) => Resolution::SourceError(reason@),
    }
}

/// Reads the outcome of a lookup at the package-info endpoint.
pub fn resolve_lookup(lookup: Result<Option<RemoteVersion>, String>) -> (r: VersionResolution)
    ensures
        r@ == lookup_resolution(lookup),
{
    match lookup {
        Ok(Some(record)) => VersionResolution::Found(record.version),
        Ok(None) => VersionResolution::NotFound,
        Err(reason) => VersionResolution::SourceError(reason),
    }
}

/// How a fetch of a recipe from the mirror resolves: the text resolves as
/// [`parse_spec`] states, no text means that the package is unknown, and a
/// fetch that failed is an error of the source.
pub open spec fn recipe_resolution(fetched: Result<Option<String>, String>) -> Resolution {
    match fetched {
        Ok(Some(text)) => parse_spec(text@),
        Ok(None) => Resolution::NotFound,
        Err(reason) => Resolution::SourceError(reason@),
    }
}

/// Reads the outcome of a fetch of a recipe from the mirror.
pub fn resolve_recipe(fetched: Result<Option<String>, String>) -> (r: VersionResolution)
    ensures
        r@ == recipe_resolution(fetched),
{
    match fetched {
        Ok(Some(text)) => parse(text.as_str()),
        Ok(None) => VersionResolution::NotFound,
        Err(reason) => VersionResolution::SourceError(reason),
    }
}

} // verus!
