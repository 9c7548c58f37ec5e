//! Asset paths of routes.

use vstd::prelude::*;
use vstd::string::*;

use crate::text::compare::{same_text, starts_with};

verus! {

/// The asset prefix of a route: `/index` for the root; a route that is
/// `/index` or lies below it goes one `/index` deeper, so that it cannot be
/// taken for the root; any other route is its own prefix.
pub open spec fn asset_prefix(pathname: Seq<char>) -> Seq<char> {
    if pathname == "/"@ {
        "/index"@
    } else if pathname == "/index"@ || "/index/"@.is_prefix_of(pathname) {
        "/index"@ + pathname
    } else {
        pathname
    }
}

/// Computes the asset prefix of a route.
pub fn get_asset_prefix_from_pathname(pathname: &str) -> (prefix: String)
    ensures
        prefix@ == asset_prefix(pathname@),
{
    if same_text(pathname, "/") {
        String::from_str("/index")
    } else if same_text(pathname, "/index") || starts_with(pathname, "/index/") {
        let mut prefix = String::from_str("/index");
        prefix.append(pathname);
        prefix
    } else {
        String::from_str(pathname)
    }
}

/// Computes the asset path of a route: its asset prefix followed by the
/// extension.
pub fn get_asset_path_from_pathname(pathname: &str, ext: &str) -> (path: String)
    ensures
        path@ == asset_prefix(pathname@) + ext@,
{
    let mut path = get_asset_prefix_from_pathname(pathname);
    path.append(ext);
    path
}

} // verus!
