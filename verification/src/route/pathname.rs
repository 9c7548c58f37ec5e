//! Route paths of files below the server root, and paths inside the
//! framework's package.

use vstd::prelude::*;
use vstd::string::*;

verus! {

/// The kind of a file below the server root.
#[derive(Debug, Clone, Copy, PartialEq, Eq, Structural, Hash)]
pub enum PathType {
    PagesPage,
    PagesApi,
    Data,
}

/// The directory of the templates inside the framework's package.
pub const NEXT_TEMPLATE_PATH: &'static str = "dist/esm/build/templates";

/// The route path of a file: `/` and then its path from the server root.
/// The root itself is `/index` for a data route.
pub open spec fn pathname(path: Seq<char>, path_ty: PathType) -> Seq<char> {
    if path_ty == PathType::Data && path.len() == 0 {
        "/index"@
    } else {
        "/"@ + path
    }
}

/// Converts the path of a file, taken from the server root, into a route
/// path.
pub fn pathname_for_path(path: &str, path_ty: PathType) -> (route: String)
    ensures
        route@ == pathname(path@, path_ty),
{
    match path_ty {
        PathType::Data => {
            if path.is_empty() {
                return String::from_str("/index");
            }
        },
        _ => {},
    }
    let mut route = String::from_str("/");
    route.append(path);
    route
}

/// The path of the template `file` inside the framework's package.
pub open spec fn template_path(file: Seq<char>) -> Seq<char> {
    "dist/esm/build/templates"@ + "/"@ + file
}

/// Builds the path of a template inside the framework's package from the
/// template's file name.
pub fn virtual_next_js_template_path(file: &str) -> (path: String)
    requires
        !file@.contains('/'),
    ensures
        path@ == template_path(file@),
{
    let mut path = String::from_str(NEXT_TEMPLATE_PATH);
    path.append("/");
    path.append(file);
    path
}

/// The packages to transpile: those that the configuration names, then those
/// that are transpiled by default.
pub fn get_transpiled_packages(configured: Vec<String>, defaults: &Vec<String>) -> (packages: Vec<
    String,
>)
    ensures
        packages@.map_values(|p: String| p@) == configured@.map_values(|p: String| p@)
            + defaults@.map_values(|p: String| p@),
{
    let mut packages = configured;
    let mut i: usize = 0;
    assert(packages@.map_values(|p: String| p@) =~= configured@.map_values(|p: String| p@)
        + defaults@.take(0).map_values(|p: String| p@));
    while i < defaults.len()
        invariant
            0 <= i <= defaults.len(),
            packages@.map_values(|p: String| p@) == configured@.map_values(|p: String| p@)
                + defaults@.take(i as int).map_values(|p: String| p@),
        decreases defaults.len() - i,
    {
        let ghost before = packages@.map_values(|p: String| p@);
        let package = defaults[i].clone();
        assert(package@ == defaults@[i as int]@);
        packages.push(package);
        assert(packages@.map_values(|p: String| p@) =~= before.push(package@));
        assert(defaults@.take(i + 1).map_values(|p: String| p@) =~= defaults@.take(
            i as int,
        ).map_values(|p: String| p@).push(package@));
        i = i + 1;
    }
    assert(defaults@.take(i as int) =~= defaults@);
    packages
}

/// The text of a complaint about a configuration: what is wrong, what was
/// found in its place, and hints.
pub open spec fn invalid_config_text(
    detail: Seq<char>,
    explainer: Seq<char>,
    hints: Seq<char>,
) -> Seq<char> {
    detail + " Got "@ + explainer + "."@ + hints
}

/// Words a complaint about a configuration.
pub fn invalid_config_message(detail: &str, explainer: &str, hints: &str) -> (text: String)
    ensures
        text@ == invalid_config_text(detail@, explainer@, hints@),
{
    let mut text = String::from_str(detail);
    text.append(" Got ");
    text.append(explainer);
    text.append(".");
    text.append(hints);
    text
}

} // verus!
