//! Making a template ready from its text.

use vstd::prelude::*;

use crate::template::fill::{
    fill_template, filled, import_subs, injection_subs, outcome_view, variable_subs,
    TemplateError, TemplateErrorView, IMPORT_PATH_RE,
};
use crate::template::imports::{rewrite_imports, rewritten};
use crate::template::pattern::{regex_captures, regex_split};
use crate::text::chars::texts;

verus! {

/// The template made ready: its imports rewritten to `import_paths`, and
/// what comes of that filled in.
pub open spec fn loaded(
    content: Seq<char>,
    import_paths: Seq<Seq<char>>,
    replacements: Seq<(String, String)>,
    injections: Seq<(String, String)>,
    imports: Seq<(String, Option<String>)>,
) -> Result<Seq<char>, TemplateErrorView> {
    match rewritten(
        regex_split(IMPORT_PATH_RE@, content),
        regex_captures(IMPORT_PATH_RE@, content),
        import_paths,
    ) {
        Ok(text) => filled(
            text,
            variable_subs(replacements),
            injection_subs(injections),
            import_subs(imports),
        ),
        Err(e) => Err(e),
    }
}

/// Makes a template ready from its text: rewrites its imports by relative
/// paths, replaces `replacements` and `injections` and the optional
/// `imports`, and makes sure there are none left over. Import `i` of the
/// template gets `import_paths[i]`; every path and every replacement is
/// handed in as it is to stand in the text.
pub fn load_next_js_template(
    content: &str,
    import_paths: &Vec<String>,
    replacements: &Vec<(String, String)>,
    injections: &Vec<(String, String)>,
    imports: &Vec<(String, Option<String>)>,
) -> (outcome: Result<String, TemplateError>)
    ensures
        outcome_view(outcome) == loaded(
            content@,
            texts(import_paths@),
            replacements@,
            injections@,
            imports@,
        ),
{
    match rewrite_imports(content, import_paths) {
        Ok(text) => fill_template(text.as_str(), replacements, injections, imports),
        Err(e) => Err(e),
    }
}

} // verus!
