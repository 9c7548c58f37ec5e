//! Templates of generated source files: rewriting their imports, filling in
//! their variables, injections and optional imports, and making sure that
//! nothing is left over and nothing was handed in for nothing.

use vstd::prelude::*;
use vstd::string::*;

use crate::template::pattern::{find_all, regex_find_all};
use crate::template::substitute::{
    substitute, substituted, unused, views, Substitution, SubstitutionView, Swap, SwapView,
};
use crate::text::chars::{from_chars, push_str, texts, texts_if, to_chars};

verus! {

/// Matches an import of a relative path.
pub const IMPORT_PATH_RE: &'static str = "(?:from '(\\..*)'|import '(\\..*)')";

/// Matches a template variable.
pub const TEMPLATE_VAR_RE: &'static str = "VAR_[A-Z_]+";

/// Matches the placeholder of an injection.
pub const INJECT_RE: &'static str = "// INJECT:[A-Za-z0-9_]+";

/// Matches the placeholder of an optional import.
pub const OPTIONAL_IMPORT_RE: &'static str = "// OPTIONAL_IMPORT:(\\* as )?[A-Za-z0-9_]+";

/// What is filled in: the template's variables, its injections or its
/// optional imports.
#[derive(Debug, Clone, Copy, PartialEq, Eq, Structural)]
pub enum Stage {
    Variables,
    Injections,
    Imports,
}

/// Why a template could not be made ready.
#[derive(Debug)]
pub enum TemplateError {
    /// The template imports nothing by a relative path.
    NoImportReplaced,
    /// An import leads to this path, which is not below `./next/`.
    ImportOutsideNext(String),
    /// These placeholders are left in the template.
    Left(Stage, Vec<String>),
    /// These keys were handed in, and the template has no place for them.
    Missing(Stage, Vec<String>),
    /// A pattern could not be used.
    Pattern,
    /// The imports handed in are not as many as the template has.
    Mismatch,
}

/// A `TemplateError` with its strings as sequences of characters.
pub enum TemplateErrorView {
    NoImportReplaced,
    ImportOutsideNext(Seq<char>),
    Left(Stage, Seq<Seq<char>>),
    Missing(Stage, Seq<Seq<char>>),
    Pattern,
    Mismatch,
}

impl View for TemplateError {
    type V = TemplateErrorView;

    open spec fn view(&self) -> TemplateErrorView {
        match self {
            TemplateError::NoImportReplaced => TemplateErrorView::NoImportReplaced,
            TemplateError::ImportOutsideNext(path) => TemplateErrorView::ImportOutsideNext(path@),
            TemplateError::Left(stage, found) => TemplateErrorView::Left(*stage, texts(found@)),
            TemplateError::Missing(stage, keys) => TemplateErrorView::Missing(*stage, texts(keys@)),
            TemplateError::Pattern => TemplateErrorView::Pattern,
            TemplateError::Mismatch => TemplateErrorView::Mismatch,
        }
    }
}

/// The texts of a list, with `, ` between each two.
pub open spec fn listed(list: Seq<Seq<char>>) -> Seq<char>
    decreases list.len(),
{
    if list.len() == 0 {
        Seq::empty()
    } else if list.len() == 1 {
        list[0]
    } else {
        listed(list.drop_last()) + ", "@ + list.last()
    }
}

/// Writes the texts of a list with `, ` between each two.
pub fn join(list: &Vec<String>) -> (text: String)
    ensures
        text@ == listed(texts(list@)),
{
    let mut text = String::new();
    let mut i: usize = 0;
    assert(texts(list@).take(0) =~= Seq::<Seq<char>>::empty());
    while i < list.len()
        invariant
            0 <= i <= list.len(),
            text@ == listed(texts(list@).take(i as int)),
        decreases list.len() - i,
    {
        proof {
            assert(texts(list@).take(i + 1).drop_last() =~= texts(list@).take(i as int));
            assert(texts(list@).take(i + 1).last() == list@[i as int]@);
        }
        if i > 0 {
            text.append(", ");
        }
        text.append(list[i].as_str());
        proof {
            if i == 0 {
                assert(text@ =~= list@[0]@);
            }
        }
        i = i + 1;
    }
    assert(texts(list@).take(i as int) =~= texts(list@));
    text
}

impl Stage {
    /// What the stage was expected to do.
    pub open spec fn expectation(self) -> Seq<char> {
        match self {
            Stage::Variables => "Invariant: Expected to replace all template variables"@,
            Stage::Injections => "Invariant: Expected to inject all injections"@,
            Stage::Imports => "Invariant: Expected to inject all imports"@,
        }
    }

    /// What the stage was expected to do.
    pub fn expected(&self) -> (text: &'static str)
        ensures
            text@ == self.expectation(),
    {
        match self {
            Stage::Variables => "Invariant: Expected to replace all template variables",
            Stage::Injections => "Invariant: Expected to inject all injections",
            Stage::Imports => "Invariant: Expected to inject all imports",
        }
    }
}

impl TemplateErrorView {
    /// The report of the error.
    pub open spec fn text(self) -> Seq<char> {
        match self {
            TemplateErrorView::NoImportReplaced => "Invariant: Expected to replace at least one import"@,
            TemplateErrorView::ImportOutsideNext(path) => "Invariant: Expected relative import to start with \"./next/\", found \""@
                + path + "\""@,
            TemplateErrorView::Left(stage, found) => stage.expectation() + ", found "@ + listed(
                found,
            ),
            TemplateErrorView::Missing(stage, keys) => stage.expectation() + ", missing "@
                + listed(keys) + " in template"@,
            TemplateErrorView::Pattern => "Invariant: Expected a pattern that can be used"@,
            TemplateErrorView::Mismatch => "Invariant: Expected one path for each import"@,
        }
    }
}

impl TemplateError {
    /// The report of the error.
    pub fn message(&self) -> (text: String)
        ensures
            text@ == self@.text(),
    {
        match self {
            TemplateError::NoImportReplaced => String::from_str(
                "Invariant: Expected to replace at least one import",
            ),
            TemplateError::ImportOutsideNext(path) => {
                let mut text = String::from_str(
                    "Invariant: Expected relative import to start with \"./next/\", found \"",
                );
                text.append(path.as_str());
                text.append("\"");
                text
            },
            TemplateError::Left(stage, found) => {
                let mut text = String::from_str(stage.expected());
                text.append(", found ");
                text.append(join(found).as_str());
                text
            },
            TemplateError::Missing(stage, keys) => {
                let mut text = String::from_str(stage.expected());
                text.append(", missing ");
                text.append(join(keys).as_str());
                text.append(" in template");
                text
            },
            TemplateError::Pattern => String::from_str(
                "Invariant: Expected a pattern that can be used",
            ),
            TemplateError::Mismatch => String::from_str(
                "Invariant: Expected one path for each import",
            ),
        }
    }
}

/// What is wrong after a stage, if anything: first placeholders that are
/// left, then keys that found no place.
pub open spec fn stage_error(
    stage: Stage,
    left: Option<Seq<Seq<char>>>,
    missing: Seq<Seq<char>>,
) -> Option<TemplateErrorView> {
    match left {
        None => Some(TemplateErrorView::Pattern),
        Some(left) => if left.len() > 0 {
            Some(TemplateErrorView::Left(stage, left))
        } else if missing.len() > 0 {
            Some(TemplateErrorView::Missing(stage, missing))
        } else {
            None
        },
    }
}

/// Judges a stage by the placeholders that a search found left in the text
/// and the keys that found no place.
pub fn settle(stage: Stage, left: Option<Vec<String>>, missing: Vec<String>) -> (outcome: Result<
    (),
    TemplateError,
>)
    ensures
        match outcome {
            Ok(_) => stage_error(stage, texts_if(left), texts(missing@)) is None,
            Err(e) => stage_error(stage, texts_if(left), texts(missing@)) == Some(e@),
        },
{
    match left {
        None => Err(TemplateError::Pattern),
        Some(left) => {
            if left.len() > 0 {
                Err(TemplateError::Left(stage, left))
            } else if missing.len() > 0 {
                Err(TemplateError::Missing(stage, missing))
            } else {
                Ok(())
            }
        },
    }
}

/// The substitution for a template variable: the key between single quotes
/// gives way to the value.
pub open spec fn variable_sub(key: Seq<char>, value: Seq<char>) -> SubstitutionView {
    SubstitutionView {
        key,
        first: SwapView { placeholder: "'"@ + key + "'"@, replacement: value },
        second: None,
    }
}

/// The substitution for an injection: the comment that names the key gives
/// way to a constant of that name with the injected value.
pub open spec fn injection_sub(key: Seq<char>, value: Seq<char>) -> SubstitutionView {
    SubstitutionView {
        key,
        first: SwapView {
            placeholder: "// INJECT:"@ + key,
            replacement: "const "@ + key + " = "@ + value,
        },
        second: None,
    }
}

/// What stands in place of an optional import: the import of the path under
/// the key's name, as a namespace or not; or, without a path, a constant of
/// that name that is `null`.
pub open spec fn import_line(key: Seq<char>, path: Option<Seq<char>>, namespace: bool) -> Seq<char> {
    match path {
        Some(path) => "import "@ + (if namespace {
            "* as "@
        } else {
            ""@
        }) + key + " from "@ + path,
        None => "const "@ + key + " = null"@,
    }
}

/// The substitution for an optional import: the comment that names the key,
/// or else the comment that names it as a namespace, gives way to the
/// import.
pub open spec fn import_sub(key: Seq<char>, path: Option<Seq<char>>) -> SubstitutionView {
    SubstitutionView {
        key,
        first: SwapView {
            placeholder: "// OPTIONAL_IMPORT:"@ + key,
            replacement: import_line(key, path, false),
        },
        second: Some(
            SwapView {
                placeholder: "// OPTIONAL_IMPORT:* as "@ + key,
                replacement: import_line(key, path, true),
            },
        ),
    }
}

/// The substitutions for the variables of a list.
pub open spec fn variable_subs(list: Seq<(String, String)>) -> Seq<SubstitutionView> {
    list.map_values(|p: (String, String)| variable_sub(p.0@, p.1@))
}

/// The substitutions for the injections of a list.
pub open spec fn injection_subs(list: Seq<(String, String)>) -> Seq<SubstitutionView> {
    list.map_values(|p: (String, String)| injection_sub(p.0@, p.1@))
}

/// The path of an optional import, as characters.
pub open spec fn path_of_import(path: Option<String>) -> Option<Seq<char>> {
    match path {
        Some(path) => Some(path@),
        None => None,
    }
}

/// The substitutions for the optional imports of a list.
pub open spec fn import_subs(list: Seq<(String, Option<String>)>) -> Seq<SubstitutionView> {
    list.map_values(|p: (String, Option<String>)| import_sub(p.0@, path_of_import(p.1)))
}

/// Builds the substitutions for the variables of a list.
pub fn variable_substitutions(list: &Vec<(String, String)>) -> (subs: Vec<Substitution>)
    ensures
        views(subs@) == variable_subs(list@),
{
    let mut subs: Vec<Substitution> = Vec::new();
    let mut i: usize = 0;
    while i < list.len()
        invariant
            0 <= i <= list.len(),
            subs@.len() == i,
            forall|j: int| 0 <= j < i ==> (#[trigger] subs@[j])@ == variable_sub(
                list@[j].0@,
                list@[j].1@,
            ),
        decreases list.len() - i,
    {
        let key = &list[i].0;
        let mut placeholder: Vec<char> = Vec::new();
        push_str(&mut placeholder, "'");
        push_str(&mut placeholder, key.as_str());
        push_str(&mut placeholder, "'");
        assert(placeholder@ =~= "'"@ + key@ + "'"@);
        let replacement = to_chars(list[i].1.as_str());
        subs.push(
            Substitution {
                key: key.clone(),
                first: Swap { placeholder, replacement },
                second: None,
            },
        );
        i = i + 1;
    }
    assert(views(subs@) =~= variable_subs(list@));
    subs
}

/// Builds the substitutions for the injections of a list.
pub fn injection_substitutions(list: &Vec<(String, String)>) -> (subs: Vec<Substitution>)
    ensures
        views(subs@) == injection_subs(list@),
{
    let mut subs: Vec<Substitution> = Vec::new();
    let mut i: usize = 0;
    while i < list.len()
        invariant
            0 <= i <= list.len(),
            subs@.len() == i,
            forall|j: int| 0 <= j < i ==> (#[trigger] subs@[j])@ == injection_sub(
                list@[j].0@,
                list@[j].1@,
            ),
        decreases list.len() - i,
    {
        let key = &list[i].0;
        let mut placeholder: Vec<char> = Vec::new();
        push_str(&mut placeholder, "// INJECT:");
        push_str(&mut placeholder, key.as_str());
        assert(placeholder@ =~= "// INJECT:"@ + key@);
        let mut replacement: Vec<char> = Vec::new();
        push_str(&mut replacement, "const ");
        push_str(&mut replacement, key.as_str());
        push_str(&mut replacement, " = ");
        push_str(&mut replacement, list[i].1.as_str());
        assert(replacement@ =~= "const "@ + key@ + " = "@ + list@[i as int].1@);
        subs.push(
            Substitution {
                key: key.clone(),
                first: Swap { placeholder, replacement },
                second: None,
            },
        );
        i = i + 1;
    }
    assert(views(subs@) =~= injection_subs(list@));
    subs
}

/// Writes what stands in place of an optional import.
pub fn import_replacement(key: &str, path: &Option<String>, namespace: bool) -> (line: Vec<char>)
    ensures
        line@ == import_line(key@, path_of_import(*path), namespace),
{
    let mut line: Vec<char> = Vec::new();
    match path {
        Some(path) => {
            push_str(&mut line, "import ");
            if namespace {
                push_str(&mut line, "* as ");
            } else {
                push_str(&mut line, "");
            }
            push_str(&mut line, key);
            push_str(&mut line, " from ");
            push_str(&mut line, path.as_str());
            assert(line@ =~= import_line(key@, path_of_import(Some(*path)), namespace));
        },
        None => {
            push_str(&mut line, "const ");
            push_str(&mut line, key);
            push_str(&mut line, " = null");
            assert(line@ =~= "const "@ + key@ + " = null"@);
        },
    }
    line
}

/// Builds the substitutions for the optional imports of a list.
pub fn import_substitutions(list: &Vec<(String, Option<String>)>) -> (subs: Vec<Substitution>)
    ensures
        views(subs@) == import_subs(list@),
{
    let mut subs: Vec<Substitution> = Vec::new();
    let mut i: usize = 0;
    while i < list.len()
        invariant
            0 <= i <= list.len(),
            subs@.len() == i,
            forall|j: int| 0 <= j < i ==> (#[trigger] subs@[j])@ == import_sub(
                list@[j].0@,
                path_of_import(list@[j].1),
            ),
        decreases list.len() - i,
    {
        let key = &list[i].0;
        let mut plain: Vec<char> = Vec::new();
        push_str(&mut plain, "// OPTIONAL_IMPORT:");
        push_str(&mut plain, key.as_str());
        assert(plain@ =~= "// OPTIONAL_IMPORT:"@ + key@);
        let mut namespace: Vec<char> = Vec::new();
        push_str(&mut namespace, "// OPTIONAL_IMPORT:* as ");
        push_str(&mut namespace, key.as_str());
        assert(namespace@ =~= "// OPTIONAL_IMPORT:* as "@ + key@);
        let first = Swap {
            placeholder: plain,
            replacement: import_replacement(key.as_str(), &list[i].1, false),
        };
        let second = Swap {
            placeholder: namespace,
            replacement: import_replacement(key.as_str(), &list[i].1, true),
        };
        subs.push(Substitution { key: key.clone(), first, second: Some(second) });
        i = i + 1;
    }
    assert(views(subs@) =~= import_subs(list@));
    subs
}

/// `text`, with a line end after it unless it ends in one.
pub open spec fn with_line_end(text: Seq<char>) -> Seq<char> {
    if text.len() > 0 && text.last() == '\n' {
        text
    } else {
        text.push('\n')
    }
}

/// The template when everything is filled in: the variables, then the
/// injections, then the optional imports, each stage judged by what a
/// search finds left and by the keys that found no place; at the end the
/// text ends in a line end.
pub open spec fn filled(
    content: Seq<char>,
    variables: Seq<SubstitutionView>,
    injections: Seq<SubstitutionView>,
    imports: Seq<SubstitutionView>,
) -> Result<Seq<char>, TemplateErrorView> {
    let first = substituted(content, variables);
    let second = substituted(first, injections);
    let third = substituted(second, imports);
    match stage_error(
        Stage::Variables,
        regex_find_all(TEMPLATE_VAR_RE@, first),
        unused(content, variables),
    ) {
        Some(e) => Err(e),
        None => match stage_error(
            Stage::Injections,
            regex_find_all(INJECT_RE@, second),
            unused(first, injections),
        ) {
            Some(e) => Err(e),
            None => match stage_error(
                Stage::Imports,
                regex_find_all(OPTIONAL_IMPORT_RE@, third),
                unused(second, imports),
            ) {
                Some(e) => Err(e),
                None => Ok(with_line_end(third)),
            },
        },
    }
}

/// What came of making a template ready, as characters.
pub open spec fn outcome_view(outcome: Result<String, TemplateError>) -> Result<
    Seq<char>,
    TemplateErrorView,
> {
    match outcome {
        Ok(text) => Ok(text@),
        Err(e) => Err(e@),
    }
}

/// Carries out one stage on `text`: the substitutions, then the search for
/// what is left, then the judgement.
fn run_stage(stage: Stage, text: Vec<char>, subs: &Vec<Substitution>, pattern: &str) -> (outcome:
    Result<Vec<char>, TemplateError>)
    ensures
        match outcome {
            Ok(after) => {
                &&& after@ == substituted(text@, views(subs@))
                &&& stage_error(
                    stage,
                    regex_find_all(pattern@, after@),
                    unused(text@, views(subs@)),
                ) is None
            },
            Err(e) => stage_error(
                stage,
                regex_find_all(pattern@, substituted(text@, views(subs@))),
                unused(text@, views(subs@)),
            ) == Some(e@),
        },
{
    let (after, missing) = substitute(text, subs);
    let left = find_all(pattern, from_chars(&after).as_str());
    match settle(stage, left, missing) {
        Ok(_) => Ok(after),
        Err(e) => Err(e),
    }
}

/// Fills in a template: replaces its variables by their values, its
/// injections by constants and its optional imports by imports. After each
/// of the three, the template must hold no placeholder of that kind any
/// more, and every key handed in must have found its place.
pub fn fill_template(
    content: &str,
    replacements: &Vec<(String, String)>,
    injections: &Vec<(String, String)>,
    imports: &Vec<(String, Option<String>)>,
) -> (outcome: Result<String, TemplateError>)
    ensures
        outcome_view(outcome) == filled(
            content@,
            variable_subs(replacements@),
            injection_subs(injections@),
            import_subs(imports@),
        ),
{
    let text = to_chars(content);
    let text = match run_stage(
        Stage::Variables,
        text,
        &variable_substitutions(replacements),
        TEMPLATE_VAR_RE,
    ) {
        Ok(text) => text,
        Err(e) => {
            return Err(e);
        },
    };
    let text = match run_stage(
        Stage::Injections,
        text,
        &injection_substitutions(injections),
        INJECT_RE,
    ) {
        Ok(text) => text,
        Err(e) => {
            return Err(e);
        },
    };
    let mut text = match run_stage(
        Stage::Imports,
        text,
        &import_substitutions(imports),
        OPTIONAL_IMPORT_RE,
    ) {
        Ok(text) => text,
        Err(e) => {
            return Err(e);
        },
    };
    if text.len() == 0 || text[text.len() - 1] != '\n' {
        text.push('\n');
    }
    Ok(from_chars(&text))
}

} // verus!
