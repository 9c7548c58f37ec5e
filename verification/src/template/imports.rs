//! The imports of a template by relative paths, which are rewritten so that
//! they lead into the framework's package.

use vstd::prelude::*;
use vstd::string::*;

use crate::template::pattern::{
    captures, captures_if, captures_view, groups_view, regex_captures, regex_split, split,
};
use crate::text::chars::{texts, texts_if};
use crate::template::fill::{outcome_view, TemplateError, TemplateErrorView, IMPORT_PATH_RE};
use crate::text::compare::starts_with;

verus! {

/// An import found in a template: whether it is written with `from`, and
/// the path that it asks for.
#[derive(Debug)]
pub struct ImportRequest {
    pub from: bool,
    pub request: String,
}

/// An `ImportRequest` with its path as a sequence of characters.
pub struct RequestView {
    pub from: bool,
    pub request: Seq<char>,
}

impl View for ImportRequest {
    type V = RequestView;

    open spec fn view(&self) -> RequestView {
        RequestView { from: self.from, request: self.request@ }
    }
}

/// What group `i` of a match holds; nothing where the group took no part.
pub open spec fn group(groups: Seq<Option<Seq<char>>>, i: int) -> Seq<char> {
    if 0 <= i < groups.len() && groups[i] is Some {
        groups[i]->0
    } else {
        Seq::empty()
    }
}

/// The import that a match stands for: written with `from` if the first
/// group holds a path, which is then the path asked for; else the path is
/// what the second group holds.
pub open spec fn request_of(groups: Seq<Option<Seq<char>>>) -> RequestView {
    if group(groups, 1).len() > 0 {
        RequestView { from: true, request: group(groups, 1) }
    } else {
        RequestView { from: false, request: group(groups, 2) }
    }
}

/// The imports that the matches stand for.
pub open spec fn requests_of(captures: Seq<Seq<Option<Seq<char>>>>) -> Seq<RequestView> {
    captures.map_values(|groups: Seq<Option<Seq<char>>>| request_of(groups))
}

/// What group `i` holds, as a string of its own.
fn group_text(groups: &Vec<Option<String>>, i: usize) -> (text: String)
    ensures
        text@ == group(groups_view(groups@), i as int),
{
    if i < groups.len() {
        match &groups[i] {
            Some(text) => text.clone(),
            None => String::new(),
        }
    } else {
        String::new()
    }
}

/// Reads the imports that the matches of the import pattern stand for.
pub fn requests_from(captures: &Vec<Vec<Option<String>>>) -> (requests: Vec<ImportRequest>)
    ensures
        requests@.map_values(|r: ImportRequest| r@) == requests_of(captures_view(captures@)),
{
    let mut requests: Vec<ImportRequest> = Vec::new();
    let mut i: usize = 0;
    while i < captures.len()
        invariant
            0 <= i <= captures.len(),
            requests@.len() == i,
            forall|j: int| 0 <= j < i ==> (#[trigger] requests@[j])@ == request_of(
                groups_view(captures@[j]@),
            ),
        decreases captures.len() - i,
    {
        let from_request = group_text(&captures[i], 1);
        let request = if !from_request.as_str().is_empty() {
            ImportRequest { from: true, request: from_request }
        } else {
            ImportRequest { from: false, request: group_text(&captures[i], 2) }
        };
        requests.push(request);
        i = i + 1;
    }
    assert(requests@.map_values(|r: ImportRequest| r@) =~= requests_of(captures_view(captures@)));
    requests
}

/// Finds the imports of a template by relative paths, in their order.
/// There is no answer where the import pattern cannot be used.
pub fn import_requests(content: &str) -> (requests: Option<Vec<ImportRequest>>)
    ensures
        match requests {
            Some(list) => regex_captures(IMPORT_PATH_RE@, content@) is Some && list@.map_values(
                |r: ImportRequest| r@,
            ) == requests_of(regex_captures(IMPORT_PATH_RE@, content@)->0),
            None => regex_captures(IMPORT_PATH_RE@, content@) is None,
        },
{
    match captures(IMPORT_PATH_RE, content) {
        Some(found) => Some(requests_from(&found)),
        None => None,
    }
}

/// Accepts the path that an import leads to, taken from the root of the
/// package, if it lies below `./next/`, and takes the leading `./` off it.
pub fn checked_import(relative: &str) -> (outcome: Result<String, TemplateError>)
    ensures
        match outcome {
            Ok(path) => "./next/"@.is_prefix_of(relative@) && path@ == relative@.skip(2),
            Err(e) => !"./next/"@.is_prefix_of(relative@) && e@
                == TemplateErrorView::ImportOutsideNext(relative@),
        },
{
    if !starts_with(relative, "./next/") {
        return Err(TemplateError::ImportOutsideNext(String::from_str(relative)));
    }
    proof {
        reveal_strlit("./next/");
    }
    let length = relative.unicode_len();
    let path = relative.substring_char(2, length);
    assert(relative@.subrange(2, length as int) =~= relative@.skip(2));
    Ok(String::from_str(path))
}

/// What an import is rewritten to: `from` or `import`, then the path as a
/// string of the language.
pub open spec fn import_text(from: bool, path: Seq<char>) -> Seq<char> {
    (if from {
        "from "@
    } else {
        "import "@
    }) + path
}

/// The parts of a text put together again, with `between[i]` after part
/// `i`. There is one part more than there are texts between them.
pub open spec fn woven(parts: Seq<Seq<char>>, between: Seq<Seq<char>>) -> Seq<char>
    decreases between.len(),
{
    if parts.len() == 0 {
        Seq::empty()
    } else if between.len() == 0 {
        parts[0]
    } else {
        woven(parts.drop_last(), between.drop_last()) + between.last() + parts.last()
    }
}

/// What the imports are rewritten to, given the paths to put in.
pub open spec fn import_texts(requests: Seq<RequestView>, paths: Seq<Seq<char>>) -> Seq<Seq<char>> {
    Seq::new(requests.len(), |i: int| import_text(requests[i].from, paths[i]))
}

/// The template with its imports rewritten: the parts between its imports
/// put together again with the new imports between them. The paths must be
/// as many as the imports, and there must be an import.
pub open spec fn rewritten(
    parts: Option<Seq<Seq<char>>>,
    captures: Option<Seq<Seq<Option<Seq<char>>>>>,
    paths: Seq<Seq<char>>,
) -> Result<Seq<char>, TemplateErrorView> {
    if parts is None || captures is None {
        Err(TemplateErrorView::Pattern)
    } else if parts->0.len() != captures->0.len() + 1 {
        Err(TemplateErrorView::Pattern)
    } else if paths.len() != captures->0.len() {
        Err(TemplateErrorView::Mismatch)
    } else if paths.len() == 0 {
        Err(TemplateErrorView::NoImportReplaced)
    } else {
        Ok(woven(parts->0, import_texts(requests_of(captures->0), paths)))
    }
}

/// Puts a template together again from the parts between its imports, with
/// each import rewritten to the path handed in for it.
pub fn rewrite_imports_with(
    parts: Option<Vec<String>>,
    captures: Option<Vec<Vec<Option<String>>>>,
    paths: &Vec<String>,
) -> (outcome: Result<String, TemplateError>)
    ensures
        outcome_view(outcome) == rewritten(texts_if(parts), captures_if(captures), texts(paths@)),
{
    let ghost goal = rewritten(texts_if(parts), captures_if(captures), texts(paths@));
    let parts = match parts {
        Some(parts) => parts,
        None => {
            return Err(TemplateError::Pattern);
        },
    };
    let captures = match captures {
        Some(captures) => captures,
        None => {
            return Err(TemplateError::Pattern);
        },
    };
    assert(goal == rewritten(
        Some(texts(parts@)),
        Some(captures_view(captures@)),
        texts(paths@),
    ));
    assert(texts(parts@).len() == parts@.len());
    assert(captures_view(captures@).len() == captures@.len());
    assert(texts(paths@).len() == paths@.len());
    let count = parts.len();
    if captures.len() == usize::MAX || count != captures.len() + 1 {
        return Err(TemplateError::Pattern);
    }
    if paths.len() != captures.len() {
        return Err(TemplateError::Mismatch);
    }
    if paths.len() == 0 {
        return Err(TemplateError::NoImportReplaced);
    }
    let requests = requests_from(&captures);
    let ghost all_parts = texts(parts@);
    let ghost between = import_texts(requests_of(captures_view(captures@)), texts(paths@));
    let mut text = String::from_str(parts[0].as_str());
    let mut i: usize = 0;
    assert(all_parts.take(1) =~= seq![parts@[0]@]);
    assert(between.take(0) =~= Seq::<Seq<char>>::empty());
    while i < requests.len()
        invariant
            0 <= i <= requests.len(),
            requests@.len() == captures@.len(),
            paths@.len() == captures@.len(),
            parts@.len() == captures@.len() + 1,
            all_parts == texts(parts@),
            between == import_texts(requests_of(captures_view(captures@)), texts(paths@)),
            requests@.map_values(|r: ImportRequest| r@) == requests_of(captures_view(captures@)),
            text@ == woven(all_parts.take(i + 1), between.take(i as int)),
        decreases requests.len() - i,
    {
        proof {
            assert(all_parts.take(i + 2).drop_last() =~= all_parts.take(i + 1));
            assert(between.take(i + 1).drop_last() =~= between.take(i as int));
            assert(requests@.map_values(|r: ImportRequest| r@)[i as int] == requests@[i as int]@);
            assert(between.take(i + 1).last() == import_text(
                requests@[i as int]@.from,
                paths@[i as int]@,
            ));
            assert(all_parts.take(i + 2).last() == parts@[i + 1]@);
        }
        if requests[i].from {
            text.append("from ");
        } else {
            text.append("import ");
        }
        text.append(paths[i].as_str());
        text.append(parts[i + 1].as_str());
        i = i + 1;
    }
    assert(all_parts.take(i + 1) =~= all_parts);
    assert(between.take(i as int) =~= between);
    Ok(text)
}

/// Rewrites the imports of a template by relative paths: import `i`, in the
/// order in which `import_requests` tells them, gets `paths[i]` as its path.
pub fn rewrite_imports(content: &str, paths: &Vec<String>) -> (outcome: Result<
    String,
    TemplateError,
>)
    ensures
        outcome_view(outcome) == rewritten(
            regex_split(IMPORT_PATH_RE@, content@),
            regex_captures(IMPORT_PATH_RE@, content@),
            texts(paths@),
        ),
{
    let parts = split(IMPORT_PATH_RE, content);
    let found = captures(IMPORT_PATH_RE, content);
    rewrite_imports_with(parts, found, paths)
}

} // verus!
