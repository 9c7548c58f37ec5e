use glob_walk::text::chars::{contains, matches_at, push_str, replace, to_chars};
use glob_walk::template::imports::{
    checked_import, import_requests, requests_from, rewrite_imports, rewrite_imports_with,
};
use glob_walk::template::substitute::{substitute, Substitution, Swap};
use glob_walk::template::fill::{fill_template, join, settle, Stage, TemplateError};
use glob_walk::template::load::load_next_js_template;

fn chars(s: &str) -> Vec<char> {
    s.chars().collect()
}

fn text(v: &[char]) -> String {
    v.iter().collect()
}

fn pairs(list: &[(&str, &str)]) -> Vec<(String, String)> {
    list.iter().map(|(k, v)| (k.to_string(), v.to_string())).collect()
}

fn imports(list: &[(&str, Option<&str>)]) -> Vec<(String, Option<String>)> {
    list.iter().map(|(k, v)| (k.to_string(), v.map(|v| v.to_string()))).collect()
}

fn strings(list: &[&str]) -> Vec<String> {
    list.iter().map(|s| s.to_string()).collect()
}

#[test]
fn characters_of_a_string() {
    assert_eq!(to_chars("a\u{e9}b"), vec!['a', '\u{e9}', 'b']);
    assert!(to_chars("").is_empty());
}

#[test]
fn characters_are_appended() {
    let mut out = vec!['a'];
    push_str(&mut out, "b\u{e9}");
    push_str(&mut out, "");
    assert_eq!(out, vec!['a', 'b', '\u{e9}']);
}

#[test]
fn search_finds_every_position() {
    let hay = chars("abcabc");
    assert!(matches_at(&hay, &chars("abc"), 0));
    assert!(matches_at(&hay, &chars("abc"), 3));
    assert!(!matches_at(&hay, &chars("abc"), 1));
    assert!(!matches_at(&hay, &chars("abc"), 4));
    assert!(matches_at(&hay, &chars(""), 6));
    assert!(!matches_at(&hay, &chars(""), 7));
    assert!(contains(&hay, &chars("cab")));
    assert!(contains(&hay, &chars("")));
    assert!(contains(&hay, &chars("abcabc")));
    assert!(!contains(&hay, &chars("abcabca")));
    assert!(!contains(&hay, &chars("ac")));
    assert!(contains(&chars(""), &chars("")));
}

#[test]
fn replacement_goes_from_left_to_right() {
    assert_eq!(text(&replace(&chars("aaa"), &chars("aa"), &chars("b"))), "ba");
    assert_eq!(text(&replace(&chars("abcabc"), &chars("bc"), &chars("X"))), "aXaX");
    assert_eq!(text(&replace(&chars("abc"), &chars("x"), &chars("y"))), "abc");
    assert_eq!(text(&replace(&chars("abc"), &chars("abc"), &chars(""))), "");
    assert_eq!(text(&replace(&chars(""), &chars("a"), &chars("b"))), "");
    assert_eq!(text(&replace(&chars("aXa"), &chars("X"), &chars("XX"))), "aXXa");
    assert_eq!(text(&replace(&chars("abc"), &chars(""), &chars("x"))), "abc");
    assert_eq!("aaa".replace("aa", "b"), "ba");
}

#[test]
fn substitution_tries_the_second_placeholder() {
    let sub = |key: &str, first: (&str, &str), second: Option<(&str, &str)>| Substitution {
        key: key.to_string(),
        first: Swap { placeholder: chars(first.0), replacement: chars(first.1) },
        second: second.map(|s| Swap { placeholder: chars(s.0), replacement: chars(s.1) }),
    };
    let list = vec![
        sub("a", ("<a>", "1"), None),
        sub("b", ("<b>", "2"), Some(("<B>", "two"))),
        sub("c", ("<c>", "3"), Some(("<C>", "three"))),
        sub("d", ("<d>", "<a>"), None),
    ];
    let (out, missing) = substitute(chars("<a><B><a><d>"), &list);
    assert_eq!(text(&out), "1two1<a>");
    assert_eq!(missing, vec!["c"]);
}

#[test]
fn a_later_substitution_sees_what_an_earlier_one_put_in() {
    let list = vec![
        Substitution {
            key: "a".to_string(),
            first: Swap { placeholder: chars("<a>"), replacement: chars("<b>") },
            second: None,
        },
        Substitution {
            key: "b".to_string(),
            first: Swap { placeholder: chars("<b>"), replacement: chars("!") },
            second: None,
        },
    ];
    let (out, missing) = substitute(chars("<a>"), &list);
    assert_eq!(text(&out), "!");
    assert!(missing.is_empty());
}

#[test]
fn join_puts_commas_between() {
    assert_eq!(join(&strings(&[])), "");
    assert_eq!(join(&strings(&["a"])), "a");
    assert_eq!(join(&strings(&["a", "b", "c"])), "a, b, c");
}

#[test]
fn template_is_filled() {
    let content = "const a = 'VAR_A'\n// INJECT:foo\n// OPTIONAL_IMPORT:bar\n// OPTIONAL_IMPORT:* as ns\n// OPTIONAL_IMPORT:none";
    let filled = fill_template(
        content,
        &pairs(&[("VAR_A", "\"x\"")]),
        &pairs(&[("foo", "1 + 1")]),
        &imports(&[("bar", Some("\"./bar\"")), ("ns", Some("\"./ns\"")), ("none", None)]),
    )
    .unwrap();
    assert_eq!(
        filled,
        "const a = \"x\"\nconst foo = 1 + 1\nimport bar from \"./bar\"\nimport * as ns from \"./ns\"\nconst none = null\n"
    );
}

#[test]
fn template_namespace_import_without_path_is_null() {
    let filled =
        fill_template("// OPTIONAL_IMPORT:* as ns\n", &Vec::new(), &Vec::new(), &imports(&[("ns", None)]))
            .unwrap();
    assert_eq!(filled, "const ns = null\n");
}

#[test]
fn template_gets_one_line_end() {
    assert_eq!(fill_template("a", &Vec::new(), &Vec::new(), &Vec::new()).unwrap(), "a\n");
    assert_eq!(fill_template("a\n", &Vec::new(), &Vec::new(), &Vec::new()).unwrap(), "a\n");
    assert_eq!(fill_template("", &Vec::new(), &Vec::new(), &Vec::new()).unwrap(), "\n");
    assert_eq!(fill_template("a\n\n", &Vec::new(), &Vec::new(), &Vec::new()).unwrap(), "a\n\n");
}

#[test]
fn template_variable_is_replaced_everywhere() {
    let filled =
        fill_template("'VAR_A' + 'VAR_A'", &pairs(&[("VAR_A", "1")]), &Vec::new(), &Vec::new()).unwrap();
    assert_eq!(filled, "1 + 1\n");
}

#[test]
fn template_with_variables_left() {
    let err = fill_template("'VAR_A' 'VAR_B' VAR_C_D", &pairs(&[("VAR_A", "1")]), &Vec::new(), &Vec::new())
        .unwrap_err();
    assert!(matches!(&err, TemplateError::Left(Stage::Variables, left) if left == &strings(&["VAR_B", "VAR_C_D"])));
    assert_eq!(
        err.message(),
        "Invariant: Expected to replace all template variables, found VAR_B, VAR_C_D"
    );
}

#[test]
fn template_with_variables_missing() {
    let err = fill_template(
        "'VAR_A'",
        &pairs(&[("VAR_X", "0"), ("VAR_A", "1"), ("VAR_Y", "2")]),
        &Vec::new(),
        &Vec::new(),
    )
    .unwrap_err();
    assert!(matches!(&err, TemplateError::Missing(Stage::Variables, keys) if keys == &strings(&["VAR_X", "VAR_Y"])));
    assert_eq!(
        err.message(),
        "Invariant: Expected to replace all template variables, missing VAR_X, VAR_Y in template"
    );
}

#[test]
fn template_with_injections_left_or_missing() {
    let err = fill_template("// INJECT:a\n// INJECT:b_2", &Vec::new(), &pairs(&[("a", "1")]), &Vec::new())
        .unwrap_err();
    assert!(matches!(&err, TemplateError::Left(Stage::Injections, left) if left == &strings(&["// INJECT:b_2"])));
    assert_eq!(err.message(), "Invariant: Expected to inject all injections, found // INJECT:b_2");

    let err = fill_template("x", &Vec::new(), &pairs(&[("a", "1")]), &Vec::new()).unwrap_err();
    assert!(matches!(&err, TemplateError::Missing(Stage::Injections, keys) if keys == &strings(&["a"])));
    assert_eq!(err.message(), "Invariant: Expected to inject all injections, missing a in template");
}

#[test]
fn template_with_imports_left_or_missing() {
    let err = fill_template("// OPTIONAL_IMPORT:* as a\n// OPTIONAL_IMPORT:b", &Vec::new(), &Vec::new(), &Vec::new())
        .unwrap_err();
    assert!(matches!(
        &err,
        TemplateError::Left(Stage::Imports, left)
            if left == &strings(&["// OPTIONAL_IMPORT:* as a", "// OPTIONAL_IMPORT:b"])
    ));
    assert_eq!(
        err.message(),
        "Invariant: Expected to inject all imports, found // OPTIONAL_IMPORT:* as a, // OPTIONAL_IMPORT:b"
    );

    let err = fill_template("x", &Vec::new(), &Vec::new(), &imports(&[("a", None)])).unwrap_err();
    assert!(matches!(&err, TemplateError::Missing(Stage::Imports, keys) if keys == &strings(&["a"])));
    assert_eq!(err.message(), "Invariant: Expected to inject all imports, missing a in template");
}

#[test]
fn template_reports_what_is_left_before_what_is_missing() {
    let err = fill_template("VAR_LEFT", &pairs(&[("VAR_X", "0")]), &Vec::new(), &Vec::new()).unwrap_err();
    assert!(matches!(&err, TemplateError::Left(Stage::Variables, _)));
}

#[test]
fn settle_judges_a_stage() {
    assert!(settle(Stage::Imports, Some(Vec::new()), Vec::new()).is_ok());
    assert!(matches!(settle(Stage::Imports, None, Vec::new()), Err(TemplateError::Pattern)));
    assert!(matches!(
        settle(Stage::Injections, Some(strings(&["l"])), strings(&["m"])),
        Err(TemplateError::Left(Stage::Injections, l)) if l == strings(&["l"])
    ));
    assert!(matches!(
        settle(Stage::Variables, Some(Vec::new()), strings(&["m"])),
        Err(TemplateError::Missing(Stage::Variables, m)) if m == strings(&["m"])
    ));
}

#[test]
fn imports_of_a_template_are_found() {
    let content = "import a from './a'\nimport '../b/c'\nimport d from 'd'\nexport * from \"./e\"\n";
    let requests = import_requests(content).unwrap();
    assert_eq!(requests.len(), 2);
    assert!(requests[0].from);
    assert_eq!(requests[0].request, "./a");
    assert!(!requests[1].from);
    assert_eq!(requests[1].request, "../b/c");
    assert!(import_requests("nothing here").unwrap().is_empty());
}

#[test]
fn requests_go_by_the_groups() {
    let caps = vec![
        vec![Some("from './a'".to_string()), Some("./a".to_string()), None],
        vec![Some("import './b'".to_string()), None, Some("./b".to_string())],
        vec![Some("x".to_string())],
        vec![Some("x".to_string()), Some(String::new()), Some("./c".to_string())],
    ];
    let requests = requests_from(&caps);
    assert_eq!(requests.len(), 4);
    assert!(requests[0].from && requests[0].request == "./a");
    assert!(!requests[1].from && requests[1].request == "./b");
    assert!(!requests[2].from && requests[2].request.is_empty());
    assert!(!requests[3].from && requests[3].request == "./c");
}

#[test]
fn import_must_lead_below_next() {
    assert_eq!(checked_import("./next/dist/a.js").unwrap(), "next/dist/a.js");
    assert_eq!(checked_import("./next/").unwrap(), "next/");
    let err = checked_import("./other/a.js").unwrap_err();
    assert!(matches!(&err, TemplateError::ImportOutsideNext(path) if path == "./other/a.js"));
    assert_eq!(
        err.message(),
        "Invariant: Expected relative import to start with \"./next/\", found \"./other/a.js\""
    );
    assert!(checked_import("./next").is_err());
    assert!(checked_import("next/a").is_err());
    assert!(checked_import("").is_err());
}

#[test]
fn imports_are_rewritten() {
    let content = "import a from './a'\nconst x = 1\nimport '../b'\n";
    let out = rewrite_imports(content, &strings(&["\"next/a\"", "\"next/b\""])).unwrap();
    assert_eq!(out, "import a from \"next/a\"\nconst x = 1\nimport \"next/b\"\n");
    let out = rewrite_imports("from './a'", &strings(&["X"])).unwrap();
    assert_eq!(out, "from X");
}

#[test]
fn template_without_imports_is_refused() {
    let err = rewrite_imports("const x = 1\n", &Vec::new()).unwrap_err();
    assert!(matches!(err, TemplateError::NoImportReplaced));
    assert_eq!(err.message(), "Invariant: Expected to replace at least one import");
}

#[test]
fn paths_must_be_as_many_as_imports() {
    let err = rewrite_imports("import a from './a'\n", &Vec::new()).unwrap_err();
    assert!(matches!(err, TemplateError::Mismatch));
    let err = rewrite_imports("import a from './a'\n", &strings(&["1", "2"])).unwrap_err();
    assert!(matches!(err, TemplateError::Mismatch));
    let err = rewrite_imports("const x = 1\n", &strings(&["1"])).unwrap_err();
    assert!(matches!(err, TemplateError::Mismatch));
}

#[test]
fn rewriting_needs_parts_that_fit_the_matches() {
    let caps = vec![vec![Some("from './a'".to_string()), Some("./a".to_string()), None]];
    let out = rewrite_imports_with(Some(strings(&["<", ">"])), Some(caps.clone()), &strings(&["P"]));
    assert_eq!(out.unwrap(), "<from P>");
    let out = rewrite_imports_with(Some(strings(&["<"])), Some(caps.clone()), &strings(&["P"]));
    assert!(matches!(out, Err(TemplateError::Pattern)));
    let out = rewrite_imports_with(None, Some(caps.clone()), &strings(&["P"]));
    assert!(matches!(out, Err(TemplateError::Pattern)));
    let out = rewrite_imports_with(Some(strings(&["<", ">"])), None, &strings(&["P"]));
    assert!(matches!(out, Err(TemplateError::Pattern)));
}

#[test]
fn template_is_made_ready_from_its_text() {
    let content = "import { x } from '../lib/x'\nexport const page = 'VAR_PAGE'\n// INJECT:nextConfig\n// OPTIONAL_IMPORT:incrementalCacheHandler";
    let out = load_next_js_template(
        content,
        &strings(&["\"next/dist/lib/x\""]),
        &pairs(&[("VAR_PAGE", "\"/about\"")]),
        &pairs(&[("nextConfig", "{}")]),
        &imports(&[("incrementalCacheHandler", None)]),
    )
    .unwrap();
    assert_eq!(
        out,
        "import { x } from \"next/dist/lib/x\"\nexport const page = \"/about\"\nconst nextConfig = {}\nconst incrementalCacheHandler = null\n"
    );
}

#[test]
fn template_that_imports_nothing_is_not_filled() {
    let err = load_next_js_template("'VAR_A'", &Vec::new(), &pairs(&[("VAR_A", "1")]), &Vec::new(), &Vec::new())
        .unwrap_err();
    assert!(matches!(err, TemplateError::NoImportReplaced));
    let err = load_next_js_template("from './a'\n'VAR_B'", &strings(&["X"]), &Vec::new(), &Vec::new(), &Vec::new())
        .unwrap_err();
    assert!(matches!(err, TemplateError::Left(Stage::Variables, _)));
}
