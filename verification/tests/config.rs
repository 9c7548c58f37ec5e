use glob_walk::route::exports::{
    parse_config_from_source, ExportedVar, Initializer, SourceDetail, SourceWarning,
};
use glob_walk::route::js_value::{ConstantValue, JsValue, ObjectPart};
use glob_walk::route::matcher::{
    parse_matcher, parse_route_has, parse_route_has_list, parse_route_matcher_from_js_value,
    MiddlewareMatcher, MiddlewareMatcherKind, RouteHas,
};
use glob_walk::route::runtime::NextRuntime;
use glob_walk::route::source_config::{
    parse_config_from_js_value, parse_runtime, ConfigWarning, Detail, NextSourceConfig, Subject,
};

fn text(s: &str) -> JsValue {
    JsValue::Constant(ConstantValue::Str(s.to_string()))
}

fn pair(key: &str, value: JsValue) -> ObjectPart {
    ObjectPart::KeyValue(text(key), value)
}

fn object(parts: Vec<ObjectPart>) -> JsValue {
    JsValue::Object(parts)
}

fn route(kind: &str, key: Option<&str>, value: Option<&str>) -> JsValue {
    let mut parts = vec![pair("type", text(kind))];
    if let Some(key) = key {
        parts.push(pair("key", text(key)));
    }
    if let Some(value) = value {
        parts.push(pair("value", text(value)));
    }
    object(parts)
}

fn parts_of(value: JsValue) -> Vec<ObjectPart> {
    match value {
        JsValue::Object(parts) => parts,
        other => panic!("not an object: {:?}", other),
    }
}

fn show_has(r: &RouteHas) -> String {
    format!("{:?}", r)
}

fn show_kind(k: &MiddlewareMatcherKind) -> String {
    format!("{:?}", k)
}

fn show_config(c: &NextSourceConfig) -> String {
    format!("{:?}", c)
}

fn warn(detail: Detail, subject: Subject) -> ConfigWarning {
    ConfigWarning { detail, subject }
}

#[test]
fn js_values_know_their_text_and_truth() {
    assert_eq!(text("a").as_str(), Some("a"));
    assert_eq!(JsValue::Constant(ConstantValue::True).as_str(), None);
    assert_eq!(JsValue::Unknown.as_str(), None);
    assert_eq!(JsValue::Constant(ConstantValue::True).as_bool(), Some(true));
    assert_eq!(JsValue::Constant(ConstantValue::False).as_bool(), Some(false));
    assert_eq!(JsValue::Constant(ConstantValue::Other).as_bool(), None);
    assert_eq!(text("true").as_bool(), None);
    assert!(text("runtime").is_text("runtime"));
    assert!(!text("runtime").is_text("regions"));
    assert!(!JsValue::Array(Vec::new()).is_text(""));
}

#[test]
fn runtime_names() {
    assert_eq!(parse_runtime("edge"), Some(NextRuntime::Edge));
    assert_eq!(parse_runtime("experimental-edge"), Some(NextRuntime::Edge));
    assert_eq!(parse_runtime("nodejs"), Some(NextRuntime::NodeJs));
    assert_eq!(parse_runtime("node"), None);
    assert_eq!(parse_runtime(""), None);
    assert_eq!(parse_runtime("Edge"), None);
}

#[test]
fn route_has_needs_key_or_value() {
    let header = parse_route_has(&parts_of(route("header", Some("x-a"), Some("1")))).unwrap();
    assert_eq!(
        show_has(&header),
        show_has(&RouteHas::Header { key: "x-a".to_string(), value: Some("1".to_string()) })
    );
    let cookie = parse_route_has(&parts_of(route("cookie", Some("c"), None))).unwrap();
    assert_eq!(show_has(&cookie), show_has(&RouteHas::Cookie { key: "c".to_string(), value: None }));
    let query = parse_route_has(&parts_of(route("query", Some("q"), Some("v")))).unwrap();
    assert_eq!(
        show_has(&query),
        show_has(&RouteHas::Query { key: "q".to_string(), value: Some("v".to_string()) })
    );
    let host = parse_route_has(&parts_of(route("host", Some("ignored"), Some("example.com")))).unwrap();
    assert_eq!(show_has(&host), show_has(&RouteHas::Host { value: "example.com".to_string() }));

    assert!(parse_route_has(&parts_of(route("header", None, Some("1")))).is_none());
    assert!(parse_route_has(&parts_of(route("host", Some("k"), None))).is_none());
    assert!(parse_route_has(&parts_of(route("other", Some("k"), Some("v")))).is_none());
    assert!(parse_route_has(&Vec::new()).is_none());
}

#[test]
fn route_has_takes_the_last_of_each_key() {
    let parts = vec![
        pair("type", text("host")),
        pair("key", text("first")),
        pair("type", text("header")),
        pair("key", text("second")),
        pair("value", text("v")),
        pair("value", JsValue::Unknown),
    ];
    let parsed = parse_route_has(&parts).unwrap();
    assert_eq!(
        show_has(&parsed),
        show_has(&RouteHas::Header { key: "second".to_string(), value: None })
    );
    let parts = vec![pair("type", text("header")), pair("key", text("k")), pair("type", JsValue::Unknown)];
    assert!(parse_route_has(&parts).is_none());
}

#[test]
fn route_has_list_skips_what_states_no_condition() {
    let list = JsValue::Array(vec![
        route("header", Some("a"), None),
        text("not an object"),
        route("header", None, None),
        route("host", None, Some("h")),
    ]);
    let parsed = parse_route_has_list(&list);
    assert_eq!(parsed.len(), 2);
    assert_eq!(show_has(&parsed[0]), show_has(&RouteHas::Header { key: "a".to_string(), value: None }));
    assert_eq!(show_has(&parsed[1]), show_has(&RouteHas::Host { value: "h".to_string() }));
    assert!(parse_route_has_list(&route("header", Some("a"), None)).is_empty());
    assert!(parse_route_has_list(&JsValue::Unknown).is_empty());
}

#[test]
fn matcher_object_is_read_by_its_keys() {
    let parts = vec![
        pair("source", text("/a")),
        pair("source", JsValue::Unknown),
        pair("locale", JsValue::Constant(ConstantValue::True)),
        pair("has", JsValue::Array(vec![route("host", None, Some("h"))])),
        pair("missing", JsValue::Unknown),
        pair("other", text("x")),
        ObjectPart::Spread(JsValue::Unknown),
    ];
    let matcher = parse_matcher(&parts);
    assert_eq!(matcher.original_source, "/a");
    assert!(matcher.locale);
    assert_eq!(matcher.has.as_ref().map(|h| h.len()), Some(1));
    assert_eq!(matcher.missing.as_ref().map(|h| h.len()), Some(0));
    assert_eq!(matcher.regexp, None);

    let matcher = parse_matcher(&vec![
        pair("locale", JsValue::Constant(ConstantValue::True)),
        pair("locale", text("yes")),
    ]);
    assert!(!matcher.locale);
    assert_eq!(matcher.original_source, "");
    assert!(matcher.has.is_none() && matcher.missing.is_none());
    assert_eq!(format!("{:?}", parse_matcher(&Vec::new())), format!("{:?}", MiddlewareMatcher::default()));
}

#[test]
fn matcher_from_a_string() {
    let (matchers, complaints) = parse_route_matcher_from_js_value(&text("/about"));
    let matchers = matchers.unwrap();
    assert_eq!(matchers.len(), 1);
    assert_eq!(show_kind(&matchers[0]), show_kind(&MiddlewareMatcherKind::Str("/about".to_string())));
    assert_eq!(complaints, 0);
}

#[test]
fn matcher_from_an_array() {
    let value = JsValue::Array(vec![
        text("/a"),
        JsValue::Constant(ConstantValue::Other),
        object(vec![pair("source", text("/b"))]),
        JsValue::Unknown,
    ]);
    let (matchers, complaints) = parse_route_matcher_from_js_value(&value);
    let matchers = matchers.unwrap();
    assert_eq!(matchers.len(), 2);
    assert_eq!(show_kind(&matchers[0]), show_kind(&MiddlewareMatcherKind::Str("/a".to_string())));
    match &matchers[1] {
        MiddlewareMatcherKind::Matcher(m) => assert_eq!(m.original_source, "/b"),
        other => panic!("not a matcher: {:?}", other),
    }
    assert_eq!(complaints, 2);
}

#[test]
fn matcher_from_nothing_usable() {
    let (matchers, complaints) = parse_route_matcher_from_js_value(&JsValue::Array(Vec::new()));
    assert!(matchers.is_none());
    assert_eq!(complaints, 0);
    let (matchers, complaints) =
        parse_route_matcher_from_js_value(&JsValue::Constant(ConstantValue::True));
    assert!(matchers.is_none());
    assert_eq!(complaints, 1);
    let (matchers, complaints) = parse_route_matcher_from_js_value(&object(Vec::new()));
    assert!(matchers.is_none());
    assert_eq!(complaints, 1);
    let (matchers, complaints) = parse_route_matcher_from_js_value(&JsValue::Unknown);
    assert!(matchers.is_none());
    assert_eq!(complaints, 1);
}

#[test]
fn config_from_an_object() {
    let value = object(vec![
        pair("runtime", text("edge")),
        pair("matcher", text("/m")),
        pair("regions", JsValue::Array(vec![text("iad1"), text("sfo1")])),
        pair("unrelated", JsValue::Unknown),
    ]);
    let (config, warnings) = parse_config_from_js_value(&value, NextRuntime::NodeJs);
    assert_eq!(
        show_config(&config),
        show_config(&NextSourceConfig {
            runtime: NextRuntime::Edge,
            matcher: Some(vec![MiddlewareMatcherKind::Str("/m".to_string())]),
            regions: Some(vec!["iad1".to_string(), "sfo1".to_string()]),
        })
    );
    assert!(warnings.is_empty());
}

#[test]
fn config_keeps_the_default_runtime() {
    let (config, warnings) = parse_config_from_js_value(&object(Vec::new()), NextRuntime::Edge);
    assert_eq!(config.runtime, NextRuntime::Edge);
    assert!(config.matcher.is_none() && config.regions.is_none());
    assert!(warnings.is_empty());

    let value = object(vec![pair("runtime", text("nodejs")), pair("runtime", text("deno"))]);
    let (config, warnings) = parse_config_from_js_value(&value, NextRuntime::Edge);
    assert_eq!(config.runtime, NextRuntime::NodeJs);
    assert_eq!(warnings, vec![warn(Detail::RuntimeNotKnown, Subject::Value(1))]);
}

#[test]
fn config_single_region() {
    let value = object(vec![pair("regions", text("iad1"))]);
    let (config, warnings) = parse_config_from_js_value(&value, NextRuntime::NodeJs);
    assert_eq!(config.regions, Some(vec!["iad1".to_string()]));
    assert!(warnings.is_empty());
}

#[test]
fn config_complains_of_each_fault() {
    let value = object(vec![
        ObjectPart::Spread(JsValue::Unknown),
        ObjectPart::KeyValue(JsValue::Unknown, text("x")),
        pair("runtime", JsValue::Unknown),
        pair("runtime", JsValue::Constant(ConstantValue::True)),
        pair("runtime", text("bun")),
        pair("matcher", JsValue::Array(vec![JsValue::Unknown, text("/a"), JsValue::Unknown])),
        pair("regions", JsValue::Array(vec![text("a"), JsValue::Unknown, text("b"), JsValue::Unknown])),
        pair("regions", JsValue::Constant(ConstantValue::Other)),
    ]);
    let (config, warnings) = parse_config_from_js_value(&value, NextRuntime::Edge);
    assert_eq!(config.runtime, NextRuntime::Edge);
    assert_eq!(config.matcher.as_ref().map(|m| m.len()), Some(1));
    assert_eq!(config.regions, None);
    assert_eq!(
        warnings,
        vec![
            warn(Detail::SpreadNotSupported, Subject::Whole),
            warn(Detail::KeyNotConstant, Subject::Key(1)),
            warn(Detail::RuntimeNotConstant, Subject::Value(2)),
            warn(Detail::RuntimeNotKnown, Subject::Value(4)),
            warn(Detail::MatcherNotStrings, Subject::Value(5)),
            warn(Detail::MatcherNotStrings, Subject::Value(5)),
            warn(Detail::RegionNotString, Subject::Item(6, 1)),
            warn(Detail::RegionNotString, Subject::Item(6, 3)),
            warn(Detail::RegionsNotStrings, Subject::Value(7)),
        ]
    );
}

#[test]
fn config_that_is_no_object() {
    let (config, warnings) = parse_config_from_js_value(&text("edge"), NextRuntime::Edge);
    assert_eq!(config.runtime, NextRuntime::Edge);
    assert!(config.matcher.is_none() && config.regions.is_none());
    assert_eq!(warnings, vec![warn(Detail::NotAnObject, Subject::Whole)]);
}

#[test]
fn warning_texts() {
    assert_eq!(
        Detail::SpreadNotSupported.message(),
        "Spread properties are not supported in the config export."
    );
    assert_eq!(
        Detail::RuntimeNotKnown.message(),
        "The runtime property must be either \"nodejs\" or \"edge\"."
    );
    assert_eq!(Detail::RuntimeNotConstant.message(), "The runtime property must be a constant string.");
    assert_eq!(
        Detail::MatcherNotStrings.message(),
        "The matcher property must be a string or array of strings"
    );
    assert_eq!(
        Detail::RegionNotString.message(),
        "Values of the `config.regions` array need to static strings"
    );
    assert_eq!(
        Detail::RegionsNotStrings.message(),
        "`config.regions` needs to be a static string or array of static strings"
    );
    assert_eq!(
        Detail::KeyNotConstant.message(),
        "The exported config object must not contain non-constant strings."
    );
    assert_eq!(Detail::NotAnObject.message(), "The exported config object must be a valid object literal.");
    assert_eq!(
        SourceDetail::ConfigWithoutInitializer.message(),
        "The exported config object must contain an variable initializer."
    );
    assert_eq!(
        SourceDetail::RuntimeWithoutInitializer.message(),
        "The exported segment runtime option must contain an variable initializer."
    );
    assert_eq!(
        SourceDetail::RuntimeNotKnown.message(),
        "The runtime property must be either \"nodejs\" or \"edge\"."
    );
    assert_eq!(
        SourceDetail::Config(warn(Detail::NotAnObject, Subject::Whole)).message(),
        "The exported config object must be a valid object literal."
    );
}

fn var(name: &str, init: Option<Initializer>) -> ExportedVar {
    ExportedVar { name: name.to_string(), init }
}

fn literal(s: &str) -> Option<Initializer> {
    Some(Initializer { literal: Some(s.to_string()), value: text(s) })
}

fn evaluated(value: JsValue) -> Option<Initializer> {
    Some(Initializer { literal: None, value })
}

#[test]
fn source_without_exports_has_the_default_runtime() {
    let (config, warnings) = parse_config_from_source(&Vec::new(), NextRuntime::Edge);
    assert_eq!(show_config(&config), show_config(&NextSourceConfig {
        runtime: NextRuntime::Edge,
        matcher: None,
        regions: None,
    }));
    assert!(warnings.is_empty());
    let decls = vec![var("other", literal("edge")), var("revalidate", None)];
    let (config, warnings) = parse_config_from_source(&decls, NextRuntime::Edge);
    assert_eq!(config.runtime, NextRuntime::Edge);
    assert!(warnings.is_empty());
}

#[test]
fn source_config_object_settles_it() {
    let decls = vec![
        var("runtime", None),
        var("config", None),
        var("config", evaluated(object(vec![pair("regions", text("iad1")), pair("runtime", text("x"))]))),
        var("runtime", literal("nodejs")),
    ];
    let (config, warnings) = parse_config_from_source(&decls, NextRuntime::Edge);
    assert_eq!(config.runtime, NextRuntime::Edge);
    assert_eq!(config.regions, Some(vec!["iad1".to_string()]));
    assert_eq!(
        warnings,
        vec![
            SourceWarning { declaration: 0, detail: SourceDetail::RuntimeWithoutInitializer },
            SourceWarning { declaration: 1, detail: SourceDetail::ConfigWithoutInitializer },
            SourceWarning {
                declaration: 2,
                detail: SourceDetail::Config(warn(Detail::RuntimeNotKnown, Subject::Value(1))),
            },
        ]
    );
}

#[test]
fn source_runtime_literal_settles_it() {
    let decls = vec![var("runtime", literal("experimental-edge")), var("config", evaluated(object(Vec::new())))];
    let (config, warnings) = parse_config_from_source(&decls, NextRuntime::NodeJs);
    assert_eq!(config.runtime, NextRuntime::Edge);
    assert!(warnings.is_empty());

    let decls = vec![var("runtime", literal("nodejs"))];
    let (config, warnings) = parse_config_from_source(&decls, NextRuntime::Edge);
    assert_eq!(config.runtime, NextRuntime::NodeJs);
    assert!(warnings.is_empty());
}

#[test]
fn source_unknown_runtime_literal_falls_back_to_node() {
    let decls = vec![var("runtime", literal("deno")), var("runtime", literal("edge"))];
    let (config, warnings) = parse_config_from_source(&decls, NextRuntime::Edge);
    assert_eq!(config.runtime, NextRuntime::NodeJs);
    assert_eq!(warnings, vec![SourceWarning { declaration: 0, detail: SourceDetail::RuntimeNotKnown }]);
}

#[test]
fn source_runtime_that_is_no_literal_is_passed_over() {
    let decls = vec![var("runtime", evaluated(text("edge"))), var("runtime", literal("edge"))];
    let (config, warnings) = parse_config_from_source(&decls, NextRuntime::NodeJs);
    assert_eq!(config.runtime, NextRuntime::Edge);
    assert_eq!(warnings, vec![SourceWarning { declaration: 0, detail: SourceDetail::RuntimeNotKnown }]);
}
