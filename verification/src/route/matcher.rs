//! Middleware matchers, read from the value that a route's configuration
//! gives for them.

use vstd::prelude::*;
use vstd::string::*;

use crate::route::js_value::{last_text, last_value, JsValue, ObjectPart};

verus! {

/// A condition on a request: something that it has, or that it lacks.
#[derive(Debug)]
#[allow(inconsistent_fields)]
pub enum RouteHas {
    Header { key: String, value: Option<String> },
    Cookie { key: String, value: Option<String> },
    Query { key: String, value: Option<String> },
    Host { value: String },
}

/// A `RouteHas` with its strings as sequences of characters.
#[allow(inconsistent_fields)]
pub enum RouteHasView {
    Header { key: Seq<char>, value: Option<Seq<char>> },
    Cookie { key: Seq<char>, value: Option<Seq<char>> },
    Query { key: Seq<char>, value: Option<Seq<char>> },
    Host { value: Seq<char> },
}

/// The characters of a string that may be absent.
pub open spec fn text_of(text: Option<String>) -> Option<Seq<char>> {
    match text {
        Some(s) => Some(s@),
        None => None,
    }
}

impl View for RouteHas {
    type V = RouteHasView;

    open spec fn view(&self) -> RouteHasView {
        match self {
            RouteHas::Header { key, value } => RouteHasView::Header {
                key: key@,
                value: text_of(*value),
            },
            RouteHas::Cookie { key, value } => RouteHasView::Cookie {
                key: key@,
                value: text_of(*value),
            },
            RouteHas::Query { key, value } => RouteHasView::Query {
                key: key@,
                value: text_of(*value),
            },
            RouteHas::Host { value } => RouteHasView::Host { value: value@ },
        }
    }
}

/// The conditions of a list, each as its view.
pub open spec fn conditions_of(list: Option<Vec<RouteHas>>) -> Option<Seq<RouteHasView>> {
    match list {
        Some(list) => Some(list@.map_values(|r: RouteHas| r@)),
        None => None,
    }
}

/// A matcher given as an object.
#[derive(Debug)]
pub struct MiddlewareMatcher {
    pub regexp: Option<String>,
    pub locale: bool,
    pub has: Option<Vec<RouteHas>>,
    pub missing: Option<Vec<RouteHas>>,
    pub original_source: String,
}

/// A `MiddlewareMatcher` with its strings as sequences of characters.
pub struct MatcherView {
    pub regexp: Option<Seq<char>>,
    pub locale: bool,
    pub has: Option<Seq<RouteHasView>>,
    pub missing: Option<Seq<RouteHasView>>,
    pub original_source: Seq<char>,
}

impl View for MiddlewareMatcher {
    type V = MatcherView;

    open spec fn view(&self) -> MatcherView {
        MatcherView {
            regexp: text_of(self.regexp),
            locale: self.locale,
            has: conditions_of(self.has),
            missing: conditions_of(self.missing),
            original_source: self.original_source@,
        }
    }
}

impl Default for MiddlewareMatcher {
    fn default() -> (matcher: Self)
        ensures
            matcher@ == (MatcherView {
                regexp: None,
                locale: false,
                has: None,
                missing: None,
                original_source: Seq::empty(),
            }),
    {
        MiddlewareMatcher {
            regexp: None,
            locale: false,
            has: None,
            missing: None,
            original_source: String::new(),
        }
    }
}

/// A matcher: a source pattern alone, or an object.
#[derive(Debug)]
pub enum MiddlewareMatcherKind {
    Str(String),
    Matcher(MiddlewareMatcher),
}

/// A `MiddlewareMatcherKind` with its strings as sequences of characters.
pub enum MatcherKindView {
    Str(Seq<char>),
    Matcher(MatcherView),
}

impl View for MiddlewareMatcherKind {
    type V = MatcherKindView;

    open spec fn view(&self) -> MatcherKindView {
        match self {
            MiddlewareMatcherKind::Str(s) => MatcherKindView::Str(s@),
            MiddlewareMatcherKind::Matcher(m) => MatcherKindView::Matcher(m@),
        }
    }
}

/// The condition that an object states: its kind by the text under `type`,
/// with the texts under `key` and `value`. A header, a cookie and a query
/// need a key; a host needs a value. Where a key is given more than once, the
/// last time counts. An object that states no condition gives none.
pub open spec fn route_has_of(parts: Seq<ObjectPart>) -> Option<RouteHasView> {
    let key = last_text(parts, "key"@);
    let value = last_text(parts, "value"@);
    match last_text(parts, "type"@) {
        Some(kind) => if kind == "header"@ {
            match key {
                Some(key) => Some(RouteHasView::Header { key, value }),
                None => None,
            }
        } else if kind == "cookie"@ {
            match key {
                Some(key) => Some(RouteHasView::Cookie { key, value }),
                None => None,
            }
        } else if kind == "query"@ {
            match key {
                Some(key) => Some(RouteHasView::Query { key, value }),
                None => None,
            }
        } else if kind == "host"@ {
            match value {
                Some(value) => Some(RouteHasView::Host { value }),
                None => None,
            }
        } else {
            None
        },
        None => None,
    }
}

/// The conditions that the objects among `items` state, in their order.
pub open spec fn conditions_among(items: Seq<JsValue>) -> Seq<RouteHasView>
    decreases items.len(),
{
    if items.len() == 0 {
        Seq::empty()
    } else {
        let before = conditions_among(items.drop_last());
        match items.last() {
            JsValue::Object(parts) => match route_has_of(parts@) {
                Some(condition) => before.push(condition),
                None => before,
            },
            _ => before,
        }
    }
}

/// The conditions that a value lists: those of its items if it is an array,
/// none otherwise.
pub open spec fn route_has_list(value: JsValue) -> Seq<RouteHasView> {
    match value {
        JsValue::Array(items) => conditions_among(items@),
        _ => Seq::empty(),
    }
}

/// The text that the last part with the key `key` and a constant string
/// gives.
pub open spec fn last_string(parts: Seq<ObjectPart>, key: Seq<char>) -> Option<Seq<char>>
    decreases parts.len(),
{
    if parts.len() == 0 {
        None
    } else if parts.last().has_key(key) && parts.last()->KeyValue_1.text() is Some {
        parts.last()->KeyValue_1.text()
    } else {
        last_string(parts.drop_last(), key)
    }
}

/// The matcher that an object describes: its source is the last constant
/// string under `source`; `locale` holds if the last value under it is
/// `true`; `has` and `missing` are the conditions listed by the last value
/// under each.
pub open spec fn matcher_of(parts: Seq<ObjectPart>) -> MatcherView {
    MatcherView {
        regexp: None,
        locale: match last_value(parts, "locale"@) {
            Some(value) => value.truth() == Some(true),
            None => false,
        },
        has: match last_value(parts, "has"@) {
            Some(value) => Some(route_has_list(value)),
            None => None,
        },
        missing: match last_value(parts, "missing"@) {
            Some(value) => Some(route_has_list(value)),
            None => None,
        },
        original_source: match last_string(parts, "source"@) {
            Some(source) => source,
            None => Seq::empty(),
        },
    }
}

/// The matcher that one item of a list gives: a constant string is a source
/// pattern, an object is a matcher, anything else gives none.
pub open spec fn kind_of(item: JsValue) -> Option<MatcherKindView> {
    match item.text() {
        Some(source) => Some(MatcherKindView::Str(source)),
        None => match item {
            JsValue::Object(parts) => Some(MatcherKindView::Matcher(matcher_of(parts@))),
            _ => None,
        },
    }
}

/// The matchers that the items give, in their order.
pub open spec fn kinds_among(items: Seq<JsValue>) -> Seq<MatcherKindView>
    decreases items.len(),
{
    if items.len() == 0 {
        Seq::empty()
    } else {
        let before = kinds_among(items.drop_last());
        match kind_of(items.last()) {
            Some(kind) => before.push(kind),
            None => before,
        }
    }
}

/// How many of the items give no matcher.
pub open spec fn misfits_among(items: Seq<JsValue>) -> nat
    decreases items.len(),
{
    if items.len() == 0 {
        0
    } else {
        misfits_among(items.drop_last()) + if kind_of(items.last()) is None {
            1nat
        } else {
            0nat
        }
    }
}

/// The matchers that a value gives: one source pattern if it is a constant
/// string, those of its items if it is an array, none otherwise.
pub open spec fn matchers_of(value: JsValue) -> Seq<MatcherKindView> {
    match value {
        JsValue::Constant(_) => match value.text() {
            Some(source) => seq![MatcherKindView::Str(source)],
            None => Seq::empty(),
        },
        JsValue::Array(items) => kinds_among(items@),
        _ => Seq::empty(),
    }
}

/// How often a value has to be complained of: once for each item of an array
/// that gives no matcher, once for a value that is neither a constant string
/// nor an array.
pub open spec fn matcher_complaints(value: JsValue) -> nat {
    match value {
        JsValue::Constant(_) => if value.text() is Some {
            0
        } else {
            1
        },
        JsValue::Array(items) => misfits_among(items@),
        _ => 1,
    }
}

/// The text of a value that may have none, as a string of its own.
fn text_owned(value: &JsValue) -> (text: Option<String>)
    ensures
        text_of(text) == value.text(),
{
    match value.as_str() {
        Some(s) => Some(String::from_str(s)),
        None => None,
    }
}

/// Reads the condition that an object states.
pub fn parse_route_has(parts: &Vec<ObjectPart>) -> (condition: Option<RouteHas>)
    ensures
        match condition {
            Some(c) => route_has_of(parts@) == Some(c@),
            None => route_has_of(parts@) is None,
        },
{
    let mut route_type: Option<String> = None;
    let mut route_key: Option<String> = None;
    let mut route_value: Option<String> = None;
    proof {
        reveal_strlit("type");
        reveal_strlit("key");
        reveal_strlit("value");
    }
    let mut i: usize = 0;
    while i < parts.len()
        invariant
            0 <= i <= parts.len(),
            "type"@.len() == 4,
            "key"@.len() == 3,
            "value"@.len() == 5,
            text_of(route_type) == last_text(parts@.take(i as int), "type"@),
            text_of(route_key) == last_text(parts@.take(i as int), "key"@),
            text_of(route_value) == last_text(parts@.take(i as int), "value"@),
        decreases parts.len() - i,
    {
        proof {
            assert(parts@.take(i + 1).drop_last() =~= parts@.take(i as int));
        }
        if let ObjectPart::KeyValue(part_key, part_value) = &parts[i] {
            if part_key.is_text("type") {
                route_type = text_owned(part_value);
            } else if part_key.is_text("key") {
                route_key = text_owned(part_value);
            } else if part_key.is_text("value") {
                route_value = text_owned(part_value);
            }
        }
        i = i + 1;
    }
    assert(parts@.take(i as int) =~= parts@);
    proof {
        reveal_strlit("header");
        reveal_strlit("cookie");
        reveal_strlit("query");
        reveal_strlit("host");
    }
    match route_type {
        Some(kind) => {
            if crate::text::compare::same_text(kind.as_str(), "header") {
                match route_key {
                    Some(key) => Some(RouteHas::Header { key, value: route_value }),
                    None => None,
                }
            } else if crate::text::compare::same_text(kind.as_str(), "cookie") {
                match route_key {
                    Some(key) => Some(RouteHas::Cookie { key, value: route_value }),
                    None => None,
                }
            } else if crate::text::compare::same_text(kind.as_str(), "query") {
                match route_key {
                    Some(key) => Some(RouteHas::Query { key, value: route_value }),
                    None => None,
                }
            } else if crate::text::compare::same_text(kind.as_str(), "host") {
                match route_value {
                    Some(value) => Some(RouteHas::Host { value }),
                    None => None,
                }
            } else {
                None
            }
        },
        None => None,
    }
}

/// Reads the conditions that a value lists.
pub fn parse_route_has_list(value: &JsValue) -> (list: Vec<RouteHas>)
    ensures
        list@.map_values(|r: RouteHas| r@) == route_has_list(*value),
{
    let mut route_has: Vec<RouteHas> = Vec::new();
    if let JsValue::Array(items) = value {
        let mut i: usize = 0;
        assert(route_has@.map_values(|r: RouteHas| r@) =~= conditions_among(items@.take(0)));
        while i < items.len()
            invariant
                0 <= i <= items.len(),
                route_has@.map_values(|r: RouteHas| r@) == conditions_among(items@.take(i as int)),
            decreases items.len() - i,
        {
            let ghost before = route_has@.map_values(|r: RouteHas| r@);
            proof {
                assert(items@.take(i + 1).drop_last() =~= items@.take(i as int));
            }
            if let JsValue::Object(parts) = &items[i] {
                if let Some(r) = parse_route_has(parts) {
                    route_has.push(r);
                    assert(route_has@.map_values(|r: RouteHas| r@) =~= before.push(r@));
                }
            }
            i = i + 1;
        }
        assert(items@.take(i as int) =~= items@);
    } else {
        assert(route_has@.map_values(|r: RouteHas| r@) =~= Seq::<RouteHasView>::empty());
    }
    route_has
}

/// Reads the matcher that an object describes.
pub fn parse_matcher(parts: &Vec<ObjectPart>) -> (matcher: MiddlewareMatcher)
    ensures
        matcher@ == matcher_of(parts@),
{
    let mut matcher = MiddlewareMatcher::default();
    proof {
        reveal_strlit("source");
        reveal_strlit("locale");
        reveal_strlit("missing");
        reveal_strlit("has");
    }
    let mut i: usize = 0;
    while i < parts.len()
        invariant
            0 <= i <= parts.len(),
            "source"@.len() == 6 && "source"@[0] == 's',
            "locale"@.len() == 6 && "locale"@[0] == 'l',
            "missing"@.len() == 7,
            "has"@.len() == 3,
            matcher@ == matcher_of(parts@.take(i as int)),
        decreases parts.len() - i,
    {
        proof {
            assert(parts@.take(i + 1).drop_last() =~= parts@.take(i as int));
        }
        if let ObjectPart::KeyValue(key, value) = &parts[i] {
            if key.is_text("source") {
                if let Some(source) = value.as_str() {
                    matcher.original_source = String::from_str(source);
                }
            } else if key.is_text("locale") {
                matcher.locale = match value.as_bool() {
                    Some(b) => b,
                    None => false,
                };
            } else if key.is_text("missing") {
                matcher.missing = Some(parse_route_has_list(value));
            } else if key.is_text("has") {
                matcher.has = Some(parse_route_has_list(value));
            }
        }
        i = i + 1;
    }
    assert(parts@.take(i as int) =~= parts@);
    matcher
}

/// The matchers of a list, each as its view.
pub open spec fn kinds_view(list: Seq<MiddlewareMatcherKind>) -> Seq<MatcherKindView> {
    list.map_values(|k: MiddlewareMatcherKind| k@)
}

/// Reads the matchers that a route's configuration gives: the matchers, if
/// there is any, and how often the value has to be complained of because it
/// is not a string or an array of strings and objects.
pub fn parse_route_matcher_from_js_value(value: &JsValue) -> (outcome: (
    Option<Vec<MiddlewareMatcherKind>>,
    usize,
))
    ensures
        outcome.1 == matcher_complaints(*value),
        match outcome.0 {
            Some(list) => list@.len() > 0 && kinds_view(list@) == matchers_of(*value),
            None => matchers_of(*value).len() == 0,
        },
{
    let mut matchers: Vec<MiddlewareMatcherKind> = Vec::new();
    let mut complaints: usize = 0;
    match value {
        JsValue::Constant(_) => {
            match value.as_str() {
                Some(source) => {
                    matchers.push(MiddlewareMatcherKind::Str(String::from_str(source)));
                    assert(kinds_view(matchers@) =~= matchers_of(*value));
                },
                None => {
                    complaints = 1;
                    assert(kinds_view(matchers@) =~= matchers_of(*value));
                },
            }
        },
        JsValue::Array(items) => {
            let mut i: usize = 0;
            assert(kinds_view(matchers@) =~= kinds_among(items@.take(0)));
            while i < items.len()
                invariant
                    0 <= i <= items.len(),
                    complaints == misfits_among(items@.take(i as int)),
                    complaints <= i,
                    kinds_view(matchers@) == kinds_among(items@.take(i as int)),
                decreases items.len() - i,
            {
                let ghost before = kinds_view(matchers@);
                proof {
                    assert(items@.take(i + 1).drop_last() =~= items@.take(i as int));
                }
                let item = &items[i];
                if let Some(source) = item.as_str() {
                    matchers.push(MiddlewareMatcherKind::Str(String::from_str(source)));
                    assert(kinds_view(matchers@) =~= before.push(MatcherKindView::Str(source@)));
                } else if let JsValue::Object(parts) = item {
                    let matcher = parse_matcher(parts);
                    matchers.push(MiddlewareMatcherKind::Matcher(matcher));
                    assert(kinds_view(matchers@) =~= before.push(
                        MatcherKindView::Matcher(matcher_of(parts@)),
                    ));
                } else {
                    complaints = complaints + 1;
                }
                i = i + 1;
            }
            assert(items@.take(i as int) =~= items@);
        },
        _ => {
            complaints = 1;
            assert(kinds_view(matchers@) =~= matchers_of(*value));
        },
    }
    assert(kinds_view(matchers@).len() == matchers@.len());
    if matchers.len() == 0 {
        (None, complaints)
    } else {
        (Some(matchers), complaints)
    }
}

} // verus!
