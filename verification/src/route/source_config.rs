//! The configuration that a route's source file exports.

use vstd::prelude::*;
use vstd::string::*;

use crate::route::js_value::{last_value, ConstantValue, JsValue, ObjectPart};
use crate::route::matcher::{
    kinds_view, matcher_complaints, matchers_of, parse_route_matcher_from_js_value,
    MatcherKindView, MiddlewareMatcherKind,
};
use crate::route::runtime::NextRuntime;
use crate::text::compare::same_text;

verus! {

/// What a source file configures for its route.
#[derive(Debug)]
pub struct NextSourceConfig {
    pub runtime: NextRuntime,
    /// Middleware router matchers
    pub matcher: Option<Vec<MiddlewareMatcherKind>>,
    pub regions: Option<Vec<String>>,
}

/// A `NextSourceConfig` with its strings as sequences of characters.
pub struct ConfigView {
    pub runtime: NextRuntime,
    pub matcher: Option<Seq<MatcherKindView>>,
    pub regions: Option<Seq<Seq<char>>>,
}

impl View for NextSourceConfig {
    type V = ConfigView;

    open spec fn view(&self) -> ConfigView {
        ConfigView {
            runtime: self.runtime,
            matcher: match self.matcher {
                Some(list) => Some(kinds_view(list@)),
                None => None,
            },
            regions: match self.regions {
                Some(list) => Some(list@.map_values(|r: String| r@)),
                None => None,
            },
        }
    }
}

/// The configuration that says nothing but the runtime.
pub open spec fn bare_config(runtime: NextRuntime) -> ConfigView {
    ConfigView { runtime, matcher: None, regions: None }
}

impl Default for NextSourceConfig {
    fn default() -> (config: Self)
        ensures
            config@ == bare_config(NextRuntime::NodeJs),
    {
        NextSourceConfig { runtime: NextRuntime::NodeJs, matcher: None, regions: None }
    }
}

/// What is wrong with a part of an exported configuration.
#[derive(Debug, Clone, Copy, PartialEq, Eq, Structural)]
pub enum Detail {
    SpreadNotSupported,
    RuntimeNotKnown,
    RuntimeNotConstant,
    MatcherNotStrings,
    RegionNotString,
    RegionsNotStrings,
    KeyNotConstant,
    NotAnObject,
}

impl Detail {
    /// The words of the complaint.
    pub open spec fn text(self) -> Seq<char> {
        match self {
            Detail::SpreadNotSupported => "Spread properties are not supported in the config export."@,
            Detail::RuntimeNotKnown => "The runtime property must be either \"nodejs\" or \"edge\"."@,
            Detail::RuntimeNotConstant => "The runtime property must be a constant string."@,
            Detail::MatcherNotStrings => "The matcher property must be a string or array of strings"@,
            Detail::RegionNotString => "Values of the `config.regions` array need to static strings"@,
            Detail::RegionsNotStrings => "`config.regions` needs to be a static string or array of static strings"@,
            Detail::KeyNotConstant => "The exported config object must not contain non-constant strings."@,
            Detail::NotAnObject => "The exported config object must be a valid object literal."@,
        }
    }

    /// The words of the complaint.
    pub fn message(&self) -> (text: &'static str)
        ensures
            text@ == self.text(),
    {
        match self {
            Detail::SpreadNotSupported => "Spread properties are not supported in the config export.",
            Detail::RuntimeNotKnown => "The runtime property must be either \"nodejs\" or \"edge\".",
            Detail::RuntimeNotConstant => "The runtime property must be a constant string.",
            Detail::MatcherNotStrings => "The matcher property must be a string or array of strings",
            Detail::RegionNotString => "Values of the `config.regions` array need to static strings",
            Detail::RegionsNotStrings => "`config.regions` needs to be a static string or array of static strings",
            Detail::KeyNotConstant => "The exported config object must not contain non-constant strings.",
            Detail::NotAnObject => "The exported config object must be a valid object literal.",
        }
    }
}

/// The value that a complaint shows to the reader.
#[derive(Debug, Clone, Copy, PartialEq, Eq, Structural)]
pub enum Subject {
    /// The exported value as a whole.
    Whole,
    /// The key of the part with this index.
    Key(usize),
    /// The value of the part with this index.
    Value(usize),
    /// An item of the array that is the value of a part: the part's index,
    /// then the item's.
    Item(usize, usize),
}

/// A complaint about an exported configuration.
#[derive(Debug, Clone, Copy, PartialEq, Eq, Structural)]
pub struct ConfigWarning {
    pub detail: Detail,
    pub subject: Subject,
}

/// The runtime that a text names.
pub open spec fn runtime_named(text: Seq<char>) -> Option<NextRuntime> {
    if text == "edge"@ || text == "experimental-edge"@ {
        Some(NextRuntime::Edge)
    } else if text == "nodejs"@ {
        Some(NextRuntime::NodeJs)
    } else {
        None
    }
}

/// Tells which runtime a text names.
pub fn parse_runtime(text: &str) -> (runtime: Option<NextRuntime>)
    ensures
        runtime == runtime_named(text@),
{
    if same_text(text, "edge") || same_text(text, "experimental-edge") {
        Some(NextRuntime::Edge)
    } else if same_text(text, "nodejs") {
        Some(NextRuntime::NodeJs)
    } else {
        None
    }
}

/// The runtime that a part sets: the one that its value names, if its key is
/// `runtime`.
pub open spec fn runtime_set_by(part: ObjectPart) -> Option<NextRuntime> {
    if part.has_key("runtime"@) {
        match part->KeyValue_1.text() {
            Some(text) => runtime_named(text),
            None => None,
        }
    } else {
        None
    }
}

/// The runtime that the last part sets which sets one.
pub open spec fn last_runtime(parts: Seq<ObjectPart>) -> Option<NextRuntime>
    decreases parts.len(),
{
    if parts.len() == 0 {
        None
    } else if runtime_set_by(parts.last()) is Some {
        runtime_set_by(parts.last())
    } else {
        last_runtime(parts.drop_last())
    }
}

/// The texts of the constant strings among `items`, in their order.
pub open spec fn regions_among(items: Seq<JsValue>) -> Seq<Seq<char>>
    decreases items.len(),
{
    if items.len() == 0 {
        Seq::empty()
    } else {
        let before = regions_among(items.drop_last());
        match items.last().text() {
            Some(region) => before.push(region),
            None => before,
        }
    }
}

/// The regions that a value gives: itself if it is a constant string, the
/// constant strings among its items if it is an array, none otherwise.
pub open spec fn regions_of(value: JsValue) -> Option<Seq<Seq<char>>> {
    match value {
        JsValue::Constant(ConstantValue::Str(region)) => Some(seq![region@]),
        JsValue::Array(items) => Some(regions_among(items@)),
        _ => None,
    }
}

/// The matchers that a value gives, if it gives any.
pub open spec fn matcher_set_by(value: JsValue) -> Option<Seq<MatcherKindView>> {
    if matchers_of(value).len() == 0 {
        None
    } else {
        Some(matchers_of(value))
    }
}

/// The configuration that the parts of an object state. The runtime is the
/// last one that a part sets, else `default_runtime`; the matchers and the
/// regions are those of the last value given under `matcher` and under
/// `regions`.
pub open spec fn config_of(parts: Seq<ObjectPart>, default_runtime: NextRuntime) -> ConfigView {
    ConfigView {
        runtime: match last_runtime(parts) {
            Some(runtime) => runtime,
            None => default_runtime,
        },
        matcher: match last_value(parts, "matcher"@) {
            Some(value) => matcher_set_by(value),
            None => None,
        },
        regions: match last_value(parts, "regions"@) {
            Some(value) => regions_of(value),
            None => None,
        },
    }
}

/// A complaint.
pub open spec fn warning(detail: Detail, subject: Subject) -> ConfigWarning {
    ConfigWarning { detail, subject }
}

/// The complaints about the items of the array of regions that part `i`
/// gives: one for each item that is no constant string.
pub open spec fn region_warnings(i: usize, items: Seq<JsValue>) -> Seq<ConfigWarning>
    decreases items.len(),
{
    if items.len() == 0 {
        Seq::empty()
    } else {
        let before = region_warnings(i, items.drop_last());
        if items.last().text() is Some {
            before
        } else {
            before.push(warning(Detail::RegionNotString, Subject::Item(i, (items.len() - 1) as usize)))
        }
    }
}

/// The complaints about part `i`.
pub open spec fn part_warnings(i: usize, part: ObjectPart) -> Seq<ConfigWarning> {
    match part {
        ObjectPart::Spread(_) => seq![warning(Detail::SpreadNotSupported, Subject::Whole)],
        ObjectPart::KeyValue(key, value) => match key.text() {
            None => seq![warning(Detail::KeyNotConstant, Subject::Key(i))],
            Some(k) => if k == "runtime"@ {
                match value {
                    JsValue::Constant(_) => match value.text() {
                        Some(text) => if runtime_named(text) is None {
                            seq![warning(Detail::RuntimeNotKnown, Subject::Value(i))]
                        } else {
                            Seq::empty()
                        },
                        None => Seq::empty(),
                    },
                    _ => seq![warning(Detail::RuntimeNotConstant, Subject::Value(i))],
                }
            } else if k == "matcher"@ {
                Seq::new(
                    matcher_complaints(value),
                    |n: int| warning(Detail::MatcherNotStrings, Subject::Value(i)),
                )
            } else if k == "regions"@ {
                match value {
                    JsValue::Constant(ConstantValue::Str(_)) => Seq::empty(),
                    JsValue::Array(items) => region_warnings(i, items@),
                    _ => seq![warning(Detail::RegionsNotStrings, Subject::Value(i))],
                }
            } else {
                Seq::empty()
            },
        },
    }
}

/// The complaints about the parts of an object, in their order.
pub open spec fn warnings_of(parts: Seq<ObjectPart>) -> Seq<ConfigWarning>
    decreases parts.len(),
{
    if parts.len() == 0 {
        Seq::empty()
    } else {
        warnings_of(parts.drop_last()) + part_warnings(
            (parts.len() - 1) as usize,
            parts.last(),
        )
    }
}

/// The configuration that an exported value states: that of its parts if it
/// is an object, nothing but the default runtime otherwise.
pub open spec fn config_from(value: JsValue, default_runtime: NextRuntime) -> ConfigView {
    match value {
        JsValue::Object(parts) => config_of(parts@, default_runtime),
        _ => bare_config(default_runtime),
    }
}

/// The complaints about an exported value.
pub open spec fn warnings_from(value: JsValue) -> Seq<ConfigWarning> {
    match value {
        JsValue::Object(parts) => warnings_of(parts@),
        _ => seq![warning(Detail::NotAnObject, Subject::Whole)],
    }
}

/// Reads the regions that a value gives, and appends to `warnings` what
/// there is to complain of in it as the value of part `i`.
fn parse_regions(value: &JsValue, i: usize, warnings: &mut Vec<ConfigWarning>) -> (regions: Option<
    Vec<String>,
>)
    ensures
        match regions {
            Some(list) => regions_of(*value) == Some(list@.map_values(|r: String| r@)),
            None => regions_of(*value) is None,
        },
        final(warnings)@ == old(warnings)@ + match *value {
            JsValue::Constant(ConstantValue::Str(_)) => Seq::empty(),
            JsValue::Array(items) => region_warnings(i, items@),
            _ => seq![warning(Detail::RegionsNotStrings, Subject::Value(i))],
        },
{
    match value {
        JsValue::Constant(ConstantValue::Str(region)) => {
            let mut regions: Vec<String> = Vec::new();
            regions.push(region.clone());
            assert(regions@.map_values(|r: String| r@) =~= seq![region@]);
            assert(warnings@ =~= old(warnings)@ + Seq::<ConfigWarning>::empty());
            Some(regions)
        },
        JsValue::Array(items) => {
            let mut regions: Vec<String> = Vec::new();
            let mut j: usize = 0;
            assert(regions@.map_values(|r: String| r@) =~= regions_among(items@.take(0)));
            assert(warnings@ =~= old(warnings)@ + region_warnings(i, items@.take(0)));
            while j < items.len()
                invariant
                    0 <= j <= items.len(),
                    regions@.map_values(|r: String| r@) == regions_among(items@.take(j as int)),
                    warnings@ == old(warnings)@ + region_warnings(i, items@.take(j as int)),
                decreases items.len() - j,
            {
                let ghost before = regions@.map_values(|r: String| r@);
                proof {
                    assert(items@.take(j + 1).drop_last() =~= items@.take(j as int));
                }
                match items[j].as_str() {
                    Some(region) => {
                        regions.push(String::from_str(region));
                        assert(regions@.map_values(|r: String| r@) =~= before.push(region@));
                    },
                    None => {
                        warnings.push(
                            ConfigWarning {
                                detail: Detail::RegionNotString,
                                subject: Subject::Item(i, j),
                            },
                        );
                        assert(warnings@ =~= old(warnings)@ + region_warnings(
                            i,
                            items@.take(j + 1),
                        ));
                    },
                }
                j = j + 1;
            }
            assert(items@.take(j as int) =~= items@);
            Some(regions)
        },
        _ => {
            warnings.push(
                ConfigWarning { detail: Detail::RegionsNotStrings, subject: Subject::Value(i) },
            );
            assert(warnings@ =~= old(warnings)@ + seq![
                warning(Detail::RegionsNotStrings, Subject::Value(i)),
            ]);
            None
        },
    }
}

/// Reads the configuration that an exported value states, and what there is
/// to complain of in it.
pub fn parse_config_from_js_value(value: &JsValue, default_runtime: NextRuntime) -> (outcome: (
    NextSourceConfig,
    Vec<ConfigWarning>,
))
    ensures
        outcome.0@ == config_from(*value, default_runtime),
        outcome.1@ == warnings_from(*value),
{
    let mut config = NextSourceConfig { runtime: default_runtime, matcher: None, regions: None };
    let mut warnings: Vec<ConfigWarning> = Vec::new();
    if let JsValue::Object(parts) = value {
        proof {
            reveal_strlit("runtime");
            reveal_strlit("matcher");
            reveal_strlit("regions");
        }
        let mut i: usize = 0;
        while i < parts.len()
            invariant
                0 <= i <= parts.len(),
                "runtime"@.len() == 7 && "runtime"@[0] == 'r' && "runtime"@[1] == 'u',
                "matcher"@.len() == 7 && "matcher"@[0] == 'm',
                "regions"@.len() == 7 && "regions"@[0] == 'r' && "regions"@[1] == 'e',
                config@ == config_of(parts@.take(i as int), default_runtime),
                warnings@ == warnings_of(parts@.take(i as int)),
            decreases parts.len() - i,
        {
            let ghost before = warnings@;
            proof {
                assert(parts@.take(i + 1).drop_last() =~= parts@.take(i as int));
            }
            match &parts[i] {
                ObjectPart::Spread(_) => {
                    warnings.push(
                        ConfigWarning {
                            detail: Detail::SpreadNotSupported,
                            subject: Subject::Whole,
                        },
                    );
                    assert(warnings@ =~= before + part_warnings(i, parts@[i as int]));
                },
                ObjectPart::KeyValue(key, value) => {
                    if key.is_text("runtime") {
                        if let JsValue::Constant(_) = value {
                            if let Some(text) = value.as_str() {
                                match parse_runtime(text) {
                                    Some(runtime) => {
                                        config.runtime = runtime;
                                    },
                                    None => {
                                        warnings.push(
                                            ConfigWarning {
                                                detail: Detail::RuntimeNotKnown,
                                                subject: Subject::Value(i),
                                            },
                                        );
                                    },
                                }
                            }
                        } else {
                            warnings.push(
                                ConfigWarning {
                                    detail: Detail::RuntimeNotConstant,
                                    subject: Subject::Value(i),
                                },
                            );
                        }
                        assert(warnings@ =~= before + part_warnings(i, parts@[i as int]));
                    } else if key.is_text("matcher") {
                        let (matcher, complaints) = parse_route_matcher_from_js_value(value);
                        config.matcher = matcher;
                        let mut n: usize = 0;
                        while n < complaints
                            invariant
                                0 <= n <= complaints,
                                warnings@ == before + Seq::new(
                                    n as nat,
                                    |k: int| warning(Detail::MatcherNotStrings, Subject::Value(i)),
                                ),
                            decreases complaints - n,
                        {
                            warnings.push(
                                ConfigWarning {
                                    detail: Detail::MatcherNotStrings,
                                    subject: Subject::Value(i),
                                },
                            );
                            n = n + 1;
                        }
                        assert(warnings@ =~= before + part_warnings(i, parts@[i as int]));
                    } else if key.is_text("regions") {
                        config.regions = parse_regions(value, i, &mut warnings);
                        assert(warnings@ =~= before + part_warnings(i, parts@[i as int]));
                    } else if key.as_str().is_none() {
                        warnings.push(
                            ConfigWarning {
                                detail: Detail::KeyNotConstant,
                                subject: Subject::Key(i),
                            },
                        );
                        assert(warnings@ =~= before + part_warnings(i, parts@[i as int]));
                    } else {
                        assert(warnings@ =~= before + part_warnings(i, parts@[i as int]));
                    }
                },
            }
            i = i + 1;
        }
        assert(parts@.take(i as int) =~= parts@);
    } else {
        warnings.push(ConfigWarning { detail: Detail::NotAnObject, subject: Subject::Whole });
        assert(warnings@ =~= warnings_from(*value));
    }
    (config, warnings)
}

} // verus!
