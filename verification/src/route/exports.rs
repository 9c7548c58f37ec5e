//! The exported declarations of a source file, and the configuration that
//! they state.

use vstd::prelude::*;

use crate::route::js_value::JsValue;
use crate::route::runtime::NextRuntime;
use crate::route::source_config::{
    bare_config, config_from, parse_config_from_js_value, parse_runtime, runtime_named,
    warnings_from, ConfigView, ConfigWarning, NextSourceConfig,
};
use crate::text::compare::same_text;

verus! {

/// What an exported variable is set to.
#[derive(Debug)]
pub struct Initializer {
    /// The text, where the initializer is a string literal.
    pub literal: Option<String>,
    /// What the initializer evaluates to.
    pub value: JsValue,
}

/// A variable that a source file exports.
#[derive(Debug)]
pub struct ExportedVar {
    pub name: String,
    pub init: Option<Initializer>,
}

/// What is wrong with an exported declaration.
#[derive(Debug, Clone, Copy, PartialEq, Eq, Structural)]
pub enum SourceDetail {
    /// `config` is exported without a value.
    ConfigWithoutInitializer,
    /// `runtime` is exported without a value.
    RuntimeWithoutInitializer,
    /// `runtime` is exported with something that is no string literal, or
    /// with one that names no runtime.
    RuntimeNotKnown,
    /// Something is wrong within the value of `config`.
    Config(ConfigWarning),
}

impl SourceDetail {
    /// The words of the complaint.
    pub open spec fn text(self) -> Seq<char> {
        match self {
            SourceDetail::ConfigWithoutInitializer => "The exported config object must contain an variable initializer."@,
            SourceDetail::RuntimeWithoutInitializer => "The exported segment runtime option must contain an variable initializer."@,
            SourceDetail::RuntimeNotKnown => "The runtime property must be either \"nodejs\" or \"edge\"."@,
            SourceDetail::Config(warning) => warning.detail.text(),
        }
    }

    /// The words of the complaint.
    pub fn message(&self) -> (text: &'static str)
        ensures
            text@ == self.text(),
    {
        match self {
            SourceDetail::ConfigWithoutInitializer => "The exported config object must contain an variable initializer.",
            SourceDetail::RuntimeWithoutInitializer => "The exported segment runtime option must contain an variable initializer.",
            SourceDetail::RuntimeNotKnown => "The runtime property must be either \"nodejs\" or \"edge\".",
            SourceDetail::Config(warning) => warning.detail.message(),
        }
    }
}

/// A complaint about the exported declaration with the index `declaration`.
#[derive(Debug, Clone, Copy, PartialEq, Eq, Structural)]
pub struct SourceWarning {
    pub declaration: usize,
    pub detail: SourceDetail,
}

/// Whether a declaration settles the configuration: `config` with a value,
/// or `runtime` with a string literal.
pub open spec fn decides(decl: ExportedVar) -> bool {
    ||| decl.name@ == "config"@ && decl.init is Some
    ||| decl.name@ == "runtime"@ && decl.init is Some && decl.init->0.literal is Some
}

/// The configuration that a declaration settles: what the value of `config`
/// states, over `default_runtime`; or nothing but the runtime that `runtime`
/// names, which is `NodeJs` where it names none.
pub open spec fn decided_config(decl: ExportedVar, default_runtime: NextRuntime) -> ConfigView {
    if decl.name@ == "config"@ {
        config_from(decl.init->0.value, default_runtime)
    } else {
        bare_config(
            match runtime_named(decl.init->0.literal->0@) {
                Some(runtime) => runtime,
                None => NextRuntime::NodeJs,
            },
        )
    }
}

/// The complaints about the declaration that settles the configuration.
pub open spec fn decided_warnings(i: usize, decl: ExportedVar) -> Seq<SourceWarning> {
    if decl.name@ == "config"@ {
        warnings_from(decl.init->0.value).map_values(
            |w: ConfigWarning| SourceWarning { declaration: i, detail: SourceDetail::Config(w) },
        )
    } else if runtime_named(decl.init->0.literal->0@) is None {
        seq![SourceWarning { declaration: i, detail: SourceDetail::RuntimeNotKnown }]
    } else {
        Seq::empty()
    }
}

/// The complaints about a declaration that settles nothing.
pub open spec fn passing_warnings(i: usize, decl: ExportedVar) -> Seq<SourceWarning> {
    if decl.name@ == "config"@ {
        seq![SourceWarning { declaration: i, detail: SourceDetail::ConfigWithoutInitializer }]
    } else if decl.name@ == "runtime"@ {
        if decl.init is Some {
            seq![SourceWarning { declaration: i, detail: SourceDetail::RuntimeNotKnown }]
        } else {
            seq![SourceWarning { declaration: i, detail: SourceDetail::RuntimeWithoutInitializer }]
        }
    } else {
        Seq::empty()
    }
}

/// The complaints about declarations of which none settles anything, in
/// their order.
pub open spec fn passed_warnings(decls: Seq<ExportedVar>) -> Seq<SourceWarning>
    decreases decls.len(),
{
    if decls.len() == 0 {
        Seq::empty()
    } else {
        passed_warnings(decls.drop_last()) + passing_warnings(
            (decls.len() - 1) as usize,
            decls.last(),
        )
    }
}

/// Declaration `k` is the first that settles the configuration.
pub open spec fn first_deciding(decls: Seq<ExportedVar>, k: int) -> bool {
    &&& 0 <= k < decls.len()
    &&& decides(decls[k])
    &&& forall|j: int| 0 <= j < k ==> !decides(#[trigger] decls[j])
}

/// Reads the configuration that the exported declarations of a source file
/// state. The first declaration that settles it is the last that is looked
/// at; where none does, the configuration is nothing but `default_runtime`.
/// Every declaration looked at may add complaints.
pub fn parse_config_from_source(decls: &Vec<ExportedVar>, default_runtime: NextRuntime) -> (outcome:
    (NextSourceConfig, Vec<SourceWarning>))
    ensures
        (exists|k: int|
            {
                &&& first_deciding(decls@, k)
                &&& outcome.0@ == decided_config(decls@[k], default_runtime)
                &&& outcome.1@ == passed_warnings(decls@.take(k)) + decided_warnings(
                    k as usize,
                    decls@[k],
                )
            }) || {
            &&& forall|k: int| 0 <= k < decls@.len() ==> !decides(#[trigger] decls@[k])
            &&& outcome.0@ == bare_config(default_runtime)
            &&& outcome.1@ == passed_warnings(decls@)
        },
{
    let mut warnings: Vec<SourceWarning> = Vec::new();
    let mut i: usize = 0;
    while i < decls.len()
        invariant
            0 <= i <= decls.len(),
            forall|j: int| 0 <= j < i ==> !decides(#[trigger] decls@[j]),
            warnings@ == passed_warnings(decls@.take(i as int)),
        decreases decls.len() - i,
    {
        let ghost before = warnings@;
        proof {
            assert(decls@.take(i + 1).drop_last() =~= decls@.take(i as int));
        }
        let decl = &decls[i];
        if same_text(decl.name.as_str(), "config") {
            match &decl.init {
                Some(init) => {
                    let (config, found) = parse_config_from_js_value(&init.value, default_runtime);
                    let mut n: usize = 0;
                    while n < found.len()
                        invariant
                            0 <= n <= found.len(),
                            warnings@ == before + found@.take(n as int).map_values(
                                |w: ConfigWarning|
                                    SourceWarning { declaration: i, detail: SourceDetail::Config(w) },
                            ),
                        decreases found.len() - n,
                    {
                        warnings.push(
                            SourceWarning { declaration: i, detail: SourceDetail::Config(found[n]) },
                        );
                        assert(found@.take(n + 1) =~= found@.take(n as int).push(found@[n as int]));
                        n = n + 1;
                    }
                    assert(found@.take(n as int) =~= found@);
                    assert(first_deciding(decls@, i as int));
                    return (config, warnings);
                },
                None => {
                    warnings.push(
                        SourceWarning {
                            declaration: i,
                            detail: SourceDetail::ConfigWithoutInitializer,
                        },
                    );
                },
            }
        } else if same_text(decl.name.as_str(), "runtime") {
            match &decl.init {
                Some(init) => {
                    match &init.literal {
                        Some(text) => {
                            let mut config = NextSourceConfig::default();
                            match parse_runtime(text.as_str()) {
                                Some(runtime) => {
                                    config.runtime = runtime;
                                },
                                None => {
                                    warnings.push(
                                        SourceWarning {
                                            declaration: i,
                                            detail: SourceDetail::RuntimeNotKnown,
                                        },
                                    );
                                },
                            }
                            assert(warnings@ =~= before + decided_warnings(i, decls@[i as int]));
                            assert(first_deciding(decls@, i as int));
                            return (config, warnings);
                        },
                        None => {
                            warnings.push(
                                SourceWarning {
                                    declaration: i,
                                    detail: SourceDetail::RuntimeNotKnown,
                                },
                            );
                        },
                    }
                },
                None => {
                    warnings.push(
                        SourceWarning {
                            declaration: i,
                            detail: SourceDetail::RuntimeWithoutInitializer,
                        },
                    );
                },
            }
        }
        assert(warnings@ =~= before + passing_warnings(i, decls@[i as int]));
        i = i + 1;
    }
    assert(decls@.take(i as int) =~= decls@);
    (NextSourceConfig { runtime: default_runtime, matcher: None, regions: None }, warnings)
}

} // verus!
