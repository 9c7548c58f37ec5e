//! Conditions on where a module lies, by which the build decides how to
//! treat it.

use vstd::prelude::*;
use vstd::string::*;

verus! {

/// A condition on the path of a module.
#[derive(Debug)]
pub enum ContextCondition {
    All(Vec<ContextCondition>),
    Any(Vec<ContextCondition>),
    Not(Box<ContextCondition>),
    InDirectory(String),
    InPath(String),
}

impl ContextCondition {
    /// The condition is `InDirectory` of this directory.
    pub open spec fn is_in_directory(self, directory: Seq<char>) -> bool {
        self matches ContextCondition::InDirectory(d) && d@ == directory
    }

    /// The condition is `InPath` of this path.
    pub open spec fn is_in_path(self, path: Seq<char>) -> bool {
        self matches ContextCondition::InPath(p) && p@ == path
    }

    /// The condition is `Not` of an `InPath` of this path.
    pub open spec fn is_not_in_path(self, path: Seq<char>) -> bool {
        self matches ContextCondition::Not(inner) && inner.is_in_path(path)
    }

    /// The condition is `Not` of `Any` of `InDirectory` of each package's
    /// directory below `node_modules`, in the order of the packages.
    pub open spec fn is_no_package_of(self, packages: Seq<Seq<char>>) -> bool {
        &&& self matches ContextCondition::Not(inner)
        &&& *inner matches ContextCondition::Any(list)
        &&& list@.len() == packages.len()
        &&& forall|i: int|
            0 <= i < packages.len() ==> (#[trigger] list@[i]).is_in_directory(
                "node_modules/"@ + packages[i],
            )
    }

    /// The condition under which a module is foreign code.
    pub open spec fn is_foreign_code(
        self,
        template_directory: Seq<char>,
        packages: Seq<Seq<char>>,
    ) -> bool {
        &&& self matches ContextCondition::All(parts)
        &&& parts@.len() == 3
        &&& parts@[0].is_in_directory("node_modules"@)
        &&& parts@[1].is_not_in_path(template_directory)
        &&& parts@[2].is_no_package_of(packages)
    }

    /// The condition under which a module is an internal asset.
    pub open spec fn is_internal_asset(
        self,
        next_root: Seq<char>,
        runtime_root: Seq<char>,
        node_root: Seq<char>,
    ) -> bool {
        &&& self matches ContextCondition::Any(parts)
        &&& parts@.len() == 3
        &&& parts@[0].is_in_path(next_root)
        &&& parts@[1].is_in_path(runtime_root)
        &&& parts@[2].is_in_path(node_root)
    }
}

/// The condition under which a module is foreign code, to which the
/// project's own settings do not apply: it lies in `node_modules`, not among
/// the framework's templates, and in none of the packages that are
/// transpiled.
pub fn foreign_code_context_condition(
    template_directory: String,
    transpiled_packages: &Vec<String>,
) -> (condition: ContextCondition)
    ensures
        condition.is_foreign_code(
            template_directory@,
            transpiled_packages@.map_values(|p: String| p@),
        ),
{
    let not_next_template_dir = ContextCondition::Not(
        Box::new(ContextCondition::InPath(template_directory)),
    );
    let mut packages: Vec<ContextCondition> = Vec::new();
    let mut i: usize = 0;
    while i < transpiled_packages.len()
        invariant
            0 <= i <= transpiled_packages.len(),
            packages@.len() == i,
            forall|j: int|
                0 <= j < i ==> (#[trigger] packages@[j]).is_in_directory(
                    "node_modules/"@ + transpiled_packages@[j]@,
                ),
        decreases transpiled_packages.len() - i,
    {
        let mut directory = String::from_str("node_modules/");
        directory.append(transpiled_packages[i].as_str());
        packages.push(ContextCondition::InDirectory(directory));
        i = i + 1;
    }
    let mut parts: Vec<ContextCondition> = Vec::new();
    parts.push(ContextCondition::InDirectory(String::from_str("node_modules")));
    parts.push(not_next_template_dir);
    parts.push(ContextCondition::Not(Box::new(ContextCondition::Any(packages))));
    ContextCondition::All(parts)
}

/// The condition under which a module is an internal asset, to which no
/// transform of the user's applies: it lies below the root of one of the
/// three embedded file systems.
pub fn internal_assets_conditions(next_root: String, runtime_root: String, node_root: String) -> (condition:
    ContextCondition)
    ensures
        condition.is_internal_asset(next_root@, runtime_root@, node_root@),
{
    let mut parts: Vec<ContextCondition> = Vec::new();
    parts.push(ContextCondition::InPath(next_root));
    parts.push(ContextCondition::InPath(runtime_root));
    parts.push(ContextCondition::InPath(node_root));
    ContextCondition::Any(parts)
}

} // verus!
