//! The runtimes that a route can be built for.

use vstd::prelude::*;

verus! {

/// The runtime that a route is built for.
#[derive(PartialEq, Eq, Structural, Clone, Copy, Debug, Hash, PartialOrd, Ord)]
pub enum NextRuntime {
    NodeJs,
    Edge,
}

impl Default for NextRuntime {
    fn default() -> (runtime: Self)
        ensures
            runtime == NextRuntime::NodeJs,
    {
        NextRuntime::NodeJs
    }
}

impl NextRuntime {
    /// The one export condition of the runtime.
    pub open spec fn condition(self) -> Seq<char> {
        match self {
            NextRuntime::NodeJs => "node"@,
            NextRuntime::Edge => "edge-light"@,
        }
    }

    /// The export conditions under which packages are resolved for the
    /// runtime.
    pub fn conditions(&self) -> (list: &'static [&'static str])
        ensures
            list@.len() == 1,
            list@[0]@ == self.condition(),
    {
        match self {
            NextRuntime::NodeJs => &["node"],
            NextRuntime::Edge => &["edge-light"],
        }
    }
}

} // verus!
