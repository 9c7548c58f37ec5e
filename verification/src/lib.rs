//! The rules of a build system's file-system walk and of its route
//! tooling, each with its contract.
//!
//! `glob` holds the incremental glob traversal: the rules by which a
//! directory walk matches entries against a glob, prunes subtrees, follows
//! symbolic links and refuses the links that would make the walk endless.
//! `route` holds what is computed about routes, `template` the filling of
//! source templates, and `text` the comparisons of strings that all of them
//! use.

pub mod glob;
pub mod route;
pub mod template;
pub mod text;
