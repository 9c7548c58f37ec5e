//! Routes of an application: their paths, runtimes and conditions, the
//! names defined for them, and the configuration that their source files
//! export.

pub mod asset_path;
pub mod conditions;
pub mod defines;
pub mod exports;
pub mod js_value;
pub mod matcher;
pub mod pathname;
pub mod runtime;
pub mod source_config;
