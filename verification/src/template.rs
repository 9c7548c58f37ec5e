//! Templates of generated source files.

pub mod fill;
pub mod imports;
pub mod load;
pub mod pattern;
pub mod substitute;
