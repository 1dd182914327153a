//! Debian packaging primitives.

pub mod binary_package_control;
pub mod control;
pub mod dependency;
pub mod laws;
pub mod number;
pub mod package_version;
pub mod syntax;
