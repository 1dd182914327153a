//! Windows support code.

pub mod error;
pub mod installed_version;
pub mod known_folder;
pub mod laws;
pub mod platform;
pub mod redistributable;
pub mod vswhere;
