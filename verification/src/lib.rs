//! Verified core of a Python application packager: reading Debian binary
//! package control files, locating the Visual C++ runtime on Windows, and
//! driving an embedded Python interpreter.

pub mod debian;
pub mod pyembed;
pub mod text;
pub mod windows;
