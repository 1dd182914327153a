//! An embedded Python interpreter: its configuration, its life cycle and the
//! calls into the Python API that each of its operations makes.

pub mod config;
pub mod frozen;
pub mod interpreter;
pub mod laws;
pub mod modules;
pub mod operations;
pub mod procedure;
pub mod promises;
pub mod script;
