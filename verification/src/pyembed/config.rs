//! The configuration of an embedded Python interpreter.

use vstd::prelude::*;

use crate::text;

verus! {

/// A filesystem path, as far as the interpreter reads it: its text where the
/// path is valid Unicode.
#[derive(Debug, PartialEq, Eq)]
pub enum PathText {
    /// A path that is valid Unicode.
    Unicode(String),
    /// A path that has no text.
    NotUnicode,
}

/// The settings that are compiled into an application.
#[derive(Clone, Copy, Debug)]
pub struct CompiledSettings {
    /// Name of encoding for stdio handles.
    pub standard_io_encoding: Option<&'static str>,
    /// Name of encoding error mode for stdio handles.
    pub standard_io_errors: Option<&'static str>,
    /// Name of the program to tell to Python.
    pub program_name: &'static str,
    /// Python optimization level.
    pub opt_level: i32,
    /// Whether to leave out the site.py module.
    pub no_site: bool,
    /// Whether to leave out the user-specific site module.
    pub no_user_site_directory: bool,
    /// Whether to ignore PYTHON* environment variables.
    pub ignore_environment: bool,
    /// Whether to suppress writing of `.pyc` files.
    pub dont_write_bytecode: bool,
    /// Whether stdout and stderr streams should be unbuffered.
    pub unbuffered_stdio: bool,
    /// Whether to use Rust's allocator for the Python raw memory domain.
    pub rust_allocator_raw: bool,
    /// Environment variable holding the directory for a loaded modules file.
    pub write_modules_directory_env: Option<&'static str>,
    /// What to run by default: 0 is a REPL, 1 a module, 2 a string of code.
    pub run_mode: i32,
    /// The module to run in run mode 1.
    pub run_module_name: Option<&'static str>,
    /// The code to run in run mode 2.
    pub run_code: Option<&'static str>,
}

/// Holds the configuration of an embedded Python interpreter.
#[derive(Debug)]
pub struct PythonConfig {
    /// Path to the current executable.
    pub exe: PathText,
    /// Name of the current program to tell to Python.
    pub program_name: String,
    /// Name of encoding for stdio handles.
    pub standard_io_encoding: Option<String>,
    /// Name of encoding error mode for stdio handles.
    pub standard_io_errors: Option<String>,
    /// Python optimization level.
    pub opt_level: i32,
    /// Whether to load our custom frozen importlib bootstrap modules.
    pub use_custom_importlib: bool,
    /// Filesystem paths to add to sys.path.
    ///
    /// `.` will resolve to the path of the application at run-time.
    pub sys_paths: Vec<PathText>,
    /// Whether to load the site.py module at initialization time.
    pub import_site: bool,
    /// Whether to load a user-specific site module at initialization time.
    pub import_user_site: bool,
    /// Whether to ignore various PYTHON* environment variables.
    pub ignore_python_env: bool,
    /// Whether to suppress writing of `.pyc` files when importing `.py`
    /// files from the filesystem. This is typically irrelevant since modules
    /// are imported from memory.
    pub dont_write_bytecode: bool,
    /// Whether stdout and stderr streams should be unbuffered.
    pub unbuffered_stdio: bool,
    /// Whether to set sys.argvb with bytes versions of process arguments.
    ///
    /// On Windows, bytes will be UTF-16. On POSIX, bytes will be raw char*
    /// values passed to `int main()`.
    pub argvb: bool,
    /// Whether to use Rust's global memory allocator for the Python raw
    /// memory domain.
    pub rust_allocator_raw: bool,
    /// Environment variable holding the directory to write a loaded modules file.
    ///
    /// If this value is set and the environment it refers to is set,
    /// on interpreter shutdown, we will write a `modules-<random>` file to
    /// the directory specified containing a `\n` delimited list of modules
    /// loaded in `sys.modules`.
    pub write_modules_directory_env: Option<String>,
}

/// An owned copy of an optional string slice.
pub(crate) fn owned(value: Option<&str>) -> (copy: Option<String>)
    ensures
        text::optional_text(copy) == text::optional_slice(value),
{
    match value {
        Some(text) => Some(text.to_owned()),
        None => None,
    }
}

impl PythonConfig {
    /// The configuration that `settings` describe, for the executable at `exe`.
    pub open spec fn describes(&self, exe: PathText, settings: &CompiledSettings) -> bool {
        &&& self.exe == exe
        &&& self.program_name@ == settings.program_name@
        &&& text::optional_text(self.standard_io_encoding) == text::optional_slice(
            settings.standard_io_encoding,
        )
        &&& text::optional_text(self.standard_io_errors) == text::optional_slice(settings.standard_io_errors)
        &&& self.opt_level == settings.opt_level
        &&& self.use_custom_importlib
        &&& self.sys_paths@ == Seq::<PathText>::empty()
        &&& self.import_site == !settings.no_site
        &&& self.import_user_site == !settings.no_user_site_directory
        &&& self.ignore_python_env == settings.ignore_environment
        &&& self.dont_write_bytecode == settings.dont_write_bytecode
        &&& self.unbuffered_stdio == settings.unbuffered_stdio
        &&& !self.argvb
        &&& self.rust_allocator_raw == settings.rust_allocator_raw
        &&& text::optional_text(self.write_modules_directory_env) == text::optional_slice(
            settings.write_modules_directory_env,
        )
    }

    /// Obtain the PythonConfig with the settings compiled into the binary,
    /// for the executable at `exe`.
    pub fn default(exe: PathText, settings: &CompiledSettings) -> (config: PythonConfig)
        ensures
            config.describes(exe, settings),
    {
        PythonConfig {
            exe,
            program_name: settings.program_name.to_owned(),
            standard_io_encoding: owned(settings.standard_io_encoding),
            standard_io_errors: owned(settings.standard_io_errors),
            opt_level: settings.opt_level,
            use_custom_importlib: true,
            sys_paths: Vec::new(),
            import_site: !settings.no_site,
            import_user_site: !settings.no_user_site_directory,
            ignore_python_env: settings.ignore_environment,
            dont_write_bytecode: settings.dont_write_bytecode,
            unbuffered_stdio: settings.unbuffered_stdio,
            argvb: false,
            rust_allocator_raw: settings.rust_allocator_raw,
            write_modules_directory_env: owned(settings.write_modules_directory_env),
        }
    }
}

} // verus!
