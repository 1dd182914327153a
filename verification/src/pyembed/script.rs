//! Scripts of calls into the Python API.
//!
//! An operation of the interpreter is a list of steps. Each step is one call,
//! with what happens where that call fails. A `Procedure` walks through such a
//! list: the caller performs the current step and reports how it went.

use vstd::prelude::*;

use crate::text::i32_text;

verus! {

/// A global configuration variable of the Python runtime.
#[derive(Clone, Copy, Debug, PartialEq, Eq, Structural)]
pub enum Flag {
    /// `Py_DontWriteBytecodeFlag`
    DontWriteBytecode,
    /// `Py_IgnoreEnvironmentFlag`
    IgnoreEnvironment,
    /// `Py_NoSiteFlag`
    NoSite,
    /// `Py_NoUserSiteDirectory`
    NoUserSiteDirectory,
    /// `Py_OptimizeFlag`
    Optimize,
    /// `Py_UnbufferedStdioFlag`
    UnbufferedStdio,
    /// `Py_InspectFlag`
    Inspect,
}

/// A value that is stored in the dictionary of the `__main__` module.
#[derive(Debug, PartialEq, Eq)]
pub enum MainValue<T> {
    /// A string.
    Text(T),
    /// The origin of the module's spec.
    Origin,
    /// The cached path of the module's spec.
    Cached,
    /// The loader of the module's spec.
    Loader,
    /// The module's spec.
    Spec,
    /// `None`
    NoneObject,
}

/// A call into the Python API or the operating system.
///
/// `T` is the type of text: `String` in executable code and `Seq<char>` in
/// specifications.
#[derive(Debug, PartialEq, Eq)]
pub enum Call<T> {
    /// Acquire the GIL and take a handle on the interpreter.
    AcquireGil,
    /// Install the raw memory allocator.
    SetRawAllocator,
    /// Replace the table of frozen modules.
    SetFrozenModules,
    /// Register the built-in extension module of this name.
    AppendInittab(T),
    /// Set the Python home directory.
    SetPythonHome(T),
    /// Set the program name.
    SetProgramName(T),
    /// Set the encoding and the error mode of the standard streams.
    SetStandardStreamEncoding { encoding: T, errors: T },
    /// Set a global configuration variable.
    SetFlag(Flag, i32),
    /// Initialize the interpreter and take a handle on it.
    Initialize,
    /// Set this attribute of `sys` to the process arguments as `str` objects.
    SetSysArguments(T),
    /// Set this attribute of `sys` to the process arguments as `bytes` objects.
    SetSysArgumentBytes(T),
    /// Add this path to the end of `sys.path`.
    AddSysPath(T),
    /// Set this attribute of `sys` to `True`.
    SetSysTrue(T),
    /// Obtain the module of this name, adding it where it is missing.
    AddModule(T),
    /// Import the module of this name.
    Import(T),
    /// Find the spec of the module of this name.
    FindSpec(T),
    /// Obtain this attribute of the module spec.
    GetSpecAttribute(T),
    /// Obtain the code of the module of this name from its loader.
    GetCode(T),
    /// Store a value under this key of the `__main__` dictionary.
    SetMainItem(T, MainValue<T>),
    /// Evaluate the module's code in the `__main__` dictionary.
    EvalCode,
    /// Obtain this attribute of `sys`.
    GetSysAttribute(T),
    /// Call the object that was obtained last, without arguments.
    CallObtained,
    /// Run standard input, under this file name, and discard the result.
    RunStandardInput(T),
    /// Run this code in the `__main__` dictionary.
    RunString(T),
    /// Create this directory and its parents.
    CreateDirectory(T),
    /// Take the object that was obtained last as a dictionary.
    CastDictionary,
    /// Create the file of this name in this directory.
    CreateFile { directory: T, name: T },
    /// Write this text to the file that was created last.
    WriteFile(T),
    /// Print the Python error.
    PrintError,
    /// Finalize the interpreter.
    Finalize,
    /// Perform nothing and fail.
    Reject,
}

/// Why an operation cannot go on.
#[derive(Clone, Copy, Debug, PartialEq, Eq, Structural)]
pub enum Failure {
    /// The path of the executable has no text.
    ExecutableNotUnicode,
    /// A string that goes to the Python API holds a NUL character.
    InteriorNul,
    /// The encoding of the standard streams was refused.
    StandardStreamEncoding,
    /// `sys.argv` could not be set.
    SysArgv,
    /// `sys.argvb` could not be set.
    SysArgvb,
    /// A path for `sys.path` has no text.
    SysPathNotUnicode,
    /// A path could not be added to `sys.path`.
    SysPath,
    /// The mark of a self-contained application could not be set.
    SysFrozen,
    /// The directory for the modules file could not be created.
    CreateDirectory,
    /// The `sys` module could not be obtained.
    SysModule,
    /// `sys.modules` could not be obtained.
    SysModules,
    /// `sys.modules` is not a dictionary.
    SysModulesNotDictionary,
    /// The modules file could not be opened.
    OpenFile,
    /// A key of `sys.modules` is not a string.
    ModuleNameNotString,
    /// The modules file could not be written.
    WriteFile,
    /// The run mode is a module and no module is configured.
    RunModuleNameUndefined,
    /// The run mode is code and no code is configured.
    RunCodeUndefined,
    /// No run mode has this number.
    UnhandledRunMode(i32),
}

impl Failure {
    /// What the failure says.
    pub open spec fn text(self) -> Seq<char> {
        match self {
            Failure::ExecutableNotUnicode => "called `Option::unwrap()` on a `None` value"@,
            Failure::InteriorNul => "called `Result::unwrap()` on an `Err` value"@,
            Failure::StandardStreamEncoding => "unable to set standard stream encoding"@,
            Failure::SysArgv => "unable to set sys.argv"@,
            Failure::SysArgvb => "unable to set sys.argvb"@,
            Failure::SysPathNotUnicode => "called `Option::unwrap()` on a `None` value"@,
            Failure::SysPath => "unable to set sys.path"@,
            Failure::SysFrozen => "unable to set sys.frozen"@,
            Failure::CreateDirectory => "could not create directory for modules"@,
            Failure::SysModule => "could not obtain sys module"@,
            Failure::SysModules => "could not obtain sys.modules"@,
            Failure::SysModulesNotDictionary => "sys.modules is not a dict"@,
            Failure::OpenFile => "could not open file for writing"@,
            Failure::ModuleNameNotString => "module name is not a str"@,
            Failure::WriteFile => "could not write"@,
            Failure::RunModuleNameUndefined => "RUN_MODULE_NAME should be defined"@,
            Failure::RunCodeUndefined => "RUN_CODE should be defined"@,
            Failure::UnhandledRunMode(mode) => "unhandled run mode: "@ + crate::text::signed_decimal(
                mode as int,
            ),
        }
    }

    /// The message of the panic that reports the failure.
    pub fn message(self) -> (message: String)
        ensures
            message@ == self.text(),
    {
        match self {
            Failure::ExecutableNotUnicode => "called `Option::unwrap()` on a `None` value".to_owned(),
            Failure::InteriorNul => "called `Result::unwrap()` on an `Err` value".to_owned(),
            Failure::StandardStreamEncoding => "unable to set standard stream encoding".to_owned(),
            Failure::SysArgv => "unable to set sys.argv".to_owned(),
            Failure::SysArgvb => "unable to set sys.argvb".to_owned(),
            Failure::SysPathNotUnicode => "called `Option::unwrap()` on a `None` value".to_owned(),
            Failure::SysPath => "unable to set sys.path".to_owned(),
            Failure::SysFrozen => "unable to set sys.frozen".to_owned(),
            Failure::CreateDirectory => "could not create directory for modules".to_owned(),
            Failure::SysModule => "could not obtain sys module".to_owned(),
            Failure::SysModules => "could not obtain sys.modules".to_owned(),
            Failure::SysModulesNotDictionary => "sys.modules is not a dict".to_owned(),
            Failure::OpenFile => "could not open file for writing".to_owned(),
            Failure::ModuleNameNotString => "module name is not a str".to_owned(),
            Failure::WriteFile => "could not write".to_owned(),
            Failure::RunModuleNameUndefined => "RUN_MODULE_NAME should be defined".to_owned(),
            Failure::RunCodeUndefined => "RUN_CODE should be defined".to_owned(),
            Failure::UnhandledRunMode(mode) => {
                let mut message = "unhandled run mode: ".to_owned();
                message.append(i32_text(mode).as_str());
                message
            },
        }
    }
}

/// What happens where a call fails.
#[derive(Clone, Copy, Debug, PartialEq, Eq, Structural)]
pub enum OnFailure {
    /// Go on with the next step.
    Ignore,
    /// Leave the next step out and go on with the one after it.
    SkipNext,
    /// Return the Python error.
    ReturnError,
    /// Panic.
    Panic(Failure),
}

/// One step of an operation.
#[derive(Debug, PartialEq, Eq)]
pub struct Step<T> {
    /// The call to make.
    pub call: Call<T>,
    /// What happens where it fails.
    pub on_failure: OnFailure,
}

impl View for MainValue<String> {
    type V = MainValue<Seq<char>>;

    open spec fn view(&self) -> MainValue<Seq<char>> {
        match *self {
            MainValue::Text(text) => MainValue::Text(text@),
            MainValue::Origin => MainValue::Origin,
            MainValue::Cached => MainValue::Cached,
            MainValue::Loader => MainValue::Loader,
            MainValue::Spec => MainValue::Spec,
            MainValue::NoneObject => MainValue::NoneObject,
        }
    }
}

impl View for Call<String> {
    type V = Call<Seq<char>>;

    open spec fn view(&self) -> Call<Seq<char>> {
        match *self {
            Call::AcquireGil => Call::AcquireGil,
            Call::SetRawAllocator => Call::SetRawAllocator,
            Call::SetFrozenModules => Call::SetFrozenModules,
            Call::AppendInittab(name) => Call::AppendInittab(name@),
            Call::SetPythonHome(home) => Call::SetPythonHome(home@),
            Call::SetProgramName(name) => Call::SetProgramName(name@),
            Call::SetStandardStreamEncoding { encoding, errors } => {
                Call::SetStandardStreamEncoding { encoding: encoding@, errors: errors@ }
            },
            Call::SetFlag(flag, value) => Call::SetFlag(flag, value),
            Call::Initialize => Call::Initialize,
            Call::SetSysArguments(name) => Call::SetSysArguments(name@),
            Call::SetSysArgumentBytes(name) => Call::SetSysArgumentBytes(name@),
            Call::AddSysPath(path) => Call::AddSysPath(path@),
            Call::SetSysTrue(name) => Call::SetSysTrue(name@),
            Call::AddModule(name) => Call::AddModule(name@),
            Call::Import(name) => Call::Import(name@),
            Call::FindSpec(name) => Call::FindSpec(name@),
            Call::GetSpecAttribute(name) => Call::GetSpecAttribute(name@),
            Call::GetCode(name) => Call::GetCode(name@),
            Call::SetMainItem(key, value) => Call::SetMainItem(key@, value@),
            Call::EvalCode => Call::EvalCode,
            Call::GetSysAttribute(name) => Call::GetSysAttribute(name@),
            Call::CallObtained => Call::CallObtained,
            Call::RunStandardInput(name) => Call::RunStandardInput(name@),
            Call::RunString(code) => Call::RunString(code@),
            Call::CreateDirectory(path) => Call::CreateDirectory(path@),
            Call::CastDictionary => Call::CastDictionary,
            Call::CreateFile { directory, name } => {
                Call::CreateFile { directory: directory@, name: name@ }
            },
            Call::WriteFile(contents) => Call::WriteFile(contents@),
            Call::PrintError => Call::PrintError,
            Call::Finalize => Call::Finalize,
            Call::Reject => Call::Reject,
        }
    }
}

impl View for Step<String> {
    type V = Step<Seq<char>>;

    open spec fn view(&self) -> Step<Seq<char>> {
        Step { call: self.call@, on_failure: self.on_failure }
    }
}

/// A script, with its texts as sequences of characters.
pub type Script = Seq<Step<Seq<char>>>;

/// The script that a list of steps holds.
pub open spec fn script_of(steps: Seq<Step<String>>) -> Script {
    steps.map_values(|step: Step<String>| step@)
}

/// Adds a step to a list.
pub(crate) fn push_step(steps: &mut Vec<Step<String>>, call: Call<String>, on_failure: OnFailure)
    ensures
        script_of(final(steps)@) == script_of(old(steps)@).push(
            Step { call: call@, on_failure: on_failure },
        ),
{
    let ghost before = steps@;
    let step = Step { call, on_failure };
    steps.push(step);
    assert(script_of(steps@) =~= script_of(before).push(step@));
}

/// Adds the steps of one list to another.
pub(crate) fn push_steps(steps: &mut Vec<Step<String>>, mut more: Vec<Step<String>>)
    ensures
        script_of(final(steps)@) == script_of(old(steps)@) + script_of(more@),
{
    let ghost before = steps@;
    let ghost added = more@;
    steps.append(&mut more);
    assert(script_of(steps@) =~= script_of(before) + script_of(added));
}

/// A list without steps.
pub(crate) fn no_steps() -> (steps: Vec<Step<String>>)
    ensures
        script_of(steps@) == Script::empty(),
{
    let steps: Vec<Step<String>> = Vec::new();
    assert(script_of(steps@) =~= Script::empty());
    steps
}

} // verus!
