//! The scripts of the interpreter's operations.

use vstd::prelude::*;

use crate::pyembed::config::{CompiledSettings, PathText, PythonConfig};
use crate::pyembed::script;
use crate::pyembed::script::{
    no_steps, push_step, push_steps, Call, Failure, Flag, MainValue, OnFailure, Script, Step,
};
use crate::text::{has_char, same_text};

verus! {

/// A step of a script.
pub open spec fn step(call: Call<Seq<char>>, on_failure: OnFailure) -> Step<Seq<char>> {
    Step { call, on_failure }
}

/// A script that stands only under a condition.
pub open spec fn only_if(condition: bool, script: Script) -> Script {
    if condition {
        script
    } else {
        Script::empty()
    }
}

/// A condition as a value of a configuration variable.
pub open spec fn flag_value(set: bool) -> i32 {
    if set {
        1
    } else {
        0
    }
}

/// Sets the home directory to the path of the executable, which has to be
/// Unicode.
pub open spec fn home_step(exe: PathText) -> Step<Seq<char>> {
    match exe {
        PathText::Unicode(text) => step(Call::SetPythonHome(text@), OnFailure::Ignore),
        PathText::NotUnicode => step(
            Call::Reject,
            OnFailure::Panic(Failure::ExecutableNotUnicode),
        ),
    }
}

/// Sets the encoding of the standard streams where both the encoding and the
/// error mode are configured. Neither may hold a NUL character.
pub open spec fn stream_script(encoding: Option<String>, errors: Option<String>) -> Script {
    match (encoding, errors) {
        (Some(encoding), Some(errors)) => if encoding@.contains('\0') || errors@.contains('\0') {
            seq![step(Call::Reject, OnFailure::Panic(Failure::InteriorNul))]
        } else {
            seq![
                step(
                    Call::SetStandardStreamEncoding { encoding: encoding@, errors: errors@ },
                    OnFailure::Panic(Failure::StandardStreamEncoding),
                ),
            ]
        },
        _ => Script::empty(),
    }
}

/// The calls that replace the memory allocator and the import machinery.
pub open spec fn replacement_script(config: &PythonConfig, raw_allocator: bool) -> Script {
    only_if(raw_allocator, seq![step(Call::SetRawAllocator, OnFailure::Ignore)]) + only_if(
        config.use_custom_importlib,
        seq![
            step(Call::SetFrozenModules, OnFailure::Ignore),
            step(Call::AppendInittab("_pymodules"@), OnFailure::Ignore),
        ],
    )
}

/// The calls that name the home directory and the program.
pub open spec fn name_script(config: &PythonConfig) -> Script {
    seq![
        home_step(config.exe),
        step(Call::SetProgramName(config.program_name@), OnFailure::Ignore),
    ]
}

/// The calls that set the configuration variables.
pub open spec fn flag_script(config: &PythonConfig) -> Script {
    seq![
        step(
            Call::SetFlag(Flag::DontWriteBytecode, flag_value(config.dont_write_bytecode)),
            OnFailure::Ignore,
        ),
        step(
            Call::SetFlag(Flag::IgnoreEnvironment, flag_value(config.ignore_python_env)),
            OnFailure::Ignore,
        ),
        step(Call::SetFlag(Flag::NoSite, flag_value(!config.import_site)), OnFailure::Ignore),
        step(
            Call::SetFlag(Flag::NoUserSiteDirectory, flag_value(!config.import_user_site)),
            OnFailure::Ignore,
        ),
        step(Call::SetFlag(Flag::Optimize, config.opt_level), OnFailure::Ignore),
        step(
            Call::SetFlag(Flag::UnbufferedStdio, flag_value(config.unbuffered_stdio)),
            OnFailure::Ignore,
        ),
    ]
}

/// The calls that prepare the initialization.
pub open spec fn preparation_script(config: &PythonConfig, raw_allocator: bool) -> Script {
    replacement_script(config, raw_allocator) + name_script(config) + stream_script(
        config.standard_io_encoding,
        config.standard_io_errors,
    ) + flag_script(config)
}

/// A path for `sys.path`, where `.` stands for the path of the application.
pub open spec fn resolved(path: PathText, exe: PathText) -> PathText {
    match path {
        PathText::Unicode(text) => if text@ == "."@ {
            exe
        } else {
            path
        },
        PathText::NotUnicode => path,
    }
}

/// Adds a path to `sys.path`, which has to be Unicode.
pub open spec fn sys_path_step(path: PathText, exe: PathText) -> Step<Seq<char>> {
    match resolved(path, exe) {
        PathText::Unicode(text) => step(
            Call::AddSysPath(text@),
            OnFailure::Panic(Failure::SysPath),
        ),
        PathText::NotUnicode => step(Call::Reject, OnFailure::Panic(Failure::SysPathNotUnicode)),
    }
}

/// The calls that add paths to `sys.path`, one for each path, in their order.
pub open spec fn sys_path_script(paths: Seq<PathText>, exe: PathText) -> Script {
    paths.map_values(|path: PathText| sys_path_step(path, exe))
}

/// The calls that tell the initialized interpreter about the arguments of the
/// process.
pub open spec fn argument_script(argvb: bool) -> Script {
    seq![step(Call::SetSysArguments("argv"@), OnFailure::Panic(Failure::SysArgv))] + only_if(
        argvb,
        seq![step(Call::SetSysArgumentBytes("argvb"@), OnFailure::Panic(Failure::SysArgvb))],
    )
}

/// Marks the application as a self-contained one.
pub open spec fn frozen_step() -> Step<Seq<char>> {
    step(Call::SetSysTrue("frozen"@), OnFailure::Panic(Failure::SysFrozen))
}

/// The calls that tell the initialized interpreter about the process.
pub open spec fn process_script(config: &PythonConfig) -> Script {
    argument_script(config.argvb) + sys_path_script(config.sys_paths@, config.exe) + seq![
        frozen_step(),
    ]
}

/// The calls that initialize an interpreter.
pub open spec fn initialization_script(config: &PythonConfig, raw_allocator: bool) -> Script {
    preparation_script(config, raw_allocator) + seq![step(Call::Initialize, OnFailure::Ignore)]
        + process_script(config)
}

/// The calls that make sure that there is a handle on the interpreter.
pub open spec fn acquire_script(py: bool) -> Script {
    only_if(!py, seq![step(Call::AcquireGil, OnFailure::Ignore)])
}

/// The calls that run a module as `__main__`.
pub open spec fn module_script(name: Seq<char>) -> Script {
    seq![
        step(Call::AddModule("__main__"@), OnFailure::ReturnError),
        step(Call::Import("importlib.util"@), OnFailure::ReturnError),
        step(Call::FindSpec(name), OnFailure::ReturnError),
        step(Call::GetSpecAttribute("loader"@), OnFailure::ReturnError),
        step(Call::GetCode(name), OnFailure::ReturnError),
        step(Call::GetSpecAttribute("origin"@), OnFailure::ReturnError),
        step(Call::GetSpecAttribute("cached"@), OnFailure::ReturnError),
        step(
            Call::SetMainItem("__name__"@, MainValue::Text("__main__"@)),
            OnFailure::ReturnError,
        ),
        step(Call::SetMainItem("__file__"@, MainValue::Origin), OnFailure::ReturnError),
        step(Call::SetMainItem("__cached__"@, MainValue::Cached), OnFailure::ReturnError),
        step(Call::SetMainItem("__doc__"@, MainValue::NoneObject), OnFailure::ReturnError),
        step(Call::SetMainItem("__loader__"@, MainValue::Loader), OnFailure::ReturnError),
        step(Call::SetMainItem("__spec__"@, MainValue::Spec), OnFailure::ReturnError),
        step(Call::EvalCode, OnFailure::ReturnError),
    ]
}

/// The calls that run a REPL.
pub open spec fn repl_script() -> Script {
    seq![
        step(Call::SetFlag(Flag::Inspect, 0), OnFailure::Ignore),
        step(Call::Import("readline"@), OnFailure::Ignore),
        step(Call::Import("sys"@), OnFailure::ReturnError),
        step(Call::GetSysAttribute("__interactivehook__"@), OnFailure::SkipNext),
        step(Call::CallObtained, OnFailure::ReturnError),
        step(Call::RunStandardInput("<stdin>"@), OnFailure::Ignore),
    ]
}

/// The calls that run a string of code, which may not hold a NUL character.
pub open spec fn code_script(code: Seq<char>) -> Script {
    if code.contains('\0') {
        seq![step(Call::Reject, OnFailure::Panic(Failure::InteriorNul))]
    } else {
        seq![
            step(Call::AddModule("__main__"@), OnFailure::ReturnError),
            step(Call::RunString(code), OnFailure::ReturnError),
        ]
    }
}

/// The calls that run what an application is configured to run.
pub open spec fn default_script(settings: &CompiledSettings) -> Script {
    if settings.run_mode == 0 {
        repl_script()
    } else if settings.run_mode == 1 {
        match settings.run_module_name {
            Some(name) => module_script(name@),
            None => seq![
                step(Call::Reject, OnFailure::Panic(Failure::RunModuleNameUndefined)),
            ],
        }
    } else if settings.run_mode == 2 {
        match settings.run_code {
            Some(code) => code_script(code@),
            None => seq![step(Call::Reject, OnFailure::Panic(Failure::RunCodeUndefined))],
        }
    } else {
        seq![
            step(
                Call::Reject,
                OnFailure::Panic(Failure::UnhandledRunMode(settings.run_mode)),
            ),
        ]
    }
}

/// A condition as a value of a configuration variable.
fn set(condition: bool) -> (value: i32)
    ensures
        value == flag_value(condition),
{
    if condition {
        1
    } else {
        0
    }
}

/// The steps of `replacement_script`.
fn replacement_steps(config: &PythonConfig, raw_allocator: bool) -> (steps: Vec<Step<String>>)
    ensures
        script::script_of(steps@) == replacement_script(config, raw_allocator),
{
    let mut steps = no_steps();
    if raw_allocator {
        push_step(&mut steps, Call::SetRawAllocator, OnFailure::Ignore);
    }
    if config.use_custom_importlib {
        push_step(&mut steps, Call::SetFrozenModules, OnFailure::Ignore);
        push_step(&mut steps, Call::AppendInittab("_pymodules".to_owned()), OnFailure::Ignore);
    }
    assert(script::script_of(steps@) =~= replacement_script(config, raw_allocator));
    steps
}

/// The steps of `name_script`.
fn name_steps(config: &PythonConfig) -> (steps: Vec<Step<String>>)
    ensures
        script::script_of(steps@) == name_script(config),
{
    let mut steps = no_steps();
    match &config.exe {
        PathText::Unicode(text) => {
            push_step(&mut steps, Call::SetPythonHome(text.clone()), OnFailure::Ignore);
        },
        PathText::NotUnicode => {
            push_step(
                &mut steps,
                Call::Reject,
                OnFailure::Panic(Failure::ExecutableNotUnicode),
            );
        },
    }
    push_step(&mut steps, Call::SetProgramName(config.program_name.clone()), OnFailure::Ignore);
    assert(script::script_of(steps@) =~= name_script(config));
    steps
}

/// The steps of `stream_script`.
fn stream_steps(encoding: &Option<String>, errors: &Option<String>) -> (steps: Vec<Step<String>>)
    ensures
        script::script_of(steps@) == stream_script(*encoding, *errors),
{
    let mut steps = no_steps();
    if let Some(encoding) = encoding {
        if let Some(errors) = errors {
            if has_char(encoding.as_str(), '\0') || has_char(errors.as_str(), '\0') {
                push_step(&mut steps, Call::Reject, OnFailure::Panic(Failure::InteriorNul));
            } else {
                push_step(
                    &mut steps,
                    Call::SetStandardStreamEncoding {
                        encoding: encoding.clone(),
                        errors: errors.clone(),
                    },
                    OnFailure::Panic(Failure::StandardStreamEncoding),
                );
            }
        }
    }
    assert(script::script_of(steps@) =~= stream_script(*encoding, *errors));
    steps
}

/// The steps of `flag_script`.
fn flag_steps(config: &PythonConfig) -> (steps: Vec<Step<String>>)
    ensures
        script::script_of(steps@) == flag_script(config),
{
    let mut steps = no_steps();
    push_step(
        &mut steps,
        Call::SetFlag(Flag::DontWriteBytecode, set(config.dont_write_bytecode)),
        OnFailure::Ignore,
    );
    push_step(
        &mut steps,
        Call::SetFlag(Flag::IgnoreEnvironment, set(config.ignore_python_env)),
        OnFailure::Ignore,
    );
    push_step(
        &mut steps,
        Call::SetFlag(Flag::NoSite, set(!config.import_site)),
        OnFailure::Ignore,
    );
    push_step(
        &mut steps,
        Call::SetFlag(Flag::NoUserSiteDirectory, set(!config.import_user_site)),
        OnFailure::Ignore,
    );
    push_step(&mut steps, Call::SetFlag(Flag::Optimize, config.opt_level), OnFailure::Ignore);
    push_step(
        &mut steps,
        Call::SetFlag(Flag::UnbufferedStdio, set(config.unbuffered_stdio)),
        OnFailure::Ignore,
    );
    assert(script::script_of(steps@) =~= flag_script(config));
    steps
}

/// The steps of `preparation_script`.
fn preparation_steps(config: &PythonConfig, raw_allocator: bool) -> (steps: Vec<Step<String>>)
    ensures
        script::script_of(steps@) == preparation_script(config, raw_allocator),
{
    let mut steps = replacement_steps(config, raw_allocator);
    push_steps(&mut steps, name_steps(config));
    push_steps(
        &mut steps,
        stream_steps(&config.standard_io_encoding, &config.standard_io_errors),
    );
    push_steps(&mut steps, flag_steps(config));
    steps
}

/// Adds the step of `sys_path_step`.
fn push_sys_path(steps: &mut Vec<Step<String>>, path: &PathText, exe: &PathText)
    ensures
        script::script_of(final(steps)@) == script::script_of(old(steps)@).push(
            sys_path_step(*path, *exe),
        ),
{
    let path = match path {
        PathText::Unicode(text) => if same_text(text.as_str(), ".") {
            exe
        } else {
            path
        },
        PathText::NotUnicode => path,
    };
    match path {
        PathText::Unicode(text) => {
            push_step(
                steps,
                Call::AddSysPath(text.clone()),
                OnFailure::Panic(Failure::SysPath),
            );
        },
        PathText::NotUnicode => {
            push_step(steps, Call::Reject, OnFailure::Panic(Failure::SysPathNotUnicode));
        },
    }
}

/// The steps of `sys_path_script`.
fn sys_path_steps(paths: &Vec<PathText>, exe: &PathText) -> (steps: Vec<Step<String>>)
    ensures
        script::script_of(steps@) == sys_path_script(paths@, *exe),
{
    let mut steps = no_steps();
    assert(sys_path_script(paths@.take(0), *exe) =~= Script::empty());
    for i in 0..paths.len()
        invariant
            script::script_of(steps@) == sys_path_script(paths@.take(i as int), *exe),
    {
        push_sys_path(&mut steps, &paths[i], exe);
        assert(sys_path_script(paths@.take(i + 1), *exe) =~= sys_path_script(
            paths@.take(i as int),
            *exe,
        ).push(sys_path_step(paths@[i as int], *exe)));
    }
    assert(paths@.take(paths@.len() as int) =~= paths@);
    steps
}

/// The steps of `argument_script`.
fn argument_steps(argvb: bool) -> (steps: Vec<Step<String>>)
    ensures
        script::script_of(steps@) == argument_script(argvb),
{
    let mut steps = no_steps();
    push_step(
        &mut steps,
        Call::SetSysArguments("argv".to_owned()),
        OnFailure::Panic(Failure::SysArgv),
    );
    if argvb {
        push_step(
            &mut steps,
            Call::SetSysArgumentBytes("argvb".to_owned()),
            OnFailure::Panic(Failure::SysArgvb),
        );
    }
    assert(script::script_of(steps@) =~= argument_script(argvb));
    steps
}

/// The steps of `process_script`.
fn process_steps(config: &PythonConfig) -> (steps: Vec<Step<String>>)
    ensures
        script::script_of(steps@) == process_script(config),
{
    let mut steps = argument_steps(config.argvb);
    push_steps(&mut steps, sys_path_steps(&config.sys_paths, &config.exe));
    // As a convention, sys.frozen is set to indicate we are running from a
    // self-contained application.
    push_step(
        &mut steps,
        Call::SetSysTrue("frozen".to_owned()),
        OnFailure::Panic(Failure::SysFrozen),
    );
    assert(script::script_of(steps@) =~= process_script(config));
    steps
}

/// The steps of `initialization_script`.
pub(crate) fn initialization_steps(config: &PythonConfig, raw_allocator: bool) -> (steps: Vec<Step<String>>)
    ensures
        script::script_of(steps@) == initialization_script(config, raw_allocator),
{
    let mut steps = preparation_steps(config, raw_allocator);
    let mut initialize = no_steps();
    push_step(&mut initialize, Call::Initialize, OnFailure::Ignore);
    assert(script::script_of(initialize@) =~= seq![step(Call::Initialize, OnFailure::Ignore)]);
    push_steps(&mut steps, initialize);
    push_steps(&mut steps, process_steps(config));
    steps
}

/// Adds a step that stores a value in the `__main__` dictionary.
fn push_item(steps: &mut Vec<Step<String>>, key: &str, value: MainValue<String>)
    ensures
        script::script_of(final(steps)@) == script::script_of(old(steps)@).push(
            step(Call::SetMainItem(key@, value@), OnFailure::ReturnError),
        ),
{
    push_step(steps, Call::SetMainItem(key.to_owned(), value), OnFailure::ReturnError);
}

/// The steps of `acquire_script`.
pub(crate) fn acquire_steps(py: bool) -> (steps: Vec<Step<String>>)
    ensures
        script::script_of(steps@) == acquire_script(py),
{
    let mut steps = no_steps();
    if !py {
        push_step(&mut steps, Call::AcquireGil, OnFailure::Ignore);
    }
    assert(script::script_of(steps@) =~= acquire_script(py));
    steps
}

/// The steps of `module_script`.
pub(crate) fn module_steps(name: &str) -> (steps: Vec<Step<String>>)
    ensures
        script::script_of(steps@) == module_script(name@),
{
    let mut steps = no_steps();
    push_step(&mut steps, Call::AddModule("__main__".to_owned()), OnFailure::ReturnError);
    push_step(&mut steps, Call::Import("importlib.util".to_owned()), OnFailure::ReturnError);
    push_step(&mut steps, Call::FindSpec(name.to_owned()), OnFailure::ReturnError);
    push_step(&mut steps, Call::GetSpecAttribute("loader".to_owned()), OnFailure::ReturnError);
    push_step(&mut steps, Call::GetCode(name.to_owned()), OnFailure::ReturnError);
    push_step(&mut steps, Call::GetSpecAttribute("origin".to_owned()), OnFailure::ReturnError);
    push_step(&mut steps, Call::GetSpecAttribute("cached".to_owned()), OnFailure::ReturnError);
    push_item(&mut steps, "__name__", MainValue::Text("__main__".to_owned()));
    push_item(&mut steps, "__file__", MainValue::Origin);
    push_item(&mut steps, "__cached__", MainValue::Cached);
    push_item(&mut steps, "__doc__", MainValue::NoneObject);
    push_item(&mut steps, "__loader__", MainValue::Loader);
    push_item(&mut steps, "__spec__", MainValue::Spec);
    push_step(&mut steps, Call::EvalCode, OnFailure::ReturnError);
    assert(script::script_of(steps@) =~= module_script(name@));
    steps
}

/// The steps of `repl_script`.
pub(crate) fn repl_steps() -> (steps: Vec<Step<String>>)
    ensures
        script::script_of(steps@) == repl_script(),
{
    let mut steps = no_steps();
    push_step(&mut steps, Call::SetFlag(Flag::Inspect, 0), OnFailure::Ignore);
    push_step(&mut steps, Call::Import("readline".to_owned()), OnFailure::Ignore);
    push_step(&mut steps, Call::Import("sys".to_owned()), OnFailure::ReturnError);
    push_step(
        &mut steps,
        Call::GetSysAttribute("__interactivehook__".to_owned()),
        OnFailure::SkipNext,
    );
    push_step(&mut steps, Call::CallObtained, OnFailure::ReturnError);
    push_step(&mut steps, Call::RunStandardInput("<stdin>".to_owned()), OnFailure::Ignore);
    assert(script::script_of(steps@) =~= repl_script());
    steps
}

/// The steps of `code_script`.
pub(crate) fn code_steps(code: &str) -> (steps: Vec<Step<String>>)
    ensures
        script::script_of(steps@) == code_script(code@),
{
    let mut steps = no_steps();
    if has_char(code, '\0') {
        push_step(&mut steps, Call::Reject, OnFailure::Panic(Failure::InteriorNul));
    } else {
        push_step(&mut steps, Call::AddModule("__main__".to_owned()), OnFailure::ReturnError);
        push_step(&mut steps, Call::RunString(code.to_owned()), OnFailure::ReturnError);
    }
    assert(script::script_of(steps@) =~= code_script(code@));
    steps
}

/// A script that fails at once.
fn rejection(failure: Failure) -> (steps: Vec<Step<String>>)
    ensures
        script::script_of(steps@) == seq![step(Call::Reject, OnFailure::Panic(failure))],
{
    let mut steps = no_steps();
    push_step(&mut steps, Call::Reject, OnFailure::Panic(failure));
    assert(script::script_of(steps@) =~= seq![step(Call::Reject, OnFailure::Panic(failure))]);
    steps
}

/// The steps of `default_script`.
pub(crate) fn default_steps(settings: &CompiledSettings) -> (steps: Vec<Step<String>>)
    ensures
        script::script_of(steps@) == default_script(settings),
{
    match settings.run_mode {
        0 => repl_steps(),
        1 => match settings.run_module_name {
            Some(name) => module_steps(name),
            None => rejection(Failure::RunModuleNameUndefined),
        },
        2 => match settings.run_code {
            Some(code) => code_steps(code),
            None => rejection(Failure::RunCodeUndefined),
        },
        mode => rejection(Failure::UnhandledRunMode(mode)),
    }
}

} // verus!
