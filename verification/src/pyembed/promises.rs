//! Which calls the operations of an interpreter make, and with what.

use vstd::prelude::*;

use crate::pyembed::config::{CompiledSettings, PathText, PythonConfig};
use crate::pyembed::interpreter;
use crate::pyembed::interpreter::{LifeCycle, MainPythonInterpreter};
use crate::pyembed::modules;
use crate::pyembed::operations;
use crate::pyembed::procedure;
use crate::pyembed::procedure::{Progress, Returned};
use crate::pyembed::script;
use crate::pyembed::script::{Call, Failure, Flag, MainValue, OnFailure, Script, Step};
use crate::text;

verus! {

/// Whether a script makes one call of a kind, and it is this step.
pub open spec fn only(
    script: Script,
    kind: spec_fn(Call<Seq<char>>) -> bool,
    call: Call<Seq<char>>,
    on_failure: OnFailure,
) -> bool {
    exists|i: int|
        0 <= i < script.len() && #[trigger] script[i] == (Step { call, on_failure }) && forall|
            j: int,
        |
            0 <= j < script.len() && kind((#[trigger] script[j]).call) ==> j == i
}

/// Whether a script makes no call of a kind.
pub open spec fn none_of(script: Script, kind: spec_fn(Call<Seq<char>>) -> bool) -> bool {
    forall|j: int| 0 <= j < script.len() ==> !kind((#[trigger] script[j]).call)
}

/// Whether a script gives up for this reason at one of its steps.
pub open spec fn gives_up(script: Script, failure: Failure) -> bool {
    exists|i: int|
        0 <= i < script.len() && #[trigger] script[i] == (Step {
            call: Call::<Seq<char>>::Reject,
            on_failure: OnFailure::Panic(failure),
        })
}

/// Whether a call sets this configuration variable.
pub open spec fn sets(call: Call<Seq<char>>, flag: Flag) -> bool {
    match call {
        Call::SetFlag(set, _) => set == flag,
        _ => false,
    }
}

/// Whether a script sets a configuration variable exactly once, to this value,
/// and goes on whatever comes of it.
pub open spec fn set_once(script: Script, flag: Flag, value: i32) -> bool {
    exists|i: int|
        0 <= i < script.len() && #[trigger] script[i] == (Step {
            call: Call::<Seq<char>>::SetFlag(flag, value),
            on_failure: OnFailure::Ignore,
        }) && forall|j: int|
            0 <= j < script.len() && sets((#[trigger] script[j]).call, flag) ==> j == i
}

/// The number of calls before the one that names the home directory.
spec fn home_at(config: &PythonConfig, raw_allocator: bool) -> int {
    (if raw_allocator {
        1int
    } else {
        0
    }) + (if config.use_custom_importlib {
        2int
    } else {
        0
    })
}

/// Whether the encoding of the standard streams is configured.
spec fn has_streams(config: &PythonConfig) -> bool {
    config.standard_io_encoding is Some && config.standard_io_errors is Some
}

/// The number of calls before the first one that sets a variable.
spec fn flags_at(config: &PythonConfig, raw_allocator: bool) -> int {
    home_at(config, raw_allocator) + 2 + (if has_streams(config) {
        1int
    } else {
        0
    })
}

/// The number of calls before the first path.
spec fn paths_at(config: &PythonConfig, raw_allocator: bool) -> int {
    flags_at(config, raw_allocator) + 8 + (if config.argvb {
        1int
    } else {
        0
    })
}

/// What stands where in the script of the initialization.
#[verifier::rlimit(50)]
proof fn lemma_places(config: &PythonConfig, raw_allocator: bool)
    ensures
        ({
            let script = operations::initialization_script(config, raw_allocator);
            let home = home_at(config, raw_allocator);
            let flags = flags_at(config, raw_allocator);
            let paths = paths_at(config, raw_allocator);
            let ignore = OnFailure::Ignore;
            let one = |b: bool| if b { 1i32 } else { 0i32 };
            &&& script.len() == paths + config.sys_paths@.len() + 1
            &&& raw_allocator ==> script[0] == (Step {
                call: Call::<Seq<char>>::SetRawAllocator,
                on_failure: ignore,
            })
            &&& config.use_custom_importlib ==> script[home - 2] == (Step {
                call: Call::<Seq<char>>::SetFrozenModules,
                on_failure: ignore,
            })
            &&& config.use_custom_importlib ==> script[home - 1] == (Step {
                call: Call::AppendInittab("_pymodules"@),
                on_failure: ignore,
            })
            &&& script[home] == (match config.exe {
                PathText::Unicode(path) => Step {
                    call: Call::SetPythonHome(path@),
                    on_failure: ignore,
                },
                PathText::NotUnicode => Step {
                    call: Call::Reject,
                    on_failure: OnFailure::Panic(Failure::ExecutableNotUnicode),
                },
            })
            &&& script[home + 1] == (Step {
                call: Call::SetProgramName(config.program_name@),
                on_failure: ignore,
            })
            &&& has_streams(config) ==> script[home + 2] == (if config.standard_io_encoding->0@.contains(
                '\0',
            ) || config.standard_io_errors->0@.contains('\0') {
                Step {
                    call: Call::Reject,
                    on_failure: OnFailure::Panic(Failure::InteriorNul),
                }
            } else {
                Step {
                    call: Call::SetStandardStreamEncoding {
                        encoding: config.standard_io_encoding->0@,
                        errors: config.standard_io_errors->0@,
                    },
                    on_failure: OnFailure::Panic(Failure::StandardStreamEncoding),
                }
            })
            &&& script[flags] == (Step {
                call: Call::<Seq<char>>::SetFlag(
                    Flag::DontWriteBytecode,
                    one(config.dont_write_bytecode),
                ),
                on_failure: ignore,
            })
            &&& script[flags + 1] == (Step {
                call: Call::<Seq<char>>::SetFlag(
                    Flag::IgnoreEnvironment,
                    one(config.ignore_python_env),
                ),
                on_failure: ignore,
            })
            &&& script[flags + 2] == (Step {
                call: Call::<Seq<char>>::SetFlag(Flag::NoSite, one(!config.import_site)),
                on_failure: ignore,
            })
            &&& script[flags + 3] == (Step {
                call: Call::<Seq<char>>::SetFlag(
                    Flag::NoUserSiteDirectory,
                    one(!config.import_user_site),
                ),
                on_failure: ignore,
            })
            &&& script[flags + 4] == (Step {
                call: Call::<Seq<char>>::SetFlag(Flag::Optimize, config.opt_level),
                on_failure: ignore,
            })
            &&& script[flags + 5] == (Step {
                call: Call::<Seq<char>>::SetFlag(
                    Flag::UnbufferedStdio,
                    one(config.unbuffered_stdio),
                ),
                on_failure: ignore,
            })
            &&& script[flags + 6] == (Step {
                call: Call::<Seq<char>>::Initialize,
                on_failure: ignore,
            })
            &&& script[flags + 7] == (Step {
                call: Call::SetSysArguments("argv"@),
                on_failure: OnFailure::Panic(Failure::SysArgv),
            })
            &&& config.argvb ==> script[flags + 8] == (Step {
                call: Call::SetSysArgumentBytes("argvb"@),
                on_failure: OnFailure::Panic(Failure::SysArgvb),
            })
            &&& forall|i: int|
                0 <= i < config.sys_paths@.len() ==> #[trigger] script[paths + i] == path_step(
                    config.sys_paths@[i],
                    config.exe,
                )
            &&& script.last() == (Step {
                call: Call::SetSysTrue("frozen"@),
                on_failure: OnFailure::Panic(Failure::SysFrozen),
            })
        }),
{
    let script = operations::initialization_script(config, raw_allocator);
    let replacement = operations::replacement_script(config, raw_allocator);
    let names = operations::name_script(config);
    let streams = operations::stream_script(config.standard_io_encoding, config.standard_io_errors);
    let flags = operations::flag_script(config);
    let initialize = seq![operations::step(Call::Initialize, OnFailure::Ignore)];
    let arguments = operations::argument_script(config.argvb);
    let paths = operations::sys_path_script(config.sys_paths@, config.exe);
    let frozen = seq![operations::frozen_step()];
    assert(script =~= replacement + names + streams + flags + initialize + arguments + paths + frozen);
    let a = replacement.len() as int;
    let b = a + 2;
    let c = b + streams.len();
    let d = c + 6;
    let e = d + 1 + arguments.len();
    assert(a == home_at(config, raw_allocator));
    assert(c == flags_at(config, raw_allocator));
    assert(e == paths_at(config, raw_allocator));
    assert forall|i: int| 0 <= i < a implies script[i] == replacement[i] by {}
    assert forall|i: int| 0 <= i < 2 implies #[trigger] script[a + i] == names[i] by {}
    assert forall|i: int| 0 <= i < streams.len() implies #[trigger] script[b + i] == streams[i] by {}
    assert forall|i: int| 0 <= i < 6 implies #[trigger] script[c + i] == flags[i] by {}
    assert(script[a] == script[a + 0]);
    assert(script[c] == script[c + 0]);
    if has_streams(config) {
        assert(script[b] == script[b + 0]);
    }
    assert(script[d] == initialize[0]);
    assert(script[d + 1] == arguments[0]);
    if config.argvb {
        assert(script[d + 2] == arguments[1]);
    }
    assert forall|i: int| 0 <= i < config.sys_paths@.len() implies #[trigger] script[e + i]
        == path_step(config.sys_paths@[i], config.exe) by {
        assert(script[e + i] == paths[i]);
    }
    assert(script.last() == frozen[0]);
}

/// The step for a path: `.` stands for the path of the application, and only a
/// path with a text can be added.
pub open spec fn path_step(path: PathText, exe: PathText) -> Step<Seq<char>> {
    let missing: Step<Seq<char>> = Step {
        call: Call::Reject,
        on_failure: OnFailure::Panic(Failure::SysPathNotUnicode),
    };
    match (path, exe) {
        (PathText::Unicode(path), PathText::Unicode(exe)) => Step {
            call: Call::AddSysPath(
                if path@ == "."@ {
                    exe@
                } else {
                    path@
                },
            ),
            on_failure: OnFailure::Panic(Failure::SysPath),
        },
        (PathText::Unicode(path), PathText::NotUnicode) => if path@ == "."@ {
            missing
        } else {
            Step { call: Call::AddSysPath(path@), on_failure: OnFailure::Panic(Failure::SysPath) }
        },
        (PathText::NotUnicode, _) => missing,
    }
}

/// A first `init` gives each configuration variable one value: a variable that
/// leaves something out is 0 exactly where the configuration wants it in, any
/// other is 1 exactly where the configuration wants it, and the optimization
/// level is the configured one.
pub proof fn law_flags_follow_the_config(config: &PythonConfig, raw_allocator: bool)
    ensures
        ({
            let script = operations::initialization_script(config, raw_allocator);
            &&& config.import_site ==> set_once(script, Flag::NoSite, 0)
            &&& !config.import_site ==> set_once(script, Flag::NoSite, 1)
            &&& config.import_user_site ==> set_once(script, Flag::NoUserSiteDirectory, 0)
            &&& !config.import_user_site ==> set_once(script, Flag::NoUserSiteDirectory, 1)
            &&& config.dont_write_bytecode ==> set_once(script, Flag::DontWriteBytecode, 1)
            &&& !config.dont_write_bytecode ==> set_once(script, Flag::DontWriteBytecode, 0)
            &&& config.ignore_python_env ==> set_once(script, Flag::IgnoreEnvironment, 1)
            &&& !config.ignore_python_env ==> set_once(script, Flag::IgnoreEnvironment, 0)
            &&& config.unbuffered_stdio ==> set_once(script, Flag::UnbufferedStdio, 1)
            &&& !config.unbuffered_stdio ==> set_once(script, Flag::UnbufferedStdio, 0)
            &&& set_once(script, Flag::Optimize, config.opt_level)
            &&& forall|i: int|
                0 <= i < script.len() ==> !sets((#[trigger] script[i]).call, Flag::Inspect)
        }),
{
    let script = operations::initialization_script(config, raw_allocator);
    let at = flags_at(config, raw_allocator);
    lemma_places(config, raw_allocator);
    assert forall|i: int, flag: Flag|
        0 <= i < script.len() && #[trigger] sets(script[i].call, flag) implies i == at + (
    match flag {
        Flag::DontWriteBytecode => 0int,
        Flag::IgnoreEnvironment => 1,
        Flag::NoSite => 2,
        Flag::NoUserSiteDirectory => 3,
        Flag::Optimize => 4,
        Flag::UnbufferedStdio => 5,
        Flag::Inspect => -1,
    }) && flag != Flag::Inspect by {
        lemma_place_of(config, raw_allocator, i);
        lemma_places(config, raw_allocator);
    }
    assert(sets(script[at].call, Flag::DontWriteBytecode));
    assert(sets(script[at + 1].call, Flag::IgnoreEnvironment));
    assert(sets(script[at + 2].call, Flag::NoSite));
    assert(sets(script[at + 3].call, Flag::NoUserSiteDirectory));
    assert(sets(script[at + 4].call, Flag::Optimize));
    assert(sets(script[at + 5].call, Flag::UnbufferedStdio));
}

/// A call of the initialization stands at one of the places that are known.
proof fn lemma_place_of(config: &PythonConfig, raw_allocator: bool, i: int)
    requires
        0 <= i < operations::initialization_script(config, raw_allocator).len(),
    ensures
        ({
            let script = operations::initialization_script(config, raw_allocator);
            let home = home_at(config, raw_allocator);
            let flags = flags_at(config, raw_allocator);
            let paths = paths_at(config, raw_allocator);
            ||| raw_allocator && i == 0
            ||| config.use_custom_importlib && (i == home - 2 || i == home - 1)
            ||| i == home || i == home + 1
            ||| has_streams(config) && i == home + 2
            ||| flags == i
            ||| flags + 1 == i
            ||| flags + 2 == i
            ||| flags + 3 == i
            ||| flags + 4 == i
            ||| flags + 5 == i
            ||| flags + 6 == i
            ||| flags + 7 == i
            ||| config.argvb && i == flags + 8
            ||| paths <= i < paths + config.sys_paths@.len() && script[i] == path_step(
                config.sys_paths@[i - paths],
                config.exe,
            )
            ||| i == script.len() - 1
        }),
{
    let script = operations::initialization_script(config, raw_allocator);
    let paths = paths_at(config, raw_allocator);
    lemma_places(config, raw_allocator);
    if paths <= i < paths + config.sys_paths@.len() {
        assert(script[paths + (i - paths)] == script[i]);
    }
}

/// A first `init` replaces the raw allocator where the interpreter brings one,
/// and the import machinery where the configuration wants the custom one, whose
/// extension module is called `_pymodules`.
pub proof fn law_replacements_follow_the_config(config: &PythonConfig, raw_allocator: bool)
    ensures
        ({
            let script = operations::initialization_script(config, raw_allocator);
            let allocator = |call: Call<Seq<char>>| call is SetRawAllocator;
            let frozen = |call: Call<Seq<char>>| call is SetFrozenModules;
            let extension = |call: Call<Seq<char>>| call is AppendInittab;
            &&& raw_allocator ==> only(
                script,
                allocator,
                Call::SetRawAllocator,
                OnFailure::Ignore,
            )
            &&& !raw_allocator ==> none_of(script, allocator)
            &&& config.use_custom_importlib ==> only(
                script,
                frozen,
                Call::SetFrozenModules,
                OnFailure::Ignore,
            ) && only(
                script,
                extension,
                Call::AppendInittab("_pymodules"@),
                OnFailure::Ignore,
            )
            &&& !config.use_custom_importlib ==> none_of(script, frozen) && none_of(
                script,
                extension,
            )
        }),
{
    let script = operations::initialization_script(config, raw_allocator);
    let home = home_at(config, raw_allocator);
    lemma_places(config, raw_allocator);
    assert forall|i: int| 0 <= i < script.len() implies {
        &&& (#[trigger] script[i]).call is SetRawAllocator ==> raw_allocator && i == 0
        &&& script[i].call is SetFrozenModules ==> config.use_custom_importlib && i == home - 2
        &&& script[i].call is AppendInittab ==> config.use_custom_importlib && i == home - 1
    } by {
        lemma_place_of(config, raw_allocator, i);
    }
}

/// A first `init` gives Python the path of the executable as its home, the
/// program name, and the encoding of the standard streams with its error mode
/// where both are configured. It gives up where the path has no text, or where
/// the encoding or the error mode holds a NUL.
pub proof fn law_names_follow_the_config(config: &PythonConfig, raw_allocator: bool)
    ensures
        ({
            let script = operations::initialization_script(config, raw_allocator);
            let home = |call: Call<Seq<char>>| call is SetPythonHome;
            let name = |call: Call<Seq<char>>| call is SetProgramName;
            let streams = |call: Call<Seq<char>>| call is SetStandardStreamEncoding;
            &&& config.exe matches PathText::Unicode(path) ==> only(
                script,
                home,
                Call::SetPythonHome(path@),
                OnFailure::Ignore,
            )
            &&& config.exe is NotUnicode ==> none_of(script, home) && gives_up(
                script,
                Failure::ExecutableNotUnicode,
            )
            &&& only(
                script,
                name,
                Call::SetProgramName(config.program_name@),
                OnFailure::Ignore,
            )
            &&& match (config.standard_io_encoding, config.standard_io_errors) {
                (Some(encoding), Some(errors)) => if encoding@.contains('\0') || errors@.contains(
                    '\0',
                ) {
                    none_of(script, streams) && gives_up(script, Failure::InteriorNul)
                } else {
                    only(
                        script,
                        streams,
                        Call::SetStandardStreamEncoding { encoding: encoding@, errors: errors@ },
                        OnFailure::Panic(Failure::StandardStreamEncoding),
                    )
                },
                _ => none_of(script, streams),
            }
        }),
{
    let script = operations::initialization_script(config, raw_allocator);
    let home = home_at(config, raw_allocator);
    lemma_places(config, raw_allocator);
    assert forall|i: int| 0 <= i < script.len() implies {
        &&& (#[trigger] script[i]).call is SetPythonHome ==> i == home
        &&& script[i].call is SetProgramName ==> i == home + 1
        &&& script[i].call is SetStandardStreamEncoding ==> has_streams(config) && i == home + 2
    } by {
        lemma_place_of(config, raw_allocator, i);
    }
    assert(script[home].call is SetPythonHome || script[home].call is Reject);
    assert(script[home + 1].call is SetProgramName);
    if has_streams(config) {
        assert(script[home + 2].call is SetStandardStreamEncoding || script[home + 2].call is Reject);
    }
}

/// A first `init` initializes Python once, and then sets `sys.argv`, `sys.argvb`
/// exactly where that is configured, and `sys.frozen`, and panics where one of
/// them cannot be set.
pub proof fn law_process_is_described(config: &PythonConfig, raw_allocator: bool)
    ensures
        ({
            let script = operations::initialization_script(config, raw_allocator);
            let initialize = |call: Call<Seq<char>>| call is Initialize;
            let arguments = |call: Call<Seq<char>>| call is SetSysArguments;
            let bytes = |call: Call<Seq<char>>| call is SetSysArgumentBytes;
            let truths = |call: Call<Seq<char>>| call is SetSysTrue;
            &&& only(script, initialize, Call::Initialize, OnFailure::Ignore)
            &&& only(
                script,
                arguments,
                Call::SetSysArguments("argv"@),
                OnFailure::Panic(Failure::SysArgv),
            )
            &&& config.argvb ==> only(
                script,
                bytes,
                Call::SetSysArgumentBytes("argvb"@),
                OnFailure::Panic(Failure::SysArgvb),
            )
            &&& !config.argvb ==> none_of(script, bytes)
            &&& only(
                script,
                truths,
                Call::SetSysTrue("frozen"@),
                OnFailure::Panic(Failure::SysFrozen),
            )
        }),
{
    let script = operations::initialization_script(config, raw_allocator);
    let flags = flags_at(config, raw_allocator);
    lemma_places(config, raw_allocator);
    assert forall|i: int| 0 <= i < script.len() implies {
        &&& (#[trigger] script[i]).call is Initialize ==> i == flags + 6
        &&& script[i].call is SetSysArguments ==> i == flags + 7
        &&& script[i].call is SetSysArgumentBytes ==> config.argvb && i == flags + 8
        &&& script[i].call is SetSysTrue ==> i == script.len() - 1
    } by {
        lemma_place_of(config, raw_allocator, i);
    }
    assert(script[flags + 6].call is Initialize);
    assert(script[flags + 7].call is SetSysArguments);
    assert(script[script.len() - 1].call is SetSysTrue);
}

/// A first `init` adds every configured path to `sys.path` in order, with the
/// path of the application in the place of `.`, and no other path. It gives up
/// where a path has no text.
pub proof fn law_paths_follow_the_config(config: &PythonConfig, raw_allocator: bool)
    ensures
        ({
            let script = operations::initialization_script(config, raw_allocator);
            let paths = config.sys_paths@;
            exists|first: int|
                {
                    &&& #[trigger] stands_at(script, first)
                    &&& forall|i: int|
                        0 <= i < paths.len() ==> first <= first + i < script.len()
                            && #[trigger] script[first + i] == path_step(paths[i], config.exe)
                    &&& forall|j: int|
                        0 <= j < script.len() && (#[trigger] script[j]).call is AddSysPath ==> first
                            <= j < first + paths.len()
                }
        }),
{
    let script = operations::initialization_script(config, raw_allocator);
    let first = paths_at(config, raw_allocator);
    lemma_places(config, raw_allocator);
    assert forall|j: int| 0 <= j < script.len() && (#[trigger] script[j]).call is AddSysPath implies first
        <= j < first + config.sys_paths@.len() by {
        lemma_place_of(config, raw_allocator, j);
    }
    assert(stands_at(script, first));
}

/// Whether a script has a step at this place.
pub open spec fn stands_at(script: Script, place: int) -> bool {
    0 <= place < script.len()
}

/// A first `init` makes no calls but those that prepare the initialization, the
/// initialization, and those that describe the process.
pub proof fn law_init_makes_no_other_calls(config: &PythonConfig, raw_allocator: bool)
    ensures
        forall|i: int|
            0 <= i < operations::initialization_script(config, raw_allocator).len() ==> match (
            #[trigger] operations::initialization_script(config, raw_allocator)[i]).call {
                Call::SetRawAllocator => true,
                Call::SetFrozenModules => true,
                Call::AppendInittab(_) => true,
                Call::SetPythonHome(_) => true,
                Call::SetProgramName(_) => true,
                Call::SetStandardStreamEncoding { .. } => true,
                Call::SetFlag(..) => true,
                Call::Initialize => true,
                Call::SetSysArguments(_) => true,
                Call::SetSysArgumentBytes(_) => true,
                Call::AddSysPath(_) => true,
                Call::SetSysTrue(_) => true,
                Call::Reject => config.exe is NotUnicode || (config.standard_io_encoding
                    matches Some(encoding) && encoding@.contains('\0'))
                    || (config.standard_io_errors matches Some(errors) && errors@.contains('\0'))
                    || exists|k: int|
                    0 <= k < config.sys_paths@.len() && #[trigger] config.sys_paths@[k] is NotUnicode,
                _ => false,
            },
{
    let script = operations::initialization_script(config, raw_allocator);
    lemma_places(config, raw_allocator);
    assert forall|i: int| 0 <= i < script.len() implies match (#[trigger] script[i]).call {
        Call::SetRawAllocator => true,
        Call::SetFrozenModules => true,
        Call::AppendInittab(_) => true,
        Call::SetPythonHome(_) => true,
        Call::SetProgramName(_) => true,
        Call::SetStandardStreamEncoding { .. } => true,
        Call::SetFlag(..) => true,
        Call::Initialize => true,
        Call::SetSysArguments(_) => true,
        Call::SetSysArgumentBytes(_) => true,
        Call::AddSysPath(_) => true,
        Call::SetSysTrue(_) => true,
        Call::Reject => config.exe is NotUnicode || (config.standard_io_encoding matches Some(
            encoding,
        ) && encoding@.contains('\0')) || (config.standard_io_errors matches Some(errors)
            && errors@.contains('\0')) || exists|k: int|
            0 <= k < config.sys_paths@.len() && #[trigger] config.sys_paths@[k] is NotUnicode,
        _ => false,
    } by {
        lemma_place_of(config, raw_allocator, i);
        let k = i - paths_at(config, raw_allocator);
        if 0 <= k < config.sys_paths@.len() {
            assert(config.sys_paths@[k] is NotUnicode || config.sys_paths@[k] is Unicode);
        }
    }
}

/// An interpreter that has not been initialized is initialized as it is
/// configured; one that has been only acquires the GIL, where there is no handle.
pub proof fn law_init_calls(interpreter: &MainPythonInterpreter)
    ensures
        !interpreter.state().init_run ==> interpreter.init_calls()
            == operations::initialization_script(
            &interpreter.configuration(),
            interpreter.raw_allocator(),
        ),
        interpreter.state().init_run && interpreter.state().py ==> interpreter.init_calls().len()
            == 0,
        interpreter.state().init_run && !interpreter.state().py ==> interpreter.init_calls() == seq![
            Step { call: Call::<Seq<char>>::AcquireGil, on_failure: OnFailure::Ignore },
        ],
{
}

/// To run a string of code, all of it is run, in the module `__main__`; an error
/// of either is returned. A string with a NUL is refused.
pub proof fn law_whole_code_is_run(code: Seq<char>)
    ensures
        ({
            let script = operations::code_script(code);
            &&& !code.contains('\0') ==> script.len() == 2 && script[0].call == Call::AddModule(
                "__main__"@,
            ) && script.last().call == Call::RunString(code) && script[0].on_failure
                == OnFailure::ReturnError && script[1].on_failure == OnFailure::ReturnError
            &&& code.contains('\0') ==> script.len() == 1 && script[0].call == Call::<
                Seq<char>,
            >::Reject && script[0].on_failure is Panic
        }),
{
}

/// Two strings of code that differ give scripts that differ.
pub proof fn law_code_decides_what_is_run(one: Seq<char>, other: Seq<char>)
    requires
        !one.contains('\0'),
        operations::code_script(one) == operations::code_script(other),
    ensures
        one == other,
{
    let first = operations::code_script(one);
    let second = operations::code_script(other);
    assert(first.len() == second.len());
    assert(first.last() == second.last());
}

/// To run a module as `__main__`, the code of the module of that name is obtained
/// from the loader of its spec, the `__main__` dictionary is filled from that
/// spec, and then the code is evaluated. Any error is returned.
pub proof fn law_module_is_run_as_main(name: Seq<char>)
    ensures
        ({
            let script = operations::module_script(name);
            let item = |key: Seq<char>, value: MainValue<Seq<char>>| Call::SetMainItem(key, value);
            &&& script.len() == 14
            &&& forall|i: int|
                0 <= i < 14 ==> (#[trigger] script[i]).on_failure == OnFailure::ReturnError
            &&& script[0].call == Call::AddModule("__main__"@)
            &&& script[1].call == Call::Import("importlib.util"@)
            &&& script[2].call == Call::FindSpec(name)
            &&& script[3].call == Call::GetSpecAttribute("loader"@)
            &&& script[4].call == Call::GetCode(name)
            &&& script[5].call == Call::GetSpecAttribute("origin"@)
            &&& script[6].call == Call::GetSpecAttribute("cached"@)
            &&& script[7].call == item("__name__"@, MainValue::Text("__main__"@))
            &&& script[8].call == item("__file__"@, MainValue::Origin)
            &&& script[9].call == item("__cached__"@, MainValue::Cached)
            &&& script[10].call == item("__doc__"@, MainValue::NoneObject)
            &&& script[11].call == item("__loader__"@, MainValue::Loader)
            &&& script[12].call == item("__spec__"@, MainValue::Spec)
            &&& script[13].call == Call::<Seq<char>>::EvalCode
        }),
{
}

/// A REPL is not asked to inspect, does without `readline` where that cannot be
/// imported, calls the interactive hook of `sys` where there is one, and then
/// runs standard input under the name `<stdin>`, whatever comes of that.
pub proof fn law_repl_runs_standard_input()
    ensures
        ({
            let script = operations::repl_script();
            &&& script.len() == 6
            &&& script[0].call == Call::<Seq<char>>::SetFlag(Flag::Inspect, 0)
            &&& script[1].call == Call::Import("readline"@)
            &&& script[1].on_failure == OnFailure::Ignore
            &&& script[2].call == Call::Import("sys"@)
            &&& script[2].on_failure == OnFailure::ReturnError
            &&& script[3].call == Call::GetSysAttribute("__interactivehook__"@)
            &&& script[3].on_failure == OnFailure::SkipNext
            &&& script[4].call == Call::<Seq<char>>::CallObtained
            &&& script[4].on_failure == OnFailure::ReturnError
            &&& script[5].call == Call::RunStandardInput("<stdin>"@)
            &&& script[5].on_failure == OnFailure::Ignore
        }),
{
}

/// What runs by default is a REPL in mode 0, the configured module in mode 1 and
/// the configured code in mode 2. Anything else panics at once, for the reason
/// that it is not configured or that there is no such mode.
pub proof fn law_run_mode_decides(settings: &CompiledSettings)
    ensures
        ({
            let script = operations::default_script(settings);
            let refusal = |failure: Failure|
                seq![
                    Step {
                        call: Call::<Seq<char>>::Reject,
                        on_failure: OnFailure::Panic(failure),
                    },
                ];
            &&& settings.run_mode == 0 ==> script == operations::repl_script()
            &&& settings.run_mode == 1 ==> match settings.run_module_name {
                Some(name) => script == operations::module_script(name@),
                None => script == refusal(Failure::RunModuleNameUndefined),
            }
            &&& settings.run_mode == 2 ==> match settings.run_code {
                Some(code) => script == operations::code_script(code@),
                None => script == refusal(Failure::RunCodeUndefined),
            }
            &&& !(0 <= settings.run_mode <= 2) ==> script == refusal(
                Failure::UnhandledRunMode(settings.run_mode),
            )
        }),
{
}

/// Acquiring, printing an error and finalizing are one call each; printing first
/// acquires the GIL where there is no handle.
pub proof fn law_single_calls()
    ensures
        ({
            let acquire = seq![
                Step { call: Call::<Seq<char>>::AcquireGil, on_failure: OnFailure::Ignore },
            ];
            let print = seq![
                Step { call: Call::<Seq<char>>::PrintError, on_failure: OnFailure::Ignore },
            ];
            &&& operations::acquire_script(true).len() == 0
            &&& operations::acquire_script(false) == acquire
            &&& interpreter::print_error_script(true) == print
            &&& interpreter::print_error_script(false) == acquire + print
            &&& interpreter::finalize_script() == seq![
                Step { call: Call::<Seq<char>>::Finalize, on_failure: OnFailure::Ignore },
            ]
        }),
{
    assert(interpreter::print_error_script(true) =~= seq![
        Step { call: Call::<Seq<char>>::PrintError, on_failure: OnFailure::Ignore },
    ]);
}

/// Acquiring the GIL gives a guard and a handle, initializing gives the initial
/// GIL and a handle, no other call changes the life cycle, and a release gives
/// up everything but the initialization.
pub proof fn law_life_cycle(state: LifeCycle, call: Call<Seq<char>>)
    ensures
        ({
            let after = state.after(call);
            &&& after.init_run == (state.init_run || call is Initialize)
            &&& after.gil == (state.gil || call is AcquireGil)
            &&& after.initial_gil == (state.initial_gil || call is Initialize)
            &&& after.py == (state.py || call is AcquireGil || call is Initialize)
            &&& state.released().init_run == state.init_run
            &&& !state.released().gil && !state.released().initial_gil && !state.released().py
            &&& state.holds_gil() == (state.gil || state.initial_gil)
            &&& state.wf() == (state.py == (state.gil || state.initial_gil))
            &&& !LifeCycle::fresh().init_run && !LifeCycle::fresh().py
            &&& !LifeCycle::fresh().gil && !LifeCycle::fresh().initial_gil
        }),
{
}

/// A step that succeeds, or whose failure is ignored, is followed by the next
/// one; a failure that leaves out the next step by the one after it. Any other
/// failure ends the operation: with the Python error, or with a panic.
pub proof fn law_after_a_step(script: Script, at: int, succeeded: bool)
    requires
        0 <= at < script.len(),
    ensures
        ({
            let (next, progress) = procedure::after_step(script, at, succeeded);
            let on_failure = script[at].on_failure;
            let step = if !succeeded && on_failure == OnFailure::SkipNext {
                2int
            } else {
                1int
            };
            &&& succeeded || on_failure == OnFailure::Ignore || on_failure == OnFailure::SkipNext
                ==> {
                &&& at + step < script.len() ==> next == at + step && progress == Progress::Continue
                &&& at + step >= script.len() ==> next == script.len() && progress
                    == Progress::Completed
            }
            &&& !succeeded && on_failure == OnFailure::ReturnError ==> next == script.len()
                && progress == Progress::ReturnError
            &&& !succeeded && on_failure is Panic ==> next == script.len() && progress
                == Progress::Panic(on_failure->Panic_0)
        }),
{
}

/// A modules file is called `modules-` and its identifier. It is created in the
/// directory, which is created before, once `sys.modules` is known to be a
/// dictionary; any failure panics with its own reason.
pub proof fn law_modules_file(directory: Seq<char>, id: Seq<char>, py: bool)
    ensures
        ({
            let script = modules::modules_script(directory, id);
            &&& script.len() == 5
            &&& script[0].call == Call::CreateDirectory(directory)
            &&& script[0].on_failure == OnFailure::Panic(Failure::CreateDirectory)
            &&& script[1].call == Call::Import("sys"@)
            &&& script[1].on_failure == OnFailure::Panic(Failure::SysModule)
            &&& script[2].call == Call::GetSysAttribute("modules"@)
            &&& script[2].on_failure == OnFailure::Panic(Failure::SysModules)
            &&& script[3].call == Call::<Seq<char>>::CastDictionary
            &&& script[3].on_failure == OnFailure::Panic(Failure::SysModulesNotDictionary)
            &&& script[4].call == Call::CreateFile { directory, name: "modules-"@ + id }
            &&& script[4].on_failure == OnFailure::Panic(Failure::OpenFile)
            &&& modules::modules_file(id) == "modules-"@ + id
            &&& interpreter::list_modules_script(py, directory, id) == operations::acquire_script(py)
                + script
        }),
{
}

/// Modules are listed on shutdown exactly where an environment variable is
/// configured and set.
pub proof fn law_listing_is_configured(config: &PythonConfig, directory: Option<&str>)
    ensures
        interpreter::lists_modules(config, directory) == (config.write_modules_directory_env is Some
            && directory is Some),
{
}

/// The contents of a modules file grow by a name and a `\n` with each name, and
/// begin with nothing.
pub proof fn law_listing_grows_by_a_line(names: Seq<Seq<char>>, name: Seq<char>)
    ensures
        modules::listing(Seq::empty()) == Seq::<char>::empty(),
        modules::listing(names.push(name)) == modules::listing(names) + name + seq!['\n'],
{
    modules::lemma_listing_push(names, name);
    assert(modules::listing(names) + name.push('\n') =~= modules::listing(names) + name
        + seq!['\n']);
}

/// A key of `sys.modules` that is not a string ends the listing: the lines of the
/// names before it are written, and then there is a panic.
pub proof fn law_other_key_ends_the_listing(
    names: Seq<Seq<char>>,
    rest: Seq<Option<Seq<char>>>,
)
    ensures
        ({
            let keys = names.map_values(|name: Seq<char>| Some(name)) + seq![None] + rest;
            modules::module_names_script(keys) == seq![
                Step {
                    call: Call::WriteFile(modules::listing(names)),
                    on_failure: OnFailure::Panic(Failure::WriteFile),
                },
                Step {
                    call: Call::Reject,
                    on_failure: OnFailure::Panic(Failure::ModuleNameNotString),
                },
            ]
        }),
{
    let keys = names.map_values(|name: Seq<char>| Some(name)) + seq![None] + rest;
    lemma_leading_names_end(names, rest);
    assert(keys[names.len() as int] is None);
    assert(!modules::all_names(keys));
    assert(modules::module_names_script(keys) =~= seq![
        Step {
            call: Call::WriteFile(modules::listing(names)),
            on_failure: OnFailure::Panic(Failure::WriteFile),
        },
        Step { call: Call::Reject, on_failure: OnFailure::Panic(Failure::ModuleNameNotString) },
    ]);
}

/// The names before a key that is not a string.
proof fn lemma_leading_names_end(names: Seq<Seq<char>>, rest: Seq<Option<Seq<char>>>)
    ensures
        modules::leading_names(
            names.map_values(|name: Seq<char>| Some(name)) + seq![None] + rest,
        ) == names,
    decreases names.len(),
{
    let some = |name: Seq<char>| Some(name);
    let keys = names.map_values(some) + seq![None] + rest;
    if names.len() == 0 {
        assert(keys[0] is None);
        assert(modules::leading_names(keys) =~= names);
    } else {
        lemma_leading_names_end(names.drop_first(), rest);
        assert(keys.drop_first() =~= names.drop_first().map_values(some) + seq![None] + rest);
        assert(keys[0] == Some(names[0]));
        assert(seq![names[0]] + names.drop_first() =~= names);
    }
}

/// A configuration made of compiled settings takes each of its fields from the
/// setting of that name.
pub proof fn law_default_config(config: PythonConfig, exe: PathText, settings: &CompiledSettings)
    requires
        config.describes(exe, settings),
    ensures
        config.exe == exe,
        config.program_name@ == settings.program_name@,
        config.standard_io_encoding is Some <==> settings.standard_io_encoding is Some,
        config.standard_io_encoding is Some ==> config.standard_io_encoding->0@
            == settings.standard_io_encoding->0@,
        config.standard_io_errors is Some <==> settings.standard_io_errors is Some,
        config.standard_io_errors is Some ==> config.standard_io_errors->0@
            == settings.standard_io_errors->0@,
        config.opt_level == settings.opt_level,
        config.use_custom_importlib,
        config.sys_paths@.len() == 0,
        config.import_site != settings.no_site,
        config.import_user_site != settings.no_user_site_directory,
        config.ignore_python_env == settings.ignore_environment,
        config.dont_write_bytecode == settings.dont_write_bytecode,
        config.unbuffered_stdio == settings.unbuffered_stdio,
        !config.argvb,
        config.rust_allocator_raw == settings.rust_allocator_raw,
        config.write_modules_directory_env is Some <==> settings.write_modules_directory_env is Some,
        config.write_modules_directory_env is Some ==> config.write_modules_directory_env->0@
            == settings.write_modules_directory_env->0@,
{
}

/// The script of a list of steps has the calls of that list, in order, with all
/// their texts, and the same reactions to their failure.
pub proof fn law_scripts_are_faithful(steps: Seq<Step<String>>, i: int)
    requires
        0 <= i < steps.len(),
    ensures
        ({
            let script = script::script_of(steps);
            &&& script.len() == steps.len()
            &&& script[i].on_failure == steps[i].on_failure
            &&& match steps[i].call {
                Call::AcquireGil => script[i].call is AcquireGil,
                Call::SetRawAllocator => script[i].call is SetRawAllocator,
                Call::SetFrozenModules => script[i].call is SetFrozenModules,
                Call::AppendInittab(name) => script[i].call == Call::AppendInittab(name@),
                Call::SetPythonHome(home) => script[i].call == Call::SetPythonHome(home@),
                Call::SetProgramName(name) => script[i].call == Call::SetProgramName(name@),
                Call::SetStandardStreamEncoding { encoding, errors } => script[i].call
                    == Call::SetStandardStreamEncoding { encoding: encoding@, errors: errors@ },
                Call::SetFlag(flag, value) => script[i].call == Call::<Seq<char>>::SetFlag(
                    flag,
                    value,
                ),
                Call::Initialize => script[i].call is Initialize,
                Call::SetSysArguments(name) => script[i].call == Call::SetSysArguments(name@),
                Call::SetSysArgumentBytes(name) => script[i].call == Call::SetSysArgumentBytes(
                    name@,
                ),
                Call::AddSysPath(path) => script[i].call == Call::AddSysPath(path@),
                Call::SetSysTrue(name) => script[i].call == Call::SetSysTrue(name@),
                Call::AddModule(name) => script[i].call == Call::AddModule(name@),
                Call::Import(name) => script[i].call == Call::Import(name@),
                Call::FindSpec(name) => script[i].call == Call::FindSpec(name@),
                Call::GetSpecAttribute(name) => script[i].call == Call::GetSpecAttribute(name@),
                Call::GetCode(name) => script[i].call == Call::GetCode(name@),
                Call::SetMainItem(key, value) => script[i].call is SetMainItem
                    && script[i].call->SetMainItem_0 == key@ && (match value {
                    MainValue::Text(text) => script[i].call->SetMainItem_1 == MainValue::Text(text@),
                    MainValue::Origin => script[i].call->SetMainItem_1 is Origin,
                    MainValue::Cached => script[i].call->SetMainItem_1 is Cached,
                    MainValue::Loader => script[i].call->SetMainItem_1 is Loader,
                    MainValue::Spec => script[i].call->SetMainItem_1 is Spec,
                    MainValue::NoneObject => script[i].call->SetMainItem_1 is NoneObject,
                }),
                Call::EvalCode => script[i].call is EvalCode,
                Call::GetSysAttribute(name) => script[i].call == Call::GetSysAttribute(name@),
                Call::CallObtained => script[i].call is CallObtained,
                Call::RunStandardInput(name) => script[i].call == Call::RunStandardInput(name@),
                Call::RunString(code) => script[i].call == Call::RunString(code@),
                Call::CreateDirectory(path) => script[i].call == Call::CreateDirectory(path@),
                Call::CastDictionary => script[i].call is CastDictionary,
                Call::CreateFile { directory, name } => script[i].call == Call::CreateFile {
                    directory: directory@,
                    name: name@,
                },
                Call::WriteFile(contents) => script[i].call == Call::WriteFile(contents@),
                Call::PrintError => script[i].call is PrintError,
                Call::Finalize => script[i].call is Finalize,
                Call::Reject => script[i].call is Reject,
            }
        }),
{
}

/// The keys of a dictionary are all its keys, in order: the texts of those that
/// are strings.
pub proof fn law_keys_are_faithful(keys: Vec<Option<String>>, i: int)
    requires
        0 <= i < keys@.len(),
    ensures
        modules::key_texts(keys@).len() == keys@.len(),
        keys@[i] is Some ==> modules::key_texts(keys@)[i] == Some(keys@[i]->0@),
        keys@[i] is None ==> modules::key_texts(keys@)[i] is None,
        interpreter::optional_keys(Some(keys)) == Some(modules::key_texts(keys@)),
        interpreter::optional_keys(None) is None,
{
}

/// What a failure says, in the words that a panic reports it with.
pub proof fn law_failure_texts(mode: i32)
    ensures
        Failure::ExecutableNotUnicode.text() == "called `Option::unwrap()` on a `None` value"@,
        Failure::InteriorNul.text() == "called `Result::unwrap()` on an `Err` value"@,
        Failure::SysPathNotUnicode.text() == "called `Option::unwrap()` on a `None` value"@,
        Failure::SysPath.text() == "unable to set sys.path"@,
        Failure::StandardStreamEncoding.text() == "unable to set standard stream encoding"@,
        Failure::SysArgv.text() == "unable to set sys.argv"@,
        Failure::SysArgvb.text() == "unable to set sys.argvb"@,
        Failure::SysFrozen.text() == "unable to set sys.frozen"@,
        Failure::CreateDirectory.text() == "could not create directory for modules"@,
        Failure::SysModule.text() == "could not obtain sys module"@,
        Failure::SysModules.text() == "could not obtain sys.modules"@,
        Failure::SysModulesNotDictionary.text() == "sys.modules is not a dict"@,
        Failure::OpenFile.text() == "could not open file for writing"@,
        Failure::ModuleNameNotString.text() == "module name is not a str"@,
        Failure::WriteFile.text() == "could not write"@,
        Failure::RunModuleNameUndefined.text() == "RUN_MODULE_NAME should be defined"@,
        Failure::RunCodeUndefined.text() == "RUN_CODE should be defined"@,
        mode >= 0 ==> Failure::UnhandledRunMode(mode).text() == "unhandled run mode: "@
            + text::decimal(mode as nat),
        mode < 0 ==> Failure::UnhandledRunMode(mode).text() == "unhandled run mode: "@ + seq!['-']
            + text::decimal((-mode) as nat),
{
    if mode < 0 {
        assert("unhandled run mode: "@ + (seq!['-'] + text::decimal((-mode) as nat))
            =~= "unhandled run mode: "@ + seq!['-'] + text::decimal((-mode) as nat));
    }
}

/// A complete operation returns the value of its last call where that ran code,
/// and `None` otherwise. One that failed returns its error, and one that goes on
/// or panics returns nothing.
pub proof fn law_what_is_returned(before: Script, last: Step<Seq<char>>, failure: Failure)
    ensures
        ({
            let script = before.push(last);
            &&& procedure::returned(script, Progress::Completed) == Some(
                if last.call is EvalCode || last.call is RunString {
                    Returned::LastValue
                } else {
                    Returned::NoneObject
                },
            )
            &&& procedure::returned(Script::empty(), Progress::Completed) == Some(
                Returned::NoneObject,
            )
            &&& procedure::returned(script, Progress::ReturnError) == Some(Returned::Error)
            &&& procedure::returned(script, Progress::Continue) is None
            &&& procedure::returned(script, Progress::Panic(failure)) is None
        }),
{
    assert(before.push(last).last() == last);
}

} // verus!
