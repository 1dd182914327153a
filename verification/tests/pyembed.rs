use pyoxidizer::pyembed::config::{CompiledSettings, PathText, PythonConfig};
use pyoxidizer::pyembed::frozen::{frozen_size, make_custom_frozen_modules};
use pyoxidizer::pyembed::interpreter::{MainPythonInterpreter, Released};
use pyoxidizer::pyembed::modules::{
    module_line, modules_file_name, modules_listing, write_module_names,
    write_modules_to_directory, write_modules_with_id,
};
use pyoxidizer::pyembed::procedure::{Procedure, Progress, Returned};
use pyoxidizer::pyembed::script::{Call, Failure, Flag, MainValue, OnFailure, Step};

fn settings() -> CompiledSettings {
    CompiledSettings {
        standard_io_encoding: None,
        standard_io_errors: None,
        program_name: "app",
        opt_level: 2,
        no_site: true,
        no_user_site_directory: true,
        ignore_environment: true,
        dont_write_bytecode: true,
        unbuffered_stdio: false,
        rust_allocator_raw: false,
        write_modules_directory_env: None,
        run_mode: 0,
        run_module_name: None,
        run_code: None,
    }
}

fn config() -> PythonConfig {
    PythonConfig::default(PathText::Unicode("/usr/bin/app".to_string()), &settings())
}

fn step(call: Call<String>, on_failure: OnFailure) -> Step<String> {
    Step { call, on_failure }
}

fn text(s: &str) -> String {
    s.to_string()
}

fn paths_config() -> PythonConfig {
    let mut config = config();
    config.sys_paths = vec![PathText::Unicode(text("a")), PathText::Unicode(text("b"))];
    config
}

fn initialized() -> MainPythonInterpreter {
    let mut interpreter = MainPythonInterpreter::new(config());
    for step in interpreter.init() {
        interpreter.record(&step.call);
    }
    interpreter
}

#[test]
fn default_config_follows_settings() {
    let config = config();
    assert!(matches!(&config.exe, PathText::Unicode(path) if path == "/usr/bin/app"));
    assert_eq!(config.program_name, "app");
    assert_eq!(config.standard_io_encoding, None);
    assert_eq!(config.opt_level, 2);
    assert!(config.use_custom_importlib);
    assert!(config.sys_paths.is_empty());
    assert!(!config.import_site);
    assert!(!config.import_user_site);
    assert!(config.ignore_python_env);
    assert!(config.dont_write_bytecode);
    assert!(!config.unbuffered_stdio);
    assert!(!config.argvb);
    assert!(!config.rust_allocator_raw);
    assert_eq!(config.write_modules_directory_env, None);
    let mut other = settings();
    other.standard_io_encoding = Some("utf-8");
    other.standard_io_errors = Some("strict");
    other.no_site = false;
    other.write_modules_directory_env = Some("DIR");
    other.rust_allocator_raw = true;
    let config = PythonConfig::default(PathText::NotUnicode, &other);
    assert!(matches!(config.exe, PathText::NotUnicode));
    assert_eq!(config.standard_io_encoding, Some(text("utf-8")));
    assert_eq!(config.standard_io_errors, Some(text("strict")));
    assert!(config.import_site);
    assert!(config.rust_allocator_raw);
    assert_eq!(config.write_modules_directory_env, Some(text("DIR")));
}

#[test]
fn init_makes_these_calls() {
    let mut config = config();
    config.standard_io_encoding = Some(text("utf-8"));
    config.standard_io_errors = Some(text("strict"));
    config.argvb = true;
    config.rust_allocator_raw = true;
    config.sys_paths = vec![
        PathText::Unicode(text("/opt/lib")),
        PathText::Unicode(text(".")),
        PathText::Unicode(text("./lib")),
    ];
    let interpreter = MainPythonInterpreter::new(config);
    assert!(interpreter.brings_raw_allocator());
    assert_eq!(
        interpreter.init(),
        vec![
            step(Call::SetRawAllocator, OnFailure::Ignore),
            step(Call::SetFrozenModules, OnFailure::Ignore),
            step(Call::AppendInittab(text("_pymodules")), OnFailure::Ignore),
            step(Call::SetPythonHome(text("/usr/bin/app")), OnFailure::Ignore),
            step(Call::SetProgramName(text("app")), OnFailure::Ignore),
            step(
                Call::SetStandardStreamEncoding {
                    encoding: text("utf-8"),
                    errors: text("strict"),
                },
                OnFailure::Panic(Failure::StandardStreamEncoding)
            ),
            step(Call::SetFlag(Flag::DontWriteBytecode, 1), OnFailure::Ignore),
            step(Call::SetFlag(Flag::IgnoreEnvironment, 1), OnFailure::Ignore),
            step(Call::SetFlag(Flag::NoSite, 1), OnFailure::Ignore),
            step(Call::SetFlag(Flag::NoUserSiteDirectory, 1), OnFailure::Ignore),
            step(Call::SetFlag(Flag::Optimize, 2), OnFailure::Ignore),
            step(Call::SetFlag(Flag::UnbufferedStdio, 0), OnFailure::Ignore),
            step(Call::Initialize, OnFailure::Ignore),
            step(Call::SetSysArguments(text("argv")), OnFailure::Panic(Failure::SysArgv)),
            step(Call::SetSysArgumentBytes(text("argvb")), OnFailure::Panic(Failure::SysArgvb)),
            step(Call::AddSysPath(text("/opt/lib")), OnFailure::Panic(Failure::SysPath)),
            step(Call::AddSysPath(text("/usr/bin/app")), OnFailure::Panic(Failure::SysPath)),
            step(Call::AddSysPath(text("./lib")), OnFailure::Panic(Failure::SysPath)),
            step(Call::SetSysTrue(text("frozen")), OnFailure::Panic(Failure::SysFrozen)),
        ]
    );
}

#[test]
fn init_leaves_out_what_is_not_configured() {
    let mut config = config();
    config.use_custom_importlib = false;
    config.standard_io_encoding = Some(text("utf-8"));
    let steps = MainPythonInterpreter::new(config).init();
    assert_eq!(steps[0].call, Call::SetPythonHome(text("/usr/bin/app")));
    assert_eq!(steps.len(), 11);
}

#[test]
fn init_rejects_what_it_cannot_pass_on() {
    let mut bad = config();
    bad.exe = PathText::NotUnicode;
    let steps = MainPythonInterpreter::new(bad).init();
    assert_eq!(
        steps[2],
        step(Call::Reject, OnFailure::Panic(Failure::ExecutableNotUnicode))
    );
    let mut bad = config();
    bad.standard_io_encoding = Some(text("utf\0-8"));
    bad.standard_io_errors = Some(text("strict"));
    let steps = MainPythonInterpreter::new(bad).init();
    assert_eq!(steps[4], step(Call::Reject, OnFailure::Panic(Failure::InteriorNul)));
    let mut bad = config();
    bad.sys_paths = vec![PathText::NotUnicode];
    let steps = MainPythonInterpreter::new(bad).init();
    assert_eq!(
        steps[steps.len() - 2],
        step(Call::Reject, OnFailure::Panic(Failure::SysPathNotUnicode))
    );
}

#[test]
fn init_adds_every_path_and_marks_the_application() {
    let init = || MainPythonInterpreter::new(paths_config()).init();
    let steps = init();
    let added: Vec<&Call<String>> = steps
        .iter()
        .map(|step| &step.call)
        .filter(|call| matches!(call, Call::AddSysPath(_)))
        .collect();
    assert_eq!(added, vec![&Call::AddSysPath(text("a")), &Call::AddSysPath(text("b"))]);
    assert_eq!(steps[steps.len() - 1].call, Call::SetSysTrue(text("frozen")));
    let count = steps.len();
    let mut outcomes = vec![true; count];
    assert_eq!(walk(init(), &outcomes), ((0..count).collect(), Progress::Completed));
    outcomes[count - 2] = false;
    assert_eq!(walk(init(), &outcomes).1, Progress::Panic(Failure::SysPath));
}

#[test]
fn configuration_can_change_before_init() {
    let mut interpreter = MainPythonInterpreter::new(config());
    assert!(!interpreter.config().argvb);
    interpreter.config_mut().argvb = true;
    assert!(interpreter.config().argvb);
    let steps = interpreter.init();
    assert!(steps.iter().any(|step| step.call == Call::SetSysArgumentBytes(text("argvb"))));
}

#[test]
fn init_twice_is_a_no_op() {
    let interpreter = initialized();
    let state = interpreter.life_cycle();
    assert!(state.init_run && state.py && !state.gil && state.initial_gil);
    assert_eq!(interpreter.init(), vec![]);
    assert_eq!(interpreter.acquire_gil(), vec![]);
}

#[test]
fn init_after_release_acquires_only() {
    let mut interpreter = initialized();
    assert_eq!(interpreter.release_gil(), Released::InitialGil);
    let state = interpreter.life_cycle();
    assert!(!state.gil && !state.initial_gil && !state.py);
    assert_eq!(interpreter.release_gil(), Released::Nothing);
    let steps = interpreter.init();
    assert_eq!(steps, vec![step(Call::AcquireGil, OnFailure::Ignore)]);
    interpreter.record(&steps[0].call);
    assert!(interpreter.life_cycle().gil && interpreter.life_cycle().py);
    assert_eq!(interpreter.init(), vec![]);
    assert_eq!(interpreter.release_gil(), Released::Guard);
    assert!(!interpreter.life_cycle().gil && !interpreter.life_cycle().py);
    assert!(interpreter.life_cycle().init_run);
}

#[test]
fn fresh_interpreter_holds_nothing() {
    let mut interpreter = MainPythonInterpreter::new(config());
    let state = interpreter.life_cycle();
    assert!(!state.init_run && !state.py && !state.gil);
    assert!(!interpreter.brings_raw_allocator());
    assert_eq!(interpreter.release_gil(), Released::Nothing);
    interpreter.record(&Call::AcquireGil);
    interpreter.record(&Call::Initialize);
    assert_eq!(interpreter.release_gil(), Released::GuardAndInitialGil);
}

#[test]
fn module_runs_as_main() {
    let return_error = |call| step(call, OnFailure::ReturnError);
    assert_eq!(
        initialized().run_module_as_main("pkg.tool"),
        vec![
            return_error(Call::AddModule(text("__main__"))),
            return_error(Call::Import(text("importlib.util"))),
            return_error(Call::FindSpec(text("pkg.tool"))),
            return_error(Call::GetSpecAttribute(text("loader"))),
            return_error(Call::GetCode(text("pkg.tool"))),
            return_error(Call::GetSpecAttribute(text("origin"))),
            return_error(Call::GetSpecAttribute(text("cached"))),
            return_error(Call::SetMainItem(text("__name__"), MainValue::Text(text("__main__")))),
            return_error(Call::SetMainItem(text("__file__"), MainValue::Origin)),
            return_error(Call::SetMainItem(text("__cached__"), MainValue::Cached)),
            return_error(Call::SetMainItem(text("__doc__"), MainValue::NoneObject)),
            return_error(Call::SetMainItem(text("__loader__"), MainValue::Loader)),
            return_error(Call::SetMainItem(text("__spec__"), MainValue::Spec)),
            return_error(Call::EvalCode),
        ]
    );
}

#[test]
fn repl_and_code_run() {
    let repl = vec![
        step(Call::SetFlag(Flag::Inspect, 0), OnFailure::Ignore),
        step(Call::Import(text("readline")), OnFailure::Ignore),
        step(Call::Import(text("sys")), OnFailure::ReturnError),
        step(Call::GetSysAttribute(text("__interactivehook__")), OnFailure::SkipNext),
        step(Call::CallObtained, OnFailure::ReturnError),
        step(Call::RunStandardInput(text("<stdin>")), OnFailure::Ignore),
    ];
    assert_eq!(initialized().run_repl(), repl);
    assert_eq!(
        initialized().run_code("print(1)"),
        vec![
            step(Call::AddModule(text("__main__")), OnFailure::ReturnError),
            step(Call::RunString(text("print(1)")), OnFailure::ReturnError),
        ]
    );
    assert_eq!(
        initialized().run_code("a\0b"),
        vec![step(Call::Reject, OnFailure::Panic(Failure::InteriorNul))]
    );
    let fresh = MainPythonInterpreter::new(config());
    let mut expected = fresh.init();
    expected.extend(repl);
    assert_eq!(fresh.run_repl(), expected);
}

#[test]
fn run_mode_decides_what_runs() {
    let interpreter = initialized();
    let mut settings = settings();
    assert_eq!(interpreter.run(&settings), interpreter.run_repl());
    settings.run_mode = 1;
    assert_eq!(
        interpreter.run(&settings),
        vec![step(Call::Reject, OnFailure::Panic(Failure::RunModuleNameUndefined))]
    );
    settings.run_module_name = Some("m");
    assert_eq!(interpreter.run(&settings), interpreter.run_module_as_main("m"));
    settings.run_mode = 2;
    assert_eq!(
        interpreter.run(&settings),
        vec![step(Call::Reject, OnFailure::Panic(Failure::RunCodeUndefined))]
    );
    settings.run_code = Some("c");
    assert_eq!(interpreter.run(&settings), interpreter.run_code("c"));
    settings.run_mode = -3;
    assert_eq!(
        interpreter.run(&settings),
        vec![step(Call::Reject, OnFailure::Panic(Failure::UnhandledRunMode(-3)))]
    );
}

#[test]
fn errors_are_printed() {
    let interpreter = initialized();
    let print = vec![step(Call::PrintError, OnFailure::Ignore)];
    assert_eq!(interpreter.print_err(), print);
    assert_eq!(interpreter.run_and_handle_error(Progress::ReturnError), print);
    let panicked = Progress::Panic(Failure::SysArgv);
    assert_eq!(interpreter.run_and_handle_error(panicked), vec![]);
    assert_eq!(interpreter.run_and_handle_error(Progress::Completed), vec![]);
    let fresh = MainPythonInterpreter::new(config());
    assert_eq!(
        fresh.print_err(),
        vec![
            step(Call::AcquireGil, OnFailure::Ignore),
            step(Call::PrintError, OnFailure::Ignore),
        ]
    );
}

#[test]
fn failures_have_messages() {
    let messages = [
        (Failure::ExecutableNotUnicode, "called `Option::unwrap()` on a `None` value"),
        (Failure::InteriorNul, "called `Result::unwrap()` on an `Err` value"),
        (Failure::StandardStreamEncoding, "unable to set standard stream encoding"),
        (Failure::SysArgv, "unable to set sys.argv"),
        (Failure::SysArgvb, "unable to set sys.argvb"),
        (Failure::SysPathNotUnicode, "called `Option::unwrap()` on a `None` value"),
        (Failure::SysPath, "unable to set sys.path"),
        (Failure::SysFrozen, "unable to set sys.frozen"),
        (Failure::CreateDirectory, "could not create directory for modules"),
        (Failure::SysModule, "could not obtain sys module"),
        (Failure::SysModules, "could not obtain sys.modules"),
        (Failure::SysModulesNotDictionary, "sys.modules is not a dict"),
        (Failure::OpenFile, "could not open file for writing"),
        (Failure::ModuleNameNotString, "module name is not a str"),
        (Failure::WriteFile, "could not write"),
        (Failure::RunModuleNameUndefined, "RUN_MODULE_NAME should be defined"),
        (Failure::RunCodeUndefined, "RUN_CODE should be defined"),
        (Failure::UnhandledRunMode(3), "unhandled run mode: 3"),
        (Failure::UnhandledRunMode(-2147483648), "unhandled run mode: -2147483648"),
        (Failure::UnhandledRunMode(1020), "unhandled run mode: 1020"),
    ];
    for (failure, message) in messages {
        assert_eq!(failure.message(), message);
    }
}

fn walk(steps: Vec<Step<String>>, outcomes: &[bool]) -> (Vec<usize>, Progress) {
    let calls: Vec<String> = steps.iter().map(|step| format!("{:?}", step)).collect();
    let mut procedure = Procedure::new(steps);
    let mut performed = vec![];
    let mut progress = Progress::Completed;
    loop {
        let index = match procedure.current() {
            Some(step) => {
                let shown = format!("{:?}", step);
                calls.iter().position(|call| *call == shown).unwrap()
            }
            None => return (performed, progress),
        };
        performed.push(index);
        progress = procedure.report(outcomes[index]);
    }
}

#[test]
fn procedure_performs_every_step() {
    let steps = initialized().run_repl();
    assert_eq!(walk(steps, &[true; 6]), (vec![0, 1, 2, 3, 4, 5], Progress::Completed));
    assert_eq!(walk(vec![], &[]), (vec![], Progress::Completed));
}

#[test]
fn procedure_follows_failures() {
    let repl = || initialized().run_repl();
    assert_eq!(
        walk(repl(), &[true, false, true, false, true, false]),
        (vec![0, 1, 2, 3, 5], Progress::Completed)
    );
    assert_eq!(
        walk(repl(), &[true, true, false, true, true, true]),
        (vec![0, 1, 2], Progress::ReturnError)
    );
    assert_eq!(
        walk(repl(), &[true, true, true, true, false, true]),
        (vec![0, 1, 2, 3, 4], Progress::ReturnError)
    );
    let mut outcomes = [true; 14];
    outcomes[13] = false;
    assert_eq!(
        walk(initialized().run_module_as_main("m"), &outcomes).1,
        Progress::ReturnError
    );
    let mut outcomes = [true; 20];
    outcomes[11] = false;
    assert_eq!(
        walk(MainPythonInterpreter::new(config()).init(), &outcomes),
        (vec![0, 1, 2, 3, 4, 5, 6, 7, 8, 9, 10, 11], Progress::Panic(Failure::SysArgv))
    );
}

#[test]
fn skipping_past_the_end_completes() {
    let steps = vec![step(Call::GetSysAttribute(text("x")), OnFailure::SkipNext)];
    assert_eq!(walk(steps, &[false]), (vec![0], Progress::Completed));
}

#[test]
fn operations_return_values() {
    let returned = |steps: Vec<Step<String>>, ended| Procedure::new(steps).returned(ended);
    let repl = || initialized().run_repl();
    let module = || initialized().run_module_as_main("m");
    assert_eq!(returned(repl(), Progress::Completed), Some(Returned::NoneObject));
    assert_eq!(returned(module(), Progress::Completed), Some(Returned::LastValue));
    assert_eq!(
        returned(initialized().run_code("1"), Progress::Completed),
        Some(Returned::LastValue)
    );
    assert_eq!(returned(vec![], Progress::Completed), Some(Returned::NoneObject));
    assert_eq!(returned(repl(), Progress::ReturnError), Some(Returned::Error));
    assert_eq!(returned(module(), Progress::ReturnError), Some(Returned::Error));
    assert_eq!(returned(module(), Progress::Continue), None);
    assert_eq!(returned(module(), Progress::Panic(Failure::SysArgv)), None);
}

#[test]
fn frozen_modules_table() {
    let table = make_custom_frozen_modules(b"_frozen_importlib\0", b"abc", b"_ext\0", b"defgh");
    assert_eq!(table[0].name, Some(&b"_frozen_importlib\0"[..]));
    assert_eq!(table[0].code, Some(&b"abc"[..]));
    assert_eq!(table[0].size, 3);
    assert_eq!(table[1].name, Some(&b"_ext\0"[..]));
    assert_eq!(table[1].code, Some(&b"defgh"[..]));
    assert_eq!(table[1].size, 5);
    assert_eq!(table[2].name, None);
    assert_eq!(table[2].code, None);
    assert_eq!(table[2].size, 0);
}

#[test]
fn frozen_sizes_wrap_around() {
    for len in [0usize, 1, 0x7fff_ffff, 0x8000_0000, 0xffff_ffff, 0x1_0000_0000, usize::MAX] {
        assert_eq!(frozen_size(len), len as i32);
    }
}

fn is_random_uuid(id: &str) -> bool {
    let chars: Vec<char> = id.chars().collect();
    chars.len() == 36
        && chars.iter().enumerate().all(|(i, c)| match i {
            8 | 13 | 18 | 23 => *c == '-',
            14 => *c == '4',
            19 => "89ab".contains(*c),
            _ => "0123456789abcdef".contains(*c),
        })
}

#[test]
fn modules_file_is_opened() {
    assert_eq!(modules_file_name("x"), "modules-x");
    assert_eq!(
        write_modules_with_id("/tmp/m", "id"),
        vec![
            step(
                Call::CreateDirectory(text("/tmp/m")),
                OnFailure::Panic(Failure::CreateDirectory)
            ),
            step(Call::Import(text("sys")), OnFailure::Panic(Failure::SysModule)),
            step(Call::GetSysAttribute(text("modules")), OnFailure::Panic(Failure::SysModules)),
            step(
                Call::CastDictionary,
                OnFailure::Panic(Failure::SysModulesNotDictionary)
            ),
            step(
                Call::CreateFile { directory: text("/tmp/m"), name: text("modules-id") },
                OnFailure::Panic(Failure::OpenFile)
            ),
        ]
    );
}

#[test]
fn module_names_are_written() {
    let write = |contents| step(Call::WriteFile(text(contents)), OnFailure::Panic(Failure::WriteFile));
    assert_eq!(
        write_module_names(&vec![Some(text("sys")), Some(text("os.path"))]),
        vec![write("sys\nos.path\n")]
    );
    assert_eq!(write_module_names(&vec![]), vec![write("")]);
    assert_eq!(
        write_module_names(&vec![Some(text("sys")), None, Some(text("os"))]),
        vec![
            write("sys\n"),
            step(Call::Reject, OnFailure::Panic(Failure::ModuleNameNotString)),
        ]
    );
}

#[test]
fn modules_file_has_a_random_name() {
    let name = || match &write_modules_to_directory("d")[4].call {
        Call::CreateFile { directory, name } => {
            assert_eq!(directory, "d");
            name.clone()
        }
        other => panic!("{:?}", other),
    };
    let first = name();
    let second = name();
    assert!(first.starts_with("modules-"));
    assert!(is_random_uuid(&first[8..]));
    assert!(is_random_uuid(&second[8..]));
    assert_ne!(first, second);
}

#[test]
fn module_lines_list_the_names() {
    let names = vec!["sys", "os.path", "_pymodules"];
    let listing: String = names.iter().map(|name| module_line(name)).collect();
    assert_eq!(listing, "sys\nos.path\n_pymodules\n");
    let owned: Vec<String> = names.iter().map(|name| text(name)).collect();
    assert_eq!(modules_listing(&owned), listing);
    assert_eq!(modules_listing(&vec![]), "");
    assert_eq!(listing.lines().collect::<Vec<_>>(), names);
}

#[test]
fn modules_are_listed_where_configured() {
    let mut config = config();
    config.write_modules_directory_env = Some(text("MODULES_DIR"));
    let interpreter = MainPythonInterpreter::new(config);
    assert_eq!(interpreter.modules_directory_variable(), Some("MODULES_DIR"));
    let steps = interpreter.list_modules_with_id(Some("/d"), "7");
    assert_eq!(steps[0], step(Call::AcquireGil, OnFailure::Ignore));
    assert_eq!(steps[1..], write_modules_with_id("/d", "7")[..]);
    assert_eq!(interpreter.list_modules(Some("/d")).len(), 6);
    assert_eq!(interpreter.list_modules(None), vec![]);
    assert_eq!(interpreter.list_modules_with_id(None, "7"), vec![]);
    let plain = initialized();
    assert_eq!(plain.modules_directory_variable(), None);
    assert_eq!(plain.list_modules(Some("/d")), vec![]);
    assert_eq!(plain.finalize(), vec![step(Call::Finalize, OnFailure::Ignore)]);
}

#[test]
fn shutdown_lists_then_finalizes() {
    let finalize = || step(Call::Finalize, OnFailure::Ignore);
    let mut interpreter = initialized();
    assert_eq!(interpreter.shutdown(&None), vec![finalize()]);
    assert_eq!(
        interpreter.shutdown(&Some(vec![Some(text("sys"))])),
        vec![
            step(Call::WriteFile(text("sys\n")), OnFailure::Panic(Failure::WriteFile)),
            finalize(),
        ]
    );
    interpreter.release_gil();
    assert_eq!(interpreter.shutdown(&None), vec![finalize()]);
    let fresh = MainPythonInterpreter::new(config());
    assert_eq!(fresh.shutdown(&None), vec![finalize()]);
}
