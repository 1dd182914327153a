//! The life cycle of an embedded Python interpreter.

use vstd::prelude::*;

use crate::pyembed::config::{CompiledSettings, PythonConfig};
use crate::pyembed::modules;
use crate::pyembed::modules::{
    write_module_names, write_modules_to_directory, write_modules_with_id,
};
use crate::pyembed::operations;
use crate::pyembed::operations::{
    acquire_steps, code_steps, default_steps, initialization_steps, module_steps, repl_steps,
};
use crate::pyembed::procedure;
use crate::pyembed::procedure::{Progress, Returned};
use crate::pyembed::script;
use crate::pyembed::script::{no_steps, push_step, push_steps, Call, OnFailure, Script, Step};

verus! {

/// How far an interpreter has come.
#[derive(Clone, Copy, Debug, PartialEq, Eq, Structural)]
pub struct LifeCycle {
    /// Whether the interpreter has been initialized.
    pub init_run: bool,
    /// Whether a guard holds the GIL.
    pub gil: bool,
    /// Whether the thread still holds the GIL that the initialization took.
    pub initial_gil: bool,
    /// Whether there is a handle on the interpreter.
    pub py: bool,
}

impl LifeCycle {
    /// Whether the thread holds the GIL.
    pub open spec fn holds_gil(self) -> bool {
        self.gil || self.initial_gil
    }

    /// There is a handle exactly where the GIL is held.
    pub open spec fn wf(self) -> bool {
        self.py == self.holds_gil()
    }

    /// The life cycle of an interpreter that has just been made.
    pub open spec fn fresh() -> LifeCycle {
        LifeCycle { init_run: false, gil: false, initial_gil: false, py: false }
    }

    /// What a call does to the life cycle.
    pub open spec fn after(self, call: Call<Seq<char>>) -> LifeCycle {
        match call {
            Call::AcquireGil => LifeCycle { gil: true, py: true, ..self },
            Call::Initialize => LifeCycle { init_run: true, initial_gil: true, py: true, ..self },
            _ => self,
        }
    }

    /// What the calls of a whole script do to the life cycle.
    pub open spec fn after_all(self, script: Script) -> LifeCycle
        decreases script.len(),
    {
        if script.len() == 0 {
            self
        } else {
            self.after_all(script.drop_last()).after(script.last().call)
        }
    }

    /// The life cycle after the GIL has been released.
    pub open spec fn released(self) -> LifeCycle {
        LifeCycle { gil: false, initial_gil: false, py: false, ..self }
    }
}

/// The calls that initialize an interpreter, or only acquire the GIL where that
/// has been done before.
pub open spec fn init_script(
    state: LifeCycle,
    config: &PythonConfig,
    raw_allocator: bool,
) -> Script {
    if state.init_run {
        operations::acquire_script(state.py)
    } else {
        operations::initialization_script(config, raw_allocator)
    }
}

/// The calls that print a Python error.
pub open spec fn print_error_script(py: bool) -> Script {
    operations::acquire_script(py) + seq![operations::step(Call::PrintError, OnFailure::Ignore)]
}

/// Whether loaded modules are listed on shutdown: an environment variable is
/// configured, and it is set to a directory.
pub open spec fn lists_modules(config: &PythonConfig, directory: Option<&str>) -> bool {
    config.write_modules_directory_env is Some && directory is Some
}

/// The calls that finalize an interpreter.
pub open spec fn finalize_script() -> Script {
    seq![operations::step(Call::Finalize, OnFailure::Ignore)]
}

/// The calls that list the loaded modules under this identifier in a directory.
pub open spec fn list_modules_script(
    py: bool,
    directory: Seq<char>,
    id: Seq<char>,
) -> Script {
    operations::acquire_script(py) + modules::modules_script(directory, id)
}

/// The calls that end an interpreter once the modules file is open, where
/// modules are listed: the keys of `sys.modules` go into the file, then the
/// interpreter is finalized.
pub open spec fn ending_script(keys: Option<Seq<Option<Seq<char>>>>) -> Script {
    match keys {
        Some(keys) => modules::module_names_script(keys) + finalize_script(),
        None => finalize_script(),
    }
}

/// All the calls that shut an interpreter down. Where `directory` is given, the
/// keys of `sys.modules` are first listed in it, under this identifier.
pub open spec fn shutdown_script(
    py: bool,
    directory: Option<Seq<char>>,
    id: Seq<char>,
    keys: Seq<Option<Seq<char>>>,
) -> Script {
    match directory {
        Some(directory) => list_modules_script(py, directory, id) + ending_script(Some(keys)),
        None => ending_script(None),
    }
}

/// The keys of a dictionary, where there is one.
pub open spec fn optional_keys(keys: Option<Vec<Option<String>>>) -> Option<
    Seq<Option<Seq<char>>>,
> {
    match keys {
        Some(keys) => Some(modules::key_texts(keys@)),
        None => None,
    }
}

/// What has to be given up for the GIL to be released.
#[derive(Clone, Copy, Debug, PartialEq, Eq, Structural)]
pub enum Released {
    /// Nothing: the GIL is not held.
    Nothing,
    /// The handle on the interpreter, and the guard that holds the GIL.
    Guard,
    /// The handle on the interpreter, and the GIL that the thread has held
    /// since the initialization.
    InitialGil,
    /// The handle on the interpreter, the guard, and then the GIL that the
    /// thread has held since the initialization.
    GuardAndInitialGil,
}

/// Represents an embedded Python interpreter.
///
/// Since the Python API has global state and methods of this mutate global
/// state, there should only be a single instance of this type at any time.
///
/// The interpreter decides which calls are to be made; whoever makes them
/// records each of them with `record`.
#[derive(Debug)]
pub struct MainPythonInterpreter {
    pub config: PythonConfig,
    state: LifeCycle,
    raw_allocator: bool,
}

impl MainPythonInterpreter {
    /// How far the interpreter has come.
    pub closed spec fn state(&self) -> LifeCycle {
        self.state
    }

    /// The configuration of the interpreter.
    pub closed spec fn configuration(&self) -> PythonConfig {
        self.config
    }

    /// Whether the interpreter brings its own raw memory allocator.
    pub closed spec fn raw_allocator(&self) -> bool {
        self.raw_allocator
    }

    /// There is a handle exactly where the GIL is held.
    pub open spec fn wf(&self) -> bool {
        self.state().wf()
    }

    /// The calls of `init`.
    pub open spec fn init_calls(&self) -> Script {
        init_script(self.state(), &self.configuration(), self.raw_allocator())
    }

    /// Construct an instance from a config.
    ///
    /// There are no significant side-effects from calling this.
    pub fn new(config: PythonConfig) -> (interpreter: MainPythonInterpreter)
        ensures
            interpreter.wf(),
            interpreter.configuration() == config,
            interpreter.state() == LifeCycle::fresh(),
            interpreter.raw_allocator() == config.rust_allocator_raw,
    {
        let raw_allocator = config.rust_allocator_raw;
        MainPythonInterpreter {
            config,
            state: LifeCycle { init_run: false, gil: false, initial_gil: false, py: false },
            raw_allocator,
        }
    }

    /// The configuration of the interpreter.
    pub fn config(&self) -> (config: &PythonConfig)
        ensures
            *config == self.configuration(),
    {
        &self.config
    }

    /// The configuration of the interpreter, to be changed before it is
    /// initialized.
    pub fn config_mut(&mut self) -> (config: &mut PythonConfig)
        ensures
            *config == old(self).configuration(),
            final(self).configuration() == *final(config),
            final(self).state() == old(self).state(),
            final(self).raw_allocator() == old(self).raw_allocator(),
    {
        &mut self.config
    }

    /// How far the interpreter has come.
    pub fn life_cycle(&self) -> (state: LifeCycle)
        ensures
            state == self.state(),
    {
        self.state
    }

    /// Whether the raw memory allocator of the interpreter has to be made.
    pub fn brings_raw_allocator(&self) -> (brings: bool)
        ensures
            brings == self.raw_allocator(),
    {
        self.raw_allocator
    }

    /// Ensure the Python GIL is released.
    pub fn release_gil(&mut self) -> (released: Released)
        requires
            old(self).wf(),
        ensures
            final(self).wf(),
            final(self).configuration() == old(self).configuration(),
            final(self).raw_allocator() == old(self).raw_allocator(),
            final(self).state() == old(self).state().released(),
            !final(self).state().holds_gil(),
            released == (match (old(self).state().gil, old(self).state().initial_gil) {
                (false, false) => Released::Nothing,
                (true, false) => Released::Guard,
                (false, true) => Released::InitialGil,
                (true, true) => Released::GuardAndInitialGil,
            }),
    {
        let released = match (self.state.gil, self.state.initial_gil) {
            (false, false) => Released::Nothing,
            (true, false) => Released::Guard,
            (false, true) => Released::InitialGil,
            (true, true) => Released::GuardAndInitialGil,
        };
        self.state = LifeCycle {
            init_run: self.state.init_run,
            gil: false,
            initial_gil: false,
            py: false,
        };
        released
    }

    /// Ensure the Python GIL is acquired: the calls that give a handle on the
    /// interpreter.
    pub fn acquire_gil(&self) -> (steps: Vec<Step<String>>)
        ensures
            script::script_of(steps@) == operations::acquire_script(self.state().py),
    {
        acquire_steps(self.state.py)
    }

    /// Takes note of a call that has been made.
    pub fn record(&mut self, call: &Call<String>)
        requires
            old(self).wf(),
        ensures
            final(self).wf(),
            final(self).configuration() == old(self).configuration(),
            final(self).raw_allocator() == old(self).raw_allocator(),
            final(self).state() == old(self).state().after(call@),
    {
        match call {
            Call::AcquireGil => {
                self.state = LifeCycle { gil: true, py: true, ..self.state };
            },
            Call::Initialize => {
                self.state = LifeCycle {
                    init_run: true,
                    initial_gil: true,
                    py: true,
                    ..self.state
                };
            },
            _ => {},
        }
    }

    /// Initialize the interpreter.
    ///
    /// These calls mutate global state in the Python interpreter according to
    /// the bound config and initialize the Python interpreter.
    ///
    /// After they have been made, the embedded Python interpreter is ready to
    /// execute custom code.
    ///
    /// If called more than once, the function is a no-op from the perspective
    /// of interpreter initialization.
    pub fn init(&self) -> (steps: Vec<Step<String>>)
        ensures
            script::script_of(steps@) == self.init_calls(),
    {
        if self.state.init_run {
            return self.acquire_gil();
        }
        initialization_steps(&self.config, self.raw_allocator)
    }

    /// Runs the interpreter with the default code execution settings.
    ///
    /// The application was built with settings that configure what should be
    /// executed by default.
    pub fn run(&self, settings: &CompiledSettings) -> (steps: Vec<Step<String>>)
        ensures
            script::script_of(steps@) == self.init_calls() + operations::default_script(settings),
    {
        let mut steps = self.init();
        push_steps(&mut steps, default_steps(settings));
        steps
    }

    /// Handles any exception that `run` raised, where it ended with `ended`.
    pub fn run_and_handle_error(&self, ended: Progress) -> (steps: Vec<Step<String>>)
        ensures
            script::script_of(steps@) == (if ended == Progress::ReturnError {
                print_error_script(self.state().py)
            } else {
                Script::empty()
            }),
    {
        match ended {
            Progress::ReturnError => self.print_err(),
            _ => no_steps(),
        }
    }

    /// Runs a Python module as the __main__ module.
    ///
    /// The operation returns the execution result of the module code: its
    /// value, or the error that it raised.
    ///
    /// The interpreter is automatically initialized if needed.
    pub fn run_module_as_main(&self, name: &str) -> (steps: Vec<Step<String>>)
        ensures
            script::script_of(steps@) == self.init_calls() + operations::module_script(name@),
            procedure::returned(script::script_of(steps@), Progress::Completed) == Some(
                Returned::LastValue,
            ),
    {
        let mut steps = self.init();
        push_steps(&mut steps, module_steps(name));
        steps
    }

    /// Start and run a Python REPL.
    ///
    /// This emulates what CPython's main.c does. Where it completes, the
    /// operation returns `None`.
    ///
    /// The interpreter is automatically initialized if needed.
    pub fn run_repl(&self) -> (steps: Vec<Step<String>>)
        ensures
            script::script_of(steps@) == self.init_calls() + operations::repl_script(),
            procedure::returned(script::script_of(steps@), Progress::Completed) == Some(
                Returned::NoneObject,
            ),
    {
        let mut steps = self.init();
        push_steps(&mut steps, repl_steps());
        steps
    }

    /// Runs Python code provided by a string.
    ///
    /// This is similar to what `python -c <code>` would do.
    ///
    /// The interpreter is automatically initialized if needed.
    pub fn run_code(&self, code: &str) -> (steps: Vec<Step<String>>)
        ensures
            script::script_of(steps@) == self.init_calls() + operations::code_script(code@),
            !code@.contains('\0') ==> procedure::returned(
                script::script_of(steps@),
                Progress::Completed,
            ) == Some(Returned::LastValue),
    {
        let mut steps = self.init();
        push_steps(&mut steps, code_steps(code));
        steps
    }

    /// Print a Python error.
    ///
    /// Printing may exit the process and may write to stderr.
    pub fn print_err(&self) -> (steps: Vec<Step<String>>)
        ensures
            script::script_of(steps@) == print_error_script(self.state().py),
    {
        let mut steps = self.acquire_gil();
        push_step(&mut steps, Call::PrintError, OnFailure::Ignore);
        assert(script::script_of(steps@) =~= print_error_script(self.state().py));
        steps
    }

    /// The environment variable that holds the directory for a loaded modules
    /// file.
    pub fn modules_directory_variable(&self) -> (variable: Option<&str>)
        ensures
            crate::text::optional_slice(variable)
                == crate::text::optional_text(
                self.configuration().write_modules_directory_env,
            ),
    {
        match &self.config.write_modules_directory_env {
            Some(key) => Some(key.as_str()),
            None => None,
        }
    }

    /// The calls that list the loaded modules before the interpreter is
    /// finalized, under this identifier, where the environment variable of the
    /// configuration is set to `directory`.
    pub fn list_modules_with_id(&self, directory: Option<&str>, id: &str) -> (steps: Vec<
        Step<String>,
    >)
        ensures
            script::script_of(steps@) == (if lists_modules(&self.configuration(), directory) {
                list_modules_script(self.state().py, directory->0@, id@)
            } else {
                Script::empty()
            }),
    {
        match (&self.config.write_modules_directory_env, directory) {
            (Some(_), Some(directory)) => {
                let mut steps = self.acquire_gil();
                push_steps(&mut steps, write_modules_with_id(directory, id));
                steps
            },
            _ => no_steps(),
        }
    }

    /// The calls that list the loaded modules before the interpreter is
    /// finalized, under a random identifier, where the environment variable of
    /// the configuration is set to `directory`.
    pub fn list_modules(&self, directory: Option<&str>) -> (steps: Vec<Step<String>>)
        ensures
            !lists_modules(&self.configuration(), directory) ==> script::script_of(steps@)
                == Script::empty(),
            lists_modules(&self.configuration(), directory) ==> exists|id: Seq<char>|
                modules::is_random_uuid(id) && script::script_of(steps@)
                    == #[trigger] list_modules_script(self.state().py, directory->0@, id),
    {
        match (&self.config.write_modules_directory_env, directory) {
            (Some(_), Some(directory)) => {
                let mut steps = self.acquire_gil();
                let more = write_modules_to_directory(directory);
                proof {
                    let id = choose|id: Seq<char>|
                        modules::is_random_uuid(id) && script::script_of(more@)
                            == #[trigger] modules::modules_script(directory@, id);
                    assert(list_modules_script(self.state().py, directory@, id)
                        == operations::acquire_script(self.state().py) + script::script_of(more@));
                }
                push_steps(&mut steps, more);
                steps
            },
            _ => no_steps(),
        }
    }

    /// The calls that finalize the interpreter.
    pub fn finalize(&self) -> (steps: Vec<Step<String>>)
        ensures
            script::script_of(steps@) == finalize_script(),
    {
        let mut steps = no_steps();
        push_step(&mut steps, Call::Finalize, OnFailure::Ignore);
        assert(script::script_of(steps@) =~= finalize_script());
        steps
    }

    /// The calls that end the interpreter, after those of `list_modules`.
    ///
    /// Where modules are listed, `keys` holds the keys of `sys.modules`, each as
    /// its text, or as nothing where it is not a string. They go into the
    /// modules file before the interpreter is finalized.
    pub fn shutdown(&self, keys: &Option<Vec<Option<String>>>) -> (steps: Vec<Step<String>>)
        ensures
            script::script_of(steps@) == ending_script(optional_keys(*keys)),
    {
        match keys {
            Some(keys) => {
                let mut steps = write_module_names(keys);
                push_steps(&mut steps, self.finalize());
                steps
            },
            None => self.finalize(),
        }
    }
}

} // verus!
