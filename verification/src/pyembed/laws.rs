//! What holds of an interpreter as a whole.

use vstd::prelude::*;

use crate::pyembed::config::PythonConfig;
use crate::pyembed::interpreter;
use crate::pyembed::interpreter::LifeCycle;
use crate::pyembed::modules;
use crate::pyembed::operations;
use crate::pyembed::procedure;
use crate::pyembed::procedure::{Progress, Returned};
use crate::pyembed::script::{Call, OnFailure, Script};

verus! {

/// Whether a call has to be made before the interpreter is initialized.
pub open spec fn prepares(call: Call<Seq<char>>) -> bool {
    match call {
        Call::SetRawAllocator => true,
        Call::SetFrozenModules => true,
        Call::AppendInittab(_) => true,
        Call::SetPythonHome(_) => true,
        Call::SetProgramName(_) => true,
        Call::SetStandardStreamEncoding { .. } => true,
        Call::SetFlag(flag, _) => flag != crate::pyembed::script::Flag::Inspect,
        _ => false,
    }
}

/// Whether a call needs an initialized interpreter.
pub open spec fn uses_interpreter(call: Call<Seq<char>>) -> bool {
    match call {
        Call::SetSysArguments(_) => true,
        Call::SetSysArgumentBytes(_) => true,
        Call::AddSysPath(_) => true,
        Call::SetSysTrue(_) => true,
        Call::AddModule(_) => true,
        Call::Import(_) => true,
        Call::FindSpec(_) => true,
        Call::GetSpecAttribute(_) => true,
        Call::GetCode(_) => true,
        Call::SetMainItem(_, _) => true,
        Call::EvalCode => true,
        Call::GetSysAttribute(_) => true,
        Call::CallObtained => true,
        Call::RunStandardInput(_) => true,
        Call::RunString(_) => true,
        Call::CastDictionary => true,
        Call::PrintError => true,
        _ => false,
    }
}

/// The place of the initialization in its script.
pub open spec fn initialize_at(config: &PythonConfig, raw_allocator: bool) -> int {
    operations::preparation_script(config, raw_allocator).len() as int
}

/// A handle and a finished initialization outlast every call.
proof fn lemma_after_all_keeps(state: LifeCycle, script: Script)
    ensures
        state.init_run ==> state.after_all(script).init_run,
        state.py ==> state.after_all(script).py,
        state.wf() ==> state.after_all(script).wf(),
    decreases script.len(),
{
    if script.len() > 0 {
        lemma_after_all_keeps(state, script.drop_last());
    }
}

/// The calls of two scripts in a row are those of their concatenation.
proof fn lemma_after_all_concat(state: LifeCycle, first: Script, second: Script)
    ensures
        state.after_all(first + second) == state.after_all(first).after_all(second),
    decreases second.len(),
{
    if second.len() == 0 {
        assert(first + second =~= first);
    } else {
        lemma_after_all_concat(state, first, second.drop_last());
        assert((first + second).drop_last() =~= first + second.drop_last());
    }
}

/// What stands where in the script of the initialization.
proof fn lemma_initialization_script(config: &PythonConfig, raw_allocator: bool)
    ensures
        ({
            let script = operations::initialization_script(config, raw_allocator);
            let at = initialize_at(config, raw_allocator);
            &&& 2 < at < script.len() - 2
            &&& script[at] == operations::step(Call::Initialize, OnFailure::Ignore)
            &&& script[at - 1].on_failure == OnFailure::Ignore
            &&& forall|i: int|
                0 <= i < at ==> (prepares((#[trigger] script[i]).call) || script[i].call
                    == Call::<Seq<char>>::Reject) && (script[i].on_failure == OnFailure::Ignore
                    || script[i].on_failure is Panic)
            &&& forall|i: int|
                at < i < script.len() ==> (uses_interpreter((#[trigger] script[i]).call)
                    || script[i].call == Call::<Seq<char>>::Reject) && script[i].on_failure is Panic
        }),
{
    let script = operations::initialization_script(config, raw_allocator);
    let at = initialize_at(config, raw_allocator);
    let first = operations::replacement_script(config, raw_allocator);
    let second = operations::name_script(config);
    let third = operations::stream_script(config.standard_io_encoding, config.standard_io_errors);
    let fourth = operations::flag_script(config);
    let before = operations::preparation_script(config, raw_allocator);
    let last = operations::process_script(config);
    assert(before =~= first + second + third + fourth);
    assert(before[at - 1] == fourth[5]);
    assert forall|i: int| 0 <= i < at implies (prepares((#[trigger] script[i]).call)
        || script[i].call == Call::<Seq<char>>::Reject) && (script[i].on_failure
        == OnFailure::Ignore || script[i].on_failure is Panic) by {
        assert(script[i] == before[i]);
        if i < first.len() {
            assert(before[i] == first[i]);
        } else if i < first.len() + second.len() {
            assert(before[i] == second[i - first.len()]);
        } else if i < first.len() + second.len() + third.len() {
            assert(before[i] == third[i - first.len() - second.len()]);
        } else {
            assert(before[i] == fourth[i - first.len() - second.len() - third.len()]);
        }
    }
    let arguments = operations::argument_script(config.argvb);
    let paths = operations::sys_path_script(config.sys_paths@, config.exe);
    assert forall|i: int| at < i < script.len() implies (uses_interpreter(
        (#[trigger] script[i]).call,
    ) || script[i].call == Call::<Seq<char>>::Reject) && script[i].on_failure is Panic by {
        let k = i - at - 1;
        assert(script[i] == last[k]);
        if k < arguments.len() {
            assert(last[k] == arguments[k]);
        } else if k < arguments.len() + paths.len() {
            assert(last[k] == paths[k - arguments.len()]);
        }
    }
}

/// There is a handle on the interpreter exactly where the GIL is held.
pub proof fn law_handle_where_gil_is_held(state: LifeCycle, call: Call<Seq<char>>)
    requires
        state.wf(),
    ensures
        LifeCycle::fresh().wf(),
        state.after(call).wf(),
        state.released().wf(),
{
}

/// After the calls of `init` the interpreter is initialized, there is a handle on
/// it, and the GIL is held.
pub proof fn law_init_gives_a_handle(
    state: LifeCycle,
    config: &PythonConfig,
    raw_allocator: bool,
)
    ensures
        state.after_all(interpreter::init_script(state, config, raw_allocator)).init_run,
        state.after_all(interpreter::init_script(state, config, raw_allocator)).py,
        state.wf() ==> state.after_all(
            interpreter::init_script(state, config, raw_allocator),
        ).holds_gil(),
{
    let script = interpreter::init_script(state, config, raw_allocator);
    lemma_after_all_keeps(state, script);
    if state.init_run {
        if !state.py {
            assert(script.last().call == Call::<Seq<char>>::AcquireGil);
        } else {
            assert(script.len() == 0);
        }
    } else {
        let before = operations::preparation_script(config, raw_allocator);
        let initialize = seq![operations::step(Call::Initialize, OnFailure::Ignore)];
        let last = operations::process_script(config);
        lemma_after_all_concat(state, before + initialize, last);
        lemma_after_all_concat(state, before, initialize);
        assert(initialize.last().call == Call::<Seq<char>>::Initialize);
        lemma_after_all_keeps(state.after_all(before + initialize), last);
    }
}

/// If `init` is called more than once, it is a no-op: once its calls have been
/// made, it asks for none, whatever the config has become.
pub proof fn law_init_is_idempotent(
    state: LifeCycle,
    config: &PythonConfig,
    raw_allocator: bool,
    later_config: &PythonConfig,
)
    ensures
        interpreter::init_script(
            state.after_all(interpreter::init_script(state, config, raw_allocator)),
            later_config,
            raw_allocator,
        ) == Script::empty(),
{
    law_init_gives_a_handle(state, config, raw_allocator);
}

/// After the GIL was released, it is not held, even where it was the
/// initialization that took it; acquiring it takes it anew.
pub proof fn law_release_gives_up_the_gil(state: LifeCycle)
    ensures
        !state.released().holds_gil(),
        !state.released().py,
        state.released().init_run == state.init_run,
        operations::acquire_script(state.released().py) == seq![
            operations::step(Call::AcquireGil, OnFailure::Ignore),
        ],
        state.released().after(Call::AcquireGil).holds_gil(),
{
}

/// Once an interpreter is initialized, `init` never initializes it again: after
/// the GIL was released, it only acquires the GIL.
pub proof fn law_init_after_release(
    state: LifeCycle,
    config: &PythonConfig,
    raw_allocator: bool,
)
    requires
        state.init_run,
    ensures
        interpreter::init_script(state.released(), config, raw_allocator) == seq![
            operations::step(Call::AcquireGil, OnFailure::Ignore),
        ],
        state.released().after(Call::AcquireGil).gil,
        state.released().after(Call::AcquireGil).py,
        state.released().after(Call::AcquireGil).init_run,
{
}

/// Acquiring the GIL twice in a row makes one call.
pub proof fn law_acquire_is_idempotent(state: LifeCycle)
    ensures
        operations::acquire_script(state.after_all(operations::acquire_script(state.py)).py)
            == Script::empty(),
{
    let script = operations::acquire_script(state.py);
    if !state.py {
        assert(script.last().call == Call::<Seq<char>>::AcquireGil);
    }
}

/// The script of the initialization initializes once, and makes every call that
/// has to come before that one before it.
pub proof fn law_prepared_then_initialized_once(config: &PythonConfig, raw_allocator: bool)
    ensures
        ({
            let script = operations::initialization_script(config, raw_allocator);
            let at = initialize_at(config, raw_allocator);
            &&& forall|i: int|
                0 <= i < script.len() ==> (#[trigger] script[i].call
                    == Call::<Seq<char>>::Initialize <==> i == at)
            &&& forall|i: int|
                0 <= i < script.len() && prepares(#[trigger] script[i].call) ==> i < at
        }),
{
    lemma_initialization_script(config, raw_allocator);
}

/// The interpreter is automatically initialized if needed: whatever an
/// operation does after the initialization, and however its calls go, a call
/// that needs an initialized interpreter is made only after it was initialized.
pub proof fn law_initialized_before_use(
    config: &PythonConfig,
    raw_allocator: bool,
    body: Script,
    outcomes: spec_fn(int) -> bool,
    used: int,
)
    requires
        ({
            let script = operations::initialization_script(config, raw_allocator) + body;
            &&& procedure::performed(script, outcomes, 0).contains(used)
            &&& uses_interpreter(script[used].call) || used
                >= operations::initialization_script(config, raw_allocator).len()
        }),
    ensures
        ({
            let script = operations::initialization_script(config, raw_allocator) + body;
            let at = initialize_at(config, raw_allocator);
            &&& script[at].call == Call::<Seq<char>>::Initialize
            &&& procedure::performed(script, outcomes, 0).contains(at)
            &&& at < used
        }),
{
    let first = operations::initialization_script(config, raw_allocator);
    let script = first + body;
    let at = initialize_at(config, raw_allocator);
    let all = procedure::performed(script, outcomes, 0);
    lemma_initialization_script(config, raw_allocator);
    procedure::law_steps_in_order(script, outcomes, 0);
    assert(script[at] == first[at]);
    assert(script[at - 1] == first[at - 1]);
    if used < first.len() {
        assert(script[used] == first[used]);
    }
    assert(at < used);
    let k = choose|k: int| 0 <= k < all.len() && all[k] == used;
    assert(all[k] <= all.last());
    if !all.contains(at) {
        procedure::law_left_out_steps(script, outcomes, 0, at);
    }
}

/// Where an operation ends before the interpreter is initialized, it panics, and
/// the interpreter stays uninitialized.
pub proof fn law_early_failure_initializes_nothing(
    config: &PythonConfig,
    raw_allocator: bool,
    body: Script,
    outcomes: spec_fn(int) -> bool,
)
    requires
        ({
            let script = operations::initialization_script(config, raw_allocator) + body;
            procedure::performed(script, outcomes, 0).last() < initialize_at(config, raw_allocator)
        }),
    ensures
        ({
            let script = operations::initialization_script(config, raw_allocator) + body;
            let all = procedure::performed(script, outcomes, 0);
            &&& !all.contains(initialize_at(config, raw_allocator))
            &&& procedure::ending(script, outcomes, 0) is Panic
        }),
{
    let first = operations::initialization_script(config, raw_allocator);
    let script = first + body;
    let at = initialize_at(config, raw_allocator);
    let all = procedure::performed(script, outcomes, 0);
    lemma_initialization_script(config, raw_allocator);
    procedure::law_steps_in_order(script, outcomes, 0);
    procedure::law_failure_ends_operation(script, outcomes, 0);
    assert(all.len() > 0);
    assert(script[all.last()] == first[all.last()]);
    if procedure::ending(script, outcomes, 0) == Progress::Completed {
        procedure::law_completed_at_the_end(script, outcomes, 0);
    }
    if all.contains(at) {
        let k = choose|k: int| 0 <= k < all.len() && all[k] == at;
        assert(all[k] <= all.last());
    }
}

/// The place of the first path in the script of the initialization.
pub open spec fn sys_paths_at(config: &PythonConfig, raw_allocator: bool) -> int {
    initialize_at(config, raw_allocator) + 1 + operations::argument_script(config.argvb).len()
}

/// The script of the initialization adds the configured paths to `sys.path` once
/// the interpreter is initialized, each path once and in their order, and no
/// other path. Its last call marks the application as a self-contained one.
pub proof fn law_sys_is_set_up(config: &PythonConfig, raw_allocator: bool)
    ensures
        ({
            let script = operations::initialization_script(config, raw_allocator);
            let first = sys_paths_at(config, raw_allocator);
            let count = config.sys_paths@.len();
            &&& initialize_at(config, raw_allocator) < first
            &&& script.len() == first + count + 1
            &&& forall|i: int|
                0 <= i < count ==> #[trigger] script[first + i] == operations::sys_path_step(
                    config.sys_paths@[i],
                    config.exe,
                )
            &&& forall|j: int|
                0 <= j < script.len() && #[trigger] script[j].call is AddSysPath ==> first <= j
                    < first + count
            &&& script.last() == operations::frozen_step()
        }),
{
    let script = operations::initialization_script(config, raw_allocator);
    let at = initialize_at(config, raw_allocator);
    let first = sys_paths_at(config, raw_allocator);
    let arguments = operations::argument_script(config.argvb);
    let paths = operations::sys_path_script(config.sys_paths@, config.exe);
    let last = operations::process_script(config);
    lemma_initialization_script(config, raw_allocator);
    assert forall|i: int| 0 <= i < config.sys_paths@.len() implies #[trigger] script[first + i]
        == operations::sys_path_step(config.sys_paths@[i], config.exe) by {
        assert(script[first + i] == last[arguments.len() + i]);
        assert(last[arguments.len() + i] == paths[i]);
    }
    assert forall|j: int| 0 <= j < script.len() && #[trigger] script[j].call is AddSysPath implies first
        <= j < first + config.sys_paths@.len() by {
        if at < j < first {
            assert(script[j] == last[j - at - 1]);
            assert(last[j - at - 1] == arguments[j - at - 1]);
        } else if j == first + paths.len() {
            assert(script[j] == last.last());
        }
    }
}

/// Where a first `init` returns, every path of the configuration has been added
/// to `sys.path`, with the path of the application in the place of `.`, and
/// `sys.frozen` is `True`.
pub proof fn law_init_sets_up_sys(
    config: &PythonConfig,
    raw_allocator: bool,
    outcomes: spec_fn(int) -> bool,
)
    requires
        ({
            let script = operations::initialization_script(config, raw_allocator);
            &&& procedure::ending(script, outcomes, 0) == Progress::Completed
            &&& forall|i: int|
                0 <= i < script.len() && (#[trigger] script[i]).call == Call::<Seq<char>>::Reject
                    ==> !outcomes(i)
        }),
    ensures
        ({
            let script = operations::initialization_script(config, raw_allocator);
            let all = procedure::performed(script, outcomes, 0);
            let first = sys_paths_at(config, raw_allocator);
            let frozen = script.len() - 1;
            &&& forall|i: int|
                0 <= i < config.sys_paths@.len() ==> {
                    &&& operations::resolved(#[trigger] config.sys_paths@[i], config.exe) is Unicode
                    &&& script[first + i].call == Call::AddSysPath(
                        operations::resolved(config.sys_paths@[i], config.exe)->0@,
                    )
                    &&& all.contains(first + i)
                    &&& outcomes(first + i)
                }
            &&& script[frozen].call == Call::SetSysTrue("frozen"@)
            &&& all.contains(frozen)
            &&& outcomes(frozen)
        }),
{
    let script = operations::initialization_script(config, raw_allocator);
    let all = procedure::performed(script, outcomes, 0);
    let at = initialize_at(config, raw_allocator);
    let first = sys_paths_at(config, raw_allocator);
    let frozen = script.len() - 1;
    lemma_initialization_script(config, raw_allocator);
    law_sys_is_set_up(config, raw_allocator);
    assert forall|i: int| 0 <= i < script.len() implies (#[trigger] script[i]).on_failure
        != OnFailure::SkipNext by {}
    procedure::law_completed_without_skips(script, outcomes, 0);
    assert forall|i: int| 0 <= i < script.len() implies all.contains(i) by {
        assert(all[i] == i);
    }
    assert forall|i: int| 0 <= i < config.sys_paths@.len() implies {
        &&& operations::resolved(#[trigger] config.sys_paths@[i], config.exe) is Unicode
        &&& script[first + i].call == Call::AddSysPath(
            operations::resolved(config.sys_paths@[i], config.exe)->0@,
        )
        &&& all.contains(first + i)
        &&& outcomes(first + i)
    } by {
        assert(script[first + i] == operations::sys_path_step(config.sys_paths@[i], config.exe));
    }
    assert(script[frozen] == script.last());
}

/// Whatever comes before it, a REPL that completes returns `None`, and a module
/// or a string of code returns the value of its code.
pub proof fn law_returned_values(before: Script, name: Seq<char>, code: Seq<char>)
    requires
        !code.contains('\0'),
    ensures
        procedure::returned(before + operations::repl_script(), Progress::Completed) == Some(
            Returned::NoneObject,
        ),
        procedure::returned(before + operations::module_script(name), Progress::Completed) == Some(
            Returned::LastValue,
        ),
        procedure::returned(before + operations::code_script(code), Progress::Completed) == Some(
            Returned::LastValue,
        ),
{
    let repl = operations::repl_script();
    let module = operations::module_script(name);
    let string = operations::code_script(code);
    assert((before + repl).last() == repl.last());
    assert((before + module).last() == module.last());
    assert((before + string).last() == string.last());
}

/// Where the code of a module raises an error, that error is what the operation
/// returns.
pub proof fn law_module_error_is_returned(
    before: Script,
    name: Seq<char>,
    outcomes: spec_fn(int) -> bool,
)
    requires
        ({
            let script = before + operations::module_script(name);
            &&& procedure::performed(script, outcomes, 0).contains(script.len() - 1)
            &&& !outcomes(script.len() - 1)
        }),
    ensures
        ({
            let script = before + operations::module_script(name);
            let ended = procedure::ending(script, outcomes, 0);
            &&& script.last().call == Call::<Seq<char>>::EvalCode
            &&& ended == Progress::ReturnError
            &&& procedure::returned(script, ended) == Some(Returned::Error)
            &&& procedure::performed(script, outcomes, 0).last() == script.len() - 1
        }),
{
    let module = operations::module_script(name);
    let script = before + module;
    let all = procedure::performed(script, outcomes, 0);
    assert(script.last() == module.last());
    procedure::law_steps_in_order(script, outcomes, 0);
    procedure::law_failure_ends_operation(script, outcomes, 0);
    let k = choose|k: int| 0 <= k < all.len() && all[k] == script.len() - 1;
    assert(all[k] <= all.last());
    assert(all.last() < script.len());
}

/// Once the GIL has been acquired, it is held, and there is a handle.
pub proof fn law_acquired(state: LifeCycle)
    requires
        state.wf(),
    ensures
        state.after_all(operations::acquire_script(state.py)).py,
        state.after_all(operations::acquire_script(state.py)).holds_gil(),
        state.after_all(operations::acquire_script(state.py)).wf(),
{
    let script = operations::acquire_script(state.py);
    lemma_after_all_keeps(state, script);
    if !state.py {
        assert(script.last().call == Call::<Seq<char>>::AcquireGil);
    }
}

/// On shutdown an interpreter is finalized exactly once, by the last call, whose
/// status is ignored. Where modules are listed, that comes before, with the GIL
/// held from then on; where they are not, finalizing is the only call.
pub proof fn law_listed_then_finalized(
    state: LifeCycle,
    directory: Option<Seq<char>>,
    id: Seq<char>,
    keys: Seq<Option<Seq<char>>>,
)
    requires
        state.wf(),
    ensures
        ({
            let script = interpreter::shutdown_script(state.py, directory, id, keys);
            let finalize = operations::step(Call::Finalize, OnFailure::Ignore);
            &&& script.last() == finalize
            &&& forall|i: int|
                0 <= i < script.len() ==> (#[trigger] script[i].call == Call::<Seq<char>>::Finalize
                    <==> i == script.len() - 1)
            &&& directory is Some ==> script == operations::acquire_script(state.py)
                + modules::modules_script(directory->0, id) + modules::module_names_script(keys)
                + seq![finalize]
            &&& directory is Some ==> state.after_all(
                operations::acquire_script(state.py),
            ).holds_gil()
            &&& directory is Some ==> state.after_all(script.drop_last()).holds_gil()
            &&& directory is None ==> script == seq![finalize]
        }),
{
    let script = interpreter::shutdown_script(state.py, directory, id, keys);
    let acquire = operations::acquire_script(state.py);
    let finalize = operations::step(Call::Finalize, OnFailure::Ignore);
    law_acquired(state);
    match directory {
        Some(directory) => {
            let open = modules::modules_script(directory, id);
            let names = modules::module_names_script(keys);
            assert(script =~= acquire + open + names + seq![finalize]);
            assert(script.drop_last() =~= acquire + (open + names));
            lemma_after_all_concat(state, acquire, open + names);
            lemma_after_all_keeps(state.after_all(acquire), open + names);
            assert forall|i: int| 0 <= i < script.len() implies (#[trigger] script[i].call
                == Call::<Seq<char>>::Finalize <==> i == script.len() - 1) by {
                if i < acquire.len() {
                    assert(script[i] == acquire[i]);
                } else if i < acquire.len() + open.len() {
                    assert(script[i] == open[i - acquire.len()]);
                } else if i < script.len() - 1 {
                    assert(script[i] == names[i - acquire.len() - open.len()]);
                }
            }
        },
        None => {},
    }
}

} // verus!
