//! Walking through a script of calls.

use vstd::prelude::*;

use crate::pyembed::script::{Call, Failure, OnFailure, Script, Step};

verus! {

/// Where a procedure stands after a step.
#[derive(Clone, Copy, Debug, PartialEq, Eq, Structural)]
pub enum Progress {
    /// There is another step to perform.
    Continue,
    /// The operation is complete.
    Completed,
    /// The operation returns the Python error of the step.
    ReturnError,
    /// The operation panics.
    Panic(Failure),
}

/// Going on at step `next`: there is a step to perform, or the script is over.
pub open spec fn go_on(script: Script, next: int) -> (int, Progress) {
    if next < script.len() {
        (next, Progress::Continue)
    } else {
        (script.len() as int, Progress::Completed)
    }
}

/// The position after step `at` succeeded or failed, and what that means for
/// the operation.
pub open spec fn after_step(script: Script, at: int, succeeded: bool) -> (int, Progress) {
    let over = script.len() as int;
    if succeeded {
        go_on(script, at + 1)
    } else {
        match script[at].on_failure {
            OnFailure::Ignore => go_on(script, at + 1),
            OnFailure::SkipNext => go_on(script, at + 2),
            OnFailure::ReturnError => (over, Progress::ReturnError),
            OnFailure::Panic(failure) => (over, Progress::Panic(failure)),
        }
    }
}

/// The steps that are performed from step `at` on, where `outcomes` says of
/// each step whether it succeeds.
pub open spec fn performed(script: Script, outcomes: spec_fn(int) -> bool, at: int) -> Seq<int>
    decreases script.len() - at,
{
    if 0 <= at < script.len() {
        seq![at] + performed(script, outcomes, after_step(script, at, outcomes(at)).0)
    } else {
        Seq::empty()
    }
}

/// How the operation ends from step `at` on.
pub open spec fn ending(script: Script, outcomes: spec_fn(int) -> bool, at: int) -> Progress
    decreases script.len() - at,
{
    if 0 <= at < script.len() {
        let (next, progress) = after_step(script, at, outcomes(at));
        if progress == Progress::Continue {
            ending(script, outcomes, next)
        } else {
            progress
        }
    } else {
        Progress::Completed
    }
}

/// Whether a step that fails this way lets the operation go on.
pub open spec fn tolerated(on_failure: OnFailure) -> bool {
    on_failure == OnFailure::Ignore || on_failure == OnFailure::SkipNext
}

/// What an operation returns.
#[derive(Clone, Copy, Debug, PartialEq, Eq, Structural)]
pub enum Returned {
    /// The value of the code that its last call ran.
    LastValue,
    /// `None`
    NoneObject,
    /// The Python error of the step that failed.
    Error,
}

/// Whether a call runs code and gives its value.
pub open spec fn gives_value(call: Call<Seq<char>>) -> bool {
    call == Call::<Seq<char>>::EvalCode || call is RunString
}

/// What an operation with this script returns where it has ended this way. One
/// that goes on or panics returns nothing.
pub open spec fn returned(script: Script, ended: Progress) -> Option<Returned> {
    match ended {
        Progress::Continue => None,
        Progress::Completed => if script.len() > 0 && gives_value(script.last().call) {
            Some(Returned::LastValue)
        } else {
            Some(Returned::NoneObject)
        },
        Progress::ReturnError => Some(Returned::Error),
        Progress::Panic(_) => None,
    }
}

/// A script that is being performed.
#[derive(Debug)]
pub struct Procedure {
    steps: Vec<Step<String>>,
    next: usize,
}

impl Procedure {
    /// The whole script.
    pub closed spec fn script(&self) -> Script {
        crate::pyembed::script::script_of(self.steps@)
    }

    /// The step that is to be performed, or the length of the script.
    pub closed spec fn position(&self) -> int {
        self.next as int
    }

    /// The position lies in the script or at its end.
    pub open spec fn wf(&self) -> bool {
        0 <= self.position() <= self.script().len()
    }

    /// Starts at the first step.
    pub fn new(steps: Vec<Step<String>>) -> (procedure: Procedure)
        ensures
            procedure.wf(),
            procedure.script() == crate::pyembed::script::script_of(steps@),
            procedure.position() == 0,
    {
        Procedure { steps, next: 0 }
    }

    /// The step that is to be performed, unless the operation is over.
    pub fn current(&self) -> (step: Option<&Step<String>>)
        requires
            self.wf(),
        ensures
            match step {
                Some(step) => self.position() < self.script().len() && step@
                    == self.script()[self.position()],
                None => self.position() == self.script().len(),
            },
    {
        if self.next < self.steps.len() {
            Some(&self.steps[self.next])
        } else {
            None
        }
    }

    /// Takes note of how the current step went.
    pub fn report(&mut self, succeeded: bool) -> (progress: Progress)
        requires
            old(self).wf(),
            old(self).position() < old(self).script().len(),
        ensures
            final(self).wf(),
            final(self).script() == old(self).script(),
            (final(self).position(), progress) == after_step(
                old(self).script(),
                old(self).position(),
                succeeded,
            ),
    {
        let over = self.steps.len();
        let on_failure = self.steps[self.next].on_failure;
        let ghost at = self.next;
        assert(self.script()[at as int].on_failure == on_failure);
        self.next = self.next + 1;
        if !succeeded {
            match on_failure {
                OnFailure::Ignore => {},
                OnFailure::SkipNext => {
                    if self.next < over {
                        self.next = self.next + 1;
                    }
                },
                OnFailure::ReturnError => {
                    self.next = over;
                    return Progress::ReturnError;
                },
                OnFailure::Panic(failure) => {
                    self.next = over;
                    return Progress::Panic(failure);
                },
            }
        }
        if self.next < over {
            Progress::Continue
        } else {
            Progress::Completed
        }
    }

    /// What the operation returns where it has ended this way.
    pub fn returned(&self, ended: Progress) -> (value: Option<Returned>)
        ensures
            value == returned(self.script(), ended),
    {
        match ended {
            Progress::Continue => None,
            Progress::Completed => {
                let count = self.steps.len();
                if count == 0 {
                    return Some(Returned::NoneObject);
                }
                assert(self.script().last() == self.steps@.last()@);
                match &self.steps[count - 1].call {
                    Call::EvalCode => Some(Returned::LastValue),
                    Call::RunString(_) => Some(Returned::LastValue),
                    _ => Some(Returned::NoneObject),
                }
            },
            Progress::ReturnError => Some(Returned::Error),
            Progress::Panic(_) => None,
        }
    }
}

/// Steps are performed in the order of the script, none of them twice.
pub proof fn law_steps_in_order(script: Script, outcomes: spec_fn(int) -> bool, at: int)
    requires
        0 <= at,
    ensures
        forall|k: int|
            0 <= k < performed(script, outcomes, at).len() ==> at <= #[trigger] performed(
                script,
                outcomes,
                at,
            )[k] < script.len(),
        forall|j: int, k: int|
            0 <= j < k < performed(script, outcomes, at).len() ==> #[trigger] performed(
                script,
                outcomes,
                at,
            )[j] < #[trigger] performed(script, outcomes, at)[k],
    decreases script.len() - at,
{
    if at < script.len() {
        let next = after_step(script, at, outcomes(at)).0;
        law_steps_in_order(script, outcomes, next);
        let rest = performed(script, outcomes, next);
        let all = performed(script, outcomes, at);
        assert forall|k: int| 0 < k < all.len() implies all[k] == rest[k - 1] by {}
    }
}

/// Where every step succeeds, every step is performed and the operation is
/// complete.
pub proof fn law_success_performs_every_step(
    script: Script,
    outcomes: spec_fn(int) -> bool,
    at: int,
)
    requires
        0 <= at <= script.len(),
        forall|i: int| #[trigger] outcomes(i),
    ensures
        performed(script, outcomes, at) == Seq::new((script.len() - at) as nat, |k: int| at + k),
        ending(script, outcomes, at) == Progress::Completed,
    decreases script.len() - at,
{
    if at < script.len() {
        assert(outcomes(at));
        law_success_performs_every_step(script, outcomes, at + 1);
        assert(performed(script, outcomes, at) =~= Seq::new(
            (script.len() - at) as nat,
            |k: int| at + k,
        ));
    } else {
        assert(performed(script, outcomes, at) =~= Seq::new(
            (script.len() - at) as nat,
            |k: int| at + k,
        ));
    }
}

/// The ending that a failed step gives an operation which it does not let go
/// on.
pub open spec fn ending_of(on_failure: OnFailure) -> Progress {
    match on_failure {
        OnFailure::Ignore => Progress::Continue,
        OnFailure::SkipNext => Progress::Continue,
        OnFailure::ReturnError => Progress::ReturnError,
        OnFailure::Panic(failure) => Progress::Panic(failure),
    }
}

/// The first failed step that does not let the operation go on is the last
/// step that is performed, and decides how the operation ends. Where there is
/// no such step the operation is complete.
pub proof fn law_failure_ends_operation(script: Script, outcomes: spec_fn(int) -> bool, at: int)
    requires
        0 <= at,
    ensures
        ({
            let all = performed(script, outcomes, at);
            let end = ending(script, outcomes, at);
            &&& forall|k: int|
                0 <= k < all.len() - 1 ==> outcomes(#[trigger] all[k]) || tolerated(
                    script[all[k]].on_failure,
                )
            &&& end == Progress::Completed <==> (forall|k: int|
                0 <= k < all.len() ==> outcomes(#[trigger] all[k]) || tolerated(
                    script[all[k]].on_failure,
                ))
            &&& end != Progress::Completed ==> all.len() > 0 && !outcomes(all.last()) && end
                == ending_of(script[all.last()].on_failure)
        }),
    decreases script.len() - at,
{
    if at < script.len() {
        let (next, progress) = after_step(script, at, outcomes(at));
        law_failure_ends_operation(script, outcomes, next);
        let rest = performed(script, outcomes, next);
        let all = performed(script, outcomes, at);
        assert(all[0] == at);
        assert forall|k: int| 0 < k < all.len() implies all[k] == rest[k - 1] by {}
        assert forall|k: int| 0 <= k < rest.len() implies rest[k] == all[k + 1] by {}
        if progress == Progress::Continue {
            assert(rest.len() > 0);
            assert(all.last() == rest.last());
        } else {
            assert(rest.len() == 0);
        }
    }
}

/// A complete operation has come to the end of its script: its last step was
/// performed, or left out because the step before it failed and says so.
pub proof fn law_completed_at_the_end(script: Script, outcomes: spec_fn(int) -> bool, at: int)
    requires
        0 <= at < script.len(),
        ending(script, outcomes, at) == Progress::Completed,
    ensures
        ({
            let last = performed(script, outcomes, at).last();
            ||| last == script.len() - 1
            ||| last == script.len() - 2 && !outcomes(last) && script[last].on_failure
                == OnFailure::SkipNext
        }),
    decreases script.len() - at,
{
    let (next, progress) = after_step(script, at, outcomes(at));
    let rest = performed(script, outcomes, next);
    let all = performed(script, outcomes, at);
    if progress == Progress::Continue {
        law_completed_at_the_end(script, outcomes, next);
        assert(rest.len() > 0);
        assert(all.last() == rest.last());
    } else {
        assert(rest.len() == 0);
        assert(all.last() == at);
    }
}

/// Where no step can leave the next one out, a complete operation has performed
/// every step, and only steps whose failure is ignored have failed.
pub proof fn law_completed_without_skips(
    script: Script,
    outcomes: spec_fn(int) -> bool,
    at: int,
)
    requires
        0 <= at <= script.len(),
        forall|i: int| 0 <= i < script.len() ==> (#[trigger] script[i]).on_failure != OnFailure::SkipNext,
        ending(script, outcomes, at) == Progress::Completed,
    ensures
        performed(script, outcomes, at) == Seq::new((script.len() - at) as nat, |k: int| at + k),
        forall|i: int|
            at <= i < script.len() ==> outcomes(i) || (#[trigger] script[i]).on_failure
                == OnFailure::Ignore,
    decreases script.len() - at,
{
    if at < script.len() {
        let (next, progress) = after_step(script, at, outcomes(at));
        assert(script[at].on_failure != OnFailure::SkipNext);
        assert(next == at + 1);
        law_completed_without_skips(script, outcomes, next);
    }
    assert(performed(script, outcomes, at) =~= Seq::new((script.len() - at) as nat, |k: int| at + k));
}

/// A step between two performed ones is left out only where the step before it
/// failed and says so.
pub proof fn law_left_out_steps(
    script: Script,
    outcomes: spec_fn(int) -> bool,
    at: int,
    left_out: int,
)
    requires
        0 <= at < left_out,
        performed(script, outcomes, at).len() > 0,
        left_out < performed(script, outcomes, at).last(),
        !performed(script, outcomes, at).contains(left_out),
    ensures
        performed(script, outcomes, at).contains(left_out - 1),
        !outcomes(left_out - 1),
        script[left_out - 1].on_failure == OnFailure::SkipNext,
    decreases script.len() - at,
{
    let (next, progress) = after_step(script, at, outcomes(at));
    let rest = performed(script, outcomes, next);
    let all = performed(script, outcomes, at);
    law_steps_in_order(script, outcomes, next);
    assert(all[0] == at);
    assert forall|k: int| 0 <= k < rest.len() implies rest[k] == all[k + 1] by {}
    assert(all.last() > at);
    assert(rest.len() > 0);
    assert(all.last() == rest.last());
    assert(rest[0] == next);
    assert forall|i: int| rest.contains(i) implies all.contains(i) by {
        let k = choose|k: int| 0 <= k < rest.len() && rest[k] == i;
        assert(all[k + 1] == i);
    }
    if left_out < next {
        assert(all.contains(at));
    } else {
        assert(rest.contains(next));
        law_left_out_steps(script, outcomes, next, left_out);
    }
}

} // verus!
