//! The order of a stage-and-launch run.
//!
//! A run clears the staging directory, fetches the repository, starts the
//! runtime once to import the project and once more to run it. Each step is
//! performed outside; what it reported decides the next step here.

use crate::error::{ErrorClass, ErrorKind};
use vstd::prelude::*;

verus! {

/// Where a run stands: the step to perform next, or how the run ended.
#[derive(Clone, Copy, Debug, PartialEq, Eq, Structural)]
pub enum Step {
    /// Remove what an earlier run left in the staging directory.
    ClearStaging,
    /// Fetch the repository into the staging directory.
    Fetch,
    /// Start the runtime headless on the project, and wait for it.
    Import,
    /// Start the runtime on the project with the extra arguments, and wait.
    Run,
    /// All steps are done.
    Finished,
    /// A step failed, and the run with it.
    Aborted(ErrorKind),
}

/// What the outside reported of the step it performed.
#[derive(Clone, Copy, Debug, PartialEq, Eq, Structural)]
pub enum Outcome {
    Succeeded,
    Failed,
}

/// The step after `step`, given what was reported of it.
pub open spec fn next_step(step: Step, outcome: Outcome) -> Step {
    match step {
        Step::ClearStaging => match outcome {
            Outcome::Succeeded => Step::Fetch,
            Outcome::Failed => Step::Aborted(ErrorKind::StaleStagingRemovalFailed),
        },
        Step::Fetch => match outcome {
            Outcome::Succeeded => Step::Import,
            Outcome::Failed => Step::Aborted(ErrorKind::FetchFailed),
        },
        Step::Import => match outcome {
            Outcome::Succeeded => Step::Run,
            Outcome::Failed => Step::Aborted(ErrorKind::RuntimeSpawnFailed),
        },
        Step::Run => match outcome {
            Outcome::Succeeded => Step::Finished,
            Outcome::Failed => Step::Aborted(ErrorKind::RuntimeSpawnFailed),
        },
        Step::Finished => Step::Finished,
        Step::Aborted(kind) => Step::Aborted(kind),
    }
}

/// Whether a run has ended at `step`.
pub open spec fn is_final(step: Step) -> bool {
    step is Finished || step is Aborted
}

/// The first step of every run.
pub fn first_step() -> (step: Step)
    ensures
        step == Step::ClearStaging,
{
    Step::ClearStaging
}

/// Whether the run has ended.
pub fn has_ended(step: Step) -> (ended: bool)
    ensures
        ended == is_final(step),
{
    match step {
        Step::Finished => true,
        Step::Aborted(_) => true,
        _ => false,
    }
}

/// Takes the run from `step` to the next one, given what the outside
/// reported of `step`. A run that has ended stays where it is.
pub fn advance(step: Step, outcome: Outcome) -> (next: Step)
    ensures
        next == next_step(step, outcome),
{
    match step {
        Step::ClearStaging => match outcome {
            Outcome::Succeeded => Step::Fetch,
            Outcome::Failed => Step::Aborted(ErrorKind::StaleStagingRemovalFailed),
        },
        Step::Fetch => match outcome {
            Outcome::Succeeded => Step::Import,
            Outcome::Failed => Step::Aborted(ErrorKind::FetchFailed),
        },
        Step::Import => match outcome {
            Outcome::Succeeded => Step::Run,
            Outcome::Failed => Step::Aborted(ErrorKind::RuntimeSpawnFailed),
        },
        Step::Run => match outcome {
            Outcome::Succeeded => Step::Finished,
            Outcome::Failed => Step::Aborted(ErrorKind::RuntimeSpawnFailed),
        },
        Step::Finished => Step::Finished,
        Step::Aborted(kind) => Step::Aborted(kind),
    }
}

/// What starting the runtime and waiting for it comes to: a failure only
/// where the process could not be started. How the process exited, and
/// whether that could be learnt at all, is not looked at.
pub fn process_outcome(spawned: bool, exit_code: Option<i32>) -> (outcome: Outcome)
    ensures
        outcome == (if spawned {
            Outcome::Succeeded
        } else {
            Outcome::Failed
        }),
{
    if spawned {
        Outcome::Succeeded
    } else {
        Outcome::Failed
    }
}

/// What clearing the staging directory comes to: a failure only where
/// something was there and could not be removed.
pub fn clearing_outcome(existed: bool, removed: bool) -> (outcome: Outcome)
    ensures
        outcome == (if existed && !removed {
            Outcome::Failed
        } else {
            Outcome::Succeeded
        }),
{
    if existed && !removed {
        Outcome::Failed
    } else {
        Outcome::Succeeded
    }
}

/// The step reached from `step` after the outcomes in `outcomes`, in order.
pub open spec fn step_after(step: Step, outcomes: Seq<Outcome>) -> Step
    decreases outcomes.len(),
{
    if outcomes.len() == 0 {
        step
    } else {
        next_step(step_after(step, outcomes.drop_last()), outcomes.last())
    }
}

/// The steps come in one order: the runtime is run only after the import
/// succeeded, the import only after the fetch, the fetch only after the
/// staging directory was cleared.
pub proof fn lemma_order_of_steps(step: Step, outcome: Outcome)
    ensures
        next_step(step, outcome) == Step::Run ==> step == Step::Import && outcome
            == Outcome::Succeeded,
        next_step(step, outcome) == Step::Import ==> step == Step::Fetch && outcome
            == Outcome::Succeeded,
        next_step(step, outcome) == Step::Fetch ==> step == Step::ClearStaging && outcome
            == Outcome::Succeeded,
        next_step(step, outcome) != Step::ClearStaging,
{
}

/// A failure ends the run at once, with a kind of the external class, and a
/// run that has ended stays ended.
pub proof fn lemma_failure_is_final(step: Step, outcome: Outcome)
    ensures
        !is_final(step) && outcome == Outcome::Failed ==> (next_step(step, outcome) matches Step::Aborted(
            kind,
        ) && kind.class_of() == ErrorClass::External),
        is_final(step) ==> next_step(step, outcome) == step,
{
}

/// Four successes take a run from its first step to its end, and nothing
/// less does: a run that finished has cleared, fetched, imported and run.
pub proof fn lemma_finishing(outcomes: Seq<Outcome>)
    ensures
        step_after(Step::ClearStaging, outcomes) == Step::Finished <==> outcomes.len() >= 4
            && forall|i: int| 0 <= i < 4 ==> outcomes[i] == Outcome::Succeeded,
{
    lemma_progress(outcomes);
}

/// Where a run stands after some outcomes, by their number and the first
/// failure among them.
proof fn lemma_progress(outcomes: Seq<Outcome>)
    ensures
        ({
            let reached = step_after(Step::ClearStaging, outcomes);
            let clean = forall|i: int| 0 <= i < outcomes.len() && i < 4 ==> outcomes[i]
                == Outcome::Succeeded;
            &&& clean && outcomes.len() == 0 ==> reached == Step::ClearStaging
            &&& clean && outcomes.len() == 1 ==> reached == Step::Fetch
            &&& clean && outcomes.len() == 2 ==> reached == Step::Import
            &&& clean && outcomes.len() == 3 ==> reached == Step::Run
            &&& clean && outcomes.len() >= 4 ==> reached == Step::Finished
            &&& !clean ==> reached is Aborted
        }),
    decreases outcomes.len(),
{
    if outcomes.len() > 0 {
        let shorter = outcomes.drop_last();
        lemma_progress(shorter);
        let clean = forall|i: int| 0 <= i < outcomes.len() && i < 4 ==> outcomes[i]
            == Outcome::Succeeded;
        let clean_before = forall|i: int| 0 <= i < shorter.len() && i < 4 ==> shorter[i]
            == Outcome::Succeeded;
        if clean {
            assert forall|i: int| 0 <= i < shorter.len() && i < 4 implies shorter[i]
                == Outcome::Succeeded by {
                assert(shorter[i] == outcomes[i]);
            }
        } else if clean_before {
            let i = choose|i: int| 0 <= i < outcomes.len() && i < 4 && outcomes[i] != Outcome::Succeeded;
            if i < shorter.len() {
                assert(shorter[i] == outcomes[i]);
            }
        }
    }
}

} // verus!
