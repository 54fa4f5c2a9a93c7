use vstd::prelude::*;
use crate::error::Error;
use crate::sync::SyncResult;

verus! {

/// Where a command run wrapped in two sync passes stands.
#[derive(Debug, Clone, Copy, PartialEq, Eq, Structural)]
pub enum RunStage {
    /// The pass before the command, which may abort.
    FirstPass,
    /// The command was launched and is awaited.
    Running,
    /// The pass after the command, which may not abort.
    SecondPass,
}

/// What the driver reports back after doing a step.
#[derive(Debug)]
pub enum RunEvent {
    /// A sync pass ended.
    PassDone(Result<SyncResult, Error>),
    /// The command exited, successfully or not, or could not be started or
    /// awaited.
    Exited(Result<bool, Error>),
}

/// What the driver is to do next.
#[derive(Debug)]
pub enum RunStep {
    /// Run a sync pass; the resolver may offer abort only if allowed.
    Pass { abort_allowed: bool },
    /// Launch the command and wait for it.
    Launch,
    /// The run is over, with this outcome.
    Finish(Result<(), Error>),
}

/// Whether an event is one that a stage waits for: a command's exit while
/// running, the end of a pass otherwise.
pub open spec fn event_fits(stage: RunStage, event: RunEvent) -> bool {
    match stage {
        RunStage::Running => event is Exited,
        _ => event is PassDone,
    }
}

/// A run starts with a pass that may abort.
pub fn run_start() -> (r: (RunStage, RunStep))
    ensures
        r.0 == RunStage::FirstPass,
        r.1 == (RunStep::Pass { abort_allowed: true }),
{
    (RunStage::FirstPass, RunStep::Pass { abort_allowed: true })
}

/// One step of a wrapped run. An abort or a failure of the first pass ends
/// the run before the command is launched; a command that could not be
/// started or awaited ends it too. Once the command exited, with whatever
/// status, the second pass runs, without abort, and its outcome is the run's.
pub fn run_step(stage: RunStage, event: RunEvent) -> (r: (RunStage, RunStep))
    requires
        event_fits(stage, event),
    ensures
        stage == RunStage::FirstPass && event == RunEvent::PassDone(Ok(SyncResult::Abort)) ==> r.1
            == RunStep::Finish(Ok(())),
        stage == RunStage::FirstPass && event == RunEvent::PassDone(Ok(SyncResult::Continue))
            ==> r == (RunStage::Running, RunStep::Launch),
        event matches RunEvent::PassDone(Err(e)) ==> (stage == RunStage::FirstPass ==> r.1
            == RunStep::Finish(Err(e))),
        event matches RunEvent::Exited(Ok(_)) ==> (stage == RunStage::Running ==> r == (
            RunStage::SecondPass,
            RunStep::Pass { abort_allowed: false },
        )),
        event matches RunEvent::Exited(Err(e)) ==> (stage == RunStage::Running ==> r.1
            == RunStep::Finish(Err(e))),
        event matches RunEvent::PassDone(Ok(_)) ==> (stage == RunStage::SecondPass ==> r.1
            == RunStep::Finish(Ok(()))),
        event matches RunEvent::PassDone(Err(e)) ==> (stage == RunStage::SecondPass ==> r.1
            == RunStep::Finish(Err(e))),
        r.1 is Finish ==> r.0 == stage,
{
    match (stage, event) {
        (RunStage::FirstPass, RunEvent::PassDone(Ok(SyncResult::Continue))) => (
            RunStage::Running,
            RunStep::Launch,
        ),
        (RunStage::Running, RunEvent::Exited(Ok(_))) => (
            RunStage::SecondPass,
            RunStep::Pass { abort_allowed: false },
        ),
        (RunStage::Running, RunEvent::Exited(Err(e))) => (stage, RunStep::Finish(Err(e))),
        (_, RunEvent::PassDone(Ok(_))) => (stage, RunStep::Finish(Ok(()))),
        (_, RunEvent::PassDone(Err(e))) => (stage, RunStep::Finish(Err(e))),
        (_, RunEvent::Exited(_)) => {
            proof {
                assert(false);
            }
            (stage, RunStep::Finish(Ok(())))
        },
    }
}

} // verus!
