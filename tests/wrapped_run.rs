use smsync::error::Error;
use smsync::run::{run_start, run_step, RunEvent, RunStage, RunStep};
use smsync::sync::SyncResult;

#[test]
fn run_starts_with_abortable_pass() {
    let (stage, step) = run_start();
    assert_eq!(stage, RunStage::FirstPass);
    assert!(matches!(step, RunStep::Pass { abort_allowed: true }));
}

#[test]
fn abort_on_first_pass_never_launches() {
    let (stage, _) = run_start();
    let (_, step) = run_step(stage, RunEvent::PassDone(Ok(SyncResult::Abort)));
    assert!(matches!(step, RunStep::Finish(Ok(()))));
}

#[test]
fn first_pass_failure_ends_run() {
    let (_, step) = run_step(
        RunStage::FirstPass,
        RunEvent::PassDone(Err(Error::InvalidGame("g".to_string()))),
    );
    assert!(matches!(step, RunStep::Finish(Err(Error::InvalidGame(ref g))) if g == "g"));
}

#[test]
fn full_run_with_failing_command() {
    let (stage, _) = run_start();
    let (stage, step) = run_step(stage, RunEvent::PassDone(Ok(SyncResult::Continue)));
    assert_eq!(stage, RunStage::Running);
    assert!(matches!(step, RunStep::Launch));
    let (stage, step) = run_step(stage, RunEvent::Exited(Ok(false)));
    assert_eq!(stage, RunStage::SecondPass);
    assert!(matches!(step, RunStep::Pass { abort_allowed: false }));
    let (_, step) = run_step(stage, RunEvent::PassDone(Ok(SyncResult::Continue)));
    assert!(matches!(step, RunStep::Finish(Ok(()))));
}

#[test]
fn spawn_failure_skips_second_pass() {
    let (_, step) = run_step(
        RunStage::Running,
        RunEvent::Exited(Err(Error::IO("not found".to_string(), "prog".to_string()))),
    );
    assert!(matches!(step, RunStep::Finish(Err(Error::IO(_, ref p))) if p == "prog"));
}

#[test]
fn second_pass_failure_is_the_outcome() {
    let (_, step) = run_step(
        RunStage::SecondPass,
        RunEvent::PassDone(Err(Error::Symlink("x".to_string()))),
    );
    assert!(matches!(step, RunStep::Finish(Err(Error::Symlink(_)))));
}
