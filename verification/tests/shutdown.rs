use kafpy::shutdown::{ShutdownCoordinator, ShutdownPhase};
use std::time::Duration;

#[test]
fn new_starts_in_running() {
    let coord = ShutdownCoordinator::new(30);
    assert_eq!(coord.phase(), ShutdownPhase::Running);
    assert_eq!(coord.drain_timeout(), Duration::from_secs(30));
}

#[test]
fn begin_draining_transitions_to_draining() {
    let mut coord = ShutdownCoordinator::new(30);
    let (disp, work, comm) = coord.begin_draining();
    assert_eq!(coord.phase(), ShutdownPhase::Draining);
    assert!(!disp.is_cancelled());
    assert!(!work.is_cancelled());
    assert!(!comm.is_cancelled());
}

#[test]
fn begin_draining_then_finalizing() {
    let mut coord = ShutdownCoordinator::new(30);
    coord.begin_draining();
    coord.begin_finalizing();
    assert_eq!(coord.phase(), ShutdownPhase::Finalizing);
}

#[test]
fn finalizing_then_done() {
    let mut coord = ShutdownCoordinator::new(30);
    coord.begin_draining();
    coord.begin_finalizing();
    coord.set_done();
    assert_eq!(coord.phase(), ShutdownPhase::Done);
    assert!(coord.is_done());
}

#[test]
fn is_done_false_until_done() {
    let mut coord = ShutdownCoordinator::new(30);
    assert!(!coord.is_done());
    coord.begin_draining();
    assert!(!coord.is_done());
    coord.begin_finalizing();
    assert!(!coord.is_done());
    coord.set_done();
    assert!(coord.is_done());
}

#[test]
fn shutdown_phase_display() {
    assert_eq!(ShutdownPhase::Running.to_string(), "Running");
    assert_eq!(ShutdownPhase::Draining.to_string(), "Draining");
    assert_eq!(ShutdownPhase::Finalizing.to_string(), "Finalizing");
    assert_eq!(ShutdownPhase::Done.to_string(), "Done");
}

#[test]
fn custom_drain_timeout() {
    let coord = ShutdownCoordinator::new(60);
    assert_eq!(coord.drain_timeout(), Duration::from_secs(60));
}

#[test]
fn committer_token_cancels_with_drain_tokens() {
    let mut coord = ShutdownCoordinator::new(5);
    let committer = coord.committer_cancel_token();
    let (_disp, _work, comm) = coord.begin_draining();
    comm.cancel();
    assert!(committer.is_cancelled());
}

#[test]
fn committer_token_is_the_committers_own() {
    let mut coord = ShutdownCoordinator::new(5);
    let committer = coord.committer_cancel_token();
    let (disp, work, comm) = coord.begin_draining();
    assert!(committer == comm);
    assert!(committer != disp);
    assert!(committer != work);
    assert!(disp != work);
    coord.begin_finalizing();
    assert!(coord.committer_cancel_token() == committer);
}
