use force_delete::owners::ResolutionError;
use force_delete::removal::{
    Failure, Outcome, PathRemoval, Phase, RemovalAction, RemovalEvent, RemovalPolicy,
};

fn policy(auto_confirm: bool) -> RemovalPolicy {
    RemovalPolicy::standard(auto_confirm)
}

#[test]
fn unlocked_path_is_removed_at_once() {
    let (mut m, a) = PathRemoval::new(policy(false));
    assert_eq!(a, RemovalAction::Remove);
    assert_eq!(m.step(RemovalEvent::Removal(true)), RemovalAction::Finish(Outcome::Removed));
    assert_eq!(m.phase(), Phase::Done(Outcome::Removed));
}

#[test]
fn single_owner_terminated_then_removed() {
    let (mut m, _) = PathRemoval::new(policy(true));
    assert_eq!(m.step(RemovalEvent::Removal(false)), RemovalAction::ResolveOwners);
    assert_eq!(m.step(RemovalEvent::Owners(vec![4242])), RemovalAction::Terminate(4242));
    assert_eq!(m.step(RemovalEvent::Terminated(true)), RemovalAction::Settle(50));
    assert_eq!(m.step(RemovalEvent::Settled), RemovalAction::Remove);
    assert_eq!(m.step(RemovalEvent::Removal(true)), RemovalAction::Finish(Outcome::Removed));
}

#[test]
fn confirmed_owner_terminated_then_removed() {
    let (mut m, _) = PathRemoval::new(policy(false));
    m.step(RemovalEvent::Removal(false));
    assert_eq!(m.step(RemovalEvent::Owners(vec![4242])), RemovalAction::Confirm);
    assert_eq!(m.step(RemovalEvent::Answer(true)), RemovalAction::Terminate(4242));
    assert_eq!(m.step(RemovalEvent::Terminated(true)), RemovalAction::Settle(50));
    assert_eq!(m.step(RemovalEvent::Settled), RemovalAction::Remove);
    assert_eq!(m.step(RemovalEvent::Removal(true)), RemovalAction::Finish(Outcome::Removed));
}

#[test]
fn declined_gate_skips_the_path() {
    let (mut m, _) = PathRemoval::new(policy(false));
    m.step(RemovalEvent::Removal(false));
    assert_eq!(m.step(RemovalEvent::Owners(vec![4242])), RemovalAction::Confirm);
    assert_eq!(m.step(RemovalEvent::Answer(false)), RemovalAction::Finish(Outcome::Skipped));
    assert_eq!(m.step(RemovalEvent::Removal(true)), RemovalAction::Finish(Outcome::Skipped));
    assert_eq!(m.step(RemovalEvent::Terminated(true)), RemovalAction::Finish(Outcome::Skipped));
}

#[test]
fn timeout_in_resolution_fails_the_path() {
    let (mut m, _) = PathRemoval::new(policy(true));
    m.step(RemovalEvent::Removal(false));
    assert_eq!(
        m.step(RemovalEvent::ResolutionFailed(ResolutionError::Timeout)),
        RemovalAction::Finish(Outcome::Failed(Failure::Unresolved(ResolutionError::Timeout)))
    );
}

#[test]
fn open_failure_fails_the_path() {
    let (mut m, _) = PathRemoval::new(policy(false));
    m.step(RemovalEvent::Removal(false));
    assert_eq!(
        m.step(RemovalEvent::ResolutionFailed(ResolutionError::OpenFailed)),
        RemovalAction::Finish(Outcome::Failed(Failure::Unresolved(ResolutionError::OpenFailed)))
    );
}

#[test]
fn every_owner_is_terminated_even_after_a_failure() {
    let (mut m, _) = PathRemoval::new(policy(true));
    m.step(RemovalEvent::Removal(false));
    assert_eq!(m.step(RemovalEvent::Owners(vec![100, 200, 300])), RemovalAction::Terminate(100));
    assert_eq!(m.step(RemovalEvent::Terminated(false)), RemovalAction::Terminate(200));
    assert_eq!(m.step(RemovalEvent::Terminated(true)), RemovalAction::Terminate(300));
    assert_eq!(m.step(RemovalEvent::Terminated(false)), RemovalAction::Settle(50));
    assert_eq!(m.step(RemovalEvent::Settled), RemovalAction::Remove);
    assert_eq!(m.step(RemovalEvent::Removal(true)), RemovalAction::Finish(Outcome::Removed));
}

#[test]
fn failed_termination_is_named_when_the_retry_fails() {
    let (mut m, _) = PathRemoval::new(policy(true));
    m.step(RemovalEvent::Removal(false));
    assert_eq!(m.step(RemovalEvent::Owners(vec![100, 200])), RemovalAction::Terminate(100));
    assert_eq!(m.step(RemovalEvent::Terminated(true)), RemovalAction::Terminate(200));
    assert_eq!(m.step(RemovalEvent::Terminated(false)), RemovalAction::Settle(50));
    assert_eq!(m.step(RemovalEvent::Settled), RemovalAction::Remove);
    assert_eq!(
        m.step(RemovalEvent::Removal(false)),
        RemovalAction::Finish(Outcome::Failed(Failure::TerminationFailed(200)))
    );
}

#[test]
fn first_failed_termination_is_kept() {
    let (mut m, _) = PathRemoval::new(policy(true));
    m.step(RemovalEvent::Removal(false));
    m.step(RemovalEvent::Owners(vec![100, 200]));
    m.step(RemovalEvent::Terminated(false));
    m.step(RemovalEvent::Terminated(false));
    m.step(RemovalEvent::Settled);
    assert_eq!(
        m.step(RemovalEvent::Removal(false)),
        RemovalAction::Finish(Outcome::Failed(Failure::TerminationFailed(100)))
    );
}

#[test]
fn failed_confirmation_fails_the_path() {
    let (mut m, _) = PathRemoval::new(policy(false));
    m.step(RemovalEvent::Removal(false));
    assert_eq!(m.step(RemovalEvent::Owners(vec![4242])), RemovalAction::Confirm);
    assert_eq!(
        m.step(RemovalEvent::ConfirmationFailed),
        RemovalAction::Finish(Outcome::Failed(Failure::ConfirmationFailed))
    );
}

#[test]
fn still_locked_after_kill_fails() {
    let (mut m, _) = PathRemoval::new(policy(true));
    m.step(RemovalEvent::Removal(false));
    m.step(RemovalEvent::Owners(vec![4242]));
    m.step(RemovalEvent::Terminated(true));
    m.step(RemovalEvent::Settled);
    assert_eq!(
        m.step(RemovalEvent::Removal(false)),
        RemovalAction::Finish(Outcome::Failed(Failure::StillLockedAfterKill))
    );
}

#[test]
fn longer_retry_window_retries_each_time() {
    let p = RemovalPolicy { auto_confirm: true, confirm_without_owners: true, settle_ms: 100, retries: 10 };
    let (mut m, _) = PathRemoval::new(p);
    m.step(RemovalEvent::Removal(false));
    assert_eq!(m.step(RemovalEvent::Owners(vec![4242])), RemovalAction::Terminate(4242));
    assert_eq!(m.step(RemovalEvent::Terminated(true)), RemovalAction::Settle(100));
    for _ in 0..9 {
        assert_eq!(m.step(RemovalEvent::Settled), RemovalAction::Remove);
        assert_eq!(m.step(RemovalEvent::Removal(false)), RemovalAction::Settle(100));
    }
    assert_eq!(m.step(RemovalEvent::Settled), RemovalAction::Remove);
    assert_eq!(
        m.step(RemovalEvent::Removal(false)),
        RemovalAction::Finish(Outcome::Failed(Failure::StillLockedAfterKill))
    );
}

#[test]
fn no_owners_still_goes_through_the_gate() {
    let (mut m, _) = PathRemoval::new(policy(false));
    m.step(RemovalEvent::Removal(false));
    assert_eq!(m.step(RemovalEvent::Owners(vec![])), RemovalAction::Confirm);
    assert_eq!(m.step(RemovalEvent::Answer(true)), RemovalAction::Settle(50));
    assert_eq!(m.step(RemovalEvent::Settled), RemovalAction::Remove);
}

#[test]
fn no_owners_can_fail_at_once() {
    let p = RemovalPolicy { auto_confirm: false, confirm_without_owners: false, settle_ms: 50, retries: 1 };
    let (mut m, _) = PathRemoval::new(p);
    m.step(RemovalEvent::Removal(false));
    assert_eq!(
        m.step(RemovalEvent::Owners(vec![])),
        RemovalAction::Finish(Outcome::Failed(Failure::NoOwners))
    );
}

#[test]
fn unexpected_event_repeats_the_request() {
    let (mut m, _) = PathRemoval::new(policy(false));
    assert_eq!(m.step(RemovalEvent::Settled), RemovalAction::Remove);
    m.step(RemovalEvent::Removal(false));
    assert_eq!(m.step(RemovalEvent::Answer(true)), RemovalAction::ResolveOwners);
    assert_eq!(m.phase(), Phase::Resolving);
}

#[test]
fn standard_policy_values() {
    let p = RemovalPolicy::standard(true);
    assert!(p.auto_confirm);
    assert!(p.confirm_without_owners);
    assert_eq!(p.settle_ms, 50);
    assert_eq!(p.retries, 1);
}
