//! Removing one path, resolving its lock when the first attempt fails.
//!
//! [`PathRemoval`] is the state machine of one path: it asks for a removal;
//! on failure it asks for the owners of the path, for confirmation, for the
//! termination of each owner in turn, for a settle delay and for a bounded
//! number of further removals. The driver performs each action and hands the
//! result back as the next event.
use vstd::prelude::*;
use crate::owners::{
    initial_query, lemma_query_budget_bounded, query_run, status_class, QueryStep, ResolutionError,
    StatusClass, MAX_QUERY_ATTEMPTS,
};

verus! {

/// Why a path could not be removed.
#[derive(Debug, Clone, Copy, PartialEq, Eq, Structural)]
pub enum Failure {
    /// The owners of the locked path could not be found.
    Unresolved(ResolutionError),
    /// The path is locked, no process holds it open, and the policy does
    /// not retry in that case.
    NoOwners,
    /// The owners were terminated, yet every further removal failed.
    StillLockedAfterKill,
    /// Every further removal failed, and the termination of the owner with
    /// this id (the first that failed) had failed.
    TerminationFailed(u64),
    /// The confirmation could not be asked for.
    ConfirmationFailed,
    /// An entry below this directory could not be removed.
    ChildFailed,
}

/// How the removal of one path ended.
#[derive(Debug, Clone, Copy, PartialEq, Eq, Structural)]
pub enum Outcome {
    Removed,
    /// Left in place because the confirmation was declined.
    Skipped,
    Failed(Failure),
}

/// How a locked path is handled: whether confirmation is asked for, what
/// happens when nobody holds the path open, how long to wait after the
/// terminations and how many removals to try then.
#[derive(Debug, Clone, Copy, PartialEq, Eq, Structural)]
pub struct RemovalPolicy {
    /// Terminate owners without asking.
    pub auto_confirm: bool,
    /// When the path is locked but no process holds it open, still go
    /// through confirmation and the retries (else fail at once).
    pub confirm_without_owners: bool,
    /// Milliseconds to wait after the terminations, before each retry.
    pub settle_ms: u64,
    /// Removals tried after the terminations; at least one.
    pub retries: u32,
}

/// Settle delay of the standard policy.
pub const STANDARD_SETTLE_MS: u64 = 50;

/// Removals after the terminations under the standard policy.
pub const STANDARD_RETRIES: u32 = 1;

impl RemovalPolicy {
    pub open spec fn wf(&self) -> bool {
        self.retries >= 1
    }

    /// One retry after a settle delay of 50 ms; a lock without owners still
    /// goes through confirmation.
    pub fn standard(auto_confirm: bool) -> (p: RemovalPolicy)
        ensures
            p.wf(),
            p == (RemovalPolicy {
                auto_confirm,
                confirm_without_owners: true,
                settle_ms: STANDARD_SETTLE_MS,
                retries: STANDARD_RETRIES,
            }),
    {
        RemovalPolicy {
            auto_confirm,
            confirm_without_owners: true,
            settle_ms: STANDARD_SETTLE_MS,
            retries: STANDARD_RETRIES,
        }
    }
}

/// Where the removal of a path stands.
#[derive(Debug, Clone, Copy, PartialEq, Eq, Structural)]
pub enum Phase {
    /// The first removal is asked for.
    Removing,
    /// The owners of the path are asked for.
    Resolving,
    /// Confirmation to terminate the owners is asked for.
    Confirming,
    /// The owner at this index is being terminated.
    Terminating(usize),
    /// The settle delay runs.
    Settling,
    /// A removal after the terminations is asked for.
    Retrying,
    Done(Outcome),
}

/// What the driver is asked to do.
#[derive(Debug, Clone, Copy, PartialEq, Eq, Structural)]
pub enum RemovalAction {
    /// Try to remove the path.
    Remove,
    /// Find the processes that hold the path open.
    ResolveOwners,
    /// Ask whether the owners may be terminated.
    Confirm,
    /// Terminate the process with this id.
    Terminate(u64),
    /// Wait this many milliseconds.
    Settle(u64),
    /// The removal of the path is over.
    Finish(Outcome),
}

/// What the driver reports back.
pub enum RemovalEvent {
    /// Whether the removal succeeded.
    Removal(bool),
    /// The ids of the owners found.
    Owners(Vec<u64>),
    ResolutionFailed(ResolutionError),
    /// The answer of the confirmation.
    Answer(bool),
    /// The confirmation could not be asked for.
    ConfirmationFailed,
    /// Whether the termination succeeded.
    Terminated(bool),
    Settled,
}

/// An event as a value.
pub enum RemovalInput {
    Removal(bool),
    Owners(Seq<u64>),
    ResolutionFailed(ResolutionError),
    Answer(bool),
    ConfirmationFailed,
    Terminated(bool),
    Settled,
}

impl View for RemovalEvent {
    type V = RemovalInput;

    open spec fn view(&self) -> RemovalInput {
        match self {
            RemovalEvent::Removal(ok) => RemovalInput::Removal(*ok),
            RemovalEvent::Owners(ids) => RemovalInput::Owners(ids@),
            RemovalEvent::ResolutionFailed(e) => RemovalInput::ResolutionFailed(*e),
            RemovalEvent::Answer(yes) => RemovalInput::Answer(*yes),
            RemovalEvent::ConfirmationFailed => RemovalInput::ConfirmationFailed,
            RemovalEvent::Terminated(ok) => RemovalInput::Terminated(*ok),
            RemovalEvent::Settled => RemovalInput::Settled,
        }
    }
}

/// The removal of one path as a value.
pub struct RemovalState {
    pub policy: RemovalPolicy,
    pub phase: Phase,
    pub owners: Seq<u64>,
    pub retries_left: nat,
    /// The first owner whose termination failed, if any.
    pub kill_failed: Option<u64>,
}

pub open spec fn removal_wf(s: RemovalState) -> bool {
    &&& s.policy.wf()
    &&& s.retries_left <= s.policy.retries
    &&& (s.phase is Settling || s.phase is Retrying ==> s.retries_left >= 1)
    &&& (s.phase is Removing || s.phase is Resolving || s.phase is Confirming
        || s.phase is Terminating ==> s.retries_left == s.policy.retries)
    &&& (s.phase matches Phase::Terminating(i) ==> i < s.owners.len())
}

pub open spec fn initial_removal(policy: RemovalPolicy) -> RemovalState {
    RemovalState { policy, phase: Phase::Removing, owners: seq![], retries_left: policy.retries as nat, kill_failed: None }
}

/// What is being waited for in state `s`.
pub open spec fn pending_action(s: RemovalState) -> RemovalAction {
    match s.phase {
        Phase::Removing => RemovalAction::Remove,
        Phase::Resolving => RemovalAction::ResolveOwners,
        Phase::Confirming => RemovalAction::Confirm,
        Phase::Terminating(i) => RemovalAction::Terminate(s.owners[i as int]),
        Phase::Settling => RemovalAction::Settle(s.policy.settle_ms),
        Phase::Retrying => RemovalAction::Remove,
        Phase::Done(o) => RemovalAction::Finish(o),
    }
}

/// Moves to phase `p`, asking for what that phase waits for.
pub open spec fn enter(s: RemovalState, p: Phase) -> (RemovalState, RemovalAction) {
    let t = RemovalState { phase: p, ..s };
    (t, pending_action(t))
}

/// Terminates the owners one after another, then settles.
pub open spec fn begin_terminations(s: RemovalState) -> (RemovalState, RemovalAction) {
    if s.owners.len() > 0 {
        enter(s, Phase::Terminating(0))
    } else {
        enter(s, Phase::Settling)
    }
}

/// How a path ends when the removals after the terminations all failed.
pub open spec fn after_kill_failure(kill_failed: Option<u64>) -> Failure {
    match kill_failed {
        Some(pid) => Failure::TerminationFailed(pid),
        None => Failure::StillLockedAfterKill,
    }
}

/// One step: the state after event `e`, and the next action.
pub open spec fn removal_next(s: RemovalState, e: RemovalInput) -> (RemovalState, RemovalAction) {
    match (s.phase, e) {
        (Phase::Removing, RemovalInput::Removal(ok)) => if ok {
            enter(s, Phase::Done(Outcome::Removed))
        } else {
            enter(s, Phase::Resolving)
        },
        (Phase::Resolving, RemovalInput::Owners(ids)) => {
            let t = RemovalState { owners: ids, ..s };
            if ids.len() == 0 && !s.policy.confirm_without_owners {
                enter(t, Phase::Done(Outcome::Failed(Failure::NoOwners)))
            } else if s.policy.auto_confirm {
                begin_terminations(t)
            } else {
                enter(t, Phase::Confirming)
            }
        },
        (Phase::Resolving, RemovalInput::ResolutionFailed(err)) => enter(
            s,
            Phase::Done(Outcome::Failed(Failure::Unresolved(err))),
        ),
        (Phase::Confirming, RemovalInput::Answer(yes)) => if yes {
            begin_terminations(s)
        } else {
            enter(s, Phase::Done(Outcome::Skipped))
        },
        (Phase::Confirming, RemovalInput::ConfirmationFailed) => enter(
            s,
            Phase::Done(Outcome::Failed(Failure::ConfirmationFailed)),
        ),
        (Phase::Terminating(i), RemovalInput::Terminated(ok)) => {
            let t = if !ok && s.kill_failed is None {
                RemovalState { kill_failed: Some(s.owners[i as int]), ..s }
            } else {
                s
            };
            if i + 1 < s.owners.len() {
                enter(t, Phase::Terminating((i + 1) as usize))
            } else {
                enter(t, Phase::Settling)
            }
        },
        (Phase::Settling, RemovalInput::Settled) => enter(s, Phase::Retrying),
        (Phase::Retrying, RemovalInput::Removal(ok)) => if ok {
            enter(s, Phase::Done(Outcome::Removed))
        } else if s.retries_left > 1 {
            enter(
                RemovalState { retries_left: (s.retries_left - 1) as nat, ..s },
                Phase::Settling,
            )
        } else {
            enter(
                RemovalState { retries_left: 0, ..s },
                Phase::Done(Outcome::Failed(after_kill_failure(s.kill_failed))),
            )
        },
        _ => (s, pending_action(s)),
    }
}

/// The actions asked for while the events `es` come in turn.
pub open spec fn removal_run(s: RemovalState, es: Seq<RemovalInput>) -> Seq<RemovalAction>
    decreases es.len(),
{
    if es.len() == 0 {
        seq![]
    } else {
        let (t, a) = removal_next(s, es[0]);
        seq![a] + removal_run(t, es.drop_first())
    }
}

proof fn lemma_done_absorbs(s: RemovalState, es: Seq<RemovalInput>)
    requires
        s.phase is Done,
    ensures
        forall|i: int| 0 <= i < removal_run(s, es).len() ==> #[trigger] removal_run(s, es)[i]
            == pending_action(s),
        removal_run(s, es).len() == es.len(),
    decreases es.len(),
{
    if es.len() > 0 {
        lemma_done_absorbs(s, es.drop_first());
    }
}

/// A locked path with one owner: once the owner has been terminated and the
/// removal after the settle delay succeeds, the path is reported removed.
pub proof fn lemma_single_owner_removed(policy: RemovalPolicy, pid: u64)
    requires
        policy.wf(),
    ensures
        ({
            let (s1, a1) = removal_next(initial_removal(policy), RemovalInput::Removal(false));
            let (s2, a2) = removal_next(s1, RemovalInput::Owners(seq![pid]));
            let (s3, a3) = if policy.auto_confirm {
                (s2, a2)
            } else {
                removal_next(s2, RemovalInput::Answer(true))
            };
            let (s4, a4) = removal_next(s3, RemovalInput::Terminated(true));
            let (s5, a5) = removal_next(s4, RemovalInput::Settled);
            let (s6, a6) = removal_next(s5, RemovalInput::Removal(true));
            &&& a1 == RemovalAction::ResolveOwners
            &&& a3 == RemovalAction::Terminate(pid)
            &&& a4 == RemovalAction::Settle(policy.settle_ms)
            &&& a5 == RemovalAction::Remove
            &&& a6 == RemovalAction::Finish(Outcome::Removed)
        }),
{
}

/// When the confirmation is declined, the path is reported skipped: no owner
/// is terminated and no removal is asked for again, whatever comes after.
pub proof fn lemma_declined_confirmation_skips(
    policy: RemovalPolicy,
    ids: Seq<u64>,
    later: Seq<RemovalInput>,
)
    requires
        policy.wf(),
        !policy.auto_confirm,
        ids.len() > 0 || policy.confirm_without_owners,
    ensures
        ({
            let (s1, a1) = removal_next(initial_removal(policy), RemovalInput::Removal(false));
            let (s2, a2) = removal_next(s1, RemovalInput::Owners(ids));
            let (s3, a3) = removal_next(s2, RemovalInput::Answer(false));
            &&& a2 == RemovalAction::Confirm
            &&& a3 == RemovalAction::Finish(Outcome::Skipped)
            &&& forall|i: int| 0 <= i < removal_run(s3, later).len() ==> #[trigger] removal_run(
                s3,
                later,
            )[i] == RemovalAction::Finish(Outcome::Skipped)
        }),
{
    let (s1, a1) = removal_next(initial_removal(policy), RemovalInput::Removal(false));
    let (s2, a2) = removal_next(s1, RemovalInput::Owners(ids));
    let (s3, a3) = removal_next(s2, RemovalInput::Answer(false));
    lemma_done_absorbs(s3, later);
}

/// When the kernel answers "too small" to every query of the budget, the
/// resolution times out and the path is reported failed.
pub proof fn lemma_exhausted_query_fails(policy: RemovalPolicy, statuses: Seq<u32>)
    requires
        policy.wf(),
        statuses.len() >= MAX_QUERY_ATTEMPTS,
        forall|i: int|
            0 <= i < MAX_QUERY_ATTEMPTS ==> #[trigger] status_class(statuses[i])
                == StatusClass::NeedsLargerBuffer,
    ensures
        ({
            let run = query_run(initial_query(), statuses);
            let (s1, a1) = removal_next(initial_removal(policy), RemovalInput::Removal(false));
            let (s2, a2) = removal_next(s1, RemovalInput::ResolutionFailed(ResolutionError::Timeout));
            &&& run.last() == QueryStep::Fail(ResolutionError::Timeout)
            &&& a2 == RemovalAction::Finish(Outcome::Failed(Failure::Unresolved(ResolutionError::Timeout)))
        }),
{
    lemma_query_budget_bounded(statuses);
}

/// The removal of one path; see the module documentation.
pub struct PathRemoval {
    policy: RemovalPolicy,
    phase: Phase,
    owners: Vec<u64>,
    retries_left: u32,
    kill_failed: Option<u64>,
}

impl View for PathRemoval {
    type V = RemovalState;

    closed spec fn view(&self) -> RemovalState {
        RemovalState {
            policy: self.policy,
            phase: self.phase,
            owners: self.owners@,
            retries_left: self.retries_left as nat,
            kill_failed: self.kill_failed,
        }
    }
}

impl PathRemoval {
    pub open spec fn wf(&self) -> bool {
        removal_wf(self@)
    }

    /// Starts the removal of a path; the first action is
    /// [`RemovalAction::Remove`].
    pub fn new(policy: RemovalPolicy) -> (r: (PathRemoval, RemovalAction))
        requires
            policy.wf(),
        ensures
            r.0.wf(),
            r.0@ == initial_removal(policy),
            r.1 == RemovalAction::Remove,
    {
        let m = PathRemoval {
            policy,
            phase: Phase::Removing,
            owners: Vec::new(),
            retries_left: policy.retries,
            kill_failed: None,
        };
        assert(m@.owners =~= seq![]);
        (m, RemovalAction::Remove)
    }

    /// The phase the removal is in.
    pub fn phase(&self) -> (p: Phase)
        ensures
            p == self@.phase,
    {
        self.phase
    }

    fn pending(&self) -> (a: RemovalAction)
        requires
            self.wf(),
        ensures
            a == pending_action(self@),
    {
        match self.phase {
            Phase::Removing => RemovalAction::Remove,
            Phase::Resolving => RemovalAction::ResolveOwners,
            Phase::Confirming => RemovalAction::Confirm,
            Phase::Terminating(i) => RemovalAction::Terminate(self.owners[i]),
            Phase::Settling => RemovalAction::Settle(self.policy.settle_ms),
            Phase::Retrying => RemovalAction::Remove,
            Phase::Done(o) => RemovalAction::Finish(o),
        }
    }

    fn begin_terminations(&mut self) -> (a: RemovalAction)
        requires
            old(self).wf(),
            old(self)@.retries_left == old(self)@.policy.retries,
        ensures
            final(self).wf(),
            (final(self)@, a) == begin_terminations(old(self)@),
    {
        if self.owners.len() > 0 {
            self.phase = Phase::Terminating(0);
        } else {
            self.phase = Phase::Settling;
        }
        self.pending()
    }

    /// Takes the result of the last action and says what to do next. An
    /// event that does not answer the pending action changes nothing, and
    /// the pending action is asked for again.
    pub fn step(&mut self, event: RemovalEvent) -> (a: RemovalAction)
        requires
            old(self).wf(),
        ensures
            final(self).wf(),
            (final(self)@, a) == removal_next(old(self)@, event@),
    {
        match (self.phase, event) {
            (Phase::Removing, RemovalEvent::Removal(ok)) => {
                self.phase = if ok {
                    Phase::Done(Outcome::Removed)
                } else {
                    Phase::Resolving
                };
                self.pending()
            },
            (Phase::Resolving, RemovalEvent::Owners(ids)) => {
                let none = ids.len() == 0;
                self.owners = ids;
                if none && !self.policy.confirm_without_owners {
                    self.phase = Phase::Done(Outcome::Failed(Failure::NoOwners));
                    self.pending()
                } else if self.policy.auto_confirm {
                    self.begin_terminations()
                } else {
                    self.phase = Phase::Confirming;
                    self.pending()
                }
            },
            (Phase::Resolving, RemovalEvent::ResolutionFailed(err)) => {
                self.phase = Phase::Done(Outcome::Failed(Failure::Unresolved(err)));
                self.pending()
            },
            (Phase::Confirming, RemovalEvent::Answer(yes)) => {
                if yes {
                    self.begin_terminations()
                } else {
                    self.phase = Phase::Done(Outcome::Skipped);
                    self.pending()
                }
            },
            (Phase::Confirming, RemovalEvent::ConfirmationFailed) => {
                self.phase = Phase::Done(Outcome::Failed(Failure::ConfirmationFailed));
                self.pending()
            },
            (Phase::Terminating(i), RemovalEvent::Terminated(ok)) => {
                assert(i < self.owners.len());
                if !ok && self.kill_failed.is_none() {
                    self.kill_failed = Some(self.owners[i]);
                }
                self.phase = if i + 1 < self.owners.len() {
                    Phase::Terminating(i + 1)
                } else {
                    Phase::Settling
                };
                self.pending()
            },
            (Phase::Settling, RemovalEvent::Settled) => {
                self.phase = Phase::Retrying;
                self.pending()
            },
            (Phase::Retrying, RemovalEvent::Removal(ok)) => {
                if ok {
                    self.phase = Phase::Done(Outcome::Removed);
                } else if self.retries_left > 1 {
                    self.retries_left = self.retries_left - 1;
                    self.phase = Phase::Settling;
                } else {
                    self.retries_left = 0;
                    let failure = match self.kill_failed {
                        Some(pid) => Failure::TerminationFailed(pid),
                        None => Failure::StillLockedAfterKill,
                    };
                    self.phase = Phase::Done(Outcome::Failed(failure));
                }
                self.pending()
            },
            _ => self.pending(),
        }
    }
}

} // verus!
