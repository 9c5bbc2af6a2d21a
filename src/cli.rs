//! The command surface: what a run was asked to do, and how it exits.
use vstd::prelude::*;
use crate::removal::{Outcome, RemovalPolicy, STANDARD_RETRIES, STANDARD_SETTLE_MS};
use crate::walk::WalkError;

verus! {

/// The arguments of a run.
#[derive(Debug, Clone)]
pub struct Cli {
    /// The files or folders to delete.
    pub path: Vec<String>,
    /// Kill processes without confirmation.
    pub yes: bool,
    /// Remove the context menu entry.
    pub uninstall: bool,
}

/// What a run does.
#[derive(Debug, Clone, Copy, PartialEq, Eq, Structural)]
pub enum Mode {
    /// Remove the shell context menu entry.
    Uninstall,
    /// No path given: install the shell context menu entry.
    Install,
    /// Delete the paths given.
    Delete,
}

pub open spec fn mode_of(uninstall: bool, paths: nat) -> Mode {
    if uninstall {
        Mode::Uninstall
    } else if paths == 0 {
        Mode::Install
    } else {
        Mode::Delete
    }
}

impl Cli {
    /// The mode of the run: removing the menu entry when asked to, else
    /// deleting the paths given, else installing the menu entry.
    pub fn mode(&self) -> (m: Mode)
        ensures
            m == mode_of(self.uninstall, self.path@.len()),
    {
        if self.uninstall {
            Mode::Uninstall
        } else if self.path.len() == 0 {
            Mode::Install
        } else {
            Mode::Delete
        }
    }

    /// The removal policy of the run: the standard one, confirming by
    /// itself when `--yes` was given.
    pub fn policy(&self) -> (p: RemovalPolicy)
        ensures
            p.wf(),
            p == (RemovalPolicy {
                auto_confirm: self.yes,
                confirm_without_owners: true,
                settle_ms: STANDARD_SETTLE_MS,
                retries: STANDARD_RETRIES,
            }),
    {
        RemovalPolicy::standard(self.yes)
    }
}

/// Whether the walk of a target ended in failure.
pub open spec fn target_failed(r: Result<Outcome, WalkError>) -> bool {
    match r {
        Ok(Outcome::Failed(_)) => true,
        Ok(_) => false,
        Err(_) => true,
    }
}

/// Whether some target of `rs` failed.
pub open spec fn some_target_failed(rs: Seq<Result<Outcome, WalkError>>) -> bool {
    exists|i: int| 0 <= i < rs.len() && #[trigger] target_failed(rs[i])
}

/// The exit code of a run that walked its targets with results `results`:
/// 1 when some target failed, 0 otherwise (a skipped target is no failure).
pub fn exit_code(results: &Vec<Result<Outcome, WalkError>>) -> (code: i32)
    ensures
        code == (if some_target_failed(results@) {
            1i32
        } else {
            0i32
        }),
{
    let mut i: usize = 0;
    while i < results.len()
        invariant
            i <= results.len(),
            forall|j: int| 0 <= j < i ==> !#[trigger] target_failed(results@[j]),
        decreases results.len() - i,
    {
        let failed = match &results[i] {
            Ok(Outcome::Failed(_)) => true,
            Ok(_) => false,
            Err(_) => true,
        };
        if failed {
            assert(target_failed(results@[i as int]));
            return 1;
        }
        i = i + 1;
    }
    0
}

} // verus!
