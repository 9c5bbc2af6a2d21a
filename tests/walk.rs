use force_delete::cli::exit_code;
use force_delete::removal::{
    Failure, Outcome, PathRemoval, RemovalAction, RemovalEvent, RemovalPolicy,
};
use force_delete::walk::{Entry, EntryKind, Walk, WalkAction, WalkError, WalkEvent};
use std::collections::{BTreeMap, BTreeSet};

/// An in-memory file system with processes that hold files open.
struct World {
    dirs: BTreeSet<String>,
    files: BTreeSet<String>,
    /// path -> pid of the process that holds it open
    locks: BTreeMap<String, u64>,
    processes: BTreeSet<u64>,
    decline: bool,
    log: Vec<String>,
}

impl World {
    fn new() -> World {
        World {
            dirs: BTreeSet::new(),
            files: BTreeSet::new(),
            locks: BTreeMap::new(),
            processes: BTreeSet::new(),
            decline: false,
            log: Vec::new(),
        }
    }

    fn kind(&self, p: &str) -> EntryKind {
        if self.dirs.contains(p) {
            EntryKind::Directory
        } else if self.files.contains(p) {
            EntryKind::File
        } else {
            EntryKind::Missing
        }
    }

    fn list(&self, p: &str) -> Vec<Entry> {
        let prefix = format!("{p}/");
        let direct = |q: &String| q.starts_with(&prefix) && !q[prefix.len()..].contains('/');
        let mut out: Vec<Entry> = Vec::new();
        for d in self.dirs.iter().filter(|q| direct(q)) {
            out.push(Entry { path: d.clone(), is_dir: true });
        }
        for f in self.files.iter().filter(|q| direct(q)) {
            out.push(Entry { path: f.clone(), is_dir: false });
        }
        out
    }

    fn remove(&mut self, p: &str) -> bool {
        self.log.push(format!("remove {p}"));
        if let Some(pid) = self.locks.get(p) {
            if self.processes.contains(pid) {
                return false;
            }
        }
        if self.dirs.contains(p) {
            let prefix = format!("{p}/");
            if self.dirs.iter().chain(self.files.iter()).any(|q| q.starts_with(&prefix)) {
                return false;
            }
            self.dirs.remove(p);
            true
        } else {
            self.files.remove(p)
        }
    }

    fn remove_path(&mut self, p: &str, policy: RemovalPolicy) -> Outcome {
        let (mut m, mut a) = PathRemoval::new(policy);
        loop {
            let event = match a {
                RemovalAction::Remove => RemovalEvent::Removal(self.remove(p)),
                RemovalAction::ResolveOwners => {
                    let owners: Vec<u64> = self
                        .locks
                        .get(p)
                        .filter(|pid| self.processes.contains(pid))
                        .into_iter()
                        .copied()
                        .collect();
                    RemovalEvent::Owners(owners)
                }
                RemovalAction::Confirm => RemovalEvent::Answer(!self.decline),
                RemovalAction::Terminate(pid) => {
                    self.log.push(format!("kill {pid}"));
                    RemovalEvent::Terminated(self.processes.remove(&pid))
                }
                RemovalAction::Settle(_) => RemovalEvent::Settled,
                RemovalAction::Finish(o) => return o,
            };
            a = m.step(event);
        }
    }

    fn delete_tree(&mut self, root: &str, policy: RemovalPolicy) -> Result<Outcome, WalkError> {
        let (mut w, mut a) = Walk::start(root.to_string(), self.kind(root));
        loop {
            let event = match a {
                WalkAction::List(p) => {
                    self.log.push(format!("list {p}"));
                    WalkEvent::Listed(self.list(&p))
                }
                WalkAction::Remove(p) => WalkEvent::Finished(self.remove_path(&p, policy)),
                WalkAction::Finish(r) => return r,
            };
            a = w.step(event);
        }
    }
}

fn sample_tree() -> World {
    let mut w = World::new();
    w.dirs.insert("dir".to_string());
    w.dirs.insert("dir/sub".to_string());
    w.files.insert("dir/a.txt".to_string());
    w.files.insert("dir/sub/b.txt".to_string());
    w
}

#[test]
fn missing_root_is_path_not_found() {
    let (_, a) = Walk::start("gone".to_string(), EntryKind::Missing);
    assert_eq!(a, WalkAction::Finish(Err(WalkError::PathNotFound)));
}

#[test]
fn deleting_twice_reports_path_not_found() {
    let mut w = sample_tree();
    let policy = RemovalPolicy::standard(true);
    assert_eq!(w.delete_tree("dir", policy), Ok(Outcome::Removed));
    assert_eq!(w.delete_tree("dir", policy), Err(WalkError::PathNotFound));
}

#[test]
fn missing_target_changes_nothing_and_exits_nonzero() {
    let mut w = sample_tree();
    let r = w.delete_tree("nothing/here", RemovalPolicy::standard(true));
    assert_eq!(r, Err(WalkError::PathNotFound));
    assert!(w.log.is_empty());
    assert_eq!(w.dirs.len(), 2);
    assert_eq!(w.files.len(), 2);
    assert_ne!(exit_code(&vec![r]), 0);
}

#[test]
fn unlocked_tree_is_removed_children_first() {
    let mut w = sample_tree();
    assert_eq!(w.delete_tree("dir", RemovalPolicy::standard(false)), Ok(Outcome::Removed));
    assert!(w.dirs.is_empty());
    assert!(w.files.is_empty());
    assert_eq!(
        w.log,
        vec![
            "list dir",
            "list dir/sub",
            "remove dir/sub/b.txt",
            "remove dir/sub",
            "remove dir/a.txt",
            "remove dir",
        ]
    );
}

#[test]
fn walk_asks_for_each_step() {
    let (mut w, a) = Walk::start("d".to_string(), EntryKind::Directory);
    assert_eq!(a, WalkAction::List("d".to_string()));
    let a = w.step(WalkEvent::Listed(vec![
        Entry { path: "d/x".to_string(), is_dir: false },
        Entry { path: "d/e".to_string(), is_dir: true },
    ]));
    assert_eq!(a, WalkAction::Remove("d/x".to_string()));
    assert_eq!(w.step(WalkEvent::Finished(Outcome::Removed)), WalkAction::List("d/e".to_string()));
    assert_eq!(w.step(WalkEvent::Listed(vec![])), WalkAction::Remove("d/e".to_string()));
    assert_eq!(w.step(WalkEvent::Finished(Outcome::Removed)), WalkAction::Remove("d".to_string()));
    assert_eq!(
        w.step(WalkEvent::Finished(Outcome::Removed)),
        WalkAction::Finish(Ok(Outcome::Removed))
    );
}

#[test]
fn single_file_root_is_removed_directly() {
    let (mut w, a) = Walk::start("f.txt".to_string(), EntryKind::File);
    assert_eq!(a, WalkAction::Remove("f.txt".to_string()));
    assert_eq!(
        w.step(WalkEvent::Finished(Outcome::Removed)),
        WalkAction::Finish(Ok(Outcome::Removed))
    );
}

#[test]
fn failed_child_keeps_the_directory() {
    let (mut w, _) = Walk::start("d".to_string(), EntryKind::Directory);
    w.step(WalkEvent::Listed(vec![
        Entry { path: "d/x".to_string(), is_dir: false },
        Entry { path: "d/y".to_string(), is_dir: false },
    ]));
    let failed = Outcome::Failed(Failure::StillLockedAfterKill);
    assert_eq!(w.step(WalkEvent::Finished(failed)), WalkAction::Remove("d/y".to_string()));
    assert_eq!(
        w.step(WalkEvent::Finished(Outcome::Removed)),
        WalkAction::Finish(Ok(Outcome::Failed(Failure::ChildFailed)))
    );
}

#[test]
fn skipped_child_skips_the_directory() {
    let (mut w, _) = Walk::start("d".to_string(), EntryKind::Directory);
    w.step(WalkEvent::Listed(vec![Entry { path: "d/x".to_string(), is_dir: false }]));
    assert_eq!(
        w.step(WalkEvent::Finished(Outcome::Skipped)),
        WalkAction::Finish(Ok(Outcome::Skipped))
    );
}

#[test]
fn listing_failure_stops_the_walk() {
    let (mut w, _) = Walk::start("d".to_string(), EntryKind::Directory);
    assert_eq!(w.step(WalkEvent::ListFailed), WalkAction::Finish(Err(WalkError::ListFailed)));
}

#[test]
fn locked_file_with_auto_confirm_is_removed() {
    let mut w = World::new();
    w.dirs.insert("dir".to_string());
    w.files.insert("dir/a.txt".to_string());
    w.locks.insert("dir/a.txt".to_string(), 5150);
    w.processes.insert(5150);
    let r = w.delete_tree("dir", RemovalPolicy::standard(true));
    assert_eq!(r, Ok(Outcome::Removed));
    assert!(!w.processes.contains(&5150));
    assert!(w.files.is_empty());
    assert!(w.dirs.is_empty());
    assert_eq!(exit_code(&vec![r]), 0);
}

#[test]
fn declined_gate_leaves_the_locked_file() {
    let mut w = World::new();
    w.dirs.insert("dir".to_string());
    w.files.insert("dir/a.txt".to_string());
    w.files.insert("dir/b.txt".to_string());
    w.locks.insert("dir/a.txt".to_string(), 5150);
    w.processes.insert(5150);
    w.decline = true;
    let r = w.delete_tree("dir", RemovalPolicy::standard(false));
    assert_eq!(r, Ok(Outcome::Skipped));
    assert!(w.files.contains("dir/a.txt"));
    assert!(!w.files.contains("dir/b.txt"));
    assert!(w.processes.contains(&5150));
    assert_eq!(exit_code(&vec![r]), 0);
}
