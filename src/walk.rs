//! Depth-first removal of a directory tree.
//!
//! [`Walk`] decides the order: a directory is listed, its entries are handled
//! one after another (directories recursively), and only then is the
//! directory itself removed, provided every entry below it was removed. The
//! driver lists directories and removes single paths (through
//! [`crate::removal::PathRemoval`]) as it is asked to.
use vstd::prelude::*;
use crate::removal::{Failure, Outcome};

verus! {

/// What is found at a path given to the tool.
#[derive(Debug, Clone, Copy, PartialEq, Eq, Structural)]
pub enum EntryKind {
    Missing,
    File,
    Directory,
}

/// An entry of a directory listing.
#[derive(Debug, Clone, PartialEq, Eq)]
pub struct Entry {
    pub path: String,
    pub is_dir: bool,
}

/// Why a whole walk stopped.
#[derive(Debug, Clone, Copy, PartialEq, Eq, Structural)]
pub enum WalkError {
    /// The path to delete does not exist.
    PathNotFound,
    /// A directory could not be listed.
    ListFailed,
}

/// What the driver is asked to do.
#[derive(Debug, PartialEq, Eq)]
pub enum WalkAction {
    /// List the entries of this directory.
    List(String),
    /// Remove this path; its subtree, if any, is already handled.
    Remove(String),
    /// The walk is over, with the outcome of its root.
    Finish(Result<Outcome, WalkError>),
}

/// An action as a value.
pub enum WalkStep {
    List(Seq<char>),
    Remove(Seq<char>),
    Finish(Result<Outcome, WalkError>),
}

impl View for WalkAction {
    type V = WalkStep;

    open spec fn view(&self) -> WalkStep {
        match self {
            WalkAction::List(p) => WalkStep::List(p@),
            WalkAction::Remove(p) => WalkStep::Remove(p@),
            WalkAction::Finish(r) => WalkStep::Finish(*r),
        }
    }
}

/// What the driver reports back.
pub enum WalkEvent {
    /// The entries of the directory asked for.
    Listed(Vec<Entry>),
    /// The directory asked for could not be listed.
    ListFailed,
    /// How the removal of the path asked for ended.
    Finished(Outcome),
}

/// An event as a value.
pub enum WalkInput {
    Listed(Seq<Entry>),
    ListFailed,
    Finished(Outcome),
}

impl View for WalkEvent {
    type V = WalkInput;

    open spec fn view(&self) -> WalkInput {
        match self {
            WalkEvent::Listed(es) => WalkInput::Listed(es@),
            WalkEvent::ListFailed => WalkInput::ListFailed,
            WalkEvent::Finished(o) => WalkInput::Finished(*o),
        }
    }
}

/// A directory whose entries are being handled.
pub struct Frame {
    path: String,
    children: Vec<Entry>,
    next: usize,
    failed: bool,
    skipped: bool,
}

/// A directory being handled, as a value: its entries, how many of them
/// were started, and whether one of those failed or was skipped.
pub struct FrameView {
    pub path: Seq<char>,
    pub children: Seq<Entry>,
    pub next: nat,
    pub failed: bool,
    pub skipped: bool,
}

impl View for Frame {
    type V = FrameView;

    closed spec fn view(&self) -> FrameView {
        FrameView {
            path: self.path@,
            children: self.children@,
            next: self.next as nat,
            failed: self.failed,
            skipped: self.skipped,
        }
    }
}

/// The walk as a value: the open directories, outermost first, and the
/// action waited on.
pub struct WalkState {
    pub frames: Seq<FrameView>,
    pub pending: WalkStep,
}

pub open spec fn walk_wf(s: WalkState) -> bool {
    forall|i: int| 0 <= i < s.frames.len() ==> #[trigger] s.frames[i].next <= s.frames[i].children.len()
}

/// The walk of `root` when `kind` is found there.
pub open spec fn walk_start(root: Seq<char>, kind: EntryKind) -> WalkState {
    WalkState {
        frames: seq![],
        pending: match kind {
            EntryKind::Missing => WalkStep::Finish(Err(WalkError::PathNotFound)),
            EntryKind::File => WalkStep::Remove(root),
            EntryKind::Directory => WalkStep::List(root),
        },
    }
}

/// Starts on entry `e` below the open directories `frames`.
pub open spec fn enter_entry(frames: Seq<FrameView>, e: Entry) -> WalkState {
    WalkState {
        frames,
        pending: if e.is_dir {
            WalkStep::List(e.path@)
        } else {
            WalkStep::Remove(e.path@)
        },
    }
}

/// Goes on in the innermost open directory: its next entry, or, when all
/// are handled, the directory itself.
pub open spec fn advance(frames: Seq<FrameView>) -> WalkState
    decreases frames.len(), 0nat,
{
    if frames.len() == 0 {
        WalkState { frames, pending: WalkStep::Finish(Ok(Outcome::Removed)) }
    } else {
        let top = frames.last();
        if top.next < top.children.len() {
            enter_entry(frames.update(frames.len() - 1, FrameView { next: top.next + 1, ..top }), top.children[top.next as int])
        } else if top.failed {
            ascend(frames.drop_last(), Outcome::Failed(Failure::ChildFailed))
        } else if top.skipped {
            ascend(frames.drop_last(), Outcome::Skipped)
        } else {
            WalkState { frames: frames.drop_last(), pending: WalkStep::Remove(top.path) }
        }
    }
}

/// Records outcome `o` of an entry of the innermost open directory, or of
/// the root when none is open, and goes on.
pub open spec fn ascend(frames: Seq<FrameView>, o: Outcome) -> WalkState
    decreases frames.len(), 1nat,
{
    if frames.len() == 0 {
        WalkState { frames, pending: WalkStep::Finish(Ok(o)) }
    } else {
        let top = frames.last();
        let noted = FrameView {
            failed: top.failed || o is Failed,
            skipped: top.skipped || o is Skipped,
            ..top
        };
        advance(frames.update(frames.len() - 1, noted))
    }
}

/// One step: the walk after event `e`. An event that does not answer the
/// pending action changes nothing.
pub open spec fn walk_next(s: WalkState, e: WalkInput) -> WalkState {
    match (s.pending, e) {
        (WalkStep::List(p), WalkInput::Listed(children)) => advance(
            s.frames.push(FrameView { path: p, children, next: 0, failed: false, skipped: false }),
        ),
        (WalkStep::List(_), WalkInput::ListFailed) => WalkState {
            frames: s.frames,
            pending: WalkStep::Finish(Err(WalkError::ListFailed)),
        },
        (WalkStep::Remove(_), WalkInput::Finished(o)) => ascend(s.frames, o),
        _ => s,
    }
}

/// The actions asked for while the events `es` come in turn.
pub open spec fn walk_run(s: WalkState, es: Seq<WalkInput>) -> Seq<WalkStep>
    decreases es.len(),
{
    if es.len() == 0 {
        seq![]
    } else {
        let t = walk_next(s, es[0]);
        seq![t.pending] + walk_run(t, es.drop_first())
    }
}

/// An event of a tree without locked files: listings succeed and every
/// single removal succeeds.
pub open spec fn unhindered(e: WalkInput) -> bool {
    match e {
        WalkInput::Listed(_) => true,
        WalkInput::ListFailed => false,
        WalkInput::Finished(o) => o == Outcome::Removed,
    }
}

/// No open directory has an entry that failed or was skipped, and a
/// finished walk removed its root.
pub open spec fn clean(s: WalkState) -> bool {
    &&& forall|i: int| 0 <= i < s.frames.len() ==> !(#[trigger] s.frames[i]).failed && !s.frames[i].skipped
    &&& s.pending is Finish ==> s.pending == WalkStep::Finish(Ok(Outcome::Removed))
}

proof fn lemma_advance_clean(frames: Seq<FrameView>)
    requires
        forall|i: int| 0 <= i < frames.len() ==> !(#[trigger] frames[i]).failed && !frames[i].skipped,
    ensures
        clean(advance(frames)),
    decreases frames.len(), 0nat,
{
    if frames.len() > 0 {
        let top = frames.last();
        if top.next < top.children.len() {
            let up = frames.update(frames.len() - 1, FrameView { next: top.next + 1, ..top });
            assert forall|i: int| 0 <= i < up.len() implies !(#[trigger] up[i]).failed && !up[i].skipped by {
                assert(!frames[i].failed && !frames[i].skipped);
            }
        } else {
            let rest = frames.drop_last();
            assert forall|i: int| 0 <= i < rest.len() implies !(#[trigger] rest[i]).failed && !rest[i].skipped by {
                assert(!frames[i].failed && !frames[i].skipped);
            }
            assert(!frames[frames.len() - 1].failed && !frames[frames.len() - 1].skipped);
        }
    }
}

proof fn lemma_ascend_clean(frames: Seq<FrameView>)
    requires
        forall|i: int| 0 <= i < frames.len() ==> !(#[trigger] frames[i]).failed && !frames[i].skipped,
    ensures
        clean(ascend(frames, Outcome::Removed)),
    decreases frames.len(), 1nat,
{
    if frames.len() > 0 {
        let top = frames.last();
        let noted = FrameView {
            failed: top.failed || Outcome::Removed is Failed,
            skipped: top.skipped || Outcome::Removed is Skipped,
            ..top
        };
        let up = frames.update(frames.len() - 1, noted);
        assert forall|i: int| 0 <= i < up.len() implies !(#[trigger] up[i]).failed && !up[i].skipped by {
            assert(!frames[i].failed && !frames[i].skipped);
        }
        lemma_advance_clean(up);
    }
}

proof fn lemma_clean_run(s: WalkState, es: Seq<WalkInput>)
    requires
        clean(s),
        forall|i: int| 0 <= i < es.len() ==> #[trigger] unhindered(es[i]),
    ensures
        forall|i: int| 0 <= i < walk_run(s, es).len() && (#[trigger] walk_run(s, es)[i]) is Finish
            ==> walk_run(s, es)[i] == WalkStep::Finish(Ok(Outcome::Removed)),
        walk_run(s, es).len() == es.len(),
    decreases es.len(),
{
    if es.len() > 0 {
        assert(unhindered(es[0]));
        let t = walk_next(s, es[0]);
        match (s.pending, es[0]) {
            (WalkStep::List(p), WalkInput::Listed(children)) => {
                let pushed = s.frames.push(FrameView { path: p, children, next: 0, failed: false, skipped: false });
                assert forall|i: int| 0 <= i < pushed.len() implies !(#[trigger] pushed[i]).failed && !pushed[i].skipped by {
                    if i < s.frames.len() {
                        assert(!s.frames[i].failed && !s.frames[i].skipped);
                    }
                }
                lemma_advance_clean(pushed);
            },
            (WalkStep::Remove(_), WalkInput::Finished(o)) => {
                lemma_ascend_clean(s.frames);
            },
            _ => {},
        }
        let rest = es.drop_first();
        assert forall|i: int| 0 <= i < rest.len() implies #[trigger] unhindered(rest[i]) by {
            assert(unhindered(es[i + 1]));
        }
        lemma_clean_run(t, rest);
        let run = walk_run(s, es);
        assert forall|i: int| 0 <= i < run.len() && (#[trigger] run[i]) is Finish implies run[i]
            == WalkStep::Finish(Ok(Outcome::Removed)) by {
            if i > 0 {
                assert(run[i] == walk_run(t, rest)[i - 1]);
            }
        }
    }
}

/// When every listing and every single removal succeeds, the walk of an
/// existing root can only finish with the root removed, never with a
/// failure or a skip, whatever order the events come in.
pub proof fn lemma_unhindered_walk_never_fails(root: Seq<char>, kind: EntryKind, es: Seq<WalkInput>)
    requires
        kind != EntryKind::Missing,
        forall|i: int| 0 <= i < es.len() ==> #[trigger] unhindered(es[i]),
    ensures
        forall|i: int|
            0 <= i < walk_run(walk_start(root, kind), es).len() && (#[trigger] walk_run(
                walk_start(root, kind),
                es,
            )[i]) is Finish ==> walk_run(walk_start(root, kind), es)[i] == WalkStep::Finish(
                Ok(Outcome::Removed),
            ),
{
    lemma_clean_run(walk_start(root, kind), es);
}

/// The walk after the events `es` came in turn.
pub open spec fn walk_after(s: WalkState, es: Seq<WalkInput>) -> WalkState
    decreases es.len(),
{
    if es.len() == 0 {
        s
    } else {
        walk_after(walk_next(s, es[0]), es.drop_first())
    }
}

/// A directory tree on disk: a file, or a directory with its entries in
/// listing order.
pub enum Tree {
    File(Entry),
    Dir(Entry, Seq<Tree>),
}

pub open spec fn root_entry(t: Tree) -> Entry {
    match t {
        Tree::File(e) => e,
        Tree::Dir(e, _) => e,
    }
}

/// Each node's entry says whether it is a directory.
pub open spec fn tree_wf(t: Tree) -> bool
    decreases t,
{
    match t {
        Tree::File(e) => !e.is_dir,
        Tree::Dir(e, cs) => e.is_dir && forall|k: int| 0 <= k < cs.len() ==> tree_wf(#[trigger] cs[k]),
    }
}

/// The listing of a directory with entries `cs`.
pub open spec fn listing(cs: Seq<Tree>) -> Seq<Entry> {
    cs.map_values(|c: Tree| root_entry(c))
}

/// The action that starts on tree `t`.
pub open spec fn start_of(t: Tree) -> WalkStep {
    match t {
        Tree::File(e) => WalkStep::Remove(e.path@),
        Tree::Dir(e, _) => WalkStep::List(e.path@),
    }
}

/// The events of tree `t` when nothing in it is locked: each directory
/// lists as it is, and every single removal succeeds.
pub open spec fn tree_events(t: Tree) -> Seq<WalkInput>
    decreases t, 0int,
{
    match t {
        Tree::File(_) => seq![WalkInput::Finished(Outcome::Removed)],
        Tree::Dir(_, cs) => seq![WalkInput::Listed(listing(cs))] + entries_events(cs, 0) + seq![
            WalkInput::Finished(Outcome::Removed),
        ],
    }
}

/// The events of the entries of `cs` from index `k` on.
pub open spec fn entries_events(cs: Seq<Tree>, k: int) -> Seq<WalkInput>
    decreases cs, cs.len() - k,
{
    if 0 <= k < cs.len() {
        tree_events(cs[k]) + entries_events(cs, k + 1)
    } else {
        seq![]
    }
}

/// The actions asked for inside tree `t`, after its start and before the
/// walk goes on above it: for a directory, the start of each entry and
/// what is asked inside it, in listing order, then the removal of the
/// directory itself.
pub open spec fn tree_actions(t: Tree) -> Seq<WalkStep>
    decreases t, 0int,
{
    match t {
        Tree::File(_) => seq![],
        Tree::Dir(e, cs) => entries_actions(cs, 0, e.path@),
    }
}

/// The actions for the entries of `cs` from index `k` on, then the removal
/// of their directory `dir`.
pub open spec fn entries_actions(cs: Seq<Tree>, k: int, dir: Seq<char>) -> Seq<WalkStep>
    decreases cs, cs.len() - k,
{
    if 0 <= k < cs.len() {
        seq![start_of(cs[k])] + tree_actions(cs[k]) + entries_actions(cs, k + 1, dir)
    } else {
        seq![WalkStep::Remove(dir)]
    }
}

proof fn lemma_run_append(s: WalkState, es1: Seq<WalkInput>, es2: Seq<WalkInput>)
    ensures
        walk_run(s, es1 + es2) == walk_run(s, es1) + walk_run(walk_after(s, es1), es2),
        walk_after(s, es1 + es2) == walk_after(walk_after(s, es1), es2),
    decreases es1.len(),
{
    if es1.len() == 0 {
        assert(es1 + es2 =~= es2);
    } else {
        let t = walk_next(s, es1[0]);
        assert((es1 + es2).drop_first() =~= es1.drop_first() + es2);
        assert((es1 + es2)[0] == es1[0]);
        lemma_run_append(t, es1.drop_first(), es2);
        assert(walk_run(s, es1 + es2) =~= walk_run(s, es1) + walk_run(walk_after(s, es1), es2));
    }
}

/// The open directory of the entries `cs`, `k` of them started.
pub open spec fn entries_frame(cs: Seq<Tree>, k: int, dir: Seq<char>) -> FrameView {
    FrameView { path: dir, children: listing(cs), next: k as nat, failed: false, skipped: false }
}

proof fn lemma_tree_walk(t: Tree, frames: Seq<FrameView>)
    requires
        tree_wf(t),
    ensures
        ({
            let s = WalkState { frames, pending: start_of(t) };
            &&& walk_after(s, tree_events(t)) == ascend(frames, Outcome::Removed)
            &&& walk_run(s, tree_events(t)) == tree_actions(t) + seq![
                ascend(frames, Outcome::Removed).pending,
            ]
        }),
    decreases t, 0int,
{
    let s = WalkState { frames, pending: start_of(t) };
    match t {
        Tree::File(e) => {
            let es = tree_events(t);
            assert(es.drop_first() =~= seq![]);
            reveal_with_fuel(walk_run, 2);
            reveal_with_fuel(walk_after, 2);
            assert(walk_run(s, es) =~= seq![ascend(frames, Outcome::Removed).pending]);
        },
        Tree::Dir(e, cs) => {
            let listed = seq![WalkInput::Listed(listing(cs))];
            let rest = entries_events(cs, 0) + seq![WalkInput::Finished(Outcome::Removed)];
            assert(tree_events(t) =~= listed + rest);
            let s1 = walk_next(s, listed[0]);
            assert(s.frames.push(
                FrameView { path: e.path@, children: listing(cs), next: 0, failed: false, skipped: false },
            ) == frames.push(entries_frame(cs, 0, e.path@)));
            assert(s1 == advance(frames.push(entries_frame(cs, 0, e.path@))));
            lemma_entries_walk(cs, 0, e.path@, frames);
            assert((listed + rest).drop_first() =~= rest);
            assert(walk_run(s, listed + rest) =~= seq![s1.pending] + walk_run(s1, rest));
            assert(walk_after(s, listed + rest) == walk_after(s1, rest));
            assert(walk_run(s, tree_events(t)) =~= tree_actions(t) + seq![
                ascend(frames, Outcome::Removed).pending,
            ]);
        },
    }
}

proof fn lemma_entries_walk(cs: Seq<Tree>, k: int, dir: Seq<char>, frames: Seq<FrameView>)
    requires
        0 <= k <= cs.len(),
        forall|j: int| 0 <= j < cs.len() ==> tree_wf(#[trigger] cs[j]),
    ensures
        ({
            let s = advance(frames.push(entries_frame(cs, k, dir)));
            let es = entries_events(cs, k) + seq![WalkInput::Finished(Outcome::Removed)];
            &&& s.pending == entries_actions(cs, k, dir)[0]
            &&& walk_after(s, es) == ascend(frames, Outcome::Removed)
            &&& walk_run(s, es) == entries_actions(cs, k, dir).drop_first() + seq![
                ascend(frames, Outcome::Removed).pending,
            ]
        }),
    decreases cs, cs.len() - k,
{
    let pushed = frames.push(entries_frame(cs, k, dir));
    let s = advance(pushed);
    let fin = seq![WalkInput::Finished(Outcome::Removed)];
    let es = entries_events(cs, k) + fin;
    assert(pushed.drop_last() =~= frames);
    if k < cs.len() {
        let c = cs[k];
        let next_frames = frames.push(entries_frame(cs, k + 1, dir));
        assert(pushed.update(pushed.len() - 1, FrameView { next: pushed.last().next + 1, ..pushed.last() })
            =~= next_frames);
        assert(listing(cs)[k] == root_entry(c));
        assert(tree_wf(c));
        assert(s == WalkState { frames: next_frames, pending: start_of(c) });
        lemma_tree_walk(c, next_frames);
        let last = next_frames.last();
        let noted = FrameView {
            failed: last.failed || Outcome::Removed is Failed,
            skipped: last.skipped || Outcome::Removed is Skipped,
            ..last
        };
        assert(next_frames.update(next_frames.len() - 1, noted) =~= next_frames);
        assert(ascend(next_frames, Outcome::Removed) == advance(next_frames));
        lemma_entries_walk(cs, k + 1, dir, frames);
        let rest = entries_events(cs, k + 1) + fin;
        assert(es =~= tree_events(c) + rest);
        lemma_run_append(s, tree_events(c), rest);
        assert(walk_run(s, es) =~= entries_actions(cs, k, dir).drop_first() + seq![
            ascend(frames, Outcome::Removed).pending,
        ]);
    } else {
        assert(s == WalkState { frames, pending: WalkStep::Remove(dir) });
        assert(es =~= fin);
        assert(fin.drop_first() =~= seq![]);
        reveal_with_fuel(walk_run, 2);
        reveal_with_fuel(walk_after, 2);
        assert(walk_run(s, es) =~= seq![ascend(frames, Outcome::Removed).pending]);
        assert(entries_actions(cs, k, dir).drop_first() =~= seq![]);
    }
}

/// A tree without locked files is removed whole: when every directory lists
/// as it is and every single removal succeeds, the walk of the tree's root
/// lists each directory, handles each of its entries in listing order
/// (directories recursively), removes the directory only after all of
/// them, and finishes with the root removed.
pub proof fn lemma_unlocked_tree_removed(t: Tree)
    requires
        tree_wf(t),
    ensures
        ({
            let kind = if root_entry(t).is_dir {
                EntryKind::Directory
            } else {
                EntryKind::File
            };
            let start = walk_start(root_entry(t).path@, kind);
            &&& start.pending == start_of(t)
            &&& walk_run(start, tree_events(t)) == tree_actions(t) + seq![
                WalkStep::Finish(Ok(Outcome::Removed)),
            ]
        }),
{
    let kind = if root_entry(t).is_dir {
        EntryKind::Directory
    } else {
        EntryKind::File
    };
    let start = walk_start(root_entry(t).path@, kind);
    assert(start == WalkState { frames: seq![], pending: start_of(t) });
    lemma_tree_walk(t, seq![]);
}

/// The walk of one path given to the tool; see the module documentation.
pub struct Walk {
    frames: Vec<Frame>,
    pending: WalkAction,
}

impl View for Walk {
    type V = WalkState;

    closed spec fn view(&self) -> WalkState {
        WalkState { frames: self.frames@.map_values(|f: Frame| f@), pending: self.pending@ }
    }
}

fn copy_action(a: &WalkAction) -> (c: WalkAction)
    ensures
        c@ == a@,
{
    match a {
        WalkAction::List(p) => WalkAction::List(p.clone()),
        WalkAction::Remove(p) => WalkAction::Remove(p.clone()),
        WalkAction::Finish(r) => WalkAction::Finish(*r),
    }
}

impl Walk {
    pub closed spec fn wf(&self) -> bool {
        walk_wf(self@)
    }

    /// Starts the walk of `root`, where `kind` was found. A missing root
    /// ends the walk at once with [`WalkError::PathNotFound`]: nothing is
    /// listed or removed.
    pub fn start(root: String, kind: EntryKind) -> (r: (Walk, WalkAction))
        ensures
            r.0.wf(),
            r.0@ == walk_start(root@, kind),
            r.1@ == r.0@.pending,
            kind == EntryKind::Missing ==> r.1@ == WalkStep::Finish(Err(WalkError::PathNotFound)),
    {
        let pending = match kind {
            EntryKind::Missing => WalkAction::Finish(Err(WalkError::PathNotFound)),
            EntryKind::File => WalkAction::Remove(root),
            EntryKind::Directory => WalkAction::List(root),
        };
        let w = Walk { frames: Vec::new(), pending };
        assert(w@.frames =~= seq![]);
        let a = copy_action(&w.pending);
        (w, a)
    }

    /// Takes the result of the pending action and says what to do next.
    pub fn step(&mut self, event: WalkEvent) -> (a: WalkAction)
        requires
            old(self).wf(),
        ensures
            final(self).wf(),
            final(self)@ == walk_next(old(self)@, event@),
            a@ == final(self)@.pending,
    {
        let listing = match &self.pending {
            WalkAction::List(p) => Some(p.clone()),
            _ => None,
        };
        let removing = matches!(self.pending, WalkAction::Remove(_));
        match event {
            WalkEvent::Listed(children) => {
                if let Some(p) = listing {
                    let frame = Frame { path: p, children, next: 0, failed: false, skipped: false };
                    let ghost before = self@.frames;
                    self.frames.push(frame);
                    assert(self@.frames =~= before.push(frame@));
                    self.settle(None);
                }
            },
            WalkEvent::ListFailed => {
                if listing.is_some() {
                    self.pending = WalkAction::Finish(Err(WalkError::ListFailed));
                }
            },
            WalkEvent::Finished(o) => {
                if removing {
                    self.settle(Some(o));
                }
            },
        }
        copy_action(&self.pending)
    }

    /// Runs [`advance`] (no outcome to record) or [`ascend`] (outcome `o`)
    /// on the open directories.
    fn settle(&mut self, o: Option<Outcome>)
        requires
            old(self).wf(),
        ensures
            final(self).wf(),
            final(self)@ == match o {
                Some(o) => ascend(old(self)@.frames, o),
                None => advance(old(self)@.frames),
            },
    {
        let ghost target = match o {
            Some(o) => ascend(self@.frames, o),
            None => advance(self@.frames),
        };
        let mut carry = o;
        loop
            invariant
                walk_wf(self@),
                target == match o {
                    Some(o) => ascend(old(self)@.frames, o),
                    None => advance(old(self)@.frames),
                },
                target == match carry {
                    Some(o) => ascend(self@.frames, o),
                    None => advance(self@.frames),
                },
            ensures
                self@ == target,
                walk_wf(self@),
            decreases self.frames.len(), if carry is Some { 1nat } else { 0nat },
        {
            let n = self.frames.len();
            if n == 0 {
                self.pending = WalkAction::Finish(
                    Ok(
                        match carry {
                            Some(o) => o,
                            None => Outcome::Removed,
                        },
                    ),
                );
                return;
            }
            let ghost before = self@.frames;
            let mut top = self.frames.pop().unwrap();
            assert(self@.frames =~= before.drop_last());
            match carry {
                Some(o) => {
                    top.failed = top.failed || matches!(o, Outcome::Failed(_));
                    top.skipped = top.skipped || matches!(o, Outcome::Skipped);
                    self.frames.push(top);
                    assert(self@.frames =~= before.update(before.len() - 1, top@));
                    carry = None;
                },
                None => {
                    if top.next < top.children.len() {
                        let e = &top.children[top.next];
                        self.pending = if e.is_dir {
                            WalkAction::List(e.path.clone())
                        } else {
                            WalkAction::Remove(e.path.clone())
                        };
                        top.next = top.next + 1;
                        self.frames.push(top);
                        assert(self@.frames =~= before.update(before.len() - 1, top@));
                        return;
                    } else if top.failed {
                        carry = Some(Outcome::Failed(Failure::ChildFailed));
                    } else if top.skipped {
                        carry = Some(Outcome::Skipped);
                    } else {
                        self.pending = WalkAction::Remove(top.path);
                        return;
                    }
                },
            }
        }
    }
}

} // verus!
