//! The decisions of writing a set of files as one transaction.
//!
//! Every file is first written to a hidden temporary file beside its
//! destination. Without `--force` each temporary file is then linked to its
//! destination, which fails where the destination exists; with `--force` the
//! destinations that exist are first moved aside to backups, and each
//! temporary file is renamed onto its destination. When any step fails, the
//! new files already in place are removed, the backups are moved back and the
//! temporary files are removed before the failure is reported.
//!
//! The program performs each file operation and hands its outcome back;
//! `commit_step` says what to do next.

use vstd::prelude::*;

verus! {

/// Where a transaction stands.
#[derive(Clone, Copy, Debug, PartialEq, Eq, Structural)]
pub enum CommitPhase {
    /// Writing the temporary file of the current write.
    Stage,
    /// Linking the current temporary file to its destination.
    Link,
    /// Looking at what stands at the current destination.
    Inspect,
    /// Moving the current destination aside to its backup.
    BackUp,
    /// Renaming the current temporary file onto its destination.
    Commit,
    /// Removing the temporary files after every link.
    RemoveTemps,
    /// Removing the backups after every rename.
    RemoveBackups,
    /// Undoing what was done before reporting a failure.
    Undo,
    /// Nothing is left to do.
    Finished,
}

/// Why a transaction failed; the index names the write.
#[derive(Clone, Copy, Debug, PartialEq, Eq, Structural)]
pub enum CommitError {
    /// Its temporary file could not be written.
    Stage(usize),
    /// Its destination exists and `--force` was not given.
    Exists(usize),
    /// Linking to its destination failed otherwise.
    Link(usize),
    /// Its destination is a directory.
    Directory(usize),
    /// Its destination could not be moved aside.
    Prepare(usize),
    /// Its temporary file could not be renamed onto the destination.
    Commit(usize),
    /// Removing a temporary file or a backup after every file was in place
    /// failed.
    Cleanup,
}

/// The outcome of the last file operation.
#[derive(Clone, Copy, Debug, PartialEq, Eq, Structural)]
pub enum FsEvent {
    /// The operation succeeded.
    Done,
    /// The operation failed, because the target exists or otherwise.
    Failed { already_exists: bool },
    /// Something stands at the destination looked at: a directory or not.
    Found { directory: bool },
    /// Nothing stands at the destination looked at.
    Absent,
}

/// The next thing to do; the index names the write.
#[derive(Clone, Copy, Debug, PartialEq, Eq, Structural)]
pub enum FsAction {
    /// Write the temporary file.
    WriteTemp(usize),
    /// Hard-link the temporary file to the destination.
    LinkTemp(usize),
    /// Look at what stands at the destination, without following links.
    Inspect(usize),
    /// Rename the destination to its backup.
    BackUp(usize),
    /// Rename the temporary file onto the destination.
    RenameTemp(usize),
    /// Remove the temporary file.
    RemoveTemp(usize),
    /// Remove the new file at the destination.
    RemovePath(usize),
    /// Rename the backup back onto the destination.
    RestoreBackup(usize),
    /// Remove the backup.
    RemoveBackup(usize),
    /// Report success.
    Succeed,
    /// Report the failure.
    Fail(CommitError),
}

/// The state of a transaction over `count` writes. `staged[i]` says that the
/// temporary file of write `i` exists, `committed[i]` that its destination
/// holds the new file, `backed_up[i]` that the old destination is in its
/// backup.
pub struct CommitState {
    pub count: usize,
    pub force: bool,
    pub phase: CommitPhase,
    pub index: usize,
    pub staged: Vec<bool>,
    pub committed: Vec<bool>,
    pub backed_up: Vec<bool>,
    pub failure: Option<CommitError>,
}

/// The mathematical form of a transaction's state.
#[verifier::ext_equal]
pub struct CommitView {
    pub count: nat,
    pub force: bool,
    pub phase: CommitPhase,
    pub index: nat,
    pub staged: Seq<bool>,
    pub committed: Seq<bool>,
    pub backed_up: Seq<bool>,
    pub failure: Option<CommitError>,
}

impl View for CommitState {
    type V = CommitView;

    open spec fn view(&self) -> CommitView {
        CommitView {
            count: self.count as nat,
            force: self.force,
            phase: self.phase,
            index: self.index as nat,
            staged: self.staged@,
            committed: self.committed@,
            backed_up: self.backed_up@,
            failure: self.failure,
        }
    }
}

/// The first position from `i` on that is set.
pub open spec fn first_true(s: Seq<bool>, i: int) -> Option<int>
    decreases s.len() - i,
{
    if i < 0 || i >= s.len() {
        None
    } else if s[i] {
        Some(i)
    } else {
        first_true(s, i + 1)
    }
}

proof fn lemma_first_true(s: Seq<bool>, i: int)
    requires
        0 <= i <= s.len(),
    ensures
        first_true(s, i) matches Some(j) ==> i <= j < s.len() && s[j],
        first_true(s, i) is None ==> forall|k: int| i <= k < s.len() ==> !s[k],
    decreases s.len() - i,
{
    if i < s.len() {
        lemma_first_true(s, i + 1);
    }
}

/// Whether no flag is set.
pub open spec fn none_set(s: Seq<bool>) -> bool {
    forall|j: int| 0 <= j < s.len() ==> !s[j]
}

/// Whether every flag is set.
pub open spec fn all_set(s: Seq<bool>) -> bool {
    forall|j: int| 0 <= j < s.len() ==> s[j]
}

/// What holds of a transaction that waits for the outcome of an operation.
pub open spec fn commit_wf(v: CommitView) -> bool {
    &&& v.staged.len() == v.count
    &&& v.committed.len() == v.count
    &&& v.backed_up.len() == v.count
    &&& v.index <= v.count
    &&& (!v.force ==> none_set(v.backed_up))
    &&& match v.phase {
        CommitPhase::Stage => v.index < v.count && none_set(v.committed) && none_set(v.backed_up)
            && forall|j: int| 0 <= j < v.count ==> (v.staged[j] <==> j < v.index),
        CommitPhase::Link => !v.force && v.index < v.count && all_set(v.staged) && forall|j: int|
            0 <= j < v.count ==> (v.committed[j] <==> j < v.index),
        CommitPhase::Inspect | CommitPhase::BackUp => v.force && v.index < v.count && all_set(
            v.staged,
        ) && none_set(v.committed) && forall|j: int|
            0 <= j < v.count && v.backed_up[j] ==> j < v.index,
        CommitPhase::Commit => v.force && v.index < v.count && forall|j: int|
            0 <= j < v.count ==> (v.committed[j] <==> j < v.index) && (v.staged[j] <==> j
                >= v.index),
        CommitPhase::RemoveTemps => !v.force && all_set(v.committed),
        CommitPhase::RemoveBackups => v.force && all_set(v.committed) && none_set(v.staged),
        CommitPhase::Undo => v.failure is Some && v.failure != Some(CommitError::Cleanup),
        CommitPhase::Finished => true,
    }
}

/// Removes the temporary files left after every link, then succeeds.
pub open spec fn finish_temps(v: CommitView) -> (CommitView, FsAction) {
    match first_true(v.staged, 0) {
        Some(j) => (
            CommitView { phase: CommitPhase::RemoveTemps, staged: v.staged.update(j, false), ..v },
            FsAction::RemoveTemp(j as usize),
        ),
        None => (CommitView { phase: CommitPhase::Finished, ..v }, FsAction::Succeed),
    }
}

/// Removes the backups left after every rename, then succeeds.
pub open spec fn finish_backups(v: CommitView) -> (CommitView, FsAction) {
    match first_true(v.backed_up, 0) {
        Some(j) => (
            CommitView {
                phase: CommitPhase::RemoveBackups,
                backed_up: v.backed_up.update(j, false),
                ..v
            },
            FsAction::RemoveBackup(j as usize),
        ),
        None => (CommitView { phase: CommitPhase::Finished, ..v }, FsAction::Succeed),
    }
}

/// Undoes one thing at a time: the new files in place first, then the
/// backups, then the temporary files; then reports the failure.
pub open spec fn undo(v: CommitView) -> (CommitView, FsAction) {
    match first_true(v.committed, 0) {
        Some(j) => (
            CommitView { phase: CommitPhase::Undo, committed: v.committed.update(j, false), ..v },
            FsAction::RemovePath(j as usize),
        ),
        None => match first_true(v.backed_up, 0) {
            Some(j) => (
                CommitView { phase: CommitPhase::Undo, backed_up: v.backed_up.update(j, false), ..v },
                FsAction::RestoreBackup(j as usize),
            ),
            None => match first_true(v.staged, 0) {
                Some(j) => (
                    CommitView { phase: CommitPhase::Undo, staged: v.staged.update(j, false), ..v },
                    FsAction::RemoveTemp(j as usize),
                ),
                None => (
                    CommitView { phase: CommitPhase::Finished, ..v },
                    FsAction::Fail(
                        match v.failure {
                            Some(e) => e,
                            None => CommitError::Cleanup,
                        },
                    ),
                ),
            },
        },
    }
}

/// Starts undoing after `e`.
pub open spec fn fail_with(v: CommitView, e: CommitError) -> (CommitView, FsAction) {
    undo(CommitView { phase: CommitPhase::Undo, failure: Some(e), ..v })
}

/// The next rename, or the backups' removal after the last.
pub open spec fn advance_commit(v: CommitView) -> (CommitView, FsAction) {
    if v.index < v.count {
        (CommitView { phase: CommitPhase::Commit, ..v }, FsAction::RenameTemp(v.index as usize))
    } else {
        finish_backups(CommitView { phase: CommitPhase::RemoveBackups, ..v })
    }
}

/// The next destination to look at, or the renames after the last.
pub open spec fn advance_inspect(v: CommitView) -> (CommitView, FsAction) {
    if v.index < v.count {
        (CommitView { phase: CommitPhase::Inspect, ..v }, FsAction::Inspect(v.index as usize))
    } else {
        advance_commit(CommitView { phase: CommitPhase::Commit, index: 0, ..v })
    }
}

/// The next link, or the temporary files' removal after the last.
pub open spec fn advance_link(v: CommitView) -> (CommitView, FsAction) {
    if v.index < v.count {
        (CommitView { phase: CommitPhase::Link, ..v }, FsAction::LinkTemp(v.index as usize))
    } else {
        finish_temps(CommitView { phase: CommitPhase::RemoveTemps, ..v })
    }
}

/// The next temporary file to write; after the last, the links, or with
/// `--force` the destinations to look at.
pub open spec fn advance_stage(v: CommitView) -> (CommitView, FsAction) {
    if v.index < v.count {
        (CommitView { phase: CommitPhase::Stage, ..v }, FsAction::WriteTemp(v.index as usize))
    } else if v.force {
        advance_inspect(CommitView { phase: CommitPhase::Inspect, index: 0, ..v })
    } else {
        advance_link(CommitView { phase: CommitPhase::Link, index: 0, ..v })
    }
}

/// The state before anything is written.
pub open spec fn initial_view(count: nat, force: bool) -> CommitView {
    CommitView {
        count,
        force,
        phase: CommitPhase::Stage,
        index: 0,
        staged: Seq::new(count, |i: int| false),
        committed: Seq::new(count, |i: int| false),
        backed_up: Seq::new(count, |i: int| false),
        failure: None,
    }
}

/// The transaction's move on the outcome of the last operation.
pub open spec fn step_spec(v: CommitView, event: FsEvent) -> (CommitView, FsAction) {
    let i = v.index;
    match v.phase {
        CommitPhase::Stage => if event == FsEvent::Done {
            advance_stage(CommitView { staged: v.staged.update(i as int, true), index: i + 1, ..v })
        } else {
            fail_with(v, CommitError::Stage(i as usize))
        },
        CommitPhase::Link => if event == FsEvent::Done {
            advance_link(
                CommitView { committed: v.committed.update(i as int, true), index: i + 1, ..v },
            )
        } else if event == (FsEvent::Failed { already_exists: true }) {
            fail_with(v, CommitError::Exists(i as usize))
        } else {
            fail_with(v, CommitError::Link(i as usize))
        },
        CommitPhase::Inspect => match event {
            FsEvent::Found { directory: true } => fail_with(v, CommitError::Directory(i as usize)),
            FsEvent::Found { directory: false } => (
                CommitView { phase: CommitPhase::BackUp, ..v },
                FsAction::BackUp(i as usize),
            ),
            _ => advance_inspect(CommitView { index: i + 1, ..v }),
        },
        CommitPhase::BackUp => if event == FsEvent::Done {
            advance_inspect(
                CommitView {
                    phase: CommitPhase::Inspect,
                    backed_up: v.backed_up.update(i as int, true),
                    index: i + 1,
                    ..v
                },
            )
        } else {
            fail_with(v, CommitError::Prepare(i as usize))
        },
        CommitPhase::Commit => if event == FsEvent::Done {
            advance_commit(
                CommitView {
                    committed: v.committed.update(i as int, true),
                    staged: v.staged.update(i as int, false),
                    index: i + 1,
                    ..v
                },
            )
        } else {
            fail_with(v, CommitError::Commit(i as usize))
        },
        CommitPhase::RemoveTemps => if event == FsEvent::Done {
            finish_temps(v)
        } else {
            (CommitView { phase: CommitPhase::Finished, ..v }, FsAction::Fail(CommitError::Cleanup))
        },
        CommitPhase::RemoveBackups => if event == FsEvent::Done {
            finish_backups(v)
        } else {
            (CommitView { phase: CommitPhase::Finished, ..v }, FsAction::Fail(CommitError::Cleanup))
        },
        CommitPhase::Undo => undo(v),
        CommitPhase::Finished => (v, FsAction::Succeed),
    }
}

/// Whether an action names a write of the transaction.
pub open spec fn action_in_range(a: FsAction, count: nat) -> bool {
    match a {
        FsAction::WriteTemp(j) | FsAction::LinkTemp(j) | FsAction::Inspect(j) | FsAction::BackUp(j)
        | FsAction::RenameTemp(j) | FsAction::RemoveTemp(j) | FsAction::RemovePath(j)
        | FsAction::RestoreBackup(j) | FsAction::RemoveBackup(j) => j < count,
        _ => true,
    }
}

/// What every move keeps and promises: the next state is again one that
/// waits for an outcome, every operation names one of the writes, success
/// comes only once every destination holds its new file and no temporary
/// file or backup is left, and a failure other than the final cleanup is
/// reported only after every new file put in place was removed, every backup
/// was moved back and every temporary file was removed; a failed cleanup
/// leaves every new file in place.
pub open spec fn step_laws(v: CommitView, next: (CommitView, FsAction)) -> bool {
    &&& commit_wf(next.0) || next.0.phase == CommitPhase::Finished
    &&& next.0.count == v.count && next.0.force == v.force
    &&& action_in_range(next.1, v.count)
    &&& (next.1 == FsAction::Succeed ==> all_set(next.0.committed) && none_set(next.0.staged)
        && none_set(next.0.backed_up))
    &&& (next.1 matches FsAction::Fail(e) && e != CommitError::Cleanup ==> none_set(next.0.committed)
        && none_set(next.0.backed_up) && none_set(next.0.staged))
    &&& (next.1 == FsAction::Fail(CommitError::Cleanup) ==> all_set(next.0.committed))
    &&& (next.0.phase == CommitPhase::Finished <==> (next.1 == FsAction::Succeed || next.1 is Fail))
}

proof fn lemma_undo(v: CommitView)
    requires
        v.staged.len() == v.count,
        v.committed.len() == v.count,
        v.backed_up.len() == v.count,
        v.index <= v.count,
        !v.force ==> none_set(v.backed_up),
        v.failure is Some && v.failure != Some(CommitError::Cleanup),
    ensures
        step_laws(v, undo(v)),
{
    lemma_first_true(v.committed, 0);
    lemma_first_true(v.backed_up, 0);
    lemma_first_true(v.staged, 0);
    let r = undo(v);
    match first_true(v.committed, 0) {
        Some(j) => {},
        None => match first_true(v.backed_up, 0) {
            Some(j) => {
                assert(none_set(r.0.backed_up) || v.force);
            },
            None => {},
        },
    }
}

proof fn lemma_finish_temps(v: CommitView)
    requires
        v.staged.len() == v.count,
        v.committed.len() == v.count,
        v.backed_up.len() == v.count,
        v.index <= v.count,
        !v.force,
        none_set(v.backed_up),
        all_set(v.committed),
    ensures
        step_laws(v, finish_temps(v)),
{
    lemma_first_true(v.staged, 0);
}

proof fn lemma_finish_backups(v: CommitView)
    requires
        v.staged.len() == v.count,
        v.committed.len() == v.count,
        v.backed_up.len() == v.count,
        v.index <= v.count,
        v.force,
        none_set(v.staged),
        all_set(v.committed),
    ensures
        step_laws(v, finish_backups(v)),
{
    lemma_first_true(v.backed_up, 0);
}

/// Every move of a transaction keeps its invariant and its promises: see
/// `step_laws`.
pub proof fn lemma_step_laws(v: CommitView, event: FsEvent)
    requires
        commit_wf(v),
        v.phase != CommitPhase::Finished,
    ensures
        step_laws(v, step_spec(v, event)),
{
    let i = v.index as int;
    match v.phase {
        CommitPhase::Stage => {
            if event == FsEvent::Done {
                let w = CommitView { staged: v.staged.update(i, true), index: v.index + 1, ..v };
                if w.index >= w.count {
                    assert(all_set(w.staged));
                    if w.force {
                        let x = CommitView { phase: CommitPhase::Inspect, index: 0, ..w };
                        if x.count == 0 {
                            let y = CommitView { phase: CommitPhase::Commit, index: 0, ..x };
                            assert(none_set(y.staged));
                            lemma_finish_backups(CommitView { phase: CommitPhase::RemoveBackups, ..y });
                        }
                    } else {
                        if w.count == 0 {
                            let y = CommitView { phase: CommitPhase::Link, index: 0, ..w };
                            assert(all_set(y.committed));
                            lemma_finish_temps(CommitView { phase: CommitPhase::RemoveTemps, ..y });
                        }
                    }
                }
            } else {
                lemma_undo(CommitView { phase: CommitPhase::Undo, failure: Some(CommitError::Stage(v.index as usize)), ..v });
            }
        },
        CommitPhase::Link => {
            if event == FsEvent::Done {
                let w = CommitView { committed: v.committed.update(i, true), index: v.index + 1, ..v };
                if w.index >= w.count {
                    assert(all_set(w.committed));
                    lemma_finish_temps(CommitView { phase: CommitPhase::RemoveTemps, ..w });
                }
            } else if event == (FsEvent::Failed { already_exists: true }) {
                lemma_undo(CommitView { phase: CommitPhase::Undo, failure: Some(CommitError::Exists(v.index as usize)), ..v });
            } else {
                lemma_undo(CommitView { phase: CommitPhase::Undo, failure: Some(CommitError::Link(v.index as usize)), ..v });
            }
        },
        CommitPhase::Inspect => {
            match event {
                FsEvent::Found { directory: true } => {
                    lemma_undo(CommitView { phase: CommitPhase::Undo, failure: Some(CommitError::Directory(v.index as usize)), ..v });
                },
                FsEvent::Found { directory: false } => {},
                _ => {
                    let w = CommitView { index: v.index + 1, ..v };
                    if w.index >= w.count {
                        let y = CommitView { phase: CommitPhase::Commit, index: 0, ..w };
                        if y.count == 0 {
                            assert(none_set(y.staged));
                            lemma_finish_backups(CommitView { phase: CommitPhase::RemoveBackups, ..y });
                        }
                    }
                },
            }
        },
        CommitPhase::BackUp => {
            if event == FsEvent::Done {
                let w = CommitView {
                    phase: CommitPhase::Inspect,
                    backed_up: v.backed_up.update(i, true),
                    index: v.index + 1,
                    ..v
                };
                if w.index >= w.count {
                    let y = CommitView { phase: CommitPhase::Commit, index: 0, ..w };
                    if y.count == 0 {
                        assert(none_set(y.staged));
                        lemma_finish_backups(CommitView { phase: CommitPhase::RemoveBackups, ..y });
                    }
                }
            } else {
                lemma_undo(CommitView { phase: CommitPhase::Undo, failure: Some(CommitError::Prepare(v.index as usize)), ..v });
            }
        },
        CommitPhase::Commit => {
            if event == FsEvent::Done {
                let w = CommitView {
                    committed: v.committed.update(i, true),
                    staged: v.staged.update(i, false),
                    index: v.index + 1,
                    ..v
                };
                if w.index >= w.count {
                    assert(all_set(w.committed));
                    assert(none_set(w.staged));
                    lemma_finish_backups(CommitView { phase: CommitPhase::RemoveBackups, ..w });
                }
            } else {
                lemma_undo(CommitView { phase: CommitPhase::Undo, failure: Some(CommitError::Commit(v.index as usize)), ..v });
            }
        },
        CommitPhase::RemoveTemps => {
            if event == FsEvent::Done {
                lemma_finish_temps(v);
            }
        },
        CommitPhase::RemoveBackups => {
            if event == FsEvent::Done {
                lemma_finish_backups(v);
            }
        },
        CommitPhase::Undo => {
            lemma_undo(v);
        },
        CommitPhase::Finished => {},
    }
}

/// What `--force` decides: without it no destination is ever looked at,
/// moved aside, renamed onto or restored, so a new file reaches its
/// destination only by a link, which fails where the destination exists;
/// with it no link is made.
pub proof fn lemma_force_decides(v: CommitView, event: FsEvent)
    requires
        commit_wf(v),
        v.phase != CommitPhase::Finished,
    ensures
        !v.force ==> !(step_spec(v, event).1 is Inspect) && !(step_spec(v, event).1 is BackUp)
            && !(step_spec(v, event).1 is RenameTemp) && !(step_spec(v, event).1 is RestoreBackup)
            && !(step_spec(v, event).1 is RemoveBackup),
        v.force ==> !(step_spec(v, event).1 is LinkTemp),
{
    lemma_first_true(v.backed_up, 0);
    lemma_first_true(v.committed, 0);
    lemma_first_true(v.staged, 0);
}

/// Each failure is recorded as what failed, at the write where it failed:
/// a temporary file that could not be written, a destination that exists
/// without `--force`, another failed link, a destination that is a
/// directory, one that could not be moved aside, a rename that failed. An
/// existing destination that is no directory is moved aside, with
/// `--force`, before it is replaced. While undoing, the recorded failure is
/// kept, and the failure finally reported is the one recorded.
pub proof fn lemma_failure_kinds(v: CommitView, event: FsEvent)
    requires
        commit_wf(v),
        v.phase != CommitPhase::Finished,
    ensures
        v.phase == CommitPhase::Stage && event != FsEvent::Done ==> step_spec(v, event).0.failure
            == Some(CommitError::Stage(v.index as usize)),
        v.phase == CommitPhase::Link && event == (FsEvent::Failed { already_exists: true })
            ==> step_spec(v, event).0.failure == Some(CommitError::Exists(v.index as usize)),
        v.phase == CommitPhase::Link && event != FsEvent::Done && event != (FsEvent::Failed {
            already_exists: true,
        }) ==> step_spec(v, event).0.failure == Some(CommitError::Link(v.index as usize)),
        v.phase == CommitPhase::Inspect && event == (FsEvent::Found { directory: true })
            ==> step_spec(v, event).0.failure == Some(CommitError::Directory(v.index as usize)),
        v.phase == CommitPhase::Inspect && event == (FsEvent::Found { directory: false })
            ==> step_spec(v, event).1 == FsAction::BackUp(v.index as usize),
        v.phase == CommitPhase::BackUp && event != FsEvent::Done ==> step_spec(v, event).0.failure
            == Some(CommitError::Prepare(v.index as usize)),
        v.phase == CommitPhase::Commit && event != FsEvent::Done ==> step_spec(v, event).0.failure
            == Some(CommitError::Commit(v.index as usize)),
        v.phase == CommitPhase::Undo ==> step_spec(v, event).0.failure == v.failure,
        step_spec(v, event).1 matches FsAction::Fail(e) ==> (e != CommitError::Cleanup
            ==> step_spec(v, event).0.failure == Some(e)),
{
}

fn first_set(v: &Vec<bool>) -> (r: Option<usize>)
    ensures
        match first_true(v@, 0) {
            Some(j) => r == Some(j as usize) && 0 <= j < v@.len(),
            None => r == None::<usize>,
        },
{
    let mut i: usize = 0;
    while i < v.len()
        invariant
            i <= v@.len(),
            first_true(v@, 0) == first_true(v@, i as int),
        decreases v@.len() - i,
    {
        if v[i] {
            return Some(i);
        }
        i = i + 1;
    }
    proof {
        lemma_first_true(v@, 0);
    }
    None
}

/// Whether an executable state has the lengths its view promises.
pub open spec fn lengths_ok(s: CommitState) -> bool {
    &&& s.staged@.len() == s.count
    &&& s.committed@.len() == s.count
    &&& s.backed_up@.len() == s.count
    &&& s.index <= s.count
}

fn finish_temps_exec(s: CommitState) -> (r: (CommitState, FsAction))
    requires
        lengths_ok(s),
    ensures
        r.0@ == finish_temps(s@).0,
        r.1 == finish_temps(s@).1,
{
    let mut s = s;
    match first_set(&s.staged) {
        Some(j) => {
            s.phase = CommitPhase::RemoveTemps;
            s.staged.set(j, false);
            (s, FsAction::RemoveTemp(j))
        },
        None => {
            s.phase = CommitPhase::Finished;
            (s, FsAction::Succeed)
        },
    }
}

fn finish_backups_exec(s: CommitState) -> (r: (CommitState, FsAction))
    requires
        lengths_ok(s),
    ensures
        r.0@ == finish_backups(s@).0,
        r.1 == finish_backups(s@).1,
{
    let mut s = s;
    match first_set(&s.backed_up) {
        Some(j) => {
            s.phase = CommitPhase::RemoveBackups;
            s.backed_up.set(j, false);
            (s, FsAction::RemoveBackup(j))
        },
        None => {
            s.phase = CommitPhase::Finished;
            (s, FsAction::Succeed)
        },
    }
}

fn undo_exec(s: CommitState) -> (r: (CommitState, FsAction))
    requires
        lengths_ok(s),
    ensures
        r.0@ == undo(s@).0,
        r.1 == undo(s@).1,
{
    let mut s = s;
    match first_set(&s.committed) {
        Some(j) => {
            s.phase = CommitPhase::Undo;
            s.committed.set(j, false);
            return (s, FsAction::RemovePath(j));
        },
        None => {},
    }
    match first_set(&s.backed_up) {
        Some(j) => {
            s.phase = CommitPhase::Undo;
            s.backed_up.set(j, false);
            return (s, FsAction::RestoreBackup(j));
        },
        None => {},
    }
    match first_set(&s.staged) {
        Some(j) => {
            s.phase = CommitPhase::Undo;
            s.staged.set(j, false);
            return (s, FsAction::RemoveTemp(j));
        },
        None => {},
    }
    let e = match s.failure {
        Some(e) => e,
        None => CommitError::Cleanup,
    };
    s.phase = CommitPhase::Finished;
    (s, FsAction::Fail(e))
}

fn fail_with_exec(s: CommitState, e: CommitError) -> (r: (CommitState, FsAction))
    requires
        lengths_ok(s),
    ensures
        r.0@ == fail_with(s@, e).0,
        r.1 == fail_with(s@, e).1,
{
    let mut s = s;
    s.phase = CommitPhase::Undo;
    s.failure = Some(e);
    undo_exec(s)
}

fn advance_commit_exec(s: CommitState) -> (r: (CommitState, FsAction))
    requires
        lengths_ok(s),
    ensures
        r.0@ == advance_commit(s@).0,
        r.1 == advance_commit(s@).1,
{
    let mut s = s;
    if s.index < s.count {
        s.phase = CommitPhase::Commit;
        let i = s.index;
        (s, FsAction::RenameTemp(i))
    } else {
        s.phase = CommitPhase::RemoveBackups;
        finish_backups_exec(s)
    }
}

fn advance_inspect_exec(s: CommitState) -> (r: (CommitState, FsAction))
    requires
        lengths_ok(s),
    ensures
        r.0@ == advance_inspect(s@).0,
        r.1 == advance_inspect(s@).1,
{
    let mut s = s;
    if s.index < s.count {
        s.phase = CommitPhase::Inspect;
        let i = s.index;
        (s, FsAction::Inspect(i))
    } else {
        s.phase = CommitPhase::Commit;
        s.index = 0;
        advance_commit_exec(s)
    }
}

fn advance_link_exec(s: CommitState) -> (r: (CommitState, FsAction))
    requires
        lengths_ok(s),
    ensures
        r.0@ == advance_link(s@).0,
        r.1 == advance_link(s@).1,
{
    let mut s = s;
    if s.index < s.count {
        s.phase = CommitPhase::Link;
        let i = s.index;
        (s, FsAction::LinkTemp(i))
    } else {
        s.phase = CommitPhase::RemoveTemps;
        finish_temps_exec(s)
    }
}

fn advance_stage_exec(s: CommitState) -> (r: (CommitState, FsAction))
    requires
        lengths_ok(s),
    ensures
        r.0@ == advance_stage(s@).0,
        r.1 == advance_stage(s@).1,
{
    let mut s = s;
    if s.index < s.count {
        s.phase = CommitPhase::Stage;
        let i = s.index;
        (s, FsAction::WriteTemp(i))
    } else if s.force {
        s.phase = CommitPhase::Inspect;
        s.index = 0;
        advance_inspect_exec(s)
    } else {
        s.phase = CommitPhase::Link;
        s.index = 0;
        advance_link_exec(s)
    }
}

/// Starts a transaction over `count` writes: nothing is written yet, and the
/// first action is the first temporary file (or, with no writes, success).
pub fn commit_start(count: usize, force: bool) -> (r: (CommitState, FsAction))
    ensures
        r.0@ == advance_stage(initial_view(count as nat, force)).0,
        r.1 == advance_stage(initial_view(count as nat, force)).1,
        commit_wf(r.0@) || r.0@.phase == CommitPhase::Finished,
        action_in_range(r.1, count as nat),
        r.1 == FsAction::Succeed <==> count == 0,
{
    let mut staged: Vec<bool> = Vec::new();
    let mut committed: Vec<bool> = Vec::new();
    let mut backed_up: Vec<bool> = Vec::new();
    let mut i: usize = 0;
    while i < count
        invariant
            i <= count,
            staged@ == Seq::new(i as nat, |j: int| false),
            committed@ == Seq::new(i as nat, |j: int| false),
            backed_up@ == Seq::new(i as nat, |j: int| false),
        decreases count - i,
    {
        staged.push(false);
        committed.push(false);
        backed_up.push(false);
        i = i + 1;
        assert(staged@ =~= Seq::new(i as nat, |j: int| false));
        assert(committed@ =~= Seq::new(i as nat, |j: int| false));
        assert(backed_up@ =~= Seq::new(i as nat, |j: int| false));
    }
    let s = CommitState {
        count,
        force,
        phase: CommitPhase::Stage,
        index: 0,
        staged,
        committed,
        backed_up,
        failure: None,
    };
    assert(s@ =~= initial_view(count as nat, force));
    let r = advance_stage_exec(s);
    proof {
        let v = initial_view(count as nat, force);
        if count == 0 {
            assert(none_set(v.staged));
            assert(all_set(v.committed));
        }
    }
    r
}

/// The next action of a transaction, given the outcome of the last one. It
/// keeps the promises of `step_laws`: above all, a failure is reported only
/// after every new file put in place was removed, every old file moved aside
/// was moved back and every temporary file was removed.
pub fn commit_step(state: CommitState, event: FsEvent) -> (next: (CommitState, FsAction))
    requires
        commit_wf(state@),
        state@.phase != CommitPhase::Finished,
    ensures
        next.0@ == step_spec(state@, event).0,
        next.1 == step_spec(state@, event).1,
        step_laws(state@, (next.0@, next.1)),
{
    proof {
        lemma_step_laws(state@, event);
    }
    let mut s = state;
    let i = s.index;
    match s.phase {
        CommitPhase::Stage => {
            if event == FsEvent::Done {
                s.staged.set(i, true);
                s.index = i + 1;
                advance_stage_exec(s)
            } else {
                fail_with_exec(s, CommitError::Stage(i))
            }
        },
        CommitPhase::Link => {
            if event == FsEvent::Done {
                s.committed.set(i, true);
                s.index = i + 1;
                advance_link_exec(s)
            } else if event == (FsEvent::Failed { already_exists: true }) {
                fail_with_exec(s, CommitError::Exists(i))
            } else {
                fail_with_exec(s, CommitError::Link(i))
            }
        },
        CommitPhase::Inspect => {
            match event {
                FsEvent::Found { directory: true } => fail_with_exec(s, CommitError::Directory(i)),
                FsEvent::Found { directory: false } => {
                    s.phase = CommitPhase::BackUp;
                    (s, FsAction::BackUp(i))
                },
                _ => {
                    s.index = i + 1;
                    advance_inspect_exec(s)
                },
            }
        },
        CommitPhase::BackUp => {
            if event == FsEvent::Done {
                s.phase = CommitPhase::Inspect;
                s.backed_up.set(i, true);
                s.index = i + 1;
                advance_inspect_exec(s)
            } else {
                fail_with_exec(s, CommitError::Prepare(i))
            }
        },
        CommitPhase::Commit => {
            if event == FsEvent::Done {
                s.committed.set(i, true);
                s.staged.set(i, false);
                s.index = i + 1;
                advance_commit_exec(s)
            } else {
                fail_with_exec(s, CommitError::Commit(i))
            }
        },
        CommitPhase::RemoveTemps => {
            if event == FsEvent::Done {
                finish_temps_exec(s)
            } else {
                s.phase = CommitPhase::Finished;
                (s, FsAction::Fail(CommitError::Cleanup))
            }
        },
        CommitPhase::RemoveBackups => {
            if event == FsEvent::Done {
                finish_backups_exec(s)
            } else {
                s.phase = CommitPhase::Finished;
                (s, FsAction::Fail(CommitError::Cleanup))
            }
        },
        CommitPhase::Undo => undo_exec(s),
        CommitPhase::Finished => (s, FsAction::Succeed),
    }
}

} // verus!
