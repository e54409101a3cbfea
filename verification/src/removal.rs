//! Removal of a batch of working copies, one decision at a time.
//!
//! The batch holds the names of the working copies that were selected and says
//! which action comes next. Unless the removal is forced, the user is asked
//! about each working copy first, and one that the user keeps is passed over
//! without counting as a failure. Then the package is uninstalled. The working
//! copy is deleted once the uninstall has succeeded, and in a forced removal
//! also after it has failed. A working copy that fails is counted once, and
//! the others go on.

use vstd::prelude::*;
use crate::batch::BatchOutcome;
use crate::text::texts;

verus! {

/// How far the removal of one working copy has come.
#[derive(Clone, Copy, Debug, PartialEq, Eq, Structural)]
pub enum RemovalStatus {
    /// Nothing was done yet.
    Pending,
    /// The user chose to keep it: nothing was done, and nothing will be.
    Declined,
    /// The package is uninstalled; the working copy waits to be deleted.
    Uninstalled,
    /// The uninstall failed. Unless the removal is forced, the working copy
    /// stays in place.
    UninstallFailed,
    /// The package is uninstalled and the working copy deleted.
    Removed,
    /// The uninstall failed and the working copy was deleted all the same.
    RemovedByForce,
    /// The working copy could not be deleted.
    DeleteFailed,
}

/// What the caller is to do next. The number is the position of the working
/// copy among the entries of the batch.
#[derive(Clone, Copy, Debug, PartialEq, Eq, Structural)]
pub enum RemovalAction {
    /// Ask the user whether to remove it.
    Confirm(usize),
    /// Run the uninstall of the package.
    Uninstall(usize),
    /// Delete the working copy by force.
    Delete(usize),
    /// Nothing is left to do.
    Finish,
}

/// What came of the action that the caller performed.
#[derive(Clone, Copy, Debug, PartialEq, Eq, Structural)]
pub enum RemovalEvent {
    /// The user agreed, or declined.
    Answered { yes: bool },
    /// The uninstall ended with this exit code.
    Uninstalled { exit_code: i32 },
    /// The deletion ended with this exit code.
    Deleted { exit_code: i32 },
}

/// The state of a removal: the status of each working copy, the action that
/// is awaited, and whether the removal is forced.
pub ghost struct RemovalView {
    pub statuses: Seq<RemovalStatus>,
    pub pending: RemovalAction,
    pub force: bool,
}

/// Whether a working copy has failed.
pub open spec fn is_failure(status: RemovalStatus) -> bool {
    status == RemovalStatus::UninstallFailed || status == RemovalStatus::RemovedByForce || status
        == RemovalStatus::DeleteFailed
}

/// Whether the working copy is deleted.
pub open spec fn is_deleted(status: RemovalStatus) -> bool {
    status == RemovalStatus::Removed || status == RemovalStatus::RemovedByForce
}

/// Whether nothing more is done for a working copy.
pub open spec fn is_settled(status: RemovalStatus, force: bool) -> bool {
    if force {
        is_deleted(status) || status == RemovalStatus::DeleteFailed
    } else {
        status == RemovalStatus::Declined || status == RemovalStatus::UninstallFailed || status
            == RemovalStatus::Removed || status == RemovalStatus::DeleteFailed
    }
}

/// The number of working copies that have failed.
pub open spec fn failures(statuses: Seq<RemovalStatus>) -> nat
    decreases statuses.len(),
{
    if statuses.len() == 0 {
        0
    } else {
        failures(statuses.drop_last()) + if is_failure(statuses.last()) {
            1nat
        } else {
            0nat
        }
    }
}

/// The first action for working copy `i`, or the end of the batch where there
/// is no such working copy.
pub open spec fn begin(count: nat, force: bool, i: int) -> RemovalAction {
    if i < 0 || i >= count {
        RemovalAction::Finish
    } else if force {
        RemovalAction::Uninstall(i as usize)
    } else {
        RemovalAction::Confirm(i as usize)
    }
}

/// The state in which a removal of `count` working copies starts.
pub open spec fn initial(count: nat, force: bool) -> RemovalView {
    RemovalView {
        statuses: Seq::new(count, |i: int| RemovalStatus::Pending),
        pending: begin(count, force, 0),
        force,
    }
}

/// Whether `event` reports on the action `pending`.
pub open spec fn answers(pending: RemovalAction, event: RemovalEvent) -> bool {
    match (pending, event) {
        (RemovalAction::Confirm(_), RemovalEvent::Answered { .. }) => true,
        (RemovalAction::Uninstall(_), RemovalEvent::Uninstalled { .. }) => true,
        (RemovalAction::Delete(_), RemovalEvent::Deleted { .. }) => true,
        _ => false,
    }
}

/// The state that follows `v` once `event` is reported. An event that does not
/// report on the awaited action changes nothing.
pub open spec fn step(v: RemovalView, event: RemovalEvent) -> RemovalView {
    let n = v.statuses.len();
    match (v.pending, event) {
        (RemovalAction::Confirm(i), RemovalEvent::Answered { yes }) => {
            if yes {
                RemovalView { pending: RemovalAction::Uninstall(i), ..v }
            } else {
                RemovalView {
                    statuses: v.statuses.update(i as int, RemovalStatus::Declined),
                    pending: begin(n, v.force, i + 1),
                    force: v.force,
                }
            }
        },
        (RemovalAction::Uninstall(i), RemovalEvent::Uninstalled { exit_code }) => {
            if exit_code == 0 {
                RemovalView {
                    statuses: v.statuses.update(i as int, RemovalStatus::Uninstalled),
                    pending: RemovalAction::Delete(i),
                    force: v.force,
                }
            } else {
                RemovalView {
                    statuses: v.statuses.update(i as int, RemovalStatus::UninstallFailed),
                    pending: if v.force {
                        RemovalAction::Delete(i)
                    } else {
                        begin(n, v.force, i + 1)
                    },
                    force: v.force,
                }
            }
        },
        (RemovalAction::Delete(i), RemovalEvent::Deleted { exit_code }) => {
            let status = if exit_code != 0 {
                RemovalStatus::DeleteFailed
            } else if v.statuses[i as int] == RemovalStatus::Uninstalled {
                RemovalStatus::Removed
            } else {
                RemovalStatus::RemovedByForce
            };
            RemovalView {
                statuses: v.statuses.update(i as int, status),
                pending: begin(n, v.force, i + 1),
                force: v.force,
            }
        },
        _ => v,
    }
}

/// Whether a state can come up in a removal: the working copies before the
/// current one are settled, those after it are untouched, and the current one
/// is as far as the awaited action says.
pub open spec fn is_well_formed(v: RemovalView) -> bool {
    let n = v.statuses.len();
    &&& n <= usize::MAX
    &&& match v.pending {
        RemovalAction::Confirm(i) => {
            &&& !v.force
            &&& i < n
            &&& forall|j: int| 0 <= j < i ==> is_settled(#[trigger] v.statuses[j], v.force)
            &&& forall|j: int| i <= j < n ==> #[trigger] v.statuses[j] == RemovalStatus::Pending
        },
        RemovalAction::Uninstall(i) => {
            &&& i < n
            &&& forall|j: int| 0 <= j < i ==> is_settled(#[trigger] v.statuses[j], v.force)
            &&& forall|j: int| i <= j < n ==> #[trigger] v.statuses[j] == RemovalStatus::Pending
        },
        RemovalAction::Delete(i) => {
            &&& i < n
            &&& (v.statuses[i as int] == RemovalStatus::Uninstalled || (v.force
                && v.statuses[i as int] == RemovalStatus::UninstallFailed))
            &&& forall|j: int| 0 <= j < i ==> is_settled(#[trigger] v.statuses[j], v.force)
            &&& forall|j: int| i < j < n ==> #[trigger] v.statuses[j] == RemovalStatus::Pending
        },
        RemovalAction::Finish => forall|j: int|
            0 <= j < n ==> is_settled(#[trigger] v.statuses[j], v.force),
    }
}

/// An upper bound on the number of reports that a removal still takes.
pub open spec fn work_left(v: RemovalView) -> int {
    let n = v.statuses.len() as int;
    match v.pending {
        RemovalAction::Confirm(i) => 3 * (n - i),
        RemovalAction::Uninstall(i) => 3 * (n - i) - 1,
        RemovalAction::Delete(i) => 3 * (n - i) - 2,
        RemovalAction::Finish => 0,
    }
}

/// The working copy that an action is about.
pub open spec fn entry_of(action: RemovalAction) -> Option<int> {
    match action {
        RemovalAction::Confirm(i) => Some(i as int),
        RemovalAction::Uninstall(i) => Some(i as int),
        RemovalAction::Delete(i) => Some(i as int),
        RemovalAction::Finish => None,
    }
}

/// No more working copies have failed than there are.
pub proof fn lemma_failures_bound(statuses: Seq<RemovalStatus>)
    ensures
        failures(statuses) <= statuses.len(),
    decreases statuses.len(),
{
    if statuses.len() > 0 {
        lemma_failures_bound(statuses.drop_last());
    }
}

/// Changing the status of one working copy changes the count of failures by
/// that working copy alone.
pub proof fn lemma_failures_update(statuses: Seq<RemovalStatus>, i: int, status: RemovalStatus)
    requires
        0 <= i < statuses.len(),
    ensures
        failures(statuses.update(i, status)) <= statuses.len(),
        failures(statuses.update(i, status)) == failures(statuses) - (if is_failure(statuses[i]) {
            1int
        } else {
            0int
        }) + (if is_failure(status) {
            1int
        } else {
            0int
        }),
    decreases statuses.len(),
{
    let updated = statuses.update(i, status);
    lemma_failures_bound(updated);
    if i == statuses.len() - 1 {
        assert(updated.drop_last() =~= statuses.drop_last());
    } else {
        assert(updated.drop_last() =~= statuses.drop_last().update(i, status));
        lemma_failures_update(statuses.drop_last(), i, status);
    }
}

/// A removal starts in a state that can come up, with no failure.
pub proof fn lemma_initial_is_well_formed(count: nat, force: bool)
    requires
        count <= usize::MAX,
    ensures
        is_well_formed(initial(count, force)),
        failures(initial(count, force).statuses) == 0,
    decreases count,
{
    if count > 0 {
        lemma_initial_is_well_formed((count - 1) as nat, force);
        assert(initial(count, force).statuses.drop_last() =~= initial(
            (count - 1) as nat,
            force,
        ).statuses);
    }
}

/// Whatever is reported, the state that follows can come up as well.
pub proof fn lemma_step_keeps_well_formed(v: RemovalView, event: RemovalEvent)
    requires
        is_well_formed(v),
    ensures
        is_well_formed(step(v, event)),
        step(v, event).statuses.len() == v.statuses.len(),
        step(v, event).force == v.force,
{
}

/// The count of failures never goes down, and one report adds at most one.
pub proof fn lemma_errors_never_decrease(v: RemovalView, event: RemovalEvent)
    requires
        is_well_formed(v),
    ensures
        failures(v.statuses) <= failures(step(v, event).statuses) <= failures(v.statuses) + 1,
        failures(step(v, event).statuses) <= v.statuses.len(),
{
    lemma_failures_bound(v.statuses);
    match entry_of(v.pending) {
        Some(i) => {
            lemma_failures_update(v.statuses, i, step(v, event).statuses[i]);
            assert(step(v, event).statuses =~= v.statuses.update(i, step(v, event).statuses[i]));
        },
        None => {},
    }
}

/// A report touches the working copy of the awaited action and no other.
pub proof fn lemma_step_touches_one_entry(v: RemovalView, event: RemovalEvent, j: int)
    requires
        is_well_formed(v),
        0 <= j < v.statuses.len(),
        entry_of(v.pending) != Some(j),
    ensures
        step(v, event).statuses[j] == v.statuses[j],
{
}

/// Every report on the awaited action brings the removal nearer to its end, a
/// failure as much as a success: no failure stops the batch.
pub proof fn lemma_step_makes_progress(v: RemovalView, event: RemovalEvent)
    requires
        is_well_formed(v),
        answers(v.pending, event),
    ensures
        0 <= work_left(step(v, event)) < work_left(v),
{
}

/// A working copy that the user keeps is left alone: it is not uninstalled,
/// not deleted, and not counted as a failure.
pub proof fn lemma_declined_is_left_alone(v: RemovalView, i: usize)
    requires
        is_well_formed(v),
        v.pending == RemovalAction::Confirm(i),
    ensures
        step(v, RemovalEvent::Answered { yes: false }).statuses[i as int]
            == RemovalStatus::Declined,
        entry_of(step(v, RemovalEvent::Answered { yes: false }).pending) != Some(i as int),
        failures(step(v, RemovalEvent::Answered { yes: false }).statuses) == failures(v.statuses),
{
    lemma_failures_update(v.statuses, i as int, RemovalStatus::Declined);
}

/// A declined working copy stays declined whatever is reported later, so it
/// is never deleted.
pub proof fn lemma_declined_is_final(v: RemovalView, event: RemovalEvent, j: int)
    requires
        is_well_formed(v),
        0 <= j < v.statuses.len(),
        v.statuses[j] == RemovalStatus::Declined,
    ensures
        step(v, event).statuses[j] == RemovalStatus::Declined,
        entry_of(v.pending) != Some(j),
        !is_deleted(step(v, event).statuses[j]),
{
}

/// In a forced removal the user is never asked, and a failed uninstall is
/// followed by the deletion of the working copy.
pub proof fn lemma_forced_removal_deletes(v: RemovalView, i: usize, exit_code: i32)
    requires
        is_well_formed(v),
        v.force,
        v.pending == RemovalAction::Uninstall(i),
    ensures
        step(v, RemovalEvent::Uninstalled { exit_code }).pending == RemovalAction::Delete(i),
        exit_code != 0 ==> failures(step(v, RemovalEvent::Uninstalled { exit_code }).statuses)
            == failures(v.statuses) + 1,
        step(
            step(v, RemovalEvent::Uninstalled { exit_code }),
            RemovalEvent::Deleted { exit_code: 0 },
        ).statuses[i as int] == (if exit_code == 0 {
            RemovalStatus::Removed
        } else {
            RemovalStatus::RemovedByForce
        }),
{
    if exit_code != 0 {
        lemma_failures_update(v.statuses, i as int, RemovalStatus::UninstallFailed);
    }
}

/// Unless the removal is forced, a working copy whose uninstall has failed
/// stays in place: the batch goes on with the next one.
pub proof fn lemma_failed_uninstall_keeps_copy(v: RemovalView, i: usize, exit_code: i32)
    requires
        is_well_formed(v),
        !v.force,
        v.pending == RemovalAction::Uninstall(i),
        exit_code != 0,
    ensures
        step(v, RemovalEvent::Uninstalled { exit_code }).pending != RemovalAction::Delete(i),
        entry_of(step(v, RemovalEvent::Uninstalled { exit_code }).pending) != Some(i as int),
        step(v, RemovalEvent::Uninstalled { exit_code }).statuses[i as int]
            == RemovalStatus::UninstallFailed,
{
}

/// What the caller will find for one working copy: whether the user agrees
/// to its removal, and the exit codes of the uninstall and of the deletion.
pub ghost struct EntryFate {
    pub confirmed: bool,
    pub uninstall_code: i32,
    pub delete_code: i32,
}

/// The status of a working copy at the end of the removal.
pub open spec fn settled(fate: EntryFate, force: bool) -> RemovalStatus {
    if !force && !fate.confirmed {
        RemovalStatus::Declined
    } else if fate.uninstall_code != 0 && !force {
        RemovalStatus::UninstallFailed
    } else if fate.delete_code != 0 {
        RemovalStatus::DeleteFailed
    } else if fate.uninstall_code == 0 {
        RemovalStatus::Removed
    } else {
        RemovalStatus::RemovedByForce
    }
}

/// What the caller reports on the awaited action, given what it will find.
pub open spec fn report(pending: RemovalAction, fates: Seq<EntryFate>) -> RemovalEvent {
    match pending {
        RemovalAction::Confirm(i) => RemovalEvent::Answered { yes: fates[i as int].confirmed },
        RemovalAction::Uninstall(i) => RemovalEvent::Uninstalled {
            exit_code: fates[i as int].uninstall_code,
        },
        RemovalAction::Delete(i) => RemovalEvent::Deleted { exit_code: fates[i as int].delete_code },
        RemovalAction::Finish => RemovalEvent::Answered { yes: false },
    }
}

/// The state in which a removal ends when the caller performs every action
/// that is asked for and reports what it finds.
pub open spec fn run(v: RemovalView, fates: Seq<EntryFate>) -> RemovalView
    decreases work_left(v),
    when is_well_formed(v)
{
    if v.pending == RemovalAction::Finish {
        v
    } else {
        proof {
            lemma_step_makes_progress(v, report(v.pending, fates));
        }
        run(step(v, report(v.pending, fates)), fates)
    }
}

/// Whether the statuses of a state are those that the fates give, as far as
/// the removal has come.
pub open spec fn agrees(v: RemovalView, fates: Seq<EntryFate>) -> bool {
    &&& fates.len() == v.statuses.len()
    &&& match v.pending {
        RemovalAction::Confirm(i) => forall|j: int|
            0 <= j < i ==> #[trigger] v.statuses[j] == settled(fates[j], v.force),
        RemovalAction::Uninstall(i) => {
            &&& v.force || fates[i as int].confirmed
            &&& forall|j: int| 0 <= j < i ==> #[trigger] v.statuses[j] == settled(fates[j], v.force)
        },
        RemovalAction::Delete(i) => {
            &&& v.force || fates[i as int].confirmed
            &&& v.statuses[i as int] == RemovalStatus::Uninstalled
                <==> fates[i as int].uninstall_code == 0
            &&& forall|j: int| 0 <= j < i ==> #[trigger] v.statuses[j] == settled(fates[j], v.force)
        },
        RemovalAction::Finish => forall|j: int|
            0 <= j < v.statuses.len() ==> #[trigger] v.statuses[j] == settled(fates[j], v.force),
    }
}

/// A report on what the caller finds keeps the statuses in line with the
/// fates.
pub proof fn lemma_step_keeps_agreement(v: RemovalView, fates: Seq<EntryFate>)
    requires
        is_well_formed(v),
        agrees(v, fates),
    ensures
        agrees(step(v, report(v.pending, fates)), fates),
{
    let next = step(v, report(v.pending, fates));
    match entry_of(v.pending) {
        Some(i) => {
            assert forall|j: int| 0 <= j < i implies #[trigger] next.statuses[j] == settled(
                fates[j],
                v.force,
            ) by {
                assert(v.statuses[j] == settled(fates[j], v.force));
            }
        },
        None => {},
    }
}

/// A removal that is run to its end settles every working copy as its fate
/// says.
pub proof fn lemma_run_settles(v: RemovalView, fates: Seq<EntryFate>)
    requires
        is_well_formed(v),
        agrees(v, fates),
    ensures
        run(v, fates).pending == RemovalAction::Finish,
        run(v, fates).force == v.force,
        run(v, fates).statuses == Seq::new(fates.len(), |j: int| settled(fates[j], v.force)),
    decreases work_left(v),
{
    if v.pending == RemovalAction::Finish {
        assert(v.statuses =~= Seq::new(fates.len(), |j: int| settled(fates[j], v.force)));
    } else {
        let event = report(v.pending, fates);
        lemma_step_makes_progress(v, event);
        lemma_step_keeps_well_formed(v, event);
        lemma_step_keeps_agreement(v, fates);
        lemma_run_settles(step(v, event), fates);
    }
}

/// Whatever the caller finds, a removal runs to its end and settles every
/// working copy by its own fate alone. A working copy that the user keeps is
/// neither deleted nor counted. A working copy is deleted if and only if the
/// deletion succeeds after an uninstall that has succeeded, or, in a forced
/// removal, after any uninstall.
pub proof fn lemma_removal_outcome(fates: Seq<EntryFate>, force: bool)
    requires
        fates.len() <= usize::MAX,
    ensures
        run(initial(fates.len(), force), fates).pending == RemovalAction::Finish,
        run(initial(fates.len(), force), fates).statuses == Seq::new(
            fates.len(),
            |j: int| settled(fates[j], force),
        ),
        forall|j: int|
            0 <= j < fates.len() && !force && !fates[j].confirmed ==> {
                &&& !is_deleted(#[trigger] run(initial(fates.len(), force), fates).statuses[j])
                &&& !is_failure(run(initial(fates.len(), force), fates).statuses[j])
            },
        forall|j: int|
            0 <= j < fates.len() ==> (is_deleted(
                #[trigger] run(initial(fates.len(), force), fates).statuses[j],
            ) <==> (force || fates[j].confirmed) && (force || fates[j].uninstall_code == 0)
                && fates[j].delete_code == 0),
{
    lemma_initial_is_well_formed(fates.len(), force);
    lemma_run_settles(initial(fates.len(), force), fates);
}

/// Among statuses none of which is a failure, none is counted.
pub proof fn lemma_no_failure_counts_nothing(statuses: Seq<RemovalStatus>)
    requires
        forall|j: int| 0 <= j < statuses.len() ==> !is_failure(#[trigger] statuses[j]),
    ensures
        failures(statuses) == 0,
    decreases statuses.len(),
{
    if statuses.len() > 0 {
        lemma_no_failure_counts_nothing(statuses.drop_last());
    }
}

/// Where the user agrees to every removal, or the removal is forced, and
/// every uninstall and every deletion succeeds, each working copy of the batch
/// ends removed, and the batch ends without a failure.
pub proof fn lemma_clean_removal(fates: Seq<EntryFate>, force: bool)
    requires
        fates.len() <= usize::MAX,
        forall|j: int|
            0 <= j < fates.len() ==> (force || (#[trigger] fates[j]).confirmed)
                && fates[j].uninstall_code == 0 && fates[j].delete_code == 0,
    ensures
        run(initial(fates.len(), force), fates).pending == RemovalAction::Finish,
        run(initial(fates.len(), force), fates).statuses == Seq::new(
            fates.len(),
            |j: int| RemovalStatus::Removed,
        ),
        failures(run(initial(fates.len(), force), fates).statuses) == 0,
{
    lemma_removal_outcome(fates, force);
    let end = run(initial(fates.len(), force), fates).statuses;
    assert(end =~= Seq::new(fates.len(), |j: int| RemovalStatus::Removed));
    lemma_no_failure_counts_nothing(end);
}

/// A removal of a batch of working copies.
pub struct RemovalBatch {
    entries: Vec<String>,
    statuses: Vec<RemovalStatus>,
    pending: RemovalAction,
    force: bool,
    errors: usize,
}

impl View for RemovalBatch {
    type V = RemovalView;

    closed spec fn view(&self) -> RemovalView {
        RemovalView { statuses: self.statuses@, pending: self.pending, force: self.force }
    }
}

/// The first action for working copy `i`.
fn find_begin(count: usize, force: bool, i: usize) -> (action: RemovalAction)
    ensures
        action == begin(count as nat, force, i as int),
{
    if i >= count {
        RemovalAction::Finish
    } else if force {
        RemovalAction::Uninstall(i)
    } else {
        RemovalAction::Confirm(i)
    }
}

impl RemovalBatch {
    #[verifier::type_invariant]
    spec fn consistent(self) -> bool {
        &&& self.entries.len() == self.statuses.len()
        &&& is_well_formed(self@)
        &&& self.errors == failures(self.statuses@)
    }

    /// The names of the working copies of the batch.
    pub closed spec fn names(&self) -> Seq<Seq<char>> {
        texts(self.entries@)
    }

    /// Starts the removal of the working copies named `entries`.
    pub fn new(entries: Vec<String>, force: bool) -> (batch: RemovalBatch)
        ensures
            batch@ == initial(entries.len() as nat, force),
            batch.names() == texts(entries@),
            is_well_formed(batch@),
    {
        let count = entries.len();
        let mut statuses: Vec<RemovalStatus> = Vec::new();
        let mut i: usize = 0;
        while i < count
            invariant
                0 <= i <= count,
                statuses@ == initial(i as nat, force).statuses,
            decreases count - i,
        {
            statuses.push(RemovalStatus::Pending);
            assert(statuses@ =~= initial((i + 1) as nat, force).statuses);
            i = i + 1;
        }
        proof {
            lemma_initial_is_well_formed(count as nat, force);
        }
        let pending = find_begin(count, force, 0);
        RemovalBatch { entries, statuses, pending, force, errors: 0 }
    }

    /// The action that the caller is to perform now.
    pub fn next_action(&self) -> (action: RemovalAction)
        ensures
            action == self@.pending,
            is_well_formed(self@),
            entry_of(action) matches Some(i) ==> 0 <= i < self.names().len(),
    {
        proof {
            use_type_invariant(self);
        }
        self.pending
    }

    /// Whether nothing is left to do.
    pub fn is_finished(&self) -> (done: bool)
        ensures
            done == (self@.pending == RemovalAction::Finish),
    {
        match self.pending {
            RemovalAction::Finish => true,
            _ => false,
        }
    }

    /// Whether `event` reports on the awaited action.
    pub fn accepts(&self, event: RemovalEvent) -> (ok: bool)
        ensures
            ok == answers(self@.pending, event),
    {
        match (self.pending, event) {
            (RemovalAction::Confirm(_), RemovalEvent::Answered { .. }) => true,
            (RemovalAction::Uninstall(_), RemovalEvent::Uninstalled { .. }) => true,
            (RemovalAction::Delete(_), RemovalEvent::Deleted { .. }) => true,
            _ => false,
        }
    }

    /// Whether the removal is forced.
    pub fn is_forced(&self) -> (force: bool)
        ensures
            force == self@.force,
    {
        self.force
    }

    /// The number of working copies.
    pub fn len(&self) -> (n: usize)
        ensures
            n == self.names().len(),
            n == self@.statuses.len(),
    {
        proof {
            use_type_invariant(self);
        }
        self.entries.len()
    }

    /// The name of working copy `i`, if there is such a working copy.
    pub fn entry(&self, i: usize) -> (name: Option<&str>)
        ensures
            name is Some <==> i < self.names().len(),
            name matches Some(n) ==> n@ == self.names()[i as int],
    {
        if i < self.entries.len() {
            Some(self.entries[i].as_str())
        } else {
            None
        }
    }

    /// The status of working copy `i`, if there is such a working copy.
    pub fn status(&self, i: usize) -> (status: Option<RemovalStatus>)
        ensures
            status is Some <==> i < self@.statuses.len(),
            status matches Some(s) ==> s == self@.statuses[i as int],
    {
        if i < self.statuses.len() {
            Some(self.statuses[i])
        } else {
            None
        }
    }

    /// The count of the working copies that have failed so far.
    pub fn outcome(&self) -> (outcome: BatchOutcome)
        ensures
            outcome.error_count == failures(self@.statuses),
            outcome.error_count <= self@.statuses.len(),
    {
        proof {
            use_type_invariant(self);
            lemma_failures_bound(self.statuses@);
        }
        BatchOutcome { error_count: self.errors }
    }

    /// The batch after `event` was reported.
    pub fn advance(self, event: RemovalEvent) -> (next: RemovalBatch)
        ensures
            next@ == step(self@, event),
            next.names() == self.names(),
            is_well_formed(next@),
            failures(self@.statuses) <= failures(next@.statuses) <= failures(self@.statuses) + 1,
    {
        proof {
            use_type_invariant(&self);
            lemma_step_keeps_well_formed(self@, event);
            lemma_errors_never_decrease(self@, event);
        }
        let ghost before = self@;
        let RemovalBatch { entries, mut statuses, pending, force, mut errors } = self;
        let count = statuses.len();
        let mut next_pending = pending;
        match (pending, event) {
            (RemovalAction::Confirm(i), RemovalEvent::Answered { yes }) => {
                if yes {
                    next_pending = RemovalAction::Uninstall(i);
                } else {
                    proof {
                        lemma_failures_update(statuses@, i as int, RemovalStatus::Declined);
                    }
                    statuses.set(i, RemovalStatus::Declined);
                    next_pending = find_begin(count, force, i + 1);
                }
            },
            (RemovalAction::Uninstall(i), RemovalEvent::Uninstalled { exit_code }) => {
                if exit_code == 0 {
                    proof {
                        lemma_failures_update(statuses@, i as int, RemovalStatus::Uninstalled);
                    }
                    statuses.set(i, RemovalStatus::Uninstalled);
                    next_pending = RemovalAction::Delete(i);
                } else {
                    proof {
                        lemma_failures_update(statuses@, i as int, RemovalStatus::UninstallFailed);
                    }
                    statuses.set(i, RemovalStatus::UninstallFailed);
                    errors = errors + 1;
                    next_pending = if force {
                        RemovalAction::Delete(i)
                    } else {
                        find_begin(count, force, i + 1)
                    };
                }
            },
            (RemovalAction::Delete(i), RemovalEvent::Deleted { exit_code }) => {
                let uninstalled = match statuses[i] {
                    RemovalStatus::Uninstalled => true,
                    _ => false,
                };
                let status = if exit_code != 0 {
                    RemovalStatus::DeleteFailed
                } else if uninstalled {
                    RemovalStatus::Removed
                } else {
                    RemovalStatus::RemovedByForce
                };
                proof {
                    lemma_failures_update(statuses@, i as int, status);
                }
                statuses.set(i, status);
                if uninstalled && exit_code != 0 {
                    errors = errors + 1;
                }
                next_pending = find_begin(count, force, i + 1);
            },
            _ => {},
        }
        assert(RemovalView { statuses: statuses@, pending: next_pending, force } == step(
            before,
            event,
        ));
        RemovalBatch { entries, statuses, pending: next_pending, force, errors }
    }
}

} // verus!
