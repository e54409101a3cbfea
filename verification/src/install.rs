//! Installation of a batch of packages, one decision at a time.
//!
//! The batch holds the locations to install and says which action comes next.
//! The caller performs it (looks for the working copy, clones, removes what a
//! failed clone left, runs the build) and reports what happened; the batch
//! then says what follows. First every target gets its working copy, reused
//! where one is there already and cloned otherwise. Then every working copy is
//! built. A target that fails is counted and left behind; the others go on.

use std::sync::{Arc, Mutex};
use vstd::prelude::*;
use crate::batch::BatchOutcome;
use crate::location::{location_views, Location, LocationView};

verus! {

/// How far one target of an installation has come.
#[derive(Clone, Copy, Debug, PartialEq, Eq, Structural)]
pub enum TargetStatus {
    /// Nothing is known of its working copy yet.
    Pending,
    /// Its working copy was there already.
    Reused,
    /// Its working copy was cloned.
    Cloned,
    /// The clone failed: it has no working copy and is not built.
    CloneFailed,
    /// The build succeeded.
    Built,
    /// The build failed, or the working copy could not be entered.
    BuildFailed,
}

/// What the caller is to do next. The number is the position of the target
/// among the locations of the batch.
#[derive(Clone, Copy, Debug, PartialEq, Eq, Structural)]
pub enum InstallAction {
    /// Report whether the working copy exists.
    Probe(usize),
    /// Clone the remote address into the working copy.
    Clone(usize),
    /// Remove by force whatever the failed clone left of the working copy.
    RemovePartial(usize),
    /// Run the build in the working copy.
    Build(usize),
    /// Nothing is left to do.
    Finish,
}

/// What came of the action that the caller performed.
#[derive(Clone, Copy, Debug, PartialEq, Eq, Structural)]
pub enum InstallEvent {
    /// The working copy exists, or does not.
    Probed { exists: bool },
    /// The clone succeeded, or failed.
    Cloned { ok: bool },
    /// The removal of a partial working copy ended, well or not.
    PartialRemoved { ok: bool },
    /// The build ended with this exit code.
    Built { exit_code: i32 },
    /// The working copy could not be entered, so no build was run.
    Inaccessible,
}

/// The state of an installation: the status of each target and the action
/// that is awaited.
pub ghost struct InstallView {
    pub statuses: Seq<TargetStatus>,
    pub pending: InstallAction,
}

/// Whether a target has a working copy that waits for its build.
pub open spec fn is_present(status: TargetStatus) -> bool {
    status == TargetStatus::Reused || status == TargetStatus::Cloned
}

/// Whether a target has failed.
pub open spec fn is_failure(status: TargetStatus) -> bool {
    status == TargetStatus::CloneFailed || status == TargetStatus::BuildFailed
}

/// Whether the first phase is over for a target.
pub open spec fn is_materialized_or_failed(status: TargetStatus) -> bool {
    is_present(status) || status == TargetStatus::CloneFailed
}

/// Whether nothing more is done for a target.
pub open spec fn is_settled(status: TargetStatus) -> bool {
    is_failure(status) || status == TargetStatus::Built
}

/// The number of targets that have failed.
pub open spec fn failures(statuses: Seq<TargetStatus>) -> nat
    decreases statuses.len(),
{
    if statuses.len() == 0 {
        0
    } else {
        failures(statuses.drop_last()) + if is_failure(statuses.last()) {
            1nat
        } else {
            0nat
        }
    }
}

/// The build of the first target at or after `from` that has a working copy,
/// or the end of the batch where there is none.
pub open spec fn next_build(statuses: Seq<TargetStatus>, from: int) -> InstallAction
    decreases statuses.len() - from,
{
    if from < 0 || from >= statuses.len() {
        InstallAction::Finish
    } else if is_present(statuses[from]) {
        InstallAction::Build(from as usize)
    } else {
        next_build(statuses, from + 1)
    }
}

/// What follows once the first phase is over for target `i`: the next target,
/// or the first build after the last target.
pub open spec fn after_materialize(statuses: Seq<TargetStatus>, i: int) -> InstallAction {
    if i + 1 < statuses.len() {
        InstallAction::Probe((i + 1) as usize)
    } else {
        next_build(statuses, 0)
    }
}

/// The state in which an installation of `count` targets starts.
pub open spec fn initial(count: nat) -> InstallView {
    InstallView {
        statuses: Seq::new(count, |i: int| TargetStatus::Pending),
        pending: if count == 0 {
            InstallAction::Finish
        } else {
            InstallAction::Probe(0)
        },
    }
}

/// Whether `event` reports on the action `pending`.
pub open spec fn answers(pending: InstallAction, event: InstallEvent) -> bool {
    match (pending, event) {
        (InstallAction::Probe(_), InstallEvent::Probed { .. }) => true,
        (InstallAction::Clone(_), InstallEvent::Cloned { .. }) => true,
        (InstallAction::RemovePartial(_), InstallEvent::PartialRemoved { .. }) => true,
        (InstallAction::Build(_), InstallEvent::Built { .. }) => true,
        (InstallAction::Build(_), InstallEvent::Inaccessible) => true,
        _ => false,
    }
}

/// The state that follows `v` once `event` is reported. An event that does not
/// report on the awaited action changes nothing.
pub open spec fn step(v: InstallView, event: InstallEvent) -> InstallView {
    match (v.pending, event) {
        (InstallAction::Probe(i), InstallEvent::Probed { exists }) => {
            if exists {
                let statuses = v.statuses.update(i as int, TargetStatus::Reused);
                InstallView { statuses, pending: after_materialize(statuses, i as int) }
            } else {
                InstallView { statuses: v.statuses, pending: InstallAction::Clone(i) }
            }
        },
        (InstallAction::Clone(i), InstallEvent::Cloned { ok }) => {
            if ok {
                let statuses = v.statuses.update(i as int, TargetStatus::Cloned);
                InstallView { statuses, pending: after_materialize(statuses, i as int) }
            } else {
                InstallView {
                    statuses: v.statuses.update(i as int, TargetStatus::CloneFailed),
                    pending: InstallAction::RemovePartial(i),
                }
            }
        },
        (InstallAction::RemovePartial(i), InstallEvent::PartialRemoved { .. }) => {
            InstallView { statuses: v.statuses, pending: after_materialize(v.statuses, i as int) }
        },
        (InstallAction::Build(i), InstallEvent::Built { exit_code }) => {
            let status = if exit_code == 0 {
                TargetStatus::Built
            } else {
                TargetStatus::BuildFailed
            };
            let statuses = v.statuses.update(i as int, status);
            InstallView { statuses, pending: next_build(statuses, i + 1) }
        },
        (InstallAction::Build(i), InstallEvent::Inaccessible) => {
            let statuses = v.statuses.update(i as int, TargetStatus::BuildFailed);
            InstallView { statuses, pending: next_build(statuses, i + 1) }
        },
        _ => v,
    }
}

/// Whether a state can come up in an installation. While the working copies
/// are made, the targets before the current one have theirs or have failed,
/// and those after it are untouched. While they are built, the targets before
/// the current one are settled, and those after it wait with a working copy or
/// have failed to get one. At the end every target is settled.
pub open spec fn is_well_formed(v: InstallView) -> bool {
    let n = v.statuses.len();
    &&& n <= usize::MAX
    &&& match v.pending {
        InstallAction::Probe(i) | InstallAction::Clone(i) => {
            &&& i < n
            &&& forall|j: int| 0 <= j < i ==> is_materialized_or_failed(#[trigger] v.statuses[j])
            &&& forall|j: int| i <= j < n ==> #[trigger] v.statuses[j] == TargetStatus::Pending
        },
        InstallAction::RemovePartial(i) => {
            &&& i < n
            &&& v.statuses[i as int] == TargetStatus::CloneFailed
            &&& forall|j: int| 0 <= j < i ==> is_materialized_or_failed(#[trigger] v.statuses[j])
            &&& forall|j: int| i < j < n ==> #[trigger] v.statuses[j] == TargetStatus::Pending
        },
        InstallAction::Build(i) => {
            &&& i < n
            &&& is_present(v.statuses[i as int])
            &&& forall|j: int| 0 <= j < i ==> is_settled(#[trigger] v.statuses[j])
            &&& forall|j: int| i < j < n ==> is_materialized_or_failed(#[trigger] v.statuses[j])
        },
        InstallAction::Finish => forall|j: int| 0 <= j < n ==> is_settled(#[trigger] v.statuses[j]),
    }
}

/// An upper bound on the number of reports that an installation still takes.
pub open spec fn work_left(v: InstallView) -> int {
    let n = v.statuses.len() as int;
    match v.pending {
        InstallAction::Probe(i) => 3 * (n - i) + n + 1,
        InstallAction::Clone(i) => 3 * (n - i) + n,
        InstallAction::RemovePartial(i) => 3 * (n - i) + n - 1,
        InstallAction::Build(i) => n - i,
        InstallAction::Finish => 0,
    }
}

/// The target that an action is about.
pub open spec fn target_of(action: InstallAction) -> Option<int> {
    match action {
        InstallAction::Probe(i) => Some(i as int),
        InstallAction::Clone(i) => Some(i as int),
        InstallAction::RemovePartial(i) => Some(i as int),
        InstallAction::Build(i) => Some(i as int),
        InstallAction::Finish => None,
    }
}

/// No more targets have failed than there are, and changing the status of one
/// target changes the count by that target alone.
pub proof fn lemma_failures_update(statuses: Seq<TargetStatus>, i: int, status: TargetStatus)
    requires
        0 <= i < statuses.len(),
    ensures
        failures(statuses) <= statuses.len(),
        failures(statuses.update(i, status)) <= statuses.len(),
        failures(statuses.update(i, status)) == failures(statuses) - (if is_failure(statuses[i]) {
            1int
        } else {
            0int
        }) + (if is_failure(status) {
            1int
        } else {
            0int
        }),
    decreases statuses.len(),
{
    let updated = statuses.update(i, status);
    if i == statuses.len() - 1 {
        assert(updated.drop_last() =~= statuses.drop_last());
        lemma_failures_bound(statuses.drop_last());
    } else {
        assert(updated.drop_last() =~= statuses.drop_last().update(i, status));
        lemma_failures_update(statuses.drop_last(), i, status);
    }
}

/// No more targets have failed than there are.
pub proof fn lemma_failures_bound(statuses: Seq<TargetStatus>)
    ensures
        failures(statuses) <= statuses.len(),
    decreases statuses.len(),
{
    if statuses.len() > 0 {
        lemma_failures_bound(statuses.drop_last());
    }
}

/// The next build is that of a target at or after `from` that has a working
/// copy, and every target between has none.
pub proof fn lemma_next_build(statuses: Seq<TargetStatus>, from: int)
    requires
        0 <= from,
        statuses.len() <= usize::MAX,
    ensures
        match next_build(statuses, from) {
            InstallAction::Build(k) => {
                &&& from <= k < statuses.len()
                &&& is_present(statuses[k as int])
                &&& forall|j: int| from <= j < k ==> !is_present(#[trigger] statuses[j])
            },
            InstallAction::Finish => forall|j: int|
                from <= j < statuses.len() ==> !is_present(#[trigger] statuses[j]),
            _ => false,
        },
    decreases statuses.len() - from,
{
    if from < statuses.len() && !is_present(statuses[from]) {
        lemma_next_build(statuses, from + 1);
    }
}

/// An installation starts in a state that can come up, with no failure.
pub proof fn lemma_initial_is_well_formed(count: nat)
    requires
        count <= usize::MAX,
    ensures
        is_well_formed(initial(count)),
        failures(initial(count).statuses) == 0,
    decreases count,
{
    if count > 0 {
        lemma_initial_is_well_formed((count - 1) as nat);
        assert(initial(count).statuses.drop_last() =~= initial((count - 1) as nat).statuses);
    }
}

/// Whatever is reported, the state that follows can come up as well.
pub proof fn lemma_step_keeps_well_formed(v: InstallView, event: InstallEvent)
    requires
        is_well_formed(v),
    ensures
        is_well_formed(step(v, event)),
        step(v, event).statuses.len() == v.statuses.len(),
{
    let next = step(v, event);
    if answers(v.pending, event) {
        lemma_next_build(next.statuses, 0);
        match v.pending {
            InstallAction::Build(i) => {
                lemma_next_build(next.statuses, i + 1);
            },
            _ => {},
        }
    }
}

/// The count of failures never goes down, and one report adds at most one.
pub proof fn lemma_errors_never_decrease(v: InstallView, event: InstallEvent)
    requires
        is_well_formed(v),
    ensures
        failures(v.statuses) <= failures(step(v, event).statuses) <= failures(v.statuses) + 1,
        failures(step(v, event).statuses) <= v.statuses.len(),
{
    lemma_failures_bound(v.statuses);
    match target_of(v.pending) {
        Some(i) => {
            lemma_failures_update(v.statuses, i, step(v, event).statuses[i]);
            assert(step(v, event).statuses =~= v.statuses.update(i, step(v, event).statuses[i]));
        },
        None => {},
    }
}

/// A report touches the target of the awaited action and no other: what
/// happens to one target leaves the others as they were.
pub proof fn lemma_step_touches_one_target(v: InstallView, event: InstallEvent, j: int)
    requires
        is_well_formed(v),
        0 <= j < v.statuses.len(),
        target_of(v.pending) != Some(j),
    ensures
        step(v, event).statuses[j] == v.statuses[j],
{
}

/// Every report on the awaited action brings the installation nearer to its
/// end, a failure as much as a success: no failure stops the batch.
pub proof fn lemma_step_makes_progress(v: InstallView, event: InstallEvent)
    requires
        is_well_formed(v),
        answers(v.pending, event),
    ensures
        0 <= work_left(step(v, event)) < work_left(v),
{
    let next = step(v, event);
    lemma_next_build(next.statuses, 0);
    match v.pending {
        InstallAction::Build(i) => {
            lemma_next_build(next.statuses, i + 1);
        },
        _ => {},
    }
}

/// After a clone has failed, the next action removes what it left, and the
/// target is marked as failed.
pub proof fn lemma_failed_clone_is_removed(v: InstallView, i: usize)
    requires
        is_well_formed(v),
        v.pending == InstallAction::Clone(i),
    ensures
        step(v, InstallEvent::Cloned { ok: false }).pending == InstallAction::RemovePartial(i),
        step(v, InstallEvent::Cloned { ok: false }).statuses[i as int] == TargetStatus::CloneFailed,
        failures(step(v, InstallEvent::Cloned { ok: false }).statuses) == failures(v.statuses) + 1,
{
    lemma_failures_update(v.statuses, i as int, TargetStatus::CloneFailed);
}

/// A target whose clone has failed stays failed and is never built.
pub proof fn lemma_failed_clone_is_never_built(v: InstallView, event: InstallEvent, j: int)
    requires
        is_well_formed(v),
        0 <= j < v.statuses.len(),
        v.statuses[j] == TargetStatus::CloneFailed,
    ensures
        step(v, event).statuses[j] == TargetStatus::CloneFailed,
        step(v, event).pending != InstallAction::Build(j as usize),
        v.pending != InstallAction::Build(j as usize),
{
    lemma_step_keeps_well_formed(v, event);
}

/// A working copy that is there already is not cloned: the target counts as
/// ready for its build, and the clone is never asked for.
pub proof fn lemma_existing_copy_is_not_cloned(v: InstallView, i: usize)
    requires
        is_well_formed(v),
        v.pending == InstallAction::Probe(i),
    ensures
        step(v, InstallEvent::Probed { exists: true }).statuses[i as int] == TargetStatus::Reused,
        step(v, InstallEvent::Probed { exists: true }).pending != InstallAction::Clone(i),
        step(v, InstallEvent::Probed { exists: true }).pending != InstallAction::RemovePartial(i),
        failures(step(v, InstallEvent::Probed { exists: true }).statuses) == failures(v.statuses),
{
    let next = step(v, InstallEvent::Probed { exists: true });
    lemma_failures_update(v.statuses, i as int, TargetStatus::Reused);
    lemma_next_build(next.statuses, 0);
}

/// A clone is only ever asked for after the caller reported that the working
/// copy is missing.
pub proof fn lemma_clone_follows_missing_copy(v: InstallView, event: InstallEvent, i: usize)
    requires
        is_well_formed(v),
        step(v, event).pending == InstallAction::Clone(i),
        v.pending != InstallAction::Clone(i),
    ensures
        v.pending == InstallAction::Probe(i),
        event == (InstallEvent::Probed { exists: false }),
{
    if answers(v.pending, event) {
        lemma_next_build(step(v, event).statuses, 0);
        match v.pending {
            InstallAction::Build(k) => {
                lemma_next_build(step(v, event).statuses, k + 1);
            },
            _ => {},
        }
    }
}

/// The build is asked for exactly the targets that have a working copy.
pub proof fn lemma_build_needs_working_copy(v: InstallView, i: usize)
    requires
        is_well_formed(v),
        v.pending == InstallAction::Build(i),
    ensures
        is_present(v.statuses[i as int]),
{
}

/// What the caller will find for one target: whether its working copy is
/// there already, whether a clone of it succeeds, whether the removal of a
/// failed clone succeeds, and the exit code of its build, if the working copy
/// can be entered.
pub ghost struct TargetFate {
    pub exists: bool,
    pub clone_ok: bool,
    pub cleanup_ok: bool,
    pub build_code: Option<i32>,
}

/// Whether a target gets a working copy.
pub open spec fn gets_copy(fate: TargetFate) -> bool {
    fate.exists || fate.clone_ok
}

/// The status of a target once the first phase is over for it.
pub open spec fn materialized(fate: TargetFate) -> TargetStatus {
    if fate.exists {
        TargetStatus::Reused
    } else if fate.clone_ok {
        TargetStatus::Cloned
    } else {
        TargetStatus::CloneFailed
    }
}

/// The status of a target at the end of the installation.
pub open spec fn settled(fate: TargetFate) -> TargetStatus {
    if !gets_copy(fate) {
        TargetStatus::CloneFailed
    } else if fate.build_code == Some(0i32) {
        TargetStatus::Built
    } else {
        TargetStatus::BuildFailed
    }
}

/// What the caller reports on the awaited action, given what it will find.
pub open spec fn report(pending: InstallAction, fates: Seq<TargetFate>) -> InstallEvent {
    match pending {
        InstallAction::Probe(i) => InstallEvent::Probed { exists: fates[i as int].exists },
        InstallAction::Clone(i) => InstallEvent::Cloned { ok: fates[i as int].clone_ok },
        InstallAction::RemovePartial(i) => InstallEvent::PartialRemoved {
            ok: fates[i as int].cleanup_ok,
        },
        InstallAction::Build(i) => match fates[i as int].build_code {
            Some(exit_code) => InstallEvent::Built { exit_code },
            None => InstallEvent::Inaccessible,
        },
        InstallAction::Finish => InstallEvent::Inaccessible,
    }
}

/// The state in which an installation ends when the caller performs every
/// action that is asked for and reports what it finds.
pub open spec fn run(v: InstallView, fates: Seq<TargetFate>) -> InstallView
    decreases work_left(v),
    when is_well_formed(v)
{
    if v.pending == InstallAction::Finish {
        v
    } else {
        proof {
            lemma_step_makes_progress(v, report(v.pending, fates));
        }
        run(step(v, report(v.pending, fates)), fates)
    }
}

/// Whether the statuses of a state are those that the fates give, as far as
/// the installation has come.
pub open spec fn agrees(v: InstallView, fates: Seq<TargetFate>) -> bool {
    let n = v.statuses.len();
    &&& fates.len() == n
    &&& match v.pending {
        InstallAction::Probe(i) => forall|j: int|
            0 <= j < i ==> #[trigger] v.statuses[j] == materialized(fates[j]),
        InstallAction::Clone(i) => {
            &&& !fates[i as int].exists
            &&& forall|j: int| 0 <= j < i ==> #[trigger] v.statuses[j] == materialized(fates[j])
        },
        InstallAction::RemovePartial(i) => {
            &&& !gets_copy(fates[i as int])
            &&& forall|j: int| 0 <= j < i ==> #[trigger] v.statuses[j] == materialized(fates[j])
        },
        InstallAction::Build(i) => {
            &&& forall|j: int| 0 <= j < i ==> #[trigger] v.statuses[j] == settled(fates[j])
            &&& forall|j: int| i <= j < n ==> #[trigger] v.statuses[j] == materialized(fates[j])
        },
        InstallAction::Finish => forall|j: int|
            0 <= j < n ==> #[trigger] v.statuses[j] == settled(fates[j]),
    }
}

/// A report on what the caller finds keeps the statuses in line with the
/// fates.
pub proof fn lemma_step_keeps_agreement(v: InstallView, fates: Seq<TargetFate>)
    requires
        is_well_formed(v),
        agrees(v, fates),
    ensures
        agrees(step(v, report(v.pending, fates)), fates),
{
    let next = step(v, report(v.pending, fates));
    let n = v.statuses.len() as int;
    lemma_step_keeps_well_formed(v, report(v.pending, fates));
    lemma_next_build(next.statuses, 0);
    match v.pending {
        InstallAction::Build(i) => {
            lemma_next_build(next.statuses, i + 1);
            match next.pending {
                InstallAction::Build(k) => {
                    assert forall|j: int| 0 <= j < k implies #[trigger] next.statuses[j]
                        == settled(fates[j]) by {
                        if j > i {
                            assert(!is_present(next.statuses[j]));
                            assert(v.statuses[j] == materialized(fates[j]));
                        }
                    }
                },
                InstallAction::Finish => {
                    assert forall|j: int| 0 <= j < n implies #[trigger] next.statuses[j]
                        == settled(fates[j]) by {
                        if j > i {
                            assert(!is_present(next.statuses[j]));
                            assert(v.statuses[j] == materialized(fates[j]));
                        }
                    }
                },
                _ => {},
            }
        },
        InstallAction::Finish => {},
        InstallAction::Probe(i) | InstallAction::Clone(i) | InstallAction::RemovePartial(i) => {
            assert forall|j: int| 0 <= j < n && j <= i implies #[trigger] next.statuses[j]
                == materialized(fates[j]) || next.pending == InstallAction::Clone(i) && j == i by {
                if j < i {
                    assert(v.statuses[j] == materialized(fates[j]));
                }
            }
            match next.pending {
                InstallAction::Build(k) => {
                    assert(i + 1 == n);
                    assert forall|j: int| 0 <= j < k implies #[trigger] next.statuses[j]
                        == settled(fates[j]) by {
                        assert(!is_present(next.statuses[j]));
                        assert(next.statuses[j] == materialized(fates[j]));
                    }
                    assert forall|j: int| k <= j < n implies #[trigger] next.statuses[j]
                        == materialized(fates[j]) by {
                        assert(next.statuses[j] == materialized(fates[j]));
                    }
                },
                InstallAction::Finish => {
                    assert(i + 1 == n);
                    assert forall|j: int| 0 <= j < n implies #[trigger] next.statuses[j]
                        == settled(fates[j]) by {
                        assert(!is_present(next.statuses[j]));
                        assert(next.statuses[j] == materialized(fates[j]));
                    }
                },
                _ => {},
            }
        },
    }
}

/// An installation that is run to its end settles every target as its fate
/// says.
pub proof fn lemma_run_settles(v: InstallView, fates: Seq<TargetFate>)
    requires
        is_well_formed(v),
        agrees(v, fates),
    ensures
        run(v, fates).pending == InstallAction::Finish,
        run(v, fates).statuses == Seq::new(fates.len(), |j: int| settled(fates[j])),
    decreases work_left(v),
{
    if v.pending == InstallAction::Finish {
        assert(v.statuses =~= Seq::new(fates.len(), |j: int| settled(fates[j])));
    } else {
        let event = report(v.pending, fates);
        lemma_step_makes_progress(v, event);
        lemma_step_keeps_well_formed(v, event);
        lemma_step_keeps_agreement(v, fates);
        lemma_run_settles(step(v, event), fates);
    }
}

/// Whatever the caller finds, an installation runs to its end and settles
/// every target by its own fate alone: a target is built if and only if it
/// has a working copy, reused or cloned, and it counts as failed if and only
/// if its clone or its build has failed. The count of failures is the number
/// of such targets.
pub proof fn lemma_install_outcome(fates: Seq<TargetFate>)
    requires
        fates.len() <= usize::MAX,
    ensures
        run(initial(fates.len()), fates).pending == InstallAction::Finish,
        run(initial(fates.len()), fates).statuses == Seq::new(
            fates.len(),
            |j: int| settled(fates[j]),
        ),
        forall|j: int|
            0 <= j < fates.len() ==> (is_failure(
                #[trigger] run(initial(fates.len()), fates).statuses[j],
            ) <==> !gets_copy(fates[j]) || fates[j].build_code != Some(0i32)),
        forall|j: int|
            0 <= j < fates.len() ==> (#[trigger] run(initial(fates.len()), fates).statuses[j]
                != TargetStatus::CloneFailed <==> gets_copy(fates[j])),
{
    lemma_initial_is_well_formed(fates.len());
    lemma_run_settles(initial(fates.len()), fates);
}

/// `std::sync::Mutex`, carried along and never locked here.
#[verifier::external_type_specification]
#[verifier::external_body]
#[verifier::reject_recursive_types(T)]
pub struct ExMutex<T: ?Sized>(Mutex<T>);

/// `osoy::gitutil::AuthCache`, the credentials that clones have negotiated.
/// Nothing inside it is seen here.
#[verifier::external_type_specification]
#[verifier::external_body]
pub struct ExAuthCache(osoy::gitutil::AuthCache);

/// Makes an empty store of credentials with `osoy::gitutil::AuthCache::new`.
/// Nothing is claimed of it: the clones fill and read it.
#[verifier::external_body]
fn new_auth_cache() -> Arc<Mutex<osoy::gitutil::AuthCache>> {
    osoy::gitutil::AuthCache::new()
}

/// An installation of a batch of locations, with the one store of credentials
/// that all its clones share.
pub struct InstallBatch {
    targets: Vec<Location>,
    statuses: Vec<TargetStatus>,
    pending: InstallAction,
    errors: usize,
    auth_cache: Arc<Mutex<osoy::gitutil::AuthCache>>,
}

impl View for InstallBatch {
    type V = InstallView;

    closed spec fn view(&self) -> InstallView {
        InstallView { statuses: self.statuses@, pending: self.pending }
    }
}

/// The build of the first target at or after `from` that has a working copy.
fn find_next_build(statuses: &Vec<TargetStatus>, from: usize) -> (action: InstallAction)
    requires
        from <= statuses.len(),
    ensures
        action == next_build(statuses@, from as int),
{
    let mut k: usize = from;
    while k < statuses.len()
        invariant
            from <= k <= statuses.len(),
            next_build(statuses@, from as int) == next_build(statuses@, k as int),
        decreases statuses.len() - k,
    {
        match statuses[k] {
            TargetStatus::Reused | TargetStatus::Cloned => {
                return InstallAction::Build(k);
            },
            _ => {},
        }
        k = k + 1;
    }
    InstallAction::Finish
}

/// What follows once the first phase is over for target `i`.
fn find_after_materialize(statuses: &Vec<TargetStatus>, i: usize) -> (action: InstallAction)
    requires
        i < statuses.len(),
    ensures
        action == after_materialize(statuses@, i as int),
{
    if i + 1 < statuses.len() {
        InstallAction::Probe(i + 1)
    } else {
        find_next_build(statuses, 0)
    }
}

impl InstallBatch {
    #[verifier::type_invariant]
    spec fn consistent(self) -> bool {
        &&& self.targets.len() == self.statuses.len()
        &&& is_well_formed(self@)
        &&& self.errors == failures(self.statuses@)
    }

    /// The locations of the batch.
    pub closed spec fn locations(&self) -> Seq<LocationView> {
        location_views(self.targets@)
    }

    /// The store of credentials of the batch.
    pub closed spec fn credentials(&self) -> Arc<Mutex<osoy::gitutil::AuthCache>> {
        self.auth_cache
    }

    /// The store of credentials that every clone of this batch is to use, so
    /// that what one clone has negotiated serves the next.
    pub fn auth_cache(&self) -> (cache: &Arc<Mutex<osoy::gitutil::AuthCache>>)
        ensures
            *cache == self.credentials(),
    {
        &self.auth_cache
    }

    /// Starts the installation of `targets`, with a store of credentials of
    /// its own.
    pub fn new(targets: Vec<Location>) -> (batch: InstallBatch)
        ensures
            batch@ == initial(targets.len() as nat),
            batch.locations() == location_views(targets@),
            is_well_formed(batch@),
    {
        let count = targets.len();
        let mut statuses: Vec<TargetStatus> = Vec::new();
        let mut i: usize = 0;
        while i < count
            invariant
                0 <= i <= count,
                statuses@ == initial(i as nat).statuses,
            decreases count - i,
        {
            statuses.push(TargetStatus::Pending);
            assert(statuses@ =~= initial((i + 1) as nat).statuses);
            i = i + 1;
        }
        proof {
            lemma_initial_is_well_formed(count as nat);
        }
        let pending = if count == 0 {
            InstallAction::Finish
        } else {
            InstallAction::Probe(0)
        };
        InstallBatch { targets, statuses, pending, errors: 0, auth_cache: new_auth_cache() }
    }

    /// The action that the caller is to perform now.
    pub fn next_action(&self) -> (action: InstallAction)
        ensures
            action == self@.pending,
            is_well_formed(self@),
            target_of(action) matches Some(i) ==> 0 <= i < self.locations().len(),
    {
        proof {
            use_type_invariant(self);
        }
        self.pending
    }

    /// Whether nothing is left to do.
    pub fn is_finished(&self) -> (done: bool)
        ensures
            done == (self@.pending == InstallAction::Finish),
    {
        match self.pending {
            InstallAction::Finish => true,
            _ => false,
        }
    }

    /// Whether `event` reports on the awaited action.
    pub fn accepts(&self, event: InstallEvent) -> (ok: bool)
        ensures
            ok == answers(self@.pending, event),
    {
        match (self.pending, event) {
            (InstallAction::Probe(_), InstallEvent::Probed { .. }) => true,
            (InstallAction::Clone(_), InstallEvent::Cloned { .. }) => true,
            (InstallAction::RemovePartial(_), InstallEvent::PartialRemoved { .. }) => true,
            (InstallAction::Build(_), InstallEvent::Built { .. }) => true,
            (InstallAction::Build(_), InstallEvent::Inaccessible) => true,
            _ => false,
        }
    }

    /// The number of targets.
    pub fn len(&self) -> (n: usize)
        ensures
            n == self.locations().len(),
            n == self@.statuses.len(),
    {
        proof {
            use_type_invariant(self);
        }
        self.targets.len()
    }

    /// The location of target `i`, if there is such a target.
    pub fn target(&self, i: usize) -> (location: Option<&Location>)
        ensures
            location is Some <==> i < self.locations().len(),
            location matches Some(l) ==> l@ == self.locations()[i as int],
    {
        if i < self.targets.len() {
            Some(&self.targets[i])
        } else {
            None
        }
    }

    /// The status of target `i`, if there is such a target.
    pub fn status(&self, i: usize) -> (status: Option<TargetStatus>)
        ensures
            status is Some <==> i < self@.statuses.len(),
            status matches Some(s) ==> s == self@.statuses[i as int],
    {
        if i < self.statuses.len() {
            Some(self.statuses[i])
        } else {
            None
        }
    }

    /// The count of the targets that have failed so far.
    pub fn outcome(&self) -> (outcome: BatchOutcome)
        ensures
            outcome.error_count == failures(self@.statuses),
            outcome.error_count <= self@.statuses.len(),
    {
        proof {
            use_type_invariant(self);
            lemma_failures_bound(self.statuses@);
        }
        BatchOutcome { error_count: self.errors }
    }

    /// The batch after `event` was reported.
    pub fn advance(self, event: InstallEvent) -> (next: InstallBatch)
        ensures
            next@ == step(self@, event),
            next.locations() == self.locations(),
            next.credentials() == self.credentials(),
            is_well_formed(next@),
            failures(self@.statuses) <= failures(next@.statuses) <= failures(self@.statuses) + 1,
    {
        proof {
            use_type_invariant(&self);
            lemma_step_keeps_well_formed(self@, event);
            lemma_errors_never_decrease(self@, event);
        }
        let ghost before = self@;
        let InstallBatch { targets, mut statuses, pending, mut errors, auth_cache } = self;
        let mut next_pending = pending;
        match (pending, event) {
            (InstallAction::Probe(i), InstallEvent::Probed { exists }) => {
                if exists {
                    proof {
                        lemma_failures_update(statuses@, i as int, TargetStatus::Reused);
                    }
                    statuses.set(i, TargetStatus::Reused);
                    next_pending = find_after_materialize(&statuses, i);
                } else {
                    next_pending = InstallAction::Clone(i);
                }
            },
            (InstallAction::Clone(i), InstallEvent::Cloned { ok }) => {
                if ok {
                    proof {
                        lemma_failures_update(statuses@, i as int, TargetStatus::Cloned);
                    }
                    statuses.set(i, TargetStatus::Cloned);
                    next_pending = find_after_materialize(&statuses, i);
                } else {
                    proof {
                        lemma_failures_update(statuses@, i as int, TargetStatus::CloneFailed);
                    }
                    statuses.set(i, TargetStatus::CloneFailed);
                    errors = errors + 1;
                    next_pending = InstallAction::RemovePartial(i);
                }
            },
            (InstallAction::RemovePartial(i), InstallEvent::PartialRemoved { .. }) => {
                next_pending = find_after_materialize(&statuses, i);
            },
            (InstallAction::Build(i), InstallEvent::Built { exit_code }) => {
                if exit_code == 0 {
                    proof {
                        lemma_failures_update(statuses@, i as int, TargetStatus::Built);
                    }
                    statuses.set(i, TargetStatus::Built);
                } else {
                    proof {
                        lemma_failures_update(statuses@, i as int, TargetStatus::BuildFailed);
                    }
                    statuses.set(i, TargetStatus::BuildFailed);
                    errors = errors + 1;
                }
                next_pending = find_next_build(&statuses, i + 1);
            },
            (InstallAction::Build(i), InstallEvent::Inaccessible) => {
                proof {
                    lemma_failures_update(statuses@, i as int, TargetStatus::BuildFailed);
                }
                statuses.set(i, TargetStatus::BuildFailed);
                errors = errors + 1;
                next_pending = find_next_build(&statuses, i + 1);
            },
            _ => {},
        }
        assert(InstallView { statuses: statuses@, pending: next_pending } == step(before, event));
        InstallBatch { targets, statuses, pending: next_pending, errors, auth_cache }
    }
}

} // verus!
