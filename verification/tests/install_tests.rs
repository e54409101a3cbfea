use aur_sources::batch::rename_targets;
use aur_sources::install::{InstallAction, InstallBatch, InstallEvent, TargetStatus};

fn batch_of(names: &[&str]) -> InstallBatch {
    let raw: Vec<String> = names.iter().map(|s| s.to_string()).collect();
    InstallBatch::new(rename_targets(&raw, false).locations)
}

/// Reports each event in turn and returns the actions that were asked for.
fn drive(mut batch: InstallBatch, events: &[InstallEvent]) -> (InstallBatch, Vec<InstallAction>) {
    let mut actions = Vec::new();
    for event in events {
        actions.push(batch.next_action());
        assert!(batch.accepts(*event));
        batch = batch.advance(*event);
    }
    (batch, actions)
}

#[test]
fn empty_batch_is_finished_at_once() {
    let batch = batch_of(&[]);
    assert_eq!(batch.len(), 0);
    assert_eq!(batch.next_action(), InstallAction::Finish);
    assert!(batch.is_finished());
    assert_eq!(batch.outcome().error_count, 0);
}

#[test]
fn failed_clone_is_counted_and_not_built() {
    let batch = batch_of(&["one", "two", "three"]);
    let (batch, actions) = drive(
        batch,
        &[
            InstallEvent::Probed { exists: false },
            InstallEvent::Cloned { ok: true },
            InstallEvent::Probed { exists: false },
            InstallEvent::Cloned { ok: false },
            InstallEvent::PartialRemoved { ok: true },
            InstallEvent::Probed { exists: false },
            InstallEvent::Cloned { ok: true },
            InstallEvent::Built { exit_code: 0 },
            InstallEvent::Built { exit_code: 0 },
        ],
    );
    assert_eq!(
        actions,
        vec![
            InstallAction::Probe(0),
            InstallAction::Clone(0),
            InstallAction::Probe(1),
            InstallAction::Clone(1),
            InstallAction::RemovePartial(1),
            InstallAction::Probe(2),
            InstallAction::Clone(2),
            InstallAction::Build(0),
            InstallAction::Build(2),
        ]
    );
    assert!(batch.is_finished());
    assert_eq!(batch.next_action(), InstallAction::Finish);
    assert_eq!(batch.outcome().error_count, 1);
    assert!(batch.outcome().error_count >= 1);
    assert_eq!(batch.status(0), Some(TargetStatus::Built));
    assert_eq!(batch.status(1), Some(TargetStatus::CloneFailed));
    assert_eq!(batch.status(2), Some(TargetStatus::Built));
    assert!(!actions.contains(&InstallAction::Build(1)));
}

#[test]
fn failed_clone_is_cleaned_up_before_anything_else() {
    let batch = batch_of(&["one", "two"]);
    let (batch, _) = drive(
        batch,
        &[InstallEvent::Probed { exists: false }, InstallEvent::Cloned { ok: false }],
    );
    assert_eq!(batch.next_action(), InstallAction::RemovePartial(0));
    assert_eq!(batch.outcome().error_count, 1);
    // A report on anything else is not taken: the removal stays awaited.
    assert!(!batch.accepts(InstallEvent::Probed { exists: true }));
    let batch = batch.advance(InstallEvent::Probed { exists: true });
    assert_eq!(batch.next_action(), InstallAction::RemovePartial(0));
    let batch = batch.advance(InstallEvent::PartialRemoved { ok: true });
    assert_eq!(batch.next_action(), InstallAction::Probe(1));
}

#[test]
fn failed_cleanup_does_not_count_again() {
    let batch = batch_of(&["one"]);
    let (batch, actions) = drive(
        batch,
        &[
            InstallEvent::Probed { exists: false },
            InstallEvent::Cloned { ok: false },
            InstallEvent::PartialRemoved { ok: false },
        ],
    );
    assert_eq!(actions.len(), 3);
    assert!(batch.is_finished());
    assert_eq!(batch.outcome().error_count, 1);
    assert_eq!(batch.status(0), Some(TargetStatus::CloneFailed));
}

#[test]
fn existing_copy_goes_straight_to_the_build() {
    let batch = batch_of(&["one"]);
    let (batch, actions) = drive(batch, &[InstallEvent::Probed { exists: true }]);
    assert_eq!(actions, vec![InstallAction::Probe(0)]);
    assert_eq!(batch.status(0), Some(TargetStatus::Reused));
    assert_eq!(batch.next_action(), InstallAction::Build(0));
    let batch = batch.advance(InstallEvent::Built { exit_code: 0 });
    assert!(batch.is_finished());
    assert_eq!(batch.status(0), Some(TargetStatus::Built));
    assert_eq!(batch.outcome().error_count, 0);
}

#[test]
fn rerun_over_existing_copies_clones_nothing() {
    let batch = batch_of(&["one", "two", "three"]);
    let (batch, actions) = drive(
        batch,
        &[
            InstallEvent::Probed { exists: true },
            InstallEvent::Probed { exists: true },
            InstallEvent::Probed { exists: true },
            InstallEvent::Built { exit_code: 0 },
            InstallEvent::Built { exit_code: 0 },
            InstallEvent::Built { exit_code: 0 },
        ],
    );
    assert_eq!(
        actions,
        vec![
            InstallAction::Probe(0),
            InstallAction::Probe(1),
            InstallAction::Probe(2),
            InstallAction::Build(0),
            InstallAction::Build(1),
            InstallAction::Build(2),
        ]
    );
    assert!(batch.is_finished());
    assert_eq!(batch.outcome().error_count, 0);
}

#[test]
fn failed_build_is_counted_and_the_next_goes_on() {
    let batch = batch_of(&["one", "two", "three"]);
    let (batch, actions) = drive(
        batch,
        &[
            InstallEvent::Probed { exists: true },
            InstallEvent::Probed { exists: true },
            InstallEvent::Probed { exists: true },
            InstallEvent::Built { exit_code: 2 },
            InstallEvent::Inaccessible,
            InstallEvent::Built { exit_code: 0 },
        ],
    );
    assert_eq!(actions[3..], [InstallAction::Build(0), InstallAction::Build(1), InstallAction::Build(2)]);
    assert!(batch.is_finished());
    assert_eq!(batch.outcome().error_count, 2);
    assert_eq!(batch.status(0), Some(TargetStatus::BuildFailed));
    assert_eq!(batch.status(1), Some(TargetStatus::BuildFailed));
    assert_eq!(batch.status(2), Some(TargetStatus::Built));
}

#[test]
fn negative_exit_code_is_a_failure() {
    let batch = batch_of(&["one"]);
    let (batch, _) = drive(
        batch,
        &[InstallEvent::Probed { exists: true }, InstallEvent::Built { exit_code: -1 }],
    );
    assert_eq!(batch.outcome().error_count, 1);
}

#[test]
fn all_clones_failing_builds_nothing() {
    let batch = batch_of(&["one", "two"]);
    let (batch, actions) = drive(
        batch,
        &[
            InstallEvent::Probed { exists: false },
            InstallEvent::Cloned { ok: false },
            InstallEvent::PartialRemoved { ok: true },
            InstallEvent::Probed { exists: false },
            InstallEvent::Cloned { ok: false },
            InstallEvent::PartialRemoved { ok: true },
        ],
    );
    assert!(batch.is_finished());
    assert_eq!(batch.outcome().error_count, 2);
    assert!(actions.iter().all(|a| !matches!(a, InstallAction::Build(_))));
}

#[test]
fn error_count_never_goes_down() {
    let events = [
        InstallEvent::Probed { exists: false },
        InstallEvent::Cloned { ok: false },
        InstallEvent::PartialRemoved { ok: false },
        InstallEvent::Probed { exists: true },
        InstallEvent::Probed { exists: false },
        InstallEvent::Cloned { ok: true },
        InstallEvent::Built { exit_code: 1 },
        InstallEvent::Built { exit_code: 0 },
    ];
    let mut batch = batch_of(&["one", "two", "three"]);
    let mut last = batch.outcome().error_count;
    for event in events {
        batch = batch.advance(event);
        let now = batch.outcome().error_count;
        assert!(now >= last);
        assert!(now <= batch.len());
        last = now;
    }
    assert!(batch.is_finished());
    assert_eq!(last, 2);
}

#[test]
fn report_on_another_action_changes_nothing() {
    let batch = batch_of(&["one"]);
    assert!(!batch.accepts(InstallEvent::Built { exit_code: 1 }));
    let batch = batch.advance(InstallEvent::Built { exit_code: 1 });
    assert_eq!(batch.next_action(), InstallAction::Probe(0));
    assert_eq!(batch.status(0), Some(TargetStatus::Pending));
    assert_eq!(batch.outcome().error_count, 0);
    let batch = batch.advance(InstallEvent::Cloned { ok: false });
    assert_eq!(batch.next_action(), InstallAction::Probe(0));
    assert_eq!(batch.outcome().error_count, 0);
    let done = batch_of(&[]).advance(InstallEvent::Probed { exists: true });
    assert!(done.is_finished());
}

#[test]
fn batch_keeps_one_store_of_credentials() {
    let batch = batch_of(&["one", "two"]);
    let cache = std::sync::Arc::clone(batch.auth_cache());
    let (batch, _) = drive(
        batch,
        &[
            InstallEvent::Probed { exists: false },
            InstallEvent::Cloned { ok: true },
            InstallEvent::Probed { exists: false },
        ],
    );
    assert_eq!(batch.next_action(), InstallAction::Clone(1));
    assert!(std::sync::Arc::ptr_eq(&cache, batch.auth_cache()));
    // Another batch has a store of its own.
    let other = batch_of(&["one"]);
    assert!(!std::sync::Arc::ptr_eq(&cache, other.auth_cache()));
}

#[test]
fn batch_hands_out_its_targets() {
    let batch = batch_of(&["one", "https://example.org/two"]);
    assert_eq!(batch.len(), 2);
    assert_eq!(batch.target(0).unwrap().id(), "aur.archlinux.org_one");
    assert_eq!(batch.target(1).unwrap().remote_url(), "https://example.org/two");
    assert!(batch.target(2).is_none());
    assert_eq!(batch.status(1), Some(TargetStatus::Pending));
    assert_eq!(batch.status(2), None);
}
