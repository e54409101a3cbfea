use aur_sources::batch::{exit_status, rename_targets, BatchOutcome};
use aur_sources::matcher::matching_existing;
use aur_sources::removal::{RemovalAction, RemovalBatch, RemovalEvent, RemovalStatus};

fn batch_of(names: &[&str], force: bool) -> RemovalBatch {
    RemovalBatch::new(names.iter().map(|s| s.to_string()).collect(), force)
}

fn drive(mut batch: RemovalBatch, events: &[RemovalEvent]) -> (RemovalBatch, Vec<RemovalAction>) {
    let mut actions = Vec::new();
    for event in events {
        actions.push(batch.next_action());
        assert!(batch.accepts(*event));
        batch = batch.advance(*event);
    }
    (batch, actions)
}

#[test]
fn empty_removal_is_finished_at_once() {
    for force in [false, true] {
        let batch = batch_of(&[], force);
        assert!(batch.is_finished());
        assert_eq!(batch.next_action(), RemovalAction::Finish);
        assert_eq!(batch.outcome().error_count, 0);
        assert_eq!(batch.is_forced(), force);
    }
}

#[test]
fn declined_copy_stays_and_is_no_error() {
    let batch = batch_of(&["foo", "bar"], false);
    let (batch, actions) = drive(batch, &[RemovalEvent::Answered { yes: false }]);
    assert_eq!(actions, vec![RemovalAction::Confirm(0)]);
    assert_eq!(batch.status(0), Some(RemovalStatus::Declined));
    assert_eq!(batch.outcome().error_count, 0);
    assert_eq!(batch.next_action(), RemovalAction::Confirm(1));
    let (batch, actions) = drive(batch, &[RemovalEvent::Answered { yes: false }]);
    assert_eq!(actions, vec![RemovalAction::Confirm(1)]);
    assert!(batch.is_finished());
    assert_eq!(batch.outcome().error_count, 0);
    assert_eq!(batch.status(1), Some(RemovalStatus::Declined));
}

#[test]
fn confirmed_copy_is_uninstalled_then_deleted() {
    let batch = batch_of(&["foo"], false);
    let (batch, actions) = drive(
        batch,
        &[
            RemovalEvent::Answered { yes: true },
            RemovalEvent::Uninstalled { exit_code: 0 },
            RemovalEvent::Deleted { exit_code: 0 },
        ],
    );
    assert_eq!(
        actions,
        vec![RemovalAction::Confirm(0), RemovalAction::Uninstall(0), RemovalAction::Delete(0)]
    );
    assert!(batch.is_finished());
    assert_eq!(batch.status(0), Some(RemovalStatus::Removed));
    assert_eq!(batch.outcome().error_count, 0);
}

#[test]
fn forced_removal_deletes_after_a_failed_uninstall() {
    let batch = batch_of(&["foo", "bar"], true);
    let (batch, actions) = drive(
        batch,
        &[
            RemovalEvent::Uninstalled { exit_code: 1 },
            RemovalEvent::Deleted { exit_code: 0 },
            RemovalEvent::Uninstalled { exit_code: 0 },
            RemovalEvent::Deleted { exit_code: 0 },
        ],
    );
    assert_eq!(
        actions,
        vec![
            RemovalAction::Uninstall(0),
            RemovalAction::Delete(0),
            RemovalAction::Uninstall(1),
            RemovalAction::Delete(1),
        ]
    );
    assert!(batch.is_finished());
    assert_eq!(batch.status(0), Some(RemovalStatus::RemovedByForce));
    assert_eq!(batch.status(1), Some(RemovalStatus::Removed));
    assert_eq!(batch.outcome().error_count, 1);
}

#[test]
fn failed_uninstall_keeps_the_copy_unless_forced() {
    let batch = batch_of(&["foo", "bar"], false);
    let (batch, actions) = drive(
        batch,
        &[
            RemovalEvent::Answered { yes: true },
            RemovalEvent::Uninstalled { exit_code: 3 },
            RemovalEvent::Answered { yes: true },
            RemovalEvent::Uninstalled { exit_code: 0 },
            RemovalEvent::Deleted { exit_code: 0 },
        ],
    );
    assert_eq!(
        actions,
        vec![
            RemovalAction::Confirm(0),
            RemovalAction::Uninstall(0),
            RemovalAction::Confirm(1),
            RemovalAction::Uninstall(1),
            RemovalAction::Delete(1),
        ]
    );
    assert!(batch.is_finished());
    assert_eq!(batch.status(0), Some(RemovalStatus::UninstallFailed));
    assert_eq!(batch.status(1), Some(RemovalStatus::Removed));
    assert_eq!(batch.outcome().error_count, 1);
}

#[test]
fn failed_deletion_is_counted() {
    let batch = batch_of(&["foo", "bar"], false);
    let (batch, _) = drive(
        batch,
        &[
            RemovalEvent::Answered { yes: true },
            RemovalEvent::Uninstalled { exit_code: 0 },
            RemovalEvent::Deleted { exit_code: 1 },
            RemovalEvent::Answered { yes: false },
        ],
    );
    assert!(batch.is_finished());
    assert_eq!(batch.status(0), Some(RemovalStatus::DeleteFailed));
    assert_eq!(batch.outcome().error_count, 1);
}

#[test]
fn copy_that_fails_twice_is_counted_once() {
    let batch = batch_of(&["foo"], true);
    let (batch, _) = drive(
        batch,
        &[RemovalEvent::Uninstalled { exit_code: 1 }, RemovalEvent::Deleted { exit_code: 1 }],
    );
    assert!(batch.is_finished());
    assert_eq!(batch.status(0), Some(RemovalStatus::DeleteFailed));
    assert_eq!(batch.outcome().error_count, 1);
}

#[test]
fn forced_removal_never_asks() {
    let batch = batch_of(&["a", "b", "c"], true);
    let (batch, actions) = drive(
        batch,
        &[
            RemovalEvent::Uninstalled { exit_code: 0 },
            RemovalEvent::Deleted { exit_code: 0 },
            RemovalEvent::Uninstalled { exit_code: 7 },
            RemovalEvent::Deleted { exit_code: 7 },
            RemovalEvent::Uninstalled { exit_code: 0 },
            RemovalEvent::Deleted { exit_code: 0 },
        ],
    );
    assert!(batch.is_finished());
    assert!(actions.iter().all(|a| !matches!(a, RemovalAction::Confirm(_))));
    assert_eq!(batch.outcome().error_count, 1);
}

#[test]
fn removal_error_count_never_goes_down() {
    let events = [
        RemovalEvent::Uninstalled { exit_code: 1 },
        RemovalEvent::Deleted { exit_code: 0 },
        RemovalEvent::Uninstalled { exit_code: 0 },
        RemovalEvent::Deleted { exit_code: 9 },
        RemovalEvent::Uninstalled { exit_code: 1 },
        RemovalEvent::Deleted { exit_code: 1 },
    ];
    let mut batch = batch_of(&["a", "b", "c"], true);
    let mut last = 0;
    for event in events {
        batch = batch.advance(event);
        let now = batch.outcome().error_count;
        assert!(now >= last && now <= batch.len());
        last = now;
    }
    assert!(batch.is_finished());
    assert_eq!(last, 3);
}

#[test]
fn removal_report_on_another_action_changes_nothing() {
    let batch = batch_of(&["foo"], false);
    assert!(!batch.accepts(RemovalEvent::Deleted { exit_code: 0 }));
    let batch = batch.advance(RemovalEvent::Deleted { exit_code: 0 });
    assert_eq!(batch.next_action(), RemovalAction::Confirm(0));
    assert_eq!(batch.status(0), Some(RemovalStatus::Pending));
    let batch = batch.advance(RemovalEvent::Uninstalled { exit_code: 1 });
    assert_eq!(batch.next_action(), RemovalAction::Confirm(0));
    assert_eq!(batch.outcome().error_count, 0);
}

#[test]
fn removal_hands_out_its_entries() {
    let batch = batch_of(&["foo", "bar"], false);
    assert_eq!(batch.len(), 2);
    assert_eq!(batch.entry(0), Some("foo"));
    assert_eq!(batch.entry(1), Some("bar"));
    assert_eq!(batch.entry(2), None);
    assert_eq!(batch.status(2), None);
}

#[test]
fn forced_removal_by_pattern_removes_what_the_pattern_matches() {
    let root: Vec<String> = ["foo", "bar", "foobar"].iter().map(|s| s.to_string()).collect();
    let resolution = rename_targets(&vec!["https://foo.*".to_string()], false);
    assert_eq!(resolution.rejected, 0);
    assert_eq!(resolution.locations[0].id(), "foo.*");
    let selected = matching_existing(&root, &resolution.locations, true).unwrap();
    assert_eq!(selected, vec!["foo".to_string(), "foobar".to_string()]);
    let mut batch = RemovalBatch::new(selected, true);
    let mut left = root.clone();
    let mut uninstalled = Vec::new();
    let mut deleted = Vec::new();
    while !batch.is_finished() {
        let event = match batch.next_action() {
            RemovalAction::Confirm(_) => panic!("a forced removal does not ask"),
            RemovalAction::Uninstall(i) => {
                uninstalled.push(batch.entry(i).unwrap().to_string());
                RemovalEvent::Uninstalled { exit_code: 0 }
            }
            RemovalAction::Delete(i) => {
                let name = batch.entry(i).unwrap().to_string();
                left.retain(|entry| *entry != name);
                deleted.push(name);
                RemovalEvent::Deleted { exit_code: 0 }
            }
            RemovalAction::Finish => unreachable!(),
        };
        batch = batch.advance(event);
    }
    assert_eq!(uninstalled, vec!["foo".to_string(), "foobar".to_string()]);
    assert_eq!(deleted, vec!["foo".to_string(), "foobar".to_string()]);
    assert_eq!(left, vec!["bar".to_string()]);
    assert_eq!(batch.status(0), Some(RemovalStatus::Removed));
    assert_eq!(batch.status(1), Some(RemovalStatus::Removed));
    assert_eq!(batch.outcome().error_count, 0);
    let rejected = BatchOutcome { error_count: resolution.rejected };
    assert_eq!(exit_status(false, rejected, batch.outcome()), 0);
}
