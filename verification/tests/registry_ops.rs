use dock_dodger::metadata::MutationError;
use dock_dodger::registry::{AdmitOutcome, Registry, ReleaseOutcome};

const FOO: &str = "/Applications/Foo.app";
const BAR: &str = "/Applications/Bar.app";

#[test]
fn admit_rejects_non_bundle_and_leaves_registry_unchanged() {
    let mut reg = Registry::new();
    assert_eq!(reg.admit_path("/tmp/notes.txt"), AdmitOutcome::RejectedNotBundle);
    assert_eq!(reg.len(), 0);
}

#[test]
fn admit_then_admit_again_is_added_then_duplicate() {
    let mut reg = Registry::new();
    // Complete the admission as if the metadata mutation succeeded.
    assert_eq!(reg.finish_admit(FOO, Ok(())), AdmitOutcome::Added);
    // The duplicate check precedes any mutation, so this touches no file.
    assert_eq!(reg.admit_path(FOO), AdmitOutcome::RejectedDuplicate);
    assert_eq!(reg.len(), 1);
    let snap = reg.snapshot();
    assert_eq!(snap, vec![FOO.to_string()]);
}

#[test]
fn admit_of_missing_bundle_reports_the_mutation_failure() {
    let mut reg = Registry::new();
    let outcome = reg.admit_path("/nonexistent/Zed.app");
    assert_eq!(outcome, AdmitOutcome::RejectedMutationFailed(MutationError::NotFound));
    assert_eq!(reg.len(), 0);
}

#[test]
fn failed_mutation_keeps_the_registry_unchanged() {
    let mut reg = Registry::new();
    let outcome = reg.finish_admit(FOO, Err(MutationError::Parse));
    assert_eq!(outcome, AdmitOutcome::RejectedMutationFailed(MutationError::Parse));
    assert_eq!(reg.len(), 0);
    assert!(!reg.is_managed(FOO));
}

#[test]
fn release_then_release_again_is_removed_then_not_managed() {
    let mut reg = Registry::new();
    assert_eq!(reg.finish_admit(FOO, Ok(())), AdmitOutcome::Added);
    assert_eq!(reg.finish_release(FOO, Ok(())), ReleaseOutcome::Removed);
    assert_eq!(reg.release(FOO), ReleaseOutcome::RejectedNotManaged);
    assert_eq!(reg.len(), 0);
}

#[test]
fn release_of_unmanaged_path_is_rejected() {
    let mut reg = Registry::new();
    assert_eq!(reg.release(FOO), ReleaseOutcome::RejectedNotManaged);
}

#[test]
fn failed_release_keeps_the_entry_managed() {
    let mut reg = Registry::new();
    assert_eq!(reg.finish_admit(FOO, Ok(())), AdmitOutcome::Added);
    let outcome = reg.finish_release(FOO, Err(MutationError::Write));
    assert_eq!(outcome, ReleaseOutcome::RejectedMutationFailed(MutationError::Write));
    assert!(reg.is_managed(FOO));
    assert_eq!(reg.len(), 1);
}

#[test]
fn snapshot_preserves_insertion_order() {
    let mut reg = Registry::new();
    assert_eq!(reg.finish_admit(FOO, Ok(())), AdmitOutcome::Added);
    assert_eq!(reg.finish_admit(BAR, Ok(())), AdmitOutcome::Added);
    assert_eq!(reg.snapshot(), vec![FOO.to_string(), BAR.to_string()]);
    assert_eq!(reg.finish_release(FOO, Ok(())), ReleaseOutcome::Removed);
    assert_eq!(reg.snapshot(), vec![BAR.to_string()]);
}

#[test]
fn from_paths_restores_the_given_entries() {
    let paths = vec![FOO.to_string(), BAR.to_string()];
    let reg = Registry::from_paths(&paths);
    assert_eq!(reg.len(), 2);
    assert!(reg.is_managed(FOO));
    assert!(reg.is_managed(BAR));
    assert!(!reg.is_managed("/Applications/Other.app"));
}
