use janitor::mover::{next_action, step, MoveAction, MoveError, MoveOutcome, MoveState};

fn outcome_of(s: &MoveState) -> Option<MoveOutcome> {
    match s {
        MoveState::Done(o) => Some(*o),
        _ => None,
    }
}

#[test]
fn rename_success_moves_in_one_operation() {
    let s = MoveState::Probe;
    assert_eq!(next_action(&s), Some(MoveAction::StatSource));
    let s = step(s, true);
    assert_eq!(next_action(&s), Some(MoveAction::RenameToDest));
    let s = step(s, true);
    assert_eq!(outcome_of(&s), Some(MoveOutcome::Moved));
    assert_eq!(next_action(&s), None);
}

#[test]
fn cross_device_falls_back_to_copy_then_delete() {
    let s = step(MoveState::Probe, true);
    let s = step(s, false);
    assert_eq!(next_action(&s), Some(MoveAction::CopyToDest));
    let s = step(s, true);
    assert_eq!(next_action(&s), Some(MoveAction::RemoveSource));
    let s = step(s, true);
    assert_eq!(outcome_of(&s), Some(MoveOutcome::Moved));
}

#[test]
fn second_attempt_after_success_is_skipped() {
    // first attempt moves the file
    let s = step(step(MoveState::Probe, true), true);
    assert_eq!(outcome_of(&s), Some(MoveOutcome::Moved));
    // the source is gone now, so the second attempt's probe reports false
    let s2 = step(MoveState::Probe, false);
    assert_eq!(outcome_of(&s2), Some(MoveOutcome::Skipped));
}

#[test]
fn rename_and_copy_both_failing_is_surfaced() {
    let s = step(MoveState::Probe, true);
    let s = step(s, false);
    let s = step(s, false);
    assert_eq!(
        outcome_of(&s),
        Some(MoveOutcome::Failed(MoveError::RenameAndCopyFailed))
    );
}

#[test]
fn copy_success_with_failed_cleanup_is_surfaced() {
    let s = step(MoveState::Probe, true);
    let s = step(s, false);
    let s = step(s, true);
    let s = step(s, false);
    assert_eq!(
        outcome_of(&s),
        Some(MoveOutcome::Failed(MoveError::CopiedButSourceRemains))
    );
}

#[test]
fn finished_relocation_stays_finished() {
    let s = MoveState::Done(MoveOutcome::Skipped);
    assert_eq!(step(s, true), MoveState::Done(MoveOutcome::Skipped));
    assert_eq!(step(s, false), MoveState::Done(MoveOutcome::Skipped));
}
