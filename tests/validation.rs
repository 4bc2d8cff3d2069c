use device_agent::validation::{initial_state, run_validation, BootRecord, Signal, Slot, ValidationState};

fn record(pending: bool, retries: u8) -> BootRecord {
    BootRecord {
        active_slot: Slot::B,
        pending_commit: pending,
        validation_deadline: Some(30),
        retries_remaining: retries,
        permanent_failure: false,
    }
}

#[test]
fn confirmation_before_deadline_commits() {
    let d = run_validation(&record(true, 3), Signal::Confirmed { at: 28 });
    assert_eq!(d.trace, vec![ValidationState::Validating, ValidationState::Committing, ValidationState::TerminalCommitted]);
    let w = d.write.unwrap();
    assert!(!w.pending_commit);
    assert_eq!(w.active_slot, Slot::B);
    assert!(!d.reboot);
}

#[test]
fn deadline_elapsed_rolls_back() {
    let d = run_validation(&record(true, 1), Signal::Silent);
    assert_eq!(d.trace, vec![ValidationState::Validating, ValidationState::RollingBack, ValidationState::TerminalRolledBack]);
    let w = d.write.unwrap();
    assert_eq!(w.retries_remaining, 0);
    assert_eq!(w.active_slot, Slot::A);
    assert!(!w.pending_commit);
    assert!(w.permanent_failure);
    assert!(d.reboot);
}

#[test]
fn late_confirmation_rolls_back() {
    let d = run_validation(&record(true, 2), Signal::Confirmed { at: 30 });
    assert_eq!(d.trace[2], ValidationState::TerminalRolledBack);
    assert_eq!(d.write.unwrap().retries_remaining, 1);
}

#[test]
fn exhausted_retries_raise_permanent_failure() {
    let d = run_validation(&record(true, 0), Signal::Silent);
    assert_eq!(d.trace, vec![ValidationState::PermanentFailure]);
    let w = d.write.unwrap();
    assert!(w.permanent_failure);
    assert!(!w.pending_commit);
    assert_eq!(w.active_slot, Slot::B);
    assert_eq!(w.retries_remaining, 0);
    assert!(!d.reboot);
    assert_eq!(initial_state(&w), ValidationState::Normal);
}

#[test]
fn no_pending_commit_is_normal() {
    let d = run_validation(&record(false, 3), Signal::Failed);
    assert_eq!(d.trace, vec![ValidationState::Normal]);
    assert!(d.write.is_none());
    assert!(!d.reboot);
}

#[test]
fn restart_after_each_write_is_normal() {
    let d = run_validation(&record(true, 2), Signal::Failed);
    assert_eq!(initial_state(&d.write.unwrap()), ValidationState::Normal);
    assert_eq!(initial_state(&record(true, 2)), ValidationState::Validating);
}

#[test]
fn confirmation_without_deadline_commits() {
    let mut r = record(true, 2);
    r.validation_deadline = None;
    let d = run_validation(&r, Signal::Confirmed { at: 1000 });
    assert_eq!(d.trace[2], ValidationState::TerminalCommitted);
}
