use vstd::prelude::*;

verus! {

/// One of the two interchangeable boot slots.
#[derive(Clone, Copy, Debug, PartialEq, Eq, Structural)]
pub enum Slot {
    A,
    B,
}

/// The persisted boot-slot record, replaced as a whole on every write.
#[derive(Clone, Copy, Debug, PartialEq, Eq, Structural)]
pub struct BootRecord {
    pub active_slot: Slot,
    pub pending_commit: bool,
    /// When the validation wait ends, in seconds since boot.
    pub validation_deadline: Option<u64>,
    pub retries_remaining: u8,
    /// Set once retries are exhausted; needs operator intervention.
    pub permanent_failure: bool,
}

/// What the validation wait saw.
#[derive(Clone, Copy, Debug, PartialEq, Eq, Structural)]
pub enum Signal {
    /// An explicit confirmation, arriving at `at` seconds since boot.
    Confirmed { at: u64 },
    /// An explicit failure report.
    Failed,
    /// Nothing arrived before the wait ended.
    Silent,
}

#[derive(Clone, Copy, Debug, PartialEq, Eq, Structural)]
pub enum ValidationState {
    Normal,
    Validating,
    Committing,
    RollingBack,
    TerminalCommitted,
    TerminalRolledBack,
    /// Retries are exhausted: the update is not tried again.
    PermanentFailure,
}

/// The outcome of one run of the state machine.
#[derive(Clone, Debug)]
pub struct Decision {
    /// The states passed through, in order.
    pub trace: Vec<ValidationState>,
    /// The record to persist by atomic replace, if any.
    pub write: Option<BootRecord>,
    /// Whether to reboot into the restored slot afterwards.
    pub reboot: bool,
}

pub open spec fn other_slot(s: Slot) -> Slot {
    match s {
        Slot::A => Slot::B,
        Slot::B => Slot::A,
    }
}

/// The state a run starts in, computed from the persisted record alone.
pub open spec fn start_state(r: BootRecord) -> ValidationState {
    if !r.pending_commit {
        ValidationState::Normal
    } else if r.retries_remaining == 0 {
        ValidationState::PermanentFailure
    } else {
        ValidationState::Validating
    }
}

pub open spec fn is_terminal(s: ValidationState) -> bool {
    s is TerminalCommitted || s is TerminalRolledBack || s is PermanentFailure
}

/// The confirmation counts only when it came before the deadline, if any.
pub open spec fn confirmed_in_time(sig: Signal, deadline: Option<u64>) -> bool {
    match sig {
        Signal::Confirmed { at } => match deadline {
            Some(d) => at < d,
            None => true,
        },
        _ => false,
    }
}

pub open spec fn committed_record(r: BootRecord) -> BootRecord {
    BootRecord { pending_commit: false, validation_deadline: None, ..r }
}

pub open spec fn rolled_back_record(r: BootRecord) -> BootRecord {
    BootRecord {
        active_slot: other_slot(r.active_slot),
        pending_commit: false,
        validation_deadline: None,
        retries_remaining: (r.retries_remaining - 1) as u8,
        permanent_failure: r.retries_remaining - 1 == 0,
    }
}

/// With no retries left the running slot is kept and only the permanent
/// failure is recorded: the update is neither validated nor rolled back again.
pub open spec fn exhausted_record(r: BootRecord) -> BootRecord {
    BootRecord { pending_commit: false, permanent_failure: true, ..r }
}

pub fn other(s: Slot) -> (r: Slot)
    ensures
        r == other_slot(s),
{
    match s {
        Slot::A => Slot::B,
        Slot::B => Slot::A,
    }
}

/// The state a run starts in; a restart after an interrupted write lands
/// here again from whatever record was last persisted.
pub fn initial_state(record: &BootRecord) -> (r: ValidationState)
    ensures
        r == start_state(*record),
        r is Normal || r is Validating || is_terminal(r),
{
    if !record.pending_commit {
        ValidationState::Normal
    } else if record.retries_remaining == 0 {
        ValidationState::PermanentFailure
    } else {
        ValidationState::Validating
    }
}

/// Runs the per-boot validation to its end. Without a pending commit nothing
/// happens. A confirmation before the record's deadline commits the running
/// slot; a failure, a late confirmation or silence rolls back to the other slot,
/// spending one retry and marking a permanent failure when none is left;
/// with no retries left at start the permanent failure is recorded, with
/// neither a slot switch nor a reboot.
pub fn run_validation(record: &BootRecord, signal: Signal) -> (d: Decision)
    ensures
        d.trace@.len() >= 1,
        d.trace@[0] == start_state(*record),
        is_terminal(d.trace@.last()) || d.trace@.last() is Normal,
        start_state(*record) is Normal ==> d.trace@ == seq![ValidationState::Normal] && d.write is None
            && !d.reboot,
        start_state(*record) is PermanentFailure ==> d.trace@ == seq![ValidationState::PermanentFailure]
            && d.write == Some(exhausted_record(*record)) && !d.reboot,
        start_state(*record) is Validating && confirmed_in_time(signal, record.validation_deadline) ==> d.trace@ == seq![
            ValidationState::Validating,
            ValidationState::Committing,
            ValidationState::TerminalCommitted,
        ] && d.write == Some(committed_record(*record)) && !d.reboot,
        start_state(*record) is Validating && !confirmed_in_time(signal, record.validation_deadline) ==> d.trace@ == seq![
            ValidationState::Validating,
            ValidationState::RollingBack,
            ValidationState::TerminalRolledBack,
        ] && d.write == Some(rolled_back_record(*record)) && d.reboot,
{
    let start = initial_state(record);
    let mut trace: Vec<ValidationState> = Vec::new();
    trace.push(start);
    match start {
        ValidationState::Normal => Decision { trace, write: None, reboot: false },
        ValidationState::Validating => {
            let in_time = match signal {
                Signal::Confirmed { at } => match record.validation_deadline {
                    Some(d) => at < d,
                    None => true,
                },
                _ => false,
            };
            if in_time {
                trace.push(ValidationState::Committing);
                trace.push(ValidationState::TerminalCommitted);
                let next = BootRecord { pending_commit: false, validation_deadline: None, ..*record };
                Decision { trace, write: Some(next), reboot: false }
            } else {
                trace.push(ValidationState::RollingBack);
                trace.push(ValidationState::TerminalRolledBack);
                let left: u8 = record.retries_remaining - 1;
                let next = BootRecord {
                    active_slot: other(record.active_slot),
                    pending_commit: false,
                    validation_deadline: None,
                    retries_remaining: left,
                    permanent_failure: left == 0,
                };
                Decision { trace, write: Some(next), reboot: true }
            }
        },
        _ => {
            let next = BootRecord { pending_commit: false, permanent_failure: true, ..*record };
            Decision { trace, write: Some(next), reboot: false }
        },
    }
}

/// Whatever record was last persisted, whether a write was interrupted or
/// not, a restart begins in a defined state: normal, validating, or a
/// terminal one; and every record a run persists leads the next run to
/// normal operation.
pub proof fn lemma_restart_is_defined(r: BootRecord, signal: Signal)
    ensures
        start_state(r) is Normal || start_state(r) is Validating || is_terminal(start_state(r)),
        start_state(r) is Validating && confirmed_in_time(signal, r.validation_deadline) ==> start_state(
            committed_record(r),
        ) is Normal,
        start_state(r) is Validating && !confirmed_in_time(signal, r.validation_deadline) ==> start_state(
            rolled_back_record(r),
        ) is Normal,
        start_state(r) is PermanentFailure ==> start_state(exhausted_record(r)) is Normal
            && exhausted_record(r).active_slot == r.active_slot && exhausted_record(r).permanent_failure,
{
}

} // verus!
