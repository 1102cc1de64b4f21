//! Lifecycle of one deferred MMC/APBDMA read coordinator.
//!
//! The coordinator never publishes an MMC command, starts DMA or rearms an
//! interrupt source: it records, for one read transaction, how far the read
//! has come and what evidence or recovery report belongs to it. The slot that
//! holds it is empty, reserved, live, or taken out by one service at a time.
use vstd::prelude::*;

use crate::diagnostic_slot::{DiagnosticSlotState, SlotError};
use crate::mmc::{MmcIrqAckError, ReadBlockRequest, ReadCompletionEvidence, ReadCompletionFailure};

verus! {

/// Identity of one deferred read; never zero.
#[derive(Debug, Clone, Copy, PartialEq, Eq, Structural)]
pub struct ReadTransactionId {
    raw: u64,
}

impl ReadTransactionId {
    pub closed spec fn value(self) -> u64 {
        self.raw
    }

    pub fn new(raw: u64) -> (id: Option<Self>)
        ensures
            id is Some <==> raw != 0,
            id matches Some(id) ==> id.value() == raw,
    {
        if raw == 0 {
            None
        } else {
            Some(Self { raw })
        }
    }

    pub fn get(self) -> (raw: u64)
        ensures
            raw == self.value(),
    {
        self.raw
    }
}

#[derive(Debug, Clone, Copy, PartialEq, Eq, Structural)]
pub enum MmcReadRecheckError {
    Ack(MmcIrqAckError),
}

/// What ended a read without completion.
#[derive(Debug, Clone, Copy, PartialEq, Eq, Structural)]
pub enum ReadRecoveryCause {
    Timeout { polls_completed: u16 },
    RecheckFault { error: MmcReadRecheckError, polls_completed: u16, remaining: u16 },
    CompletionFailure(ReadCompletionFailure),
}

/// Which interrupt receipts were drained from the owners during recovery.
#[derive(Debug, Clone, Copy, PartialEq, Eq, Structural)]
pub struct DrainedReadIrqs {
    pub mmc: bool,
    pub dma: bool,
}

/// A receipt pair already removed from the owner table, with the failure
/// that the completion check reported.
#[derive(Debug, Clone, Copy, PartialEq, Eq, Structural)]
pub struct ClaimedReadRecoveryEvidence {
    pub transaction: ReadTransactionId,
    pub dma_transaction: ReadTransactionId,
    pub failure: ReadCompletionFailure,
    pub mmc_interrupts: u32,
}

/// A claimed receipt pair with the completion evidence gathered for it.
#[derive(Debug, Clone, Copy, PartialEq, Eq, Structural)]
pub struct ClaimedReadCompletionEvidence {
    pub transaction: ReadTransactionId,
    pub dma_transaction: ReadTransactionId,
    pub evidence: ReadCompletionEvidence,
}

#[derive(Debug, PartialEq, Eq, Structural)]
pub struct ReadRecoveryReport {
    pub transaction: ReadTransactionId,
    pub cause: ReadRecoveryCause,
    pub partial_mmc_interrupts: u32,
    pub drained: DrainedReadIrqs,
    pub claimed: Option<ClaimedReadRecoveryEvidence>,
}

/// A bounded recheck of the MMC status: polls left and polls made.
#[derive(Debug, Clone, Copy, PartialEq, Eq, Structural)]
pub struct BoundedMmcReadRecheck {
    transaction: ReadTransactionId,
    remaining: u16,
    polls_completed: u16,
}

impl BoundedMmcReadRecheck {
    pub closed spec fn spec_transaction(self) -> ReadTransactionId {
        self.transaction
    }

    pub closed spec fn spec_remaining(self) -> u16 {
        self.remaining
    }

    pub closed spec fn spec_polls_completed(self) -> u16 {
        self.polls_completed
    }

    /// A fresh recheck with `budget` polls; a zero budget is refused.
    pub fn new(transaction: ReadTransactionId, budget: u16) -> (recheck: Option<Self>)
        ensures
            recheck is Some <==> budget != 0,
            recheck matches Some(r) ==> r.spec_transaction() == transaction
                && r.spec_remaining() == budget && r.spec_polls_completed() == 0,
    {
        if budget == 0 {
            None
        } else {
            Some(Self { transaction, remaining: budget, polls_completed: 0 })
        }
    }

    /// The same recheck after one more poll; the last poll leaves none.
    pub fn polled(self) -> (next: Self)
        requires
            self.spec_remaining() > 0,
            self.spec_polls_completed() < u16::MAX,
        ensures
            next.spec_transaction() == self.spec_transaction(),
            next.spec_remaining() == self.spec_remaining() - 1,
            next.spec_polls_completed() == self.spec_polls_completed() + 1,
    {
        Self {
            transaction: self.transaction,
            remaining: self.remaining - 1,
            polls_completed: self.polls_completed + 1,
        }
    }

    pub fn transaction(&self) -> (t: ReadTransactionId)
        ensures
            t == self.spec_transaction(),
    {
        self.transaction
    }

    pub fn remaining(&self) -> (r: u16)
        ensures
            r == self.spec_remaining(),
    {
        self.remaining
    }

    pub fn polls_completed(&self) -> (r: u16)
        ensures
            r == self.spec_polls_completed(),
    {
        self.polls_completed
    }
}

#[derive(Debug, Clone, Copy, PartialEq, Eq, Structural)]
pub enum BoundedMmcReadRecheckStep {
    Pending,
    Terminal,
    Timeout,
}

#[derive(Debug, Clone, Copy, PartialEq, Eq, Structural)]
pub enum BoundedMmcReadRecheckError {
    /// The status sample itself failed.
    Recheck(MmcReadRecheckError),
    /// The MMC owner is not armed for this transaction; it holds the one given.
    Binding(Option<ReadTransactionId>),
}

#[derive(Debug, Clone, Copy, PartialEq, Eq, Structural)]
pub enum ReadCoordinatorPhase {
    Reserved,
    Published,
    Rechecking,
    Terminal,
    CompletionClaimed,
    CompletionFinalized,
    RecoveryPending,
    RecoveryRecorded,
}

#[derive(Debug, Clone, Copy, PartialEq, Eq, Structural)]
pub struct ReadCoordinatorSnapshot {
    pub transaction: ReadTransactionId,
    pub phase: ReadCoordinatorPhase,
    pub poll_budget: Option<u16>,
    pub remaining: Option<u16>,
    pub polls_completed: Option<u16>,
    pub recovery_cause: Option<ReadRecoveryCause>,
    pub partial_mmc_interrupts: Option<u32>,
    pub has_mmc_receipt: bool,
    pub has_dma_receipt: bool,
}

#[derive(Debug, Clone, Copy, PartialEq, Eq, Structural)]
pub enum ReadCoordinatorError {
    Slot(SlotError),
    WrongTransaction { expected: ReadTransactionId, actual: ReadTransactionId },
    WrongPhase { expected: ReadCoordinatorPhase, actual: ReadCoordinatorPhase },
    InvalidPollBudget,
    InvalidPollProgress,
    RecoveryCauseMismatch { expected: ReadRecoveryCause, actual: ReadRecoveryCause },
    InvalidCompletionEvidence(ReadCompletionEvidence),
    CompletionMustBeFinalized,
    RecoveryMustBeRecorded,
    RecoveryMustBeTaken,
}

/// The report handed back when it could not be recorded.
#[derive(Debug)]
pub struct RecordRecoveryFailure {
    pub error: ReadCoordinatorError,
    pub report: ReadRecoveryReport,
}

/// The recheck handed back when it could not be stored.
#[derive(Debug)]
pub struct RecordRecheckFailure {
    pub error: ReadCoordinatorError,
    pub recheck: BoundedMmcReadRecheck,
}

#[derive(Debug, Clone, Copy, PartialEq, Eq, Structural)]
pub enum ReadCoordinatorStepProgress {
    Pending { transaction: ReadTransactionId, remaining: u16, polls_completed: u16 },
    Terminal { transaction: ReadTransactionId, polls_completed: u16 },
    RecoveryPending { transaction: ReadTransactionId, cause: ReadRecoveryCause },
}

#[derive(Debug, Clone, Copy, PartialEq, Eq, Structural)]
pub struct ReadCoordinatorStepFailure {
    pub error: BoundedMmcReadRecheckError,
}

/// The evidence handed back when it could not be archived.
#[derive(Debug)]
pub struct ReadClaimedRecoveryArchiveFailure {
    pub error: ReadCoordinatorError,
    pub evidence: ClaimedReadRecoveryEvidence,
}

/// The evidence handed back when the completion could not be finalized.
#[derive(Debug)]
pub struct ReadCompletionFinalizeFailure {
    pub error: ReadCoordinatorError,
    pub evidence: ClaimedReadCompletionEvidence,
}

#[derive(Debug, Clone, Copy, PartialEq, Eq, Structural)]
pub enum ReadTerminalClaimError {
    WrongTransaction { expected: ReadTransactionId, actual: ReadTransactionId },
}

/// Where one read stands.
#[derive(Debug, PartialEq, Eq, Structural)]
pub enum ReadCoordinatorState {
    Reserved { transaction: ReadTransactionId },
    Published { transaction: ReadTransactionId, poll_budget: u16 },
    Rechecking {
        transaction: ReadTransactionId,
        poll_budget: u16,
        recheck: BoundedMmcReadRecheck,
    },
    Terminal { transaction: ReadTransactionId, polls_completed: u16 },
    CompletionClaimed { transaction: ReadTransactionId },
    CompletionFinalized { transaction: ReadTransactionId },
    RecoveryPending { transaction: ReadTransactionId, cause: ReadRecoveryCause },
    RecoveryRecorded(ReadRecoveryReport),
}

/// The transaction a state belongs to.
pub open spec fn state_transaction(state: ReadCoordinatorState) -> ReadTransactionId {
    match state {
        ReadCoordinatorState::Reserved { transaction } => transaction,
        ReadCoordinatorState::Published { transaction, .. } => transaction,
        ReadCoordinatorState::Rechecking { transaction, .. } => transaction,
        ReadCoordinatorState::Terminal { transaction, .. } => transaction,
        ReadCoordinatorState::CompletionClaimed { transaction } => transaction,
        ReadCoordinatorState::CompletionFinalized { transaction } => transaction,
        ReadCoordinatorState::RecoveryPending { transaction, .. } => transaction,
        ReadCoordinatorState::RecoveryRecorded(report) => report.transaction,
    }
}

/// The phase a state is in.
pub open spec fn state_phase(state: ReadCoordinatorState) -> ReadCoordinatorPhase {
    match state {
        ReadCoordinatorState::Reserved { .. } => ReadCoordinatorPhase::Reserved,
        ReadCoordinatorState::Published { .. } => ReadCoordinatorPhase::Published,
        ReadCoordinatorState::Rechecking { .. } => ReadCoordinatorPhase::Rechecking,
        ReadCoordinatorState::Terminal { .. } => ReadCoordinatorPhase::Terminal,
        ReadCoordinatorState::CompletionClaimed { .. } => ReadCoordinatorPhase::CompletionClaimed,
        ReadCoordinatorState::CompletionFinalized { .. } => ReadCoordinatorPhase::CompletionFinalized,
        ReadCoordinatorState::RecoveryPending { .. } => ReadCoordinatorPhase::RecoveryPending,
        ReadCoordinatorState::RecoveryRecorded(_) => ReadCoordinatorPhase::RecoveryRecorded,
    }
}

/// What a snapshot of `state` shows.
pub open spec fn state_snapshot(state: ReadCoordinatorState) -> ReadCoordinatorSnapshot {
    let base = ReadCoordinatorSnapshot {
        transaction: state_transaction(state),
        phase: state_phase(state),
        poll_budget: None,
        remaining: None,
        polls_completed: None,
        recovery_cause: None,
        partial_mmc_interrupts: None,
        has_mmc_receipt: false,
        has_dma_receipt: false,
    };
    match state {
        ReadCoordinatorState::Published { poll_budget, .. } => ReadCoordinatorSnapshot {
            poll_budget: Some(poll_budget),
            ..base
        },
        ReadCoordinatorState::Rechecking { poll_budget, recheck, .. } => ReadCoordinatorSnapshot {
            poll_budget: Some(poll_budget),
            remaining: Some(recheck.spec_remaining()),
            polls_completed: Some(recheck.spec_polls_completed()),
            ..base
        },
        ReadCoordinatorState::Terminal { polls_completed, .. } => ReadCoordinatorSnapshot {
            polls_completed: Some(polls_completed),
            ..base
        },
        ReadCoordinatorState::RecoveryPending { cause, .. } => ReadCoordinatorSnapshot {
            recovery_cause: Some(cause),
            ..base
        },
        ReadCoordinatorState::RecoveryRecorded(report) => ReadCoordinatorSnapshot {
            recovery_cause: Some(report.cause),
            partial_mmc_interrupts: Some(report.partial_mmc_interrupts),
            has_mmc_receipt: report.drained.mmc || report.claimed is Some,
            has_dma_receipt: report.drained.dma || report.claimed is Some,
            ..base
        },
        _ => base,
    }
}

/// A recovery report may be recorded in `state`: same transaction, a read
/// that was published and not finished, and, where a recovery is pending,
/// the cause that it names.
pub open spec fn accepts_recovery(state: ReadCoordinatorState, report: ReadRecoveryReport) -> bool {
    &&& state_transaction(state) == report.transaction
    &&& match state {
        ReadCoordinatorState::Published { .. } => true,
        ReadCoordinatorState::Rechecking { .. } => true,
        ReadCoordinatorState::RecoveryPending { cause, .. } => cause == report.cause,
        _ => false,
    }
}

impl ReadCoordinatorState {
    pub fn transaction(&self) -> (t: ReadTransactionId)
        ensures
            t == state_transaction(*self),
    {
        match self {
            ReadCoordinatorState::Reserved { transaction } => *transaction,
            ReadCoordinatorState::Published { transaction, .. } => *transaction,
            ReadCoordinatorState::Rechecking { transaction, .. } => *transaction,
            ReadCoordinatorState::Terminal { transaction, .. } => *transaction,
            ReadCoordinatorState::CompletionClaimed { transaction } => *transaction,
            ReadCoordinatorState::CompletionFinalized { transaction } => *transaction,
            ReadCoordinatorState::RecoveryPending { transaction, .. } => *transaction,
            ReadCoordinatorState::RecoveryRecorded(report) => report.transaction,
        }
    }

    pub fn phase(&self) -> (phase: ReadCoordinatorPhase)
        ensures
            phase == state_phase(*self),
    {
        match self {
            ReadCoordinatorState::Reserved { .. } => ReadCoordinatorPhase::Reserved,
            ReadCoordinatorState::Published { .. } => ReadCoordinatorPhase::Published,
            ReadCoordinatorState::Rechecking { .. } => ReadCoordinatorPhase::Rechecking,
            ReadCoordinatorState::Terminal { .. } => ReadCoordinatorPhase::Terminal,
            ReadCoordinatorState::CompletionClaimed { .. } => ReadCoordinatorPhase::CompletionClaimed,
            ReadCoordinatorState::CompletionFinalized { .. } => ReadCoordinatorPhase::CompletionFinalized,
            ReadCoordinatorState::RecoveryPending { .. } => ReadCoordinatorPhase::RecoveryPending,
            ReadCoordinatorState::RecoveryRecorded(_) => ReadCoordinatorPhase::RecoveryRecorded,
        }
    }

    pub fn snapshot(&self) -> (snapshot: ReadCoordinatorSnapshot)
        ensures
            snapshot == state_snapshot(*self),
    {
        let mut snapshot = ReadCoordinatorSnapshot {
            transaction: self.transaction(),
            phase: self.phase(),
            poll_budget: None,
            remaining: None,
            polls_completed: None,
            recovery_cause: None,
            partial_mmc_interrupts: None,
            has_mmc_receipt: false,
            has_dma_receipt: false,
        };
        match self {
            ReadCoordinatorState::Published { poll_budget, .. } => {
                snapshot.poll_budget = Some(*poll_budget);
            },
            ReadCoordinatorState::Rechecking { poll_budget, recheck, .. } => {
                snapshot.poll_budget = Some(*poll_budget);
                snapshot.remaining = Some(recheck.remaining());
                snapshot.polls_completed = Some(recheck.polls_completed());
            },
            ReadCoordinatorState::Terminal { polls_completed, .. } => {
                snapshot.polls_completed = Some(*polls_completed);
            },
            ReadCoordinatorState::RecoveryPending { cause, .. } => {
                snapshot.recovery_cause = Some(*cause);
            },
            ReadCoordinatorState::RecoveryRecorded(report) => {
                snapshot.recovery_cause = Some(report.cause);
                snapshot.partial_mmc_interrupts = Some(report.partial_mmc_interrupts);
                snapshot.has_mmc_receipt = report.drained.mmc || report.claimed.is_some();
                snapshot.has_dma_receipt = report.drained.dma || report.claimed.is_some();
            },
            _ => {},
        }
        snapshot
    }
}

/// The refusal of an access to a slot that is not live.
pub open spec fn access_error(state: DiagnosticSlotState) -> SlotError {
    if state == DiagnosticSlotState::Empty {
        SlotError::Empty
    } else {
        SlotError::Busy
    }
}

/// The refusal of a reservation of a slot that is not empty.
pub open spec fn reserve_error(state: DiagnosticSlotState) -> SlotError {
    if state == DiagnosticSlotState::Reserved {
        SlotError::Reserved
    } else if state == DiagnosticSlotState::Live {
        SlotError::AlreadyLive
    } else {
        SlotError::Busy
    }
}

/// The slot of one read coordinator.
pub struct ReadCoordinatorSlot {
    slot_state: DiagnosticSlotState,
    coordinator: Option<ReadCoordinatorState>,
}

impl ReadCoordinatorSlot {
    pub closed spec fn spec_state(&self) -> DiagnosticSlotState {
        self.slot_state
    }

    /// The coordinator the slot holds while live.
    pub closed spec fn held(&self) -> Option<ReadCoordinatorState> {
        self.coordinator
    }

    /// A coordinator is held exactly while the slot is live.
    pub closed spec fn wf(&self) -> bool {
        &&& (self.slot_state == DiagnosticSlotState::Live) == (self.coordinator is Some)
        &&& self.slot_state != DiagnosticSlotState::Draining
    }

    pub fn new() -> (slot: Self)
        ensures
            slot.wf(),
            slot.spec_state() == DiagnosticSlotState::Empty,
    {
        Self { slot_state: DiagnosticSlotState::Empty, coordinator: None }
    }

    pub fn state(&self) -> (state: DiagnosticSlotState)
        ensures
            state == self.spec_state(),
    {
        self.slot_state
    }

    /// Reserve the empty slot for `transaction`.
    pub fn reserve(&mut self, transaction: ReadTransactionId) -> (result: Result<
        ReadCoordinatorReservation,
        ReadCoordinatorError,
    >)
        requires
            old(self).wf(),
        ensures
            final(self).wf(),
            match result {
                Ok(reservation) => old(self).spec_state() == DiagnosticSlotState::Empty
                    && reservation.spec_transaction() == transaction
                    && final(self).spec_state() == DiagnosticSlotState::Reserved
                    && final(self).held() is None,
                Err(error) => old(self).spec_state() != DiagnosticSlotState::Empty && error
                    == ReadCoordinatorError::Slot(reserve_error(old(self).spec_state()))
                    && *final(self) == *old(self),
            },
    {
        if self.slot_state != DiagnosticSlotState::Empty {
            let error = if self.slot_state == DiagnosticSlotState::Reserved {
                SlotError::Reserved
            } else if self.slot_state == DiagnosticSlotState::Live {
                SlotError::AlreadyLive
            } else {
                SlotError::Busy
            };
            return Err(ReadCoordinatorError::Slot(error));
        }
        self.slot_state = DiagnosticSlotState::Reserved;
        Ok(ReadCoordinatorReservation { transaction })
    }

    /// The live coordinator's snapshot.
    pub fn snapshot(&self) -> (result: Result<ReadCoordinatorSnapshot, ReadCoordinatorError>)
        requires
            self.wf(),
        ensures
            match self.held() {
                Some(state) => result == Ok::<ReadCoordinatorSnapshot, ReadCoordinatorError>(
                    state_snapshot(state),
                ),
                None => result == Err::<ReadCoordinatorSnapshot, ReadCoordinatorError>(
                    ReadCoordinatorError::Slot(access_error(self.spec_state())),
                ),
            },
    {
        match &self.coordinator {
            Some(state) => Ok(state.snapshot()),
            None => Err(ReadCoordinatorError::Slot(self.refusal())),
        }
    }

    fn refusal(&self) -> (error: SlotError)
        ensures
            error == access_error(self.spec_state()),
    {
        if self.slot_state == DiagnosticSlotState::Empty {
            SlotError::Empty
        } else {
            SlotError::Busy
        }
    }

    /// The live coordinator, checked to belong to `transaction`.
    fn live_for(&self, transaction: ReadTransactionId) -> (result: Result<
        &ReadCoordinatorState,
        ReadCoordinatorError,
    >)
        requires
            self.wf(),
        ensures
            match self.held() {
                None => result == Err::<&ReadCoordinatorState, ReadCoordinatorError>(
                    ReadCoordinatorError::Slot(access_error(self.spec_state())),
                ),
                Some(state) => if state_transaction(state) != transaction {
                    result == Err::<&ReadCoordinatorState, ReadCoordinatorError>(
                        ReadCoordinatorError::WrongTransaction {
                            expected: state_transaction(state),
                            actual: transaction,
                        },
                    )
                } else {
                    result == Ok::<&ReadCoordinatorState, ReadCoordinatorError>(&state)
                },
            },
    {
        match &self.coordinator {
            None => Err(ReadCoordinatorError::Slot(self.refusal())),
            Some(state) => {
                let expected = state.transaction();
                if expected != transaction {
                    Err(ReadCoordinatorError::WrongTransaction { expected, actual: transaction })
                } else {
                    Ok(state)
                }
            },
        }
    }

    /// Mark the reserved read as published with `poll_budget` rechecks.
    pub fn mark_published(&mut self, transaction: ReadTransactionId, poll_budget: u16) -> (result:
        Result<(), ReadCoordinatorError>)
        requires
            old(self).wf(),
        ensures
            final(self).wf(),
            final(self).spec_state() == old(self).spec_state(),
            poll_budget == 0 ==> result == Err::<(), ReadCoordinatorError>(
                ReadCoordinatorError::InvalidPollBudget,
            ),
            poll_budget != 0 ==> match old(self).held() {
                None => result == Err::<(), ReadCoordinatorError>(
                    ReadCoordinatorError::Slot(access_error(old(self).spec_state())),
                ),
                Some(state) => if state_transaction(state) != transaction {
                    result == Err::<(), ReadCoordinatorError>(
                        ReadCoordinatorError::WrongTransaction {
                            expected: state_transaction(state),
                            actual: transaction,
                        },
                    )
                } else if state_phase(state) != ReadCoordinatorPhase::Reserved {
                    result == Err::<(), ReadCoordinatorError>(
                        ReadCoordinatorError::WrongPhase {
                            expected: ReadCoordinatorPhase::Reserved,
                            actual: state_phase(state),
                        },
                    )
                } else {
                    result is Ok
                },
            },
            result is Ok ==> final(self).held() == Some(
                ReadCoordinatorState::Published { transaction, poll_budget },
            ),
            result is Err ==> *final(self) == *old(self),
    {
        if poll_budget == 0 {
            return Err(ReadCoordinatorError::InvalidPollBudget);
        }
        let phase = match self.live_for(transaction) {
            Err(error) => return Err(error),
            Ok(state) => state.phase(),
        };
        if phase != ReadCoordinatorPhase::Reserved {
            return Err(
                ReadCoordinatorError::WrongPhase {
                    expected: ReadCoordinatorPhase::Reserved,
                    actual: phase,
                },
            );
        }
        self.coordinator = Some(ReadCoordinatorState::Published { transaction, poll_budget });
        Ok(())

    }

    /// Store the first recheck of a published read; its polls left and made
    /// must add up to the published budget.
    pub fn record_recheck(&mut self, recheck: BoundedMmcReadRecheck) -> (result: Result<
        (),
        RecordRecheckFailure,
    >)
        requires
            old(self).wf(),
        ensures
            final(self).wf(),
            final(self).spec_state() == old(self).spec_state(),
            match old(self).held() {
                None => result matches Err(f) && f.error == ReadCoordinatorError::Slot(
                    access_error(old(self).spec_state()),
                ),
                Some(state) => if state_transaction(state) != recheck.spec_transaction() {
                    result matches Err(f) && f.error == ReadCoordinatorError::WrongTransaction {
                        expected: state_transaction(state),
                        actual: recheck.spec_transaction(),
                    }
                } else {
                    match state {
                        ReadCoordinatorState::Published { poll_budget, .. } => if recheck.spec_remaining()
                            + recheck.spec_polls_completed() != poll_budget {
                            result matches Err(f) && f.error
                                == ReadCoordinatorError::InvalidPollProgress
                        } else {
                            result is Ok && final(self).held() == Some(
                                ReadCoordinatorState::Rechecking {
                                    transaction: recheck.spec_transaction(),
                                    poll_budget,
                                    recheck,
                                },
                            )
                        },
                        _ => result matches Err(f) && f.error == ReadCoordinatorError::WrongPhase {
                            expected: ReadCoordinatorPhase::Published,
                            actual: state_phase(state),
                        },
                    }
                },
            },
            result matches Err(f) ==> f.recheck == recheck && *final(self) == *old(self),
    {
        let transaction = recheck.transaction();
        let poll_budget = match self.live_for(transaction) {
            Err(error) => return Err(RecordRecheckFailure { error, recheck }),
            Ok(state) => match state {
                ReadCoordinatorState::Published { poll_budget, .. } => *poll_budget,
                _ => {
                    let error = ReadCoordinatorError::WrongPhase {
                        expected: ReadCoordinatorPhase::Published,
                        actual: state.phase(),
                    };
                    return Err(RecordRecheckFailure { error, recheck });
                },
            },
        };
        let progress = recheck.remaining().checked_add(recheck.polls_completed());
        if progress != Some(poll_budget) {
            return Err(
                RecordRecheckFailure { error: ReadCoordinatorError::InvalidPollProgress, recheck },
            );
        }
        self.coordinator = Some(ReadCoordinatorState::Rechecking { transaction, poll_budget, recheck });
        Ok(())
    }

    /// Record the recovery report of a published read.
    pub fn record_recovery(&mut self, report: ReadRecoveryReport) -> (result: Result<
        (),
        RecordRecoveryFailure,
    >)
        requires
            old(self).wf(),
        ensures
            final(self).wf(),
            final(self).spec_state() == old(self).spec_state(),
            match old(self).held() {
                None => result matches Err(f) && f.error == ReadCoordinatorError::Slot(
                    access_error(old(self).spec_state()),
                ),
                Some(state) => if state_transaction(state) != report.transaction {
                    result matches Err(f) && f.error == ReadCoordinatorError::WrongTransaction {
                        expected: state_transaction(state),
                        actual: report.transaction,
                    }
                } else {
                    match state {
                        ReadCoordinatorState::Published { .. } => result is Ok,
                        ReadCoordinatorState::Rechecking { .. } => result is Ok,
                        ReadCoordinatorState::RecoveryPending { cause, .. } => if cause
                            != report.cause {
                            result matches Err(f) && f.error
                                == ReadCoordinatorError::RecoveryCauseMismatch {
                                expected: cause,
                                actual: report.cause,
                            }
                        } else {
                            result is Ok
                        },
                        _ => result matches Err(f) && f.error == ReadCoordinatorError::WrongPhase {
                            expected: ReadCoordinatorPhase::Rechecking,
                            actual: state_phase(state),
                        },
                    }
                },
            },
            result is Ok <==> (old(self).held() matches Some(state) && accepts_recovery(state, report)),
            result is Ok ==> final(self).held() == Some(ReadCoordinatorState::RecoveryRecorded(report)),
            result matches Err(f) ==> f.report == report && *final(self) == *old(self),
    {
        let transaction = report.transaction;
        let pending = match self.live_for(transaction) {
            Err(error) => return Err(RecordRecoveryFailure { error, report }),
            Ok(state) => match state {
                ReadCoordinatorState::Published { .. } => None,
                ReadCoordinatorState::Rechecking { .. } => None,
                ReadCoordinatorState::RecoveryPending { cause, .. } => Some(*cause),
                _ => {
                    let error = ReadCoordinatorError::WrongPhase {
                        expected: ReadCoordinatorPhase::Rechecking,
                        actual: state.phase(),
                    };
                    return Err(RecordRecoveryFailure { error, report });
                },
            },
        };
        if let Some(cause) = pending {
            if cause != report.cause {
                let error = ReadCoordinatorError::RecoveryCauseMismatch {
                    expected: cause,
                    actual: report.cause,
                };
                return Err(RecordRecoveryFailure { error, report });
            }
        }
        self.coordinator = Some(ReadCoordinatorState::RecoveryRecorded(report));
        Ok(())
    }

    /// Take the recorded recovery report out; the slot is empty again.
    pub fn take_recovery(&mut self, transaction: ReadTransactionId) -> (result: Result<
        ReadRecoveryReport,
        ReadCoordinatorError,
    >)
        requires
            old(self).wf(),
        ensures
            final(self).wf(),
            match old(self).held() {
                None => result == Err::<ReadRecoveryReport, ReadCoordinatorError>(
                    ReadCoordinatorError::Slot(access_error(old(self).spec_state())),
                ),
                Some(state) => if state_transaction(state) != transaction {
                    result == Err::<ReadRecoveryReport, ReadCoordinatorError>(
                        ReadCoordinatorError::WrongTransaction {
                            expected: state_transaction(state),
                            actual: transaction,
                        },
                    )
                } else {
                    match state {
                        ReadCoordinatorState::RecoveryRecorded(report) => result
                            == Ok::<ReadRecoveryReport, ReadCoordinatorError>(report),
                        _ => result == Err::<ReadRecoveryReport, ReadCoordinatorError>(
                            ReadCoordinatorError::WrongPhase {
                                expected: ReadCoordinatorPhase::RecoveryRecorded,
                                actual: state_phase(state),
                            },
                        ),
                    }
                },
            },
            result is Ok ==> final(self).spec_state() == DiagnosticSlotState::Empty,
            result is Err ==> *final(self) == *old(self),
    {
        let phase = match self.live_for(transaction) {
            Err(error) => return Err(error),
            Ok(state) => state.phase(),
        };
        if phase != ReadCoordinatorPhase::RecoveryRecorded {
            return Err(
                ReadCoordinatorError::WrongPhase {
                    expected: ReadCoordinatorPhase::RecoveryRecorded,
                    actual: phase,
                },
            );
        }
        let taken = self.coordinator.take();
        self.slot_state = DiagnosticSlotState::Empty;
        match taken {
            Some(ReadCoordinatorState::RecoveryRecorded(report)) => Ok(report),
            _ => {
                proof {
                    assert(false);
                }
                Err(ReadCoordinatorError::RecoveryMustBeTaken)
            },
        }
    }

    /// Release a cancelled or finished read; the slot is empty again. A
    /// recovery must be recorded and taken, and a claimed completion
    /// finalized, first.
    pub fn release(&mut self, transaction: ReadTransactionId) -> (result: Result<
        (),
        ReadCoordinatorError,
    >)
        requires
            old(self).wf(),
        ensures
            final(self).wf(),
            match old(self).held() {
                None => result == Err::<(), ReadCoordinatorError>(
                    ReadCoordinatorError::Slot(access_error(old(self).spec_state())),
                ),
                Some(state) => if state_transaction(state) != transaction {
                    result == Err::<(), ReadCoordinatorError>(
                        ReadCoordinatorError::WrongTransaction {
                            expected: state_transaction(state),
                            actual: transaction,
                        },
                    )
                } else {
                    result == match state_phase(state) {
                        ReadCoordinatorPhase::RecoveryRecorded => Err::<(), ReadCoordinatorError>(
                            ReadCoordinatorError::RecoveryMustBeTaken,
                        ),
                        ReadCoordinatorPhase::RecoveryPending => Err::<(), ReadCoordinatorError>(
                            ReadCoordinatorError::RecoveryMustBeRecorded,
                        ),
                        ReadCoordinatorPhase::CompletionClaimed => Err::<(), ReadCoordinatorError>(
                            ReadCoordinatorError::CompletionMustBeFinalized,
                        ),
                        _ => Ok::<(), ReadCoordinatorError>(()),
                    }
                },
            },
            result is Ok ==> final(self).spec_state() == DiagnosticSlotState::Empty,
            result is Err ==> *final(self) == *old(self),
    {
        let phase = match self.live_for(transaction) {
            Err(error) => return Err(error),
            Ok(state) => state.phase(),
        };
        if phase == ReadCoordinatorPhase::RecoveryRecorded {
            return Err(ReadCoordinatorError::RecoveryMustBeTaken);
        }
        if phase == ReadCoordinatorPhase::RecoveryPending {
            return Err(ReadCoordinatorError::RecoveryMustBeRecorded);
        }
        if phase == ReadCoordinatorPhase::CompletionClaimed {
            return Err(ReadCoordinatorError::CompletionMustBeFinalized);
        }
        self.coordinator = None;
        self.slot_state = DiagnosticSlotState::Empty;
        Ok(())

    }

    /// Take the live coordinator of `transaction` out for a service, when it
    /// is in phase `expected`; the slot is servicing until it is given back.
    fn take_for_service(
        &mut self,
        transaction: ReadTransactionId,
        expected: ReadCoordinatorPhase,
    ) -> (result: Result<ReadCoordinatorState, ReadCoordinatorError>)
        requires
            old(self).wf(),
        ensures
            final(self).wf(),
            service_outcome(*old(self), *final(self), transaction, expected, result),
    {
        let phase = match self.live_for(transaction) {
            Err(error) => return Err(error),
            Ok(state) => state.phase(),
        };
        if phase != expected {
            return Err(ReadCoordinatorError::WrongPhase { expected, actual: phase });
        }
        let taken = self.coordinator.take();
        self.slot_state = DiagnosticSlotState::Servicing;
        match taken {
            Some(state) => Ok(state),
            None => {
                proof {
                    assert(false);
                }
                Err(ReadCoordinatorError::InvalidPollProgress)
            },
        }
    }

    /// Take a rechecking read out for one recheck step.
    pub fn service_recheck(&mut self, transaction: ReadTransactionId) -> (result: Result<
        ReadRecheckService,
        ReadCoordinatorError,
    >)
        requires
            old(self).wf(),
        ensures
            final(self).wf(),
            service_outcome(
                *old(self),
                *final(self),
                transaction,
                ReadCoordinatorPhase::Rechecking,
                match result {
                    Ok(service) => Ok::<ReadCoordinatorState, ReadCoordinatorError>(service.spec_state()),
                    Err(error) => Err(error),
                },
            ),
            result matches Ok(service) ==> service.spec_transaction() == transaction && service.wf(),
    {
        match self.take_for_service(transaction, ReadCoordinatorPhase::Rechecking) {
            Ok(state) => Ok(ReadRecheckService { transaction, state }),
            Err(error) => Err(error),
        }
    }

    /// Take a read with recovery pending out for archiving.
    pub fn service_recovery(&mut self, transaction: ReadTransactionId) -> (result: Result<
        ReadRecoveryService,
        ReadCoordinatorError,
    >)
        requires
            old(self).wf(),
        ensures
            final(self).wf(),
            service_outcome(
                *old(self),
                *final(self),
                transaction,
                ReadCoordinatorPhase::RecoveryPending,
                match result {
                    Ok(service) => Ok::<ReadCoordinatorState, ReadCoordinatorError>(service.spec_state()),
                    Err(error) => Err(error),
                },
            ),
            result matches Ok(service) ==> service.spec_transaction() == transaction && service.wf(),
    {
        match self.take_for_service(transaction, ReadCoordinatorPhase::RecoveryPending) {
            Ok(state) => Ok(ReadRecoveryService { transaction, state }),
            Err(error) => Err(error),
        }
    }

    /// Take a terminal read out to claim its interrupt pair.
    pub fn service_terminal(&mut self, transaction: ReadTransactionId) -> (result: Result<
        ReadTerminalService,
        ReadCoordinatorError,
    >)
        requires
            old(self).wf(),
        ensures
            final(self).wf(),
            service_outcome(
                *old(self),
                *final(self),
                transaction,
                ReadCoordinatorPhase::Terminal,
                match result {
                    Ok(service) => Ok::<ReadCoordinatorState, ReadCoordinatorError>(service.spec_state()),
                    Err(error) => Err(error),
                },
            ),
            result matches Ok(service) ==> service.spec_transaction() == transaction && service.wf(),
    {
        match self.take_for_service(transaction, ReadCoordinatorPhase::Terminal) {
            Ok(state) => Ok(ReadTerminalService { transaction, state }),
            Err(error) => Err(error),
        }
    }

    /// Take a read whose completion was claimed out to finalize it.
    pub fn service_claimed_completion(&mut self, transaction: ReadTransactionId) -> (result:
        Result<ReadClaimedCompletionService, ReadCoordinatorError>)
        requires
            old(self).wf(),
        ensures
            final(self).wf(),
            service_outcome(
                *old(self),
                *final(self),
                transaction,
                ReadCoordinatorPhase::CompletionClaimed,
                match result {
                    Ok(service) => Ok::<ReadCoordinatorState, ReadCoordinatorError>(service.spec_state()),
                    Err(error) => Err(error),
                },
            ),
            result matches Ok(service) ==> service.spec_transaction() == transaction && service.wf(),
    {
        match self.take_for_service(transaction, ReadCoordinatorPhase::CompletionClaimed) {
            Ok(state) => Ok(ReadClaimedCompletionService { transaction, state }),
            Err(error) => Err(error),
        }
    }

    /// Give a serviced coordinator back; the slot is live again.
    fn give_back(&mut self, state: ReadCoordinatorState)
        requires
            old(self).wf(),
            old(self).spec_state() == DiagnosticSlotState::Servicing,
        ensures
            final(self).wf(),
            final(self).spec_state() == DiagnosticSlotState::Live,
            final(self).held() == Some(state),
    {
        self.slot_state = DiagnosticSlotState::Live;
        self.coordinator = Some(state);
    }
}

/// What taking a coordinator out for a service in phase `expected` did:
/// the live coordinator of `transaction` in that phase is handed out and the
/// slot is servicing; anything else is refused with the slot unchanged.
pub open spec fn service_outcome(
    before: ReadCoordinatorSlot,
    after: ReadCoordinatorSlot,
    transaction: ReadTransactionId,
    expected: ReadCoordinatorPhase,
    result: Result<ReadCoordinatorState, ReadCoordinatorError>,
) -> bool {
    match before.held() {
        None => result == Err::<ReadCoordinatorState, ReadCoordinatorError>(
            ReadCoordinatorError::Slot(access_error(before.spec_state())),
        ) && after == before,
        Some(state) => if state_transaction(state) != transaction {
            result == Err::<ReadCoordinatorState, ReadCoordinatorError>(
                ReadCoordinatorError::WrongTransaction {
                    expected: state_transaction(state),
                    actual: transaction,
                },
            ) && after == before
        } else if state_phase(state) != expected {
            result == Err::<ReadCoordinatorState, ReadCoordinatorError>(
                ReadCoordinatorError::WrongPhase { expected, actual: state_phase(state) },
            ) && after == before
        } else {
            &&& result == Ok::<ReadCoordinatorState, ReadCoordinatorError>(state)
            &&& after.spec_state() == DiagnosticSlotState::Servicing
            &&& after.held() is None
        },
    }
}

/// A reservation of an empty slot, to be committed or cancelled.
pub struct ReadCoordinatorReservation {
    transaction: ReadTransactionId,
}

impl ReadCoordinatorReservation {
    pub closed spec fn spec_transaction(&self) -> ReadTransactionId {
        self.transaction
    }

    /// Make the reserved slot live with a coordinator in phase `Reserved`.
    pub fn commit(self, slot: &mut ReadCoordinatorSlot)
        requires
            old(slot).wf(),
            old(slot).spec_state() == DiagnosticSlotState::Reserved,
        ensures
            final(slot).wf(),
            final(slot).spec_state() == DiagnosticSlotState::Live,
            final(slot).held() == Some(
                ReadCoordinatorState::Reserved { transaction: self.spec_transaction() },
            ),
    {
        slot.slot_state = DiagnosticSlotState::Live;
        slot.coordinator = Some(ReadCoordinatorState::Reserved { transaction: self.transaction });
    }

    /// Give the reservation up; the slot is empty again.
    pub fn cancel(self, slot: &mut ReadCoordinatorSlot)
        requires
            old(slot).wf(),
            old(slot).spec_state() == DiagnosticSlotState::Reserved,
        ensures
            final(slot).wf(),
            final(slot).spec_state() == DiagnosticSlotState::Empty,
    {
        slot.slot_state = DiagnosticSlotState::Empty;
    }
}

/// Why claimed completion evidence cannot finalize the read `transaction`,
/// if it cannot.
pub open spec fn finalize_error(
    transaction: ReadTransactionId,
    evidence: ClaimedReadCompletionEvidence,
) -> Option<ReadCoordinatorError> {
    if evidence.transaction != transaction {
        Some(ReadCoordinatorError::WrongTransaction { expected: transaction, actual: evidence.transaction })
    } else if evidence.dma_transaction != transaction {
        Some(
            ReadCoordinatorError::WrongTransaction {
                expected: transaction,
                actual: evidence.dma_transaction,
            },
        )
    } else if !evidence_complete(evidence.evidence) {
        Some(ReadCoordinatorError::InvalidCompletionEvidence(evidence.evidence))
    } else {
        None
    }
}

/// Why claimed recovery evidence cannot be archived for the read
/// `transaction` pending with `cause`, if it cannot.
pub open spec fn archive_error(
    transaction: ReadTransactionId,
    cause: ReadRecoveryCause,
    evidence: ClaimedReadRecoveryEvidence,
) -> Option<ReadCoordinatorError> {
    if evidence.transaction != transaction {
        Some(ReadCoordinatorError::WrongTransaction { expected: transaction, actual: evidence.transaction })
    } else if evidence.dma_transaction != transaction {
        Some(
            ReadCoordinatorError::WrongTransaction {
                expected: transaction,
                actual: evidence.dma_transaction,
            },
        )
    } else if cause != ReadRecoveryCause::CompletionFailure(evidence.failure) {
        Some(
            ReadCoordinatorError::RecoveryCauseMismatch {
                expected: cause,
                actual: ReadRecoveryCause::CompletionFailure(evidence.failure),
            },
        )
    } else {
        None
    }
}

/// The report archived from claimed evidence: nothing drained, the
/// evidence's MMC interrupts as the partial snapshot.
pub open spec fn archived_report(
    transaction: ReadTransactionId,
    cause: ReadRecoveryCause,
    evidence: ClaimedReadRecoveryEvidence,
) -> ReadRecoveryReport {
    ReadRecoveryReport {
        transaction,
        cause,
        partial_mmc_interrupts: evidence.mmc_interrupts,
        drained: DrainedReadIrqs { mmc: false, dma: false },
        claimed: Some(evidence),
    }
}

/// All three completion facts are present.
pub open spec fn evidence_complete(evidence: ReadCompletionEvidence) -> bool {
    evidence.command_response_validated && evidence.data_finished && evidence.dma_finished
}

/// The cause of a pending recovery.
pub open spec fn pending_cause(state: ReadCoordinatorState) -> ReadRecoveryCause {
    match state {
        ReadCoordinatorState::RecoveryPending { cause, .. } => cause,
        _ => ReadRecoveryCause::Timeout { polls_completed: 0 },
    }
}

/// The budget of a rechecking read.
pub open spec fn recheck_budget(state: ReadCoordinatorState) -> u16 {
    match state {
        ReadCoordinatorState::Rechecking { poll_budget, .. } => poll_budget,
        _ => 0,
    }
}

/// The coordinator after a recheck step of `state` ended in `outcome`.
pub open spec fn recheck_step_state(
    state: ReadCoordinatorState,
    advanced: BoundedMmcReadRecheck,
    outcome: Result<BoundedMmcReadRecheckStep, BoundedMmcReadRecheckError>,
) -> ReadCoordinatorState {
    let transaction = state_transaction(state);
    let polls_completed = advanced.spec_polls_completed();
    match outcome {
        Ok(BoundedMmcReadRecheckStep::Terminal) => ReadCoordinatorState::Terminal {
            transaction,
            polls_completed,
        },
        Ok(BoundedMmcReadRecheckStep::Timeout) => ReadCoordinatorState::RecoveryPending {
            transaction,
            cause: ReadRecoveryCause::Timeout { polls_completed },
        },
        Err(BoundedMmcReadRecheckError::Recheck(error)) => ReadCoordinatorState::RecoveryPending {
            transaction,
            cause: ReadRecoveryCause::RecheckFault {
                error,
                polls_completed,
                remaining: advanced.spec_remaining(),
            },
        },
        _ => ReadCoordinatorState::Rechecking {
            transaction,
            poll_budget: recheck_budget(state),
            recheck: advanced,
        },
    }
}

/// What a recheck step of the read `transaction` reports.
pub open spec fn recheck_step_result(
    transaction: ReadTransactionId,
    advanced: BoundedMmcReadRecheck,
    outcome: Result<BoundedMmcReadRecheckStep, BoundedMmcReadRecheckError>,
) -> Result<ReadCoordinatorStepProgress, ReadCoordinatorStepFailure> {
    let polls_completed = advanced.spec_polls_completed();
    match outcome {
        Ok(BoundedMmcReadRecheckStep::Pending) => Ok(
            ReadCoordinatorStepProgress::Pending {
                transaction,
                remaining: advanced.spec_remaining(),
                polls_completed,
            },
        ),
        Ok(BoundedMmcReadRecheckStep::Terminal) => Ok(
            ReadCoordinatorStepProgress::Terminal { transaction, polls_completed },
        ),
        Ok(BoundedMmcReadRecheckStep::Timeout) => Ok(
            ReadCoordinatorStepProgress::RecoveryPending {
                transaction,
                cause: ReadRecoveryCause::Timeout { polls_completed },
            },
        ),
        Err(BoundedMmcReadRecheckError::Recheck(error)) => Ok(
            ReadCoordinatorStepProgress::RecoveryPending {
                transaction,
                cause: ReadRecoveryCause::RecheckFault {
                    error,
                    polls_completed,
                    remaining: advanced.spec_remaining(),
                },
            },
        ),
        Err(error) => Err(ReadCoordinatorStepFailure { error }),
    }
}

/// A rechecking read taken out of its slot for one step.
pub struct ReadRecheckService {
    transaction: ReadTransactionId,
    state: ReadCoordinatorState,
}

impl ReadRecheckService {
    pub closed spec fn spec_transaction(&self) -> ReadTransactionId {
        self.transaction
    }

    /// The coordinator taken out of the slot.
    pub closed spec fn spec_state(&self) -> ReadCoordinatorState {
        self.state
    }

    pub closed spec fn wf(&self) -> bool {
        &&& state_transaction(self.state) == self.transaction
        &&& state_phase(self.state) == ReadCoordinatorPhase::Rechecking
    }

    pub fn transaction(&self) -> (t: ReadTransactionId)
        ensures
            t == self.spec_transaction(),
    {
        self.transaction
    }

    /// Give the coordinator back unchanged.
    pub fn restore(self, slot: &mut ReadCoordinatorSlot)
        requires
            old(slot).wf(),
            old(slot).spec_state() == DiagnosticSlotState::Servicing,
        ensures
            final(slot).wf(),
            final(slot).spec_state() == DiagnosticSlotState::Live,
            final(slot).held() == Some(self.spec_state()),
    {
        slot.give_back(self.state);
    }

    /// Store the outcome of one recheck step, `advanced` being the recheck
    /// after it: a pending step keeps rechecking, a terminal one ends the
    /// polls, a timeout or a failed sample makes recovery pending, and any
    /// other failure keeps rechecking and is returned.
    pub fn step(
        self,
        slot: &mut ReadCoordinatorSlot,
        advanced: BoundedMmcReadRecheck,
        outcome: Result<BoundedMmcReadRecheckStep, BoundedMmcReadRecheckError>,
    ) -> (result: Result<ReadCoordinatorStepProgress, ReadCoordinatorStepFailure>)
        requires
            self.wf(),
            old(slot).wf(),
            old(slot).spec_state() == DiagnosticSlotState::Servicing,
        ensures
            final(slot).wf(),
            final(slot).spec_state() == DiagnosticSlotState::Live,
            final(slot).held() == Some(recheck_step_state(self.spec_state(), advanced, outcome)),
            result == recheck_step_result(self.spec_transaction(), advanced, outcome),
    {
        let transaction = self.transaction;
        let poll_budget = match &self.state {
            ReadCoordinatorState::Rechecking { poll_budget, .. } => *poll_budget,
            _ => {
                proof {
                    assert(false);
                }
                0
            },
        };
        let remaining = advanced.remaining();
        let polls_completed = advanced.polls_completed();
        match outcome {
            Ok(BoundedMmcReadRecheckStep::Pending) => {
                slot.give_back(
                    ReadCoordinatorState::Rechecking { transaction, poll_budget, recheck: advanced },
                );
                Ok(ReadCoordinatorStepProgress::Pending { transaction, remaining, polls_completed })
            },
            Ok(BoundedMmcReadRecheckStep::Terminal) => {
                slot.give_back(ReadCoordinatorState::Terminal { transaction, polls_completed });
                Ok(ReadCoordinatorStepProgress::Terminal { transaction, polls_completed })
            },
            Ok(BoundedMmcReadRecheckStep::Timeout) => {
                let cause = ReadRecoveryCause::Timeout { polls_completed };
                slot.give_back(ReadCoordinatorState::RecoveryPending { transaction, cause });
                Ok(ReadCoordinatorStepProgress::RecoveryPending { transaction, cause })
            },
            Err(BoundedMmcReadRecheckError::Recheck(error)) => {
                let cause = ReadRecoveryCause::RecheckFault { error, polls_completed, remaining };
                slot.give_back(ReadCoordinatorState::RecoveryPending { transaction, cause });
                Ok(ReadCoordinatorStepProgress::RecoveryPending { transaction, cause })
            },
            Err(error) => {
                slot.give_back(
                    ReadCoordinatorState::Rechecking { transaction, poll_budget, recheck: advanced },
                );
                Err(ReadCoordinatorStepFailure { error })
            },
        }
    }
}

/// A terminal read taken out of its slot to claim its interrupt pair.
pub struct ReadTerminalService {
    transaction: ReadTransactionId,
    state: ReadCoordinatorState,
}

impl ReadTerminalService {
    pub closed spec fn spec_transaction(&self) -> ReadTransactionId {
        self.transaction
    }

    /// The coordinator taken out of the slot.
    pub closed spec fn spec_state(&self) -> ReadCoordinatorState {
        self.state
    }

    pub closed spec fn wf(&self) -> bool {
        &&& state_transaction(self.state) == self.transaction
        &&& state_phase(self.state) == ReadCoordinatorPhase::Terminal
    }

    pub fn transaction(&self) -> (t: ReadTransactionId)
        ensures
            t == self.spec_transaction(),
    {
        self.transaction
    }

    /// Give the coordinator back unchanged.
    pub fn restore(self, slot: &mut ReadCoordinatorSlot)
        requires
            old(slot).wf(),
            old(slot).spec_state() == DiagnosticSlotState::Servicing,
        ensures
            final(slot).wf(),
            final(slot).spec_state() == DiagnosticSlotState::Live,
            final(slot).held() == Some(self.spec_state()),
    {
        slot.give_back(self.state);
    }

    /// Claim the interrupt pair armed for `armed`: the read's own pair moves
    /// it to `CompletionClaimed`; another transaction's is refused.
    pub fn claim_pair(self, slot: &mut ReadCoordinatorSlot, armed: ReadTransactionId) -> (result:
        Result<(), ReadTerminalClaimError>)
        requires
            self.wf(),
            old(slot).wf(),
            old(slot).spec_state() == DiagnosticSlotState::Servicing,
        ensures
            final(slot).wf(),
            final(slot).spec_state() == DiagnosticSlotState::Live,
            armed == self.spec_transaction() ==> result is Ok && final(slot).held() == Some(
                ReadCoordinatorState::CompletionClaimed { transaction: armed },
            ),
            armed != self.spec_transaction() ==> result == Err::<(), ReadTerminalClaimError>(
                ReadTerminalClaimError::WrongTransaction {
                    expected: self.spec_transaction(),
                    actual: armed,
                },
            ) && final(slot).held() == Some(self.spec_state()),
    {
        if armed != self.transaction {
            let expected = self.transaction;
            slot.give_back(self.state);
            return Err(ReadTerminalClaimError::WrongTransaction { expected, actual: armed });
        }
        slot.give_back(ReadCoordinatorState::CompletionClaimed { transaction: armed });
        Ok(())
    }
}

/// A read with a claimed completion taken out of its slot.
pub struct ReadClaimedCompletionService {
    transaction: ReadTransactionId,
    state: ReadCoordinatorState,
}

impl ReadClaimedCompletionService {
    pub closed spec fn spec_transaction(&self) -> ReadTransactionId {
        self.transaction
    }

    /// The coordinator taken out of the slot.
    pub closed spec fn spec_state(&self) -> ReadCoordinatorState {
        self.state
    }

    pub closed spec fn wf(&self) -> bool {
        &&& state_transaction(self.state) == self.transaction
        &&& state_phase(self.state) == ReadCoordinatorPhase::CompletionClaimed
    }

    pub fn transaction(&self) -> (t: ReadTransactionId)
        ensures
            t == self.spec_transaction(),
    {
        self.transaction
    }

    /// Give the coordinator back unchanged.
    pub fn restore(self, slot: &mut ReadCoordinatorSlot)
        requires
            old(slot).wf(),
            old(slot).spec_state() == DiagnosticSlotState::Servicing,
        ensures
            final(slot).wf(),
            final(slot).spec_state() == DiagnosticSlotState::Live,
            final(slot).held() == Some(self.spec_state()),
    {
        slot.give_back(self.state);
    }

    /// Record why the claimed completion failed; recovery is then pending
    /// with that cause.
    pub fn record_failure(self, slot: &mut ReadCoordinatorSlot, failure: ReadCompletionFailure) -> (cause:
        ReadRecoveryCause)
        requires
            old(slot).wf(),
            old(slot).spec_state() == DiagnosticSlotState::Servicing,
        ensures
            cause == ReadRecoveryCause::CompletionFailure(failure),
            final(slot).wf(),
            final(slot).spec_state() == DiagnosticSlotState::Live,
            final(slot).held() == Some(
                ReadCoordinatorState::RecoveryPending { transaction: self.spec_transaction(), cause },
            ),
    {
        let cause = ReadRecoveryCause::CompletionFailure(failure);
        slot.give_back(ReadCoordinatorState::RecoveryPending { transaction: self.transaction, cause });
        cause
    }

    /// Finalize the completion: the evidence must belong to this read on
    /// both sides and hold all three facts.
    pub fn finalize(self, slot: &mut ReadCoordinatorSlot, evidence: ClaimedReadCompletionEvidence) -> (result:
        Result<(), ReadCompletionFinalizeFailure>)
        requires
            self.wf(),
            old(slot).wf(),
            old(slot).spec_state() == DiagnosticSlotState::Servicing,
        ensures
            final(slot).wf(),
            final(slot).spec_state() == DiagnosticSlotState::Live,
            match finalize_error(self.spec_transaction(), evidence) {
                Some(error) => (result matches Err(f) && f.error == error && f.evidence == evidence)
                    && final(slot).held() == Some(self.spec_state()),
                None => result is Ok && final(slot).held() == Some(
                    ReadCoordinatorState::CompletionFinalized { transaction: self.spec_transaction() },
                ),
            },
    {
        let transaction = self.transaction;
        if evidence.transaction != transaction || evidence.dma_transaction != transaction {
            let actual = if evidence.transaction != transaction {
                evidence.transaction
            } else {
                evidence.dma_transaction
            };
            slot.give_back(self.state);
            return Err(
                ReadCompletionFinalizeFailure {
                    error: ReadCoordinatorError::WrongTransaction { expected: transaction, actual },
                    evidence,
                },
            );
        }
        let actual = evidence.evidence;
        if !(actual.command_response_validated && actual.data_finished && actual.dma_finished) {
            slot.give_back(self.state);
            return Err(
                ReadCompletionFinalizeFailure {
                    error: ReadCoordinatorError::InvalidCompletionEvidence(actual),
                    evidence,
                },
            );
        }
        slot.give_back(ReadCoordinatorState::CompletionFinalized { transaction });
        Ok(())
    }
}

/// A read with recovery pending taken out of its slot.
pub struct ReadRecoveryService {
    transaction: ReadTransactionId,
    state: ReadCoordinatorState,
}

impl ReadRecoveryService {
    pub closed spec fn spec_transaction(&self) -> ReadTransactionId {
        self.transaction
    }

    /// The coordinator taken out of the slot.
    pub closed spec fn spec_state(&self) -> ReadCoordinatorState {
        self.state
    }

    pub closed spec fn wf(&self) -> bool {
        &&& state_transaction(self.state) == self.transaction
        &&& state_phase(self.state) == ReadCoordinatorPhase::RecoveryPending
    }

    pub fn transaction(&self) -> (t: ReadTransactionId)
        ensures
            t == self.spec_transaction(),
    {
        self.transaction
    }

    /// Give the coordinator back unchanged.
    pub fn restore(self, slot: &mut ReadCoordinatorSlot)
        requires
            old(slot).wf(),
            old(slot).spec_state() == DiagnosticSlotState::Servicing,
        ensures
            final(slot).wf(),
            final(slot).spec_state() == DiagnosticSlotState::Live,
            final(slot).held() == Some(self.spec_state()),
    {
        slot.give_back(self.state);
    }

    /// Archive a receipt pair already removed from the owner table: it must
    /// belong to this read on both sides and carry the pending cause. The
    /// report then holds the cause, the evidence's MMC interrupts and the
    /// evidence itself, with nothing drained.
    pub fn archive_claimed(self, slot: &mut ReadCoordinatorSlot, evidence: ClaimedReadRecoveryEvidence) -> (result:
        Result<(), ReadClaimedRecoveryArchiveFailure>)
        requires
            self.wf(),
            old(slot).wf(),
            old(slot).spec_state() == DiagnosticSlotState::Servicing,
        ensures
            final(slot).wf(),
            final(slot).spec_state() == DiagnosticSlotState::Live,
            match archive_error(self.spec_transaction(), pending_cause(self.spec_state()), evidence) {
                Some(error) => (result matches Err(f) && f.error == error && f.evidence == evidence)
                    && final(slot).held() == Some(self.spec_state()),
                None => result is Ok && final(slot).held() == Some(
                    ReadCoordinatorState::RecoveryRecorded(
                        archived_report(self.spec_transaction(), pending_cause(self.spec_state()), evidence),
                    ),
                ),
            },
    {
        let transaction = self.transaction;
        let cause = match &self.state {
            ReadCoordinatorState::RecoveryPending { cause, .. } => *cause,
            _ => {
                proof {
                    assert(false);
                }
                ReadRecoveryCause::Timeout { polls_completed: 0 }
            },
        };
        if evidence.transaction != transaction || evidence.dma_transaction != transaction {
            let actual = if evidence.transaction != transaction {
                evidence.transaction
            } else {
                evidence.dma_transaction
            };
            slot.give_back(self.state);
            return Err(
                ReadClaimedRecoveryArchiveFailure {
                    error: ReadCoordinatorError::WrongTransaction { expected: transaction, actual },
                    evidence,
                },
            );
        }
        let actual = ReadRecoveryCause::CompletionFailure(evidence.failure);
        if cause != actual {
            slot.give_back(self.state);
            return Err(
                ReadClaimedRecoveryArchiveFailure {
                    error: ReadCoordinatorError::RecoveryCauseMismatch { expected: cause, actual },
                    evidence,
                },
            );
        }
        slot.give_back(
            ReadCoordinatorState::RecoveryRecorded(
                ReadRecoveryReport {
                    transaction,
                    cause,
                    partial_mmc_interrupts: evidence.mmc_interrupts,
                    drained: DrainedReadIrqs { mmc: false, dma: false },
                    claimed: Some(evidence),
                },
            ),
        );
        Ok(())
    }
}

/// Identity and geometry of one deferred read.
#[derive(Debug, Clone, Copy, PartialEq, Eq, Structural)]
pub struct ReadRequest {
    transaction: ReadTransactionId,
    block: ReadBlockRequest,
}

impl ReadRequest {
    pub closed spec fn spec_transaction(&self) -> ReadTransactionId {
        self.transaction
    }

    pub closed spec fn spec_block(&self) -> ReadBlockRequest {
        self.block
    }

    pub fn new(transaction: ReadTransactionId, block: ReadBlockRequest) -> (request: Self)
        ensures
            request.spec_transaction() == transaction,
            request.spec_block() == block,
    {
        Self { transaction, block }
    }

    pub fn transaction(&self) -> (t: ReadTransactionId)
        ensures
            t == self.spec_transaction(),
    {
        self.transaction
    }

    pub fn block(&self) -> (block: ReadBlockRequest)
        ensures
            block == self.spec_block(),
    {
        self.block
    }

    /// Reserve `slot` for this request's transaction.
    pub fn reserve(&self, slot: &mut ReadCoordinatorSlot) -> (result: Result<
        ReadRequestReservation,
        ReadCoordinatorError,
    >)
        requires
            old(slot).wf(),
        ensures
            final(slot).wf(),
            match result {
                Ok(reservation) => old(slot).spec_state() == DiagnosticSlotState::Empty
                    && reservation.spec_request() == *self && final(slot).spec_state()
                    == DiagnosticSlotState::Reserved,
                Err(error) => old(slot).spec_state() != DiagnosticSlotState::Empty && error
                    == ReadCoordinatorError::Slot(reserve_error(old(slot).spec_state()))
                    && *final(slot) == *old(slot),
            },
    {
        match slot.reserve(self.transaction) {
            Ok(reservation) => Ok(ReadRequestReservation { reservation, request: *self }),
            Err(error) => Err(error),
        }
    }
}

/// A reservation carrying its request through commit.
pub struct ReadRequestReservation {
    reservation: ReadCoordinatorReservation,
    request: ReadRequest,
}

impl ReadRequestReservation {
    pub closed spec fn spec_request(&self) -> ReadRequest {
        self.request
    }

    /// Make the reserved slot live and hand out the request's handle.
    pub fn commit(self, slot: &mut ReadCoordinatorSlot) -> (handle: ReadRequestHandle)
        requires
            old(slot).wf(),
            old(slot).spec_state() == DiagnosticSlotState::Reserved,
        ensures
            handle.spec_request() == self.spec_request(),
            final(slot).wf(),
            final(slot).spec_state() == DiagnosticSlotState::Live,
            final(slot).held() == Some(
                ReadCoordinatorState::Reserved { transaction: self.spec_request().spec_transaction() },
            ),
    {
        let request = self.request;
        slot.slot_state = DiagnosticSlotState::Live;
        slot.coordinator = Some(ReadCoordinatorState::Reserved { transaction: request.transaction });
        ReadRequestHandle { request }
    }
}

/// The handle of a request whose coordinator is live in a slot.
pub struct ReadRequestHandle {
    request: ReadRequest,
}

impl ReadRequestHandle {
    pub closed spec fn spec_request(&self) -> ReadRequest {
        self.request
    }

    pub fn transaction(&self) -> (t: ReadTransactionId)
        ensures
            t == self.spec_request().spec_transaction(),
    {
        self.request.transaction()
    }

    pub fn block(&self) -> (block: ReadBlockRequest)
        ensures
            block == self.spec_request().spec_block(),
    {
        self.request.block()
    }

    pub fn snapshot(&self, slot: &ReadCoordinatorSlot) -> (result: Result<
        ReadCoordinatorSnapshot,
        ReadCoordinatorError,
    >)
        requires
            slot.wf(),
        ensures
            match slot.held() {
                Some(state) => result == Ok::<ReadCoordinatorSnapshot, ReadCoordinatorError>(
                    state_snapshot(state),
                ),
                None => result == Err::<ReadCoordinatorSnapshot, ReadCoordinatorError>(
                    ReadCoordinatorError::Slot(access_error(slot.spec_state())),
                ),
            },
    {
        slot.snapshot()
    }

    /// Mark the request's read as published.
    pub fn mark_published(&self, slot: &mut ReadCoordinatorSlot, poll_budget: u16) -> (result:
        Result<(), ReadCoordinatorError>)
        requires
            old(slot).wf(),
        ensures
            final(slot).wf(),
            poll_budget != 0 && old(slot).held() == Some(
                ReadCoordinatorState::Reserved { transaction: self.spec_request().spec_transaction() },
            ) ==> result is Ok && final(slot).held() == Some(
                ReadCoordinatorState::Published {
                    transaction: self.spec_request().spec_transaction(),
                    poll_budget,
                },
            ),
            poll_budget == 0 ==> result == Err::<(), ReadCoordinatorError>(
                ReadCoordinatorError::InvalidPollBudget,
            ),
            result is Err ==> *final(slot) == *old(slot),
    {
        slot.mark_published(self.request.transaction(), poll_budget)
    }

    /// Release the request's coordinator.
    pub fn release(self, slot: &mut ReadCoordinatorSlot) -> (result: Result<(), ReadCoordinatorError>)
        requires
            old(slot).wf(),
        ensures
            final(slot).wf(),
            result is Ok ==> final(slot).spec_state() == DiagnosticSlotState::Empty,
            result is Err ==> *final(slot) == *old(slot),
            (old(slot).held() matches Some(state) && state_transaction(state)
                == self.spec_request().spec_transaction() && state_phase(state)
                != ReadCoordinatorPhase::RecoveryRecorded && state_phase(state)
                != ReadCoordinatorPhase::RecoveryPending && state_phase(state)
                != ReadCoordinatorPhase::CompletionClaimed) <==> result is Ok,
    {
        slot.release(self.request.transaction())
    }
}

} // verus!
