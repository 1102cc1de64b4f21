use ls2k1000la::diagnostic_slot::{DiagnosticSlotState, SlotError};
use ls2k1000la::mmc::{
    MmcIrqAckError, ReadAddressing, ReadBlockRequest, ReadCompletionEvidence,
    ReadCompletionFailure,
};
use ls2k1000la::read_coordinator::{
    BoundedMmcReadRecheck, BoundedMmcReadRecheckError, BoundedMmcReadRecheckStep,
    ClaimedReadCompletionEvidence, ClaimedReadRecoveryEvidence, DrainedReadIrqs,
    MmcReadRecheckError, ReadCoordinatorError, ReadCoordinatorPhase, ReadCoordinatorSlot,
    ReadCoordinatorSnapshot, ReadCoordinatorStepProgress, ReadRecoveryCause, ReadRecoveryReport,
    ReadRequest, ReadTerminalClaimError, ReadTransactionId,
};

fn transaction(raw: u64) -> ReadTransactionId {
    ReadTransactionId::new(raw).unwrap()
}

fn report(transaction: ReadTransactionId) -> ReadRecoveryReport {
    ReadRecoveryReport {
        transaction,
        cause: ReadRecoveryCause::Timeout { polls_completed: 2 },
        partial_mmc_interrupts: 1 << 6,
        drained: DrainedReadIrqs { mmc: false, dma: false },
        claimed: None,
    }
}

#[test]
fn reservation_drop_reopens_and_live_slot_rejects_reentry() {
    let mut slot = ReadCoordinatorSlot::new();
    let current = transaction(1);
    let reservation = slot.reserve(current).unwrap();
    assert_eq!(slot.state(), DiagnosticSlotState::Reserved);
    assert_eq!(slot.reserve(current).err(), Some(ReadCoordinatorError::Slot(SlotError::Reserved)));
    reservation.cancel(&mut slot);
    slot.reserve(current).unwrap().commit(&mut slot);
    assert_eq!(slot.snapshot().unwrap().phase, ReadCoordinatorPhase::Reserved);
    assert_eq!(
        slot.reserve(transaction(2)).err(),
        Some(ReadCoordinatorError::Slot(SlotError::AlreadyLive))
    );
}

#[test]
fn production_request_handle_keeps_geometry_and_transaction_bound() {
    let mut slot = ReadCoordinatorSlot::new();
    let transaction = transaction(2);
    let block = ReadBlockRequest::new(8, 2, 512, ReadAddressing::Block).unwrap();
    let request = ReadRequest::new(transaction, block);
    let handle = request.reserve(&mut slot).unwrap().commit(&mut slot);
    assert_eq!(handle.transaction(), transaction);
    assert_eq!(handle.block(), block);
    assert_eq!(handle.snapshot(&slot).unwrap().phase, ReadCoordinatorPhase::Reserved);
    handle.mark_published(&mut slot, 3).unwrap();
    assert_eq!(slot.snapshot().unwrap().phase, ReadCoordinatorPhase::Published);
    handle.release(&mut slot).unwrap();
    assert_eq!(slot.state(), DiagnosticSlotState::Empty);
}

#[test]
fn coordinator_tracks_published_and_paused_recheck_across_workers() {
    let mut slot = ReadCoordinatorSlot::new();
    let current = transaction(3);
    slot.reserve(current).unwrap().commit(&mut slot);
    assert_eq!(slot.mark_published(current, 4), Ok(()));
    let recheck = BoundedMmcReadRecheck::new(current, 4).unwrap();
    assert_eq!(slot.record_recheck(recheck).map_err(|failure| failure.error), Ok(()));
    assert_eq!(
        slot.snapshot().unwrap(),
        ReadCoordinatorSnapshot {
            transaction: current,
            phase: ReadCoordinatorPhase::Rechecking,
            poll_budget: Some(4),
            remaining: Some(4),
            polls_completed: Some(0),
            recovery_cause: None,
            partial_mmc_interrupts: None,
            has_mmc_receipt: false,
            has_dma_receipt: false,
        }
    );
    assert_eq!(
        slot.mark_published(transaction(4), 4),
        Err(ReadCoordinatorError::WrongTransaction { expected: current, actual: transaction(4) })
    );
    let failure = slot
        .record_recheck(BoundedMmcReadRecheck::new(current, 3).unwrap())
        .err()
        .expect("invalid progress accepted");
    assert_eq!(
        failure.error,
        ReadCoordinatorError::WrongPhase {
            expected: ReadCoordinatorPhase::Published,
            actual: ReadCoordinatorPhase::Rechecking,
        }
    );
    assert_eq!(failure.recheck.remaining(), 3);
    assert_eq!(
        slot.release(transaction(4)),
        Err(ReadCoordinatorError::WrongTransaction { expected: current, actual: transaction(4) })
    );
    assert_eq!(slot.state(), DiagnosticSlotState::Live);
    assert_eq!(slot.release(current), Ok(()));
    assert_eq!(slot.state(), DiagnosticSlotState::Empty);
}

#[test]
fn recovery_report_is_linear_and_take_reopens_slot() {
    let mut slot = ReadCoordinatorSlot::new();
    let current = transaction(5);
    slot.reserve(current).unwrap().commit(&mut slot);
    slot.mark_published(current, 2).unwrap();
    let failure = slot.record_recovery(report(transaction(6))).unwrap_err();
    assert_eq!(
        failure.error,
        ReadCoordinatorError::WrongTransaction { expected: current, actual: transaction(6) }
    );
    assert_eq!(failure.report.transaction, transaction(6));
    let fault = ReadRecoveryReport {
        transaction: current,
        cause: ReadRecoveryCause::RecheckFault {
            error: MmcReadRecheckError::Ack(MmcIrqAckError::UnknownPending(1 << 20)),
            polls_completed: 1,
            remaining: 1,
        },
        partial_mmc_interrupts: 1 << 6,
        drained: DrainedReadIrqs { mmc: false, dma: false },
        claimed: None,
    };
    slot.record_recovery(fault).unwrap_or_else(|_| panic!("report rejected"));
    let snapshot = slot.snapshot().unwrap();
    assert_eq!(snapshot.phase, ReadCoordinatorPhase::RecoveryRecorded);
    assert_eq!(snapshot.partial_mmc_interrupts, Some(1 << 6));
    assert_eq!(slot.release(current), Err(ReadCoordinatorError::RecoveryMustBeTaken));
    let recovered = slot.take_recovery(current).unwrap();
    assert_eq!(recovered.transaction, current);
    assert_eq!(slot.state(), DiagnosticSlotState::Empty);
    slot.reserve(transaction(7)).unwrap().commit(&mut slot);
}

#[test]
fn service_guard_keeps_slot_busy_and_drop_restores_live_token() {
    let mut slot = ReadCoordinatorSlot::new();
    let current = transaction(8);
    slot.reserve(current).unwrap().commit(&mut slot);
    slot.mark_published(current, 2).unwrap();
    slot.record_recheck(BoundedMmcReadRecheck::new(current, 2).unwrap())
        .unwrap_or_else(|_| panic!("recheck rejected"));
    let service = slot.service_recheck(current).unwrap();
    assert_eq!(service.transaction(), current);
    assert_eq!(slot.state(), DiagnosticSlotState::Servicing);
    assert_eq!(slot.snapshot(), Err(ReadCoordinatorError::Slot(SlotError::Busy)));
    assert!(matches!(
        slot.service_recheck(current),
        Err(ReadCoordinatorError::Slot(SlotError::Busy))
    ));
    service.restore(&mut slot);
    assert_eq!(slot.snapshot().unwrap().phase, ReadCoordinatorPhase::Rechecking);
}

#[test]
fn recheck_steps_reach_terminal_and_completion_finalizes() {
    let mut slot = ReadCoordinatorSlot::new();
    let current = transaction(9);
    slot.reserve(current).unwrap().commit(&mut slot);
    slot.mark_published(current, 3).unwrap();
    let recheck = BoundedMmcReadRecheck::new(current, 3).unwrap();
    slot.record_recheck(recheck).unwrap_or_else(|_| panic!("recheck rejected"));
    let first = recheck.polled();
    assert_eq!(
        slot.service_recheck(current).unwrap().step(
            &mut slot,
            first,
            Ok(BoundedMmcReadRecheckStep::Pending)
        ),
        Ok(ReadCoordinatorStepProgress::Pending {
            transaction: current,
            remaining: 2,
            polls_completed: 1,
        })
    );
    let second = first.polled();
    assert_eq!(
        slot.service_recheck(current).unwrap().step(
            &mut slot,
            second,
            Ok(BoundedMmcReadRecheckStep::Terminal)
        ),
        Ok(ReadCoordinatorStepProgress::Terminal { transaction: current, polls_completed: 2 })
    );
    assert_eq!(slot.snapshot().unwrap().polls_completed, Some(2));
    let terminal = slot.service_terminal(current).unwrap();
    assert_eq!(
        terminal.claim_pair(&mut slot, transaction(10)),
        Err(ReadTerminalClaimError::WrongTransaction {
            expected: current,
            actual: transaction(10),
        })
    );
    assert_eq!(slot.snapshot().unwrap().phase, ReadCoordinatorPhase::Terminal);
    slot.service_terminal(current).unwrap().claim_pair(&mut slot, current).unwrap();
    assert_eq!(slot.release(current), Err(ReadCoordinatorError::CompletionMustBeFinalized));
    let partial = ReadCompletionEvidence {
        command_response_validated: true,
        data_finished: true,
        dma_finished: false,
    };
    let failure = slot
        .service_claimed_completion(current)
        .unwrap()
        .finalize(
            &mut slot,
            ClaimedReadCompletionEvidence {
                transaction: current,
                dma_transaction: current,
                evidence: partial,
            },
        )
        .unwrap_err();
    assert_eq!(failure.error, ReadCoordinatorError::InvalidCompletionEvidence(partial));
    let complete = ReadCompletionEvidence { dma_finished: true, ..partial };
    slot.service_claimed_completion(current)
        .unwrap()
        .finalize(
            &mut slot,
            ClaimedReadCompletionEvidence {
                transaction: current,
                dma_transaction: current,
                evidence: complete,
            },
        )
        .unwrap();
    assert_eq!(slot.snapshot().unwrap().phase, ReadCoordinatorPhase::CompletionFinalized);
    assert_eq!(slot.release(current), Ok(()));
}

#[test]
fn timeout_and_fault_steps_make_recovery_pending() {
    let mut slot = ReadCoordinatorSlot::new();
    let current = transaction(11);
    slot.reserve(current).unwrap().commit(&mut slot);
    slot.mark_published(current, 1).unwrap();
    let recheck = BoundedMmcReadRecheck::new(current, 1).unwrap();
    slot.record_recheck(recheck).unwrap_or_else(|_| panic!("recheck rejected"));
    let binding = BoundedMmcReadRecheckError::Binding(Some(transaction(12)));
    let failure = slot
        .service_recheck(current)
        .unwrap()
        .step(&mut slot, recheck, Err(binding))
        .unwrap_err();
    assert_eq!(failure.error, binding);
    assert_eq!(slot.snapshot().unwrap().remaining, Some(1));
    let fault = MmcReadRecheckError::Ack(MmcIrqAckError::UnknownPending(1 << 20));
    let cause = ReadRecoveryCause::RecheckFault { error: fault, polls_completed: 1, remaining: 0 };
    assert_eq!(
        slot.service_recheck(current).unwrap().step(
            &mut slot,
            recheck.polled(),
            Err(BoundedMmcReadRecheckError::Recheck(fault))
        ),
        Ok(ReadCoordinatorStepProgress::RecoveryPending { transaction: current, cause })
    );
    assert_eq!(slot.release(current), Err(ReadCoordinatorError::RecoveryMustBeRecorded));
    let mismatch = slot.record_recovery(report(current)).unwrap_err();
    assert_eq!(
        mismatch.error,
        ReadCoordinatorError::RecoveryCauseMismatch {
            expected: cause,
            actual: ReadRecoveryCause::Timeout { polls_completed: 2 },
        }
    );
    let evidence = ClaimedReadRecoveryEvidence {
        transaction: current,
        dma_transaction: current,
        failure: ReadCompletionFailure::DataTimeout,
        mmc_interrupts: 1 << 9,
    };
    let refused = slot.service_recovery(current).unwrap().archive_claimed(&mut slot, evidence);
    assert_eq!(
        refused.unwrap_err().error,
        ReadCoordinatorError::RecoveryCauseMismatch {
            expected: cause,
            actual: ReadRecoveryCause::CompletionFailure(ReadCompletionFailure::DataTimeout),
        }
    );
    let recorded = ReadRecoveryReport { cause, ..report(current) };
    slot.record_recovery(recorded).unwrap_or_else(|_| panic!("matching report rejected"));
    assert_eq!(slot.take_recovery(current).unwrap().cause, cause);
    assert_eq!(slot.state(), DiagnosticSlotState::Empty);
}

#[test]
fn claimed_recovery_evidence_is_archived_with_its_failure() {
    let mut slot = ReadCoordinatorSlot::new();
    let current = transaction(13);
    slot.reserve(current).unwrap().commit(&mut slot);
    slot.mark_published(current, 1).unwrap();
    let recheck = BoundedMmcReadRecheck::new(current, 1).unwrap();
    slot.record_recheck(recheck).unwrap_or_else(|_| panic!("recheck rejected"));
    slot.service_recheck(current)
        .unwrap()
        .step(&mut slot, recheck.polled(), Ok(BoundedMmcReadRecheckStep::Terminal))
        .unwrap();
    slot.service_terminal(current).unwrap().claim_pair(&mut slot, current).unwrap();
    let cause = slot
        .service_claimed_completion(current)
        .unwrap()
        .record_failure(&mut slot, ReadCompletionFailure::ReceiveCrc);
    assert_eq!(cause, ReadRecoveryCause::CompletionFailure(ReadCompletionFailure::ReceiveCrc));
    let evidence = ClaimedReadRecoveryEvidence {
        transaction: current,
        dma_transaction: current,
        failure: ReadCompletionFailure::ReceiveCrc,
        mmc_interrupts: 1 << 7,
    };
    slot.service_recovery(current).unwrap().archive_claimed(&mut slot, evidence).unwrap();
    let snapshot = slot.snapshot().unwrap();
    assert_eq!(snapshot.partial_mmc_interrupts, Some(1 << 7));
    assert!(snapshot.has_mmc_receipt && snapshot.has_dma_receipt);
    assert_eq!(slot.take_recovery(current).unwrap().claimed, Some(evidence));
}

#[test]
fn zero_ids_budgets_and_recheck_budgets_are_refused() {
    assert_eq!(ReadTransactionId::new(0), None);
    assert_eq!(transaction(7).get(), 7);
    assert!(BoundedMmcReadRecheck::new(transaction(1), 0).is_none());
    let mut slot = ReadCoordinatorSlot::new();
    assert_eq!(slot.snapshot(), Err(ReadCoordinatorError::Slot(SlotError::Empty)));
    assert_eq!(
        slot.mark_published(transaction(1), 0),
        Err(ReadCoordinatorError::InvalidPollBudget)
    );
}
