use std::sync::atomic::{AtomicU64, Ordering};

use ls2k1000la::irq_domain::{AcknowledgedIrq, DomainError, GlobalIrq, IrqDisposition, LioIntcDomain};

static VISITED: AtomicU64 = AtomicU64::new(0);

type Handler = fn(AcknowledgedIrq) -> IrqDisposition;

fn record(acknowledged: AcknowledgedIrq) -> IrqDisposition {
    VISITED.fetch_or(1u64 << acknowledged.irq().raw(), Ordering::Relaxed);
    IrqDisposition::KeepMasked
}

#[test]
fn maps_bank_local_boundaries() {
    let first = GlobalIrq::from_bank_local(0, 0).unwrap();
    let last = GlobalIrq::from_bank_local(1, 31).unwrap();
    assert_eq!((first.raw(), first.bank(), first.local()), (0, 0, 0));
    assert_eq!((last.raw(), last.bank(), last.local()), (63, 1, 31));
    assert_eq!(GlobalIrq::from_bank_local(2, 0), Err(DomainError::OutOfRange));
    assert_eq!(GlobalIrq::from_bank_local(0, 32), Err(DomainError::OutOfRange));
}

#[test]
fn dispatches_only_mask_ack_evidence_and_returns_unhandled_token() {
    VISITED.store(0, Ordering::Relaxed);
    let mut domain = LioIntcDomain::<Handler>::new(2).unwrap();
    domain.register(GlobalIrq::from_bank_local(1, 0).unwrap(), record).unwrap();
    let handled = AcknowledgedIrq::after_mask_ack(GlobalIrq::from_bank_local(1, 0).unwrap());
    assert_eq!(domain.dispatch(handled), Ok(IrqDisposition::KeepMasked));
    let missing_irq = GlobalIrq::from_bank_local(1, 7).unwrap();
    let failure = domain.dispatch(AcknowledgedIrq::after_mask_ack(missing_irq)).unwrap_err();
    assert_eq!(failure.error, DomainError::NotRegistered);
    assert_eq!(failure.acknowledged.irq(), missing_irq);
    assert_eq!(VISITED.load(Ordering::Relaxed), 1u64 << 32);
}

#[test]
fn rejects_duplicate_and_supports_unregister() {
    let irq = GlobalIrq::from_bank_local(0, 5).unwrap();
    let mut domain = LioIntcDomain::<Handler>::new(1).unwrap();
    domain.register(irq, record).unwrap();
    assert_eq!(domain.register(irq, record), Err(DomainError::AlreadyRegistered));
    assert!(domain.unregister(irq).is_ok());
    assert_eq!(domain.unregister(irq), Err(DomainError::NotRegistered));
}

#[test]
fn validates_active_bank_count() {
    assert!(matches!(LioIntcDomain::<Handler>::new(0), Err(DomainError::InvalidBankCount)));
    assert!(matches!(LioIntcDomain::<Handler>::new(3), Err(DomainError::InvalidBankCount)));
    let domain = LioIntcDomain::<Handler>::new(1).unwrap();
    let irq = GlobalIrq::from_bank_local(1, 0).unwrap();
    let failure = domain.dispatch(AcknowledgedIrq::after_mask_ack(irq)).unwrap_err();
    assert_eq!(failure.error, DomainError::OutOfRange);
    assert_eq!(failure.acknowledged.irq(), irq);
}

#[test]
fn reregistering_after_unregister_restores_dispatch() {
    let irq = GlobalIrq::from_bank_local(0, 9).unwrap();
    let mut domain = LioIntcDomain::<Handler>::new(1).unwrap();
    domain.register(irq, record).unwrap();
    assert!(domain.unregister(irq).is_ok());
    let failure = domain.dispatch(AcknowledgedIrq::after_mask_ack(irq)).unwrap_err();
    assert_eq!(failure.error, DomainError::NotRegistered);
    domain.register(irq, record).unwrap();
    assert_eq!(domain.dispatch(AcknowledgedIrq::after_mask_ack(irq)), Ok(IrqDisposition::KeepMasked));
}
