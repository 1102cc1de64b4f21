use std::cell::Cell;

use ls2k1000la::liointc::{claim_outcome, dispatch_claimed_irq, handle_external_interrupt, ClaimComplete, MAX_IRQS};

struct MockController {
    pending: Cell<Option<u32>>,
    completed: Cell<Option<u32>>,
}

impl ClaimComplete for MockController {
    fn claim(&self) -> Option<u32> {
        self.pending.replace(None)
    }
    fn complete(&self, irq: u32) {
        self.completed.set(Some(irq));
    }
}

#[test]
fn claim_dispatch_complete_roundtrip() {
    let controller = MockController { pending: Cell::new(Some(7)), completed: Cell::new(None) };
    assert_eq!(handle_external_interrupt(&controller), Ok(true));
    assert_eq!(controller.completed.get(), Some(7));
}

#[test]
fn empty_claim_reports_no_pending_source() {
    let controller = MockController { pending: Cell::new(None), completed: Cell::new(None) };
    assert_eq!(handle_external_interrupt(&controller), Ok(false));
    assert_eq!(controller.completed.get(), None);
}

#[test]
fn out_of_range_irq_is_not_completed() {
    assert!(!dispatch_claimed_irq(MAX_IRQS));
    assert!(dispatch_claimed_irq(0));
}

#[test]
fn claimed_out_of_range_source_is_reported_but_not_completed() {
    let controller = MockController { pending: Cell::new(Some(MAX_IRQS)), completed: Cell::new(None) };
    assert_eq!(handle_external_interrupt(&controller), Ok(true));
    assert_eq!(controller.completed.get(), None);
    assert!(dispatch_claimed_irq(MAX_IRQS - 1));
}

#[test]
fn claim_outcome_completes_only_in_range_sources() {
    assert_eq!(claim_outcome(None), (false, None));
    assert_eq!(claim_outcome(Some(7)), (true, Some(7)));
    assert_eq!(claim_outcome(Some(64)), (true, None));
}
