//! Loongson 2K1000 LIOINTC external interrupt entry.
//!
//! LIOINTC routes to core0/HWI0. No device handler is attached here: a claimed
//! interrupt is dispatched, then completed when it is in range.
use vstd::prelude::*;

use crate::platform::DriverError;

verus! {

/// Fixed LIOINTC base of the 2K1000 device tree.
pub const LIOINTC_MAIN_BASE: usize = 0x1fe0_1400;

/// Base of the core0 interrupt status (ISR0) registers.
pub const LIOINTC_ISR0_BASE: usize = 0x1fe0_1540;

/// Number of sources the controller can report.
pub const MAX_IRQS: u32 = 64;

/// Trigger mode of one LIOINTC source.
#[derive(Debug, Clone, Copy, PartialEq, Eq, Structural)]
pub enum Trigger {
    EdgeRising,
    EdgeFalling,
    LevelHigh,
    LevelLow,
}

/// Claim and completion of one controller interrupt.
pub trait ClaimComplete {
    fn claim(&self) -> Option<u32>;

    fn complete(&self, irq: u32);
}

/// Handle one claimed interrupt; returns whether it should be completed.
pub fn dispatch_claimed_irq(irq: u32) -> (complete: bool)
    ensures
        complete == (irq < MAX_IRQS),
{
    irq < MAX_IRQS
}

/// What one claim leads to: whether a source was pending, and the source
/// to complete, which is the claimed one when it is in range.
pub fn claim_outcome(claimed: Option<u32>) -> (outcome: (bool, Option<u32>))
    ensures
        outcome.0 == claimed is Some,
        outcome.1 == match claimed {
            Some(irq) => if irq < MAX_IRQS {
                Some(irq)
            } else {
                None
            },
            None => None,
        },
{
    match claimed {
        None => (false, None),
        Some(irq) => if dispatch_claimed_irq(irq) {
            (true, Some(irq))
        } else {
            (true, None)
        },
    }
}

/// Handle one machine external interrupt: claim, dispatch, complete.
/// Reports whether a source was pending; what each claim leads to is
/// `claim_outcome`.
pub fn handle_external_interrupt<C: ClaimComplete>(controller: &C) -> (result: Result<bool, DriverError>)
    ensures
        result is Ok,
{
    let (pending, complete) = claim_outcome(controller.claim());
    match complete {
        Some(irq) => controller.complete(irq),
        None => {},
    }
    Ok(pending)
}

} // verus!
