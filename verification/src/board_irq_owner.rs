//! Concrete board-level IRQ owner variants.
//!
//! MMC can produce rearm evidence from its documented W1C status register.
//! APBDMA remains deliberately one-shot/keep-masked until its device-side IRQ
//! clear semantics are known.
use vstd::prelude::*;

use crate::irq_domain::{AcknowledgedIrq, GlobalIrq, IrqDisposition};
use crate::irq_owner::IrqOwner;
use crate::mmc::{acknowledge_interrupt, MmcIrqAckError, RegisterIo};

verus! {

/// Count after one more handled interrupt, saturating at the maximum.
pub open spec fn bumped(count: u64) -> u64 {
    if count == u64::MAX {
        u64::MAX
    } else {
        (count + 1) as u64
    }
}

pub struct MmcCommandOwner<R> {
    expected_irq: GlobalIrq,
    registers: R,
    handled: u64,
    last_error: Option<MmcIrqAckError>,
}

impl<R> MmcCommandOwner<R> {
    /// Interrupt this owner acknowledges.
    pub closed spec fn expected(self) -> GlobalIrq {
        self.expected_irq
    }

    /// Number of interrupts handed to the owner.
    pub closed spec fn handled_count(self) -> u64 {
        self.handled
    }

    /// Error of the most recent acknowledgement, if it failed.
    pub closed spec fn recent_error(self) -> Option<MmcIrqAckError> {
        self.last_error
    }

    /// The register backend owned by the handler.
    pub closed spec fn backend(self) -> R {
        self.registers
    }

    pub fn new(expected_irq: GlobalIrq, registers: R) -> (owner: Self)
        ensures
            owner.expected() == expected_irq,
            owner.backend() == registers,
            owner.handled_count() == 0,
            owner.recent_error() is None,
    {
        Self { expected_irq, registers, handled: 0, last_error: None }
    }

    pub fn handled(&self) -> (r: u64)
        ensures
            r == self.handled_count(),
    {
        self.handled
    }

    pub fn last_error(&self) -> (r: Option<MmcIrqAckError>)
        ensures
            r == self.recent_error(),
    {
        self.last_error
    }

    pub fn registers(&self) -> (r: &R)
        ensures
            *r == self.backend(),
    {
        &self.registers
    }

    pub fn registers_mut(&mut self) -> (r: &mut R)
        ensures
            *r == old(self).backend(),
            final(self).backend() == *final(r),
            final(self).expected() == old(self).expected(),
            final(self).handled_count() == old(self).handled_count(),
            final(self).recent_error() == old(self).recent_error(),
    {
        &mut self.registers
    }

    pub fn into_registers(self) -> (r: R)
        ensures
            r == self.backend(),
    {
        self.registers
    }
}

impl<R: RegisterIo> IrqOwner for MmcCommandOwner<R> {
    fn handle(&mut self, acknowledged: AcknowledgedIrq) -> (disposition: IrqDisposition)
        ensures
            final(self).expected() == old(self).expected(),
            final(self).handled_count() == bumped(old(self).handled_count()),
            acknowledged@ != old(self).expected() ==> disposition == IrqDisposition::KeepMasked
                && final(self).recent_error() == Some(MmcIrqAckError::UnexpectedSource),
            match disposition {
                IrqDisposition::Rearm(evidence) => acknowledged@ == old(self).expected()
                    && evidence@ == old(self).expected() && final(self).recent_error() is None,
                IrqDisposition::KeepMasked => final(self).recent_error() is Some,
            },
    {
        self.handled = self.handled.saturating_add(1);
        match acknowledge_interrupt(&mut self.registers, self.expected_irq, acknowledged) {
            Ok(disposition) => {
                self.last_error = None;
                disposition
            },
            Err(failure) => {
                self.last_error = Some(failure.error);
                IrqDisposition::KeepMasked
            },
        }
    }
}

#[derive(Debug, Clone, Copy, PartialEq, Eq, Structural)]
pub enum DeferredApbDmaError {
    UnexpectedIrq,
    PendingNotConsumed,
}

/// Keeps the APBDMA source masked and retains the first acknowledged token
/// for the DMA session to consume.
#[derive(Debug, PartialEq, Eq)]
pub struct DeferredApbDmaOwner {
    expected_irq: GlobalIrq,
    handled: u64,
    pending: Option<AcknowledgedIrq>,
    last_error: Option<DeferredApbDmaError>,
}

impl DeferredApbDmaOwner {
    /// Interrupt this owner accepts.
    pub closed spec fn expected(self) -> GlobalIrq {
        self.expected_irq
    }

    /// Number of interrupts handed to the owner.
    pub closed spec fn handled_count(self) -> u64 {
        self.handled
    }

    /// The retained acknowledged interrupt, if any.
    pub closed spec fn retained(self) -> Option<GlobalIrq> {
        match self.pending {
            Some(token) => Some(token@),
            None => None,
        }
    }

    /// Error of the most recent interrupt, if it was refused.
    pub closed spec fn recent_error(self) -> Option<DeferredApbDmaError> {
        self.last_error
    }

    pub fn new(expected_irq: GlobalIrq) -> (owner: Self)
        ensures
            owner.expected() == expected_irq,
            owner.handled_count() == 0,
            owner.retained() is None,
            owner.recent_error() is None,
    {
        Self { expected_irq, handled: 0, pending: None, last_error: None }
    }

    pub fn handled(&self) -> (r: u64)
        ensures
            r == self.handled_count(),
    {
        self.handled
    }

    pub fn pending_irq(&self) -> (r: Option<GlobalIrq>)
        ensures
            r == self.retained(),
    {
        match &self.pending {
            Some(token) => Some(token.irq()),
            None => None,
        }
    }

    pub fn last_error(&self) -> (r: Option<DeferredApbDmaError>)
        ensures
            r == self.recent_error(),
    {
        self.last_error
    }

    /// Take the one acknowledged IRQ token retained for the DMA session.
    ///
    /// The source remains masked. Consuming this token does not prove any
    /// descriptor status meaning or permit rearming the interrupt.
    pub fn take_acknowledged(&mut self) -> (token: Option<AcknowledgedIrq>)
        ensures
            match old(self).retained() {
                Some(irq) => token matches Some(t) && t@ == irq,
                None => token is None,
            },
            final(self).retained() is None,
            final(self).expected() == old(self).expected(),
            final(self).handled_count() == old(self).handled_count(),
            final(self).recent_error() == old(self).recent_error(),
    {
        self.pending.take()
    }
}

impl IrqOwner for DeferredApbDmaOwner {
    fn handle(&mut self, acknowledged: AcknowledgedIrq) -> (disposition: IrqDisposition)
        ensures
            disposition == IrqDisposition::KeepMasked,
            final(self).expected() == old(self).expected(),
            final(self).handled_count() == bumped(old(self).handled_count()),
            if acknowledged@ != old(self).expected() {
                final(self).recent_error() == Some(DeferredApbDmaError::UnexpectedIrq)
                    && final(self).retained() == old(self).retained()
            } else if old(self).retained() is Some {
                final(self).recent_error() == Some(DeferredApbDmaError::PendingNotConsumed)
                    && final(self).retained() == old(self).retained()
            } else {
                final(self).recent_error() is None && final(self).retained() == Some(
                    acknowledged@,
                )
            },
    {
        self.handled = self.handled.saturating_add(1);
        if acknowledged.irq() != self.expected_irq {
            self.last_error = Some(DeferredApbDmaError::UnexpectedIrq);
        } else if self.pending.is_some() {
            self.last_error = Some(DeferredApbDmaError::PendingNotConsumed);
        } else {
            self.pending = Some(acknowledged);
            self.last_error = None;
        }
        IrqDisposition::KeepMasked
    }
}

/// The interrupt owners this board registers.
pub enum BoardIrqOwner<R> {
    MmcCommand(MmcCommandOwner<R>),
    ApbDmaDeferred(DeferredApbDmaOwner),
}

impl<R: RegisterIo> IrqOwner for BoardIrqOwner<R> {
    fn handle(&mut self, acknowledged: AcknowledgedIrq) -> (disposition: IrqDisposition)
        ensures
            match (*old(self), *final(self)) {
                (BoardIrqOwner::MmcCommand(before), BoardIrqOwner::MmcCommand(after)) => {
                    &&& after.expected() == before.expected()
                    &&& after.handled_count() == bumped(before.handled_count())
                    &&& acknowledged@ != before.expected() ==> disposition
                        == IrqDisposition::KeepMasked && after.recent_error() == Some(
                        MmcIrqAckError::UnexpectedSource,
                    )
                    &&& match disposition {
                        IrqDisposition::Rearm(evidence) => acknowledged@ == before.expected()
                            && evidence@ == before.expected() && after.recent_error() is None,
                        IrqDisposition::KeepMasked => after.recent_error() is Some,
                    }
                },
                (BoardIrqOwner::ApbDmaDeferred(before), BoardIrqOwner::ApbDmaDeferred(after)) => {
                    &&& disposition == IrqDisposition::KeepMasked
                    &&& after.expected() == before.expected()
                    &&& after.handled_count() == bumped(before.handled_count())
                    &&& if acknowledged@ != before.expected() {
                        after.recent_error() == Some(DeferredApbDmaError::UnexpectedIrq)
                            && after.retained() == before.retained()
                    } else if before.retained() is Some {
                        after.recent_error() == Some(DeferredApbDmaError::PendingNotConsumed)
                            && after.retained() == before.retained()
                    } else {
                        after.recent_error() is None && after.retained() == Some(acknowledged@)
                    }
                },
                _ => false,
            },
    {
        match self {
            Self::MmcCommand(owner) => owner.handle(acknowledged),
            Self::ApbDmaDeferred(owner) => owner.handle(acknowledged),
        }
    }
}

} // verus!
