//! Read-only AHCI capability and activation contract for 2K1000LA bring-up.
//!
//! This module stops before controller MMIO, BAR sizing writes, DMA setup or
//! port start. It turns a firmware/PCI snapshot into explicit blockers.
use vstd::prelude::*;

use crate::platform::MmioRegion;

verus! {

#[derive(Debug, Clone, Copy, PartialEq, Eq, Structural)]
pub struct AhciSnapshot {
    pub abar: MmioRegion,
    pub version: u32,
    pub ports_implemented: u32,
    pub irq: u32,
}

#[derive(Debug, Clone, Copy, PartialEq, Eq, Structural)]
pub enum AhciBlocker {
    InvalidAbar,
    InvalidVersion,
    NoImplementedPorts,
    MissingIrq,
    DmaUnverified,
    HardwareEvidence,
}

#[derive(Debug, Clone, Copy, PartialEq, Eq, Structural)]
pub struct AhciHardwareEvidence {
    pub dma_verified: bool,
    pub irq_verified: bool,
    pub link_verified: bool,
}

impl Default for AhciHardwareEvidence {
    fn default() -> (evidence: Self)
        ensures
            !evidence.dma_verified && !evidence.irq_verified && !evidence.link_verified,
    {
        Self { dma_verified: false, irq_verified: false, link_verified: false }
    }
}

#[derive(Debug, Clone, PartialEq, Eq)]
pub struct AhciActivationPlan {
    pub snapshot: AhciSnapshot,
    pub blockers: Vec<AhciBlocker>,
}

/// Blockers of a snapshot: each defect in a fixed order, then the two that
/// only board evidence can lift.
pub open spec fn ahci_blockers(snapshot: AhciSnapshot) -> Seq<AhciBlocker> {
    (if snapshot.abar.base == 0 || snapshot.abar.base % 0x1000 != 0 || snapshot.abar.size < 0x100 {
        seq![AhciBlocker::InvalidAbar]
    } else {
        Seq::empty()
    }) + (if snapshot.version == 0 || snapshot.version >> 16u32 == 0 {
        seq![AhciBlocker::InvalidVersion]
    } else {
        Seq::empty()
    }) + (if snapshot.ports_implemented == 0 {
        seq![AhciBlocker::NoImplementedPorts]
    } else {
        Seq::empty()
    }) + (if snapshot.irq == 0 {
        seq![AhciBlocker::MissingIrq]
    } else {
        Seq::empty()
    }) + seq![AhciBlocker::DmaUnverified, AhciBlocker::HardwareEvidence]
}

impl AhciActivationPlan {
    /// AHCI remains opt-in until a board-specific MMIO/DMA sequence is proven.
    pub fn can_activate(&self) -> (r: bool)
        ensures
            !r,
    {
        false
    }

    /// Only the two evidence blockers remain and the board evidence is complete.
    pub fn evidence_ready(&self, evidence: AhciHardwareEvidence) -> (r: bool)
        ensures
            r == (self.blockers@.len() == 2 && self.blockers@.contains(AhciBlocker::DmaUnverified)
                && self.blockers@.contains(AhciBlocker::HardwareEvidence) && evidence.dma_verified
                && evidence.irq_verified && evidence.link_verified),
    {
        self.blockers.len() == 2 && contains(&self.blockers, AhciBlocker::DmaUnverified) && contains(
            &self.blockers,
            AhciBlocker::HardwareEvidence,
        ) && evidence.dma_verified && evidence.irq_verified && evidence.link_verified
    }
}

fn contains(blockers: &Vec<AhciBlocker>, wanted: AhciBlocker) -> (r: bool)
    ensures
        r == blockers@.contains(wanted),
{
    let mut index: usize = 0;
    while index < blockers.len()
        invariant
            index <= blockers@.len(),
            forall|i: int| 0 <= i < index ==> blockers@[i] != wanted,
        decreases blockers@.len() - index,
    {
        if blockers[index] == wanted {
            return true;
        }
        index = index + 1;
    }
    false
}

pub fn diagnose(snapshot: AhciSnapshot) -> (plan: AhciActivationPlan)
    ensures
        plan.snapshot == snapshot,
        plan.blockers@ == ahci_blockers(snapshot),
{
    let mut blockers: Vec<AhciBlocker> = Vec::new();
    if snapshot.abar.base == 0 || snapshot.abar.base % 0x1000 != 0 || snapshot.abar.size < 0x100 {
        blockers.push(AhciBlocker::InvalidAbar);
    }
    if snapshot.version == 0 || snapshot.version >> 16u32 == 0 {
        blockers.push(AhciBlocker::InvalidVersion);
    }
    if snapshot.ports_implemented == 0 {
        blockers.push(AhciBlocker::NoImplementedPorts);
    }
    if snapshot.irq == 0 {
        blockers.push(AhciBlocker::MissingIrq);
    }
    blockers.push(AhciBlocker::DmaUnverified);
    blockers.push(AhciBlocker::HardwareEvidence);
    AhciActivationPlan { snapshot, blockers }
}

} // verus!
