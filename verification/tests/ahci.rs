use ls2k1000la::ahci::{diagnose, AhciBlocker, AhciHardwareEvidence, AhciSnapshot};
use ls2k1000la::platform::MmioRegion;

fn snapshot() -> AhciSnapshot {
    AhciSnapshot { abar: MmioRegion { base: 0x1fe8_0000, size: 0x1000 }, version: 0x0001_0300, ports_implemented: 1, irq: 42 }
}

#[test]
fn valid_snapshot_stays_deferred_without_board_evidence() {
    let plan = diagnose(snapshot());
    assert_eq!(plan.blockers, vec![AhciBlocker::DmaUnverified, AhciBlocker::HardwareEvidence]);
    assert!(!plan.can_activate());
    assert!(!plan.evidence_ready(AhciHardwareEvidence::default()));
    assert!(plan.evidence_ready(AhciHardwareEvidence { dma_verified: true, irq_verified: true, link_verified: true }));
}

#[test]
fn malformed_snapshot_reports_all_static_blockers() {
    let plan = diagnose(AhciSnapshot { abar: MmioRegion { base: 0x1002, size: 4 }, version: 0, ports_implemented: 0, irq: 0 });
    assert!(plan.blockers.contains(&AhciBlocker::InvalidAbar));
    assert!(plan.blockers.contains(&AhciBlocker::InvalidVersion));
    assert!(plan.blockers.contains(&AhciBlocker::NoImplementedPorts));
    assert!(plan.blockers.contains(&AhciBlocker::MissingIrq));
    assert!(!plan.evidence_ready(AhciHardwareEvidence { dma_verified: true, irq_verified: true, link_verified: true }));
}

#[test]
fn pre_ahci_version_is_rejected() {
    let plan = diagnose(AhciSnapshot { version: 0x0000_0905, ..snapshot() });
    assert_eq!(plan.blockers, vec![AhciBlocker::InvalidVersion, AhciBlocker::DmaUnverified, AhciBlocker::HardwareEvidence]);
}
