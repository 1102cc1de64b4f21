//! Verified board-support logic for the Loongson 2K1000LA machine.
use vstd::prelude::*;

pub mod ahci;
pub mod apbdma;
pub mod apbdma_mmio;
pub mod board_irq_owner;
pub mod clock;
pub mod device_tree;
pub mod diagnostic_slot;
pub mod dma_memory;
pub mod irq_binding;
pub mod irq_domain;
pub mod irq_entry;
pub mod irq_owner;
pub mod irq_plan;
pub mod irq_runtime;
pub mod gmac;
pub mod gpio;
pub mod liointc;
pub mod mmc;
pub mod mmc_diagnostic;
pub mod mmc_prerequisite;
pub mod pci;
pub mod pinctrl;
pub mod platform;
pub mod read_coordinator;
pub mod rtc;
pub mod topology;
pub mod uart;

verus! {
} // verus!
