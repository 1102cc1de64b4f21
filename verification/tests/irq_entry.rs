use ls2k1000la::irq_entry::{resolve_parent_line, ParentLineBinding, ParentLineError};
use ls2k1000la::platform::MmioRegion;
use ls2k1000la::topology::{BoardTopology, InterruptControllerDescription, InterruptSpec};

fn controller(base: usize, line: u32) -> InterruptControllerDescription {
    InterruptControllerDescription {
        phandle: Some(base as u32),
        main_mmio: MmioRegion { base, size: 0x40 },
        core_isr: vec![MmioRegion { base: base - 0x400, size: 8 }],
        interrupt_cells: 2,
        parent_interrupts: [Some(InterruptSpec { parent_phandle: 99, cells: [line, 0, 0, 0], cell_count: 1 }), None, None, None],
        parent_source_maps: [0, 0, 0, 0],
    }
}

fn topology(controllers: Vec<InterruptControllerDescription>) -> BoardTopology {
    BoardTopology { uarts: vec![], interrupt_controllers: controllers, mmc_hosts: vec![], dma_controllers: vec![], networks: vec![] }
}

#[test]
fn parent_line_bank_is_stable_across_discovery_order() {
    let low = controller(0x1fe0_1400, 2);
    let high = controller(0x1fe0_1440, 3);
    let expected = ParentLineBinding { bank: 1, main_mmio: 0x1fe0_1440 };
    assert_eq!(resolve_parent_line(&topology(vec![low.clone(), high.clone()]), 3), Ok(expected));
    assert_eq!(resolve_parent_line(&topology(vec![high, low]), 3), Ok(expected));
}

#[test]
fn rejects_missing_ambiguous_and_invalid_parent_lines() {
    assert_eq!(resolve_parent_line(&topology(vec![controller(0x1000, 2)]), 3), Err(ParentLineError::MissingController));
    assert_eq!(
        resolve_parent_line(&topology(vec![controller(0x1000, 2), controller(0x1040, 2)]), 2),
        Err(ParentLineError::AmbiguousController)
    );
    assert_eq!(resolve_parent_line(&topology(vec![]), 8), Err(ParentLineError::InvalidLine));
}

#[test]
fn duplicate_mmio_and_excess_banks_are_refused() {
    assert_eq!(
        resolve_parent_line(&topology(vec![controller(0x1000, 2), controller(0x1000, 3)]), 2),
        Err(ParentLineError::DuplicateMmio)
    );
    assert_eq!(
        resolve_parent_line(&topology(vec![controller(0x1000, 1), controller(0x1040, 2), controller(0x1080, 3)]), 2),
        Err(ParentLineError::TooManyBanks)
    );
    assert_eq!(
        resolve_parent_line(&topology(vec![controller(0x1040, 2)]), 2),
        Ok(ParentLineBinding { bank: 0, main_mmio: 0x1040 })
    );
}
