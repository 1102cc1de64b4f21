use ls2k1000la::irq_binding::{resolve, BindingError, InterruptBinding, IRQ_TYPE_LEVEL_HIGH};
use ls2k1000la::irq_domain::GlobalIrq;
use ls2k1000la::liointc::Trigger;
use ls2k1000la::platform::MmioRegion;
use ls2k1000la::topology::{BoardTopology, InterruptControllerDescription, InterruptSpec};

fn controller(phandle: u32, base: usize) -> InterruptControllerDescription {
    InterruptControllerDescription {
        phandle: Some(phandle),
        main_mmio: MmioRegion { base, size: 0x40 },
        core_isr: vec![MmioRegion { base: base - 0x400, size: 8 }],
        interrupt_cells: 2,
        parent_interrupts: [None, None, None, None],
        parent_source_maps: [u32::MAX, 0, 0, 0],
    }
}

fn topology(controllers: Vec<InterruptControllerDescription>) -> BoardTopology {
    BoardTopology { uarts: vec![], interrupt_controllers: controllers, mmc_hosts: vec![], dma_controllers: vec![], networks: vec![] }
}

fn spec(provider: u32, local: u32, trigger: u32) -> InterruptSpec {
    InterruptSpec { parent_phandle: provider, cells: [local, trigger, 0, 0], cell_count: 2 }
}

fn parts(binding: InterruptBinding) -> (u32, GlobalIrq, Trigger) {
    (binding.provider_phandle(), binding.global_irq(), binding.trigger())
}

#[test]
fn resolver_is_stable_across_controller_discovery_order() {
    let ordered = topology(vec![controller(10, 0x1fe0_1400), controller(11, 0x1fe0_1440)]);
    let reversed = topology(vec![controller(11, 0x1fe0_1440), controller(10, 0x1fe0_1400)]);
    let expected = (11, GlobalIrq::from_bank_local(1, 13).unwrap(), Trigger::LevelHigh);
    assert_eq!(resolve(&ordered, &spec(11, 13, IRQ_TYPE_LEVEL_HIGH)).map(parts), Ok(expected));
    assert_eq!(resolve(&reversed, &spec(11, 13, IRQ_TYPE_LEVEL_HIGH)).map(parts), Ok(expected));
}

#[test]
fn resolver_rejects_ambiguous_or_invalid_specs() {
    let valid = controller(10, 0x1fe0_1400);
    assert_eq!(resolve(&topology(vec![valid.clone()]), &spec(99, 1, 4)), Err(BindingError::MissingProvider));
    assert_eq!(resolve(&topology(vec![valid.clone(), valid.clone()]), &spec(10, 1, 4)), Err(BindingError::DuplicateProvider));
    let duplicate_mmio = controller(11, 0x1fe0_1400);
    assert_eq!(resolve(&topology(vec![valid.clone(), duplicate_mmio]), &spec(10, 1, 4)), Err(BindingError::DuplicateMmio));
    assert_eq!(resolve(&topology(vec![valid.clone()]), &spec(10, 32, 4)), Err(BindingError::InvalidCells));
    assert_eq!(resolve(&topology(vec![valid]), &spec(10, 1, 0)), Err(BindingError::InvalidTrigger));
}

#[test]
fn resolver_refuses_more_banks_than_the_domain_has() {
    let three = topology(vec![controller(10, 0x1000), controller(11, 0x2000), controller(12, 0x3000)]);
    assert_eq!(resolve(&three, &spec(10, 1, 4)), Err(BindingError::TooManyBanks));
    let mut anonymous = controller(12, 0x3000);
    anonymous.phandle = None;
    assert_eq!(
        resolve(&topology(vec![controller(10, 0x1000), anonymous]), &spec(10, 1, 4)),
        Err(BindingError::MissingProvider)
    );
}
