use ls2k1000la::irq_plan::{compile, ActivationPolicy, OwnerKind, OwnerPlanError, Route};
use ls2k1000la::platform::MmioRegion;
use ls2k1000la::topology::{
    BoardTopology, CardDetect, DmaControllerDescription, InterruptControllerDescription,
    InterruptSpec, MmcClockProvider, MmcDescription, NamedResource, ResourceSpecifier,
};

fn resource() -> NamedResource {
    NamedResource {
        name: None,
        specifier: ResourceSpecifier { provider_phandle: 50, args: vec![0] },
    }
}

fn controller(phandle: u32, base: usize) -> InterruptControllerDescription {
    InterruptControllerDescription {
        phandle: Some(phandle),
        main_mmio: MmioRegion { base, size: 0x40 },
        core_isr: vec![MmioRegion { base: base + 0x100, size: 8 }],
        interrupt_cells: 2,
        parent_interrupts: [None, None, None, None],
        parent_source_maps: [0; 4],
    }
}

fn topology() -> BoardTopology {
    let mut low = controller(10, 0x1000);
    low.parent_interrupts[0] =
        Some(InterruptSpec { parent_phandle: 99, cells: [2, 0, 0, 0], cell_count: 1 });
    low.parent_source_maps = [u32::MAX, 0, 0, 0];
    let mut high = controller(11, 0x1040);
    high.parent_interrupts[1] =
        Some(InterruptSpec { parent_phandle: 99, cells: [3, 0, 0, 0], cell_count: 1 });
    high.parent_source_maps = [0, u32::MAX, 0, 0];
    BoardTopology {
        uarts: vec![],
        interrupt_controllers: vec![high, low],
        mmc_hosts: vec![MmcDescription {
            controller_mmio: MmioRegion { base: 0x2000, size: 0x68 },
            auxiliary_mmio: Some(MmioRegion { base: 0x3000, size: 8 }),
            interrupt: InterruptSpec { parent_phandle: 10, cells: [31, 4, 0, 0], cell_count: 2 },
            clocks: vec![resource()],
            clock_provider: MmcClockProvider::Unsupported { phandle: 50 },
            dma: None,
            bus_width: 4,
            pinctrl: None,
            card_detect: CardDetect::NonRemovable,
            vmmc_supply: None,
            vqmmc_supply: None,
        }],
        dma_controllers: vec![DmaControllerDescription {
            phandle: 20,
            mmio: MmioRegion { base: 0x4000, size: 8 },
            interrupt: InterruptSpec { parent_phandle: 11, cells: [13, 4, 0, 0], cell_count: 2 },
            clock: resource(),
            channel_cells: 1,
        }],
        networks: vec![],
    }
}

#[test]
fn compiles_stable_routes_and_activation_policies() {
    let plan = compile(&topology()).unwrap();
    assert_eq!(plan.entries[0].kind, OwnerKind::MmcCommand);
    assert_eq!(plan.entries[0].binding.global_irq().raw(), 31);
    assert_eq!(plan.entries[0].route, Route { core_mask: 1, parent_line: 0 });
    assert_eq!(plan.entries[0].hardware_line, 2);
    assert_eq!(plan.entries[0].policy, ActivationPolicy::AckOnly);
    assert_eq!(plan.entries[1].kind, OwnerKind::ApbDmaDeferred);
    assert_eq!(plan.entries[1].binding.global_irq().raw(), 45);
    assert_eq!(plan.entries[1].route, Route { core_mask: 1, parent_line: 1 });
    assert_eq!(plan.entries[1].hardware_line, 3);
    assert_eq!(plan.entries[1].policy, ActivationPolicy::Deferred);
}

#[test]
fn rejects_missing_devices_and_duplicate_global_irq() {
    let mut board = topology();
    board.mmc_hosts.clear();
    assert_eq!(compile(&board), Err(OwnerPlanError::MissingOrDuplicateMmc));
    let mut board = topology();
    board.dma_controllers[0].interrupt = board.mmc_hosts[0].interrupt.clone();
    assert_eq!(compile(&board), Err(OwnerPlanError::DuplicateIrq));
}

#[test]
fn routes_must_be_single_and_reach_a_valid_parent() {
    let mut board = topology();
    board.interrupt_controllers[1].parent_source_maps = [u32::MAX, u32::MAX, 0, 0];
    assert_eq!(compile(&board), Err(OwnerPlanError::AmbiguousRoute));
    let mut board = topology();
    board.interrupt_controllers[0].parent_source_maps = [0, 1 << 12, 0, 0];
    assert_eq!(compile(&board), Err(OwnerPlanError::MissingRoute));
    let mut board = topology();
    board.interrupt_controllers[0].parent_source_maps = [0, 0, u32::MAX, 0];
    assert_eq!(compile(&board), Err(OwnerPlanError::InvalidParent));
    let mut board = topology();
    board.mmc_hosts[0].clocks.clear();
    assert_eq!(compile(&board), Err(OwnerPlanError::InvalidMmcResources));
    let mut board = topology();
    board.interrupt_controllers.pop();
    assert_eq!(compile(&board), Err(OwnerPlanError::InvalidRuntimeLayout));
}
