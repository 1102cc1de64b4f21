use ls2k1000la::apbdma::ExecutorError;
use ls2k1000la::apbdma_mmio::{executor_resources, order_offset, HIGH_OFFSET, LOW_OFFSET};
use ls2k1000la::irq_binding::resolve;
use ls2k1000la::platform::{access_in_window, window_usable, MmioRegion};
use ls2k1000la::topology::{
    BoardTopology, DmaControllerDescription, InterruptControllerDescription, InterruptSpec, NamedResource,
    ResourceSpecifier,
};

fn intc(phandle: u32, base: usize) -> InterruptControllerDescription {
    InterruptControllerDescription {
        phandle: Some(phandle),
        main_mmio: MmioRegion { base, size: 0x40 },
        core_isr: vec![MmioRegion { base: base - 0x3c0, size: 8 }],
        interrupt_cells: 2,
        parent_interrupts: [None, None, None, None],
        parent_source_maps: [u32::MAX, 0, 0, 0],
    }
}

#[test]
fn executor_resources_check_binding_before_window() {
    let topology = BoardTopology {
        uarts: Vec::new(),
        interrupt_controllers: vec![intc(1, 0x1FE0_1400), intc(2, 0x1FE0_1440)],
        mmc_hosts: Vec::new(),
        dma_controllers: Vec::new(),
        networks: Vec::new(),
    };
    let spec = InterruptSpec { parent_phandle: 2, cells: [13, 4, 0, 0], cell_count: 2 };
    let binding = resolve(&topology, &spec).expect("binding");
    let controller = DmaControllerDescription {
        phandle: 30,
        mmio: MmioRegion { base: 0x1FE0_0C00, size: 8 },
        interrupt: spec,
        clock: NamedResource { name: None, specifier: ResourceSpecifier { provider_phandle: 20, args: vec![12] } },
        channel_cells: 1,
    };
    let (window, irq) = executor_resources(&controller, binding).expect("resources");
    assert_eq!(window, controller.mmio);
    assert_eq!(irq.bank(), 1);
    assert_eq!(irq.local(), 13);

    let wide = DmaControllerDescription { mmio: MmioRegion { base: 0x1FE0_0C00, size: 16 }, ..controller.clone() };
    assert_eq!(executor_resources(&wide, binding), Err(ExecutorError::Register));
    let other_line = DmaControllerDescription {
        interrupt: InterruptSpec { parent_phandle: 2, cells: [14, 4, 0, 0], cell_count: 2 },
        mmio: MmioRegion { base: 0x1FE0_0C00, size: 16 },
        ..controller.clone()
    };
    assert_eq!(executor_resources(&other_line, binding), Err(ExecutorError::UnexpectedIrq));
    assert!(order_offset(LOW_OFFSET) && order_offset(HIGH_OFFSET) && !order_offset(8));
}

#[test]
fn register_windows_and_accesses_are_checked() {
    assert!(window_usable(MmioRegion { base: 0x1FE0_0480, size: 0x58 }, 8, 0x58));
    assert!(!window_usable(MmioRegion { base: 0x1FE0_0484, size: 0x58 }, 8, 0x58));
    assert!(!window_usable(MmioRegion { base: 0, size: 0x58 }, 8, 0x58));
    assert!(!window_usable(MmioRegion { base: 0x1FE0_0480, size: 0x50 }, 8, 0x58));
    assert!(access_in_window(0x58, 0x50, 8));
    assert!(!access_in_window(0x58, 0x54, 8));
    assert!(!access_in_window(0x58, 0x52, 4));
    assert!(!access_in_window(4, usize::MAX - 1, 4));
}
