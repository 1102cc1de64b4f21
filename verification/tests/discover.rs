use ls2k1000la::device_tree::{DeviceTree, DtNode, DtProperty, DtRegion};
use ls2k1000la::gmac::{mac_address_from_node, DEFAULT_MAC_ADDRESS};
use ls2k1000la::platform::{DriverError, MmioRegion};
use ls2k1000la::topology::{
    discover, interrupt, interrupt_specs, mmc_card_detect, mmc_clock_provider, mmc_pinctrl,
    named_resources, parse_parent_routes, pci_function, regions, resource_specifiers,
    supply_description, CardDetect, FixedSupplyControl, GpioProvider, MmcClockProvider,
    NamedResource, PinctrlProvider, ResourceSpecifier, SupplyProvider,
};

fn cells(values: &[u32]) -> Vec<u8> {
    values.iter().flat_map(|value| value.to_be_bytes()).collect()
}

fn text(items: &[&str]) -> Vec<u8> {
    let mut bytes = Vec::new();
    for item in items {
        bytes.extend_from_slice(item.as_bytes());
        bytes.push(0);
    }
    bytes
}

fn prop(name: &str, value: Vec<u8>) -> DtProperty {
    DtProperty { name: String::from(name), value }
}

/// A node whose `reg` has two address and two size cells per window.
fn node(name: &str, mut properties: Vec<DtProperty>, windows: &[(u64, u64)], children: Vec<usize>) -> DtNode {
    let (reg, raw_reg) = if windows.is_empty() {
        (None, None)
    } else {
        let mut raw = Vec::new();
        for (base, size) in windows {
            raw.extend(cells(&[(*base >> 32) as u32, *base as u32, (*size >> 32) as u32, *size as u32]));
        }
        properties.push(prop("reg", raw));
        (
            Some(
                windows
                    .iter()
                    .map(|(base, size)| DtRegion { base: *base as usize, size: Some(*size as usize) })
                    .collect(),
            ),
            Some(windows.iter().map(|_| (8usize, 8usize)).collect()),
        )
    };
    DtNode { name: String::from(name), properties, reg, raw_reg, children }
}

const CPU_INTC: u32 = 10;
const LIOINTC0: u32 = 1;
const LIOINTC1: u32 = 2;
const CLOCKS: u32 = 20;
const REF_CLOCK: u32 = 21;
const DMA0: u32 = 30;

const UART: usize = 4;
const MMC: usize = 8;

fn board() -> DeviceTree {
    let nodes = vec![
        node("", Vec::new(), &[], vec![1, 2, 3, 4, 5, 6, 7, 8]),
        node(
            "interrupt-controller@1fe01400",
            vec![
                prop("compatible", text(&["loongson,liointc-2.0"])),
                prop("reg-names", text(&["main", "isr0", "isr1"])),
                prop("#interrupt-cells", cells(&[2])),
                prop("phandle", cells(&[LIOINTC0])),
                prop("interrupt-parent", cells(&[CPU_INTC])),
                prop("interrupts", cells(&[2])),
                prop("interrupt-names", text(&["int0"])),
                prop("loongson,parent_int_map", cells(&[u32::MAX, 0, 0, 0])),
            ],
            &[(0x1FE0_1400, 0x40), (0x1FE0_1040, 0x8), (0x1FE0_1140, 0x8)],
            Vec::new(),
        ),
        node(
            "interrupt-controller@1fe01440",
            vec![
                prop("compatible", text(&["loongson,liointc-2.0"])),
                prop("reg-names", text(&["main", "isr0", "isr1"])),
                prop("#interrupt-cells", cells(&[2])),
                prop("phandle", cells(&[LIOINTC1])),
                prop("interrupt-parent", cells(&[CPU_INTC])),
                prop("interrupts", cells(&[3])),
                prop("interrupt-names", text(&["int1"])),
                prop("loongson,parent_int_map", cells(&[0, u32::MAX, 0, 0])),
            ],
            &[(0x1FE0_1440, 0x40), (0x1FE0_1048, 0x8), (0x1FE0_1148, 0x8)],
            Vec::new(),
        ),
        node(
            "interrupt-controller",
            vec![
                prop("compatible", text(&["loongson,cpu-interrupt-controller"])),
                prop("#interrupt-cells", cells(&[1])),
                prop("phandle", cells(&[CPU_INTC])),
            ],
            &[],
            Vec::new(),
        ),
        node(
            "serial@1fe20000",
            vec![
                prop("compatible", text(&["ns16550a"])),
                prop("clock-frequency", cells(&[125_000_000])),
                prop("interrupt-parent", cells(&[LIOINTC0])),
                prop("interrupts", cells(&[0, 4])),
            ],
            &[(0x1FE2_0000, 0x10)],
            Vec::new(),
        ),
        node(
            "clock-controller@1fe00480",
            vec![
                prop("compatible", text(&["loongson,ls2k-clk"])),
                prop("#clock-cells", cells(&[1])),
                prop("clock-names", text(&["ref_100m"])),
                prop("clocks", cells(&[REF_CLOCK])),
                prop("phandle", cells(&[CLOCKS])),
            ],
            &[(0x1FE0_0480, 0x58)],
            Vec::new(),
        ),
        node(
            "clock-ref-100m",
            vec![
                prop("compatible", text(&["fixed-clock"])),
                prop("#clock-cells", cells(&[0])),
                prop("clock-frequency", cells(&[100_000_000])),
                prop("phandle", cells(&[REF_CLOCK])),
            ],
            &[],
            Vec::new(),
        ),
        node(
            "dma-controller@1fe00c00",
            vec![
                prop("compatible", text(&["loongson,ls2k1000-apbdma"])),
                prop("clocks", cells(&[CLOCKS, 12])),
                prop("#dma-cells", cells(&[1])),
                prop("phandle", cells(&[DMA0])),
                prop("interrupt-parent", cells(&[LIOINTC1])),
                prop("interrupts", cells(&[12, 4])),
            ],
            &[(0x1FE0_0C00, 0x8)],
            Vec::new(),
        ),
        node(
            "mmc@1fe2c000",
            vec![
                prop("compatible", text(&["loongson,ls2k1000-mmc"])),
                prop("clocks", cells(&[CLOCKS, 12])),
                prop("interrupt-parent", cells(&[LIOINTC0])),
                prop("interrupts", cells(&[31, 4])),
                prop("bus-width", cells(&[4])),
            ],
            &[(0x1FE2_C000, 0x1000), (0x1FE0_0438, 0x8)],
            Vec::new(),
        ),
    ];
    DeviceTree { nodes }
}

fn with_property(mut tree: DeviceTree, at: usize, property: DtProperty) -> DeviceTree {
    tree.nodes[at].properties.insert(0, property);
    tree
}

#[test]
fn discovers_the_reference_board() {
    let topology = discover(&board()).expect("discover valid topology");
    assert_eq!(topology.interrupt_controllers.len(), 2);
    assert_eq!(topology.uarts.len(), 1);
    assert_eq!(topology.mmc_hosts.len(), 1);
    assert_eq!(topology.dma_controllers.len(), 1);
    assert!(topology.networks.is_empty());
    let intc = &topology.interrupt_controllers[0];
    assert_eq!(intc.main_mmio.base, 0x1FE0_1400);
    assert_eq!(intc.core_isr.len(), 2);
    assert_eq!(intc.core_isr[0].base, 0x1FE0_1040);
    assert_eq!(intc.core_isr[1].base, 0x1FE0_1140);
    assert_eq!(intc.interrupt_cells, 2);
    assert_eq!(intc.parent_source_maps, [u32::MAX, 0, 0, 0]);
    assert_eq!(intc.parent_interrupts[0].as_ref().expect("int0").cells[0], 2);
    assert!(intc.parent_interrupts[1].is_none());
    let intc1 = &topology.interrupt_controllers[1];
    assert_eq!(intc1.parent_source_maps, [0, u32::MAX, 0, 0]);
    assert_eq!(intc1.parent_interrupts[1].as_ref().expect("int1").cells[0], 3);
    let uart = &topology.uarts[0];
    assert_eq!(uart.mmio.base, 0x1FE2_0000);
    assert_eq!(uart.clock_hz, 125_000_000);
    assert_eq!(uart.register_shift, 0);
    assert_eq!(&uart.interrupt.cells[..2], &[0, 4]);
    assert_eq!(uart.interrupt.parent_phandle, intc.phandle.expect("referenced LIOINTC phandle"));
    let mmc = &topology.mmc_hosts[0];
    assert_eq!(mmc.controller_mmio.base, 0x1FE2_C000);
    assert_eq!(mmc.auxiliary_mmio.expect("second MMC region").base, 0x1FE0_0438);
    assert_eq!(&mmc.interrupt.cells[..2], &[31, 4]);
    assert_eq!(mmc.bus_width, 4);
    assert_eq!(
        mmc.clock_provider,
        MmcClockProvider::Loongson2k {
            mmio: MmioRegion { base: 0x1FE0_0480, size: 0x58 },
            reference_hz: 100_000_000,
        }
    );
    assert!(mmc.dma.is_none());
    assert!(mmc.pinctrl.is_none());
    assert_eq!(mmc.card_detect, CardDetect::Native);
    assert!(mmc.vmmc_supply.is_none());
    let dma = &topology.dma_controllers[0];
    assert_eq!(dma.phandle, DMA0);
    assert_eq!(dma.mmio, MmioRegion { base: 0x1FE0_0C00, size: 8 });
    assert_eq!(dma.clock.specifier, ResourceSpecifier { provider_phandle: CLOCKS, args: vec![12] });
    assert_eq!(dma.interrupt.parent_phandle, LIOINTC1);
}

#[test]
fn disabled_uart_leaves_board_incomplete() {
    let tree = with_property(board(), UART, prop("status", text(&["disabled"])));
    assert_eq!(discover(&tree), Err(DriverError::NotFound));
}

#[test]
fn malformed_status_anywhere_is_invalid() {
    let tree = with_property(board(), 3, prop("status", text(&["sleepy"])));
    assert_eq!(discover(&tree), Err(DriverError::InvalidDtb));
}

#[test]
fn uart_without_clock_frequency_is_invalid() {
    let mut tree = board();
    tree.nodes[UART].properties.retain(|p| p.name != "clock-frequency");
    assert_eq!(discover(&tree), Err(DriverError::InvalidDtb));
}

#[test]
fn bad_bus_width_is_invalid() {
    let tree = with_property(board(), MMC, prop("bus-width", cells(&[2])));
    assert_eq!(discover(&tree), Err(DriverError::InvalidDtb));
}

#[test]
fn out_of_range_child_is_invalid() {
    let mut tree = board();
    tree.nodes[0].children.push(99);
    assert_eq!(discover(&tree), Err(DriverError::InvalidDtb));
}

#[test]
fn ethernet_at_pci_device_three_is_a_network() {
    let mut tree = board();
    let mut reg = cells(&[(0 << 16) | (3 << 11) | (0 << 8), 0, 0, 0, 0]);
    let ethernet = DtNode {
        name: String::from("ethernet@3,0"),
        properties: vec![
            prop("interrupt-parent", cells(&[LIOINTC0])),
            prop("interrupts", cells(&[12, 4, 13, 4])),
            prop("interrupt-names", text(&["macirq", "eth_lpi"])),
            prop("phy-mode", text(&["rgmii"])),
            prop("phy-handle", cells(&[77])),
            prop("reg", reg.clone()),
        ],
        reg: None,
        raw_reg: None,
        children: Vec::new(),
    };
    tree.nodes.push(ethernet);
    let topology = discover(&tree).expect("board with network");
    assert_eq!(topology.networks.len(), 1);
    let network = &topology.networks[0];
    assert_eq!((network.bus, network.device, network.function), (0, 3, 0));
    assert_eq!(network.interrupts.len(), 2);
    assert_eq!(network.interrupts[1].cells[..2], [13, 4]);
    assert_eq!(network.interrupt_names, vec![String::from("macirq"), String::from("eth_lpi")]);
    assert_eq!(network.phy_mode, Some(String::from("rgmii")));
    assert_eq!(network.phy_handle, Some(77));

    let last = tree.nodes.len() - 1;
    reg[2] = 0x20; // device 4
    tree.nodes[last].properties.retain(|p| p.name != "reg");
    tree.nodes[last].properties.push(prop("reg", reg));
    assert!(discover(&tree).expect("other PCI device ignored").networks.is_empty());
}

#[test]
fn regions_need_exact_cover_and_usable_windows() {
    let tree = board();
    assert_eq!(
        regions(&tree.nodes[MMC]),
        Ok(vec![MmioRegion { base: 0x1FE2_C000, size: 0x1000 }, MmioRegion { base: 0x1FE0_0438, size: 8 }])
    );
    let mut short = tree.nodes[MMC].clone();
    short.raw_reg = Some(vec![(8, 8)]);
    assert_eq!(regions(&short), Err(DriverError::InvalidDtb));
    let mut sizeless = tree.nodes[MMC].clone();
    sizeless.reg = Some(vec![DtRegion { base: 0x1000, size: None }]);
    assert_eq!(regions(&sizeless), Err(DriverError::InvalidDtb));
    let mut empty = tree.nodes[MMC].clone();
    empty.reg = Some(vec![DtRegion { base: 0x1000, size: Some(0) }]);
    assert_eq!(regions(&empty), Err(DriverError::InvalidDtb));
    assert_eq!(regions(&tree.nodes[3]), Err(DriverError::InvalidDtb));
}

#[test]
fn pci_function_decodes_the_first_address_cell() {
    let n = DtNode {
        name: String::from("ethernet@3,1"),
        properties: vec![prop("reg", cells(&[(2 << 16) | (3 << 11) | (1 << 8), 0, 0, 0, 0]))],
        reg: None,
        raw_reg: None,
        children: Vec::new(),
    };
    assert_eq!(pci_function(&n), Ok((2, 3, 1)));
    let short = DtNode { properties: vec![prop("reg", cells(&[0, 0]))], ..n.clone() };
    assert_eq!(pci_function(&short), Err(DriverError::InvalidDtb));
}

#[test]
fn interrupt_specifiers_follow_the_parent_cell_count() {
    let tree = board();
    let specs = interrupt_specs(&tree, UART).expect("uart interrupts");
    assert_eq!(specs.len(), 1);
    assert_eq!(specs[0].parent_phandle, LIOINTC0);
    assert_eq!(specs[0].cell_count, 2);
    assert_eq!(specs[0].cells, [0, 4, 0, 0]);
    assert_eq!(interrupt(&tree, UART), Ok(specs[0]));
    let odd = with_property(board(), UART, prop("interrupts", cells(&[0, 4, 1])));
    assert_eq!(interrupt_specs(&odd, UART), Err(DriverError::InvalidDtb));
    let two = with_property(board(), UART, prop("interrupts", cells(&[0, 4, 1, 4])));
    assert_eq!(interrupt_specs(&two, UART).map(|specs| specs.len()), Ok(2));
    assert_eq!(interrupt(&two, UART), Err(DriverError::InvalidDtb));
}

#[test]
fn parent_routes_must_partition_the_sources() {
    let tree = board();
    let (parents, maps) = parse_parent_routes(&tree, 1).expect("routes");
    assert_eq!(maps, [u32::MAX, 0, 0, 0]);
    assert_eq!(parents[0].expect("int0").cells[0], 2);
    let overlap = with_property(board(), 1, prop("loongson,parent_int_map", cells(&[u32::MAX, 1, 0, 0])));
    assert_eq!(parse_parent_routes(&overlap, 1), Err(DriverError::InvalidDtb));
    let gap = with_property(board(), 1, prop("loongson,parent_int_map", cells(&[0xffff, 0, 0, 0])));
    assert_eq!(parse_parent_routes(&gap, 1), Err(DriverError::InvalidDtb));
    let unnamed = with_property(board(), 1, prop("loongson,parent_int_map", cells(&[0xffff, 0xffff_0000, 0, 0])));
    assert_eq!(parse_parent_routes(&unnamed, 1), Err(DriverError::InvalidDtb));
    let bad_name = with_property(board(), 1, prop("interrupt-names", text(&["int9"])));
    assert_eq!(parse_parent_routes(&bad_name, 1), Err(DriverError::InvalidDtb));
}

#[test]
fn resource_specifiers_take_their_cell_counts_from_providers() {
    let tree = board();
    assert_eq!(
        resource_specifiers(&tree, MMC, "clocks", "#clock-cells"),
        Ok(vec![ResourceSpecifier { provider_phandle: CLOCKS, args: vec![12] }])
    );
    let two = with_property(board(), MMC, prop("clocks", cells(&[CLOCKS, 12, REF_CLOCK])));
    assert_eq!(
        resource_specifiers(&two, MMC, "clocks", "#clock-cells"),
        Ok(vec![
            ResourceSpecifier { provider_phandle: CLOCKS, args: vec![12] },
            ResourceSpecifier { provider_phandle: REF_CLOCK, args: Vec::new() },
        ])
    );
    let truncated = with_property(board(), MMC, prop("clocks", cells(&[CLOCKS])));
    assert_eq!(resource_specifiers(&truncated, MMC, "clocks", "#clock-cells"), Err(DriverError::InvalidDtb));
    let unknown = with_property(board(), MMC, prop("clocks", cells(&[99, 12])));
    assert_eq!(resource_specifiers(&unknown, MMC, "clocks", "#clock-cells"), Err(DriverError::InvalidDtb));
}

#[test]
fn named_resources_pair_names_with_specifiers() {
    let named = with_property(board(), MMC, prop("clock-names", text(&["ciu"])));
    assert_eq!(
        named_resources(&named, MMC, "clocks", "clock-names", "#clock-cells", false),
        Ok(vec![NamedResource {
            name: Some(String::from("ciu")),
            specifier: ResourceSpecifier { provider_phandle: CLOCKS, args: vec![12] },
        }])
    );
    let tree = board();
    assert_eq!(
        named_resources(&tree, MMC, "clocks", "clock-names", "#clock-cells", false).map(|list| list[0].name.clone()),
        Ok(None)
    );
    assert_eq!(
        named_resources(&tree, MMC, "clocks", "clock-names", "#clock-cells", true),
        Err(DriverError::InvalidDtb)
    );
    let mismatched = with_property(board(), MMC, prop("clock-names", text(&["a", "b"])));
    assert_eq!(
        named_resources(&mismatched, MMC, "clocks", "clock-names", "#clock-cells", false),
        Err(DriverError::InvalidDtb)
    );
}

#[test]
fn clock_provider_requires_the_reference_clock() {
    let tree = board();
    let clock = NamedResource { name: None, specifier: ResourceSpecifier { provider_phandle: CLOCKS, args: vec![12] } };
    assert!(matches!(mmc_clock_provider(&tree, &clock), Ok(MmcClockProvider::Loongson2k { .. })));
    let other_arg = NamedResource { name: None, specifier: ResourceSpecifier { provider_phandle: CLOCKS, args: vec![13] } };
    assert_eq!(mmc_clock_provider(&tree, &other_arg), Err(DriverError::InvalidDtb));
    let foreign = NamedResource { name: None, specifier: ResourceSpecifier { provider_phandle: REF_CLOCK, args: Vec::new() } };
    assert_eq!(mmc_clock_provider(&tree, &foreign), Ok(MmcClockProvider::Unsupported { phandle: REF_CLOCK }));
}

fn with_extra_nodes(mut tree: DeviceTree, extra: Vec<DtNode>) -> DeviceTree {
    tree.nodes.extend(extra);
    tree
}

#[test]
fn card_detect_variants() {
    let tree = board();
    assert_eq!(mmc_card_detect(&tree, MMC), Ok(CardDetect::Native));
    let fixed = with_property(board(), MMC, prop("non-removable", Vec::new()));
    assert_eq!(mmc_card_detect(&fixed, MMC), Ok(CardDetect::NonRemovable));
    let broken = with_property(board(), MMC, prop("broken-cd", Vec::new()));
    assert_eq!(mmc_card_detect(&broken, MMC), Ok(CardDetect::Broken));
    let both = with_property(fixed.clone(), MMC, prop("broken-cd", Vec::new()));
    assert_eq!(mmc_card_detect(&both, MMC), Err(DriverError::InvalidDtb));

    let gpio_controller = node(
        "gpio@1fe00500",
        vec![
            prop("compatible", text(&["loongson,ls2k1000-gpio", "loongson,ls2k-gpio"])),
            prop("#gpio-cells", cells(&[2])),
            prop("ngpios", cells(&[64])),
            prop("phandle", cells(&[40])),
        ],
        &[(0x1FE0_0500, 0x38)],
        Vec::new(),
    );
    let gpio_tree = with_property(
        with_extra_nodes(board(), vec![gpio_controller]),
        MMC,
        prop("cd-gpios", cells(&[40, 22, 1])),
    );
    match mmc_card_detect(&gpio_tree, MMC) {
        Ok(CardDetect::Gpio(line)) => {
            assert_eq!(line.pin, 22);
            assert!(line.active_low);
            assert_eq!(
                line.provider,
                GpioProvider::Loongson2k1000 { mmio: MmioRegion { base: 0x1FE0_0500, size: 0x38 }, ngpios: 64 }
            );
        },
        other => panic!("unexpected card detect {other:?}"),
    }
    let out_of_range = with_property(gpio_tree.clone(), MMC, prop("cd-gpios", cells(&[40, 64, 0])));
    assert_eq!(mmc_card_detect(&out_of_range, MMC), Err(DriverError::InvalidDtb));
}

#[test]
fn fixed_supplies_report_their_control() {
    let regulator = node(
        "regulator-vmmc",
        vec![
            prop("compatible", text(&["regulator-fixed"])),
            prop("regulator-always-on", Vec::new()),
            prop("phandle", cells(&[50])),
        ],
        &[],
        Vec::new(),
    );
    let tree = with_property(with_extra_nodes(board(), vec![regulator]), MMC, prop("vmmc-supply", cells(&[50])));
    let supply = supply_description(&tree, MMC, "vmmc-supply").expect("supply").expect("present");
    assert_eq!(supply.phandle, 50);
    assert_eq!(
        supply.provider,
        SupplyProvider::Fixed { control: FixedSupplyControl::Uncontrolled, always_on: true, boot_on: false }
    );
    assert_eq!(supply_description(&tree, MMC, "vqmmc-supply"), Ok(None));
    let gpio_controlled = with_property(tree.clone(), tree.nodes.len() - 1, prop("gpios", cells(&[40, 1, 0])));
    assert_eq!(
        supply_description(&gpio_controlled, MMC, "vmmc-supply").map(|s| s.map(|s| s.provider)),
        Ok(Some(SupplyProvider::Fixed { control: FixedSupplyControl::Gpio, always_on: true, boot_on: false }))
    );
    let dangling = with_property(board(), MMC, prop("vmmc-supply", cells(&[51])));
    assert_eq!(supply_description(&dangling, MMC, "vmmc-supply"), Err(DriverError::InvalidDtb));
}

fn pinctrl_board() -> DeviceTree {
    let base = board().nodes.len();
    let controller = node(
        "pinctrl@1fe00420",
        vec![prop("compatible", text(&["loongson,ls2k-pinctrl"]))],
        &[(0x1FE0_0420, 0x18)],
        vec![base + 1],
    );
    let state = node("sdio-default", vec![prop("phandle", cells(&[60]))], &[], vec![base + 2, base + 3]);
    let sdio = node(
        "sdio",
        vec![prop("groups", text(&["sdio"])), prop("function", text(&["sdio"]))],
        &[],
        Vec::new(),
    );
    let card_detect = node(
        "pwm2",
        vec![prop("groups", text(&["pwm2"])), prop("function", text(&["gpio"]))],
        &[],
        Vec::new(),
    );
    let tree = with_extra_nodes(board(), vec![controller, state, sdio, card_detect]);
    let tree = with_property(tree, MMC, prop("pinctrl-names", text(&["default"])));
    with_property(tree, MMC, prop("pinctrl-0", cells(&[60])))
}

#[test]
fn pinctrl_state_must_hold_sdio_and_card_detect() {
    let tree = pinctrl_board();
    let pinctrl = mmc_pinctrl(&tree, MMC).expect("pinctrl").expect("present");
    assert_eq!(pinctrl.state_phandle, 60);
    assert_eq!(pinctrl.provider, PinctrlProvider::Loongson2k { mmio: MmioRegion { base: 0x1FE0_0420, size: 0x18 } });
    assert_eq!(mmc_pinctrl(&board(), MMC), Ok(None));

    let mut missing_gpio = pinctrl_board();
    let state = missing_gpio.nodes.len() - 3;
    missing_gpio.nodes[state].children.pop();
    assert_eq!(mmc_pinctrl(&missing_gpio, MMC), Err(DriverError::InvalidDtb));

    let disabled = with_property(pinctrl_board(), board().nodes.len(), prop("status", text(&["disabled"])));
    assert_eq!(mmc_pinctrl(&disabled, MMC), Err(DriverError::InvalidDtb));

    let only_names = with_property(board(), MMC, prop("pinctrl-names", text(&["default"])));
    assert_eq!(mmc_pinctrl(&only_names, MMC), Err(DriverError::InvalidDtb));

    let mut unowned = pinctrl_board();
    let controller = board().nodes.len();
    unowned.nodes[controller].children.clear();
    assert_eq!(
        mmc_pinctrl(&unowned, MMC).map(|p| p.map(|p| p.provider)),
        Ok(Some(PinctrlProvider::Unsupported))
    );
    let pinctrl_topology = discover(&pinctrl_board()).expect("board with pinctrl");
    assert!(pinctrl_topology.mmc_hosts[0].pinctrl.is_some());
}

#[test]
fn station_address_prefers_local_then_generic_then_default() {
    let mac = |props: Vec<DtProperty>| DtNode {
        name: String::from("ethernet"),
        properties: props,
        reg: None,
        raw_reg: None,
        children: Vec::new(),
    };
    let local = vec![2, 0, 0, 0, 0, 1];
    let generic = vec![6, 0, 0, 0, 0, 2];
    assert_eq!(
        mac_address_from_node(&mac(vec![prop("local-mac-address", local.clone()), prop("mac-address", generic.clone())])),
        [2, 0, 0, 0, 0, 1]
    );
    assert_eq!(
        mac_address_from_node(&mac(vec![prop("local-mac-address", vec![0; 6]), prop("mac-address", generic)])),
        [6, 0, 0, 0, 0, 2]
    );
    assert_eq!(mac_address_from_node(&mac(vec![prop("mac-address", vec![1, 0, 0, 0, 0, 0])])), DEFAULT_MAC_ADDRESS);
    assert_eq!(mac_address_from_node(&mac(vec![prop("mac-address", vec![2, 0, 0])])), DEFAULT_MAC_ADDRESS);
}
