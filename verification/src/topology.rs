//! Board topology discovered from the device tree: plain descriptions of
//! every controller the board-support code may later drive.
use vstd::prelude::*;

use crate::device_tree::{
    be_u32_at, boolean_property, bytes_equal, find_phandle, has_compatible, interrupt_cells,
    interrupt_parent, node_enabled, node_phandle, optional_text, prop, prop_u32, read_be_u32,
    string_list, text_views, utf8_bytes, DeviceTree, DtNode, DtRegion,
};
use crate::platform::{DriverError, MmioRegion};

verus! {

pub const MAX_INTERRUPT_CELLS: usize = 4;

/// Most argument cells a resource specifier may carry.
pub const MAX_RESOURCE_CELLS: usize = 8;

#[derive(Debug, Clone, Copy, PartialEq, Eq)]
pub struct InterruptSpec {
    pub parent_phandle: u32,
    pub cells: [u32; 4],
    pub cell_count: u8,
}

#[derive(Debug, Clone, PartialEq, Eq)]
pub struct UartDescription {
    pub mmio: MmioRegion,
    pub interrupt: InterruptSpec,
    pub clock_hz: u32,
    pub register_shift: u32,
}

#[derive(Debug, Clone, PartialEq, Eq)]
pub struct InterruptControllerDescription {
    pub phandle: Option<u32>,
    pub main_mmio: MmioRegion,
    pub core_isr: Vec<MmioRegion>,
    pub interrupt_cells: u8,
    pub parent_interrupts: [Option<InterruptSpec>; 4],
    pub parent_source_maps: [u32; 4],
}

#[derive(Debug, Clone, PartialEq, Eq)]
pub struct MmcDescription {
    pub controller_mmio: MmioRegion,
    pub auxiliary_mmio: Option<MmioRegion>,
    pub interrupt: InterruptSpec,
    pub clocks: Vec<NamedResource>,
    pub clock_provider: MmcClockProvider,
    pub dma: Option<NamedResource>,
    pub bus_width: u8,
    pub pinctrl: Option<MmcPinctrlDescription>,
    pub card_detect: CardDetect,
    pub vmmc_supply: Option<SupplyDescription>,
    pub vqmmc_supply: Option<SupplyDescription>,
}

#[derive(Debug, Clone, Copy, PartialEq, Eq, Structural)]
pub struct MmcPinctrlDescription {
    pub state_phandle: u32,
    pub provider: PinctrlProvider,
}

#[derive(Debug, Clone, Copy, PartialEq, Eq, Structural)]
pub enum PinctrlProvider {
    /// The state selects `sdio -> sdio` and `pwm2 -> gpio`, as the Linux tree does.
    Loongson2k { mmio: MmioRegion },
    Unsupported,
}

#[derive(Debug, Clone, Copy, PartialEq, Eq, Structural)]
pub enum MmcClockProvider {
    /// Topology evidence only; register semantics are unverified on hardware.
    Loongson2k { mmio: MmioRegion, reference_hz: u32 },
    Unsupported { phandle: u32 },
}

#[derive(Debug, Clone, Copy, PartialEq, Eq, Structural)]
pub enum SupplyProvider {
    Fixed { control: FixedSupplyControl, always_on: bool, boot_on: bool },
    Unsupported,
}

#[derive(Debug, Clone, Copy, PartialEq, Eq, Structural)]
pub enum FixedSupplyControl {
    /// The fixed regulator has no enable GPIO.
    Uncontrolled,
    /// Control exists, but no rail-write path is implemented yet.
    Gpio,
}

#[derive(Debug, Clone, Copy, PartialEq, Eq, Structural)]
pub struct SupplyDescription {
    /// Provider identity does not prove the rail's live electrical state.
    pub phandle: u32,
    pub provider: SupplyProvider,
}

#[derive(Debug, Clone, PartialEq, Eq)]
pub struct DmaControllerDescription {
    pub phandle: u32,
    pub mmio: MmioRegion,
    pub interrupt: InterruptSpec,
    pub clock: NamedResource,
    pub channel_cells: u8,
}

#[derive(Debug, Clone, PartialEq, Eq)]
pub struct NetworkDescription {
    pub bus: u8,
    pub device: u8,
    pub function: u8,
    pub interrupts: Vec<InterruptSpec>,
    pub interrupt_names: Vec<String>,
    pub phy_mode: Option<String>,
    pub phy_handle: Option<u32>,
}

#[derive(Debug, Clone, PartialEq, Eq)]
pub struct ResourceSpecifier {
    pub provider_phandle: u32,
    pub args: Vec<u32>,
}

#[derive(Debug, Clone, PartialEq, Eq)]
pub struct NamedResource {
    pub name: Option<String>,
    pub specifier: ResourceSpecifier,
}

#[derive(Debug, Clone, PartialEq, Eq)]
pub enum CardDetect {
    Native,
    Gpio(GpioLineDescription),
    Broken,
    NonRemovable,
}

#[derive(Debug, Clone, Copy, PartialEq, Eq, Structural)]
pub enum GpioProvider {
    Loongson2k1000 { mmio: MmioRegion, ngpios: u8 },
    Unsupported { phandle: u32 },
}

#[derive(Debug, Clone, PartialEq, Eq)]
pub struct GpioLineDescription {
    pub specifier: ResourceSpecifier,
    pub provider: GpioProvider,
    pub pin: u8,
    pub active_low: bool,
}

#[derive(Debug, Clone, PartialEq, Eq)]
pub struct BoardTopology {
    pub uarts: Vec<UartDescription>,
    pub interrupt_controllers: Vec<InterruptControllerDescription>,
    pub mmc_hosts: Vec<MmcDescription>,
    pub dma_controllers: Vec<DmaControllerDescription>,
    pub networks: Vec<NetworkDescription>,
}

/// Coarse capability state exposed to bring-up diagnostics. Discovery is not
/// activation: MMC/DMA remain deferred until their hardware contracts are
/// verified on the target board.
#[derive(Debug, Clone, Copy, PartialEq, Eq, Structural)]
pub enum CapabilityState {
    Discovered,
    DeferredActivation,
    Unsupported,
}

#[derive(Debug, Clone, Copy, PartialEq, Eq, Structural)]
pub struct BoardCapabilitySnapshot {
    pub uart_count: usize,
    pub irq_controller_count: usize,
    pub mmc_count: usize,
    pub dma_controller_count: usize,
    pub uart: CapabilityState,
    pub irq: CapabilityState,
    pub mmc: CapabilityState,
    pub dma: CapabilityState,
    pub network: CapabilityState,
    pub input: CapabilityState,
}

/// A discovered capability stays deferred; an absent one is unsupported.
pub open spec fn deferred_state(count: nat) -> CapabilityState {
    if count == 0 {
        CapabilityState::Unsupported
    } else {
        CapabilityState::DeferredActivation
    }
}

/// Discovery is not activation: no capability state derived from a count
/// of discovered devices ever reads as activated.
pub proof fn lemma_discovery_is_not_activation(count: nat)
    ensures
        deferred_state(count) != CapabilityState::Discovered,
{
}

fn state_for(count: usize) -> (state: CapabilityState)
    ensures
        state == deferred_state(count as nat),
{
    if count == 0 {
        CapabilityState::Unsupported
    } else {
        CapabilityState::DeferredActivation
    }
}

impl BoardTopology {
    pub fn capability_snapshot(&self) -> (snapshot: BoardCapabilitySnapshot)
        ensures
            snapshot.uart_count == self.uarts@.len(),
            snapshot.irq_controller_count == self.interrupt_controllers@.len(),
            snapshot.mmc_count == self.mmc_hosts@.len(),
            snapshot.dma_controller_count == self.dma_controllers@.len(),
            snapshot.uart == deferred_state(self.uarts@.len()),
            snapshot.irq == deferred_state(self.interrupt_controllers@.len()),
            snapshot.mmc == deferred_state(self.mmc_hosts@.len()),
            snapshot.dma == deferred_state(self.dma_controllers@.len()),
            snapshot.network == deferred_state(self.networks@.len()),
            snapshot.input == CapabilityState::Unsupported,
    {
        BoardCapabilitySnapshot {
            uart_count: self.uarts.len(),
            irq_controller_count: self.interrupt_controllers.len(),
            mmc_count: self.mmc_hosts.len(),
            dma_controller_count: self.dma_controllers.len(),
            uart: state_for(self.uarts.len()),
            irq: state_for(self.interrupt_controllers.len()),
            mmc: state_for(self.mmc_hosts.len()),
            dma: state_for(self.dma_controllers.len()),
            network: state_for(self.networks.len()),
            input: CapabilityState::Unsupported,
        }
    }
}

/// Total byte length of the raw `reg` entries' address and size parts.
pub open spec fn raw_reg_total(entries: Seq<(usize, usize)>) -> int
    decreases entries.len(),
{
    if entries.len() == 0 {
        0
    } else {
        raw_reg_total(entries.drop_last()) + entries.last().0 + entries.last().1
    }
}

proof fn lemma_raw_reg_total_grows(entries: Seq<(usize, usize)>, i: int)
    requires
        0 <= i <= entries.len(),
    ensures
        raw_reg_total(entries.subrange(0, i)) <= raw_reg_total(entries),
    decreases entries.len() - i,
{
    if i < entries.len() {
        lemma_raw_reg_total_grows(entries, i + 1);
        assert(entries.subrange(0, i + 1).drop_last() =~= entries.subrange(0, i));
    } else {
        assert(entries.subrange(0, i) =~= entries);
    }
}

/// A decoded `reg` entry with a size, non-empty, that does not wrap.
pub open spec fn region_usable(region: DtRegion) -> bool {
    match region.size {
        Some(size) => size > 0 && region.base + size <= usize::MAX,
        None => false,
    }
}

/// The MMIO window of a usable `reg` entry.
pub open spec fn window(region: DtRegion) -> MmioRegion {
    MmioRegion {
        base: region.base,
        size: match region.size {
            Some(size) => size,
            None => 0,
        },
    }
}

/// The node's MMIO windows: its raw `reg` must be non-empty and exactly
/// covered by its entries, and every decoded entry usable.
pub open spec fn node_regions(node: DtNode) -> Option<Seq<MmioRegion>> {
    match (prop(node, "reg"@), node.raw_reg, node.reg) {
        (Some(raw), Some(raw_reg), Some(reg)) => if raw.len() > 0 && raw_reg_total(raw_reg@)
            == raw.len() && reg@.len() > 0 && forall|k: int|
            0 <= k < reg@.len() ==> region_usable(#[trigger] reg@[k]) {
            Some(reg@.map_values(|region: DtRegion| window(region)))
        } else {
            None
        },
        _ => None,
    }
}

/// Decodes the node's MMIO windows.
pub fn regions(node: &DtNode) -> (windows: Result<Vec<MmioRegion>, DriverError>)
    ensures
        match windows {
            Ok(list) => node_regions(*node) == Some(list@),
            Err(error) => error == DriverError::InvalidDtb && node_regions(*node) is None,
        },
{
    let raw = match node.property("reg") {
        Some(raw) => raw,
        None => return Err(DriverError::InvalidDtb),
    };
    let raw_reg = match &node.raw_reg {
        Some(entries) => entries,
        None => return Err(DriverError::InvalidDtb),
    };
    let raw_len: usize = raw.len();
    let mut total: usize = 0;
    let mut index: usize = 0;
    while index < raw_reg.len()
        invariant
            prop(*node, "reg"@) == Some(raw@),
            raw_len == raw@.len(),
            node.raw_reg == Some(*raw_reg),
            index <= raw_reg@.len(),
            total == raw_reg_total(raw_reg@.subrange(0, index as int)),
        decreases raw_reg@.len() - index,
    {
        proof {
            assert(raw_reg@.subrange(0, index + 1).drop_last() =~= raw_reg@.subrange(0, index as int));
            lemma_raw_reg_total_grows(raw_reg@, index + 1);
        }
        let (address_len, size_len) = raw_reg[index];
        if address_len > usize::MAX - total || size_len > usize::MAX - total - address_len {
            assert(raw_reg_total(raw_reg@.subrange(0, index + 1)) == total + address_len + size_len);
            assert(raw_reg_total(raw_reg@) > usize::MAX);
            return Err(DriverError::InvalidDtb);
        }
        total = total + address_len + size_len;
        index = index + 1;
    }
    assert(raw_reg@.subrange(0, index as int) =~= raw_reg@);
    if total != raw.len() {
        return Err(DriverError::InvalidDtb);
    }
    let parsed = match &node.reg {
        Some(entries) => entries,
        None => return Err(DriverError::InvalidDtb),
    };
    let mut windows: Vec<MmioRegion> = Vec::new();
    let mut at: usize = 0;
    while at < parsed.len()
        invariant
            prop(*node, "reg"@) == Some(raw@),
            node.reg == Some(*parsed),
            at <= parsed@.len(),
            windows@.len() == at,
            forall|k: int| 0 <= k < at ==> region_usable(#[trigger] parsed@[k]),
            forall|k: int| 0 <= k < at ==> #[trigger] windows@[k] == window(parsed@[k]),
        decreases parsed@.len() - at,
    {
        let entry = parsed[at];
        let size = match entry.size {
            Some(size) => size,
            None => return Err(DriverError::InvalidDtb),
        };
        if size == 0 || entry.base > usize::MAX - size {
            return Err(DriverError::InvalidDtb);
        }
        windows.push(MmioRegion { base: entry.base, size });
        at = at + 1;
    }
    if windows.len() == 0 || raw.len() == 0 {
        return Err(DriverError::InvalidDtb);
    }
    assert(windows@ =~= parsed@.map_values(|region: DtRegion| window(region)));
    Ok(windows)
}

/// Bus, device and function of a PCI child node, from the first cell of
/// its `reg`, which must be at least five cells long.
pub open spec fn pci_address(node: DtNode) -> Option<(u8, u8, u8)> {
    match prop(node, "reg"@) {
        Some(raw) => if raw.len() < 20 || raw.len() % 4 != 0 {
            None
        } else {
            let first = be_u32_at(raw, 0);
            Some(((first >> 16u32) as u8, ((first >> 11u32) & 0x1f) as u8, ((first >> 8u32) & 7) as u8))
        },
        None => None,
    }
}

/// Decodes a PCI child's bus, device and function.
pub fn pci_function(node: &DtNode) -> (address: Result<(u8, u8, u8), DriverError>)
    ensures
        match address {
            Ok(found) => pci_address(*node) == Some(found),
            Err(error) => error == DriverError::InvalidDtb && pci_address(*node) is None,
        },
{
    let raw = match node.property("reg") {
        Some(raw) => raw,
        None => return Err(DriverError::InvalidDtb),
    };
    if raw.len() < 20 || raw.len() % 4 != 0 {
        return Err(DriverError::InvalidDtb);
    }
    let first = match read_be_u32(raw, 0) {
        Some(first) => first,
        None => return Err(DriverError::InvalidDtb),
    };
    Ok(((first >> 16u32) as u8, ((first >> 11u32) & 0x1f) as u8, ((first >> 8u32) & 7) as u8))
}

/// Parent phandle, cell count and raw value behind node `i`'s interrupts:
/// the parent has a phandle and one to four cells per specifier, and the
/// non-empty `interrupts` value is a whole number of specifiers.
pub open spec fn interrupt_source(tree: DeviceTree, i: int) -> Option<(u32, usize, Seq<u8>)> {
    match interrupt_parent(tree, i) {
        None => None,
        Some(parent) => match (
            node_phandle(tree.nodes@[parent]),
            interrupt_cells(tree.nodes@[parent]),
            prop(tree.nodes@[i], "interrupts"@),
        ) {
            (Some(handle), Some(count), Some(raw)) => if 1 <= count <= MAX_INTERRUPT_CELLS
                && raw.len() > 0 && (raw.len() as int) % (count * 4) == 0 {
                Some((handle, count, raw))
            } else {
                None
            },
            _ => None,
        },
    }
}

/// `spec` is the specifier encoded by `chunk` under `handle`, with its
/// unused cells zero.
pub open spec fn encodes_interrupt(spec: InterruptSpec, handle: u32, count: usize, chunk: Seq<u8>) -> bool {
    &&& spec.parent_phandle == handle
    &&& spec.cell_count == count
    &&& forall|k: int|
        0 <= k < 4 ==> spec.cells[k] == (if k < count {
            be_u32_at(chunk, 4 * k)
        } else {
            0
        })
}

/// `specs` are node `i`'s interrupt specifiers, in order.
pub open spec fn interrupts_of(tree: DeviceTree, i: int, specs: Seq<InterruptSpec>) -> bool {
    match interrupt_source(tree, i) {
        Some((handle, count, raw)) => {
            let stride = count * 4;
            &&& specs.len() * stride == raw.len()
            &&& forall|c: int|
                0 <= c < specs.len() ==> encodes_interrupt(
                    #[trigger] specs[c],
                    handle,
                    count,
                    raw.subrange(c * stride, c * stride + stride),
                )
        },
        None => false,
    }
}

proof fn lemma_next_chunk_fits(used: int, stride: int, len: int)
    requires
        0 <= used < len,
        stride > 0,
        used % stride == 0,
        len % stride == 0,
    ensures
        used + stride <= len,
{
    assert(used + stride <= len) by (nonlinear_arith)
        requires
            0 <= used < len,
            stride > 0,
            used % stride == 0,
            len % stride == 0,
    ;
}

/// Decodes node `index`'s interrupt specifiers against its parent.
pub fn interrupt_specs(tree: &DeviceTree, index: usize) -> (specs: Result<Vec<InterruptSpec>, DriverError>)
    requires
        index < tree.nodes@.len(),
    ensures
        match specs {
            Ok(list) => interrupts_of(*tree, index as int, list@) && list@ == interrupt_list(
                *tree,
                index as int,
            ),
            Err(error) => error == DriverError::InvalidDtb && interrupt_source(*tree, index as int) is None,
        },
{
    let parent = match tree.interrupt_parent(index) {
        Some(parent) => parent,
        None => return Err(DriverError::InvalidDtb),
    };
    let parent_phandle = match tree.nodes[parent].phandle() {
        Some(handle) => handle,
        None => return Err(DriverError::InvalidDtb),
    };
    let cell_count = match tree.nodes[parent].interrupt_cells() {
        Some(count) => count,
        None => return Err(DriverError::InvalidDtb),
    };
    if cell_count == 0 || cell_count > MAX_INTERRUPT_CELLS {
        return Err(DriverError::InvalidDtb);
    }
    let raw = match tree.nodes[index].property("interrupts") {
        Some(raw) => raw,
        None => return Err(DriverError::InvalidDtb),
    };
    let stride = cell_count * 4;
    if raw.len() == 0 || raw.len() % stride != 0 {
        return Err(DriverError::InvalidDtb);
    }
    let ghost source = interrupt_source(*tree, index as int);
    assert(source == Some((parent_phandle, cell_count, raw@)));
    let mut specs: Vec<InterruptSpec> = Vec::new();
    let mut offset: usize = 0;
    proof {
        assert(specs@.len() * stride == 0) by (nonlinear_arith)
            requires
                specs@.len() == 0,
        ;
    }
    while offset < raw.len()
        invariant
            source == Some((parent_phandle, cell_count, raw@)),
            1 <= cell_count <= 4,
            stride == cell_count * 4,
            (raw@.len() as int) % (stride as int) == 0,
            offset <= raw@.len(),
            offset == specs@.len() * stride,
            forall|c: int|
                0 <= c < specs@.len() ==> encodes_interrupt(
                    #[trigger] specs@[c],
                    parent_phandle,
                    cell_count,
                    raw@.subrange(c * stride, c * stride + stride),
                ),
        decreases raw@.len() - offset,
    {
        proof {
            assert((offset as int) % (stride as int) == 0) by (nonlinear_arith)
                requires
                    offset == specs@.len() * stride,
                    stride > 0,
            ;
            lemma_next_chunk_fits(offset as int, stride as int, raw@.len() as int);
        }
        let ghost chunk = raw@.subrange(offset as int, offset + stride);
        let raw_len: usize = raw.len();
        let mut cells: [u32; 4] = [0; 4];
        let mut k: usize = 0;
        while k < cell_count
            invariant
                1 <= cell_count <= 4,
                stride == cell_count * 4,
                offset + stride <= raw@.len(),
                raw_len == raw@.len(),
                chunk == raw@.subrange(offset as int, offset + stride),
                k <= cell_count,
                forall|j: int| 0 <= j < k ==> cells[j] == be_u32_at(chunk, 4 * j),
                forall|j: int| k <= j < 4 ==> cells[j] == 0,
            decreases cell_count - k,
        {
                assert(offset + 4 * k + 4 <= raw@.len());
            let at: usize = offset + 4 * k;
            let cell = match read_be_u32(raw, at) {
                Some(cell) => cell,
                None => {
                    assert(false);
                    return Err(DriverError::InvalidDtb);
                },
            };
            assert(cell == be_u32_at(chunk, 4 * k));
            cells[k] = cell;
            k = k + 1;
        }
        let spec = InterruptSpec { parent_phandle, cells, cell_count: cell_count as u8 };
        assert(encodes_interrupt(spec, parent_phandle, cell_count, chunk));
        specs.push(spec);
        proof {
            assert(offset + stride == specs@.len() * stride) by (nonlinear_arith)
                requires
                    offset == (specs@.len() - 1) * stride,
            ;
        }
        offset = offset + stride;
    }
    proof {
        lemma_interrupts_unique(*tree, index as int, specs@, interrupt_list(*tree, index as int));
    }
    Ok(specs)
}

/// Node `i`'s interrupt specifiers, where `interrupts_of` determines them.
pub open spec fn interrupt_list(tree: DeviceTree, i: int) -> Seq<InterruptSpec> {
    choose|specs: Seq<InterruptSpec>| interrupts_of(tree, i, specs)
}

proof fn lemma_interrupts_unique(tree: DeviceTree, i: int, a: Seq<InterruptSpec>, b: Seq<InterruptSpec>)
    requires
        interrupts_of(tree, i, a),
    ensures
        interrupts_of(tree, i, b) ==> a == b,
        interrupts_of(tree, i, interrupt_list(tree, i)),
{
    if interrupts_of(tree, i, b) {
        let (handle, count, raw) = interrupt_source(tree, i)->Some_0;
        let stride = count * 4;
        assert(a.len() == b.len()) by (nonlinear_arith)
            requires
                a.len() * stride == raw.len(),
                b.len() * stride == raw.len(),
                stride > 0,
        ;
        assert forall|c: int| 0 <= c < a.len() implies a[c] == b[c] by {
            let chunk = raw.subrange(c * stride, c * stride + stride);
            assert(encodes_interrupt(a[c], handle, count, chunk));
            assert(encodes_interrupt(b[c], handle, count, chunk));
            assert(a[c].cells =~= b[c].cells);
        }
        assert(a =~= b);
    }
}

/// Node `i` has exactly one interrupt specifier.
pub open spec fn sole_interrupt(tree: DeviceTree, i: int) -> bool {
    match interrupt_source(tree, i) {
        Some((handle, count, raw)) => raw.len() == count * 4,
        None => false,
    }
}

/// Decodes node `index`'s only interrupt specifier.
pub fn interrupt(tree: &DeviceTree, index: usize) -> (spec: Result<InterruptSpec, DriverError>)
    requires
        index < tree.nodes@.len(),
    ensures
        match spec {
            Ok(only) => sole_interrupt(*tree, index as int) && interrupt_list(*tree, index as int)
                == seq![only],
            Err(error) => error == DriverError::InvalidDtb && !sole_interrupt(*tree, index as int),
        },
{
    let mut specs = match interrupt_specs(tree, index) {
        Ok(specs) => specs,
        Err(error) => return Err(error),
    };
    let ghost (handle, count, raw) = interrupt_source(*tree, index as int)->Some_0;
    proof {
        let stride = count * 4;
        assert((specs@.len() == 1) == (raw.len() == stride)) by (nonlinear_arith)
            requires
                specs@.len() * stride == raw.len(),
                stride > 0,
        ;
    }
    if specs.len() != 1 {
        return Err(DriverError::InvalidDtb);
    }
    let only = specs.remove(0);
    assert(interrupt_list(*tree, index as int) =~= seq![only]);
    Ok(only)
}

/// Parent line named by an `interrupt-names` entry.
pub open spec fn parent_line(name: Seq<char>) -> Option<int> {
    if name == "int0"@ {
        Some(0)
    } else if name == "int1"@ {
        Some(1)
    } else if name == "int2"@ {
        Some(2)
    } else if name == "int3"@ {
        Some(3)
    } else {
        None
    }
}

fn parent_line_of(name: &String) -> (line: Option<usize>)
    ensures
        match line {
            Some(l) => parent_line(name@) == Some(l as int),
            None => parent_line(name@) is None,
        },
{
    if *name == String::from_str("int0") {
        Some(0)
    } else if *name == String::from_str("int1") {
        Some(1)
    } else if *name == String::from_str("int2") {
        Some(2)
    } else if *name == String::from_str("int3") {
        Some(3)
    } else {
        None
    }
}

/// Source mask routed to parent line `line` by the route map.
pub open spec fn route_cell(map: Seq<u8>, line: int) -> u32 {
    be_u32_at(map, 4 * line)
}

/// Sources routed to the lines before `line`.
pub open spec fn covered_before(map: Seq<u8>, line: int) -> u32
    decreases line,
{
    if line <= 0 {
        0
    } else {
        covered_before(map, line - 1) | route_cell(map, line - 1)
    }
}

proof fn lemma_covered_disjoint(map: Seq<u8>, line: int, mask: u32)
    requires
        0 <= line,
    ensures
        (covered_before(map, line) & mask == 0) <==> forall|a: int|
            0 <= a < line ==> #[trigger] route_cell(map, a) & mask == 0,
    decreases line,
{
    if line > 0 {
        lemma_covered_disjoint(map, line - 1, mask);
        let x = covered_before(map, line - 1);
        let y = route_cell(map, line - 1);
        assert(((x | y) & mask == 0) <==> (x & mask == 0 && y & mask == 0)) by (bit_vector);
    } else {
        assert(0u32 & mask == 0) by (bit_vector);
    }
}

/// The route map sends every source to exactly one line.
pub open spec fn routes_partition(map: Seq<u8>) -> bool {
    &&& forall|a: int, b: int|
        0 <= a < b < 4 ==> #[trigger] route_cell(map, a) & #[trigger] route_cell(map, b) == 0
    &&& route_cell(map, 0) | route_cell(map, 1) | route_cell(map, 2) | route_cell(map, 3) == u32::MAX
}

/// Names and route map of node `i`'s parent lines: one to four names, as
/// many as its interrupt specifiers, each `int0`..`int3` and no line twice;
/// a sixteen-byte map that partitions the sources among the lines and
/// routes none to an unnamed line.
pub open spec fn parent_routes(tree: DeviceTree, i: int) -> Option<(Seq<Seq<char>>, Seq<u8>)> {
    let node = tree.nodes@[i];
    match (
        string_list(node, "interrupt-names"@),
        interrupt_source(tree, i),
        prop(node, "loongson,parent_int_map"@),
    ) {
        (Some(names), Some(_), Some(map)) => {
            let specs = interrupt_list(tree, i);
            if 1 <= names.len() <= 4 && names.len() == specs.len() && (forall|k: int|
                0 <= k < names.len() ==> (#[trigger] parent_line(names[k])) is Some) && (forall|
                a: int,
                b: int,
            |
                0 <= a < b < names.len() ==> #[trigger] parent_line(names[a]) != #[trigger] parent_line(
                    names[b],
                )) && map.len() == 16 && routes_partition(map) && (forall|l: int|
                0 <= l < 4 && #[trigger] route_cell(map, l) != 0 ==> exists|k: int|
                    0 <= k < names.len() && parent_line(names[k]) == Some(l)) {
                Some((names, map))
            } else {
                None
            }
        },
        _ => None,
    }
}

/// `parents` holds at each line the specifier of the name for that line.
pub open spec fn parents_by_line(
    names: Seq<Seq<char>>,
    specs: Seq<InterruptSpec>,
    parents: [Option<InterruptSpec>; 4],
) -> bool {
    forall|l: int|
        0 <= l < 4 ==> (#[trigger] parents[l] == if exists|k: int|
            0 <= k < names.len() && parent_line(names[k]) == Some(l) {
            Some(specs[choose|k: int| 0 <= k < names.len() && parent_line(names[k]) == Some(l)])
        } else {
            None
        })
}

/// Decodes node `index`'s parent interrupt lines and source route map.
pub fn parse_parent_routes(tree: &DeviceTree, index: usize) -> (routes: Result<
    ([Option<InterruptSpec>; 4], [u32; 4]),
    DriverError,
>)
    requires
        index < tree.nodes@.len(),
    ensures
        match routes {
            Ok((parents, maps)) => match parent_routes(*tree, index as int) {
                Some((names, map)) => {
                    &&& parents_by_line(names, interrupt_list(*tree, index as int), parents)
                    &&& forall|l: int| 0 <= l < 4 ==> #[trigger] maps[l] == route_cell(map, l)
                },
                None => false,
            },
            Err(error) => error == DriverError::InvalidDtb && parent_routes(*tree, index as int) is None,
        },
{
    let node = &tree.nodes[index];
    let names = match node.string_list("interrupt-names") {
        Ok(names) => names,
        Err(error) => return Err(error),
    };
    let specs = match interrupt_specs(tree, index) {
        Ok(specs) => specs,
        Err(error) => return Err(error),
    };
    let ghost name_views = text_views(names@);
    if names.len() == 0 || names.len() != specs.len() || names.len() > 4 {
        return Err(DriverError::InvalidDtb);
    }
    let mut parents: [Option<InterruptSpec>; 4] = [None, None, None, None];
    let mut k: usize = 0;
    while k < names.len()
        invariant
            name_views == text_views(names@),
            names@.len() == specs@.len(),
            names@.len() <= 4,
            string_list(tree.nodes@[index as int], "interrupt-names"@) == Some(name_views),
            specs@ == interrupt_list(*tree, index as int),
            interrupt_source(*tree, index as int) is Some,
            k <= names@.len(),
            forall|j: int| 0 <= j < k ==> (#[trigger] parent_line(name_views[j])) is Some,
            forall|a: int, b: int|
                0 <= a < b < k ==> #[trigger] parent_line(name_views[a]) != #[trigger] parent_line(
                    name_views[b],
                ),
            forall|l: int|
                0 <= l < 4 ==> (#[trigger] parents[l] == if exists|j: int|
                    0 <= j < k && parent_line(name_views[j]) == Some(l) {
                    Some(specs@[choose|j: int| 0 <= j < k && parent_line(name_views[j]) == Some(l)])
                } else {
                    None
                }),
        decreases names@.len() - k,
    {
        assert(name_views[k as int] == names@[k as int]@);
        let line = match parent_line_of(&names[k]) {
            Some(line) => line,
            None => return Err(DriverError::InvalidDtb),
        };
        if parents[line].is_some() {
            proof {
                let j = choose|j: int| 0 <= j < k && parent_line(name_views[j]) == Some(line as int);
                assert(parent_line(name_views[j]) == parent_line(name_views[k as int]));
            }
            return Err(DriverError::InvalidDtb);
        }
        let ghost before = parents;
        parents[line] = Some(specs[k]);
        proof {
            assert forall|l: int| 0 <= l < 4 implies (#[trigger] parents[l] == if exists|j: int|
                0 <= j < k + 1 && parent_line(name_views[j]) == Some(l) {
                Some(specs@[choose|j: int| 0 <= j < k + 1 && parent_line(name_views[j]) == Some(l)])
            } else {
                None
            }) by {
                if l == line {
                    assert(parent_line(name_views[k as int]) == Some(l));
                    let j = choose|j: int| 0 <= j < k + 1 && parent_line(name_views[j]) == Some(l);
                    if j < k {
                        assert(before[l] is Some);
                    }
                } else {
                    if exists|j: int| 0 <= j < k + 1 && parent_line(name_views[j]) == Some(l) {
                        let j = choose|j: int| 0 <= j < k + 1 && parent_line(name_views[j]) == Some(l);
                        assert(j < k);
                        assert(exists|i: int| 0 <= i < k && parent_line(name_views[i]) == Some(l));
                        let i = choose|i: int| 0 <= i < k && parent_line(name_views[i]) == Some(l);
                        if i != j {
                            if i < j {
                                assert(parent_line(name_views[i]) != parent_line(name_views[j]));
                            } else {
                                assert(parent_line(name_views[j]) != parent_line(name_views[i]));
                            }
                        }
                    }
                }
            }
        }
        k = k + 1;
    }
    assert(name_views.len() == names@.len());
    assert(parents_by_line(name_views, specs@, parents));
    let raw = match node.property("loongson,parent_int_map") {
        Some(raw) => raw,
        None => return Err(DriverError::InvalidDtb),
    };
    if raw.len() != 16 {
        return Err(DriverError::InvalidDtb);
    }
    let mut maps: [u32; 4] = [0; 4];
    let mut covered: u32 = 0;
    let mut line: usize = 0;
    while line < 4
        invariant
            raw@.len() == 16,
            prop(tree.nodes@[index as int], "loongson,parent_int_map"@) == Some(raw@),
            string_list(tree.nodes@[index as int], "interrupt-names"@) == Some(name_views),
            specs@ == interrupt_list(*tree, index as int),
            interrupt_source(*tree, index as int) is Some,
            1 <= name_views.len() <= 4,
            name_views.len() == specs@.len(),
            forall|j: int| 0 <= j < name_views.len() ==> (#[trigger] parent_line(name_views[j])) is Some,
            forall|a: int, b: int|
                0 <= a < b < name_views.len() ==> #[trigger] parent_line(name_views[a])
                    != #[trigger] parent_line(name_views[b]),
            parents_by_line(name_views, specs@, parents),
            line <= 4,
            covered == covered_before(raw@, line as int),
            forall|a: int, b: int|
                0 <= a < b < line ==> #[trigger] route_cell(raw@, a) & #[trigger] route_cell(raw@, b)
                    == 0,
            forall|a: int| 0 <= a < line ==> #[trigger] maps[a] == route_cell(raw@, a),
            forall|a: int|
                0 <= a < line && #[trigger] route_cell(raw@, a) != 0 ==> parents[a] is Some,
        decreases 4 - line,
    {
        let map = match read_be_u32(raw, line * 4) {
            Some(map) => map,
            None => return Err(DriverError::InvalidDtb),
        };
        assert(map == route_cell(raw@, line as int));
        proof {
            lemma_covered_disjoint(raw@, line as int, map);
        }
        if covered & map != 0 || (map != 0 && parents[line].is_none()) {
            proof {
                if covered & map != 0 {
                    let a = choose|a: int| 0 <= a < line && #[trigger] route_cell(raw@, a) & map != 0;
                    assert(route_cell(raw@, a) & route_cell(raw@, line as int) != 0);
                } else {
                    assert(parents[line as int] is None);
                    assert(route_cell(raw@, line as int) != 0);
                }
                assert(parent_routes(*tree, index as int) is None);
            }
            return Err(DriverError::InvalidDtb);
        }
        proof {
            assert forall|a: int, b: int|
                0 <= a < b < line + 1 implies #[trigger] route_cell(raw@, a) & #[trigger] route_cell(
                raw@,
                b,
            ) == 0 by {
                if b == line {
                    assert(route_cell(raw@, a) & map == 0);
                }
            }
        }
        maps[line] = map;
        covered = covered | map;
        line = line + 1;
    }
    proof {
        let c0 = route_cell(raw@, 0);
        let c1 = route_cell(raw@, 1);
        let c2 = route_cell(raw@, 2);
        let c3 = route_cell(raw@, 3);
        reveal_with_fuel(covered_before, 5);
        assert(((((0u32 | c0) | c1) | c2) | c3) == c0 | c1 | c2 | c3) by (bit_vector);
        assert(covered == c0 | c1 | c2 | c3);
    }
    if covered != u32::MAX {
        return Err(DriverError::InvalidDtb);
    }
    proof {
        assert forall|l: int|
            0 <= l < 4 && #[trigger] route_cell(raw@, l) != 0 implies exists|k: int|
            0 <= k < name_views.len() && parent_line(name_views[k]) == Some(l) by {
            assert(parents[l] is Some);
        }
    }
    Ok((parents, maps))
}

/// Provider phandle and argument cells of a resource specifier.
pub open spec fn resource_view(specifier: ResourceSpecifier) -> (u32, Seq<u32>) {
    (specifier.provider_phandle, specifier.args@)
}

/// Views of a list of resource specifiers.
pub open spec fn resource_views(list: Seq<ResourceSpecifier>) -> Seq<(u32, Seq<u32>)> {
    list.map_values(|specifier: ResourceSpecifier| resource_view(specifier))
}

/// Specifiers encoded in `raw` from byte `offset` on: each a provider
/// phandle followed by as many cells as the provider's `cells_name` says
/// (at most eight), all within the value.
pub open spec fn specifiers_from(
    tree: DeviceTree,
    raw: Seq<u8>,
    cells_name: Seq<char>,
    offset: int,
) -> Option<Seq<(u32, Seq<u32>)>>
    decreases raw.len() - offset,
{
    if offset >= raw.len() {
        Some(seq![])
    } else {
        let handle = be_u32_at(raw, offset);
        match find_phandle(tree, handle) {
            None => None,
            Some(provider) => match prop_u32(tree.nodes@[provider], cells_name) {
                None => None,
                Some(count) => if count > MAX_RESOURCE_CELLS || offset + 4 + 4 * count > raw.len() {
                    None
                } else {
                    let args = Seq::new(count as nat, |k: int| be_u32_at(raw, offset + 4 + 4 * k));
                    match specifiers_from(tree, raw, cells_name, offset + 4 + 4 * count) {
                        Some(rest) => Some(seq![(handle, args)] + rest),
                        None => None,
                    }
                },
            },
        }
    }
}

/// Specifiers of property `property` of node `i`, whose value must be a
/// non-empty whole number of cells.
pub open spec fn resource_list(tree: DeviceTree, i: int, property: Seq<char>, cells_name: Seq<char>) -> Option<
    Seq<(u32, Seq<u32>)>,
> {
    match prop(tree.nodes@[i], property) {
        Some(raw) => if raw.len() == 0 || raw.len() % 4 != 0 {
            None
        } else {
            specifiers_from(tree, raw, cells_name, 0)
        },
        None => None,
    }
}

/// `done` followed by what `rest` holds, if it holds anything.
pub open spec fn then_rest(
    done: Seq<(u32, Seq<u32>)>,
    rest: Option<Seq<(u32, Seq<u32>)>>,
) -> Option<Seq<(u32, Seq<u32>)>> {
    match rest {
        Some(tail) => Some(done + tail),
        None => None,
    }
}

/// Decodes the specifier at byte `start` of `raw`, with the offset just
/// past it.
#[verifier::rlimit(50)]
fn next_specifier(tree: &DeviceTree, raw: &[u8], start: usize, provider_cells: &str) -> (step: Result<
    (ResourceSpecifier, usize),
    DriverError,
>)
    requires
        start < raw@.len(),
        start % 4 == 0,
        raw@.len() % 4 == 0,
    ensures
        match step {
            Ok((specifier, next)) => {
                &&& start < next <= raw@.len()
                &&& next % 4 == 0
                &&& specifiers_from(*tree, raw@, provider_cells@, start as int) == then_rest(
                    seq![resource_view(specifier)],
                    specifiers_from(*tree, raw@, provider_cells@, next as int),
                )
            },
            Err(error) => error == DriverError::InvalidDtb && specifiers_from(
                *tree,
                raw@,
                provider_cells@,
                start as int,
            ) is None,
        },
{
    let raw_len: usize = raw.len();
    let provider_phandle = match read_be_u32(raw, start) {
        Some(handle) => handle,
        None => return Err(DriverError::InvalidDtb),
    };
    let provider = match tree.find_phandle(provider_phandle) {
        Some(provider) => provider,
        None => return Err(DriverError::InvalidDtb),
    };
    let cell_count = match tree.nodes[provider].property_u32(provider_cells) {
        Some(count) => count as usize,
        None => return Err(DriverError::InvalidDtb),
    };
    if cell_count > MAX_RESOURCE_CELLS {
        return Err(DriverError::InvalidDtb);
    }
    let byte_count = cell_count * 4;
    if byte_count > raw_len - start - 4 {
        return Err(DriverError::InvalidDtb);
    }
    let ghost step_args = Seq::new(cell_count as nat, |k: int| be_u32_at(raw@, start + 4 + 4 * k));
    let mut offset: usize = start + 4;
    let mut args: Vec<u32> = Vec::new();
    let mut k: usize = 0;
    while k < cell_count
        invariant
            raw_len == raw@.len(),
            offset == start + 4 + 4 * k,
            start + 4 + 4 * cell_count <= raw_len,
            k <= cell_count,
            args@.len() == k,
            forall|j: int| 0 <= j < k ==> #[trigger] args@[j] == be_u32_at(raw@, start + 4 + 4 * j),
        decreases cell_count - k,
    {
        let cell = match read_be_u32(raw, offset) {
            Some(cell) => cell,
            None => return Err(DriverError::InvalidDtb),
        };
        args.push(cell);
        offset = offset + 4;
        k = k + 1;
    }
    assert(args@ =~= step_args);
    let specifier = ResourceSpecifier { provider_phandle, args };
    assert(resource_view(specifier) == (provider_phandle, step_args));
    Ok((specifier, offset))
}

/// Decodes the phandle-and-arguments specifiers of a property.
pub fn resource_specifiers(tree: &DeviceTree, index: usize, property: &str, provider_cells: &str) -> (specifiers: Result<
    Vec<ResourceSpecifier>,
    DriverError,
>)
    requires
        index < tree.nodes@.len(),
    ensures
        match specifiers {
            Ok(list) => resource_list(*tree, index as int, property@, provider_cells@) == Some(
                resource_views(list@),
            ),
            Err(error) => error == DriverError::InvalidDtb && resource_list(
                *tree,
                index as int,
                property@,
                provider_cells@,
            ) is None,
        },
{
    let raw = match tree.nodes[index].property(property) {
        Some(raw) => raw,
        None => return Err(DriverError::InvalidDtb),
    };
    if raw.len() == 0 || raw.len() % 4 != 0 {
        return Err(DriverError::InvalidDtb);
    }
    let raw_len: usize = raw.len();
    let ghost whole = specifiers_from(*tree, raw@, provider_cells@, 0);
    let mut offset: usize = 0;
    let mut result: Vec<ResourceSpecifier> = Vec::new();
    assert(resource_views(result@) =~= Seq::<(u32, Seq<u32>)>::empty());
    assert(then_rest(resource_views(result@), whole) == whole) by {
        if whole is Some {
            assert(resource_views(result@) + whole->Some_0 =~= whole->Some_0);
        }
    }
    while offset < raw_len
        invariant
            prop(tree.nodes@[index as int], property@) == Some(raw@),
            raw@.len() > 0,
            whole == specifiers_from(*tree, raw@, provider_cells@, 0),
            raw_len == raw@.len(),
            raw_len % 4 == 0,
            offset % 4 == 0,
            offset <= raw_len,
            whole == then_rest(
                resource_views(result@),
                specifiers_from(*tree, raw@, provider_cells@, offset as int),
            ),
        decreases raw_len - offset,
    {
        let (specifier, next) = match next_specifier(tree, raw, offset, provider_cells) {
            Ok(step) => step,
            Err(error) => return Err(error),
        };
        let ghost before = resource_views(result@);
        let ghost view = resource_view(specifier);
        let ghost rest = specifiers_from(*tree, raw@, provider_cells@, next as int);
        result.push(specifier);
        proof {
            assert(resource_views(result@) =~= before.push(view));
            if rest is Some {
                assert(before + (seq![view] + rest->Some_0) =~= before.push(view) + rest->Some_0);
            }
        }
        offset = next;
    }
    proof {
        assert(specifiers_from(*tree, raw@, provider_cells@, offset as int) == Some(
            Seq::<(u32, Seq<u32>)>::empty(),
        ));
        assert(resource_views(result@) + Seq::<(u32, Seq<u32>)>::empty() =~= resource_views(result@));
    }
    Ok(result)
}

/// Name, if listed, and specifier of a named resource.
pub open spec fn named_view(resource: NamedResource) -> (Option<Seq<char>>, (u32, Seq<u32>)) {
    (
        match resource.name {
            Some(name) => Some(name@),
            None => None,
        },
        resource_view(resource.specifier),
    )
}

/// Views of a list of named resources.
pub open spec fn named_views(list: Seq<NamedResource>) -> Seq<(Option<Seq<char>>, (u32, Seq<u32>))> {
    list.map_values(|resource: NamedResource| named_view(resource))
}

/// Specifiers of `property` paired with the entries of `names_property`:
/// the names, where present, must be a valid list of the same length; where
/// absent they must not be required, and no resource is named.
pub open spec fn named_resource_list(
    tree: DeviceTree,
    i: int,
    property: Seq<char>,
    names_property: Seq<char>,
    cells_name: Seq<char>,
    names_required: bool,
) -> Option<Seq<(Option<Seq<char>>, (u32, Seq<u32>))>> {
    match resource_list(tree, i, property, cells_name) {
        None => None,
        Some(specs) => match prop(tree.nodes@[i], names_property) {
            Some(_) => match string_list(tree.nodes@[i], names_property) {
                Some(names) => if names.len() == specs.len() {
                    Some(Seq::new(specs.len(), |k: int| (Some(names[k]), specs[k])))
                } else {
                    None
                },
                None => None,
            },
            None => if names_required {
                None
            } else {
                Some(Seq::new(specs.len(), |k: int| (None, specs[k])))
            },
        },
    }
}

/// Decodes a resource property together with its optional names property.
pub fn named_resources(
    tree: &DeviceTree,
    index: usize,
    property: &str,
    names_property: &str,
    provider_cells: &str,
    names_required: bool,
) -> (resources: Result<Vec<NamedResource>, DriverError>)
    requires
        index < tree.nodes@.len(),
    ensures
        match resources {
            Ok(list) => named_resource_list(
                *tree,
                index as int,
                property@,
                names_property@,
                provider_cells@,
                names_required,
            ) == Some(named_views(list@)),
            Err(error) => error == DriverError::InvalidDtb && named_resource_list(
                *tree,
                index as int,
                property@,
                names_property@,
                provider_cells@,
                names_required,
            ) is None,
        },
{
    let mut specifiers = match resource_specifiers(tree, index, property, provider_cells) {
        Ok(list) => list,
        Err(error) => return Err(error),
    };
    let ghost specs = resource_views(specifiers@);
    let node = &tree.nodes[index];
    let names: Option<Vec<String>> = if node.has_property(names_property) {
        match node.string_list(names_property) {
            Ok(names) => Some(names),
            Err(error) => return Err(error),
        }
    } else if names_required {
        return Err(DriverError::InvalidDtb);
    } else {
        None
    };
    let count = specifiers.len();
    match &names {
        Some(list) => if list.len() != count {
            return Err(DriverError::InvalidDtb);
        },
        None => {},
    }
    let ghost expected = named_resource_list(
        *tree,
        index as int,
        property@,
        names_property@,
        provider_cells@,
        names_required,
    )->Some_0;
    let mut result: Vec<NamedResource> = Vec::new();
    let mut k: usize = 0;
    while k < count
        invariant
            count == specs.len(),
            k <= count,
            specifiers@.len() == count - k,
            forall|j: int| 0 <= j < count - k ==> resource_view(#[trigger] specifiers@[j]) == specs[j + k],
            match names {
                Some(list) => list@.len() == count && expected == Seq::new(
                    specs.len(),
                    |j: int| (Some(list@[j]@), specs[j]),
                ),
                None => expected == Seq::new(specs.len(), |j: int| (None::<Seq<char>>, specs[j])),
            },
            result@.len() == k,
            forall|j: int| 0 <= j < k ==> named_view(#[trigger] result@[j]) == expected[j],
        decreases count - k,
    {
        let specifier = specifiers.remove(0);
        let name = match &names {
            Some(list) => Some(list[k].clone()),
            None => None,
        };
        assert(resource_view(specifier) == specs[k as int]);
        result.push(NamedResource { name, specifier });
        k = k + 1;
    }
    assert(named_views(result@) =~= expected);
    Ok(result)
}

/// The supply named by phandle property `property` of node `i`: absent when
/// the property is; a fixed regulator with its control and flags, or an
/// unsupported provider; malformed when the value is not one cell, the
/// phandle resolves to nothing, a fixed regulator lists both `gpio` and
/// `gpios`, or its flags carry values.
pub open spec fn supply_of(tree: DeviceTree, i: int, property: Seq<char>) -> Option<Option<SupplyDescription>> {
    match prop(tree.nodes@[i], property) {
        None => Some(None),
        Some(raw) => if raw.len() != 4 {
            None
        } else {
            let handle = be_u32_at(raw, 0);
            match find_phandle(tree, handle) {
                None => None,
                Some(p) => {
                    let provider = tree.nodes@[p];
                    if has_compatible(provider, "regulator-fixed"@) {
                        let gpio = prop(provider, "gpio"@) is Some;
                        let gpios = prop(provider, "gpios"@) is Some;
                        match (
                            boolean_property(provider, "regulator-always-on"@),
                            boolean_property(provider, "regulator-boot-on"@),
                        ) {
                            (Some(always_on), Some(boot_on)) => if gpio && gpios {
                                None
                            } else {
                                Some(
                                    Some(
                                        SupplyDescription {
                                            phandle: handle,
                                            provider: SupplyProvider::Fixed {
                                                control: if gpio || gpios {
                                                    FixedSupplyControl::Gpio
                                                } else {
                                                    FixedSupplyControl::Uncontrolled
                                                },
                                                always_on,
                                                boot_on,
                                            },
                                        },
                                    ),
                                )
                            },
                            _ => None,
                        }
                    } else {
                        Some(Some(SupplyDescription { phandle: handle, provider: SupplyProvider::Unsupported }))
                    }
                },
            }
        },
    }
}

/// Describes the supply named by `property`.
pub fn supply_description(tree: &DeviceTree, index: usize, property: &str) -> (supply: Result<
    Option<SupplyDescription>,
    DriverError,
>)
    requires
        index < tree.nodes@.len(),
    ensures
        match supply {
            Ok(found) => supply_of(*tree, index as int, property@) == Some(found),
            Err(error) => error == DriverError::InvalidDtb && supply_of(*tree, index as int, property@)
                is None,
        },
{
    let raw = match tree.nodes[index].property(property) {
        Some(raw) => raw,
        None => return Ok(None),
    };
    if raw.len() != 4 {
        return Err(DriverError::InvalidDtb);
    }
    let phandle = match read_be_u32(raw, 0) {
        Some(handle) => handle,
        None => return Err(DriverError::InvalidDtb),
    };
    let at = match tree.find_phandle(phandle) {
        Some(at) => at,
        None => return Err(DriverError::InvalidDtb),
    };
    let provider_node = &tree.nodes[at];
    let provider = if provider_node.has_compatible("regulator-fixed") {
        let gpio = provider_node.has_property("gpio");
        let gpios = provider_node.has_property("gpios");
        if gpio && gpios {
            return Err(DriverError::InvalidDtb);
        }
        let always_on = match provider_node.boolean_property("regulator-always-on") {
            Ok(flag) => flag,
            Err(error) => return Err(error),
        };
        let boot_on = match provider_node.boolean_property("regulator-boot-on") {
            Ok(flag) => flag,
            Err(error) => return Err(error),
        };
        SupplyProvider::Fixed {
            control: if gpio || gpios {
                FixedSupplyControl::Gpio
            } else {
                FixedSupplyControl::Uncontrolled
            },
            always_on,
            boot_on,
        }
    } else {
        SupplyProvider::Unsupported
    };
    Ok(Some(SupplyDescription { phandle, provider }))
}

/// The clock provider behind an MMC host's clock: an unsupported provider
/// as such; the 2K clock controller only for argument 12, with one usable
/// register window of at least 0x58 bytes, the single clock name
/// `ref_100m`, and a single argument-less reference to a fixed clock of
/// non-zero frequency.
pub open spec fn clock_provider_of(tree: DeviceTree, clock: (Option<Seq<char>>, (u32, Seq<u32>))) -> Option<
    MmcClockProvider,
> {
    let handle = clock.1.0;
    match find_phandle(tree, handle) {
        None => None,
        Some(p) => {
            let provider = tree.nodes@[p];
            if !has_compatible(provider, "loongson,ls2k-clk"@) {
                Some(MmcClockProvider::Unsupported { phandle: handle })
            } else if clock.1.1 != seq![12u32] {
                None
            } else {
                match node_regions(provider) {
                    None => None,
                    Some(regs) => if regs.len() != 1 || regs[0].base == 0 || regs[0].size < 0x58 {
                        None
                    } else if string_list(provider, "clock-names"@) != Some(seq!["ref_100m"@]) {
                        None
                    } else {
                        match resource_list(tree, p, "clocks"@, "#clock-cells"@) {
                            None => None,
                            Some(references) => if references.len() != 1 || references[0].1.len()
                                != 0 {
                                None
                            } else {
                                match find_phandle(tree, references[0].0) {
                                    None => None,
                                    Some(r) => if !has_compatible(tree.nodes@[r], "fixed-clock"@) {
                                        None
                                    } else {
                                        match prop_u32(tree.nodes@[r], "clock-frequency"@) {
                                            Some(hz) => if hz == 0 {
                                                None
                                            } else {
                                                Some(
                                                    MmcClockProvider::Loongson2k {
                                                        mmio: regs[0],
                                                        reference_hz: hz,
                                                    },
                                                )
                                            },
                                            None => None,
                                        }
                                    },
                                }
                            },
                        }
                    },
                }
            }
        },
    }
}

/// Resolves the provider of an MMC host's clock.
pub fn mmc_clock_provider(tree: &DeviceTree, clock: &NamedResource) -> (provider: Result<
    MmcClockProvider,
    DriverError,
>)
    ensures
        match provider {
            Ok(found) => clock_provider_of(*tree, named_view(*clock)) == Some(found),
            Err(error) => error == DriverError::InvalidDtb && clock_provider_of(*tree, named_view(*clock))
                is None,
        },
{
    let phandle = clock.specifier.provider_phandle;
    let at = match tree.find_phandle(phandle) {
        Some(at) => at,
        None => return Err(DriverError::InvalidDtb),
    };
    let provider = &tree.nodes[at];
    if !provider.has_compatible("loongson,ls2k-clk") {
        return Ok(MmcClockProvider::Unsupported { phandle });
    }
    if clock.specifier.args.len() != 1 || clock.specifier.args[0] != 12 {
        proof {
            if clock.specifier.args@ == seq![12u32] {
                assert(clock.specifier.args@[0] == 12);
            }
        }
        return Err(DriverError::InvalidDtb);
    }
    assert(clock.specifier.args@ =~= seq![12u32]);
    let regs = match regions(provider) {
        Ok(regs) => regs,
        Err(error) => return Err(error),
    };
    if regs.len() != 1 || regs[0].base == 0 || regs[0].size < 0x58 {
        return Err(DriverError::InvalidDtb);
    }
    let names = match provider.string_list("clock-names") {
        Ok(names) => names,
        Err(error) => return Err(error),
    };
    let expected = String::from_str("ref_100m");
    let named_reference = names.len() == 1 && names[0] == expected;
    if !named_reference {
        proof {
            if text_views(names@) == seq!["ref_100m"@] {
                assert(text_views(names@).len() == names@.len());
                assert(text_views(names@)[0] == names@[0]@);
            }
        }
        return Err(DriverError::InvalidDtb);
    }
    assert(text_views(names@) =~= seq!["ref_100m"@]);
    let references = match resource_specifiers(tree, at, "clocks", "#clock-cells") {
        Ok(references) => references,
        Err(error) => return Err(error),
    };
    if references.len() != 1 || references[0].args.len() != 0 {
        proof {
            if references@.len() == 1 {
                assert(resource_views(references@)[0] == resource_view(references@[0]));
            }
        }
        return Err(DriverError::InvalidDtb);
    }
    assert(resource_views(references@)[0] == resource_view(references@[0]));
    let reference_at = match tree.find_phandle(references[0].provider_phandle) {
        Some(at) => at,
        None => return Err(DriverError::InvalidDtb),
    };
    if !tree.nodes[reference_at].has_compatible("fixed-clock") {
        return Err(DriverError::InvalidDtb);
    }
    let reference_hz = match tree.nodes[reference_at].property_u32("clock-frequency") {
        Some(hz) => hz,
        None => return Err(DriverError::InvalidDtb),
    };
    if reference_hz == 0 {
        return Err(DriverError::InvalidDtb);
    }
    Ok(MmcClockProvider::Loongson2k { mmio: regs[0], reference_hz })
}

/// The single `cd-gpios` specifier of node `i` and its controller: two
/// argument cells, the flag cell 0 or 1; a 2K1000 GPIO controller must
/// have one usable window (non-zero, 8-byte aligned, at least 0x28 bytes)
/// and 1..=64 lines including the pin; any other provider is unsupported.
pub open spec fn gpio_card_detect(tree: DeviceTree, i: int) -> Option<((u32, Seq<u32>), GpioProvider)> {
    match resource_list(tree, i, "cd-gpios"@, "#gpio-cells"@) {
        None => None,
        Some(list) => if list.len() != 1 || list[0].1.len() != 2 || list[0].1[1] > 1 {
            None
        } else {
            let handle = list[0].0;
            match find_phandle(tree, handle) {
                None => None,
                Some(p) => {
                    let provider = tree.nodes@[p];
                    if has_compatible(provider, "loongson,ls2k1000-gpio"@) && has_compatible(
                        provider,
                        "loongson,ls2k-gpio"@,
                    ) {
                        match (node_regions(provider), prop_u32(provider, "ngpios"@)) {
                            (Some(regs), Some(lines)) => if !(1 <= lines <= 64) || regs.len() != 1
                                || regs[0].base == 0 || regs[0].base % 8 != 0 || regs[0].size < 0x28
                                || list[0].1[0] >= lines {
                                None
                            } else {
                                Some(
                                    (
                                        list[0],
                                        GpioProvider::Loongson2k1000 {
                                            mmio: regs[0],
                                            ngpios: lines as u8,
                                        },
                                    ),
                                )
                            },
                            _ => None,
                        }
                    } else {
                        Some((list[0], GpioProvider::Unsupported { phandle: handle }))
                    }
                },
            }
        },
    }
}

/// Node `i`'s card-detect properties are well formed: the two flags carry
/// no value, at most one of them and `cd-gpios` is present, and a
/// `cd-gpios` line is well formed.
pub open spec fn card_detect_ok(tree: DeviceTree, i: int) -> bool {
    let node = tree.nodes@[i];
    match (boolean_property(node, "non-removable"@), boolean_property(node, "broken-cd"@)) {
        (Some(non_removable), Some(broken)) => {
            let gpio = prop(node, "cd-gpios"@) is Some;
            &&& (if non_removable {
                1int
            } else {
                0
            }) + (if broken {
                1int
            } else {
                0
            }) + (if gpio {
                1int
            } else {
                0
            }) <= 1
            &&& (gpio ==> gpio_card_detect(tree, i) is Some)
        },
        _ => false,
    }
}

/// `detect` is node `i`'s card-detect method.
pub open spec fn card_detect_is(tree: DeviceTree, i: int, detect: CardDetect) -> bool {
    let node = tree.nodes@[i];
    &&& card_detect_ok(tree, i)
    &&& if boolean_property(node, "non-removable"@) == Some(true) {
        detect == CardDetect::NonRemovable
    } else if boolean_property(node, "broken-cd"@) == Some(true) {
        detect == CardDetect::Broken
    } else if prop(node, "cd-gpios"@) is Some {
        let (specifier, provider) = gpio_card_detect(tree, i)->Some_0;
        &&& detect matches CardDetect::Gpio(line)
        &&& resource_view(line.specifier) == specifier
        &&& line.provider == provider
        &&& line.pin == specifier.1[0] as u8
        &&& line.active_low == (specifier.1[1] == 1)
    } else {
        detect == CardDetect::Native
    }
}

/// Determines how an MMC host detects its card.
pub fn mmc_card_detect(tree: &DeviceTree, index: usize) -> (detect: Result<CardDetect, DriverError>)
    requires
        index < tree.nodes@.len(),
    ensures
        match detect {
            Ok(found) => card_detect_is(*tree, index as int, found),
            Err(error) => error == DriverError::InvalidDtb && !card_detect_ok(*tree, index as int),
        },
{
    let node = &tree.nodes[index];
    let non_removable = match node.boolean_property("non-removable") {
        Ok(flag) => flag,
        Err(error) => return Err(error),
    };
    let broken = match node.boolean_property("broken-cd") {
        Ok(flag) => flag,
        Err(error) => return Err(error),
    };
    let gpio = node.has_property("cd-gpios");
    let present: u8 = (if non_removable {
        1u8
    } else {
        0
    }) + (if broken {
        1u8
    } else {
        0
    }) + (if gpio {
        1u8
    } else {
        0
    });
    if present > 1 {
        return Err(DriverError::InvalidDtb);
    }
    if non_removable {
        Ok(CardDetect::NonRemovable)
    } else if broken {
        Ok(CardDetect::Broken)
    } else if gpio {
        let mut specifiers = match resource_specifiers(tree, index, "cd-gpios", "#gpio-cells") {
            Ok(list) => list,
            Err(error) => return Err(error),
        };
        if specifiers.len() != 1 {
            return Err(DriverError::InvalidDtb);
        }
        let specifier = specifiers.remove(0);
        assert(resource_views(specifiers@.insert(0, specifier))[0] == resource_view(specifier));
        if specifier.args.len() != 2 || specifier.args[1] > 1 {
            return Err(DriverError::InvalidDtb);
        }
        let at = match tree.find_phandle(specifier.provider_phandle) {
            Some(at) => at,
            None => return Err(DriverError::InvalidDtb),
        };
        let provider_node = &tree.nodes[at];
        let provider = if provider_node.has_compatible("loongson,ls2k1000-gpio")
            && provider_node.has_compatible("loongson,ls2k-gpio") {
            let regs = match regions(provider_node) {
                Ok(regs) => regs,
                Err(error) => return Err(error),
            };
            let ngpios = match provider_node.property_u32("ngpios") {
                Some(count) => count,
                None => return Err(DriverError::InvalidDtb),
            };
            if ngpios < 1 || ngpios > 64 {
                return Err(DriverError::InvalidDtb);
            }
            if regs.len() != 1 || regs[0].base == 0 || regs[0].base % 8 != 0 || regs[0].size < 0x28
                || specifier.args[0] >= ngpios {
                return Err(DriverError::InvalidDtb);
            }
            GpioProvider::Loongson2k1000 { mmio: regs[0], ngpios: ngpios as u8 }
        } else {
            GpioProvider::Unsupported { phandle: specifier.provider_phandle }
        };
        let pin = specifier.args[0] as u8;
        let active_low = specifier.args[1] == 1;
        Ok(CardDetect::Gpio(GpioLineDescription { specifier, provider, pin, active_low }))
    } else {
        Ok(CardDetect::Native)
    }
}

/// Node `c` is a 2K pin controller with a child carrying `handle`.
pub open spec fn pinctrl_candidate(tree: DeviceTree, c: int, handle: u32) -> bool {
    &&& 0 <= c < tree.nodes@.len()
    &&& has_compatible(tree.nodes@[c], "loongson,ls2k-pinctrl"@)
    &&& exists|j: int|
        0 <= j < tree.nodes@[c].children@.len() && node_phandle(
            tree.nodes@[tree.nodes@[c].children@[j] as int],
        ) == Some(handle)
}

/// `c` is the only pin controller with a child carrying `handle`.
pub open spec fn sole_pinctrl(tree: DeviceTree, c: int, handle: u32) -> bool {
    &&& pinctrl_candidate(tree, c, handle)
    &&& forall|d: int| #[trigger] pinctrl_candidate(tree, d, handle) ==> d == c
}

/// A pin-mux mapping: 0 routes `sdio` to the SDIO function, 1 routes
/// `pwm2` to GPIO; anything else is unsupported.
pub open spec fn mapping_kind(node: DtNode) -> Option<int> {
    match (string_list(node, "groups"@), string_list(node, "function"@)) {
        (Some(groups), Some(functions)) => if groups == seq!["sdio"@] && functions == seq!["sdio"@] {
            Some(0)
        } else if groups == seq!["pwm2"@] && functions == seq!["gpio"@] {
            Some(1)
        } else {
            None
        },
        _ => None,
    }
}

/// The pin state's mappings are exactly the SDIO and the card-detect GPIO
/// mapping, once each.
pub open spec fn state_mappings_valid(tree: DeviceTree, state: int) -> bool {
    let kids = tree.nodes@[state].children@;
    &&& forall|j: int| 0 <= j < kids.len() ==> (#[trigger] mapping_kind(tree.nodes@[kids[j] as int])) is Some
    &&& forall|a: int, b: int|
        0 <= a < b < kids.len() ==> #[trigger] mapping_kind(tree.nodes@[kids[a] as int])
            != #[trigger] mapping_kind(tree.nodes@[kids[b] as int])
    &&& exists|j: int| 0 <= j < kids.len() && mapping_kind(tree.nodes@[kids[j] as int]) == Some(0int)
    &&& exists|j: int| 0 <= j < kids.len() && mapping_kind(tree.nodes@[kids[j] as int]) == Some(1int)
}

/// Phandle and node of the `default` pin state node `i` asks for: the
/// names must be exactly `default` and the state one resolvable phandle.
pub open spec fn pinctrl_state(tree: DeviceTree, i: int) -> Option<(u32, int)> {
    let node = tree.nodes@[i];
    match (prop(node, "pinctrl-names"@), prop(node, "pinctrl-0"@)) {
        (Some(names), Some(states)) => if names != utf8_bytes("default\0"@) || states.len() != 4 {
            None
        } else {
            let handle = be_u32_at(states, 0);
            match find_phandle(tree, handle) {
                Some(state) => Some((handle, state)),
                None => None,
            }
        },
        _ => None,
    }
}

/// Node `i`'s pin configuration: none without `pinctrl-names` and
/// `pinctrl-0`; otherwise its `default` state, served by an unsupported
/// provider when no 2K pin controller owns it, or by the only such
/// controller, enabled, with one usable window (non-zero, 4-byte aligned,
/// at least 0x18 bytes), whose state holds exactly the SDIO and
/// card-detect mappings.
pub open spec fn pinctrl_of(tree: DeviceTree, i: int) -> Option<Option<MmcPinctrlDescription>> {
    let node = tree.nodes@[i];
    match (prop(node, "pinctrl-names"@), prop(node, "pinctrl-0"@)) {
        (None, None) => Some(None),
        (Some(_), Some(_)) => match pinctrl_state(tree, i) {
            None => None,
            Some((handle, state)) => if !exists|c: int| pinctrl_candidate(tree, c, handle) {
                Some(
                    Some(
                        MmcPinctrlDescription {
                            state_phandle: handle,
                            provider: PinctrlProvider::Unsupported,
                        },
                    ),
                )
            } else if !exists|c: int| sole_pinctrl(tree, c, handle) {
                None
            } else {
                let c = choose|c: int| sole_pinctrl(tree, c, handle);
                if node_enabled(tree.nodes@[c]) != Some(true) {
                    None
                } else {
                    match node_regions(tree.nodes@[c]) {
                        None => None,
                        Some(regs) => if regs.len() != 1 || regs[0].base == 0 || regs[0].base % 4 != 0
                            || regs[0].size < 0x18 || !state_mappings_valid(tree, state) {
                            None
                        } else {
                            Some(
                                Some(
                                    MmcPinctrlDescription {
                                        state_phandle: handle,
                                        provider: PinctrlProvider::Loongson2k { mmio: regs[0] },
                                    },
                                ),
                            )
                        },
                    }
                }
            },
        },
        _ => None,
    }
}

fn single_text(list: &Vec<String>, text: &str) -> (single: bool)
    ensures
        single == (text_views(list@) == seq![text@]),
{
    let expected = String::from_str(text);
    let found = list.len() == 1 && list[0] == expected;
    proof {
        if text_views(list@) == seq![text@] {
            assert(text_views(list@).len() == list@.len());
            assert(text_views(list@)[0] == list@[0]@);
        }
        if found {
            assert(text_views(list@) =~= seq![text@]);
        }
    }
    found
}

fn mapping_kind_of(node: &DtNode) -> (kind: Option<usize>)
    ensures
        match kind {
            Some(k) => mapping_kind(*node) == Some(k as int),
            None => mapping_kind(*node) is None,
        },
{
    let groups = match node.string_list("groups") {
        Ok(list) => list,
        Err(_) => return None,
    };
    let functions = match node.string_list("function") {
        Ok(list) => list,
        Err(_) => return None,
    };
    if single_text(&groups, "sdio") && single_text(&functions, "sdio") {
        Some(0)
    } else if single_text(&groups, "pwm2") && single_text(&functions, "gpio") {
        Some(1)
    } else {
        None
    }
}

fn owns_state(tree: &DeviceTree, candidate: usize, handle: u32) -> (owns: bool)
    requires
        tree.well_formed(),
        candidate < tree.nodes@.len(),
    ensures
        owns == pinctrl_candidate(*tree, candidate as int, handle),
{
    if !tree.nodes[candidate].has_compatible("loongson,ls2k-pinctrl") {
        return false;
    }
    let kids = &tree.nodes[candidate].children;
    let mut j: usize = 0;
    while j < kids.len()
        invariant
            tree.well_formed(),
            candidate < tree.nodes@.len(),
            has_compatible(tree.nodes@[candidate as int], "loongson,ls2k-pinctrl"@),
            *kids == tree.nodes@[candidate as int].children,
            j <= kids@.len(),
            forall|b: int|
                0 <= b < j ==> node_phandle(tree.nodes@[#[trigger] kids@[b] as int]) != Some(handle),
        decreases kids@.len() - j,
    {
        let child = kids[j];
        assert(child < tree.nodes@.len());
        if tree.nodes[child].phandle() == Some(handle) {
            assert(0 <= j < tree.nodes@[candidate as int].children@.len() && node_phandle(
                tree.nodes@[tree.nodes@[candidate as int].children@[j as int] as int],
            ) == Some(handle));
            return true;
        }
        j = j + 1;
    }
    false
}

fn state_mappings_ok(tree: &DeviceTree, state: usize) -> (ok: bool)
    requires
        tree.well_formed(),
        state < tree.nodes@.len(),
    ensures
        ok == state_mappings_valid(*tree, state as int),
{
    let kids = &tree.nodes[state].children;
    let mut sdio = false;
    let mut card_detect_gpio = false;
    let mut j: usize = 0;
    while j < kids.len()
        invariant
            tree.well_formed(),
            state < tree.nodes@.len(),
            *kids == tree.nodes@[state as int].children,
            j <= kids@.len(),
            forall|b: int| 0 <= b < j ==> (#[trigger] mapping_kind(tree.nodes@[kids@[b] as int])) is Some,
            forall|a: int, b: int|
                0 <= a < b < j ==> #[trigger] mapping_kind(tree.nodes@[kids@[a] as int])
                    != #[trigger] mapping_kind(tree.nodes@[kids@[b] as int]),
            sdio == exists|b: int| 0 <= b < j && mapping_kind(tree.nodes@[kids@[b] as int]) == Some(0int),
            card_detect_gpio == exists|b: int|
                0 <= b < j && mapping_kind(tree.nodes@[kids@[b] as int]) == Some(1int),
        decreases kids@.len() - j,
    {
        let child = kids[j];
        assert(child < tree.nodes@.len());
        let kind = mapping_kind_of(&tree.nodes[child]);
        let ghost here = mapping_kind(tree.nodes@[kids@[j as int] as int]);
        if kind == Some(0usize) && !sdio {
            sdio = true;
        } else if kind == Some(1usize) && !card_detect_gpio {
            card_detect_gpio = true;
        } else {
            proof {
                if here is Some {
                    let b = choose|b: int| 0 <= b < j && mapping_kind(tree.nodes@[kids@[b] as int]) == here;
                    assert(mapping_kind(tree.nodes@[kids@[b] as int]) == mapping_kind(
                        tree.nodes@[kids@[j as int] as int],
                    ));
                }
            }
            return false;
        }
        proof {
            assert forall|a: int, b: int|
                0 <= a < b < j + 1 implies #[trigger] mapping_kind(tree.nodes@[kids@[a] as int])
                != #[trigger] mapping_kind(tree.nodes@[kids@[b] as int]) by {
                if b == j {
                    if mapping_kind(tree.nodes@[kids@[a] as int]) == here {
                        assert(0 <= a < j && mapping_kind(tree.nodes@[kids@[a] as int]) == here);
                    }
                }
            }
        }
        j = j + 1;
    }
    sdio && card_detect_gpio
}

/// Describes an MMC host's pin configuration.
#[verifier::rlimit(40)]
pub fn mmc_pinctrl(tree: &DeviceTree, index: usize) -> (pinctrl: Result<
    Option<MmcPinctrlDescription>,
    DriverError,
>)
    requires
        tree.well_formed(),
        index < tree.nodes@.len(),
    ensures
        match pinctrl {
            Ok(found) => pinctrl_of(*tree, index as int) == Some(found),
            Err(error) => error == DriverError::InvalidDtb && pinctrl_of(*tree, index as int) is None,
        },
{
    let node = &tree.nodes[index];
    let (names, states) = match (node.property("pinctrl-names"), node.property("pinctrl-0")) {
        (Some(names), Some(states)) => (names, states),
        (None, None) => return Ok(None),
        _ => return Err(DriverError::InvalidDtb),
    };
    if !bytes_equal(names, "default\0".as_bytes()) || states.len() != 4 {
        return Err(DriverError::InvalidDtb);
    }
    let state_phandle = match read_be_u32(states, 0) {
        Some(handle) => handle,
        None => return Err(DriverError::InvalidDtb),
    };
    let state = match tree.find_phandle(state_phandle) {
        Some(state) => state,
        None => return Err(DriverError::InvalidDtb),
    };
    let mut provider: Option<usize> = None;
    let mut candidate: usize = 0;
    while candidate < tree.nodes.len()
        invariant
            tree.well_formed(),
            index < tree.nodes@.len(),
            prop(tree.nodes@[index as int], "pinctrl-names"@) is Some,
            prop(tree.nodes@[index as int], "pinctrl-0"@) is Some,
            pinctrl_state(*tree, index as int) == Some((state_phandle, state as int)),
            candidate <= tree.nodes@.len(),
            match provider {
                None => forall|d: int| 0 <= d < candidate ==> !pinctrl_candidate(*tree, d, state_phandle),
                Some(c) => {
                    &&& c < candidate
                    &&& pinctrl_candidate(*tree, c as int, state_phandle)
                    &&& node_enabled(tree.nodes@[c as int]) == Some(true)
                    &&& forall|d: int|
                        0 <= d < candidate && #[trigger] pinctrl_candidate(*tree, d, state_phandle)
                            ==> d == c
                },
            },
        decreases tree.nodes@.len() - candidate,
    {
        if owns_state(tree, candidate, state_phandle) {
            if provider.is_some() {
                proof {
                    let c = provider->Some_0;
                    if exists|e: int| sole_pinctrl(*tree, e, state_phandle) {
                        let e = choose|e: int| sole_pinctrl(*tree, e, state_phandle);
                        assert(pinctrl_candidate(*tree, c as int, state_phandle));
                        assert(pinctrl_candidate(*tree, candidate as int, state_phandle));
                    }
                }
                return Err(DriverError::InvalidDtb);
            }
            let enabled = match tree.nodes[candidate].enabled() {
                Ok(on) => on,
                Err(error) => {
                    proof {
                        if exists|e: int| sole_pinctrl(*tree, e, state_phandle) {
                            let e = choose|e: int| sole_pinctrl(*tree, e, state_phandle);
                            assert(pinctrl_candidate(*tree, candidate as int, state_phandle));
                        }
                    }
                    return Err(error);
                },
            };
            if !enabled {
                proof {
                    if exists|e: int| sole_pinctrl(*tree, e, state_phandle) {
                        let e = choose|e: int| sole_pinctrl(*tree, e, state_phandle);
                        assert(pinctrl_candidate(*tree, candidate as int, state_phandle));
                    }
                }
                return Err(DriverError::InvalidDtb);
            }
            provider = Some(candidate);
        }
        candidate = candidate + 1;
    }
    let owner = match provider {
        Some(owner) => owner,
        None => {
            return Ok(
                Some(MmcPinctrlDescription { state_phandle, provider: PinctrlProvider::Unsupported }),
            );
        },
    };
    proof {
        assert(sole_pinctrl(*tree, owner as int, state_phandle));
        let e = choose|e: int| sole_pinctrl(*tree, e, state_phandle);
        assert(pinctrl_candidate(*tree, owner as int, state_phandle));
    }
    let regs = match regions(&tree.nodes[owner]) {
        Ok(regs) => regs,
        Err(error) => return Err(error),
    };
    if regs.len() != 1 || regs[0].base == 0 || regs[0].base % 4 != 0 || regs[0].size < 0x18 {
        return Err(DriverError::InvalidDtb);
    }
    if !state_mappings_ok(tree, state) {
        return Err(DriverError::InvalidDtb);
    }
    Ok(
        Some(
            MmcPinctrlDescription {
                state_phandle,
                provider: PinctrlProvider::Loongson2k { mmio: regs[0] },
            },
        ),
    )
}

/// Names of the per-core ISR windows, `isr0` to `isr3`.
pub open spec fn isr_name(core: int) -> Seq<char> {
    if core == 0 {
        "isr0"@
    } else if core == 1 {
        "isr1"@
    } else if core == 2 {
        "isr2"@
    } else {
        "isr3"@
    }
}

/// A UART node: one window, one interrupt and a clock frequency.
pub open spec fn uart_ok(tree: DeviceTree, i: int) -> bool {
    let node = tree.nodes@[i];
    &&& node_regions(node) is Some
    &&& node_regions(node)->Some_0.len() == 1
    &&& sole_interrupt(tree, i)
    &&& prop_u32(node, "clock-frequency"@) is Some
}

/// `d` describes UART node `i`; the register shift defaults to 0.
pub open spec fn uart_is(tree: DeviceTree, i: int, d: UartDescription) -> bool {
    let node = tree.nodes@[i];
    &&& uart_ok(tree, i)
    &&& seq![d.mmio] == node_regions(node)->Some_0
    &&& seq![d.interrupt] == interrupt_list(tree, i)
    &&& prop_u32(node, "clock-frequency"@) == Some(d.clock_hz)
    &&& d.register_shift == match prop_u32(node, "reg-shift"@) {
        Some(shift) => shift,
        None => 0,
    }
}

/// An interrupt-controller node: two to five windows named `main` then
/// `isr0`.. in order, one to four interrupt cells, and valid parent routes.
pub open spec fn interrupt_controller_ok(tree: DeviceTree, i: int) -> bool {
    let node = tree.nodes@[i];
    match (node_regions(node), string_list(node, "reg-names"@), interrupt_cells(node)) {
        (Some(regs), Some(names), Some(cells)) => {
            &&& 2 <= regs.len() <= 5
            &&& names.len() == regs.len()
            &&& names[0] == "main"@
            &&& forall|k: int| 1 <= k < names.len() ==> #[trigger] names[k] == isr_name(k - 1)
            &&& 1 <= cells <= MAX_INTERRUPT_CELLS
            &&& parent_routes(tree, i) is Some
        },
        _ => false,
    }
}

/// `d` describes interrupt-controller node `i`.
pub open spec fn interrupt_controller_is(tree: DeviceTree, i: int, d: InterruptControllerDescription) -> bool {
    let node = tree.nodes@[i];
    let regs = node_regions(node)->Some_0;
    let (names, map) = parent_routes(tree, i)->Some_0;
    &&& interrupt_controller_ok(tree, i)
    &&& d.phandle == node_phandle(node)
    &&& d.main_mmio == regs[0]
    &&& d.core_isr@ == regs.subrange(1, regs.len() as int)
    &&& d.interrupt_cells == interrupt_cells(node)->Some_0 as u8
    &&& parents_by_line(names, interrupt_list(tree, i), d.parent_interrupts)
    &&& forall|l: int| 0 <= l < 4 ==> #[trigger] d.parent_source_maps[l] == route_cell(map, l)
}

/// Clocks of node `i`, with optional names.
pub open spec fn clock_list(tree: DeviceTree, i: int) -> Option<Seq<(Option<Seq<char>>, (u32, Seq<u32>))>> {
    named_resource_list(tree, i, "clocks"@, "clock-names"@, "#clock-cells"@, false)
}

/// An APB DMA node: one 8-byte window at a non-zero 4-byte aligned base,
/// one clock, one DMA cell, a phandle and one interrupt.
pub open spec fn dma_controller_ok(tree: DeviceTree, i: int) -> bool {
    let node = tree.nodes@[i];
    match (node_regions(node), clock_list(tree, i)) {
        (Some(regs), Some(clocks)) => {
            &&& regs.len() == 1
            &&& regs[0].size == 8
            &&& regs[0].base != 0
            &&& regs[0].base % 4 == 0
            &&& clocks.len() == 1
            &&& prop_u32(node, "#dma-cells"@) == Some(1u32)
            &&& node_phandle(node) is Some
            &&& sole_interrupt(tree, i)
        },
        _ => false,
    }
}

/// `d` describes APB DMA node `i`.
pub open spec fn dma_controller_is(tree: DeviceTree, i: int, d: DmaControllerDescription) -> bool {
    let node = tree.nodes@[i];
    &&& dma_controller_ok(tree, i)
    &&& node_phandle(node) == Some(d.phandle)
    &&& d.mmio == node_regions(node)->Some_0[0]
    &&& seq![d.interrupt] == interrupt_list(tree, i)
    &&& named_view(d.clock) == clock_list(tree, i)->Some_0[0]
    &&& d.channel_cells == 1
}

/// The MMC host's DMA channel: none without `dmas` and `dma-names`;
/// otherwise exactly one channel named `rx-tx`.
pub open spec fn mmc_dma_of(tree: DeviceTree, i: int) -> Option<Option<(Option<Seq<char>>, (u32, Seq<u32>))>> {
    let node = tree.nodes@[i];
    match (prop(node, "dmas"@), prop(node, "dma-names"@)) {
        (None, None) => Some(None),
        (Some(_), Some(_)) => match named_resource_list(tree, i, "dmas"@, "dma-names"@, "#dma-cells"@, true) {
            Some(list) => if list.len() == 1 && list[0].0 == Some("rx-tx"@) {
                Some(Some(list[0]))
            } else {
                None
            },
            None => None,
        },
        _ => None,
    }
}

/// The MMC host's bus width, 1 when unspecified.
pub open spec fn mmc_bus_width(node: DtNode) -> u32 {
    match prop_u32(node, "bus-width"@) {
        Some(width) => width,
        None => 1,
    }
}

/// An MMC host node: one or two windows, one clock with a known provider,
/// a well-formed DMA channel, a 1-, 4- or 8-bit bus, one interrupt, and
/// well-formed pin, card-detect and supply properties.
pub open spec fn mmc_ok(tree: DeviceTree, i: int) -> bool {
    let node = tree.nodes@[i];
    match (node_regions(node), clock_list(tree, i)) {
        (Some(regs), Some(clocks)) => {
            &&& 1 <= regs.len() <= 2
            &&& clocks.len() == 1
            &&& clock_provider_of(tree, clocks[0]) is Some
            &&& mmc_dma_of(tree, i) is Some
            &&& (mmc_bus_width(node) == 1 || mmc_bus_width(node) == 4 || mmc_bus_width(node) == 8)
            &&& sole_interrupt(tree, i)
            &&& pinctrl_of(tree, i) is Some
            &&& card_detect_ok(tree, i)
            &&& supply_of(tree, i, "vmmc-supply"@) is Some
            &&& supply_of(tree, i, "vqmmc-supply"@) is Some
        },
        _ => false,
    }
}

/// `d` describes MMC host node `i`.
pub open spec fn mmc_is(tree: DeviceTree, i: int, d: MmcDescription) -> bool {
    let node = tree.nodes@[i];
    let regs = node_regions(node)->Some_0;
    let clocks = clock_list(tree, i)->Some_0;
    &&& mmc_ok(tree, i)
    &&& d.controller_mmio == regs[0]
    &&& d.auxiliary_mmio == (if regs.len() == 2 {
        Some(regs[1])
    } else {
        None
    })
    &&& seq![d.interrupt] == interrupt_list(tree, i)
    &&& named_views(d.clocks@) == clocks
    &&& clock_provider_of(tree, clocks[0]) == Some(d.clock_provider)
    &&& mmc_dma_of(tree, i) == Some(
        match d.dma {
            Some(channel) => Some(named_view(channel)),
            None => None,
        },
    )
    &&& d.bus_width == mmc_bus_width(node) as u8
    &&& pinctrl_of(tree, i) == Some(d.pinctrl)
    &&& card_detect_is(tree, i, d.card_detect)
    &&& supply_of(tree, i, "vmmc-supply"@) == Some(d.vmmc_supply)
    &&& supply_of(tree, i, "vqmmc-supply"@) == Some(d.vqmmc_supply)
}

/// Names of a network node's interrupts; none when the property is absent.
pub open spec fn interrupt_name_list(node: DtNode) -> Option<Seq<Seq<char>>> {
    match prop(node, "interrupt-names"@) {
        Some(_) => string_list(node, "interrupt-names"@),
        None => Some(seq![]),
    }
}

/// A network node: well-formed interrupts, names and PHY mode.
pub open spec fn network_ok(tree: DeviceTree, i: int) -> bool {
    let node = tree.nodes@[i];
    &&& interrupt_source(tree, i) is Some
    &&& interrupt_name_list(node) is Some
    &&& optional_text(node, "phy-mode"@) is Some
}

/// `d` describes network node `i`.
pub open spec fn network_is(tree: DeviceTree, i: int, d: NetworkDescription) -> bool {
    let node = tree.nodes@[i];
    &&& network_ok(tree, i)
    &&& pci_address(node) == Some((d.bus, d.device, d.function))
    &&& d.interrupts@ == interrupt_list(tree, i)
    &&& interrupt_name_list(node) == Some(text_views(d.interrupt_names@))
    &&& optional_text(node, "phy-mode"@) == Some(
        match d.phy_mode {
            Some(mode) => Some(mode@),
            None => None,
        },
    )
    &&& d.phy_handle == prop_u32(node, "phy-handle"@)
}

fn describe_uart(tree: &DeviceTree, index: usize) -> (d: Result<UartDescription, DriverError>)
    requires
        index < tree.nodes@.len(),
    ensures
        match d {
            Ok(found) => uart_is(*tree, index as int, found),
            Err(error) => error == DriverError::InvalidDtb && !uart_ok(*tree, index as int),
        },
{
    let node = &tree.nodes[index];
    let regs = match regions(node) {
        Ok(regs) => regs,
        Err(error) => return Err(error),
    };
    if regs.len() != 1 {
        return Err(DriverError::InvalidDtb);
    }
    let interrupt = match interrupt(tree, index) {
        Ok(spec) => spec,
        Err(error) => return Err(error),
    };
    let clock_hz = match node.property_u32("clock-frequency") {
        Some(hz) => hz,
        None => return Err(DriverError::InvalidDtb),
    };
    let register_shift = match node.property_u32("reg-shift") {
        Some(shift) => shift,
        None => 0,
    };
    assert(regs@ =~= seq![regs@[0]]);
    Ok(UartDescription { mmio: regs[0], interrupt, clock_hz, register_shift })
}

fn isr_text(core: usize) -> (name: String)
    ensures
        name@ == isr_name(core as int),
{
    if core == 0 {
        String::from_str("isr0")
    } else if core == 1 {
        String::from_str("isr1")
    } else if core == 2 {
        String::from_str("isr2")
    } else {
        String::from_str("isr3")
    }
}

fn describe_interrupt_controller(tree: &DeviceTree, index: usize) -> (d: Result<
    InterruptControllerDescription,
    DriverError,
>)
    requires
        index < tree.nodes@.len(),
    ensures
        match d {
            Ok(found) => interrupt_controller_is(*tree, index as int, found),
            Err(error) => error == DriverError::InvalidDtb && !interrupt_controller_ok(
                *tree,
                index as int,
            ),
        },
{
    let node = &tree.nodes[index];
    let regs = match regions(node) {
        Ok(regs) => regs,
        Err(error) => return Err(error),
    };
    let names = match node.string_list("reg-names") {
        Ok(names) => names,
        Err(error) => return Err(error),
    };
    let ghost name_views = text_views(names@);
    if regs.len() < 2 || regs.len() > 5 || names.len() != regs.len() {
        return Err(DriverError::InvalidDtb);
    }
    assert(name_views[0] == names@[0]@);
    if !(names[0] == String::from_str("main")) {
        return Err(DriverError::InvalidDtb);
    }
    let mut core: usize = 0;
    while core + 1 < names.len()
        invariant
            index < tree.nodes@.len(),
            string_list(tree.nodes@[index as int], "reg-names"@) == Some(name_views),
            node_regions(tree.nodes@[index as int]) == Some(regs@),
            names@.len() == regs@.len(),
            name_views == text_views(names@),
            2 <= names@.len() <= 5,
            core + 1 <= names@.len(),
            forall|k: int| 1 <= k < core + 1 ==> #[trigger] name_views[k] == isr_name(k - 1),
        decreases names@.len() - core,
    {
        assert(name_views[core + 1] == names@[core + 1]@);
        if !(names[core + 1] == isr_text(core)) {
            assert(name_views[core + 1] != isr_name(core + 1 - 1));
            return Err(DriverError::InvalidDtb);
        }
        core = core + 1;
    }
    let interrupt_cells = match node.interrupt_cells() {
        Some(cells) => cells,
        None => return Err(DriverError::InvalidDtb),
    };
    if interrupt_cells == 0 || interrupt_cells > MAX_INTERRUPT_CELLS {
        return Err(DriverError::InvalidDtb);
    }
    let (parent_interrupts, parent_source_maps) = match parse_parent_routes(tree, index) {
        Ok(routes) => routes,
        Err(error) => return Err(error),
    };
    let mut core_isr: Vec<MmioRegion> = Vec::new();
    let mut at: usize = 1;
    while at < regs.len()
        invariant
            1 <= at <= regs@.len(),
            core_isr@ == regs@.subrange(1, at as int),
        decreases regs@.len() - at,
    {
        core_isr.push(regs[at]);
        assert(regs@.subrange(1, at + 1) =~= regs@.subrange(1, at as int).push(regs@[at as int]));
        at = at + 1;
    }
    Ok(
        InterruptControllerDescription {
            phandle: node.phandle(),
            main_mmio: regs[0],
            core_isr,
            interrupt_cells: interrupt_cells as u8,
            parent_interrupts,
            parent_source_maps,
        },
    )
}

fn describe_dma_controller(tree: &DeviceTree, index: usize) -> (d: Result<
    DmaControllerDescription,
    DriverError,
>)
    requires
        index < tree.nodes@.len(),
    ensures
        match d {
            Ok(found) => dma_controller_is(*tree, index as int, found),
            Err(error) => error == DriverError::InvalidDtb && !dma_controller_ok(*tree, index as int),
        },
{
    let node = &tree.nodes[index];
    let regs = match regions(node) {
        Ok(regs) => regs,
        Err(error) => return Err(error),
    };
    if regs.len() != 1 || regs[0].size != 8 || regs[0].base == 0 || regs[0].base % 4 != 0 {
        return Err(DriverError::InvalidDtb);
    }
    let mut clocks = match named_resources(tree, index, "clocks", "clock-names", "#clock-cells", false) {
        Ok(clocks) => clocks,
        Err(error) => return Err(error),
    };
    if clocks.len() != 1 || node.property_u32("#dma-cells") != Some(1u32) {
        return Err(DriverError::InvalidDtb);
    }
    let phandle = match node.phandle() {
        Some(handle) => handle,
        None => return Err(DriverError::InvalidDtb),
    };
    let interrupt = match interrupt(tree, index) {
        Ok(spec) => spec,
        Err(error) => return Err(error),
    };
    let ghost views = named_views(clocks@);
    let clock = clocks.remove(0);
    assert(views[0] == named_view(clock));
    Ok(DmaControllerDescription { phandle, mmio: regs[0], interrupt, clock, channel_cells: 1 })
}

fn describe_mmc(tree: &DeviceTree, index: usize) -> (d: Result<MmcDescription, DriverError>)
    requires
        tree.well_formed(),
        index < tree.nodes@.len(),
    ensures
        match d {
            Ok(found) => mmc_is(*tree, index as int, found),
            Err(error) => error == DriverError::InvalidDtb && !mmc_ok(*tree, index as int),
        },
{
    let node = &tree.nodes[index];
    let regs = match regions(node) {
        Ok(regs) => regs,
        Err(error) => return Err(error),
    };
    if regs.len() < 1 || regs.len() > 2 {
        return Err(DriverError::InvalidDtb);
    }
    let clocks = match named_resources(tree, index, "clocks", "clock-names", "#clock-cells", false) {
        Ok(clocks) => clocks,
        Err(error) => return Err(error),
    };
    if clocks.len() != 1 {
        return Err(DriverError::InvalidDtb);
    }
    assert(named_views(clocks@)[0] == named_view(clocks@[0]));
    let clock_provider = match mmc_clock_provider(tree, &clocks[0]) {
        Ok(provider) => provider,
        Err(error) => return Err(error),
    };
    let dma = match describe_mmc_dma(tree, index) {
        Ok(dma) => dma,
        Err(error) => return Err(error),
    };
    let bus_width = match node.property_u32("bus-width") {
        Some(width) => width,
        None => 1,
    };
    if bus_width != 1 && bus_width != 4 && bus_width != 8 {
        return Err(DriverError::InvalidDtb);
    }
    let interrupt = match interrupt(tree, index) {
        Ok(spec) => spec,
        Err(error) => return Err(error),
    };
    let pinctrl = match mmc_pinctrl(tree, index) {
        Ok(pinctrl) => pinctrl,
        Err(error) => return Err(error),
    };
    let card_detect = match mmc_card_detect(tree, index) {
        Ok(detect) => detect,
        Err(error) => return Err(error),
    };
    let vmmc_supply = match supply_description(tree, index, "vmmc-supply") {
        Ok(supply) => supply,
        Err(error) => return Err(error),
    };
    let vqmmc_supply = match supply_description(tree, index, "vqmmc-supply") {
        Ok(supply) => supply,
        Err(error) => return Err(error),
    };
    let auxiliary_mmio = if regs.len() == 2 {
        Some(regs[1])
    } else {
        None
    };
    Ok(
        MmcDescription {
            controller_mmio: regs[0],
            auxiliary_mmio,
            interrupt,
            clocks,
            clock_provider,
            dma,
            bus_width: bus_width as u8,
            pinctrl,
            card_detect,
            vmmc_supply,
            vqmmc_supply,
        },
    )
}

fn describe_mmc_dma(tree: &DeviceTree, index: usize) -> (dma: Result<Option<NamedResource>, DriverError>)
    requires
        index < tree.nodes@.len(),
    ensures
        match dma {
            Ok(found) => mmc_dma_of(*tree, index as int) == Some(
                match found {
                    Some(channel) => Some(named_view(channel)),
                    None => None,
                },
            ),
            Err(error) => error == DriverError::InvalidDtb && mmc_dma_of(*tree, index as int) is None,
        },
{
    let node = &tree.nodes[index];
    let dmas = node.has_property("dmas");
    let dma_names = node.has_property("dma-names");
    if !dmas && !dma_names {
        return Ok(None);
    }
    if !dmas || !dma_names {
        return Err(DriverError::InvalidDtb);
    }
    let mut resources = match named_resources(tree, index, "dmas", "dma-names", "#dma-cells", true) {
        Ok(resources) => resources,
        Err(error) => return Err(error),
    };
    if resources.len() != 1 {
        return Err(DriverError::InvalidDtb);
    }
    let ghost views = named_views(resources@);
    assert(views[0] == named_view(resources@[0]));
    let named_rx_tx = match &resources[0].name {
        Some(name) => *name == String::from_str("rx-tx"),
        None => false,
    };
    if !named_rx_tx {
        return Err(DriverError::InvalidDtb);
    }
    let channel = resources.remove(0);
    Ok(Some(channel))
}

fn describe_network(tree: &DeviceTree, index: usize, address: (u8, u8, u8)) -> (d: Result<
    NetworkDescription,
    DriverError,
>)
    requires
        index < tree.nodes@.len(),
        pci_address(tree.nodes@[index as int]) == Some(address),
    ensures
        match d {
            Ok(found) => network_is(*tree, index as int, found),
            Err(error) => error == DriverError::InvalidDtb && !network_ok(*tree, index as int),
        },
{
    let node = &tree.nodes[index];
    let interrupts = match interrupt_specs(tree, index) {
        Ok(specs) => specs,
        Err(error) => return Err(error),
    };
    if interrupts.len() == 0 {
        proof {
            let (handle, count, raw) = interrupt_source(*tree, index as int)->Some_0;
            assert(interrupts@.len() * (count * 4) == 0) by (nonlinear_arith)
                requires
                    interrupts@.len() == 0,
            ;
        }
        return Err(DriverError::InvalidDtb);
    }
    let interrupt_names = if node.has_property("interrupt-names") {
        match node.string_list("interrupt-names") {
            Ok(names) => names,
            Err(error) => return Err(error),
        }
    } else {
        let none: Vec<String> = Vec::new();
        assert(text_views(none@) =~= Seq::<Seq<char>>::empty());
        none
    };
    let phy_mode = match node.optional_text("phy-mode") {
        Ok(mode) => mode,
        Err(error) => return Err(error),
    };
    let (bus, device, function) = address;
    Ok(
        NetworkDescription {
            bus,
            device,
            function,
            interrupts,
            interrupt_names,
            phy_mode,
            phy_handle: node.property_u32("phy-handle"),
        },
    )
}

/// What discovery makes of a node.
#[derive(Debug, Clone, Copy, PartialEq, Eq, Structural)]
pub enum DiscoveredKind {
    Ignored,
    Network,
    InterruptController,
    DmaController,
    Uart,
    Mmc,
}

/// The node's unit name begins with `prefix`.
pub open spec fn name_has_prefix(name: Seq<char>, prefix: Seq<char>) -> bool {
    &&& utf8_bytes(prefix).len() <= utf8_bytes(name).len()
    &&& utf8_bytes(name).subrange(0, utf8_bytes(prefix).len() as int) == utf8_bytes(prefix)
}

/// How discovery classifies node `i`: disabled nodes are ignored; an
/// `ethernet@` node is a network only at PCI device 3; otherwise the first
/// matching compatible decides. A malformed status, or a malformed PCI
/// address of an `ethernet@` node, classifies nothing.
pub open spec fn node_kind(tree: DeviceTree, i: int) -> Option<DiscoveredKind> {
    let node = tree.nodes@[i];
    match node_enabled(node) {
        None => None,
        Some(false) => Some(DiscoveredKind::Ignored),
        Some(true) => if name_has_prefix(node.name@, "ethernet@"@) {
            match pci_address(node) {
                None => None,
                Some(address) => if address.1 == 3 {
                    Some(DiscoveredKind::Network)
                } else {
                    Some(DiscoveredKind::Ignored)
                },
            }
        } else if has_compatible(node, "loongson,liointc-2.0"@) {
            Some(DiscoveredKind::InterruptController)
        } else if has_compatible(node, "loongson,ls2k1000-apbdma"@) {
            Some(DiscoveredKind::DmaController)
        } else if has_compatible(node, "ns16550a"@) {
            Some(DiscoveredKind::Uart)
        } else if has_compatible(node, "loongson,ls2k1000-mmc"@) {
            Some(DiscoveredKind::Mmc)
        } else {
            Some(DiscoveredKind::Ignored)
        },
    }
}

/// Node `i` is classified and, unless ignored, well formed for its kind.
pub open spec fn node_accepted(tree: DeviceTree, i: int) -> bool {
    match node_kind(tree, i) {
        None => false,
        Some(DiscoveredKind::Ignored) => true,
        Some(DiscoveredKind::Network) => network_ok(tree, i),
        Some(DiscoveredKind::InterruptController) => interrupt_controller_ok(tree, i),
        Some(DiscoveredKind::DmaController) => dma_controller_ok(tree, i),
        Some(DiscoveredKind::Uart) => uart_ok(tree, i),
        Some(DiscoveredKind::Mmc) => mmc_ok(tree, i),
    }
}

/// The tree is well formed and every node in it accepted.
pub open spec fn tree_accepted(tree: DeviceTree) -> bool {
    &&& tree.well_formed()
    &&& forall|i: int| 0 <= i < tree.nodes@.len() ==> #[trigger] node_accepted(tree, i)
}

/// Indices, in blob order, of the first `n` nodes classified as `kind`.
pub open spec fn nodes_of_kind(tree: DeviceTree, kind: DiscoveredKind, n: int) -> Seq<int>
    decreases n,
{
    if n <= 0 {
        seq![]
    } else if node_kind(tree, n - 1) == Some(kind) {
        nodes_of_kind(tree, kind, n - 1).push(n - 1)
    } else {
        nodes_of_kind(tree, kind, n - 1)
    }
}

/// The nodes a kind lists are nodes of that kind, each once, in blob order:
/// so each list of a discovered topology describes distinct nodes in the
/// order the device tree holds them.
pub proof fn lemma_kind_nodes_in_blob_order(tree: DeviceTree, kind: DiscoveredKind, n: int)
    ensures
        forall|k: int|
            0 <= k < nodes_of_kind(tree, kind, n).len() ==> {
                let i = #[trigger] nodes_of_kind(tree, kind, n)[k];
                0 <= i < n && node_kind(tree, i) == Some(kind)
            },
        forall|a: int, b: int|
            0 <= a < b < nodes_of_kind(tree, kind, n).len() ==> #[trigger] nodes_of_kind(
                tree,
                kind,
                n,
            )[a] < #[trigger] nodes_of_kind(tree, kind, n)[b],
    decreases n,
{
    if n > 0 {
        lemma_kind_nodes_in_blob_order(tree, kind, n - 1);
    }
}

/// `list` describes, in order, the first `n` nodes classified as `kind`.
pub open spec fn described_in_order<T>(
    tree: DeviceTree,
    kind: DiscoveredKind,
    n: int,
    list: Seq<T>,
    describes: spec_fn(DeviceTree, int, T) -> bool,
) -> bool {
    let nodes = nodes_of_kind(tree, kind, n);
    &&& list.len() == nodes.len()
    &&& forall|k: int| 0 <= k < list.len() ==> describes(tree, nodes[k], #[trigger] list[k])
}

proof fn lemma_described_push<T>(
    tree: DeviceTree,
    kind: DiscoveredKind,
    n: int,
    list: Seq<T>,
    item: T,
    describes: spec_fn(DeviceTree, int, T) -> bool,
)
    requires
        0 <= n,
        described_in_order(tree, kind, n, list, describes),
        node_kind(tree, n) == Some(kind),
        describes(tree, n, item),
    ensures
        described_in_order(tree, kind, n + 1, list.push(item), describes),
{
    let nodes = nodes_of_kind(tree, kind, n + 1);
    assert(nodes == nodes_of_kind(tree, kind, n).push(n));
    assert forall|k: int| 0 <= k < list.len() + 1 implies describes(
        tree,
        nodes[k],
        #[trigger] list.push(item)[k],
    ) by {
        if k < list.len() {
            assert(list.push(item)[k] == list[k]);
        }
    }
}

/// `topology` holds, in blob order, the descriptions of the first `n`
/// nodes of each kind.
pub open spec fn topology_describes(tree: DeviceTree, n: int, topology: BoardTopology) -> bool {
    &&& described_in_order(
        tree,
        DiscoveredKind::Uart,
        n,
        topology.uarts@,
        |t: DeviceTree, i: int, d: UartDescription| uart_is(t, i, d),
    )
    &&& described_in_order(
        tree,
        DiscoveredKind::InterruptController,
        n,
        topology.interrupt_controllers@,
        |t: DeviceTree, i: int, d: InterruptControllerDescription| interrupt_controller_is(t, i, d),
    )
    &&& described_in_order(
        tree,
        DiscoveredKind::DmaController,
        n,
        topology.dma_controllers@,
        |t: DeviceTree, i: int, d: DmaControllerDescription| dma_controller_is(t, i, d),
    )
    &&& described_in_order(
        tree,
        DiscoveredKind::Mmc,
        n,
        topology.mmc_hosts@,
        |t: DeviceTree, i: int, d: MmcDescription| mmc_is(t, i, d),
    )
    &&& described_in_order(
        tree,
        DiscoveredKind::Network,
        n,
        topology.networks@,
        |t: DeviceTree, i: int, d: NetworkDescription| network_is(t, i, d),
    )
}

/// The board lacks a UART, an interrupt controller, a DMA controller or an
/// MMC host.
pub open spec fn board_incomplete(tree: DeviceTree) -> bool {
    let n = tree.nodes@.len() as int;
    ||| nodes_of_kind(tree, DiscoveredKind::Uart, n).len() == 0
    ||| nodes_of_kind(tree, DiscoveredKind::InterruptController, n).len() == 0
    ||| nodes_of_kind(tree, DiscoveredKind::DmaController, n).len() == 0
    ||| nodes_of_kind(tree, DiscoveredKind::Mmc, n).len() == 0
}

/// Describes the board from its device tree. Any malformed node, or a
/// malformed tree, fails with `InvalidDtb`; a well-formed board without a
/// UART, interrupt controller, DMA controller or MMC host fails with
/// `NotFound`; otherwise each list holds its kind's nodes in blob order.
pub fn discover(tree: &DeviceTree) -> (topology: Result<BoardTopology, DriverError>)
    ensures
        match topology {
            Ok(found) => {
                &&& tree_accepted(*tree)
                &&& !board_incomplete(*tree)
                &&& topology_describes(*tree, tree.nodes@.len() as int, found)
            },
            Err(DriverError::InvalidDtb) => !tree_accepted(*tree),
            Err(DriverError::NotFound) => tree_accepted(*tree) && board_incomplete(*tree),
            Err(_) => false,
        },
{
    if !tree.is_well_formed() {
        return Err(DriverError::InvalidDtb);
    }
    let mut topology = BoardTopology {
        uarts: Vec::new(),
        interrupt_controllers: Vec::new(),
        mmc_hosts: Vec::new(),
        dma_controllers: Vec::new(),
        networks: Vec::new(),
    };
    let mut index: usize = 0;
    while index < tree.nodes.len()
        invariant
            tree.well_formed(),
            index <= tree.nodes@.len(),
            forall|i: int| 0 <= i < index ==> #[trigger] node_accepted(*tree, i),
            topology_describes(*tree, index as int, topology),
        decreases tree.nodes@.len() - index,
    {
        let kind = match classify(tree, index) {
            Ok(kind) => kind,
            Err(error) => {
                assert(!node_accepted(*tree, index as int));
                return Err(error);
            },
        };
        match record_node(tree, index, kind, &mut topology) {
            Ok(()) => {},
            Err(error) => {
                assert(!node_accepted(*tree, index as int));
                return Err(error);
            },
        }
        index = index + 1;
    }
    if topology.uarts.len() == 0 || topology.interrupt_controllers.len() == 0
        || topology.dma_controllers.len() == 0 || topology.mmc_hosts.len() == 0 {
        return Err(DriverError::NotFound);
    }
    Ok(topology)
}

/// Classifies node `index` as discovery does.
fn classify(tree: &DeviceTree, index: usize) -> (kind: Result<DiscoveredKind, DriverError>)
    requires
        index < tree.nodes@.len(),
    ensures
        match kind {
            Ok(found) => node_kind(*tree, index as int) == Some(found),
            Err(error) => error == DriverError::InvalidDtb && node_kind(*tree, index as int) is None,
        },
{
    let node = &tree.nodes[index];
    let enabled = match node.enabled() {
        Ok(on) => on,
        Err(error) => return Err(error),
    };
    if !enabled {
        Ok(DiscoveredKind::Ignored)
    } else if node.name_starts_with("ethernet@") {
        match pci_function(node) {
            Ok(address) => if address.1 == 3 {
                Ok(DiscoveredKind::Network)
            } else {
                Ok(DiscoveredKind::Ignored)
            },
            Err(error) => Err(error),
        }
    } else if node.has_compatible("loongson,liointc-2.0") {
        Ok(DiscoveredKind::InterruptController)
    } else if node.has_compatible("loongson,ls2k1000-apbdma") {
        Ok(DiscoveredKind::DmaController)
    } else if node.has_compatible("ns16550a") {
        Ok(DiscoveredKind::Uart)
    } else if node.has_compatible("loongson,ls2k1000-mmc") {
        Ok(DiscoveredKind::Mmc)
    } else {
        Ok(DiscoveredKind::Ignored)
    }
}

/// Describes node `index` of kind `kind` into `topology`.
fn record_node(tree: &DeviceTree, index: usize, kind: DiscoveredKind, topology: &mut BoardTopology) -> (recorded: Result<
    (),
    DriverError,
>)
    requires
        tree.well_formed(),
        index < tree.nodes@.len(),
        node_kind(*tree, index as int) == Some(kind),
        topology_describes(*tree, index as int, *old(topology)),
    ensures
        match recorded {
            Ok(()) => node_accepted(*tree, index as int) && topology_describes(
                *tree,
                index + 1,
                *final(topology),
            ),
            Err(error) => error == DriverError::InvalidDtb && !node_accepted(*tree, index as int),
        },
{
    let ghost n = index as int;
    let ghost before = *topology;
    match kind {
        DiscoveredKind::Ignored => {
            proof {
                lemma_keep_all(*tree, n, before);
            }
        },
        DiscoveredKind::Network => {
            let address = match pci_function(&tree.nodes[index]) {
                Ok(address) => address,
                Err(error) => return Err(error),
            };
            let description = match describe_network(tree, index, address) {
                Ok(found) => found,
                Err(error) => return Err(error),
            };
            topology.networks.push(description);
            proof {
                lemma_keep_others(*tree, n, before, *topology, kind);
                lemma_described_push(
                    *tree,
                    kind,
                    n,
                    before.networks@,
                    description,
                    |t: DeviceTree, i: int, d: NetworkDescription| network_is(t, i, d),
                );
            }
        },
        DiscoveredKind::InterruptController => {
            let description = match describe_interrupt_controller(tree, index) {
                Ok(found) => found,
                Err(error) => return Err(error),
            };
            topology.interrupt_controllers.push(description);
            proof {
                lemma_keep_others(*tree, n, before, *topology, kind);
                lemma_described_push(
                    *tree,
                    kind,
                    n,
                    before.interrupt_controllers@,
                    description,
                    |t: DeviceTree, i: int, d: InterruptControllerDescription|
                        interrupt_controller_is(t, i, d),
                );
            }
        },
        DiscoveredKind::DmaController => {
            let description = match describe_dma_controller(tree, index) {
                Ok(found) => found,
                Err(error) => return Err(error),
            };
            topology.dma_controllers.push(description);
            proof {
                lemma_keep_others(*tree, n, before, *topology, kind);
                lemma_described_push(
                    *tree,
                    kind,
                    n,
                    before.dma_controllers@,
                    description,
                    |t: DeviceTree, i: int, d: DmaControllerDescription| dma_controller_is(t, i, d),
                );
            }
        },
        DiscoveredKind::Uart => {
            let description = match describe_uart(tree, index) {
                Ok(found) => found,
                Err(error) => return Err(error),
            };
            topology.uarts.push(description);
            proof {
                lemma_keep_others(*tree, n, before, *topology, kind);
                lemma_described_push(
                    *tree,
                    kind,
                    n,
                    before.uarts@,
                    description,
                    |t: DeviceTree, i: int, d: UartDescription| uart_is(t, i, d),
                );
            }
        },
        DiscoveredKind::Mmc => {
            let description = match describe_mmc(tree, index) {
                Ok(found) => found,
                Err(error) => return Err(error),
            };
            topology.mmc_hosts.push(description);
            proof {
                lemma_keep_others(*tree, n, before, *topology, kind);
                lemma_described_push(
                    *tree,
                    kind,
                    n,
                    before.mmc_hosts@,
                    description,
                    |t: DeviceTree, i: int, d: MmcDescription| mmc_is(t, i, d),
                );
            }
        },
    }
    Ok(())
}

proof fn lemma_keep_all(tree: DeviceTree, n: int, topology: BoardTopology)
    requires
        0 <= n,
        topology_describes(tree, n, topology),
        node_kind(tree, n) == Some(DiscoveredKind::Ignored),
    ensures
        topology_describes(tree, n + 1, topology),
{
}

proof fn lemma_keep_others(
    tree: DeviceTree,
    n: int,
    before: BoardTopology,
    after: BoardTopology,
    kind: DiscoveredKind,
)
    requires
        0 <= n,
        topology_describes(tree, n, before),
        node_kind(tree, n) == Some(kind),
        kind == DiscoveredKind::Uart || after.uarts == before.uarts,
        kind == DiscoveredKind::InterruptController || after.interrupt_controllers
            == before.interrupt_controllers,
        kind == DiscoveredKind::DmaController || after.dma_controllers == before.dma_controllers,
        kind == DiscoveredKind::Mmc || after.mmc_hosts == before.mmc_hosts,
        kind == DiscoveredKind::Network || after.networks == before.networks,
    ensures
        kind == DiscoveredKind::Uart || described_in_order(
            tree,
            DiscoveredKind::Uart,
            n + 1,
            after.uarts@,
            |t: DeviceTree, i: int, d: UartDescription| uart_is(t, i, d),
        ),
        kind == DiscoveredKind::InterruptController || described_in_order(
            tree,
            DiscoveredKind::InterruptController,
            n + 1,
            after.interrupt_controllers@,
            |t: DeviceTree, i: int, d: InterruptControllerDescription| interrupt_controller_is(t, i, d),
        ),
        kind == DiscoveredKind::DmaController || described_in_order(
            tree,
            DiscoveredKind::DmaController,
            n + 1,
            after.dma_controllers@,
            |t: DeviceTree, i: int, d: DmaControllerDescription| dma_controller_is(t, i, d),
        ),
        kind == DiscoveredKind::Mmc || described_in_order(
            tree,
            DiscoveredKind::Mmc,
            n + 1,
            after.mmc_hosts@,
            |t: DeviceTree, i: int, d: MmcDescription| mmc_is(t, i, d),
        ),
        kind == DiscoveredKind::Network || described_in_order(
            tree,
            DiscoveredKind::Network,
            n + 1,
            after.networks@,
            |t: DeviceTree, i: int, d: NetworkDescription| network_is(t, i, d),
        ),
{
}

} // verus!
