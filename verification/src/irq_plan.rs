//! Topology-compiled board IRQ owner plan.
//!
//! Plans contain only validated scalar resources. They never construct a
//! backend or touch hardware.
use vstd::prelude::*;

use crate::irq_binding::{resolve, resolve_outcome, BindingError, InterruptBinding};
use crate::irq_domain::{bank_of, local_of, MAX_BANKS};
use crate::irq_runtime::{layout_compiles, RuntimeLayout};
use crate::mmc::{plan, MIN_CONTROLLER_WINDOW};
use crate::platform::MmioRegion;
use crate::topology::{
    BoardTopology, DmaControllerDescription, InterruptControllerDescription, MmcDescription,
};

verus! {

#[derive(Debug, Clone, Copy, PartialEq, Eq, Structural)]
pub enum OwnerKind {
    MmcCommand,
    ApbDmaDeferred,
}

#[derive(Debug, Clone, Copy, PartialEq, Eq, Structural)]
pub enum ActivationPolicy {
    AckOnly,
    Deferred,
}

/// Where a LIOINTC source is routed: the cores it may interrupt and the
/// parent-line slot of its controller.
#[derive(Debug, Clone, Copy, PartialEq, Eq, Structural)]
pub struct Route {
    pub core_mask: u8,
    pub parent_line: u8,
}

#[derive(Debug, Clone, Copy, PartialEq, Eq, Structural)]
pub struct OwnerPlan {
    pub kind: OwnerKind,
    pub binding: InterruptBinding,
    pub route: Route,
    pub hardware_line: u8,
    pub device_mmio: MmioRegion,
    pub policy: ActivationPolicy,
}

/// Both owners, in ascending global source order.
#[derive(Debug, Clone, Copy, PartialEq, Eq)]
pub struct BoardOwnerPlan {
    pub entries: [OwnerPlan; 2],
}

#[derive(Debug, Clone, Copy, PartialEq, Eq, Structural)]
pub enum OwnerPlanError {
    InvalidRuntimeLayout,
    MissingOrDuplicateMmc,
    MissingOrDuplicateApbDma,
    InvalidMmcResources,
    InvalidBinding,
    MissingController,
    MissingRoute,
    AmbiguousRoute,
    InvalidParent,
    DuplicateIrq,
}

/// The MMC description has the windows and clock its bring-up plan needs.
pub open spec fn mmc_resources_valid(description: MmcDescription) -> bool {
    &&& description.controller_mmio.size >= MIN_CONTROLLER_WINDOW
    &&& description.auxiliary_mmio is Some
    &&& description.auxiliary_mmio->Some_0.size >= 4
    &&& description.clocks@.len() == 1
}

/// Index of the description serving bank `bank` of a compiled layout: the
/// lower main address is bank 0.
pub open spec fn bank_controller(s: Seq<InterruptControllerDescription>, bank: nat) -> int {
    if (bank == 0) == (s[0].main_mmio.base < s[1].main_mmio.base) {
        0
    } else {
        1
    }
}

/// Parent-line slot `slot` of `description` routes local source `local`.
pub open spec fn routes(description: InterruptControllerDescription, local: nat, slot: int) -> bool {
    0 <= slot < 4 && description.parent_source_maps[slot] & (1u32 << local) != 0
}

/// The route of local source `local` of `description` and the CPU line its
/// parent interrupt names: exactly one slot must route it, to a one-cell
/// parent below line 8.
pub open spec fn route_outcome(description: InterruptControllerDescription, local: nat) -> Result<
    (Route, u8),
    OwnerPlanError,
> {
    if forall|slot: int| !#[trigger] routes(description, local, slot) {
        Err(OwnerPlanError::MissingRoute)
    } else if exists|a: int, b: int|
        a < b && #[trigger] routes(description, local, a) && #[trigger] routes(
            description,
            local,
            b,
        ) {
        Err(OwnerPlanError::AmbiguousRoute)
    } else {
        let slot = choose|slot: int| routes(description, local, slot);
        match description.parent_interrupts[slot] {
            None => Err(OwnerPlanError::InvalidParent),
            Some(parent) => if parent.cell_count != 1 || parent.cells[0] >= 8 {
                Err(OwnerPlanError::InvalidParent)
            } else {
                Ok((Route { core_mask: 1, parent_line: slot as u8 }, parent.cells[0] as u8))
            },
        }
    }
}

/// The route of a bound source in a compiled layout over `s`.
pub open spec fn binding_route(
    s: Seq<InterruptControllerDescription>,
    binding: InterruptBinding,
) -> Result<(Route, u8), OwnerPlanError> {
    route_outcome(
        s[bank_controller(s, bank_of(binding.irq().id()))],
        local_of(binding.irq().id()),
    )
}

/// The entry of one owner.
pub open spec fn owner_entry(
    kind: OwnerKind,
    binding: InterruptBinding,
    routed: (Route, u8),
    device_mmio: MmioRegion,
    policy: ActivationPolicy,
) -> OwnerPlan {
    OwnerPlan {
        kind,
        binding,
        route: routed.0,
        hardware_line: routed.1,
        device_mmio,
        policy,
    }
}

/// The plan once the layout and both devices are known and bound: distinct
/// sources, each routed, ordered by source number.
pub open spec fn bound_plan(
    s: Seq<InterruptControllerDescription>,
    mmc: MmcDescription,
    dma: DmaControllerDescription,
    mmc_binding: Result<InterruptBinding, BindingError>,
    dma_binding: Result<InterruptBinding, BindingError>,
) -> Result<BoardOwnerPlan, OwnerPlanError> {
    if mmc_binding is Err || dma_binding is Err {
        Err(OwnerPlanError::InvalidBinding)
    } else {
        let m = mmc_binding->Ok_0;
        let d = dma_binding->Ok_0;
        if m.irq() == d.irq() {
            Err(OwnerPlanError::DuplicateIrq)
        } else if binding_route(s, m) is Err {
            Err(binding_route(s, m)->Err_0)
        } else if binding_route(s, d) is Err {
            Err(binding_route(s, d)->Err_0)
        } else {
            let first = owner_entry(
                OwnerKind::MmcCommand,
                m,
                binding_route(s, m)->Ok_0,
                mmc.controller_mmio,
                ActivationPolicy::AckOnly,
            );
            let second = owner_entry(
                OwnerKind::ApbDmaDeferred,
                d,
                binding_route(s, d)->Ok_0,
                dma.mmio,
                ActivationPolicy::Deferred,
            );
            if m.irq().id() > d.irq().id() {
                Ok(BoardOwnerPlan { entries: [second, first] })
            } else {
                Ok(BoardOwnerPlan { entries: [first, second] })
            }
        }
    }
}

/// The description whose main window is at `base`; refused unless exactly
/// one is.
fn controller_for_base(controllers: &Vec<InterruptControllerDescription>, base: usize) -> (result:
    Result<usize, OwnerPlanError>)
    ensures
        match result {
            Ok(c) => c < controllers@.len() && controllers@[c as int].main_mmio.base == base
                && forall|j: int|
                0 <= j < controllers@.len() && j != c ==> #[trigger] controllers@[j].main_mmio.base
                    != base,
            Err(error) => error == OwnerPlanError::MissingController && !exists|c: int|
                0 <= c < controllers@.len() && #[trigger] controllers@[c].main_mmio.base == base
                    && forall|j: int|
                    0 <= j < controllers@.len() && j != c ==> controllers@[j].main_mmio.base
                        != base,
        },
{
    let mut found: Option<usize> = None;
    let mut index: usize = 0;
    while index < controllers.len()
        invariant
            index <= controllers@.len(),
            match found {
                None => forall|j: int| 0 <= j < index ==> #[trigger] controllers@[j].main_mmio.base != base,
                Some(c) => c < index && controllers@[c as int].main_mmio.base == base && forall|j: int|
                    0 <= j < index && j != c ==> #[trigger] controllers@[j].main_mmio.base != base,
            },
        decreases controllers@.len() - index,
    {
        if controllers[index].main_mmio.base == base {
            if found.is_some() {
                return Err(OwnerPlanError::MissingController);
            }
            found = Some(index);
        }
        index = index + 1;
    }
    match found {
        Some(c) => Ok(c),
        None => Err(OwnerPlanError::MissingController),
    }
}

/// The route of local source `local` of `description`.
fn route_for(description: &InterruptControllerDescription, local: u32) -> (result: Result<
    (Route, u8),
    OwnerPlanError,
>)
    requires
        local < 32,
    ensures
        result == route_outcome(*description, local as nat),
{
    let source: u32 = 1u32 << local;
    let mut found: Option<usize> = None;
    let mut slot: usize = 0;
    while slot < 4
        invariant
            slot <= 4,
            source == 1u32 << local,
            match found {
                None => forall|p: int| 0 <= p < slot ==> !#[trigger] routes(*description, local as nat, p),
                Some(p) => p < slot && routes(*description, local as nat, p as int) && forall|q: int|
                    0 <= q < slot && q != p ==> !#[trigger] routes(*description, local as nat, q),
            },
        decreases 4 - slot,
    {
        if description.parent_source_maps[slot] & source != 0 {
            if let Some(first) = found {
                assert(routes(*description, local as nat, first as int));
                assert(routes(*description, local as nat, slot as int));
                return Err(OwnerPlanError::AmbiguousRoute);
            }
            found = Some(slot);
        }
        slot = slot + 1;
    }
    let slot = match found {
        None => {
            assert forall|p: int| !#[trigger] routes(*description, local as nat, p) by {}
            return Err(OwnerPlanError::MissingRoute);
        },
        Some(slot) => slot,
    };
    proof {
        assert(!exists|a: int, b: int|
            a < b && #[trigger] routes(*description, local as nat, a) && #[trigger] routes(
                *description,
                local as nat,
                b,
            ));
        let chosen = choose|p: int| routes(*description, local as nat, p);
        assert(chosen == slot);
    }
    let parent = match description.parent_interrupts[slot] {
        None => return Err(OwnerPlanError::InvalidParent),
        Some(parent) => parent,
    };
    if parent.cell_count != 1 || parent.cells[0] >= 8 {
        return Err(OwnerPlanError::InvalidParent);
    }
    Ok((Route { core_mask: 1, parent_line: slot as u8 }, parent.cells[0] as u8))
}

/// Compile the owner plan of the MMC command and APBDMA sources: a valid
/// runtime layout, exactly one MMC host and one APBDMA controller, MMC
/// resources for its bring-up plan, both interrupts bound to distinct
/// sources, each routed through exactly one parent line.
pub fn compile(topology: &BoardTopology) -> (result: Result<BoardOwnerPlan, OwnerPlanError>)
    ensures
        ({
            let s = topology.interrupt_controllers@;
            let hosts = topology.mmc_hosts@;
            let dmas = topology.dma_controllers@;
            if !layout_compiles(s) {
                result == Err::<BoardOwnerPlan, OwnerPlanError>(
                    OwnerPlanError::InvalidRuntimeLayout,
                )
            } else if hosts.len() != 1 {
                result == Err::<BoardOwnerPlan, OwnerPlanError>(
                    OwnerPlanError::MissingOrDuplicateMmc,
                )
            } else if dmas.len() != 1 {
                result == Err::<BoardOwnerPlan, OwnerPlanError>(
                    OwnerPlanError::MissingOrDuplicateApbDma,
                )
            } else if !mmc_resources_valid(hosts[0]) {
                result == Err::<BoardOwnerPlan, OwnerPlanError>(
                    OwnerPlanError::InvalidMmcResources,
                )
            } else {
                exists|
                    mmc_binding: Result<InterruptBinding, BindingError>,
                    dma_binding: Result<InterruptBinding, BindingError>,
                |
                    resolve_outcome(s, hosts[0].interrupt, mmc_binding) && resolve_outcome(
                        s,
                        dmas[0].interrupt,
                        dma_binding,
                    ) && result == #[trigger] bound_plan(s, hosts[0], dmas[0], mmc_binding, dma_binding)
            }
        }),
{
    let layout = match RuntimeLayout::compile(topology) {
        Ok(layout) => layout,
        Err(_) => return Err(OwnerPlanError::InvalidRuntimeLayout),
    };
    if topology.mmc_hosts.len() != 1 {
        return Err(OwnerPlanError::MissingOrDuplicateMmc);
    }
    if topology.dma_controllers.len() != 1 {
        return Err(OwnerPlanError::MissingOrDuplicateApbDma);
    }
    let mmc_description = &topology.mmc_hosts[0];
    let dma_description = &topology.dma_controllers[0];
    let mmc_plan = match plan(mmc_description) {
        Ok(mmc_plan) => mmc_plan,
        Err(_) => return Err(OwnerPlanError::InvalidMmcResources),
    };
    let mmc_resolved = resolve(topology, &mmc_description.interrupt);
    let dma_resolved = resolve(topology, &dma_description.interrupt);
    let ghost s = topology.interrupt_controllers@;
    let ghost mmc_ghost = mmc_resolved;
    let ghost dma_ghost = dma_resolved;
    assert(bound_plan(s, *mmc_description, *dma_description, mmc_ghost, dma_ghost)
        == bound_plan(s, topology.mmc_hosts@[0], topology.dma_controllers@[0], mmc_ghost, dma_ghost));
    let mmc_binding = match mmc_resolved {
        Ok(binding) => binding,
        Err(_) => return Err(OwnerPlanError::InvalidBinding),
    };
    let dma_binding = match dma_resolved {
        Ok(binding) => binding,
        Err(_) => return Err(OwnerPlanError::InvalidBinding),
    };
    if mmc_binding.global_irq() == dma_binding.global_irq() {
        return Err(OwnerPlanError::DuplicateIrq);
    }
    let mmc_routed = match routed(topology, &layout, mmc_binding) {
        Ok(routed) => routed,
        Err(error) => return Err(error),
    };
    let dma_routed = match routed(topology, &layout, dma_binding) {
        Ok(routed) => routed,
        Err(error) => return Err(error),
    };
    let first = OwnerPlan {
        kind: OwnerKind::MmcCommand,
        binding: mmc_binding,
        route: mmc_routed.0,
        hardware_line: mmc_routed.1,
        device_mmio: mmc_plan.controller_mmio,
        policy: ActivationPolicy::AckOnly,
    };
    let second = OwnerPlan {
        kind: OwnerKind::ApbDmaDeferred,
        binding: dma_binding,
        route: dma_routed.0,
        hardware_line: dma_routed.1,
        device_mmio: dma_description.mmio,
        policy: ActivationPolicy::Deferred,
    };
    if mmc_binding.global_irq().raw() > dma_binding.global_irq().raw() {
        Ok(BoardOwnerPlan { entries: [second, first] })
    } else {
        Ok(BoardOwnerPlan { entries: [first, second] })
    }
}

/// The route of a bound source through the controller serving its bank.
fn routed(topology: &BoardTopology, layout: &RuntimeLayout, binding: InterruptBinding) -> (result:
    Result<(Route, u8), OwnerPlanError>)
    requires
        layout_compiles(topology.interrupt_controllers@),
        layout.controllers[0].main_base == topology.interrupt_controllers@[bank_controller(
            topology.interrupt_controllers@,
            0,
        )].main_mmio.base,
        layout.controllers[1].main_base == topology.interrupt_controllers@[bank_controller(
            topology.interrupt_controllers@,
            1,
        )].main_mmio.base,
    ensures
        result == binding_route(topology.interrupt_controllers@, binding),
{
    let irq = binding.global_irq();
    let bank = irq.bank();
    let base = layout.controllers[bank].main_base;
    let controller = match controller_for_base(&topology.interrupt_controllers, base) {
        Ok(controller) => controller,
        Err(error) => {
            assert(false);
            return Err(error);
        },
    };
    route_for(&topology.interrupt_controllers[controller], irq.local())
}

} // verus!
