//! Stable LIOINTC topology binding and the device side of the level-IRQ
//! lifecycle.
//!
//! Global bank numbers are assigned by ascending LIOINTC main-MMIO address,
//! never by device-tree discovery order.
use vstd::prelude::*;

use crate::irq_domain::{global_index, GlobalIrq, IRQS_PER_BANK, MAX_BANKS};
use crate::irq_entry::{bank_below, rank};
use crate::liointc::Trigger;
use crate::platform::DriverError;
use crate::topology::{BoardTopology, InterruptControllerDescription, InterruptSpec};

verus! {

pub const IRQ_TYPE_EDGE_RISING: u32 = 1;

pub const IRQ_TYPE_EDGE_FALLING: u32 = 2;

pub const IRQ_TYPE_LEVEL_HIGH: u32 = 4;

pub const IRQ_TYPE_LEVEL_LOW: u32 = 8;

#[derive(Debug, Clone, Copy, PartialEq, Eq, Structural)]
pub enum BindingError {
    MissingProvider,
    DuplicateProvider,
    DuplicateMmio,
    InvalidCells,
    InvalidTrigger,
    TooManyBanks,
}

#[derive(Debug, Clone, Copy, PartialEq, Eq, Structural)]
pub struct InterruptBinding {
    provider_phandle: u32,
    global_irq: GlobalIrq,
    trigger: Trigger,
}

impl InterruptBinding {
    pub closed spec fn provider(self) -> u32 {
        self.provider_phandle
    }

    pub closed spec fn irq(self) -> GlobalIrq {
        self.global_irq
    }

    pub closed spec fn mode(self) -> Trigger {
        self.trigger
    }

    pub fn provider_phandle(self) -> (r: u32)
        ensures
            r == self.provider(),
    {
        self.provider_phandle
    }

    pub fn global_irq(self) -> (r: GlobalIrq)
        ensures
            r == self.irq(),
    {
        self.global_irq
    }

    pub fn trigger(self) -> (r: Trigger)
        ensures
            r == self.mode(),
    {
        self.trigger
    }
}

/// Trigger mode named by the second interrupt cell.
pub open spec fn trigger_of(cell: u32) -> Option<Trigger> {
    if cell == IRQ_TYPE_EDGE_RISING {
        Some(Trigger::EdgeRising)
    } else if cell == IRQ_TYPE_EDGE_FALLING {
        Some(Trigger::EdgeFalling)
    } else if cell == IRQ_TYPE_LEVEL_HIGH {
        Some(Trigger::LevelHigh)
    } else if cell == IRQ_TYPE_LEVEL_LOW {
        Some(Trigger::LevelLow)
    } else {
        None
    }
}

/// Each device-tree trigger cell decodes to the trigger it names: 1 rising
/// edge, 2 falling edge, 4 level high, 8 level low; no other cell decodes.
pub proof fn lemma_trigger_cells_name_triggers(cell: u32)
    ensures
        (trigger_of(cell) == Some(Trigger::EdgeRising)) <==> cell == 1,
        (trigger_of(cell) == Some(Trigger::EdgeFalling)) <==> cell == 2,
        (trigger_of(cell) == Some(Trigger::LevelHigh)) <==> cell == 4,
        (trigger_of(cell) == Some(Trigger::LevelLow)) <==> cell == 8,
        trigger_of(cell) is None <==> !(cell == 1 || cell == 2 || cell == 4 || cell == 8),
{
}

/// A binding that resolution gives carries the trigger its specifier's
/// second cell names.
pub proof fn lemma_resolved_trigger(
    s: Seq<InterruptControllerDescription>,
    spec: InterruptSpec,
    binding: InterruptBinding,
)
    requires
        resolve_outcome(s, spec, Ok(binding)),
    ensures
        (binding.mode() == Trigger::EdgeRising) <==> spec.cells[1] == 1,
        (binding.mode() == Trigger::EdgeFalling) <==> spec.cells[1] == 2,
        (binding.mode() == Trigger::LevelHigh) <==> spec.cells[1] == 4,
        (binding.mode() == Trigger::LevelLow) <==> spec.cells[1] == 8,
{
    let c = choose|c: int| sole_provider(s, spec.parent_phandle, c) && binding_outcome(s, spec, c, Ok(binding));
    lemma_trigger_cells_name_triggers(spec.cells[1]);
    assert(spec.cells@[1] == spec.cells[1]);
}

/// First conflict between controller `i` and a later controller from `j` on.
pub open spec fn pair_error(s: Seq<InterruptControllerDescription>, i: int, j: int) -> Option<
    BindingError,
>
    decreases s.len() - j,
{
    if j >= s.len() || j < 0 {
        None
    } else if s[i].phandle == s[j].phandle {
        Some(BindingError::DuplicateProvider)
    } else if s[i].main_mmio.base == s[j].main_mmio.base {
        Some(BindingError::DuplicateMmio)
    } else {
        pair_error(s, i, j + 1)
    }
}

/// First topology defect found scanning controllers from `i` on: one without
/// a phandle, or a later controller with the same phandle or main MMIO.
pub open spec fn scan_error(s: Seq<InterruptControllerDescription>, i: int) -> Option<
    BindingError,
>
    decreases s.len() - i,
{
    if i >= s.len() || i < 0 {
        None
    } else if s[i].phandle is None {
        Some(BindingError::MissingProvider)
    } else if pair_error(s, i, i + 1) is Some {
        pair_error(s, i, i + 1)
    } else {
        scan_error(s, i + 1)
    }
}

/// Controller `c` is the only one with phandle `provider`.
pub open spec fn sole_provider(s: Seq<InterruptControllerDescription>, provider: u32, c: int) -> bool {
    &&& 0 <= c < s.len()
    &&& s[c].phandle == Some(provider)
    &&& forall|j: int| 0 <= j < s.len() && j != c ==> s[j].phandle != Some(provider)
}

/// What resolving `spec` against the unique provider `c` yields.
pub open spec fn binding_outcome(
    s: Seq<InterruptControllerDescription>,
    spec: InterruptSpec,
    c: int,
    result: Result<InterruptBinding, BindingError>,
) -> bool {
    let bank = rank(s, s[c].main_mmio.base);
    if spec.cell_count != 2 || s[c].interrupt_cells != 2 {
        result == Err::<InterruptBinding, BindingError>(BindingError::InvalidCells)
    } else if scan_error(s, 0) is Some {
        result == Err::<InterruptBinding, BindingError>(scan_error(s, 0)->Some_0)
    } else if !(bank < MAX_BANKS && spec.cells@[0] < IRQS_PER_BANK) {
        result == Err::<InterruptBinding, BindingError>(BindingError::InvalidCells)
    } else {
        match trigger_of(spec.cells@[1]) {
            None => result == Err::<InterruptBinding, BindingError>(BindingError::InvalidTrigger),
            Some(trigger) => result matches Ok(binding) && binding.provider() == spec.parent_phandle
                && binding.irq().id() == global_index(bank, spec.cells@[0] as nat)
                && binding.mode() == trigger,
        }
    }
}

fn decode_trigger(cell: u32) -> (trigger: Option<Trigger>)
    ensures
        trigger == trigger_of(cell),
{
    if cell == IRQ_TYPE_EDGE_RISING {
        Some(Trigger::EdgeRising)
    } else if cell == IRQ_TYPE_EDGE_FALLING {
        Some(Trigger::EdgeFalling)
    } else if cell == IRQ_TYPE_LEVEL_HIGH {
        Some(Trigger::LevelHigh)
    } else if cell == IRQ_TYPE_LEVEL_LOW {
        Some(Trigger::LevelLow)
    } else {
        None
    }
}

fn topology_defect(controllers: &Vec<InterruptControllerDescription>) -> (error: Option<BindingError>)
    ensures
        error == scan_error(controllers@, 0),
{
    let n = controllers.len();
    let mut i: usize = 0;
    while i < n
        invariant
            n == controllers@.len(),
            i <= n,
            scan_error(controllers@, 0) == scan_error(controllers@, i as int),
        decreases n - i,
    {
        if controllers[i].phandle.is_none() {
            return Some(BindingError::MissingProvider);
        }
        let mut j: usize = i + 1;
        while j < n
            invariant
                n == controllers@.len(),
                i < n,
                i + 1 <= j <= n,
                controllers@[i as int].phandle is Some,
                scan_error(controllers@, 0) == scan_error(controllers@, i as int),
                pair_error(controllers@, i as int, i + 1) == pair_error(
                    controllers@,
                    i as int,
                    j as int,
                ),
            decreases n - j,
        {
            if controllers[i].phandle == controllers[j].phandle {
                return Some(BindingError::DuplicateProvider);
            }
            if controllers[i].main_mmio.base == controllers[j].main_mmio.base {
                return Some(BindingError::DuplicateMmio);
            }
            j = j + 1;
        }
        i = i + 1;
    }
    None
}

/// What binding `spec` against the controllers `s` gives: refusals of too
/// many banks, a missing or duplicated provider, else the provider's own
/// binding outcome.
pub open spec fn resolve_outcome(
    s: Seq<InterruptControllerDescription>,
    spec: InterruptSpec,
    result: Result<InterruptBinding, BindingError>,
) -> bool {
    if s.len() > MAX_BANKS {
        result == Err::<InterruptBinding, BindingError>(BindingError::TooManyBanks)
    } else if forall|j: int| 0 <= j < s.len() ==> #[trigger] s[j].phandle != Some(spec.parent_phandle) {
        result == Err::<InterruptBinding, BindingError>(BindingError::MissingProvider)
    } else if exists|a: int, b: int|
        0 <= a < b < s.len() && #[trigger] s[a].phandle == Some(spec.parent_phandle)
            && #[trigger] s[b].phandle == Some(spec.parent_phandle) {
        result == Err::<InterruptBinding, BindingError>(BindingError::DuplicateProvider)
    } else {
        exists|c: int| sole_provider(s, spec.parent_phandle, c) && binding_outcome(s, spec, c, result)
    }
}

/// Bind a device-tree interrupt specifier to a global source and trigger.
pub fn resolve(topology: &BoardTopology, spec: &InterruptSpec) -> (result: Result<
    InterruptBinding,
    BindingError,
>)
    ensures
        resolve_outcome(topology.interrupt_controllers@, *spec, result),
{
    let controllers = &topology.interrupt_controllers;
    if controllers.len() > MAX_BANKS {
        return Err(BindingError::TooManyBanks);
    }
    let n = controllers.len();
    let mut found: Option<usize> = None;
    let mut index: usize = 0;
    while index < n
        invariant
            n == controllers@.len(),
            controllers@ == topology.interrupt_controllers@,
            n <= MAX_BANKS,
            index <= n,
            match found {
                None => forall|j: int| 0 <= j < index ==> #[trigger] controllers@[j].phandle != Some(spec.parent_phandle),
                Some(first) => first < index && controllers@[first as int].phandle == Some(spec.parent_phandle)
                    && forall|j: int|
                    0 <= j < index && j != first ==> #[trigger] controllers@[j].phandle != Some(spec.parent_phandle),
            },
        decreases n - index,
    {
        if controllers[index].phandle == Some(spec.parent_phandle) {
            match found {
                None => {
                    found = Some(index);
                },
                Some(first) => {
                    let ghost all = topology.interrupt_controllers@;
                    assert(all[first as int].phandle == Some(spec.parent_phandle));
                    assert(all[index as int].phandle == Some(spec.parent_phandle));
                    return Err(BindingError::DuplicateProvider);
                },
            }
        }
        index = index + 1;
    }
    let c = match found {
        None => return Err(BindingError::MissingProvider),
        Some(first) => first,
    };
    let ghost all = topology.interrupt_controllers@;
    assert(sole_provider(all, spec.parent_phandle, c as int));
    assert(!exists|a: int, b: int|
        0 <= a < b < all.len() && #[trigger] all[a].phandle == Some(spec.parent_phandle)
            && #[trigger] all[b].phandle == Some(spec.parent_phandle));
    if spec.cell_count != 2 || controllers[c].interrupt_cells != 2 {
        return Err(BindingError::InvalidCells);
    }
    if let Some(error) = topology_defect(controllers) {
        return Err(error);
    }
    let bank = bank_below(controllers, controllers[c].main_mmio.base);
    let global_irq = match GlobalIrq::from_bank_local(bank, spec.cells[0]) {
        Ok(irq) => irq,
        Err(_) => return Err(BindingError::InvalidCells),
    };
    let trigger = match decode_trigger(spec.cells[1]) {
        Some(trigger) => trigger,
        None => return Err(BindingError::InvalidTrigger),
    };
    Ok(InterruptBinding { provider_phandle: spec.parent_phandle, global_irq, trigger })
}

/// A refused lifecycle step, with the state it started from.
#[derive(Debug)]
pub struct LifecycleFailure<S> {
    pub error: DriverError,
    pub state: S,
}

/// Source configured and enabled at the controller.
#[derive(Debug)]
pub struct ArmedInterrupt {
    binding: InterruptBinding,
}

/// Source claimed and masked; the device has not been acknowledged yet.
#[derive(Debug)]
pub struct MaskedInterrupt {
    binding: InterruptBinding,
}

/// The device has cleared its interrupt; the source may be re-enabled.
#[derive(Debug)]
pub struct DeviceAckedInterrupt {
    binding: InterruptBinding,
}

impl ArmedInterrupt {
    pub closed spec fn bound(self) -> InterruptBinding {
        self.binding
    }
}

impl MaskedInterrupt {
    pub closed spec fn bound(self) -> InterruptBinding {
        self.binding
    }
}

impl DeviceAckedInterrupt {
    pub closed spec fn bound(self) -> InterruptBinding {
        self.binding
    }
}

/// Device-side clear of a level interrupt.
pub trait DeviceIrqAck {
    fn clear_interrupt(&mut self) -> Result<(), DriverError>;
}

impl MaskedInterrupt {
    /// Clear the interrupt at the device; on failure the source stays masked.
    pub fn acknowledge_device<A: DeviceIrqAck>(self, device: &mut A) -> (result: Result<
        DeviceAckedInterrupt,
        LifecycleFailure<Self>,
    >)
        ensures
            match result {
                Ok(acked) => acked.bound() == self.bound(),
                Err(failure) => failure.state.bound() == self.bound(),
            },
    {
        match device.clear_interrupt() {
            Ok(()) => Ok(DeviceAckedInterrupt { binding: self.binding }),
            Err(error) => Err(LifecycleFailure { error, state: self }),
        }
    }
}

} // verus!
