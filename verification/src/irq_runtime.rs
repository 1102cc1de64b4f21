//! Allocation-free board IRQ service core.
//!
//! A parent-line snapshot is expanded into the LIOINTC banks behind it; each
//! pending enabled source is masked, acknowledged and claimed before its
//! handler runs, and re-enabled only on device-ack evidence for that very
//! source. The controllers are reached through [`BankController`].
use vstd::prelude::*;

use crate::irq_domain::{
    bank_of, AcknowledgedIrq, DomainError, GlobalIrq, IrqDisposition, LioIntcDomain, MAX_BANKS,
};
use crate::platform::{DriverError, MmioRegion};
use crate::irq_binding::InterruptBinding;
use crate::irq_plan::Route;
use crate::liointc::Trigger;
use crate::topology::{BoardTopology, InterruptControllerDescription};

verus! {

/// CPU hardware interrupt lines a LIOINTC bank can be routed to.
pub const HWI_LINES: usize = 8;

/// ISR windows one controller description may list, one per core.
pub const MAX_CORES: usize = 4;

/// Bytes of the main LIOINTC register window of one bank.
pub const MAIN_REGISTER_BYTES: usize = 0x40;

#[derive(Debug, Clone, Copy, PartialEq, Eq, Structural)]
pub enum LayoutError {
    WrongControllerCount,
    InvalidMainMmio,
    InvalidCoreIsr,
    MissingParentLine,
    InvalidParentLine,
    DuplicateParentLine,
    DuplicateMmio,
    AlreadyPublished,
}

#[derive(Debug, Clone, Copy, PartialEq, Eq)]
pub struct ControllerLayout {
    pub main_base: usize,
    pub core_isr: [Option<usize>; 4],
}

/// Register windows of both banks, in ascending address order, and the bank
/// each CPU interrupt line serves.
#[derive(Debug, Clone, Copy, PartialEq, Eq)]
pub struct RuntimeLayout {
    pub controllers: [ControllerLayout; 2],
    pub parent_banks: [Option<u8>; 8],
}

/// A usable main window: non-zero, 4-byte aligned and large enough.
pub open spec fn main_window_valid(main: MmioRegion) -> bool {
    main.base != 0 && main.base % 4 == 0 && main.size >= MAIN_REGISTER_BYTES
}

/// A usable per-core ISR window.
pub open spec fn isr_window_valid(region: MmioRegion) -> bool {
    region.base != 0 && region.base % 4 == 0 && region.size >= 4
}

/// The ISR windows of a description are one to four usable windows.
pub open spec fn isr_windows_valid(description: InterruptControllerDescription) -> bool {
    &&& 1 <= description.core_isr@.len() <= MAX_CORES
    &&& forall|i: int|
        0 <= i < description.core_isr@.len() ==> isr_window_valid(
            #[trigger] description.core_isr@[i],
        )
}

/// Every parent interrupt of a description is a one-cell CPU line.
pub open spec fn parent_lines_valid(description: InterruptControllerDescription) -> bool {
    forall|p: int|
        0 <= p < 4 && #[trigger] description.parent_interrupts[p] is Some ==> {
            let spec = description.parent_interrupts[p]->Some_0;
            spec.cell_count == 1 && spec.cells[0] < HWI_LINES
        }
}

/// A description names parent line `line`.
pub open spec fn names_line(description: InterruptControllerDescription, line: int) -> bool {
    exists|p: int|
        0 <= p < 4 && #[trigger] description.parent_interrupts[p] is Some
            && description.parent_interrupts[p]->Some_0.cells[0] == line
}

/// A description names at least one parent interrupt.
pub open spec fn has_parent_line(description: InterruptControllerDescription) -> bool {
    exists|p: int| 0 <= p < 4 && #[trigger] description.parent_interrupts[p] is Some
}

/// Parent interrupt `p` of description `i` names CPU line `line`.
pub open spec fn parent_names(
    descriptions: Seq<InterruptControllerDescription>,
    i: int,
    p: int,
    line: int,
) -> bool {
    &&& 0 <= p < 4
    &&& descriptions[i].parent_interrupts[p] is Some
    &&& descriptions[i].parent_interrupts[p]->Some_0.cells[0] == line
}

/// No CPU line is named by two parent interrupts of the descriptions.
pub open spec fn parent_lines_distinct(descriptions: Seq<InterruptControllerDescription>) -> bool {
    forall|i: int, p: int, j: int, q: int, line: int|
        0 <= i < descriptions.len() && 0 <= j < descriptions.len() && #[trigger] parent_names(
            descriptions,
            i,
            p,
            line,
        ) && #[trigger] parent_names(descriptions, j, q, line) ==> i == j && p == q
}

/// The descriptions make a layout: exactly two controllers at distinct
/// main addresses, each with usable windows, one-cell parent lines and at
/// least one of them, and no line named twice.
pub open spec fn layout_compiles(descriptions: Seq<InterruptControllerDescription>) -> bool {
    &&& descriptions.len() == 2
    &&& descriptions[0].main_mmio.base != descriptions[1].main_mmio.base
    &&& forall|i: int|
        0 <= i < 2 ==> {
            &&& main_window_valid(#[trigger] descriptions[i].main_mmio)
            &&& isr_windows_valid(descriptions[i])
            &&& parent_lines_valid(descriptions[i])
            &&& has_parent_line(descriptions[i])
        }
    &&& parent_lines_distinct(descriptions)
}

/// The layout of `description` as bank `bank`: its main base, then its ISR
/// bases in order with the rest empty.
pub open spec fn controller_layout_of(
    description: InterruptControllerDescription,
    layout: ControllerLayout,
) -> bool {
    &&& layout.main_base == description.main_mmio.base
    &&& forall|i: int|
        0 <= i < MAX_CORES ==> #[trigger] layout.core_isr[i] == if i
            < description.core_isr@.len() {
            Some(description.core_isr@[i].base)
        } else {
            None
        }
}

impl RuntimeLayout {
    /// Compile the two controller descriptions of `topology` into the bank
    /// layout: bank 0 is the one at the lower main address, whatever the
    /// order of the descriptions.
    pub fn compile(topology: &BoardTopology) -> (result: Result<Self, LayoutError>)
        ensures
            result is Ok <==> layout_compiles(topology.interrupt_controllers@),
            topology.interrupt_controllers@.len() != 2 ==> result == Err::<Self, LayoutError>(
                LayoutError::WrongControllerCount,
            ),
            topology.interrupt_controllers@.len() == 2
                && topology.interrupt_controllers@[0].main_mmio.base
                == topology.interrupt_controllers@[1].main_mmio.base ==> result == Err::<
                Self,
                LayoutError,
            >(LayoutError::DuplicateMmio),
            result matches Ok(layout) ==> {
                let d = topology.interrupt_controllers@;
                &&& d.len() == 2
                &&& d[0].main_mmio.base != d[1].main_mmio.base
                &&& forall|i: int|
                    0 <= i < 2 ==> {
                        let bank = if d[i].main_mmio.base < d[1 - i].main_mmio.base {
                            0int
                        } else {
                            1int
                        };
                        &&& main_window_valid(#[trigger] d[i].main_mmio)
                        &&& isr_windows_valid(d[i])
                        &&& parent_lines_valid(d[i])
                        &&& controller_layout_of(d[i], layout.controllers[bank])
                        &&& forall|line: int|
                            0 <= line < 8 && names_line(d[i], line) ==> #[trigger] layout.parent_banks[line]
                                == Some(bank as u8)
                    }
                &&& forall|line: int|
                    0 <= line < 8 && #[trigger] layout.parent_banks[line] is Some ==> names_line(
                        d[0],
                        line,
                    ) || names_line(d[1], line)
            },
            result matches Err(LayoutError::InvalidMainMmio) ==> exists|i: int|
                0 <= i < topology.interrupt_controllers@.len() && !main_window_valid(
                    #[trigger] topology.interrupt_controllers@[i].main_mmio,
                ),
            result matches Err(LayoutError::InvalidCoreIsr) ==> exists|i: int|
                0 <= i < topology.interrupt_controllers@.len() && !isr_windows_valid(
                    #[trigger] topology.interrupt_controllers@[i],
                ),
            result matches Err(LayoutError::InvalidParentLine) ==> exists|i: int|
                0 <= i < topology.interrupt_controllers@.len() && !parent_lines_valid(
                    #[trigger] topology.interrupt_controllers@[i],
                ),
    {
        let descriptions = &topology.interrupt_controllers;
        if descriptions.len() != 2 {
            return Err(LayoutError::WrongControllerCount);
        }
        if descriptions[0].main_mmio.base == descriptions[1].main_mmio.base {
            return Err(LayoutError::DuplicateMmio);
        }
        let empty = ControllerLayout { main_base: 0, core_isr: [None, None, None, None] };
        let mut controllers = [empty, empty];
        let mut parent_banks: [Option<u8>; 8] = [None, None, None, None, None, None, None, None];
        let mut index: usize = 0;
        while index < 2
            invariant
                descriptions == &topology.interrupt_controllers,
                descriptions@.len() == 2,
                descriptions@[0].main_mmio.base != descriptions@[1].main_mmio.base,
                index <= 2,
                forall|i: int|
                    0 <= i < index ==> {
                        let bank = if descriptions@[i].main_mmio.base < descriptions@[1
                            - i].main_mmio.base {
                            0int
                        } else {
                            1int
                        };
                        &&& main_window_valid(#[trigger] descriptions@[i].main_mmio)
                        &&& isr_windows_valid(descriptions@[i])
                        &&& parent_lines_valid(descriptions@[i])
                        &&& has_parent_line(descriptions@[i])
                        &&& controller_layout_of(descriptions@[i], controllers[bank])
                        &&& forall|line: int|
                            0 <= line < 8 && names_line(descriptions@[i], line)
                                ==> #[trigger] parent_banks[line] == Some(bank as u8)
                    },
                forall|line: int|
                    0 <= line < 8 && #[trigger] parent_banks[line] is Some ==> exists|i: int|
                        0 <= i < index && names_line(#[trigger] descriptions@[i], line),
                forall|i: int, p: int, j: int, q: int, line: int|
                    0 <= i < index && 0 <= j < index && #[trigger] parent_names(
                        descriptions@,
                        i,
                        p,
                        line,
                    ) && #[trigger] parent_names(descriptions@, j, q, line) ==> i == j && p == q,
            decreases 2 - index,
        {
            let description = &descriptions[index];
            let other = &descriptions[1 - index];
            let main = description.main_mmio;
            if main.base == 0 || main.base % 4 != 0 || main.size < MAIN_REGISTER_BYTES {
                return Err(LayoutError::InvalidMainMmio);
            }
            if description.core_isr.len() == 0 || description.core_isr.len() > MAX_CORES {
                return Err(LayoutError::InvalidCoreIsr);
            }
            let bank: usize = if main.base < other.main_mmio.base {
                0
            } else {
                1
            };
            let mut core_isr: [Option<usize>; 4] = [None, None, None, None];
            let mut slot: usize = 0;
            while slot < description.core_isr.len()
                invariant
                    descriptions == &topology.interrupt_controllers,
                    descriptions@.len() == 2,
                    descriptions@[0].main_mmio.base != descriptions@[1].main_mmio.base,
                    index < 2,
                    description == &descriptions@[index as int],
                    1 <= description.core_isr@.len() <= MAX_CORES,
                    slot <= description.core_isr@.len(),
                    forall|i: int|
                        0 <= i < slot ==> isr_window_valid(#[trigger] description.core_isr@[i]),
                    forall|i: int|
                        0 <= i < MAX_CORES ==> #[trigger] core_isr[i] == if i < slot {
                            Some(description.core_isr@[i].base)
                        } else {
                            None
                        },
                decreases description.core_isr@.len() - slot,
            {
                let region = description.core_isr[slot];
                if region.base == 0 || region.base % 4 != 0 || region.size < 4 {
                    return Err(LayoutError::InvalidCoreIsr);
                }
                core_isr[slot] = Some(region.base);
                slot = slot + 1;
            }
            let ghost before_banks = parent_banks;
            let mut has_parent = false;
            let mut p: usize = 0;
            while p < 4
                invariant
                    descriptions == &topology.interrupt_controllers,
                    descriptions@.len() == 2,
                    descriptions@[0].main_mmio.base != descriptions@[1].main_mmio.base,
                    index < 2,
                    description == &descriptions@[index as int],
                    bank < 2,
                    p <= 4,
                    forall|q: int|
                        0 <= q < p && #[trigger] description.parent_interrupts[q] is Some ==> {
                            let spec = description.parent_interrupts[q]->Some_0;
                            spec.cell_count == 1 && spec.cells[0] < HWI_LINES
                                && parent_banks[spec.cells[0] as int] == Some(bank as u8)
                        },
                    forall|line: int|
                        0 <= line < 8 && #[trigger] parent_banks[line] != before_banks[line]
                            ==> parent_banks[line] == Some(bank as u8) && exists|q: int|
                            0 <= q < p && #[trigger] description.parent_interrupts[q] is Some
                                && description.parent_interrupts[q]->Some_0.cells[0] == line,
                    forall|line: int| 0 <= line < 8 && before_banks[line] is Some ==> #[trigger] parent_banks[line] == before_banks[line],
                    has_parent ==> exists|q: int|
                        0 <= q < p && #[trigger] description.parent_interrupts[q] is Some,
                    !has_parent ==> forall|q: int| 0 <= q < p ==> #[trigger] description.parent_interrupts[q] is None,
                    forall|line: int|
                        0 <= line < 8 && #[trigger] before_banks[line] is Some ==> exists|i: int|
                            0 <= i < index && names_line(#[trigger] descriptions@[i], line),
                    forall|i: int, q: int, line: int|
                        0 <= i < index && #[trigger] parent_names(descriptions@, i, q, line) ==> 0 <= line < 8 && before_banks[line] is Some,
                    forall|i: int, q: int, j: int, r: int, line: int|
                        0 <= i <= index && 0 <= j <= index && (i < index || q < p) && (j < index
                            || r < p) && #[trigger] parent_names(descriptions@, i, q, line)
                            && #[trigger] parent_names(descriptions@, j, r, line) ==> i == j && q == r,
                decreases 4 - p,
            {
                if let Some(parent) = description.parent_interrupts[p] {
                    if parent.cell_count != 1 || parent.cells[0] >= HWI_LINES as u32 {
                        return Err(LayoutError::InvalidParentLine);
                    }
                    let line = parent.cells[0] as usize;
                    if parent_banks[line].is_some() {
                        proof {
                            let d = descriptions@;
                            assert(parent_names(d, index as int, p as int, line as int));
                            if before_banks[line as int] is Some {
                                let i = choose|i: int|
                                    0 <= i < index && names_line(#[trigger] d[i], line as int);
                                let q = choose|q: int|
                                    0 <= q < 4 && #[trigger] d[i].parent_interrupts[q] is Some
                                        && d[i].parent_interrupts[q]->Some_0.cells[0] == line;
                                assert(parent_names(d, i, q, line as int));
                            } else {
                                assert(parent_banks[line as int] != before_banks[line as int]);
                                let q = choose|q: int|
                                    0 <= q < p && #[trigger] description.parent_interrupts[q] is Some
                                        && description.parent_interrupts[q]->Some_0.cells[0] == line;
                                assert(parent_names(d, index as int, q, line as int));
                            }
                            assert(!parent_lines_distinct(d));
                        }
                        return Err(LayoutError::DuplicateParentLine);
                    }
                    parent_banks[line] = Some(bank as u8);
                    has_parent = true;
                }
                p = p + 1;
            }
            if !has_parent {
                return Err(LayoutError::MissingParentLine);
            }
            controllers[bank] = ControllerLayout { main_base: main.base, core_isr };
            index = index + 1;
        }
        Ok(Self { controllers, parent_banks })
    }
}

/// Holds the layout once it is published.
pub struct RuntimeLayoutSlot {
    layout: Option<RuntimeLayout>,
}

impl RuntimeLayoutSlot {
    pub fn new() -> (slot: Self)
        ensures
            slot.published() is None,
    {
        Self { layout: None }
    }

    /// The published layout, if any.
    pub closed spec fn published(&self) -> Option<RuntimeLayout> {
        self.layout
    }

    pub fn get(&self) -> (layout: Option<&RuntimeLayout>)
        ensures
            match self.published() {
                Some(published) => layout == Some(&published),
                None => layout is None,
            },
    {
        self.layout.as_ref()
    }

    /// Publish `layout` once; a published layout is never overwritten.
    pub fn publish(&mut self, layout: RuntimeLayout) -> (result: Result<(), LayoutError>)
        ensures
            match old(self).published() {
                Some(_) => result == Err::<(), LayoutError>(LayoutError::AlreadyPublished)
                    && final(self).published() == old(self).published(),
                None => result is Ok && final(self).published() == Some(layout),
            },
    {
        if self.layout.is_some() {
            return Err(LayoutError::AlreadyPublished);
        }
        self.layout = Some(layout);
        Ok(())
    }
}

#[derive(Debug, Clone, Copy, PartialEq, Eq, Structural)]
pub enum RuntimeError {
    InvalidSnapshot,
    InvalidCore,
    UnmappedParent,
    MissingController,
    Controller(DriverError),
    Domain(DomainError),
    NoConfiguredSources,
    DispositionMismatch,
}

#[derive(Debug, Clone, Copy, PartialEq, Eq, Structural)]
pub struct ServiceReport {
    pub parent_lines: u8,
    pub masked_sources: u8,
    pub handled_sources: u8,
    pub unhandled_sources: u8,
    pub rearmed_sources: u8,
}

impl Default for ServiceReport {
    fn default() -> (report: Self)
        ensures
            report == empty_report(),
    {
        ServiceReport {
            parent_lines: 0,
            masked_sources: 0,
            handled_sources: 0,
            unhandled_sources: 0,
            rearmed_sources: 0,
        }
    }
}

/// A report of nothing serviced.
pub open spec fn empty_report() -> ServiceReport {
    ServiceReport {
        parent_lines: 0,
        masked_sources: 0,
        handled_sources: 0,
        unhandled_sources: 0,
        rearmed_sources: 0,
    }
}

/// Every masked source was either handled or left unhandled, only handled
/// sources were re-enabled, and at most 32 sources of each of the two banks
/// were masked from at most eight parent lines.
pub open spec fn report_consistent(report: ServiceReport) -> bool {
    &&& report.masked_sources == report.handled_sources + report.unhandled_sources
    &&& report.rearmed_sources <= report.handled_sources
    &&& report.masked_sources <= 64
    &&& report.parent_lines <= 8
}

#[derive(Debug, PartialEq, Eq, Structural)]
pub struct ServiceFailure {
    pub error: RuntimeError,
    pub report: ServiceReport,
}

/// One call made on a bank controller, with whether it succeeded or what
/// it returned.
#[derive(Debug, Clone, Copy, PartialEq, Eq)]
pub enum BankCall {
    PendingEnabled(usize, Result<u32, DriverError>),
    MaskAckClaim(usize, u32, bool),
    Enable(u32, bool),
    Arm(u32, Trigger, Route, bool),
}

/// The calls made on a bank controller, oldest first.
pub type BankHistory = Seq<BankCall>;

/// One LIOINTC bank as the service drives it; every call is recorded.
pub trait BankController {
    spec fn calls(&self) -> BankHistory;

    /// Pending and enabled sources routed to `core`, one bit per local source.
    fn pending_enabled(&mut self, core: usize) -> (pending: Result<u32, DriverError>)
        ensures
            final(self).calls() == old(self).calls().push(BankCall::PendingEnabled(core, pending)),
    ;

    /// Mask, acknowledge and claim local source `local` of `bank`.
    fn mask_ack_claim(&mut self, bank: usize, local: u32) -> (claimed: Result<
        AcknowledgedIrq,
        DriverError,
    >)
        ensures
            final(self).calls() == old(self).calls().push(
                BankCall::MaskAckClaim(bank, local, claimed is Ok),
            ),
    ;

    /// Enable local source `local` again.
    fn enable(&mut self, local: u32) -> (enabled: Result<(), DriverError>)
        ensures
            final(self).calls() == old(self).calls().push(BankCall::Enable(local, enabled is Ok)),
    ;

    /// Program local source `local` with `trigger` along `route` and
    /// enable it.
    fn arm(&mut self, local: u32, trigger: Trigger, route: Route) -> (armed: Result<(), DriverError>)
        ensures
            final(self).calls() == old(self).calls().push(
                BankCall::Arm(local, trigger, route, armed is Ok),
            ),
    ;
}

/// The parent-line masks requested of an activator, oldest first.
pub type ParentRequests = Seq<u8>;

/// The CPU side that unmasks parent lines; every request is recorded.
pub trait CpuParentActivator {
    spec fn requests(&self) -> ParentRequests;

    /// Unmask the CPU hardware interrupt lines set in `snapshot`.
    fn enable_parent_lines(&mut self, snapshot: u8) -> (result: Result<(), DriverError>)
        ensures
            final(self).requests() == old(self).requests().push(snapshot),
    ;
}

/// The sources a pending query reported, none if it failed.
pub open spec fn pending_bits(call: BankCall) -> u32 {
    match call {
        BankCall::PendingEnabled(_, Ok(pending)) => pending,
        _ => 0,
    }
}

/// The local source a claim names.
pub open spec fn claimed_local(call: BankCall) -> int {
    match call {
        BankCall::MaskAckClaim(_, local, _) => local as int,
        _ => -1,
    }
}

/// Call `i` of a service of bank `bank` whose pending query is call
/// `start`: a claim of a source that the query reported, or the enable of
/// the source claimed successfully just before.
pub open spec fn service_call_ok(calls: BankHistory, start: int, i: int, bank: usize) -> bool {
    match calls[i] {
        BankCall::MaskAckClaim(b, local, _) => b == bank && local < 32 && (pending_bits(
            calls[start],
        ) >> local) & 1 == 1,
        BankCall::Enable(local, _) => i - 1 > start && calls[i - 1] == BankCall::MaskAckClaim(
            bank,
            local,
            true,
        ),
        BankCall::PendingEnabled(..) => false,
        BankCall::Arm(..) => false,
    }
}

/// `after` is `before` followed by at most one service of bank `bank` for
/// `core`: one pending query, then claims of reported sources in ascending
/// order, each re-enable directly after the successful claim of its source.
pub open spec fn bank_service(before: BankHistory, after: BankHistory, bank: usize, core: usize) -> bool {
    &&& before.len() <= after.len()
    &&& after.subrange(0, before.len() as int) == before
    &&& after.len() > before.len() ==> (after[before.len() as int] matches BankCall::PendingEnabled(
        c,
        _,
    ) && c == core)
    &&& forall|i: int|
        before.len() < i < after.len() ==> #[trigger] service_call_ok(
            after,
            before.len() as int,
            i,
            bank,
        )
    &&& forall|i: int, j: int|
        before.len() < i < j < after.len() && #[trigger] after[i] is MaskAckClaim
            && #[trigger] after[j] is MaskAckClaim ==> claimed_local(after[i]) < claimed_local(
            after[j],
        )
}

/// The service of a bank that starts at call `before.len()` of `after`
/// found its pending sources and claimed every one of them successfully.
pub open spec fn bank_service_complete(before: BankHistory, after: BankHistory, bank: usize) -> bool {
    &&& after.len() > before.len()
    &&& after[before.len() as int] matches BankCall::PendingEnabled(_, Ok(_))
    &&& forall|local: u32|
        local < 32 && (pending_bits(after[before.len() as int]) >> local) & 1 == 1 ==> exists|i: int|
            before.len() < i < after.len() && #[trigger] after[i] == BankCall::MaskAckClaim(
                bank,
                local,
                true,
            )
}

/// The slot was serviced completely.
pub open spec fn slot_complete<C: BankController>(
    before: Option<C>,
    after: Option<C>,
    bank: usize,
) -> bool {
    match (before, after) {
        (Some(b), Some(a)) => bank_service_complete(b.calls(), a.calls(), bank),
        _ => false,
    }
}

/// A slot that was not serviced was serviced at most once.
proof fn lemma_slot_unserviced<C: BankController>(slot: Option<C>, bank: usize, core: usize)
    ensures
        slot_serviced(slot, slot, bank, core),
{
    if let Some(controller) = slot {
        assert(controller.calls().subrange(0, controller.calls().len() as int) =~= controller.calls());
    }
}

/// A controller slot kept present or absent, and serviced at most once.
pub open spec fn slot_serviced<C: BankController>(
    before: Option<C>,
    after: Option<C>,
    bank: usize,
    core: usize,
) -> bool {
    match (before, after) {
        (Some(b), Some(a)) => bank_service(b.calls(), a.calls(), bank, core),
        (None, None) => true,
        _ => false,
    }
}

/// The controllers of both banks, the parent line each bank raises, and the
/// handler table.
pub struct BoardIrqRuntime<C, H> {
    bank0: Option<C>,
    bank1: Option<C>,
    parent_banks: [Option<u8>; 8],
    domain: LioIntcDomain<H>,
}

/// Whether parent line `line` is raised in `snapshot`.
pub open spec fn line_raised(snapshot: usize, line: usize) -> bool {
    (snapshot >> line) & 1 == 1
}

/// Whether a controller is present for the bank a parent line maps to.
pub open spec fn bank_present<C>(bank0: Option<C>, bank1: Option<C>, bank: u8) -> bool {
    (bank == 0 && bank0 is Some) || (bank == 1 && bank1 is Some)
}

impl<C: BankController, H: Fn(AcknowledgedIrq) -> IrqDisposition> BoardIrqRuntime<C, H> {
    /// Both banks have a handler table and every mapped parent line names a
    /// bank with a controller.
    pub closed spec fn wf(&self) -> bool {
        &&& self.domain.wf()
        &&& self.domain.banks() == MAX_BANKS
        &&& forall|line: int|
            0 <= line < 8 && #[trigger] self.parent_banks[line] is Some ==> bank_present(
                self.bank0,
                self.bank1,
                self.parent_banks[line]->Some_0,
            )
    }

    /// The controllers of bank 0 and bank 1.
    pub closed spec fn controllers(&self) -> (Option<C>, Option<C>) {
        (self.bank0, self.bank1)
    }

    /// The bank each parent line maps to.
    pub closed spec fn parents(&self) -> Seq<Option<u8>> {
        self.parent_banks@
    }

    /// The handler registered for each global source.
    pub closed spec fn handlers(&self) -> Seq<Option<H>> {
        self.domain@
    }

    /// Build a runtime over controllers that each serve their own bank.
    pub fn new(bank0: Option<C>, bank1: Option<C>, parent_banks: [Option<u8>; 8]) -> (result:
        Result<Self, RuntimeError>)
        ensures
            match result {
                Ok(runtime) => runtime.wf() && runtime.parents() == parent_banks@ && runtime.handlers()
                    == Seq::new(64, |i: int| None::<H>),
                Err(error) => error == RuntimeError::MissingController && exists|line: int|
                    0 <= line < 8 && #[trigger] parent_banks[line] is Some && !bank_present(
                        bank0,
                        bank1,
                        parent_banks[line]->Some_0,
                    ),
            },
    {
        let mut line: usize = 0;
        while line < HWI_LINES
            invariant
                line <= HWI_LINES,
                forall|l: int|
                    0 <= l < line && #[trigger] parent_banks[l] is Some ==> bank_present(
                        bank0,
                        bank1,
                        parent_banks[l]->Some_0,
                    ),
            decreases HWI_LINES - line,
        {
            if let Some(bank) = parent_banks[line] {
                let present = (bank == 0 && bank0.is_some()) || (bank == 1 && bank1.is_some());
                if !present {
                    return Err(RuntimeError::MissingController);
                }
            }
            line = line + 1;
        }
        let domain = match LioIntcDomain::new(MAX_BANKS) {
            Ok(domain) => domain,
            Err(error) => return Err(RuntimeError::Domain(error)),
        };
        Ok(Self { bank0, bank1, parent_banks, domain })
    }

    /// Give the controllers back, bank 0 first, ending the runtime.
    pub fn into_controllers(self) -> (controllers: (Option<C>, Option<C>))
        ensures
            controllers == self.controllers(),
    {
        (self.bank0, self.bank1)
    }

    /// Register `handler` for `irq`.
    pub fn register(&mut self, irq: GlobalIrq, handler: H) -> (result: Result<(), RuntimeError>)
        requires
            old(self).wf(),
            LioIntcDomain::<H>::callable(handler),
        ensures
            final(self).wf(),
            final(self).parents() == old(self).parents(),
            match result {
                Ok(()) => old(self).handlers()[irq.id() as int] is None && final(self).handlers()
                    == old(self).handlers().update(irq.id() as int, Some(handler)),
                Err(RuntimeError::Domain(error)) => final(self).handlers() == old(self).handlers()
                    && (error == DomainError::AlreadyRegistered || error == DomainError::OutOfRange),
                Err(_) => false,
            },
    {
        match self.domain.register(irq, handler) {
            Ok(()) => Ok(()),
            Err(error) => Err(RuntimeError::Domain(error)),
        }
    }

    /// Service one parent-line snapshot on `core`: every raised line is
    /// visited in ascending order, each bank behind it once; every pending
    /// enabled source is masked and claimed, then dispatched, and re-enabled
    /// only when its handler returns device-ack evidence for that source.
    pub fn service(&mut self, snapshot: usize, core: usize) -> (result: Result<
        ServiceReport,
        ServiceFailure,
    >)
        requires
            old(self).wf(),
        ensures
            final(self).wf(),
            final(self).parents() == old(self).parents(),
            final(self).handlers() == old(self).handlers(),
            slot_serviced(old(self).controllers().0, final(self).controllers().0, 0, core),
            slot_serviced(old(self).controllers().1, final(self).controllers().1, 1, core),
            result is Ok ==> forall|line: usize|
                line < 8 && line_raised(snapshot, line) ==> match #[trigger] old(self).parents()[line as int] {
                    Some(bank) => if bank == 0 {
                        slot_complete(old(self).controllers().0, final(self).controllers().0, 0)
                    } else {
                        slot_complete(old(self).controllers().1, final(self).controllers().1, 1)
                    },
                    None => false,
                },
            (snapshot == 0 || snapshot > 0xff) <==> result == Err::<ServiceReport, ServiceFailure>(
                ServiceFailure { error: RuntimeError::InvalidSnapshot, report: empty_report() },
            ),
            match result {
                Ok(report) => report_consistent(report) && forall|line: usize|
                    line < 8 && line_raised(snapshot, line) ==> #[trigger] old(
                        self,
                    ).parents()[line as int] is Some,
                Err(failure) => report_consistent(failure.report) && (failure.error
                    == RuntimeError::UnmappedParent ==> exists|line: usize|
                    line < 8 && line_raised(snapshot, line) && #[trigger] old(
                        self,
                    ).parents()[line as int] is None),
            },
    {
        proof {
            lemma_slot_unserviced(self.bank0, 0, core);
            lemma_slot_unserviced(self.bank1, 1, core);
        }
        if snapshot == 0 || snapshot > 0xff {
            return Err(
                ServiceFailure { error: RuntimeError::InvalidSnapshot, report: ServiceReport::default() },
            );
        }
        let mut report = ServiceReport::default();
        let mut serviced0 = false;
        let mut serviced1 = false;
        let mut line: usize = 0;
        while line < HWI_LINES
            invariant
                self.wf(),
                self.parents() == old(self).parents(),
                self.handlers() == old(self).handlers(),
                0 < snapshot <= 0xff,
                line <= HWI_LINES,
                report_consistent(report),
                report.parent_lines <= line,
                report.masked_sources <= 32 * ((if serviced0 {
                    1int
                } else {
                    0
                }) + (if serviced1 {
                    1int
                } else {
                    0
                })),
                forall|l: usize|
                    l < line && line_raised(snapshot, l) ==> #[trigger] old(
                        self,
                    ).parents()[l as int] is Some,
                slot_serviced(old(self).bank0, self.bank0, 0, core),
                slot_serviced(old(self).bank1, self.bank1, 1, core),
                !serviced0 ==> self.bank0 == old(self).bank0,
                !serviced1 ==> self.bank1 == old(self).bank1,
                serviced0 ==> slot_complete(old(self).bank0, self.bank0, 0),
                serviced1 ==> slot_complete(old(self).bank1, self.bank1, 1),
                forall|l: usize|
                    l < line && line_raised(snapshot, l) ==> match #[trigger] old(self).parents()[l as int] {
                        Some(bank) => if bank == 0 {
                            serviced0
                        } else {
                            serviced1
                        },
                        None => false,
                    },
            decreases HWI_LINES - line,
        {
            if (snapshot >> line) & 1 == 1 {
                let bank = match self.parent_banks[line] {
                    Some(bank) => bank,
                    None => {
                        return Err(ServiceFailure { error: RuntimeError::UnmappedParent, report });
                    },
                };
                report.parent_lines = report.parent_lines + 1;
                if bank == 0 && !serviced0 {
                    serviced0 = true;
                    let outcome = match &mut self.bank0 {
                        Some(controller) => service_bank(
                            controller,
                            &self.domain,
                            0,
                            core,
                            &mut report,
                        ),
                        None => Err(RuntimeError::MissingController),
                    };
                    if let Err(error) = outcome {
                        return Err(ServiceFailure { error, report });
                    }
                } else if bank == 1 && !serviced1 {
                    serviced1 = true;
                    let outcome = match &mut self.bank1 {
                        Some(controller) => service_bank(
                            controller,
                            &self.domain,
                            1,
                            core,
                            &mut report,
                        ),
                        None => Err(RuntimeError::MissingController),
                    };
                    if let Err(error) = outcome {
                        return Err(ServiceFailure { error, report });
                    }
                }
            }
            line = line + 1;
        }
        Ok(report)
    }
}

/// A refused transition, with the state it was refused in.
pub struct TransitionFailure<S> {
    pub error: RuntimeError,
    pub state: S,
}

/// A runtime with no source configured and no parent line unmasked.
pub struct DormantRuntime<C, H> {
    runtime: BoardIrqRuntime<C, H>,
}

/// A runtime with sources configured, one bit per global source.
pub struct ConfiguredRuntime<C, H> {
    runtime: BoardIrqRuntime<C, H>,
    configured_sources: u64,
}

/// A runtime whose parent lines are unmasked.
pub struct LiveRuntime<C, H> {
    runtime: BoardIrqRuntime<C, H>,
    configured_sources: u64,
}

/// Parent line `line` serves a bank with a configured source.
pub open spec fn line_activated(parents: Seq<Option<u8>>, sources: u64, line: int) -> bool {
    match parents[line] {
        Some(bank) => if bank == 0 {
            sources & 0xFFFF_FFFFu64 != 0
        } else {
            sources & 0xFFFF_FFFF_0000_0000u64 != 0
        },
        None => false,
    }
}

/// The parent lines to unmask among the first `count`, one bit per line.
pub open spec fn activation_mask(parents: Seq<Option<u8>>, sources: u64, count: nat) -> u8
    decreases count,
{
    if count == 0 {
        0
    } else {
        activation_mask(parents, sources, (count - 1) as nat) | if line_activated(
            parents,
            sources,
            count - 1,
        ) {
            1u8 << ((count - 1) as u8)
        } else {
            0
        }
    }
}

/// What configuring `irq` with `handler` did to a runtime: on success the
/// handler is registered and the source armed; on failure the handler
/// table is as before.
pub open spec fn configured<C: BankController, H: Fn(AcknowledgedIrq) -> IrqDisposition>(
    before: BoardIrqRuntime<C, H>,
    after: BoardIrqRuntime<C, H>,
    binding: InterruptBinding,
    handler: H,
    ok: bool,
) -> bool {
    let irq = binding.irq();
    &&& after.wf()
    &&& after.parents() == before.parents()
    &&& ok ==> before.handlers()[irq.id() as int] is None && after.handlers()
        == before.handlers().update(irq.id() as int, Some(handler))
    &&& !ok ==> after.handlers() == before.handlers()
}

impl<C: BankController, H: Fn(AcknowledgedIrq) -> IrqDisposition> BoardIrqRuntime<C, H> {
    pub fn into_dormant(self) -> (dormant: DormantRuntime<C, H>)
        ensures
            dormant.runtime() == self,
    {
        DormantRuntime { runtime: self }
    }

    /// Register `handler` for the bound source and arm it on its bank's
    /// controller along `route`; a refused step leaves the handler table
    /// as it was.
    fn configure_source(&mut self, binding: InterruptBinding, route: Route, handler: H) -> (result:
        Result<(), RuntimeError>)
        requires
            old(self).wf(),
            LioIntcDomain::<H>::callable(handler),
        ensures
            configured(*old(self), *final(self), binding, handler, result is Ok),
            result matches Err(error) ==> error is Domain || error == RuntimeError::MissingController
                || error is Controller,
    {
        let irq = binding.global_irq();
        proof {
            self.domain.lemma_wf_len();
        }
        if let Err(error) = self.register(irq, handler) {
            return Err(error);
        }
        let ghost registered = self.handlers();
        proof {
            self.domain.lemma_wf_len();
        }
        let bank = irq.bank();
        let armed = if bank == 0 {
            match &mut self.bank0 {
                Some(controller) => Some(controller.arm(irq.local(), binding.trigger(), route)),
                None => None,
            }
        } else {
            match &mut self.bank1 {
                Some(controller) => Some(controller.arm(irq.local(), binding.trigger(), route)),
                None => None,
            }
        };
        assert(self.handlers() == registered);
        let failure = match armed {
            Some(Ok(())) => return Ok(()),
            Some(Err(error)) => RuntimeError::Controller(error),
            None => RuntimeError::MissingController,
        };
        let _ = self.domain.unregister(irq);
        assert(self.handlers() =~= old(self).handlers());
        Err(failure)
    }
}

impl<C: BankController, H: Fn(AcknowledgedIrq) -> IrqDisposition> DormantRuntime<C, H> {
    pub closed spec fn runtime(&self) -> BoardIrqRuntime<C, H> {
        self.runtime
    }

    /// Configure the first source.
    pub fn configure(self, binding: InterruptBinding, route: Route, handler: H) -> (result: Result<
        ConfiguredRuntime<C, H>,
        TransitionFailure<Self>,
    >)
        requires
            self.runtime().wf(),
            LioIntcDomain::<H>::callable(handler),
        ensures
            match result {
                Ok(configured_runtime) => configured(
                    self.runtime(),
                    configured_runtime.runtime(),
                    binding,
                    handler,
                    true,
                ) && configured_runtime.sources() == 1u64 << binding.irq().id(),
                Err(failure) => configured(
                    self.runtime(),
                    failure.state.runtime(),
                    binding,
                    handler,
                    false,
                ),
            },
    {
        let mut runtime = self.runtime;
        let irq = binding.global_irq();
        match runtime.configure_source(binding, route, handler) {
            Ok(()) => Ok(ConfiguredRuntime { runtime, configured_sources: 1u64 << irq.raw() }),
            Err(error) => Err(TransitionFailure { error, state: DormantRuntime { runtime } }),
        }
    }
}

impl<C: BankController, H: Fn(AcknowledgedIrq) -> IrqDisposition> ConfiguredRuntime<C, H> {
    pub closed spec fn runtime(&self) -> BoardIrqRuntime<C, H> {
        self.runtime
    }

    /// Configured sources, one bit per global source.
    pub closed spec fn sources(&self) -> u64 {
        self.configured_sources
    }

    /// Configure one more source.
    pub fn configure(self, binding: InterruptBinding, route: Route, handler: H) -> (result: Result<
        Self,
        TransitionFailure<Self>,
    >)
        requires
            self.runtime().wf(),
            LioIntcDomain::<H>::callable(handler),
        ensures
            match result {
                Ok(next) => configured(self.runtime(), next.runtime(), binding, handler, true)
                    && next.sources() == self.sources() | (1u64 << binding.irq().id()),
                Err(failure) => configured(
                    self.runtime(),
                    failure.state.runtime(),
                    binding,
                    handler,
                    false,
                ) && failure.state.sources() == self.sources(),
            },
    {
        let mut runtime = self.runtime;
        let configured_sources = self.configured_sources;
        let irq = binding.global_irq();
        match runtime.configure_source(binding, route, handler) {
            Ok(()) => Ok(
                ConfiguredRuntime {
                    runtime,
                    configured_sources: configured_sources | (1u64 << irq.raw()),
                },
            ),
            Err(error) => Err(
                TransitionFailure { error, state: ConfiguredRuntime { runtime, configured_sources } },
            ),
        }
    }

    /// Unmask the parent lines that serve a bank with a configured source:
    /// refused with no source configured or no such line, or when the
    /// activator refuses them.
    pub fn activate<A: CpuParentActivator>(self, activator: &mut A) -> (result: Result<
        LiveRuntime<C, H>,
        TransitionFailure<Self>,
    >)
        requires
            self.runtime().wf(),
        ensures
            ({
                let mask = activation_mask(self.runtime().parents(), self.sources(), 8);
                if self.sources() == 0 {
                    result matches Err(failure) && failure.error == RuntimeError::NoConfiguredSources
                        && final(activator).requests() == old(activator).requests()
                } else if mask == 0 {
                    result matches Err(failure) && failure.error == RuntimeError::UnmappedParent
                        && final(activator).requests() == old(activator).requests()
                } else {
                    &&& final(activator).requests() == old(activator).requests().push(mask)
                    &&& result matches Err(failure) ==> failure.error is Controller
                }
            }),
            match result {
                Ok(live) => live.runtime() == self.runtime() && live.sources() == self.sources(),
                Err(failure) => failure.state.runtime() == self.runtime()
                    && failure.state.sources() == self.sources(),
            },
    {
        if self.configured_sources == 0 {
            return Err(TransitionFailure { error: RuntimeError::NoConfiguredSources, state: self });
        }
        let mut parents: u8 = 0;
        let mut line: usize = 0;
        while line < HWI_LINES
            invariant
                line <= HWI_LINES,
                parents == activation_mask(self.runtime().parents(), self.sources(), line as nat),
            decreases HWI_LINES - line,
        {
            let ghost previous = parents;
            let mut activated = false;
            if let Some(bank) = self.runtime.parent_banks[line] {
                let bank_mask: u64 = if bank == 0 {
                    0xFFFF_FFFFu64
                } else {
                    0xFFFF_FFFF_0000_0000u64
                };
                if self.configured_sources & bank_mask != 0 {
                    parents = parents | (1u8 << (line as u8));
                    activated = true;
                }
            }
            proof {
                let p = self.runtime().parents();
                let src = self.sources();
                assert(activated == line_activated(p, src, line as int));
                assert(activation_mask(p, src, (line + 1) as nat) == activation_mask(p, src, line as nat)
                    | if line_activated(p, src, line as int) {
                    1u8 << (line as u8)
                } else {
                    0u8
                });
                if !activated {
                    assert((previous | 0u8) == previous) by (bit_vector);
                }
            }
            line = line + 1;
        }
        if parents == 0 {
            return Err(TransitionFailure { error: RuntimeError::UnmappedParent, state: self });
        }
        if let Err(error) = activator.enable_parent_lines(parents) {
            return Err(TransitionFailure { error: RuntimeError::Controller(error), state: self });
        }
        Ok(LiveRuntime { runtime: self.runtime, configured_sources: self.configured_sources })
    }
}

impl<C: BankController, H: Fn(AcknowledgedIrq) -> IrqDisposition> LiveRuntime<C, H> {
    pub closed spec fn runtime(&self) -> BoardIrqRuntime<C, H> {
        self.runtime
    }

    pub closed spec fn sources(&self) -> u64 {
        self.configured_sources
    }

    pub fn configured_sources(&self) -> (sources: u64)
        ensures
            sources == self.sources(),
    {
        self.configured_sources
    }

    pub fn into_runtime(self) -> (runtime: BoardIrqRuntime<C, H>)
        ensures
            runtime == self.runtime(),
    {
        self.runtime
    }

    /// Service one snapshot with the live runtime.
    pub fn service(&mut self, snapshot: usize, core: usize) -> (result: Result<
        ServiceReport,
        ServiceFailure,
    >)
        requires
            old(self).runtime().wf(),
        ensures
            final(self).sources() == old(self).sources(),
            final(self).runtime().wf(),
            final(self).runtime().handlers() == old(self).runtime().handlers(),
            final(self).runtime().parents() == old(self).runtime().parents(),
            (snapshot == 0 || snapshot > 0xff) <==> result == Err::<ServiceReport, ServiceFailure>(
                ServiceFailure { error: RuntimeError::InvalidSnapshot, report: empty_report() },
            ),
            match result {
                Ok(report) => report_consistent(report),
                Err(failure) => report_consistent(failure.report),
            },
    {
        self.runtime.service(snapshot, core)
    }
}

/// Service the pending enabled sources of one bank, lowest local source
/// first, adding to `report`.
fn service_bank<C: BankController, H: Fn(AcknowledgedIrq) -> IrqDisposition>(
    controller: &mut C,
    domain: &LioIntcDomain<H>,
    bank: usize,
    core: usize,
    report: &mut ServiceReport,
) -> (result: Result<(), RuntimeError>)
    requires
        domain.wf(),
        domain.banks() == MAX_BANKS,
        bank < MAX_BANKS,
        report_consistent(*old(report)),
        old(report).masked_sources <= 32,
    ensures
        report_consistent(*final(report)),
        final(report).masked_sources <= old(report).masked_sources + 32,
        final(report).parent_lines == old(report).parent_lines,
        result matches Err(error) ==> error != RuntimeError::UnmappedParent && error
            != RuntimeError::InvalidSnapshot,
        bank_service(old(controller).calls(), final(controller).calls(), bank, core),
        final(controller).calls().len() > old(controller).calls().len(),
        result is Ok ==> bank_service_complete(old(controller).calls(), final(controller).calls(), bank),
{
    let ghost before = controller.calls();
    let queried = controller.pending_enabled(core);
    proof {
        assert(controller.calls().subrange(0, before.len() as int) =~= before);
    }
    let pending = match queried {
        Ok(pending) => pending,
        Err(error) => {
            return Err(
                if error == DriverError::InvalidParam {
                    RuntimeError::InvalidCore
                } else {
                    RuntimeError::Controller(error)
                },
            );
        },
    };
    let ghost start = *report;
    let mut local: u32 = 0;
    while local < 32
        invariant
            domain.wf(),
            domain.banks() == MAX_BANKS,
            bank < MAX_BANKS,
            local <= 32,
            report_consistent(*report),
            report.masked_sources <= start.masked_sources + local,
            start.masked_sources <= 32,
            report.parent_lines == start.parent_lines,
            start.parent_lines == old(report).parent_lines,
            start.masked_sources == old(report).masked_sources,
            before == old(controller).calls(),
            controller.calls().len() > before.len(),
            controller.calls()[before.len() as int] == BankCall::PendingEnabled(core, Ok::<u32, DriverError>(pending)),
            bank_service(before, controller.calls(), bank, core),
            forall|i: int|
                before.len() < i < controller.calls().len() && #[trigger] controller.calls()[i] is MaskAckClaim
                    ==> claimed_local(controller.calls()[i]) < local,
            forall|l: u32|
                l < local && (pending >> l) & 1 == 1 ==> exists|i: int|
                    before.len() < i < controller.calls().len() && #[trigger] controller.calls()[i]
                        == BankCall::MaskAckClaim(bank, l, true),
        decreases 32 - local,
    {
        if (pending >> local) & 1 == 1 {
            let ghost prior = controller.calls();
            let claimed = controller.mask_ack_claim(bank, local);
            proof {
                let calls = controller.calls();
                assert(calls.subrange(0, before.len() as int) =~= prior.subrange(0, before.len() as int));
                assert forall|i: int| before.len() < i < calls.len() implies #[trigger] service_call_ok(
                    calls,
                    before.len() as int,
                    i,
                    bank,
                ) by {
                    if i < prior.len() {
                        assert(service_call_ok(prior, before.len() as int, i, bank));
                        assert(calls[i] == prior[i]);
                        assert(calls[i - 1] == prior[i - 1]);
                    }
                }
                assert forall|i: int, j: int|
                    before.len() < i < j < calls.len() && #[trigger] calls[i] is MaskAckClaim
                        && #[trigger] calls[j] is MaskAckClaim implies claimed_local(calls[i]) < claimed_local(
                        calls[j],
                    ) by {
                    assert(calls[i] == prior[i]);
                    if j < prior.len() {
                        assert(calls[j] == prior[j]);
                    }
                }
            }
            let acknowledged = match claimed {
                Ok(acknowledged) => acknowledged,
                Err(error) => return Err(RuntimeError::Controller(error)),
            };
            proof {
                let calls = controller.calls();
                assert(calls[prior.len() as int] == BankCall::MaskAckClaim(bank, local, true));
                assert forall|l: u32| l <= local && (pending >> l) & 1 == 1 implies exists|i: int|
                    before.len() < i < calls.len() && #[trigger] calls[i]
                        == BankCall::MaskAckClaim(bank, l, true) by {
                    if l < local {
                        let i = choose|i: int|
                            before.len() < i < prior.len() && #[trigger] prior[i]
                                == BankCall::MaskAckClaim(bank, l, true);
                        assert(calls[i] == prior[i]);
                    } else {
                        assert(calls[prior.len() as int] == BankCall::MaskAckClaim(bank, l, true));
                    }
                }
            }
            report.masked_sources = report.masked_sources + 1;
            match domain.dispatch(acknowledged) {
                Ok(disposition) => {
                    report.handled_sources = report.handled_sources + 1;
                    match disposition {
                        IrqDisposition::KeepMasked => {},
                        IrqDisposition::Rearm(evidence) => {
                            let expected = match GlobalIrq::from_bank_local(bank, local) {
                                Ok(expected) => expected,
                                Err(error) => return Err(RuntimeError::Domain(error)),
                            };
                            if evidence.irq() != expected {
                                return Err(RuntimeError::DispositionMismatch);
                            }
                            let ghost claimed_calls = controller.calls();
                            let enabled = controller.enable(local);
                            proof {
                                let calls = controller.calls();
                                assert(calls.subrange(0, before.len() as int) =~= claimed_calls.subrange(0, before.len() as int));
                                assert forall|i: int| before.len() < i < calls.len() implies #[trigger] service_call_ok(
                                    calls,
                                    before.len() as int,
                                    i,
                                    bank,
                                ) by {
                                    if i < claimed_calls.len() {
                                        assert(service_call_ok(claimed_calls, before.len() as int, i, bank));
                                        assert(calls[i] == claimed_calls[i]);
                                        assert(calls[i - 1] == claimed_calls[i - 1]);
                                    } else {
                                        assert(calls[i - 1] == claimed_calls[i - 1]);
                                    }
                                }
                                assert forall|i: int, j: int|
                                    before.len() < i < j < calls.len() && #[trigger] calls[i] is MaskAckClaim
                                        && #[trigger] calls[j] is MaskAckClaim implies claimed_local(calls[i]) < claimed_local(
                                        calls[j],
                                    ) by {
                                    assert(calls[i] == claimed_calls[i]);
                                    assert(calls[j] == claimed_calls[j]);
                                }
                                assert forall|l: u32| l <= local && (pending >> l) & 1 == 1 implies exists|i: int|
                                    before.len() < i < calls.len() && #[trigger] calls[i]
                                        == BankCall::MaskAckClaim(bank, l, true) by {
                                    let i = choose|i: int|
                                        before.len() < i < claimed_calls.len() && #[trigger] claimed_calls[i]
                                            == BankCall::MaskAckClaim(bank, l, true);
                                    assert(calls[i] == claimed_calls[i]);
                                }
                            }
                            if let Err(error) = enabled {
                                return Err(RuntimeError::Controller(error));
                            }
                            report.rearmed_sources = report.rearmed_sources + 1;
                        },
                    }
                },
                Err(_unhandled) => {
                    report.unhandled_sources = report.unhandled_sources + 1;
                },
            }
        }
        local = local + 1;
    }
    Ok(())
}

} // verus!
