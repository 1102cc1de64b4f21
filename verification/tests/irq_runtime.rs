use ls2k1000la::irq_domain::{AcknowledgedIrq, DeviceAckedIrq, GlobalIrq, IrqDisposition};
use ls2k1000la::irq_binding::resolve;
use ls2k1000la::irq_domain::DomainError;
use ls2k1000la::irq_plan::Route;
use ls2k1000la::liointc::Trigger;
use ls2k1000la::irq_runtime::{
    BankController, BankHistory, BoardIrqRuntime, CpuParentActivator, ParentRequests, LayoutError, RuntimeError, RuntimeLayout, RuntimeLayoutSlot,
    ServiceReport,
};
use ls2k1000la::platform::{DriverError, MmioRegion};
use ls2k1000la::topology::{BoardTopology, InterruptControllerDescription, InterruptSpec};

#[derive(Debug, Clone, Copy, PartialEq, Eq)]
enum Event {
    Pending(usize),
    Mask(u32),
    Enable(u32),
    Arm(u32),
}

struct Bank {
    pending: u32,
    events: Vec<Event>,
}

impl BankController for Bank {
    fn calls(&self) -> BankHistory {
        unreachable!("specification only")
    }

    fn pending_enabled(&mut self, core: usize) -> Result<u32, DriverError> {
        self.events.push(Event::Pending(core));
        if core != 0 {
            return Err(DriverError::InvalidParam);
        }
        Ok(self.pending)
    }

    fn mask_ack_claim(&mut self, bank: usize, local: u32) -> Result<AcknowledgedIrq, DriverError> {
        self.events.push(Event::Mask(local));
        Ok(AcknowledgedIrq::after_mask_ack(GlobalIrq::from_bank_local(bank, local).unwrap()))
    }

    fn enable(&mut self, local: u32) -> Result<(), DriverError> {
        self.events.push(Event::Enable(local));
        Ok(())
    }

    fn arm(&mut self, local: u32, _trigger: Trigger, _route: Route) -> Result<(), DriverError> {
        self.events.push(Event::Arm(local));
        Ok(())
    }
}

type Handler = fn(AcknowledgedIrq) -> IrqDisposition;

fn record(_acknowledged: AcknowledgedIrq) -> IrqDisposition {
    IrqDisposition::KeepMasked
}

fn rearm(acknowledged: AcknowledgedIrq) -> IrqDisposition {
    IrqDisposition::Rearm(DeviceAckedIrq::after_device_clear(acknowledged.irq()))
}

fn mismatched_rearm(_acknowledged: AcknowledgedIrq) -> IrqDisposition {
    IrqDisposition::Rearm(DeviceAckedIrq::after_device_clear(GlobalIrq::from_bank_local(0, 1).unwrap()))
}

fn runtime() -> BoardIrqRuntime<Bank, Handler> {
    let bank0 = Bank { pending: 1 << 2, events: Vec::new() };
    let bank1 = Bank { pending: (1 << 5) | (1 << 7), events: Vec::new() };
    BoardIrqRuntime::new(
        Some(bank0),
        Some(bank1),
        [None, None, Some(0), Some(1), None, None, None, None],
    )
    .ok()
    .unwrap()
}

#[test]
fn services_multiple_parent_lines_and_keeps_unhandled_masked() {
    let mut runtime = runtime();
    runtime.register(GlobalIrq::from_bank_local(0, 2).unwrap(), record as Handler).unwrap();
    runtime.register(GlobalIrq::from_bank_local(1, 7).unwrap(), record as Handler).unwrap();
    let report = runtime.service((1 << 2) | (1 << 3), 0).unwrap();
    assert_eq!(
        report,
        ServiceReport {
            parent_lines: 2,
            masked_sources: 3,
            handled_sources: 2,
            unhandled_sources: 1,
            rearmed_sources: 0,
        }
    );
    let (bank0, bank1) = runtime.into_controllers();
    assert_eq!(bank0.unwrap().events, [Event::Pending(0), Event::Mask(2)]);
    assert_eq!(bank1.unwrap().events, [Event::Pending(0), Event::Mask(5), Event::Mask(7)]);
}

#[test]
fn partial_report_survives_later_unmapped_parent() {
    let mut runtime = runtime();
    let failure = runtime.service((1 << 2) | (1 << 4), 0).unwrap_err();
    assert_eq!(failure.error, RuntimeError::UnmappedParent);
    assert_eq!(failure.report.masked_sources, 1);
    assert_eq!(failure.report.unhandled_sources, 1);
}

#[test]
fn rearm_requires_matching_device_ack_evidence() {
    let mut matching = runtime();
    matching.register(GlobalIrq::from_bank_local(0, 2).unwrap(), rearm as Handler).unwrap();
    let report = matching.service(1 << 2, 0).unwrap();
    assert_eq!(report.rearmed_sources, 1);
    let (bank0, _) = matching.into_controllers();
    assert_eq!(bank0.unwrap().events, [Event::Pending(0), Event::Mask(2), Event::Enable(2)]);

    let mut mismatched = runtime();
    mismatched.register(GlobalIrq::from_bank_local(0, 2).unwrap(), mismatched_rearm as Handler).unwrap();
    let failure = mismatched.service(1 << 2, 0).unwrap_err();
    assert_eq!(failure.error, RuntimeError::DispositionMismatch);
    assert_eq!(failure.report.handled_sources, 1);
    assert_eq!(failure.report.rearmed_sources, 0);
    let (bank0, _) = mismatched.into_controllers();
    assert_eq!(bank0.unwrap().events, [Event::Pending(0), Event::Mask(2)]);
}

#[test]
fn invalid_snapshot_and_core_are_refused() {
    let mut runtime = runtime();
    let failure = runtime.service(0, 0).unwrap_err();
    assert_eq!(failure.error, RuntimeError::InvalidSnapshot);
    assert_eq!(failure.report, ServiceReport::default());
    assert_eq!(runtime.service(0x100, 0).unwrap_err().error, RuntimeError::InvalidSnapshot);
    assert_eq!(runtime.service(1 << 2, 1).unwrap_err().error, RuntimeError::InvalidCore);
}

#[test]
fn runtime_refuses_a_parent_line_without_controller() {
    let bank0 = Bank { pending: 0, events: Vec::new() };
    let result: Result<BoardIrqRuntime<Bank, Handler>, RuntimeError> =
        BoardIrqRuntime::new(Some(bank0), None, [None, None, Some(0), Some(1), None, None, None, None]);
    assert!(matches!(result, Err(RuntimeError::MissingController)));
}

fn description(base: usize, line: u32) -> InterruptControllerDescription {
    let mut parents: [Option<InterruptSpec>; 4] = [None, None, None, None];
    parents[0] = Some(InterruptSpec { parent_phandle: 99, cells: [line, 0, 0, 0], cell_count: 1 });
    InterruptControllerDescription {
        phandle: Some(base as u32),
        main_mmio: MmioRegion { base, size: 0x40 },
        core_isr: vec![MmioRegion { base: base - 0x400, size: 8 }],
        interrupt_cells: 2,
        parent_interrupts: parents,
        parent_source_maps: [u32::MAX, 0, 0, 0],
    }
}

fn board(descriptions: Vec<InterruptControllerDescription>) -> BoardTopology {
    BoardTopology {
        uarts: vec![],
        interrupt_controllers: descriptions,
        mmc_hosts: vec![],
        dma_controllers: vec![],
        networks: vec![],
    }
}

#[test]
fn layout_compilation_is_stable_and_strict() {
    let low = description(0x1fe0_1400, 2);
    let high = description(0x1fe0_1440, 3);
    let ordered = RuntimeLayout::compile(&board(vec![low.clone(), high.clone()])).unwrap();
    let reversed = RuntimeLayout::compile(&board(vec![high, low])).unwrap();
    assert_eq!(ordered, reversed);
    assert_eq!(ordered.controllers[0].main_base, 0x1fe0_1400);
    assert_eq!(ordered.controllers[1].main_base, 0x1fe0_1440);
    assert_eq!(ordered.parent_banks[2], Some(0));
    assert_eq!(ordered.parent_banks[3], Some(1));
    assert_eq!(
        RuntimeLayout::compile(&board(vec![description(0x1000, 2)])),
        Err(LayoutError::WrongControllerCount)
    );
    assert_eq!(
        RuntimeLayout::compile(&board(vec![description(0x1000, 2), description(0x1040, 2)])),
        Err(LayoutError::DuplicateParentLine)
    );
}

#[test]
fn layout_slot_publishes_once_without_overwrite() {
    let layout =
        RuntimeLayout::compile(&board(vec![description(0x1000, 2), description(0x1040, 3)]))
            .unwrap();
    let mut slot = RuntimeLayoutSlot::new();
    assert_eq!(slot.publish(layout), Ok(()));
    let replacement = RuntimeLayout { parent_banks: [None; 8], ..layout };
    assert_eq!(slot.publish(replacement), Err(LayoutError::AlreadyPublished));
    assert_eq!(slot.get(), Some(&layout));
}

#[test]
fn layout_refuses_bad_windows_and_missing_parents() {
    let mut unaligned = description(0x1000, 2);
    unaligned.main_mmio.base = 0x1002;
    assert_eq!(
        RuntimeLayout::compile(&board(vec![unaligned, description(0x1040, 3)])),
        Err(LayoutError::InvalidMainMmio)
    );
    let mut no_isr = description(0x1000, 2);
    no_isr.core_isr.clear();
    assert_eq!(
        RuntimeLayout::compile(&board(vec![no_isr, description(0x1040, 3)])),
        Err(LayoutError::InvalidCoreIsr)
    );
    let mut orphan = description(0x1000, 2);
    orphan.parent_interrupts[0] = None;
    assert_eq!(
        RuntimeLayout::compile(&board(vec![orphan, description(0x1040, 3)])),
        Err(LayoutError::MissingParentLine)
    );
    assert_eq!(
        RuntimeLayout::compile(&board(vec![description(0x1000, 8), description(0x1040, 3)])),
        Err(LayoutError::InvalidParentLine)
    );
    assert_eq!(
        RuntimeLayout::compile(&board(vec![description(0x1000, 2), description(0x1000, 3)])),
        Err(LayoutError::DuplicateMmio)
    );
}

struct Activator {
    failures_left: u32,
    requests: Vec<u8>,
}

impl CpuParentActivator for Activator {
    fn requests(&self) -> ParentRequests {
        unreachable!("specification only")
    }

    fn enable_parent_lines(&mut self, snapshot: u8) -> Result<(), DriverError> {
        self.requests.push(snapshot);
        if self.failures_left > 0 {
            self.failures_left -= 1;
            return Err(DriverError::IoError);
        }
        Ok(())
    }
}

#[test]
fn typestate_retries_parent_activation_and_rejects_duplicate_source() {
    let mut low = description(0x1000, 2);
    low.phandle = Some(10);
    let mut high = description(0x1040, 3);
    high.phandle = Some(11);
    let topology = board(vec![high, low]);
    let spec = InterruptSpec { parent_phandle: 10, cells: [31, 4, 0, 0], cell_count: 2 };
    let binding = resolve(&topology, &spec).unwrap();
    let route = Route { core_mask: 1, parent_line: 0 };
    let configured = match runtime().into_dormant().configure(binding, route, record as Handler) {
        Ok(configured) => configured,
        Err(_) => panic!("initial configure failed"),
    };
    let configured = match configured.configure(binding, route, record as Handler) {
        Ok(_) => panic!("duplicate source configured"),
        Err(failure) => {
            assert_eq!(failure.error, RuntimeError::Domain(DomainError::AlreadyRegistered));
            failure.state
        },
    };
    let mut activator = Activator { failures_left: 1, requests: Vec::new() };
    let configured = match configured.activate(&mut activator) {
        Ok(_) => panic!("failed activator produced live runtime"),
        Err(failure) => {
            assert_eq!(failure.error, RuntimeError::Controller(DriverError::IoError));
            failure.state
        },
    };
    let live = match configured.activate(&mut activator) {
        Ok(live) => live,
        Err(_) => panic!("activation retry failed"),
    };
    assert_eq!(live.configured_sources(), 1u64 << 31);
    assert_eq!(activator.requests, [1 << 2, 1 << 2]);
    let (bank0, _) = live.into_runtime().into_controllers();
    assert_eq!(bank0.unwrap().events, [Event::Arm(31)]);
}
