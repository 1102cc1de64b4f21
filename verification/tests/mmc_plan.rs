use ls2k1000la::mmc::{
    apply_controller_clock, plan, ClockTransactionBusy, ClockTransactionGate, ControllerClockAuthority,
    ControllerClockPlan, ControllerClockStage, PlanError, PrerequisiteStatus, RegisterIo, CTL_ENABLE_CLOCK,
    PRE_ENABLE, REG_CTL, REG_PRE,
};
use ls2k1000la::clock;
use ls2k1000la::platform::{MmcError, MmioRegion};
use ls2k1000la::topology::{
    CardDetect, FixedSupplyControl, InterruptSpec, MmcClockProvider, MmcDescription, MmcPinctrlDescription,
    NamedResource, PinctrlProvider, ResourceSpecifier, SupplyDescription, SupplyProvider,
};

fn description() -> MmcDescription {
    MmcDescription {
        controller_mmio: MmioRegion { base: 0x1FE2_C000, size: 0x68 },
        auxiliary_mmio: Some(MmioRegion { base: 0x1FE0_0438, size: 8 }),
        interrupt: InterruptSpec { parent_phandle: 1, cells: [31, 4, 0, 0], cell_count: 2 },
        clocks: vec![NamedResource { name: None, specifier: ResourceSpecifier { provider_phandle: 2, args: vec![0] } }],
        clock_provider: MmcClockProvider::Loongson2k {
            mmio: MmioRegion { base: 0x1FE0_0480, size: 0x58 },
            reference_hz: 100_000_000,
        },
        dma: None,
        bus_width: 4,
        pinctrl: None,
        card_detect: CardDetect::NonRemovable,
        vmmc_supply: None,
        vqmmc_supply: None,
    }
}

#[test]
fn classifies_pinctrl_without_assuming_firmware_selected_the_state() {
    let mut value = description();
    value.pinctrl = Some(MmcPinctrlDescription {
        state_phandle: 5,
        provider: PinctrlProvider::Loongson2k { mmio: MmioRegion { base: 0x1fe0_0420, size: 0x18 } },
    });
    assert_eq!(plan(&value).unwrap().prerequisites.pinctrl, PrerequisiteStatus::RequiresDriver);
    value.pinctrl.as_mut().unwrap().provider = PinctrlProvider::Unsupported;
    assert_eq!(plan(&value).unwrap().prerequisites.pinctrl, PrerequisiteStatus::UnsupportedProvider);
}

#[test]
fn classifies_power_readiness_without_assuming_fixed_regulators_are_enabled() {
    let mut value = description();
    value.vmmc_supply = Some(SupplyDescription {
        phandle: 3,
        provider: SupplyProvider::Fixed { control: FixedSupplyControl::Uncontrolled, always_on: false, boot_on: false },
    });
    value.vqmmc_supply = Some(SupplyDescription {
        phandle: 4,
        provider: SupplyProvider::Fixed { control: FixedSupplyControl::Uncontrolled, always_on: true, boot_on: false },
    });
    let readiness = plan(&value).unwrap();
    assert_eq!(readiness.prerequisites.vmmc, PrerequisiteStatus::ReadyByTopology);
    assert_eq!(readiness.prerequisites.vqmmc, PrerequisiteStatus::ReadyByTopology);

    value.vmmc_supply.as_mut().unwrap().provider =
        SupplyProvider::Fixed { control: FixedSupplyControl::Gpio, always_on: true, boot_on: true };
    assert_eq!(plan(&value).unwrap().prerequisites.vmmc, PrerequisiteStatus::RequiresDriver);

    value.vmmc_supply.as_mut().unwrap().provider = SupplyProvider::Unsupported;
    assert_eq!(plan(&value).unwrap().prerequisites.vmmc, PrerequisiteStatus::UnsupportedProvider);
}

#[test]
fn rejects_resources_that_cannot_back_future_register_io() {
    let mut value = description();
    value.auxiliary_mmio = None;
    assert_eq!(plan(&value), Err(PlanError::MissingAuxiliaryWindow));

    let mut value = description();
    value.controller_mmio.size = 0x64;
    assert_eq!(plan(&value), Err(PlanError::ControllerWindowTooSmall));

    let mut value = description();
    value.clocks.clear();
    assert_eq!(plan(&value), Err(PlanError::MissingClock));
}

struct ParentRegisters;

impl clock::RegisterIo for ParentRegisters {
    fn reads(&self) -> ls2k1000la::clock::ReadHistory {
        unreachable!("specification only")
    }

    fn read32(&mut self, offset: usize) -> Result<u32, clock::ClockError> {
        assert_eq!(offset, 0x28);
        Ok(2 << 22)
    }

    fn read64(&mut self, offset: usize) -> Result<u64, clock::ClockError> {
        match offset {
            0x20 => Ok((10u64 << 32) | (2u64 << 26)),
            0x50 => Ok(3 << 20),
            _ => panic!("unexpected clock offset {offset:#x}"),
        }
    }
}

fn controller_clock_plan(target_hz: u32) -> ControllerClockPlan {
    let parent = clock::snapshot_consistent(&mut ParentRegisters, 100_000_000).unwrap();
    ControllerClockPlan::from_parent(parent, target_hz).unwrap()
}

#[derive(Debug, Clone, Copy, PartialEq, Eq)]
enum ClockEvent {
    Read(usize),
    Write(usize, u32),
}

struct ClockRegisters {
    pre: u32,
    control: u32,
    events: Vec<ClockEvent>,
    reads: usize,
    writes: usize,
    fail_read: Option<usize>,
    fail_write: Option<usize>,
    ignore_pre_write: bool,
    ignore_control_write: bool,
}

impl RegisterIo for ClockRegisters {
    fn accesses(&self) -> ls2k1000la::mmc::AccessHistory {
        unreachable!("specification only")
    }

    fn read32(&mut self, offset: usize) -> Result<u32, MmcError> {
        self.events.push(ClockEvent::Read(offset));
        self.reads += 1;
        if self.fail_read == Some(self.reads) {
            return Err(MmcError::RegisterOutOfRange);
        }
        match offset {
            REG_PRE => Ok(self.pre),
            REG_CTL => Ok(self.control),
            _ => Err(MmcError::RegisterOutOfRange),
        }
    }

    fn write32(&mut self, offset: usize, value: u32) -> Result<(), MmcError> {
        self.events.push(ClockEvent::Write(offset, value));
        self.writes += 1;
        if self.fail_write == Some(self.writes) {
            return Err(MmcError::RegisterOutOfRange);
        }
        match offset {
            REG_PRE => {
                if !self.ignore_pre_write {
                    self.pre = value;
                }
            },
            REG_CTL => {
                if !self.ignore_control_write {
                    self.control = value;
                }
            },
            _ => return Err(MmcError::RegisterOutOfRange),
        }
        Ok(())
    }
}

fn clock_registers(pre: u32, control: u32) -> ClockRegisters {
    ClockRegisters {
        pre,
        control,
        events: Vec::new(),
        reads: 0,
        writes: 0,
        fail_read: None,
        fail_write: None,
        ignore_pre_write: false,
        ignore_control_write: false,
    }
}

#[test]
fn controller_clock_transaction_is_minimal_and_serialized() {
    let plan = controller_clock_plan(400_000);
    assert_eq!(plan.parent_hz(), 125_000_000);
    assert_eq!(plan.requested_hz(), 400_000);
    assert_eq!(plan.divider(), 255);

    let authority = ControllerClockAuthority::assume_board_verified();
    let gate = ClockTransactionGate::new();
    let mut guard = gate.try_enter().unwrap();
    assert!(matches!(gate.try_enter(), Err(ClockTransactionBusy)));
    let mut registers = clock_registers(0x55AA, 1 << 9);
    let ready = apply_controller_clock(&mut registers, plan, &authority, &mut guard).unwrap();
    assert_eq!(ready.plan(), plan);
    assert_eq!(registers.pre, PRE_ENABLE | 255);
    assert_eq!(registers.control, (1 << 9) | CTL_ENABLE_CLOCK);
    assert_eq!(
        registers.events,
        [
            ClockEvent::Read(REG_PRE),
            ClockEvent::Read(REG_CTL),
            ClockEvent::Write(REG_PRE, PRE_ENABLE | 255),
            ClockEvent::Read(REG_PRE),
            ClockEvent::Write(REG_CTL, (1 << 9) | CTL_ENABLE_CLOCK),
            ClockEvent::Read(REG_CTL),
        ]
    );
    drop(guard);

    let mut guard = gate.try_enter().unwrap();
    registers.events.clear();
    apply_controller_clock(&mut registers, plan, &authority, &mut guard).unwrap();
    assert_eq!(registers.events, [ClockEvent::Read(REG_PRE), ClockEvent::Read(REG_CTL)]);
}

#[test]
fn controller_clock_failures_remain_revalidatable() {
    let plan = controller_clock_plan(25_000_000);
    let authority = ControllerClockAuthority::assume_board_verified();
    let gate = ClockTransactionGate::new();
    let mut guard = gate.try_enter().unwrap();

    for (read, stage) in [
        (1, ControllerClockStage::PreflightPre),
        (2, ControllerClockStage::PreflightControl),
        (3, ControllerClockStage::ReadbackPre),
        (4, ControllerClockStage::ReadbackControl),
    ] {
        let mut registers = clock_registers(0, 0);
        registers.fail_read = Some(read);
        let recovery = apply_controller_clock(&mut registers, plan, &authority, &mut guard).unwrap_err();
        assert_eq!(recovery.stage, stage);
        assert_eq!(recovery.error, Some(MmcError::RegisterOutOfRange));
    }

    let mut failed_pre = clock_registers(0, 0);
    failed_pre.fail_write = Some(1);
    let recovery = apply_controller_clock(&mut failed_pre, plan, &authority, &mut guard).unwrap_err();
    assert_eq!(recovery.stage, ControllerClockStage::WritePre);
    assert_eq!(recovery.observed_pre, None);

    let mut mismatch = clock_registers(0, 0);
    mismatch.ignore_pre_write = true;
    let recovery = apply_controller_clock(&mut mismatch, plan, &authority, &mut guard).unwrap_err();
    assert_eq!(recovery.stage, ControllerClockStage::ReadbackPreMismatch);
    assert_eq!(recovery.observed_pre, Some(0));

    mismatch.pre = plan.pre_value();
    mismatch.control = CTL_ENABLE_CLOCK;
    assert_eq!(recovery.revalidate(&mut mismatch, &mut guard).unwrap().plan(), plan);

    let mut failed_control = clock_registers(plan.pre_value(), 0x80);
    failed_control.fail_write = Some(1);
    let recovery = apply_controller_clock(&mut failed_control, plan, &authority, &mut guard).unwrap_err();
    assert_eq!(recovery.stage, ControllerClockStage::WriteControl);
    assert_eq!(recovery.observed_pre, Some(plan.pre_value()));

    let mut control_mismatch = clock_registers(plan.pre_value(), 0x80);
    control_mismatch.ignore_control_write = true;
    let recovery = apply_controller_clock(&mut control_mismatch, plan, &authority, &mut guard).unwrap_err();
    assert_eq!(recovery.stage, ControllerClockStage::ReadbackControlMismatch);
    assert_eq!(recovery.observed_control, Some(0x80));
}
