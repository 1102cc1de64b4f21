use ls2k1000la::clock;
use ls2k1000la::irq_domain::{AcknowledgedIrq, DeviceAckedIrq, GlobalIrq, IrqDisposition};
use ls2k1000la::mmc::{
    acknowledge_interrupt, assess_command_validation, observe_command_post_state, plan,
    prepare_deferred_read, ActivationBlocker, BringUpPlan, ClockTransactionGate,
    CommandDescriptor, CommandDescriptorError, CommandEvidenceDisposition, CommandOutcome,
    CommandPostObservationStage, CommandPostSnapshot, CommandReady, CommandRecovery,
    CommandResponse, CommandStage, CommandTraceOutcome, CommandTransfer, ControllerClockAuthority,
    ControllerClockPlan, Host, HostPreflightAuthority, HostPreflightStage, MmcIrqAckError,
    PlannedDataWrite, PrerequisiteStatus, ReadActivationBlocker, ReadAddressing,
    ReadBlockRequest, ReadPathEvidence, ReadRequestError, ReadTransport, RegisterIo, ResetDelay,
    ResponseType, ResponseValidation, Uninitialized, CCTL_HOST, CCTL_LONG_RESPONSE, CCTL_START,
    CCTL_WAIT_RESPONSE, CSTS_ON, CTL_EXTERNAL_CLOCK, CTL_RESET, DCTL_EXTERNAL_DMA, DCTL_START,
    DCTL_WIDE_BUS, DSTS_ACTIVE, INT_CLEAR, INT_COMMAND_SENT, INT_COMMAND_TIMEOUT,
    INT_RESPONSE_CRC, PRE_ENABLE, REG_BSIZE, REG_CARG, REG_CCTL, REG_CSTS, REG_CTL, REG_DCTL,
    REG_DSTS, REG_IEN, REG_INT, REG_PRE, REG_RSP0, REG_RSP1, REG_RSP2, REG_RSP3, REG_TIMER,
};
use ls2k1000la::mmc_diagnostic::CardDetectDiagnosis;
use ls2k1000la::mmc_prerequisite::{assemble_proof, CardReady, ClockReady, IrqReady, PowerReady};
use ls2k1000la::platform::{MmcError, MmioRegion};
use ls2k1000la::topology::{
    CardDetect, InterruptSpec, MmcClockProvider, MmcDescription, NamedResource, ResourceSpecifier,
};

fn description() -> MmcDescription {
    MmcDescription {
        controller_mmio: MmioRegion { base: 0x1FE2_C000, size: 0x68 },
        auxiliary_mmio: Some(MmioRegion { base: 0x1FE0_0438, size: 8 }),
        interrupt: InterruptSpec { parent_phandle: 1, cells: [31, 4, 0, 0], cell_count: 2 },
        clocks: vec![NamedResource { name: None, specifier: ResourceSpecifier { provider_phandle: 2, args: vec![0] } }],
        clock_provider: MmcClockProvider::Loongson2k {
            mmio: MmioRegion { base: 0x1FE0_0480, size: 0x58 },
            reference_hz: 100_000_000,
        },
        dma: None,
        bus_width: 4,
        pinctrl: None,
        card_detect: CardDetect::NonRemovable,
        vmmc_supply: None,
        vqmmc_supply: None,
    }
}

#[test]
fn preserves_dma_routing_window_but_refuses_activation() {
    let plan = plan(&description()).unwrap();
    assert_eq!(plan.controller_mmio.size, 0x68);
    assert_eq!(plan.auxiliary_mmio.base, 0x1FE0_0438);
    assert_eq!(plan.bus_width, 4);
    assert!(!plan.can_activate());
    assert!(plan.blockers.contains(&ActivationBlocker::DataPathUnavailable));
    assert_eq!(plan.prerequisites.clock, PrerequisiteStatus::RequiresDriver);
    assert_eq!(plan.prerequisites.card_detect, PrerequisiteStatus::ReadyByTopology);
    assert_eq!(plan.prerequisites.vmmc, PrerequisiteStatus::ImplicitBoardSupply);
    assert_eq!(plan.prerequisites.pinctrl, PrerequisiteStatus::Missing);
}

#[test]
fn read_request_validates_protocol_geometry_and_addressing() {
    let single = ReadBlockRequest::new(7, 1, 512, ReadAddressing::Block).unwrap();
    assert_eq!(single.command_index, 17);
    assert_eq!(single.command_argument, 7);
    assert_eq!(single.byte_length, 512);
    assert_eq!(single.response, ResponseType::Short);
    assert_eq!(single.response_validation, ResponseValidation::Crc);

    let multiple = ReadBlockRequest::new(2, 2, 512, ReadAddressing::Byte).unwrap();
    assert_eq!(multiple.command_index, 18);
    assert_eq!(multiple.command_argument, 1024);
    assert_eq!(multiple.byte_length, 1024);
    assert_eq!(ReadBlockRequest::new(0, 0, 512, ReadAddressing::Block), Err(ReadRequestError::ZeroBlocks));
    assert_eq!(ReadBlockRequest::new(0, 4096, 512, ReadAddressing::Block), Err(ReadRequestError::TooManyBlocks));
    for block_size in [0, 510, 4096] {
        assert_eq!(
            ReadBlockRequest::new(0, 1, block_size, ReadAddressing::Block),
            Err(ReadRequestError::InvalidBlockSize)
        );
    }
    assert_eq!(ReadBlockRequest::new(u32::MAX, 1, 512, ReadAddressing::Byte), Err(ReadRequestError::ArgumentOverflow));
}

#[test]
fn deferred_read_retains_cpu_buffer_and_never_becomes_executable() {
    let request = ReadBlockRequest::new(4, 1, 512, ReadAddressing::Block).unwrap();
    let bring_up = plan(&description()).unwrap();
    let mut buffer = [0xA5; 512];
    let pointer = buffer.as_mut_ptr();
    let deferred =
        prepare_deferred_read(bring_up, request, ReadTransport::ExternalDma, ReadPathEvidence::default(), &mut buffer)
            .unwrap();
    assert_eq!(
        deferred.plan().setup_writes,
        [
            PlannedDataWrite { offset: REG_DCTL, value: 1 | DCTL_START | DCTL_EXTERNAL_DMA | DCTL_WIDE_BUS },
            PlannedDataWrite { offset: REG_BSIZE, value: 512 },
            PlannedDataWrite { offset: REG_TIMER, value: u32::MAX }
        ]
    );
    assert_eq!(deferred.plan().data_register_address, 0x1FE2_C040);
    assert_eq!(deferred.plan().blocker_count(), 5);
    assert!(!deferred.plan().can_execute());
    let returned = deferred.cancel();
    assert_eq!(returned.as_mut_ptr(), pointer);
    assert!(returned.iter().all(|byte| *byte == 0xA5));

    let evidence = ReadPathEvidence {
        external_dma_mapping: true,
        dma_coherency: true,
        data_completion_irq: true,
        response_crc_policy: true,
    };
    let deferred = prepare_deferred_read(bring_up, request, ReadTransport::ExternalDma, evidence, returned).unwrap();
    assert_eq!(deferred.plan().blockers, [Some(ReadActivationBlocker::ExecutorUnavailable), None, None, None, None]);
    assert!(!deferred.plan().can_execute());
    let _ = deferred.cancel();
}

#[test]
fn deferred_read_rejects_pio_buffer_mismatch_and_unknown_bus_width() {
    let request = ReadBlockRequest::new(0, 1, 512, ReadAddressing::Block).unwrap();
    let bring_up = plan(&description()).unwrap();
    let mut buffer = [0; 512];
    assert!(matches!(
        prepare_deferred_read(bring_up, request, ReadTransport::Pio, ReadPathEvidence::default(), &mut buffer),
        Err(ReadRequestError::PioUnsupported)
    ));
    assert!(matches!(
        prepare_deferred_read(bring_up, request, ReadTransport::ExternalDma, ReadPathEvidence::default(), &mut buffer[..511]),
        Err(ReadRequestError::BufferLengthMismatch)
    ));
    let invalid_bus = BringUpPlan { bus_width: 2, ..bring_up };
    assert!(matches!(
        prepare_deferred_read(invalid_bus, request, ReadTransport::ExternalDma, ReadPathEvidence::default(), &mut buffer),
        Err(ReadRequestError::UnsupportedBusWidth)
    ));
    let overflowing_address =
        BringUpPlan { controller_mmio: MmioRegion { base: usize::MAX - 0x20, size: 0x68 }, ..bring_up };
    assert!(matches!(
        prepare_deferred_read(overflowing_address, request, ReadTransport::ExternalDma, ReadPathEvidence::default(), &mut buffer),
        Err(ReadRequestError::AddressOverflow)
    ));
}

#[derive(Default)]
struct Delay {
    calls: Vec<u32>,
}

impl ResetDelay for Delay {
    fn waits(&self) -> ls2k1000la::mmc::WaitHistory {
        unreachable!("specification only")
    }

    fn delay_milliseconds(&mut self, milliseconds: u32) {
        self.calls.push(milliseconds);
    }
}

#[derive(Debug, Clone, Copy, PartialEq, Eq)]
enum PreflightEvent {
    Read(usize),
    Write(usize, u32),
}

struct PreflightRegisters {
    control: u32,
    interrupt_enable: u32,
    command_status: u32,
    data_status: u32,
    events: Vec<PreflightEvent>,
    reads: usize,
    writes: usize,
    fail_read: Option<usize>,
    fail_write: Option<usize>,
    ignore_control_write: bool,
    ignore_interrupt_enable_write: bool,
}

impl RegisterIo for PreflightRegisters {
    fn accesses(&self) -> ls2k1000la::mmc::AccessHistory {
        unreachable!("specification only")
    }

    fn read32(&mut self, offset: usize) -> Result<u32, MmcError> {
        self.events.push(PreflightEvent::Read(offset));
        self.reads += 1;
        if self.fail_read == Some(self.reads) {
            return Err(MmcError::RegisterOutOfRange);
        }
        match offset {
            REG_CTL => Ok(self.control),
            REG_IEN => Ok(self.interrupt_enable),
            REG_CSTS => Ok(self.command_status),
            REG_DSTS => Ok(self.data_status),
            _ => Err(MmcError::RegisterOutOfRange),
        }
    }

    fn write32(&mut self, offset: usize, value: u32) -> Result<(), MmcError> {
        self.events.push(PreflightEvent::Write(offset, value));
        self.writes += 1;
        if self.fail_write == Some(self.writes) {
            return Err(MmcError::RegisterOutOfRange);
        }
        match offset {
            REG_CTL => {
                if !self.ignore_control_write {
                    self.control = value;
                }
            }
            REG_IEN => {
                if !self.ignore_interrupt_enable_write {
                    self.interrupt_enable = value;
                }
            }
            REG_INT => {}
            _ => return Err(MmcError::RegisterOutOfRange),
        }
        Ok(())
    }
}

fn preflight_registers() -> PreflightRegisters {
    PreflightRegisters {
        control: 0,
        interrupt_enable: 0,
        command_status: 0,
        data_status: 0,
        events: Vec::new(),
        reads: 0,
        writes: 0,
        fail_read: None,
        fail_write: None,
        ignore_control_write: false,
        ignore_interrupt_enable_write: false,
    }
}

#[test]
fn host_preflight_follows_reset_delay_and_idle_sequence() {
    let mut delay = Delay::default();
    let authority = HostPreflightAuthority::assume_board_verified();
    let host = Host::new(preflight_registers(), 2).preflight(&mut delay, &authority).unwrap_or_else(|_| panic!("preflight failed"));
    assert_eq!(delay.calls, [10]);
    let registers = host.into_registers();
    assert_eq!(
        registers.events,
        [
            PreflightEvent::Write(REG_CTL, CTL_RESET),
            PreflightEvent::Write(REG_CTL, CTL_EXTERNAL_CLOCK),
            PreflightEvent::Read(REG_CTL),
            PreflightEvent::Write(REG_INT, INT_CLEAR),
            PreflightEvent::Write(REG_IEN, INT_CLEAR),
            PreflightEvent::Read(REG_IEN),
            PreflightEvent::Read(REG_CSTS),
            PreflightEvent::Read(REG_DSTS)
        ]
    );
}

#[test]
fn host_preflight_failures_preserve_session_and_retry_from_reset() {
    let authority = HostPreflightAuthority::assume_board_verified();

    for (write, stage) in [
        (1, HostPreflightStage::WriteReset),
        (2, HostPreflightStage::WriteExternalClock),
        (3, HostPreflightStage::ClearInterrupts),
        (4, HostPreflightStage::EnableInterrupts),
    ] {
        let mut registers = preflight_registers();
        registers.fail_write = Some(write);
        let mut delay = Delay::default();
        let failure = match Host::new(registers, 2).preflight(&mut delay, &authority) {
            Ok(_) => panic!("write failure unexpectedly preflighted"),
            Err(failure) => failure,
        };
        assert_eq!(failure.stage, stage);
        assert_eq!(failure.error, Some(MmcError::RegisterOutOfRange));
    }

    for (read, stage) in [
        (1, HostPreflightStage::ReadbackControl),
        (2, HostPreflightStage::ReadbackInterruptEnable),
        (3, HostPreflightStage::ReadCommandStatus),
        (4, HostPreflightStage::ReadDataStatus),
    ] {
        let mut registers = preflight_registers();
        registers.fail_read = Some(read);
        let mut delay = Delay::default();
        let failure = match Host::new(registers, 2).preflight(&mut delay, &authority) {
            Ok(_) => panic!("read failure unexpectedly preflighted"),
            Err(failure) => failure,
        };
        assert_eq!(failure.stage, stage);
        assert_eq!(failure.error, Some(MmcError::RegisterOutOfRange));
    }

    let mut registers = preflight_registers();
    registers.fail_write = Some(1);
    let mut delay = Delay::default();
    let failure = match Host::new(registers, 2).preflight(&mut delay, &authority) {
        Ok(_) => panic!("reset failure unexpectedly preflighted"),
        Err(failure) => failure,
    };
    assert!(failure.retry(&mut delay, &authority).is_ok());
    assert_eq!(delay.calls, [10]);
}

#[test]
fn host_preflight_rejects_readback_mismatch_and_bounded_busy_state() {
    let authority = HostPreflightAuthority::assume_board_verified();

    let mut control = preflight_registers();
    control.ignore_control_write = true;
    let failure = match Host::new(control, 2).preflight(&mut Delay::default(), &authority) {
        Ok(_) => panic!("control mismatch unexpectedly preflighted"),
        Err(failure) => failure,
    };
    assert_eq!(failure.stage, HostPreflightStage::ControlMismatch);
    assert_eq!(failure.observed_control, Some(0));

    let mut interrupt_enable = preflight_registers();
    interrupt_enable.ignore_interrupt_enable_write = true;
    let failure = match Host::new(interrupt_enable, 2).preflight(&mut Delay::default(), &authority) {
        Ok(_) => panic!("interrupt-enable mismatch unexpectedly preflighted"),
        Err(failure) => failure,
    };
    assert_eq!(failure.stage, HostPreflightStage::InterruptEnableMismatch);

    let mut busy = preflight_registers();
    busy.command_status = CSTS_ON;
    busy.data_status = DSTS_ACTIVE;
    let failure = match Host::new(busy, 2).preflight(&mut Delay::default(), &authority) {
        Ok(_) => panic!("busy controller unexpectedly preflighted"),
        Err(failure) => failure,
    };
    assert_eq!(failure.stage, HostPreflightStage::IdleTimeout);
    assert_eq!(failure.observed_command_status, Some(CSTS_ON));
    assert_eq!(failure.observed_data_status, Some(DSTS_ACTIVE));
}

struct ParentRegisters;

impl clock::RegisterIo for ParentRegisters {
    fn reads(&self) -> ls2k1000la::clock::ReadHistory {
        unreachable!("specification only")
    }

    fn read32(&mut self, offset: usize) -> Result<u32, clock::ClockError> {
        assert_eq!(offset, 0x28);
        Ok(2 << 22)
    }

    fn read64(&mut self, offset: usize) -> Result<u64, clock::ClockError> {
        match offset {
            0x20 => Ok((10u64 << 32) | (2u64 << 26)),
            0x50 => Ok(3 << 20),
            _ => panic!("unexpected clock offset {offset:#x}"),
        }
    }
}

fn controller_clock_plan(target_hz: u32) -> ControllerClockPlan {
    let parent = clock::snapshot_consistent(&mut ParentRegisters, 100_000_000).unwrap();
    ControllerClockPlan::from_parent(parent, target_hz).unwrap()
}

/// Bring a session through preflight, clock configuration and authorization.
fn command_host<R: RegisterIo>(registers: R, poll_limit: usize) -> Host<R, CommandReady> {
    let mut delay = Delay::default();
    let preflight_authority = HostPreflightAuthority::assume_board_verified();
    let host = Host::new(registers, poll_limit)
        .preflight(&mut delay, &preflight_authority)
        .unwrap_or_else(|_| panic!("preflight failed"));
    assert_eq!(delay.calls, [10]);
    let clock_authority = ControllerClockAuthority::assume_board_verified();
    let gate = ClockTransactionGate::new();
    let mut guard = gate.try_enter().unwrap();
    let (host, controller) = host
        .configure_controller_clock(controller_clock_plan(400_000), &clock_authority, &mut guard)
        .unwrap_or_else(|_| panic!("clock configuration failed"));
    drop(guard);
    let proof = assemble_proof(
        ClockReady::assume_verified(controller),
        PowerReady::assume_verified(),
        CardReady::from_diagnosis(CardDetectDiagnosis::NonRemovable).unwrap(),
        IrqReady::assume_verified(),
    );
    host.authorize(proof)
}

struct MockRegisters {
    values: [u32; 26],
    interrupts: u32,
}

impl RegisterIo for MockRegisters {
    fn accesses(&self) -> ls2k1000la::mmc::AccessHistory {
        unreachable!("specification only")
    }

    fn read32(&mut self, offset: usize) -> Result<u32, MmcError> {
        if offset == REG_INT {
            return Ok(self.interrupts);
        }
        self.values.get(offset / 4).copied().ok_or(MmcError::RegisterOutOfRange)
    }
    fn write32(&mut self, offset: usize, value: u32) -> Result<(), MmcError> {
        if offset == REG_INT {
            return Ok(());
        }
        *self.values.get_mut(offset / 4).ok_or(MmcError::RegisterOutOfRange)? = value;
        Ok(())
    }
}

fn descriptor(index: u8, argument: u32, response: ResponseType) -> CommandDescriptor {
    CommandDescriptor::new(index, argument, response, ResponseValidation::Unchecked, CommandTransfer::NoData).unwrap()
}

#[test]
fn programs_bounded_clock_and_non_data_command() {
    let mut registers = MockRegisters { values: [0; 26], interrupts: INT_COMMAND_SENT };
    registers.values[REG_RSP0 / 4] = 0x1234;
    let outcome = command_host(registers, 2).execute_command(descriptor(8, 0x1AA, ResponseType::Short));
    let (host, response) = match outcome {
        CommandOutcome::Completed { host, response, .. } => (host, response),
        _ => panic!("command did not complete"),
    };
    assert_eq!(response, CommandResponse::Short(0x1234));
    let registers = host.into_registers();
    assert_eq!(registers.values[REG_PRE / 4], PRE_ENABLE | 255);
    assert_eq!(registers.values[REG_CARG / 4], 0);
    assert_eq!(registers.values[REG_CCTL / 4], 0);
}

#[test]
fn bounds_polling_and_reports_command_errors() {
    let outcome = command_host(MockRegisters { values: [0; 26], interrupts: 0 }, 2)
        .execute_command(descriptor(0, 0, ResponseType::NoResponse));
    match outcome {
        CommandOutcome::RecoveryRequired(recovery) => {
            assert_eq!(recovery.stage, CommandStage::PollTimeout);
            assert_eq!(recovery.error, MmcError::Timeout);
        }
        _ => panic!("poll timeout did not require recovery"),
    }
    let outcome = command_host(MockRegisters { values: [0; 26], interrupts: INT_COMMAND_TIMEOUT }, 2)
        .execute_command(descriptor(8, 0, ResponseType::Short));
    match outcome {
        CommandOutcome::RecoveryRequired(recovery) => {
            assert_eq!(recovery.stage, CommandStage::CommandTimeout);
            assert_eq!(recovery.error, MmcError::ResponseTimeout);
        }
        _ => panic!("command timeout did not require recovery"),
    }
    let outcome = command_host(MockRegisters { values: [0; 26], interrupts: INT_RESPONSE_CRC }, 2)
        .execute_command(descriptor(8, 0, ResponseType::Short));
    match outcome {
        CommandOutcome::RecoveryRequired(recovery) => {
            assert_eq!(recovery.stage, CommandStage::ResponseCrc);
            assert_eq!(recovery.error, MmcError::ResponseCrc);
        }
        _ => panic!("response CRC did not require recovery"),
    }
}

/// Controller model for command execution. Fault positions count accesses
/// made after the session became command-ready.
struct CommandRegisters {
    values: [u32; 26],
    interrupts: u32,
    next_interrupts: u32,
    command_status: u32,
    data_status: u32,
    busy_after_start: bool,
    started: bool,
    reads: usize,
    writes: usize,
    response_reads: Vec<usize>,
    started_control: Option<u32>,
    fail_read: Option<usize>,
    fail_write: Option<usize>,
    ignore_argument_zero: bool,
    ignore_control_zero: bool,
    setup_reads: usize,
    setup_writes: usize,
}

impl RegisterIo for CommandRegisters {
    fn accesses(&self) -> ls2k1000la::mmc::AccessHistory {
        unreachable!("specification only")
    }

    fn read32(&mut self, offset: usize) -> Result<u32, MmcError> {
        self.reads += 1;
        if self.fail_read.map(|n| n + self.setup_reads) == Some(self.reads) {
            return Err(MmcError::RegisterOutOfRange);
        }
        if matches!(offset, REG_RSP0 | REG_RSP1 | REG_RSP2 | REG_RSP3) {
            self.response_reads.push(offset);
        }
        let busy = self.busy_after_start && self.started;
        match offset {
            REG_INT => Ok(self.interrupts),
            REG_CSTS => Ok(if busy { CSTS_ON } else { self.command_status }),
            REG_DSTS => Ok(if busy { DSTS_ACTIVE } else { self.data_status }),
            _ => self.values.get(offset / 4).copied().ok_or(MmcError::RegisterOutOfRange),
        }
    }

    fn write32(&mut self, offset: usize, value: u32) -> Result<(), MmcError> {
        self.writes += 1;
        if self.fail_write.map(|n| n + self.setup_writes) == Some(self.writes) {
            return Err(MmcError::RegisterOutOfRange);
        }
        match offset {
            REG_INT => self.interrupts &= !value,
            REG_CCTL => {
                if value == 0 && self.ignore_control_zero {
                    return Ok(());
                }
                self.values[REG_CCTL / 4] = value;
                if value & CCTL_START != 0 {
                    self.started = true;
                    self.started_control = Some(value);
                    self.interrupts = self.next_interrupts;
                }
            }
            _ => {
                if offset == REG_CARG && value == 0 && self.ignore_argument_zero {
                    return Ok(());
                }
                *self.values.get_mut(offset / 4).ok_or(MmcError::RegisterOutOfRange)? = value;
            }
        }
        Ok(())
    }
}

fn command_registers(next_interrupts: u32) -> CommandRegisters {
    CommandRegisters {
        values: [0; 26],
        interrupts: 0,
        next_interrupts,
        command_status: 0,
        data_status: 0,
        busy_after_start: false,
        started: false,
        reads: 0,
        writes: 0,
        response_reads: Vec::new(),
        started_control: None,
        fail_read: None,
        fail_write: None,
        ignore_argument_zero: false,
        ignore_control_zero: false,
        setup_reads: 0,
        setup_writes: 0,
    }
}

/// Command-ready session over `registers`; fault positions count from here.
fn command_fixture(mut registers: CommandRegisters) -> Host<CommandRegisters, CommandReady> {
    let probe = command_host(command_registers(0), 2).into_registers();
    registers.setup_reads = probe.reads;
    registers.setup_writes = probe.writes;
    command_host(registers, 2)
}

fn failed_revalidation(
    result: Result<Host<CommandRegisters, CommandReady>, CommandRecovery<CommandRegisters>>,
) -> CommandRecovery<CommandRegisters> {
    match result {
        Ok(_) => panic!("revalidation unexpectedly returned ready ownership"),
        Err(recovery) => recovery,
    }
}

#[test]
fn command_descriptor_rejects_unsupported_intent_before_host_mmio() {
    assert_eq!(
        CommandDescriptor::new(64, 0, ResponseType::NoResponse, ResponseValidation::Unchecked, CommandTransfer::NoData),
        Err(CommandDescriptorError::InvalidIndex)
    );
    assert_eq!(
        CommandDescriptor::new(8, 0, ResponseType::Short, ResponseValidation::Unchecked, CommandTransfer::Data),
        Err(CommandDescriptorError::DataUnsupported)
    );
    for response in [ResponseType::Short, ResponseType::Long] {
        for validation in [ResponseValidation::Crc, ResponseValidation::CrcAndBusy] {
            assert_eq!(
                CommandDescriptor::new(8, 0, response, validation, CommandTransfer::NoData),
                Err(CommandDescriptorError::ResponsePolicyUnsupported)
            );
        }
    }

    let mut registers = command_registers(INT_COMMAND_SENT);
    registers.values[REG_RSP0 / 4] = 1;
    registers.values[REG_RSP1 / 4] = 2;
    registers.values[REG_RSP2 / 4] = 3;
    registers.values[REG_RSP3 / 4] = 4;
    match command_fixture(registers).execute_command(descriptor(2, 0, ResponseType::Long)) {
        CommandOutcome::Completed { host, response, trace } => {
            assert_eq!(response, CommandResponse::Long([1, 2, 3, 4]));
            assert_eq!(trace.response_read_mask, 0b1111);
            assert_eq!(trace.outcome, CommandTraceOutcome::Completed);
            let registers = host.into_registers();
            assert_eq!(registers.interrupts, 0);
            assert_eq!(registers.response_reads, [REG_RSP0, REG_RSP1, REG_RSP2, REG_RSP3]);
            assert_eq!(
                registers.started_control,
                Some(2 | CCTL_HOST | CCTL_START | CCTL_WAIT_RESPONSE | CCTL_LONG_RESPONSE)
            );
            assert_eq!(registers.started_control.unwrap() & (1 << 13), 0);
            assert_eq!(registers.values[REG_CARG / 4], 0);
            assert_eq!(registers.values[REG_CCTL / 4], 0);
        }
        _ => panic!("valid command did not return ready ownership"),
    }

    for (failed_write, stage) in [
        (1, CommandStage::ClearInterrupts),
        (2, CommandStage::WriteArgument),
        (3, CommandStage::StartCommand),
        (4, CommandStage::AcknowledgeCompletion),
        (5, CommandStage::CleanupArgument),
        (6, CommandStage::CleanupControl),
    ] {
        let mut registers = command_registers(INT_COMMAND_SENT);
        registers.fail_write = Some(failed_write);
        match command_fixture(registers).execute_command(descriptor(8, 0, ResponseType::Short)) {
            CommandOutcome::RecoveryRequired(recovery) => {
                assert_eq!(recovery.stage, stage);
                assert_eq!(recovery.error, MmcError::RegisterOutOfRange);
            }
            _ => panic!("write fault did not isolate command ownership"),
        }
    }

    for (failed_read, stage) in [
        (1, CommandStage::PollInterrupts),
        (2, CommandStage::ReadResponse0),
        (3, CommandStage::ReadResponse1),
        (4, CommandStage::ReadResponse2),
        (5, CommandStage::ReadResponse3),
    ] {
        let mut registers = command_registers(INT_COMMAND_SENT);
        registers.fail_read = Some(failed_read);
        match command_fixture(registers).execute_command(descriptor(2, 0, ResponseType::Long)) {
            CommandOutcome::RecoveryRequired(recovery) => {
                assert_eq!(recovery.stage, stage);
                assert_eq!(recovery.error, MmcError::RegisterOutOfRange);
            }
            _ => panic!("read fault did not isolate command ownership"),
        }
    }
}

#[test]
fn command_response_contract_minimizes_register_reads() {
    let outcome = command_fixture(command_registers(INT_COMMAND_SENT)).execute_command(descriptor(0, 0, ResponseType::NoResponse));
    match outcome {
        CommandOutcome::Completed { host, response, trace } => {
            assert_eq!(response, CommandResponse::NoResponse);
            assert_eq!(trace.response_read_mask, 0);
            let registers = host.into_registers();
            assert!(registers.response_reads.is_empty());
            assert_eq!(registers.started_control, Some(CCTL_HOST | CCTL_START));
            assert_eq!(registers.values[REG_CCTL / 4], 0);
        }
        _ => panic!("no-response command did not complete"),
    }

    let mut registers = command_registers(INT_COMMAND_SENT);
    registers.values[REG_RSP0 / 4] = 0xCAFE;
    let outcome = command_fixture(registers).execute_command(descriptor(8, 0, ResponseType::Short));
    match outcome {
        CommandOutcome::Completed { host, response, trace } => {
            assert_eq!(response, CommandResponse::Short(0xCAFE));
            assert_eq!(trace.response_read_mask, 1);
            let registers = host.into_registers();
            assert_eq!(registers.response_reads, [REG_RSP0]);
            assert_eq!(registers.started_control, Some(8 | CCTL_HOST | CCTL_START | CCTL_WAIT_RESPONSE));
            assert_eq!(registers.values[REG_CCTL / 4], 0);
        }
        _ => panic!("short-response command did not complete"),
    }
}

#[test]
fn command_error_bits_precede_completion_and_busyend_is_not_completion() {
    let outcome = command_fixture(command_registers(INT_COMMAND_TIMEOUT | INT_RESPONSE_CRC | INT_COMMAND_SENT))
        .execute_command(descriptor(8, 0, ResponseType::Short));
    match outcome {
        CommandOutcome::RecoveryRequired(recovery) => {
            assert_eq!(recovery.stage, CommandStage::CommandTimeout);
        }
        _ => panic!("timeout did not take priority over completion"),
    }

    let outcome = command_fixture(command_registers(INT_RESPONSE_CRC | INT_COMMAND_SENT))
        .execute_command(descriptor(8, 0, ResponseType::Short));
    match outcome {
        CommandOutcome::RecoveryRequired(recovery) => {
            assert_eq!(recovery.stage, CommandStage::ResponseCrc);
        }
        _ => panic!("CRC status did not take priority over completion"),
    }

    let outcome = command_fixture(command_registers(1 << 9)).execute_command(descriptor(8, 0, ResponseType::Short));
    match outcome {
        CommandOutcome::RecoveryRequired(recovery) => {
            assert_eq!(recovery.stage, CommandStage::PollTimeout);
        }
        _ => panic!("BUSYEND alone was incorrectly accepted as command completion"),
    }
}

#[test]
fn command_trace_is_bounded_and_healthy_evidence_stays_observed_only() {
    let host = command_host(command_registers(0), 10);
    let recovery = match host.execute_command(descriptor(0, 0, ResponseType::NoResponse)) {
        CommandOutcome::RecoveryRequired(recovery) => recovery,
        _ => panic!("ten empty polls did not time out"),
    };
    assert_eq!(recovery.trace.interrupt_sample_count, 8);
    assert_eq!(recovery.trace.dropped_interrupt_samples, 2);
    assert_eq!(recovery.trace.interrupt_union, 0);
    assert_eq!(recovery.trace.outcome, CommandTraceOutcome::Failed(CommandStage::PollTimeout));

    let outcome = command_fixture(command_registers(INT_COMMAND_SENT)).execute_command(descriptor(0, 0, ResponseType::NoResponse));
    let (host, trace) = match outcome {
        CommandOutcome::Completed { host, trace, .. } => (host, trace),
        _ => panic!("healthy fixture did not complete"),
    };
    let mut registers = host.into_registers();
    let post = observe_command_post_state(&mut registers).unwrap();
    let assessment = assess_command_validation(trace, post);
    assert_eq!(assessment.disposition, CommandEvidenceDisposition::ObservedOnly);
    assert!(assessment.command_completed);
    assert!(assessment.trace_complete);
    assert!(assessment.controller_idle);
    assert!(assessment.command_registers_clean);

    let incomplete = assess_command_validation(recovery.trace, post);
    assert_eq!(incomplete.disposition, CommandEvidenceDisposition::IncompleteTrace);
    let unsafe_post = CommandPostSnapshot { control: CCTL_START, ..post };
    assert_eq!(assess_command_validation(trace, unsafe_post).disposition, CommandEvidenceDisposition::UnsafeState);
}

struct ObservationRegisters {
    values: [u32; 26],
    reads: usize,
    fail_read: Option<usize>,
    events: Vec<usize>,
}

impl RegisterIo for ObservationRegisters {
    fn accesses(&self) -> ls2k1000la::mmc::AccessHistory {
        unreachable!("specification only")
    }

    fn read32(&mut self, offset: usize) -> Result<u32, MmcError> {
        self.events.push(offset);
        self.reads += 1;
        if self.fail_read == Some(self.reads) {
            return Err(MmcError::RegisterOutOfRange);
        }
        self.values.get(offset / 4).copied().ok_or(MmcError::RegisterOutOfRange)
    }

    fn write32(&mut self, _offset: usize, _value: u32) -> Result<(), MmcError> {
        panic!("post-command observer must remain read-only")
    }
}

#[test]
fn command_post_observation_has_fixed_order_and_partial_fault_evidence() {
    let mut registers = ObservationRegisters { values: [0; 26], reads: 0, fail_read: None, events: Vec::new() };
    registers.values[REG_CARG / 4] = 1;
    registers.values[REG_CCTL / 4] = 2;
    registers.values[REG_CSTS / 4] = 3;
    registers.values[REG_DSTS / 4] = 4;
    registers.values[REG_INT / 4] = 5;
    assert_eq!(
        observe_command_post_state(&mut registers).unwrap(),
        CommandPostSnapshot { argument: 1, control: 2, command_status: 3, data_status: 4, interrupts: 5 }
    );
    assert_eq!(registers.events, [REG_CARG, REG_CCTL, REG_CSTS, REG_DSTS, REG_INT]);

    for (failed_read, stage, partial_count) in [
        (1, CommandPostObservationStage::ReadArgument, 0),
        (2, CommandPostObservationStage::ReadControl, 1),
        (3, CommandPostObservationStage::ReadCommandStatus, 2),
        (4, CommandPostObservationStage::ReadDataStatus, 3),
        (5, CommandPostObservationStage::ReadInterrupts, 4),
    ] {
        let mut registers = ObservationRegisters { values: [7; 26], reads: 0, fail_read: Some(failed_read), events: Vec::new() };
        let failure = observe_command_post_state(&mut registers).unwrap_err();
        assert_eq!(failure.stage, stage);
        assert_eq!(failure.error, MmcError::RegisterOutOfRange);
        let partial = [failure.argument, failure.control, failure.command_status, failure.data_status];
        assert_eq!(partial.iter().filter(|value| value.is_some()).count(), partial_count);
        assert_eq!(registers.events.len(), failed_read);
    }
}

#[test]
fn command_recovery_requires_idle_and_verified_interrupt_clear() {
    let recovery = match command_fixture(command_registers(INT_COMMAND_TIMEOUT)).execute_command(descriptor(8, 0, ResponseType::Short)) {
        CommandOutcome::RecoveryRequired(recovery) => recovery,
        _ => panic!("timeout did not require recovery"),
    };
    let host = recovery.revalidate().unwrap_or_else(|_| panic!("idle W1C state should revalidate"));
    assert_eq!(host.into_registers().interrupts, 0);

    let mut busy = command_registers(0);
    busy.busy_after_start = true;
    let recovery = match command_fixture(busy).execute_command(descriptor(0, 0, ResponseType::NoResponse)) {
        CommandOutcome::RecoveryRequired(recovery) => recovery,
        _ => panic!("poll timeout did not require recovery"),
    };
    let recovery = failed_revalidation(recovery.revalidate());
    assert_eq!(recovery.origin_stage, CommandStage::PollTimeout);
    assert_eq!(recovery.origin_error, MmcError::Timeout);
    assert_eq!(recovery.stage, CommandStage::RevalidateBusy);
    assert_eq!(recovery.observed_command_status, Some(CSTS_ON));
    assert_eq!(recovery.observed_data_status, Some(DSTS_ACTIVE));
    let _must_preflight_again: Host<_, Uninitialized> = recovery.into_uninitialized();

    let unknown = 1 << 12;
    let recovery = match command_fixture(command_registers(unknown)).execute_command(descriptor(0, 0, ResponseType::NoResponse)) {
        CommandOutcome::RecoveryRequired(recovery) => recovery,
        _ => panic!("unknown status did not reach recovery"),
    };
    let recovery = failed_revalidation(recovery.revalidate());
    assert_eq!(recovery.stage, CommandStage::RevalidateUnknownInterrupt);
    assert_eq!(recovery.observed_interrupts, Some(unknown));
}

#[test]
fn command_revalidation_fault_matrix_never_returns_ready() {
    for (failed_read, stage) in [
        (2, CommandStage::RevalidateCommandStatus),
        (3, CommandStage::RevalidateDataStatus),
        (4, CommandStage::RevalidateInterrupts),
        (5, CommandStage::RevalidateInterruptReadback),
        (6, CommandStage::RevalidateArgumentReadback),
        (7, CommandStage::RevalidateControlReadback),
    ] {
        let mut registers = command_registers(INT_COMMAND_TIMEOUT);
        registers.fail_read = Some(failed_read);
        let recovery = match command_fixture(registers).execute_command(descriptor(8, 0, ResponseType::Short)) {
            CommandOutcome::RecoveryRequired(recovery) => recovery,
            _ => panic!("timeout did not require recovery"),
        };
        let recovery = failed_revalidation(recovery.revalidate());
        assert_eq!(recovery.origin_stage, CommandStage::CommandTimeout);
        assert_eq!(recovery.origin_error, MmcError::ResponseTimeout);
        assert_eq!(recovery.stage, stage);
        assert_eq!(recovery.error, MmcError::RegisterOutOfRange);
    }

    for (failed_write, stage) in [
        (4, CommandStage::RevalidateClearInterrupts),
        (5, CommandStage::RevalidateCleanupArgument),
        (6, CommandStage::RevalidateCleanupControl),
    ] {
        let mut registers = command_registers(INT_COMMAND_TIMEOUT);
        registers.fail_write = Some(failed_write);
        let recovery = match command_fixture(registers).execute_command(descriptor(8, 0, ResponseType::Short)) {
            CommandOutcome::RecoveryRequired(recovery) => recovery,
            _ => panic!("timeout did not require recovery"),
        };
        let recovery = failed_revalidation(recovery.revalidate());
        assert_eq!(recovery.stage, stage);
        assert_eq!(recovery.error, MmcError::RegisterOutOfRange);
    }

    for (argument, control, stage) in [
        (true, false, CommandStage::RevalidateArgumentMismatch),
        (false, true, CommandStage::RevalidateControlMismatch),
    ] {
        let mut registers = command_registers(INT_COMMAND_TIMEOUT);
        registers.ignore_argument_zero = argument;
        registers.ignore_control_zero = control;
        let recovery = match command_fixture(registers).execute_command(descriptor(8, 0x55, ResponseType::Short)) {
            CommandOutcome::RecoveryRequired(recovery) => recovery,
            _ => panic!("timeout did not require recovery"),
        };
        let recovery = failed_revalidation(recovery.revalidate());
        assert_eq!(recovery.stage, stage);
    }
}

#[derive(Debug, Clone, Copy, PartialEq, Eq)]
enum AckEvent {
    Read(usize),
    Write(usize, u32),
}

struct AckRegisters {
    status: u32,
    fail_read: bool,
    fail_write: bool,
    events: Vec<AckEvent>,
}

impl RegisterIo for AckRegisters {
    fn accesses(&self) -> ls2k1000la::mmc::AccessHistory {
        unreachable!("specification only")
    }

    fn read32(&mut self, offset: usize) -> Result<u32, MmcError> {
        self.events.push(AckEvent::Read(offset));
        if self.fail_read {
            Err(MmcError::RegisterOutOfRange)
        } else {
            Ok(self.status)
        }
    }
    fn write32(&mut self, offset: usize, value: u32) -> Result<(), MmcError> {
        self.events.push(AckEvent::Write(offset, value));
        if self.fail_write {
            Err(MmcError::RegisterOutOfRange)
        } else {
            Ok(())
        }
    }
}

fn ack_registers(status: u32) -> AckRegisters {
    AckRegisters { status, fail_read: false, fail_write: false, events: Vec::new() }
}

fn acknowledged(irq: GlobalIrq) -> AcknowledgedIrq {
    AcknowledgedIrq::after_mask_ack(irq)
}

#[test]
fn mmc_irq_ack_reads_then_clears_known_w1c_bits_before_rearm() {
    let irq = GlobalIrq::from_bank_local(0, 31).unwrap();
    let mut registers = ack_registers(INT_COMMAND_SENT | INT_RESPONSE_CRC);
    let disposition = acknowledge_interrupt(&mut registers, irq, acknowledged(irq)).unwrap();
    assert_eq!(disposition, IrqDisposition::Rearm(DeviceAckedIrq::after_device_clear(irq)));
    assert_eq!(registers.events, [AckEvent::Read(REG_INT), AckEvent::Write(REG_INT, INT_COMMAND_SENT | INT_RESPONSE_CRC)]);
}

#[test]
fn mmc_irq_ack_keeps_unknown_or_failed_sources_masked_and_recoverable() {
    let irq = GlobalIrq::from_bank_local(0, 31).unwrap();
    let other = GlobalIrq::from_bank_local(0, 30).unwrap();
    let mut registers = ack_registers(INT_COMMAND_SENT);
    let failure = acknowledge_interrupt(&mut registers, irq, acknowledged(other)).unwrap_err();
    assert_eq!(failure.error, MmcIrqAckError::UnexpectedSource);
    assert!(registers.events.is_empty());
    assert_eq!(failure.acknowledged.irq(), other);

    let mut registers = ack_registers(0);
    let failure = acknowledge_interrupt(&mut registers, irq, acknowledged(irq)).unwrap_err();
    assert_eq!(failure.error, MmcIrqAckError::NoKnownPending);
    assert_eq!(registers.events, [AckEvent::Read(REG_INT)]);

    let mut registers = ack_registers(INT_COMMAND_SENT);
    registers.fail_read = true;
    let failure = acknowledge_interrupt(&mut registers, irq, acknowledged(irq)).unwrap_err();
    assert_eq!(failure.error, MmcIrqAckError::Io(MmcError::RegisterOutOfRange));
    assert_eq!(registers.events, [AckEvent::Read(REG_INT)]);

    let unknown = 1 << 15;
    let mut registers = ack_registers(INT_COMMAND_SENT | unknown);
    let failure = acknowledge_interrupt(&mut registers, irq, acknowledged(irq)).unwrap_err();
    assert_eq!(failure.error, MmcIrqAckError::UnknownPending(unknown));
    assert_eq!(registers.events, [AckEvent::Read(REG_INT), AckEvent::Write(REG_INT, INT_COMMAND_SENT)]);
    assert_eq!(failure.acknowledged.irq(), irq);

    let mut registers = ack_registers(INT_COMMAND_TIMEOUT);
    registers.fail_write = true;
    let failure = acknowledge_interrupt(&mut registers, irq, acknowledged(irq)).unwrap_err();
    assert_eq!(failure.error, MmcIrqAckError::Io(MmcError::RegisterOutOfRange));
    assert_eq!(failure.acknowledged.irq(), irq);
}
