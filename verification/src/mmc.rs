//! Deferred 2K1000LA MMC bring-up planning and the conservative command host.
//!
//! The controller is a Loongson design, not a DesignWare layout. The second
//! DT register is an APB-DMA routing register, not a FIFO window.
use core::marker::PhantomData;
use core::mem::ManuallyDrop;
use core::sync::atomic::{AtomicBool, Ordering};
use vstd::prelude::*;

use crate::clock::ConsistentClockSnapshot;
use crate::mmc_prerequisite::ControllerPrerequisiteProof;
use crate::irq_domain::{AcknowledgedIrq, DeviceAckedIrq, GlobalIrq, IrqDisposition};
use crate::platform::{DriverError, MmcError, MmioRegion};
use crate::topology::{
    CardDetect,
    FixedSupplyControl,
    MmcClockProvider,
    MmcDescription,
    PinctrlProvider,
    SupplyDescription,
    SupplyProvider,
};

verus! {

broadcast use crate::irq_domain::lemma_global_irq_id_injective;

/// Minimum main-register window documented by the Linux 2K1000 device tree.
pub const MIN_CONTROLLER_WINDOW: usize = 0x68;

#[derive(Debug, Clone, Copy, PartialEq, Eq, Structural)]
pub enum PlanError {
    ControllerWindowTooSmall,
    MissingAuxiliaryWindow,
    MissingClock,
}

#[derive(Debug, Clone, Copy, PartialEq, Eq, Structural)]
pub enum ActivationBlocker {
    DataPathUnavailable,
    ExternalDmaExecutorUnavailable,
    ClockControlUnavailable,
    PowerSequencingUnavailable,
    CardDetectUnavailable,
    PinControlUnavailable,
    InterruptPathUnverified,
}

#[derive(Debug, Clone, Copy, PartialEq, Eq, Structural)]
pub enum PrerequisiteStatus {
    ReadyByTopology,
    /// The absent optional supply is treated as board-wired power.
    ImplicitBoardSupply,
    FirmwareMaintained,
    RequiresDriver,
    Missing,
    UnsupportedProvider,
}

#[derive(Debug, Clone, Copy, PartialEq, Eq, Structural)]
pub struct PrerequisitePlan {
    /// These values classify DT ownership; they are not hardware observations.
    pub clock: PrerequisiteStatus,
    pub vmmc: PrerequisiteStatus,
    pub vqmmc: PrerequisiteStatus,
    pub pinctrl: PrerequisiteStatus,
    pub card_detect: PrerequisiteStatus,
}

/// Validated resource snapshot for future conservative PIO activation.
/// Activation remains disabled until its DMA path and board prerequisites exist.
#[derive(Debug, Clone, Copy, PartialEq, Eq)]
pub struct BringUpPlan {
    pub controller_mmio: MmioRegion,
    pub auxiliary_mmio: MmioRegion,
    pub bus_width: u8,
    pub prerequisites: PrerequisitePlan,
    pub blockers: [ActivationBlocker; 7],
}

impl BringUpPlan {
    pub fn can_activate(&self) -> (r: bool)
        ensures
            !r,
    {
        false
    }
}

/// Classification of an optional regulator.
pub open spec fn supply_status(description: Option<SupplyDescription>) -> PrerequisiteStatus {
    match description {
        None => PrerequisiteStatus::ImplicitBoardSupply,
        Some(supply) => match supply.provider {
            SupplyProvider::Fixed { control, .. } => match control {
                FixedSupplyControl::Uncontrolled => PrerequisiteStatus::ReadyByTopology,
                FixedSupplyControl::Gpio => PrerequisiteStatus::RequiresDriver,
            },
            SupplyProvider::Unsupported => PrerequisiteStatus::UnsupportedProvider,
        },
    }
}

/// Classification of the card-detect method.
pub open spec fn card_detect_status(card_detect: CardDetect) -> PrerequisiteStatus {
    match card_detect {
        CardDetect::NonRemovable => PrerequisiteStatus::ReadyByTopology,
        CardDetect::Gpio(_) => PrerequisiteStatus::RequiresDriver,
        CardDetect::Native => PrerequisiteStatus::RequiresDriver,
        CardDetect::Broken => PrerequisiteStatus::FirmwareMaintained,
    }
}

/// Classification of the pin-control state.
pub open spec fn pinctrl_status(
    pinctrl: Option<crate::topology::MmcPinctrlDescription>,
) -> PrerequisiteStatus {
    match pinctrl {
        None => PrerequisiteStatus::Missing,
        Some(state) => match state.provider {
            PinctrlProvider::Loongson2k { .. } => PrerequisiteStatus::RequiresDriver,
            PinctrlProvider::Unsupported => PrerequisiteStatus::UnsupportedProvider,
        },
    }
}

/// Classification of the controller clock provider.
pub open spec fn clock_status(provider: MmcClockProvider) -> PrerequisiteStatus {
    match provider {
        MmcClockProvider::Loongson2k { .. } => PrerequisiteStatus::RequiresDriver,
        MmcClockProvider::Unsupported { .. } => PrerequisiteStatus::UnsupportedProvider,
    }
}

/// The seven blockers that every bring-up plan carries, in order.
pub open spec fn standard_blockers() -> Seq<ActivationBlocker> {
    seq![
        ActivationBlocker::DataPathUnavailable,
        ActivationBlocker::ExternalDmaExecutorUnavailable,
        ActivationBlocker::ClockControlUnavailable,
        ActivationBlocker::PowerSequencingUnavailable,
        ActivationBlocker::CardDetectUnavailable,
        ActivationBlocker::PinControlUnavailable,
        ActivationBlocker::InterruptPathUnverified,
    ]
}

fn classify_supply(description: Option<SupplyDescription>) -> (status: PrerequisiteStatus)
    ensures
        status == supply_status(description),
{
    match description {
        None => PrerequisiteStatus::ImplicitBoardSupply,
        Some(supply) => match supply.provider {
            SupplyProvider::Fixed { control, .. } => match control {
                FixedSupplyControl::Uncontrolled => PrerequisiteStatus::ReadyByTopology,
                FixedSupplyControl::Gpio => PrerequisiteStatus::RequiresDriver,
            },
            SupplyProvider::Unsupported => PrerequisiteStatus::UnsupportedProvider,
        },
    }
}

pub fn plan(description: &MmcDescription) -> (result: Result<BringUpPlan, PlanError>)
    ensures
        match result {
            Ok(plan) => {
                &&& description.controller_mmio.size >= MIN_CONTROLLER_WINDOW
                &&& description.auxiliary_mmio is Some
                &&& description.auxiliary_mmio->Some_0.size >= 4
                &&& description.clocks@.len() == 1
                &&& plan.controller_mmio == description.controller_mmio
                &&& plan.auxiliary_mmio == description.auxiliary_mmio->Some_0
                &&& plan.bus_width == description.bus_width
                &&& plan.prerequisites.clock == clock_status(description.clock_provider)
                &&& plan.prerequisites.vmmc == supply_status(description.vmmc_supply)
                &&& plan.prerequisites.vqmmc == supply_status(description.vqmmc_supply)
                &&& plan.prerequisites.pinctrl == pinctrl_status(description.pinctrl)
                &&& plan.prerequisites.card_detect == card_detect_status(
                    description.card_detect,
                )
                &&& plan.blockers@ == standard_blockers()
            },
            Err(error) => if description.controller_mmio.size < MIN_CONTROLLER_WINDOW {
                error == PlanError::ControllerWindowTooSmall
            } else if description.auxiliary_mmio is None || description.auxiliary_mmio->Some_0.size
                < 4 {
                error == PlanError::MissingAuxiliaryWindow
            } else {
                description.clocks@.len() != 1 && error == PlanError::MissingClock
            },
        },
{
    if description.controller_mmio.size < MIN_CONTROLLER_WINDOW {
        return Err(PlanError::ControllerWindowTooSmall);
    }
    let auxiliary_mmio = match description.auxiliary_mmio {
        Some(region) => {
            if region.size >= 4 {
                region
            } else {
                return Err(PlanError::MissingAuxiliaryWindow);
            }
        },
        None => return Err(PlanError::MissingAuxiliaryWindow),
    };
    if description.clocks.len() != 1 {
        return Err(PlanError::MissingClock);
    }
    let clock = match description.clock_provider {
        MmcClockProvider::Loongson2k { .. } => PrerequisiteStatus::RequiresDriver,
        MmcClockProvider::Unsupported { .. } => PrerequisiteStatus::UnsupportedProvider,
    };
    let card_detect = match &description.card_detect {
        CardDetect::NonRemovable => PrerequisiteStatus::ReadyByTopology,
        CardDetect::Gpio(_) => PrerequisiteStatus::RequiresDriver,
        CardDetect::Native => PrerequisiteStatus::RequiresDriver,
        CardDetect::Broken => PrerequisiteStatus::FirmwareMaintained,
    };
    let pinctrl = match description.pinctrl {
        None => PrerequisiteStatus::Missing,
        Some(state) => match state.provider {
            PinctrlProvider::Loongson2k { .. } => PrerequisiteStatus::RequiresDriver,
            PinctrlProvider::Unsupported => PrerequisiteStatus::UnsupportedProvider,
        },
    };
    let blockers = [
        ActivationBlocker::DataPathUnavailable,
        ActivationBlocker::ExternalDmaExecutorUnavailable,
        ActivationBlocker::ClockControlUnavailable,
        ActivationBlocker::PowerSequencingUnavailable,
        ActivationBlocker::CardDetectUnavailable,
        ActivationBlocker::PinControlUnavailable,
        ActivationBlocker::InterruptPathUnverified,
    ];
    assert(blockers@ =~= standard_blockers());
    Ok(
        BringUpPlan {
            controller_mmio: description.controller_mmio,
            auxiliary_mmio,
            bus_width: description.bus_width,
            prerequisites: PrerequisitePlan {
                clock,
                vmmc: classify_supply(description.vmmc_supply),
                vqmmc: classify_supply(description.vqmmc_supply),
                pinctrl,
                card_detect,
            },
            blockers,
        },
    )
}

pub const REG_CTL: usize = 0x00;

pub const REG_PRE: usize = 0x04;

pub const REG_CARG: usize = 0x08;

pub const REG_CCTL: usize = 0x0C;

pub const REG_CSTS: usize = 0x10;

pub const REG_RSP0: usize = 0x14;

pub const REG_RSP1: usize = 0x18;

pub const REG_RSP2: usize = 0x1C;

pub const REG_RSP3: usize = 0x20;

pub const REG_TIMER: usize = 0x24;

pub const REG_BSIZE: usize = 0x28;

pub const REG_DCTL: usize = 0x2C;

pub const REG_DSTS: usize = 0x34;

pub const REG_INT: usize = 0x3C;

pub const REG_DATA: usize = 0x40;

pub const REG_IEN: usize = 0x64;

pub const CTL_ENABLE_CLOCK: u32 = 0x1;

pub const CTL_EXTERNAL_CLOCK: u32 = 0x2;

pub const CTL_RESET: u32 = 0x100;

pub const PRE_ENABLE: u32 = 0x8000_0000;

pub const CCTL_HOST: u32 = 0x40;

pub const CCTL_START: u32 = 0x100;

pub const CCTL_WAIT_RESPONSE: u32 = 0x200;

pub const CCTL_LONG_RESPONSE: u32 = 0x400;

pub const INT_DATA_FINISHED: u32 = 0x1;

pub const INT_DATA_TIMEOUT: u32 = 0x2;

pub const INT_RECEIVE_CRC: u32 = 0x4;

pub const INT_TRANSMIT_CRC: u32 = 0x8;

pub const INT_PROGRAM_ERROR: u32 = 0x10;

pub const INT_COMMAND_SENT: u32 = 0x40;

pub const INT_COMMAND_TIMEOUT: u32 = 0x80;

pub const INT_RESPONSE_CRC: u32 = 0x100;

/// Every interrupt status bit with documented write-one-to-clear behavior.
pub const INT_CLEAR: u32 = 0x3FF;

pub const CSTS_ON: u32 = 0x100;

pub const DSTS_ACTIVE: u32 = 0x3;

pub const DCTL_BLOCK_COUNT_MASK: u32 = 0xFFF;

pub const DCTL_START: u32 = 0x4000;

pub const DCTL_EXTERNAL_DMA: u32 = 0x8000;

pub const DCTL_WIDE_BUS: u32 = 0x1_0000;

pub const DCTL_8_BIT_BUS: u32 = 0x400_0000;

#[derive(Debug, Clone, Copy, PartialEq, Eq, Structural)]
pub enum MmcIrqAckError {
    UnexpectedSource,
    NoKnownPending,
    UnknownPending(u32),
    Io(MmcError),
}

#[derive(Debug, PartialEq, Eq, Structural)]
pub struct MmcIrqAckFailure {
    pub error: MmcIrqAckError,
    pub acknowledged: AcknowledgedIrq,
}

/// 32-bit access to the controller window.
/// One register access made through a [`RegisterIo`] backend, with its result.
#[derive(Debug, Clone, Copy, PartialEq, Eq)]
pub enum MmcAccess {
    Read(usize, Result<u32, MmcError>),
    Write(usize, u32, Result<(), MmcError>),
}

/// History of the accesses made through a [`RegisterIo`] backend.
pub type AccessHistory = Seq<MmcAccess>;

/// 32-bit access to the controller registers. Each access is recorded, with
/// its result, at the end of the backend's access history.
pub trait RegisterIo {
    /// Every access made through this backend so far, oldest first.
    spec fn accesses(&self) -> AccessHistory;

    fn read32(&mut self, offset: usize) -> (result: Result<u32, MmcError>)
        ensures
            final(self).accesses() == old(self).accesses().push(MmcAccess::Read(offset, result)),
    ;

    fn write32(&mut self, offset: usize, value: u32) -> (result: Result<(), MmcError>)
        ensures
            final(self).accesses() == old(self).accesses().push(
                MmcAccess::Write(offset, value, result),
            ),
    ;
}

/// A successful read of the interrupt status register.
pub open spec fn interrupt_read(status: u32) -> MmcAccess {
    MmcAccess::Read(REG_INT, Ok(status))
}

/// The accesses of one acknowledgement on a backend whose history was
/// `before` and is now `after`: nothing for a foreign interrupt; otherwise a
/// read of the interrupt status and, when it shows a known bit, a
/// write-one-to-clear of exactly the known bits. `error` is the failure the
/// acknowledgement reports, if any.
pub open spec fn acknowledge_accesses(
    before: Seq<MmcAccess>,
    after: Seq<MmcAccess>,
    foreign: bool,
    error: Option<MmcIrqAckError>,
) -> bool {
    if foreign {
        after == before && error == Some(MmcIrqAckError::UnexpectedSource)
    } else {
        ||| (error matches Some(MmcIrqAckError::Io(e)) && after == before.push(
            MmcAccess::Read(REG_INT, Err(e)),
        ))
        ||| exists|status: u32|
            #![trigger interrupt_read(status)]
            {
                &&& after.len() > before.len()
                &&& after.take(before.len() + 1int) == before.push(interrupt_read(status))
                &&& if status & INT_CLEAR == 0 {
                    after == before.push(interrupt_read(status)) && error == Some(
                        MmcIrqAckError::NoKnownPending,
                    )
                } else {
                    let written = match error {
                        Some(MmcIrqAckError::Io(e)) => Err(e),
                        _ => Ok(()),
                    };
                    &&& after == before + seq![
                        interrupt_read(status),
                        MmcAccess::Write(REG_INT, status & INT_CLEAR, written),
                    ]
                    &&& error == match written {
                        Err(e) => Some(MmcIrqAckError::Io(e)),
                        Ok(()) => if status & !INT_CLEAR != 0 {
                            Some(MmcIrqAckError::UnknownPending(status & !INT_CLEAR))
                        } else {
                            None
                        },
                    }
                }
            }
    }
}

/// Clear a masked/acknowledged MMC interrupt and produce rearm evidence only
/// when every observed pending bit has documented W1C behavior.
pub fn acknowledge_interrupt<R: RegisterIo>(
    registers: &mut R,
    expected: GlobalIrq,
    acknowledged: AcknowledgedIrq,
) -> (result: Result<IrqDisposition, MmcIrqAckFailure>)
    ensures
        acknowledged@ != expected ==> result == Err::<IrqDisposition, MmcIrqAckFailure>(
            MmcIrqAckFailure { error: MmcIrqAckError::UnexpectedSource, acknowledged },
        ),
        match result {
            Ok(disposition) => acknowledged@ == expected && (disposition matches IrqDisposition::Rearm(
                evidence,
            ) && evidence@ == expected),
            Err(failure) => failure.acknowledged == acknowledged && match failure.error {
                MmcIrqAckError::UnknownPending(bits) => bits != 0 && bits & INT_CLEAR == 0,
                _ => true,
            },
        },
        acknowledge_accesses(
            old(registers).accesses(),
            final(registers).accesses(),
            acknowledged@ != expected,
            match result {
                Ok(_) => None,
                Err(failure) => Some(failure.error),
            },
        ),
{
    let ghost before = registers.accesses();
    if acknowledged.irq() != expected {
        return Err(MmcIrqAckFailure { error: MmcIrqAckError::UnexpectedSource, acknowledged });
    }
    let status = match registers.read32(REG_INT) {
        Ok(status) => status,
        Err(error) => {
            return Err(MmcIrqAckFailure { error: MmcIrqAckError::Io(error), acknowledged });
        },
    };
    let known = status & INT_CLEAR;
    if known == 0 {
        assert(registers.accesses().take(before.len() + 1int) =~= before.push(interrupt_read(status)));
        return Err(MmcIrqAckFailure { error: MmcIrqAckError::NoKnownPending, acknowledged });
    }
    assert(registers.accesses() == before.push(interrupt_read(status)));
    let written = registers.write32(REG_INT, known);
    assert(registers.accesses() =~= before + seq![
        interrupt_read(status),
        MmcAccess::Write(REG_INT, status & INT_CLEAR, written),
    ]);
    assert(registers.accesses().take(before.len() + 1int) =~= before.push(interrupt_read(status)));
    if let Err(error) = written {
        return Err(MmcIrqAckFailure { error: MmcIrqAckError::Io(error), acknowledged });
    }
    assert(written->Ok_0 == ());
    let unknown = status & !INT_CLEAR;
    if unknown != 0 {
        assert(unknown & INT_CLEAR == 0) by (bit_vector)
            requires
                unknown == status & !0x3FFu32,
        ;
        return Err(
            MmcIrqAckFailure { error: MmcIrqAckError::UnknownPending(unknown), acknowledged },
        );
    }
    Ok(IrqDisposition::Rearm(DeviceAckedIrq::after_device_clear(expected)))
}

pub struct Uninitialized;

pub struct Preflighted;

pub struct ClockConfigured;

pub struct CommandReady;

pub struct CommandRecoveryRequired;

/// Controller session whose type records how far bring-up has progressed.
pub struct Host<R, S> {
    registers: R,
    poll_limit: usize,
    state: PhantomData<S>,
    reset_wait: Ghost<Option<nat>>,
}

impl<R, S> Host<R, S> {
    /// Every wait polls at least once.
    pub closed spec fn wf(self) -> bool {
        self.poll_limit >= 1
    }

    /// Maximum number of status polls per wait.
    pub closed spec fn polls(self) -> usize {
        self.poll_limit
    }

    /// The register backend owned by the session.
    pub closed spec fn backend(self) -> R {
        self.registers
    }

    /// How many register accesses the backend had seen when the last reset
    /// sequence waited for the controller, if one did.
    pub closed spec fn reset_wait_point(self) -> Option<nat> {
        self.reset_wait@
    }

    fn change_state<T>(self) -> (host: Host<R, T>)
        ensures
            host.polls() == self.polls(),
            host.backend() == self.backend(),
            host.wf() == self.wf(),
            host.reset_wait_point() == self.reset_wait_point(),
    {
        Host {
            registers: self.registers,
            poll_limit: self.poll_limit,
            state: PhantomData,
            reset_wait: self.reset_wait,
        }
    }

    /// Give the register backend back, ending the session.
    pub fn into_registers(self) -> (registers: R)
        ensures
            registers == self.backend(),
    {
        self.registers
    }
}

/// History of the waits requested from a [`ResetDelay`], in milliseconds.
pub type WaitHistory = Seq<u32>;

pub trait ResetDelay {
    /// Every wait requested so far, in milliseconds, oldest first.
    spec fn waits(&self) -> WaitHistory;

    /// Wait at least the requested duration before returning.
    fn delay_milliseconds(&mut self, milliseconds: u32)
        ensures
            final(self).waits() == old(self).waits().push(milliseconds),
    ;
}

/// Explicit acceptance of the Linux-derived reset sequence on a board.
pub struct HostPreflightAuthority {
    _private: (),
}

impl HostPreflightAuthority {
    /// The caller asserts that it verified exclusive controller ownership,
    /// reset semantics, delay availability, W1C interrupt behavior and the
    /// recovery procedure on the board.
    pub fn assume_board_verified() -> Self {
        Self { _private: () }
    }
}

#[derive(Debug, Clone, Copy, PartialEq, Eq, Structural)]
pub enum HostPreflightStage {
    WriteReset,
    WriteExternalClock,
    ReadbackControl,
    ControlMismatch,
    ClearInterrupts,
    EnableInterrupts,
    ReadbackInterruptEnable,
    InterruptEnableMismatch,
    ReadCommandStatus,
    ReadDataStatus,
    IdleTimeout,
}

pub struct HostPreflightFailure<R> {
    pub stage: HostPreflightStage,
    pub error: Option<MmcError>,
    pub observed_control: Option<u32>,
    pub observed_interrupt_enable: Option<u32>,
    pub observed_command_status: Option<u32>,
    pub observed_data_status: Option<u32>,
    pub host: Host<R, Uninitialized>,
}

/// Command and data engines are both idle.
pub open spec fn controller_idle(command_status: u32, data_status: u32) -> bool {
    command_status & CSTS_ON == 0 && data_status & DSTS_ACTIVE == 0
}

/// What a failed reset sequence records at each stage.
pub open spec fn preflight_evidence(
    stage: HostPreflightStage,
    error: Option<MmcError>,
    control: Option<u32>,
    interrupt_enable: Option<u32>,
    command_status: Option<u32>,
    data_status: Option<u32>,
) -> bool {
    match stage {
        HostPreflightStage::WriteReset | HostPreflightStage::WriteExternalClock
        | HostPreflightStage::ReadbackControl => error is Some && control is None
            && interrupt_enable is None && command_status is None && data_status is None,
        HostPreflightStage::ControlMismatch => error is None && control is Some && control->Some_0
            != CTL_EXTERNAL_CLOCK && interrupt_enable is None && command_status is None
            && data_status is None,
        HostPreflightStage::ClearInterrupts | HostPreflightStage::EnableInterrupts
        | HostPreflightStage::ReadbackInterruptEnable => error is Some && control == Some(
            CTL_EXTERNAL_CLOCK,
        ) && interrupt_enable is None && command_status is None && data_status is None,
        HostPreflightStage::InterruptEnableMismatch => error is None && control == Some(
            CTL_EXTERNAL_CLOCK,
        ) && interrupt_enable is Some && interrupt_enable->Some_0 != INT_CLEAR && command_status
            is None && data_status is None,
        HostPreflightStage::ReadCommandStatus => error is Some && control == Some(
            CTL_EXTERNAL_CLOCK,
        ) && interrupt_enable == Some(INT_CLEAR) && command_status is None,
        HostPreflightStage::ReadDataStatus => error is Some && control == Some(CTL_EXTERNAL_CLOCK)
            && interrupt_enable == Some(INT_CLEAR) && command_status is Some && data_status
            is None,
        HostPreflightStage::IdleTimeout => error is None && control == Some(CTL_EXTERNAL_CLOCK)
            && interrupt_enable == Some(INT_CLEAR) && command_status is Some && data_status
            is Some && !controller_idle(command_status->Some_0, data_status->Some_0),
    }
}

/// Reads of consecutive status polls: command status, then data status.
pub open spec fn status_reads(pairs: Seq<(u32, u32)>) -> Seq<MmcAccess>
    decreases pairs.len(),
{
    if pairs.len() == 0 {
        Seq::empty()
    } else {
        status_reads(pairs.drop_last()) + seq![
            MmcAccess::Read(REG_CSTS, Ok(pairs.last().0)),
            MmcAccess::Read(REG_DSTS, Ok(pairs.last().1)),
        ]
    }
}

/// No poll saw both engines idle.
pub open spec fn all_busy(pairs: Seq<(u32, u32)>) -> bool {
    forall|i: int| 0 <= i < pairs.len() ==> !controller_idle(#[trigger] pairs[i].0, pairs[i].1)
}

/// The accesses of a reset sequence that succeeded up to the status polls:
/// reset, external clock, its readback, interrupt clear, interrupt enable and
/// its readback.
pub open spec fn reset_head() -> Seq<MmcAccess> {
    seq![
        MmcAccess::Write(REG_CTL, CTL_RESET, Ok(())),
        MmcAccess::Write(REG_CTL, CTL_EXTERNAL_CLOCK, Ok(())),
        MmcAccess::Read(REG_CTL, Ok(CTL_EXTERNAL_CLOCK)),
        MmcAccess::Write(REG_INT, INT_CLEAR, Ok(())),
        MmcAccess::Write(REG_IEN, INT_CLEAR, Ok(())),
        MmcAccess::Read(REG_IEN, Ok(INT_CLEAR)),
    ]
}

/// The accesses of a reset sequence that failed at `stage`, after the
/// status polls `pairs`; the last access is the one that failed or
/// mismatched.
pub open spec fn preflight_failure_accesses(
    stage: HostPreflightStage,
    error: Option<MmcError>,
    control: Option<u32>,
    interrupt_enable: Option<u32>,
    command_status: Option<u32>,
    pairs: Seq<(u32, u32)>,
) -> Seq<MmcAccess> {
    let e = error->Some_0;
    match stage {
        HostPreflightStage::WriteReset => seq![MmcAccess::Write(REG_CTL, CTL_RESET, Err(e))],
        HostPreflightStage::WriteExternalClock => reset_head().take(1).push(
            MmcAccess::Write(REG_CTL, CTL_EXTERNAL_CLOCK, Err(e)),
        ),
        HostPreflightStage::ReadbackControl => reset_head().take(2).push(
            MmcAccess::Read(REG_CTL, Err(e)),
        ),
        HostPreflightStage::ControlMismatch => reset_head().take(2).push(
            MmcAccess::Read(REG_CTL, Ok(control->Some_0)),
        ),
        HostPreflightStage::ClearInterrupts => reset_head().take(3).push(
            MmcAccess::Write(REG_INT, INT_CLEAR, Err(e)),
        ),
        HostPreflightStage::EnableInterrupts => reset_head().take(4).push(
            MmcAccess::Write(REG_IEN, INT_CLEAR, Err(e)),
        ),
        HostPreflightStage::ReadbackInterruptEnable => reset_head().take(5).push(
            MmcAccess::Read(REG_IEN, Err(e)),
        ),
        HostPreflightStage::InterruptEnableMismatch => reset_head().take(5).push(
            MmcAccess::Read(REG_IEN, Ok(interrupt_enable->Some_0)),
        ),
        HostPreflightStage::ReadCommandStatus => reset_head() + status_reads(pairs) + seq![
            MmcAccess::Read(REG_CSTS, Err(e)),
        ],
        HostPreflightStage::ReadDataStatus => reset_head() + status_reads(pairs) + seq![
            MmcAccess::Read(REG_CSTS, Ok(command_status->Some_0)),
            MmcAccess::Read(REG_DSTS, Err(e)),
        ],
        HostPreflightStage::IdleTimeout => reset_head() + status_reads(pairs),
    }
}

/// A reset sequence on a backend whose history was `before` succeeded after
/// the status polls `pairs`: every poll but the last saw a busy engine, the
/// last saw both idle, and there were at most `polls` of them.
pub open spec fn preflight_succeeded(
    before: Seq<MmcAccess>,
    after: Seq<MmcAccess>,
    pairs: Seq<(u32, u32)>,
    polls: usize,
) -> bool {
    &&& 1 <= pairs.len() <= polls
    &&& all_busy(pairs.drop_last())
    &&& controller_idle(pairs.last().0, pairs.last().1)
    &&& after == before + reset_head() + status_reads(pairs)
}

/// A reset sequence on a backend whose history was `before` and is now
/// `after` failed at `stage` with the recorded values, after the status
/// polls `pairs`, none of which saw both engines idle.
pub open spec fn preflight_failed(
    before: Seq<MmcAccess>,
    after: Seq<MmcAccess>,
    stage: HostPreflightStage,
    error: Option<MmcError>,
    control: Option<u32>,
    interrupt_enable: Option<u32>,
    command_status: Option<u32>,
    data_status: Option<u32>,
    pairs: Seq<(u32, u32)>,
    polls: usize,
) -> bool {
    let polling = stage == HostPreflightStage::ReadCommandStatus || stage
        == HostPreflightStage::ReadDataStatus;
    &&& all_busy(pairs)
    &&& pairs.len() <= polls
    &&& polling ==> pairs.len() < polls
    &&& stage == HostPreflightStage::IdleTimeout ==> pairs.len() == polls && command_status == Some(
        pairs.last().0,
    ) && data_status == Some(pairs.last().1)
    &&& stage == HostPreflightStage::ReadCommandStatus ==> data_status == (if pairs.len() == 0 {
        None
    } else {
        Some(pairs.last().1)
    })
    &&& after == before + preflight_failure_accesses(
        stage,
        error,
        control,
        interrupt_enable,
        command_status,
        pairs,
    )
}

impl<R> HostPreflightFailure<R> {
    /// The session returned with the failure.
    pub closed spec fn session(self) -> Host<R, Uninitialized> {
        self.host
    }

    /// The recorded fields describe the stage that failed.
    pub closed spec fn consistent(self) -> bool {
        preflight_evidence(
            self.stage,
            self.error,
            self.observed_control,
            self.observed_interrupt_enable,
            self.observed_command_status,
            self.observed_data_status,
        )
    }

    pub fn into_host(self) -> (host: Host<R, Uninitialized>)
        ensures
            host == self.session(),
    {
        self.host
    }
}

impl<R: RegisterIo> HostPreflightFailure<R> {
    /// Retry the entire reset sequence. A failed write has unknown effect, so
    /// retry starts from RESET rather than continuing at the failed stage.
    pub fn retry<D: ResetDelay>(self, delay: &mut D, authority: &HostPreflightAuthority) -> (result:
        Result<Host<R, Preflighted>, Self>)
        requires
            self.session().wf(),
        ensures
            match result {
                Ok(host) => host.wf() && host.polls() == self.session().polls() && exists|
                    pairs: Seq<(u32, u32)>,
                |
                    preflight_succeeded(
                        self.session().backend().accesses(),
                        host.backend().accesses(),
                        pairs,
                        self.session().polls(),
                    ),
                Err(failure) => failure.consistent() && failure.session().wf()
                    && failure.session().polls() == self.session().polls() && exists|
                    pairs: Seq<(u32, u32)>,
                |
                    preflight_failed(
                        self.session().backend().accesses(),
                        failure.session().backend().accesses(),
                        failure.stage,
                        failure.error,
                        failure.observed_control,
                        failure.observed_interrupt_enable,
                        failure.observed_command_status,
                        failure.observed_data_status,
                        pairs,
                        self.session().polls(),
                    ),
            },
            final(delay).waits() == if result matches Err(failure) && failure.stage
                == HostPreflightStage::WriteReset {
                old(delay).waits()
            } else {
                old(delay).waits().push(10)
            },
            match result {
                Ok(host) => host.reset_wait_point() == Some(
                    self.session().backend().accesses().len() + 1,
                ),
                Err(failure) => failure.session().reset_wait_point() == if failure.stage
                    == HostPreflightStage::WriteReset {
                    self.session().reset_wait_point()
                } else {
                    Some(self.session().backend().accesses().len() + 1)
                },
            },
    {
        self.host.preflight(delay, authority)
    }
}

impl<R: RegisterIo> Host<R, Uninitialized> {
    pub fn new(registers: R, poll_limit: usize) -> (host: Self)
        ensures
            host.wf(),
            host.backend() == registers,
            host.polls() == if poll_limit == 0 {
                1
            } else {
                poll_limit
            },
    {
        let poll_limit = if poll_limit == 0 {
            1
        } else {
            poll_limit
        };
        Self { registers, poll_limit, state: PhantomData, reset_wait: Ghost(None) }
    }

    /// Apply the Linux power-up reset sequence and prove command/data idle.
    ///
    /// Physical behavior remains unverified on hardware. The 10 ms delay is
    /// taken from Linux; no reset self-clear behavior is assumed. The delay
    /// follows the reset write and precedes the external-clock write.
    pub fn preflight<D: ResetDelay>(self, delay: &mut D, _authority: &HostPreflightAuthority) -> (result:
        Result<Host<R, Preflighted>, HostPreflightFailure<R>>)
        requires
            self.wf(),
        ensures
            match result {
                Ok(host) => host.wf() && host.polls() == self.polls() && exists|
                    pairs: Seq<(u32, u32)>,
                |
                    preflight_succeeded(
                        self.backend().accesses(),
                        host.backend().accesses(),
                        pairs,
                        self.polls(),
                    ),
                Err(failure) => failure.consistent() && failure.session().wf()
                    && failure.session().polls() == self.polls() && exists|
                    pairs: Seq<(u32, u32)>,
                |
                    preflight_failed(
                        self.backend().accesses(),
                        failure.session().backend().accesses(),
                        failure.stage,
                        failure.error,
                        failure.observed_control,
                        failure.observed_interrupt_enable,
                        failure.observed_command_status,
                        failure.observed_data_status,
                        pairs,
                        self.polls(),
                    ),
            },
            final(delay).waits() == if result matches Err(failure) && failure.stage
                == HostPreflightStage::WriteReset {
                old(delay).waits()
            } else {
                old(delay).waits().push(10)
            },
            match result {
                Ok(host) => host.reset_wait_point() == Some(self.backend().accesses().len() + 1),
                Err(failure) => failure.session().reset_wait_point() == if failure.stage
                    == HostPreflightStage::WriteReset {
                    self.reset_wait_point()
                } else {
                    Some(self.backend().accesses().len() + 1)
                },
            },
    {
        let ghost before = self.backend().accesses();
        let ghost none: Seq<(u32, u32)> = Seq::empty();
        let mut this = self;
        let written = this.registers.write32(REG_CTL, CTL_RESET);
        if let Err(error) = written {
            let failure = this.failure(HostPreflightStage::WriteReset, Some(error), None, None, None, None);
            assert(failure.session().backend().accesses() =~= before + preflight_failure_accesses(failure.stage, failure.error, failure.observed_control, failure.observed_interrupt_enable, failure.observed_command_status, none));
            assert(preflight_failed(before, failure.session().backend().accesses(), failure.stage, failure.error, failure.observed_control, failure.observed_interrupt_enable, failure.observed_command_status, failure.observed_data_status, none, self.polls()));
            return Err(failure);
        }
        assert(written->Ok_0 == ());
        assert(this.registers.accesses() =~= before + reset_head().take(1));
        delay.delay_milliseconds(10);
        proof {
            this.reset_wait@ = Some(this.registers.accesses().len());
        }
        let written = this.registers.write32(REG_CTL, CTL_EXTERNAL_CLOCK);
        if let Err(error) = written {
            let failure = this.failure(
                HostPreflightStage::WriteExternalClock,
                Some(error),
                None,
                None,
                None,
                None,
            );
            assert(failure.session().backend().accesses() =~= before + preflight_failure_accesses(failure.stage, failure.error, failure.observed_control, failure.observed_interrupt_enable, failure.observed_command_status, none));
            assert(preflight_failed(before, failure.session().backend().accesses(), failure.stage, failure.error, failure.observed_control, failure.observed_interrupt_enable, failure.observed_command_status, failure.observed_data_status, none, self.polls()));
            return Err(failure);
        }
        assert(written->Ok_0 == ());
        assert(this.registers.accesses() =~= before + reset_head().take(2));
        let control = match this.registers.read32(REG_CTL) {
            Ok(value) => value,
            Err(error) => {
                let failure = this.failure(
                    HostPreflightStage::ReadbackControl,
                    Some(error),
                    None,
                    None,
                    None,
                    None,
                );
                assert(failure.session().backend().accesses() =~= before + preflight_failure_accesses(failure.stage, failure.error, failure.observed_control, failure.observed_interrupt_enable, failure.observed_command_status, none));
                assert(preflight_failed(before, failure.session().backend().accesses(), failure.stage, failure.error, failure.observed_control, failure.observed_interrupt_enable, failure.observed_command_status, failure.observed_data_status, none, self.polls()));
                return Err(failure);
            },
        };
        if control != CTL_EXTERNAL_CLOCK {
            let failure = this.failure(
                HostPreflightStage::ControlMismatch,
                None,
                Some(control),
                None,
                None,
                None,
            );
            assert(failure.session().backend().accesses() =~= before + preflight_failure_accesses(failure.stage, failure.error, failure.observed_control, failure.observed_interrupt_enable, failure.observed_command_status, none));
            assert(preflight_failed(before, failure.session().backend().accesses(), failure.stage, failure.error, failure.observed_control, failure.observed_interrupt_enable, failure.observed_command_status, failure.observed_data_status, none, self.polls()));
            return Err(failure);
        }
        assert(this.registers.accesses() =~= before + reset_head().take(3));
        let written = this.registers.write32(REG_INT, INT_CLEAR);
        if let Err(error) = written {
            let failure = this.failure(
                HostPreflightStage::ClearInterrupts,
                Some(error),
                Some(control),
                None,
                None,
                None,
            );
            assert(failure.session().backend().accesses() =~= before + preflight_failure_accesses(failure.stage, failure.error, failure.observed_control, failure.observed_interrupt_enable, failure.observed_command_status, none));
            assert(preflight_failed(before, failure.session().backend().accesses(), failure.stage, failure.error, failure.observed_control, failure.observed_interrupt_enable, failure.observed_command_status, failure.observed_data_status, none, self.polls()));
            return Err(failure);
        }
        assert(written->Ok_0 == ());
        assert(this.registers.accesses() =~= before + reset_head().take(4));
        let written = this.registers.write32(REG_IEN, INT_CLEAR);
        if let Err(error) = written {
            let failure = this.failure(
                HostPreflightStage::EnableInterrupts,
                Some(error),
                Some(control),
                None,
                None,
                None,
            );
            assert(failure.session().backend().accesses() =~= before + preflight_failure_accesses(failure.stage, failure.error, failure.observed_control, failure.observed_interrupt_enable, failure.observed_command_status, none));
            assert(preflight_failed(before, failure.session().backend().accesses(), failure.stage, failure.error, failure.observed_control, failure.observed_interrupt_enable, failure.observed_command_status, failure.observed_data_status, none, self.polls()));
            return Err(failure);
        }
        assert(written->Ok_0 == ());
        assert(this.registers.accesses() =~= before + reset_head().take(5));
        let interrupt_enable = match this.registers.read32(REG_IEN) {
            Ok(value) => value,
            Err(error) => {
                let failure = this.failure(
                    HostPreflightStage::ReadbackInterruptEnable,
                    Some(error),
                    Some(control),
                    None,
                    None,
                    None,
                );
                assert(failure.session().backend().accesses() =~= before + preflight_failure_accesses(failure.stage, failure.error, failure.observed_control, failure.observed_interrupt_enable, failure.observed_command_status, none));
                assert(preflight_failed(before, failure.session().backend().accesses(), failure.stage, failure.error, failure.observed_control, failure.observed_interrupt_enable, failure.observed_command_status, failure.observed_data_status, none, self.polls()));
                return Err(failure);
            },
        };
        if interrupt_enable != INT_CLEAR {
            let failure = this.failure(
                HostPreflightStage::InterruptEnableMismatch,
                None,
                Some(control),
                Some(interrupt_enable),
                None,
                None,
            );
            assert(failure.session().backend().accesses() =~= before + preflight_failure_accesses(failure.stage, failure.error, failure.observed_control, failure.observed_interrupt_enable, failure.observed_command_status, none));
            assert(preflight_failed(before, failure.session().backend().accesses(), failure.stage, failure.error, failure.observed_control, failure.observed_interrupt_enable, failure.observed_command_status, failure.observed_data_status, none, self.polls()));
            return Err(failure);
        }
        assert(this.registers.accesses() =~= before + reset_head());
        assert(status_reads(none) =~= Seq::<MmcAccess>::empty());
        let mut command_status: Option<u32> = None;
        let mut data_status: Option<u32> = None;
        let mut poll: usize = 0;
        let limit = this.poll_limit;
        let ghost mut pairs: Seq<(u32, u32)> = Seq::empty();
        assert(final(delay).waits() == old(delay).waits().push(10));
        while poll < limit
            invariant
                poll <= limit,
                limit == this.polls(),
                limit >= 1,
                this.polls() == self.polls(),
                this.wf(),
                control == CTL_EXTERNAL_CLOCK,
                interrupt_enable == INT_CLEAR,
                before == self.backend().accesses(),
                this.reset_wait_point() == Some(before.len() + 1),
                pairs.len() == poll,
                all_busy(pairs),
                this.registers.accesses() == before + reset_head() + status_reads(pairs),
                poll == 0 ==> command_status is None && data_status is None,
                poll > 0 ==> command_status == Some(pairs.last().0) && data_status == Some(
                    pairs.last().1,
                ),
                delay.waits() == old(delay).waits().push(10),
                final(delay).waits() == old(delay).waits().push(10),
            decreases limit - poll,
        {
            let command = match this.registers.read32(REG_CSTS) {
                Ok(value) => value,
                Err(error) => {
                    let failure = this.failure(
                        HostPreflightStage::ReadCommandStatus,
                        Some(error),
                        Some(control),
                        Some(interrupt_enable),
                        None,
                        data_status,
                    );
                    assert(failure.session().backend().accesses() =~= before + preflight_failure_accesses(failure.stage, failure.error, failure.observed_control, failure.observed_interrupt_enable, failure.observed_command_status, pairs));
                    assert(preflight_failed(before, failure.session().backend().accesses(), failure.stage, failure.error, failure.observed_control, failure.observed_interrupt_enable, failure.observed_command_status, failure.observed_data_status, pairs, self.polls()));
                    return Err(failure);
                },
            };
            command_status = Some(command);
            let data = match this.registers.read32(REG_DSTS) {
                Ok(value) => value,
                Err(error) => {
                    let failure = this.failure(
                        HostPreflightStage::ReadDataStatus,
                        Some(error),
                        Some(control),
                        Some(interrupt_enable),
                        command_status,
                        None,
                    );
                    assert(failure.session().backend().accesses() =~= before + preflight_failure_accesses(failure.stage, failure.error, failure.observed_control, failure.observed_interrupt_enable, failure.observed_command_status, pairs));
                    assert(preflight_failed(before, failure.session().backend().accesses(), failure.stage, failure.error, failure.observed_control, failure.observed_interrupt_enable, failure.observed_command_status, failure.observed_data_status, pairs, self.polls()));
                    return Err(failure);
                },
            };
            data_status = Some(data);
            let ghost previous = pairs;
            proof {
                pairs = pairs.push((command, data));
                assert(pairs.drop_last() =~= previous);
                assert(this.registers.accesses() =~= before + reset_head() + status_reads(pairs));
            }
            if command & CSTS_ON == 0 && data & DSTS_ACTIVE == 0 {
                let host = this.change_state();
                assert(preflight_succeeded(before, host.backend().accesses(), pairs, self.polls()));
                return Ok(host);
            }
            poll = poll + 1;
        }
        let failure = this.failure(
            HostPreflightStage::IdleTimeout,
            None,
            Some(control),
            Some(interrupt_enable),
            command_status,
            data_status,
        );
        assert(failure.session().backend().accesses() =~= before + preflight_failure_accesses(failure.stage, failure.error, failure.observed_control, failure.observed_interrupt_enable, failure.observed_command_status, pairs));
        assert(preflight_failed(before, failure.session().backend().accesses(), failure.stage, failure.error, failure.observed_control, failure.observed_interrupt_enable, failure.observed_command_status, failure.observed_data_status, pairs, self.polls()));
        Err(failure)
    }

    fn failure(
        self,
        stage: HostPreflightStage,
        error: Option<MmcError>,
        observed_control: Option<u32>,
        observed_interrupt_enable: Option<u32>,
        observed_command_status: Option<u32>,
        observed_data_status: Option<u32>,
    ) -> (failure: HostPreflightFailure<R>)
        ensures
            failure.stage == stage,
            failure.error == error,
            failure.observed_control == observed_control,
            failure.observed_interrupt_enable == observed_interrupt_enable,
            failure.observed_command_status == observed_command_status,
            failure.observed_data_status == observed_data_status,
            failure.session() == self,
    {
        HostPreflightFailure {
            stage,
            error,
            observed_control,
            observed_interrupt_enable,
            observed_command_status,
            observed_data_status,
            host: self,
        }
    }
}

/// Match the Linux integer prescaler policy: round upward and clamp at
/// 255. If the requested divisor exceeds 255, the returned actual clock can
/// exceed the target; callers must inspect it before touching hardware.
pub open spec fn prescaler_divider(input_hz: u32, target_hz: u32) -> u32 {
    let ceiling = (input_hz as int + target_hz as int - 1) / target_hz as int;
    if ceiling > 255 {
        255
    } else if ceiling < 1 {
        1
    } else {
        ceiling as u32
    }
}

pub fn clock_prescaler(input_hz: u32, target_hz: u32) -> (result: Result<(u8, u32), MmcError>)
    ensures
        match result {
            Ok((divider, actual_hz)) => input_hz != 0 && target_hz != 0 && divider as u32
                == prescaler_divider(input_hz, target_hz) && actual_hz == input_hz / (
            divider as u32),
            Err(error) => (input_hz == 0 || target_hz == 0) && error == MmcError::InvalidParameter,
        },
{
    if input_hz == 0 || target_hz == 0 {
        return Err(MmcError::InvalidParameter);
    }
    let quotient = input_hz / target_hz;
    assert(input_hz % target_hz != 0 ==> quotient < 0xffff_ffffu32) by (nonlinear_arith)
        requires
            target_hz > 0,
            quotient == input_hz / target_hz,
    ;
    let ceiling = if input_hz % target_hz != 0 {
        quotient + 1
    } else {
        quotient
    };
    assert(ceiling as int == (input_hz as int + target_hz as int - 1) / target_hz as int)
        by (nonlinear_arith)
        requires
            target_hz > 0,
            quotient == input_hz / target_hz,
            input_hz % target_hz != 0 ==> ceiling == quotient + 1,
            input_hz % target_hz == 0 ==> ceiling == quotient,
    ;
    let divider: u32 = if ceiling > 255 {
        255
    } else if ceiling < 1 {
        1
    } else {
        ceiling
    };
    Ok((divider as u8, input_hz / divider))
}

/// Opaque controller-private clock plan derived from coherent parent evidence.
#[derive(Debug, Clone, Copy, PartialEq, Eq, Structural)]
pub struct ControllerClockPlan {
    parent_hz: u32,
    requested_hz: u32,
    divider: u8,
    actual_hz: u32,
}

/// Value the prescaler register holds when the plan is in effect.
pub open spec fn pre_register_value(divider: u8) -> u32 {
    PRE_ENABLE | divider as u32
}

impl ControllerClockPlan {
    pub closed spec fn parent(self) -> u32 {
        self.parent_hz
    }

    pub closed spec fn requested(self) -> u32 {
        self.requested_hz
    }

    pub closed spec fn div(self) -> u8 {
        self.divider
    }

    pub closed spec fn actual(self) -> u32 {
        self.actual_hz
    }

    pub fn from_parent(parent: ConsistentClockSnapshot, requested_hz: u32) -> (result: Result<
        Self,
        MmcError,
    >)
        ensures
            match result {
                Ok(plan) => parent@.apb_hz <= u32::MAX && plan.parent() == parent@.apb_hz
                    && plan.requested() == requested_hz && plan.parent() != 0 && requested_hz
                    != 0 && plan.div() as u32 == prescaler_divider(plan.parent(), requested_hz)
                    && plan.actual() == plan.parent() / (plan.div() as u32),
                Err(error) => error == MmcError::InvalidParameter && (parent@.apb_hz > u32::MAX
                    || parent@.apb_hz == 0 || requested_hz == 0),
            },
    {
        let apb_hz = parent.snapshot().apb_hz;
        if apb_hz > 0xffff_ffffu64 {
            return Err(MmcError::InvalidParameter);
        }
        let parent_hz = apb_hz as u32;
        let (divider, actual_hz) = clock_prescaler(parent_hz, requested_hz)?;
        Ok(Self { parent_hz, requested_hz, divider, actual_hz })
    }

    pub fn parent_hz(&self) -> (r: u32)
        ensures
            r == self.parent(),
    {
        self.parent_hz
    }

    pub fn requested_hz(&self) -> (r: u32)
        ensures
            r == self.requested(),
    {
        self.requested_hz
    }

    pub fn divider(&self) -> (r: u8)
        ensures
            r == self.div(),
    {
        self.divider
    }

    pub fn actual_hz(&self) -> (r: u32)
        ensures
            r == self.actual(),
    {
        self.actual_hz
    }

    /// Prescaler register value that selects this plan's divider.
    pub fn pre_value(&self) -> (r: u32)
        ensures
            r == pre_register_value(self.div()),
    {
        PRE_ENABLE | self.divider as u32
    }
}

/// Readback-verified controller-private clock state. Physical clock output
/// remains unverified on hardware; this token is not command, DMA or
/// aggregate prerequisite authority.
#[derive(Debug)]
pub struct ControllerClockReady {
    plan: ControllerClockPlan,
}

impl View for ControllerClockReady {
    type V = ControllerClockPlan;

    closed spec fn view(&self) -> ControllerClockPlan {
        self.plan
    }
}

impl ControllerClockReady {
    pub fn plan(&self) -> (r: ControllerClockPlan)
        ensures
            r == self@,
    {
        self.plan
    }
}

/// Explicit acceptance of an unverified physical MMC clock write.
pub struct ControllerClockAuthority {
    _private: (),
}

impl ControllerClockAuthority {
    /// The caller asserts that it verified the target board, exclusive
    /// controller ownership, parent-clock stability, register semantics and
    /// the recovery procedure.
    pub fn assume_board_verified() -> Self {
        Self { _private: () }
    }
}

/// Non-blocking exclusion for controller clock transactions.
pub struct ClockTransactionGate {
    busy: AtomicBool,
}

impl ClockTransactionGate {
    pub fn new() -> Self {
        Self { busy: AtomicBool::new(false) }
    }

    /// Take the clock transaction token when no transaction is in progress.
    /// Whether one is in progress is the atomic flag's to say; a guard that
    /// is handed out belongs to this gate.
    pub fn try_enter(&self) -> (result: Result<ClockTransactionGuard<'_>, ClockTransactionBusy>)
        ensures
            result matches Ok(guard) ==> guard.gate() == *self,
    {
        match self.busy.compare_exchange(false, true, Ordering::AcqRel, Ordering::Acquire) {
            Ok(_) => Ok(ClockTransactionGuard { gate: self }),
            Err(_) => Err(ClockTransactionBusy),
        }
    }
}

#[derive(Debug, Clone, Copy, PartialEq, Eq, Structural)]
pub struct ClockTransactionBusy;

/// Token for one controller clock transaction; dropping it ends the transaction.
pub struct ClockTransactionGuard<'a> {
    gate: &'a ClockTransactionGate,
}

impl<'a> ClockTransactionGuard<'a> {
    /// Gate of this guard.
    pub closed spec fn gate(&self) -> ClockTransactionGate {
        *self.gate
    }
}

impl<'a> Drop for ClockTransactionGuard<'a> {
    fn drop(&mut self)
        opens_invariants none
        no_unwind
    {
        release_flag(&self.gate.busy);
    }
}

/// Calls `AtomicBool::store(false, Release)`. std documents that `store`
/// panics only for an `Acquire` or `AcqRel` ordering, so this call does not
/// unwind, and it opens no verification invariant.
#[verifier::external_body]
pub(crate) fn release_flag(flag: &AtomicBool)
    opens_invariants none
    no_unwind
{
    flag.store(false, Ordering::Release);
}

#[derive(Debug, Clone, Copy, PartialEq, Eq, Structural)]
pub enum ControllerClockStage {
    ObservePre,
    ObserveControl,
    ObserveMismatch,
    PreflightPre,
    PreflightControl,
    WritePre,
    ReadbackPre,
    ReadbackPreMismatch,
    WriteControl,
    ReadbackControl,
    ReadbackControlMismatch,
    RevalidatePre,
    RevalidateControl,
    RevalidateMismatch,
}

#[derive(Debug, Clone, Copy, PartialEq, Eq, Structural)]
pub struct ControllerClockRecovery {
    pub stage: ControllerClockStage,
    pub plan: ControllerClockPlan,
    pub observed_pre: Option<u32>,
    pub observed_control: Option<u32>,
    pub error: Option<MmcError>,
}

/// The prescaler and control registers show the planned clock enabled.
pub open spec fn clock_verified(plan: ControllerClockPlan, pre: u32, control: u32) -> bool {
    pre == pre_register_value(plan.div()) && control & CTL_ENABLE_CLOCK != 0
}

/// What an uncertain controller-clock transaction records at each stage.
pub open spec fn clock_recovery_evidence(recovery: ControllerClockRecovery) -> bool {
    let pre = recovery.observed_pre;
    let control = recovery.observed_control;
    let planned = pre_register_value(recovery.plan.div());
    match recovery.stage {
        ControllerClockStage::ObservePre | ControllerClockStage::PreflightPre
        | ControllerClockStage::RevalidatePre => recovery.error is Some && pre is None
            && control is None,
        ControllerClockStage::ObserveControl | ControllerClockStage::PreflightControl
        | ControllerClockStage::RevalidateControl => recovery.error is Some && pre is Some
            && control is None,
        ControllerClockStage::ObserveMismatch | ControllerClockStage::RevalidateMismatch =>
            recovery.error is None && pre is Some && control is Some && !clock_verified(
            recovery.plan,
            pre->Some_0,
            control->Some_0,
        ),
        ControllerClockStage::WritePre | ControllerClockStage::ReadbackPre => recovery.error
            is Some && pre is None && control is Some,
        ControllerClockStage::ReadbackPreMismatch => recovery.error is None && pre is Some
            && pre->Some_0 != planned && control is Some,
        ControllerClockStage::WriteControl | ControllerClockStage::ReadbackControl =>
            recovery.error is Some && pre == Some(planned) && control is None,
        ControllerClockStage::ReadbackControlMismatch => recovery.error is None && pre == Some(
            planned,
        ) && control is Some,
    }
}

/// Observation stages used by a read-only check.
pub open spec fn observation_stage(stage: ControllerClockStage) -> bool {
    stage == ControllerClockStage::ObservePre || stage == ControllerClockStage::ObserveControl
        || stage == ControllerClockStage::ObserveMismatch
}

/// Stages used when re-reading after an uncertain transaction.
pub open spec fn revalidation_stage(stage: ControllerClockStage) -> bool {
    stage == ControllerClockStage::RevalidatePre || stage
        == ControllerClockStage::RevalidateControl || stage
        == ControllerClockStage::RevalidateMismatch
}

fn verify_controller_clock(plan: ControllerClockPlan, pre: u32, control: u32) -> (ok: bool)
    ensures
        ok == clock_verified(plan, pre, control),
{
    pre == plan.pre_value() && control & CTL_ENABLE_CLOCK != 0
}

/// The reads of a read-only clock check that recorded `pre`, `control` and
/// `error`: the prescaler, then the control register, up to the first that
/// failed.
pub open spec fn clock_check_reads(pre: Option<u32>, control: Option<u32>, error: Option<MmcError>) -> Seq<
    MmcAccess,
> {
    match (pre, control) {
        (None, _) => seq![MmcAccess::Read(REG_PRE, Err(error->Some_0))],
        (Some(p), None) => seq![
            MmcAccess::Read(REG_PRE, Ok(p)),
            MmcAccess::Read(REG_CTL, Err(error->Some_0)),
        ],
        (Some(p), Some(c)) => seq![MmcAccess::Read(REG_PRE, Ok(p)), MmcAccess::Read(REG_CTL, Ok(c))],
    }
}

/// A read-only clock check on a backend whose history was `before` and is
/// now `after`, for `plan`, ended in `result`: success exactly when both
/// reads succeeded and show the planned clock enabled.
pub open spec fn clock_check_accesses(
    before: Seq<MmcAccess>,
    after: Seq<MmcAccess>,
    plan: ControllerClockPlan,
    result: Result<ControllerClockReady, ControllerClockRecovery>,
) -> bool {
    match result {
        Ok(_) => exists|pre: u32, control: u32|
            #![trigger clock_verified(plan, pre, control)]
            clock_verified(plan, pre, control) && after == before + clock_check_reads(
                Some(pre),
                Some(control),
                None,
            ),
        Err(recovery) => after == before + clock_check_reads(
            recovery.observed_pre,
            recovery.observed_control,
            recovery.error,
        ),
    }
}

/// Writes and readback that program the prescaler when `pre` differs from
/// the plan's value.
pub open spec fn program_pre(plan: ControllerClockPlan, pre: u32) -> Seq<MmcAccess> {
    let planned = pre_register_value(plan.div());
    if pre == planned {
        Seq::empty()
    } else {
        seq![MmcAccess::Write(REG_PRE, planned, Ok(())), MmcAccess::Read(REG_PRE, Ok(planned))]
    }
}

/// Write and readback that enable the clock when `control` has it disabled,
/// keeping the other control bits.
pub open spec fn program_control(control: u32) -> Seq<MmcAccess> {
    if control & CTL_ENABLE_CLOCK != 0 {
        Seq::empty()
    } else {
        seq![
            MmcAccess::Write(REG_CTL, control | CTL_ENABLE_CLOCK, Ok(())),
            MmcAccess::Read(REG_CTL, Ok(control | CTL_ENABLE_CLOCK)),
        ]
    }
}

/// The accesses of a clock transaction that failed as `recovery` records,
/// after first reading prescaler `pre` and control `control`.
pub open spec fn clock_apply_failure_accesses(
    recovery: ControllerClockRecovery,
    pre: u32,
    control: u32,
) -> Seq<MmcAccess> {
    let planned = pre_register_value(recovery.plan.div());
    let e = recovery.error->Some_0;
    let reads = clock_check_reads(Some(pre), Some(control), None);
    let enabled = control | CTL_ENABLE_CLOCK;
    match recovery.stage {
        ControllerClockStage::PreflightPre => clock_check_reads(None, None, recovery.error),
        ControllerClockStage::PreflightControl => clock_check_reads(
            recovery.observed_pre,
            None,
            recovery.error,
        ),
        ControllerClockStage::WritePre => reads + seq![MmcAccess::Write(REG_PRE, planned, Err(e))],
        ControllerClockStage::ReadbackPre => reads + seq![
            MmcAccess::Write(REG_PRE, planned, Ok(())),
            MmcAccess::Read(REG_PRE, Err(e)),
        ],
        ControllerClockStage::ReadbackPreMismatch => reads + seq![
            MmcAccess::Write(REG_PRE, planned, Ok(())),
            MmcAccess::Read(REG_PRE, Ok(recovery.observed_pre->Some_0)),
        ],
        ControllerClockStage::WriteControl => reads + program_pre(recovery.plan, pre) + seq![
            MmcAccess::Write(REG_CTL, enabled, Err(e)),
        ],
        ControllerClockStage::ReadbackControl => reads + program_pre(recovery.plan, pre) + seq![
            MmcAccess::Write(REG_CTL, enabled, Ok(())),
            MmcAccess::Read(REG_CTL, Err(e)),
        ],
        ControllerClockStage::ReadbackControlMismatch => reads + program_pre(recovery.plan, pre)
            + seq![
            MmcAccess::Write(REG_CTL, enabled, Ok(())),
            MmcAccess::Read(REG_CTL, Ok(recovery.observed_control->Some_0)),
        ],
        _ => Seq::empty(),
    }
}

/// Why a clock transaction that first read `pre` and `control` stopped
/// where `recovery` says: the first reads did not already show the planned
/// clock; it programs the prescaler only when it differs from the plan, and
/// the control register only when the clock is disabled; a mismatching
/// readback carries the value read.
pub open spec fn clock_apply_failed(
    plan: ControllerClockPlan,
    recovery: ControllerClockRecovery,
    pre: u32,
    control: u32,
) -> bool {
    let planned = pre_register_value(plan.div());
    match recovery.stage {
        ControllerClockStage::PreflightPre | ControllerClockStage::PreflightControl => true,
        ControllerClockStage::WritePre | ControllerClockStage::ReadbackPre
        | ControllerClockStage::ReadbackPreMismatch => !clock_verified(plan, pre, control) && pre
            != planned && recovery.observed_control == Some(control),
        ControllerClockStage::WriteControl | ControllerClockStage::ReadbackControl => !clock_verified(
            plan,
            pre,
            control,
        ) && control & CTL_ENABLE_CLOCK == 0,
        ControllerClockStage::ReadbackControlMismatch => !clock_verified(plan, pre, control)
            && control & CTL_ENABLE_CLOCK == 0 && recovery.observed_control != Some(
            control | CTL_ENABLE_CLOCK,
        ),
        _ => false,
    }
}

/// Verify an already-configured controller clock without writing registers.
pub fn observe_controller_clock<R: RegisterIo>(registers: &mut R, plan: ControllerClockPlan) -> (result:
    Result<ControllerClockReady, ControllerClockRecovery>)
    ensures
        match result {
            Ok(ready) => ready@ == plan,
            Err(recovery) => recovery.plan == plan && observation_stage(recovery.stage)
                && clock_recovery_evidence(recovery),
        },
        clock_check_accesses(old(registers).accesses(), final(registers).accesses(), plan, result),
{
    let ghost before = registers.accesses();
    let pre = match registers.read32(REG_PRE) {
        Ok(value) => value,
        Err(error) => {
            assert(registers.accesses() =~= before + clock_check_reads(None, None, Some(error)));
            return Err(
                ControllerClockRecovery {
                    stage: ControllerClockStage::ObservePre,
                    plan,
                    observed_pre: None,
                    observed_control: None,
                    error: Some(error),
                },
            );
        },
    };
    let control = match registers.read32(REG_CTL) {
        Ok(value) => value,
        Err(error) => {
            assert(registers.accesses() =~= before + clock_check_reads(Some(pre), None, Some(error)));
            return Err(
                ControllerClockRecovery {
                    stage: ControllerClockStage::ObserveControl,
                    plan,
                    observed_pre: Some(pre),
                    observed_control: None,
                    error: Some(error),
                },
            );
        },
    };
    assert(registers.accesses() =~= before + clock_check_reads(Some(pre), Some(control), None));
    if verify_controller_clock(plan, pre, control) {
        Ok(ControllerClockReady { plan })
    } else {
        Err(
            ControllerClockRecovery {
                stage: ControllerClockStage::ObserveMismatch,
                plan,
                observed_pre: Some(pre),
                observed_control: Some(control),
                error: None,
            },
        )
    }
}

impl ControllerClockRecovery {
    /// Re-read controller state after an uncertain transaction; never writes.
    pub fn revalidate<R: RegisterIo>(
        &self,
        registers: &mut R,
        _guard: &mut ClockTransactionGuard<'_>,
    ) -> (result: Result<ControllerClockReady, Self>)
        ensures
            match result {
                Ok(ready) => ready@ == self.plan,
                Err(recovery) => recovery.plan == self.plan && revalidation_stage(recovery.stage)
                    && clock_recovery_evidence(recovery),
            },
            clock_check_accesses(
                old(registers).accesses(),
                final(registers).accesses(),
                self.plan,
                result,
            ),
    {
        let ghost before = registers.accesses();
        let pre = match registers.read32(REG_PRE) {
            Ok(value) => value,
            Err(error) => {
                assert(registers.accesses() =~= before + clock_check_reads(None, None, Some(error)));
                return Err(
                    Self {
                        stage: ControllerClockStage::RevalidatePre,
                        plan: self.plan,
                        observed_pre: None,
                        observed_control: None,
                        error: Some(error),
                    },
                );
            },
        };
        let control = match registers.read32(REG_CTL) {
            Ok(value) => value,
            Err(error) => {
                assert(registers.accesses() =~= before + clock_check_reads(Some(pre), None, Some(error)));
                return Err(
                    Self {
                        stage: ControllerClockStage::RevalidateControl,
                        plan: self.plan,
                        observed_pre: Some(pre),
                        observed_control: None,
                        error: Some(error),
                    },
                );
            },
        };
        assert(registers.accesses() =~= before + clock_check_reads(Some(pre), Some(control), None));
        if verify_controller_clock(self.plan, pre, control) {
            Ok(ControllerClockReady { plan: self.plan })
        } else {
            Err(
                Self {
                    stage: ControllerClockStage::RevalidateMismatch,
                    plan: self.plan,
                    observed_pre: Some(pre),
                    observed_control: Some(control),
                    error: None,
                },
            )
        }
    }
}

/// Fresh-read, conditionally program and read back the MMC-private clock.
#[verifier::rlimit(80)]
#[verifier::spinoff_prover]
pub fn apply_controller_clock<R: RegisterIo>(
    registers: &mut R,
    plan: ControllerClockPlan,
    _authority: &ControllerClockAuthority,
    _guard: &mut ClockTransactionGuard<'_>,
) -> (result: Result<ControllerClockReady, ControllerClockRecovery>)
    ensures
        match result {
            Ok(ready) => ready@ == plan,
            Err(recovery) => recovery.plan == plan && !observation_stage(recovery.stage)
                && !revalidation_stage(recovery.stage) && clock_recovery_evidence(recovery),
        },
        match result {
            Ok(_) => exists|pre: u32, control: u32|
                #![trigger program_pre(plan, pre), program_control(control)]
                final(registers).accesses() == old(registers).accesses() + clock_check_reads(
                    Some(pre),
                    Some(control),
                    None,
                ) + program_pre(plan, pre) + program_control(control),
            Err(recovery) => exists|pre: u32, control: u32|
                #![trigger clock_apply_failure_accesses(recovery, pre, control)]
                clock_apply_failed(plan, recovery, pre, control) && final(registers).accesses()
                    == old(registers).accesses() + clock_apply_failure_accesses(
                    recovery,
                    pre,
                    control,
                ),
        },
{
    let ghost before = registers.accesses();
    let ghost mut pre0: u32 = 0;
    let ghost mut control0: u32 = 0;
    let planned = plan.pre_value();
    let mut pre = match registers.read32(REG_PRE) {
        Ok(value) => value,
        Err(error) => {
            let recovery = ControllerClockRecovery {
                stage: ControllerClockStage::PreflightPre,
                plan,
                observed_pre: None,
                observed_control: None,
                error: Some(error),
            };
            assert(registers.accesses() =~= before + clock_apply_failure_accesses(recovery, pre0, control0));
            assert(clock_apply_failed(plan, recovery, pre0, control0));
            return Err(recovery);
        },
    };
    let mut control = match registers.read32(REG_CTL) {
        Ok(value) => value,
        Err(error) => {
            let recovery = ControllerClockRecovery {
                stage: ControllerClockStage::PreflightControl,
                plan,
                observed_pre: Some(pre),
                observed_control: None,
                error: Some(error),
            };
            assert(registers.accesses() =~= before + clock_apply_failure_accesses(recovery, pre0, control0));
            assert(clock_apply_failed(plan, recovery, pre0, control0));
            return Err(recovery);
        },
    };
    proof {
        pre0 = pre;
        control0 = control;
    }
    let ghost read_log = registers.accesses();
    assert(read_log =~= before + clock_check_reads(Some(pre0), Some(control0), None));
    if verify_controller_clock(plan, pre, control) {
        assert(program_pre(plan, pre0) =~= Seq::<MmcAccess>::empty());
        assert(program_control(control0) =~= Seq::<MmcAccess>::empty());
        assert(registers.accesses() =~= before + clock_check_reads(Some(pre0), Some(control0), None)
            + program_pre(plan, pre0) + program_control(control0));
        return Ok(ControllerClockReady { plan });
    }
    if pre != planned {
        let written = registers.write32(REG_PRE, planned);
        if let Err(error) = written {
            let recovery = ControllerClockRecovery {
                stage: ControllerClockStage::WritePre,
                plan,
                observed_pre: None,
                observed_control: Some(control),
                error: Some(error),
            };
            assert(registers.accesses() =~= before + clock_apply_failure_accesses(recovery, pre0, control0));
            assert(clock_apply_failed(plan, recovery, pre0, control0));
            return Err(recovery);
        }
        assert(written->Ok_0 == ());
        pre = match registers.read32(REG_PRE) {
            Ok(value) => value,
            Err(error) => {
                let recovery = ControllerClockRecovery {
                    stage: ControllerClockStage::ReadbackPre,
                    plan,
                    observed_pre: None,
                    observed_control: Some(control),
                    error: Some(error),
                };
                assert(registers.accesses() =~= before + clock_apply_failure_accesses(recovery, pre0, control0));
                assert(clock_apply_failed(plan, recovery, pre0, control0));
                return Err(recovery);
            },
        };
        if pre != planned {
            let recovery = ControllerClockRecovery {
                stage: ControllerClockStage::ReadbackPreMismatch,
                plan,
                observed_pre: Some(pre),
                observed_control: Some(control),
                error: None,
            };
            assert(registers.accesses() =~= before + clock_apply_failure_accesses(recovery, pre0, control0));
            assert(clock_apply_failed(plan, recovery, pre0, control0));
            return Err(recovery);
        }
    }
    let ghost pre_log = registers.accesses();
    assert(pre_log =~= read_log + program_pre(plan, pre0));
    if control & CTL_ENABLE_CLOCK == 0 {
        let desired = control | CTL_ENABLE_CLOCK;
        let written = registers.write32(REG_CTL, desired);
        if let Err(error) = written {
            let recovery = ControllerClockRecovery {
                stage: ControllerClockStage::WriteControl,
                plan,
                observed_pre: Some(pre),
                observed_control: None,
                error: Some(error),
            };
            assert(registers.accesses() =~= before + clock_apply_failure_accesses(recovery, pre0, control0));
            assert(clock_apply_failed(plan, recovery, pre0, control0));
            return Err(recovery);
        }
        assert(written->Ok_0 == ());
        control = match registers.read32(REG_CTL) {
            Ok(value) => value,
            Err(error) => {
                let recovery = ControllerClockRecovery {
                    stage: ControllerClockStage::ReadbackControl,
                    plan,
                    observed_pre: Some(pre),
                    observed_control: None,
                    error: Some(error),
                };
                assert(registers.accesses() =~= before + clock_apply_failure_accesses(recovery, pre0, control0));
                assert(clock_apply_failed(plan, recovery, pre0, control0));
                return Err(recovery);
            },
        };
        if control != desired {
            let recovery = ControllerClockRecovery {
                stage: ControllerClockStage::ReadbackControlMismatch,
                plan,
                observed_pre: Some(pre),
                observed_control: Some(control),
                error: None,
            };
            assert(registers.accesses() =~= before + clock_apply_failure_accesses(recovery, pre0, control0));
            assert(clock_apply_failed(plan, recovery, pre0, control0));
            return Err(recovery);
        }
    }
    assert(registers.accesses() =~= pre_log + program_control(control0));
    if verify_controller_clock(plan, pre, control) {
        assert(registers.accesses() =~= before + clock_check_reads(Some(pre0), Some(control0), None)
            + program_pre(plan, pre0) + program_control(control0));
        Ok(ControllerClockReady { plan })
    } else {
        proof {
            let flag = control0 | CTL_ENABLE_CLOCK;
            assert(flag & CTL_ENABLE_CLOCK != 0) by (bit_vector)
                requires
                    flag == control0 | 1u32,
            ;
            assert(false);
        }
        Err(
            ControllerClockRecovery {
                stage: ControllerClockStage::ReadbackControlMismatch,
                plan,
                observed_pre: Some(pre),
                observed_control: Some(control),
                error: None,
            },
        )
    }
}

pub struct HostClockFailure<R> {
    pub recovery: ControllerClockRecovery,
    host: Host<R, Preflighted>,
}

impl<R> HostClockFailure<R> {
    /// The session returned with the failure.
    pub closed spec fn session(self) -> Host<R, Preflighted> {
        self.host
    }

    /// The recovery evidence carried by the failure.
    pub closed spec fn evidence(self) -> ControllerClockRecovery {
        self.recovery
    }

    pub fn into_host(self) -> (host: Host<R, Preflighted>)
        ensures
            host == self.session(),
    {
        self.host
    }
}

impl<R: RegisterIo> HostClockFailure<R> {
    pub fn retry(self, authority: &ControllerClockAuthority, guard: &mut ClockTransactionGuard<'_>) -> (result:
        Result<(Host<R, ClockConfigured>, ControllerClockReady), Self>)
        requires
            self.session().wf(),
        ensures
            match result {
                Ok((host, ready)) => host.wf() && host.polls() == self.session().polls() && ready@
                    == self.evidence().plan,
                Err(failure) => failure.session().wf() && failure.session().polls()
                    == self.session().polls() && failure.evidence().plan == self.evidence().plan
                    && clock_recovery_evidence(failure.evidence()),
            },
    {
        let plan = self.recovery.plan;
        self.host.configure_controller_clock(plan, authority, guard)
    }
}

impl<R: RegisterIo> Host<R, Preflighted> {
    pub fn configure_controller_clock(
        self,
        plan: ControllerClockPlan,
        authority: &ControllerClockAuthority,
        guard: &mut ClockTransactionGuard<'_>,
    ) -> (result: Result<(Host<R, ClockConfigured>, ControllerClockReady), HostClockFailure<R>>)
        requires
            self.wf(),
        ensures
            match result {
                Ok((host, ready)) => host.wf() && host.polls() == self.polls() && ready@ == plan,
                Err(failure) => failure.session().wf() && failure.session().polls()
                    == self.polls() && failure.evidence().plan == plan && clock_recovery_evidence(
                    failure.evidence(),
                ),
            },
    {
        let mut this = self;
        match apply_controller_clock(&mut this.registers, plan, authority, guard) {
            Ok(ready) => Ok((this.change_state(), ready)),
            Err(recovery) => Err(HostClockFailure { recovery, host: this }),
        }
    }
}

/// Response width promised by a non-data MMC command.
#[derive(Debug, Clone, Copy, PartialEq, Eq, Structural)]
pub enum ResponseType {
    NoResponse,
    Short,
    Long,
}

/// Protocol-level checks requested by the command. Only `Unchecked` is
/// currently supported because Linux does not establish CHECK/BUSYEND.
#[derive(Debug, Clone, Copy, PartialEq, Eq, Structural)]
pub enum ResponseValidation {
    Unchecked,
    Crc,
    CrcAndBusy,
}

/// Transfer intent used to reject the unimplemented data path before MMIO.
#[derive(Debug, Clone, Copy, PartialEq, Eq, Structural)]
pub enum CommandTransfer {
    NoData,
    /// Reserved for a future PIO/APBDMA contract; currently rejected.
    Data,
}

/// Failure to construct a command that the current Host can execute.
#[derive(Debug, Clone, Copy, PartialEq, Eq, Structural)]
pub enum CommandDescriptorError {
    InvalidIndex,
    DataUnsupported,
    ResponsePolicyUnsupported,
}

/// Card addressing mode selected by the protocol layer after card discovery.
#[derive(Debug, Clone, Copy, PartialEq, Eq, Structural)]
pub enum ReadAddressing {
    /// SDHC/SDXC and block-addressed MMC cards use the logical block number.
    Block,
    /// Legacy byte-addressed cards use `block * block_size`.
    Byte,
}

/// Requested transport. The Linux driver only supports external DMA.
#[derive(Debug, Clone, Copy, PartialEq, Eq, Structural)]
pub enum ReadTransport {
    Pio,
    ExternalDma,
}

#[derive(Debug, Clone, Copy, PartialEq, Eq, Structural)]
pub enum ReadRequestError {
    ZeroBlocks,
    TooManyBlocks,
    InvalidBlockSize,
    ByteLengthOverflow,
    ArgumentOverflow,
    AddressOverflow,
    UnsupportedBusWidth,
    PioUnsupported,
    BufferLengthMismatch,
}

/// Missing evidence that prevents a deferred read plan from becoming executable.
#[derive(Debug, Clone, Copy, PartialEq, Eq, Structural)]
pub enum ReadActivationBlocker {
    ExternalDmaMapping,
    DmaCoherency,
    DataCompletionIrq,
    ResponseCrcPolicy,
    /// No MMC/APBDMA executor exists yet. This blocker is unconditional.
    ExecutorUnavailable,
}

/// Software evidence inputs only. Setting these flags does not authorize MMIO.
#[derive(Debug, Clone, Copy, Default, PartialEq, Eq, Structural)]
pub struct ReadPathEvidence {
    pub external_dma_mapping: bool,
    pub dma_coherency: bool,
    pub data_completion_irq: bool,
    pub response_crc_policy: bool,
}

/// Validated protocol and buffer geometry for CMD17/CMD18.
#[derive(Debug, Clone, Copy, PartialEq, Eq, Structural)]
pub struct ReadBlockRequest {
    pub start_block: u32,
    pub block_count: u16,
    pub block_size: u16,
    pub byte_length: usize,
    pub command_index: u8,
    pub command_argument: u32,
    pub response: ResponseType,
    pub response_validation: ResponseValidation,
}

/// A block size the controller can transfer: nonzero, at most 0xFFF, dword aligned.
pub open spec fn valid_block_size(block_size: u16) -> bool {
    block_size != 0 && block_size <= 0xFFF && block_size % 4 == 0
}

impl ReadBlockRequest {
    pub fn new(start_block: u32, block_count: u16, block_size: u16, addressing: ReadAddressing) -> (result:
        Result<Self, ReadRequestError>)
        ensures
            match result {
                Ok(request) => {
                    &&& 1 <= block_count <= 0xFFF
                    &&& valid_block_size(block_size)
                    &&& request.start_block == start_block
                    &&& request.block_count == block_count
                    &&& request.block_size == block_size
                    &&& request.byte_length == block_count * block_size
                    &&& request.command_index == if block_count == 1 {
                        17u8
                    } else {
                        18u8
                    }
                    &&& request.command_argument == match addressing {
                        ReadAddressing::Block => start_block as int,
                        ReadAddressing::Byte => start_block * block_size,
                    }
                    &&& request.response == ResponseType::Short
                    &&& request.response_validation == ResponseValidation::Crc
                },
                Err(error) => if block_count == 0 {
                    error == ReadRequestError::ZeroBlocks
                } else if block_count > 0xFFF {
                    error == ReadRequestError::TooManyBlocks
                } else if !valid_block_size(block_size) {
                    error == ReadRequestError::InvalidBlockSize
                } else {
                    addressing == ReadAddressing::Byte && start_block * block_size > u32::MAX
                        && error == ReadRequestError::ArgumentOverflow
                },
            },
    {
        if block_count == 0 {
            return Err(ReadRequestError::ZeroBlocks);
        }
        if block_count as u32 > DCTL_BLOCK_COUNT_MASK {
            return Err(ReadRequestError::TooManyBlocks);
        }
        if block_size == 0 || block_size as u32 > 0xFFF || block_size % 4 != 0 {
            return Err(ReadRequestError::InvalidBlockSize);
        }
        let count = block_count as usize;
        let size = block_size as usize;
        assert(count * size <= 0xFFF * 0xFFF) by (nonlinear_arith)
            requires
                count <= 0xFFF,
                size <= 0xFFF,
        ;
        let byte_length = count * size;
        let command_argument = match addressing {
            ReadAddressing::Block => start_block,
            ReadAddressing::Byte => match start_block.checked_mul(block_size as u32) {
                Some(argument) => argument,
                None => return Err(ReadRequestError::ArgumentOverflow),
            },
        };
        let command_index: u8 = if block_count == 1 {
            17
        } else {
            18
        };
        Ok(
            Self {
                start_block,
                block_count,
                block_size,
                byte_length,
                command_index,
                command_argument,
                response: ResponseType::Short,
                response_validation: ResponseValidation::Crc,
            },
        )
    }
}

/// Register values and blockers for a future external-DMA read executor.
/// These values mirror the Linux setup but are never written by this type.
#[derive(Debug, Clone, Copy, PartialEq, Eq, Structural)]
pub struct PlannedDataWrite {
    pub offset: usize,
    pub value: u32,
}

#[derive(Debug, Clone, Copy, PartialEq, Eq)]
pub struct DeferredReadPlan {
    pub request: ReadBlockRequest,
    /// Linux setup order: DCTL, BSIZE, TIMER. This plan never writes them.
    pub setup_writes: [PlannedDataWrite; 3],
    pub data_register_address: u64,
    pub blockers: [Option<ReadActivationBlocker>; 5],
}

impl DeferredReadPlan {
    pub fn can_execute(&self) -> (r: bool)
        ensures
            !r,
    {
        false
    }

    pub fn blocker_count(&self) -> (count: usize)
        ensures
            count == self.blockers@.filter(|blocker: Option<ReadActivationBlocker>| blocker is Some).len(),
    {
        let mut count: usize = 0;
        let mut i: usize = 0;
        while i < 5
            invariant
                i <= 5,
                self.blockers@.len() == 5,
                count == self.blockers@.subrange(0, i as int).filter(
                    |blocker: Option<ReadActivationBlocker>| blocker is Some,
                ).len(),
                count <= i,
            decreases 5 - i,
        {
            proof {
                let s = self.blockers@;
                assert(s.subrange(0, i as int + 1).drop_last() =~= s.subrange(0, i as int));
                s.subrange(0, i as int + 1).filter_lemma(
                    |blocker: Option<ReadActivationBlocker>| blocker is Some,
                );
                reveal(Seq::filter);
            }
            if self.blockers[i].is_some() {
                count = count + 1;
            }
            i = i + 1;
        }
        assert(self.blockers@.subrange(0, 5) =~= self.blockers@);
        count
    }
}

/// Blockers a read plan carries: each missing piece of evidence in a fixed
/// order, then the unconditional missing executor.
pub open spec fn read_blockers(evidence: ReadPathEvidence) -> Seq<ReadActivationBlocker> {
    (if evidence.external_dma_mapping {
        Seq::empty()
    } else {
        seq![ReadActivationBlocker::ExternalDmaMapping]
    }) + (if evidence.dma_coherency {
        Seq::empty()
    } else {
        seq![ReadActivationBlocker::DmaCoherency]
    }) + (if evidence.data_completion_irq {
        Seq::empty()
    } else {
        seq![ReadActivationBlocker::DataCompletionIrq]
    }) + (if evidence.response_crc_policy {
        Seq::empty()
    } else {
        seq![ReadActivationBlocker::ResponseCrcPolicy]
    }) + seq![ReadActivationBlocker::ExecutorUnavailable]
}

/// The blocker list padded with empty entries to five slots.
pub open spec fn blocker_slots(blockers: Seq<ReadActivationBlocker>) -> Seq<Option<ReadActivationBlocker>> {
    Seq::new(5, |i: int| if i < blockers.len() { Some(blockers[i]) } else { None })
}

/// Data-control register bits selecting the bus width, if supported.
pub open spec fn bus_width_bits(bus_width: u8) -> Option<u32> {
    if bus_width == 1 {
        Some(0u32)
    } else if bus_width == 4 {
        Some(DCTL_WIDE_BUS)
    } else if bus_width == 8 {
        Some(DCTL_8_BIT_BUS)
    } else {
        None
    }
}

/// The data-control bus-width bits name the bus width: a 1-bit bus sets
/// neither width bit, a 4-bit bus only the wide-bus bit, an 8-bit bus only
/// the 8-bit bit; no other width is supported. Whatever the block count,
/// the data-control word of a deferred read carries exactly those bits.
pub proof fn lemma_data_control_names_bus_width(bus_width: u8, block_count: u16)
    ensures
        bus_width_bits(bus_width) is Some <==> (bus_width == 1 || bus_width == 4 || bus_width == 8),
        bus_width_bits(bus_width) matches Some(bits) ==> {
            let word = block_count as u32 | DCTL_START | DCTL_EXTERNAL_DMA | bits;
            &&& (word & DCTL_WIDE_BUS != 0) == (bus_width == 4)
            &&& (word & DCTL_8_BIT_BUS != 0) == (bus_width == 8)
            &&& word & 0xFFFF == block_count as u32 | DCTL_START | DCTL_EXTERNAL_DMA
        },
{
    if let Some(bits) = bus_width_bits(bus_width) {
        let count = block_count as u32;
        assert(count <= 0xFFFF);
        let wide = bus_width == 4;
        let eight = bus_width == 8;
        assert(bits == if wide {
            0x1_0000u32
        } else if eight {
            0x400_0000u32
        } else {
            0u32
        });
        assert(count <= 0xFFFF ==> {
            let b = if wide {
                0x1_0000u32
            } else if eight {
                0x400_0000u32
            } else {
                0u32
            };
            let word = count | 0x4000u32 | 0x8000u32 | b;
            &&& (word & 0x1_0000u32 != 0) == wide
            &&& (word & 0x400_0000u32 != 0) == (eight && !wide)
            &&& word & 0xFFFFu32 == count | 0x4000u32 | 0x8000u32
        }) by (bit_vector);
    }
}

/// Exclusive CPU borrow retained while a read is deferred. No method exposes
/// device ownership or starts hardware; cancel returns the caller's buffer.
pub struct DeferredRead<'a> {
    plan: DeferredReadPlan,
    buffer: &'a mut [u8],
}

impl<'a> DeferredRead<'a> {
    pub closed spec fn planned(&self) -> DeferredReadPlan {
        self.plan
    }

    pub closed spec fn contents(&self) -> Seq<u8> {
        self.buffer@
    }

    pub fn plan(&self) -> (r: &DeferredReadPlan)
        ensures
            *r == self.planned(),
    {
        &self.plan
    }

    pub fn cancel(self) -> (buffer: &'a mut [u8])
        ensures
            buffer@ == self.contents(),
    {
        self.buffer
    }
}

fn blocker_at(missing: &Vec<ReadActivationBlocker>, index: usize) -> (slot: Option<ReadActivationBlocker>)
    ensures
        slot == (if index < missing@.len() {
            Some(missing@[index as int])
        } else {
            None
        }),
{
    if index < missing.len() {
        Some(missing[index])
    } else {
        None
    }
}

pub fn prepare_deferred_read<'a>(
    bring_up: BringUpPlan,
    request: ReadBlockRequest,
    transport: ReadTransport,
    evidence: ReadPathEvidence,
    buffer: &'a mut [u8],
) -> (result: Result<DeferredRead<'a>, ReadRequestError>)
    ensures
        match result {
            Ok(deferred) => {
                let plan = deferred.planned();
                &&& transport == ReadTransport::ExternalDma
                &&& old(buffer)@.len() == request.byte_length
                &&& bus_width_bits(bring_up.bus_width) is Some
                &&& bring_up.controller_mmio.base + REG_DATA <= usize::MAX
                &&& deferred.contents() == old(buffer)@
                &&& plan.request == request
                &&& plan.setup_writes[0] == (PlannedDataWrite {
                    offset: REG_DCTL,
                    value: request.block_count as u32 | DCTL_START | DCTL_EXTERNAL_DMA
                        | bus_width_bits(bring_up.bus_width)->Some_0,
                })
                &&& plan.setup_writes[1] == (PlannedDataWrite {
                    offset: REG_BSIZE,
                    value: request.block_size as u32,
                })
                &&& plan.setup_writes[2] == (PlannedDataWrite {
                    offset: REG_TIMER,
                    value: u32::MAX,
                })
                &&& plan.data_register_address == bring_up.controller_mmio.base + REG_DATA
                &&& plan.blockers@ == blocker_slots(read_blockers(evidence))
                &&& (plan.setup_writes[0].value & DCTL_WIDE_BUS != 0) == (bring_up.bus_width == 4)
                &&& (plan.setup_writes[0].value & DCTL_8_BIT_BUS != 0) == (bring_up.bus_width == 8)
                &&& (bring_up.bus_width == 1 || bring_up.bus_width == 4 || bring_up.bus_width == 8)
            },
            Err(error) => if transport == ReadTransport::Pio {
                error == ReadRequestError::PioUnsupported
            } else if old(buffer)@.len() != request.byte_length {
                error == ReadRequestError::BufferLengthMismatch
            } else if bus_width_bits(bring_up.bus_width) is None {
                error == ReadRequestError::UnsupportedBusWidth
            } else {
                bring_up.controller_mmio.base + REG_DATA > usize::MAX && error
                    == ReadRequestError::AddressOverflow
            },
        },
{
    if transport == ReadTransport::Pio {
        return Err(ReadRequestError::PioUnsupported);
    }
    if buffer.len() != request.byte_length {
        return Err(ReadRequestError::BufferLengthMismatch);
    }
    let bus_width: u32 = if bring_up.bus_width == 1 {
        0
    } else if bring_up.bus_width == 4 {
        DCTL_WIDE_BUS
    } else if bring_up.bus_width == 8 {
        DCTL_8_BIT_BUS
    } else {
        return Err(ReadRequestError::UnsupportedBusWidth);
    };
    let mut missing: Vec<ReadActivationBlocker> = Vec::new();
    if !evidence.external_dma_mapping {
        missing.push(ReadActivationBlocker::ExternalDmaMapping);
    }
    if !evidence.dma_coherency {
        missing.push(ReadActivationBlocker::DmaCoherency);
    }
    if !evidence.data_completion_irq {
        missing.push(ReadActivationBlocker::DataCompletionIrq);
    }
    if !evidence.response_crc_policy {
        missing.push(ReadActivationBlocker::ResponseCrcPolicy);
    }
    missing.push(ReadActivationBlocker::ExecutorUnavailable);
    assert(missing@ =~= read_blockers(evidence));
    let blockers = [
        blocker_at(&missing, 0),
        blocker_at(&missing, 1),
        blocker_at(&missing, 2),
        blocker_at(&missing, 3),
        blocker_at(&missing, 4),
    ];
    assert(blockers@ =~= blocker_slots(read_blockers(evidence)));
    let data_register = match bring_up.controller_mmio.base.checked_add(REG_DATA) {
        Some(address) => address,
        None => return Err(ReadRequestError::AddressOverflow),
    };
    let data_control = request.block_count as u32 | DCTL_START | DCTL_EXTERNAL_DMA | bus_width;
    proof {
        lemma_data_control_names_bus_width(bring_up.bus_width, request.block_count);
    }
    let plan = DeferredReadPlan {
        request,
        setup_writes: [
            PlannedDataWrite { offset: REG_DCTL, value: data_control },
            PlannedDataWrite { offset: REG_BSIZE, value: request.block_size as u32 },
            PlannedDataWrite { offset: REG_TIMER, value: u32::MAX },
        ],
        data_register_address: data_register as u64,
        blockers,
    };
    Ok(DeferredRead { plan, buffer })
}

/// Three independent completion facts required before a read buffer may be
/// returned to CPU ownership.
#[derive(Debug, Clone, Copy, Default, PartialEq, Eq, Structural)]
pub struct ReadCompletionEvidence {
    pub command_response_validated: bool,
    pub data_finished: bool,
    pub dma_finished: bool,
}

#[derive(Debug, Clone, Copy, PartialEq, Eq, Structural)]
pub enum ReadCommandFailure {
    Timeout,
    ResponseCrc,
    Io,
}

#[derive(Debug, Clone, Copy, PartialEq, Eq, Structural)]
pub enum ReadDmaFailure {
    Start,
    Completion,
    Stop,
}

#[derive(Debug, Clone, Copy, PartialEq, Eq, Structural)]
pub enum ReadCompletionFailure {
    Command(ReadCommandFailure),
    DataTimeout,
    ReceiveCrc,
    TransmitCrc,
    ProgramError,
    UnknownInterrupt(u32),
    Dma(ReadDmaFailure),
    DuplicateCommand,
    DuplicateData,
    DuplicateDma,
}

/// All three completion facts have been recorded.
pub open spec fn evidence_complete(evidence: ReadCompletionEvidence) -> bool {
    evidence.command_response_validated && evidence.data_finished && evidence.dma_finished
}

/// Pure software tracker for future MMC/data/DMA completion orchestration.
///
/// There is no public constructor. The future executor must first remove the
/// unconditional deferred-plan blocker and transfer an owned DMA resource.
pub struct ReadCompletionTracker<B> {
    plan: DeferredReadPlan,
    buffer: B,
    evidence: ReadCompletionEvidence,
}

pub struct ReadCompleted<B> {
    pub plan: DeferredReadPlan,
    pub evidence: ReadCompletionEvidence,
    buffer: B,
}

impl<B> ReadCompleted<B> {
    pub closed spec fn finished_plan(self) -> DeferredReadPlan {
        self.plan
    }

    pub closed spec fn facts(self) -> ReadCompletionEvidence {
        self.evidence
    }

    pub closed spec fn resource(self) -> B {
        self.buffer
    }

    pub fn into_buffer(self) -> (buffer: B)
        ensures
            buffer == self.resource(),
    {
        self.buffer
    }
}

/// Failed transfer isolation. The buffer is deliberately never dropped or
/// exposed by production methods because device ownership may be uncertain.
pub struct ReadCompletionRecovery<B> {
    pub plan: DeferredReadPlan,
    pub evidence: ReadCompletionEvidence,
    pub failure: ReadCompletionFailure,
    buffer: ManuallyDrop<B>,
}

impl<B> ReadCompletionRecovery<B> {
    pub closed spec fn failed_plan(self) -> DeferredReadPlan {
        self.plan
    }

    pub closed spec fn facts(self) -> ReadCompletionEvidence {
        self.evidence
    }

    pub closed spec fn cause(self) -> ReadCompletionFailure {
        self.failure
    }

    /// The buffer isolated until recovery completes.
    pub closed spec fn held(self) -> B {
        self.buffer@
    }
}

pub enum ReadCompletionProgress<B> {
    Pending(ReadCompletionTracker<B>),
    Completed(ReadCompleted<B>),
    RecoveryRequired(ReadCompletionRecovery<B>),
}

impl<B> ReadCompletionTracker<B> {
    pub closed spec fn tracked_plan(self) -> DeferredReadPlan {
        self.plan
    }

    pub closed spec fn facts(self) -> ReadCompletionEvidence {
        self.evidence
    }

    pub closed spec fn resource(self) -> B {
        self.buffer
    }
}

/// The tracker settles: complete facts finish the read, otherwise it waits.
pub open spec fn settled<B>(
    progress: ReadCompletionProgress<B>,
    plan: DeferredReadPlan,
    evidence: ReadCompletionEvidence,
    buffer: B,
) -> bool {
    if evidence_complete(evidence) {
        progress matches ReadCompletionProgress::Completed(done) && done.finished_plan() == plan
            && done.facts() == evidence && done.resource() == buffer
    } else {
        progress matches ReadCompletionProgress::Pending(tracker) && tracker.tracked_plan() == plan
            && tracker.facts() == evidence && tracker.resource() == buffer
    }
}

/// The tracker isolated its resource for recovery because of `failure`.
pub open spec fn isolated<B>(
    progress: ReadCompletionProgress<B>,
    plan: DeferredReadPlan,
    evidence: ReadCompletionEvidence,
    failure: ReadCompletionFailure,
    buffer: B,
) -> bool {
    progress matches ReadCompletionProgress::RecoveryRequired(recovery) && recovery.failed_plan()
        == plan && recovery.facts() == evidence && recovery.cause() == failure && recovery.held()
        == buffer
}

/// Failure an interrupt snapshot reports, errors before unknown bits.
pub open spec fn interrupt_failure(interrupts: u32) -> Option<ReadCompletionFailure> {
    if interrupts & INT_DATA_TIMEOUT != 0 {
        Some(ReadCompletionFailure::DataTimeout)
    } else if interrupts & INT_RECEIVE_CRC != 0 {
        Some(ReadCompletionFailure::ReceiveCrc)
    } else if interrupts & INT_TRANSMIT_CRC != 0 {
        Some(ReadCompletionFailure::TransmitCrc)
    } else if interrupts & INT_PROGRAM_ERROR != 0 {
        Some(ReadCompletionFailure::ProgramError)
    } else if interrupts & !INT_CLEAR != 0 {
        Some(ReadCompletionFailure::UnknownInterrupt(interrupts & !INT_CLEAR))
    } else {
        None
    }
}

impl<B> ReadCompletionTracker<B> {
    pub fn evidence(&self) -> (evidence: ReadCompletionEvidence)
        ensures
            evidence == self.facts(),
    {
        self.evidence
    }

    fn finish(self) -> (progress: ReadCompletionProgress<B>)
        ensures
            settled(progress, self.plan, self.evidence, self.buffer),
    {
        if self.evidence.command_response_validated && self.evidence.data_finished
            && self.evidence.dma_finished {
            ReadCompletionProgress::Completed(
                ReadCompleted { plan: self.plan, evidence: self.evidence, buffer: self.buffer },
            )
        } else {
            ReadCompletionProgress::Pending(self)
        }
    }

    fn fail(self, failure: ReadCompletionFailure) -> (progress: ReadCompletionProgress<B>)
        ensures
            isolated(progress, self.plan, self.evidence, failure, self.buffer),
    {
        ReadCompletionProgress::RecoveryRequired(
            ReadCompletionRecovery {
                plan: self.plan,
                evidence: self.evidence,
                failure,
                buffer: ManuallyDrop::new(self.buffer),
            },
        )
    }

    /// Record a command response that has already passed its required policy.
    /// This method performs no command MMIO and cannot validate CRC itself.
    pub fn command_validated(self) -> (progress: ReadCompletionProgress<B>)
        ensures
            if has_fact(self.facts(), CompletionFact::Command) {
                isolated(
                    progress,
                    self.tracked_plan(),
                    self.facts(),
                    ReadCompletionFailure::DuplicateCommand,
                    self.resource(),
                )
            } else {
                settled(
                    progress,
                    self.tracked_plan(),
                    with_fact(self.facts(), CompletionFact::Command),
                    self.resource(),
                )
            },
    {
        let mut this = self;
        if this.evidence.command_response_validated {
            return this.fail(ReadCompletionFailure::DuplicateCommand);
        }
        this.evidence.command_response_validated = true;
        this.finish()
    }

    pub fn command_failed(self, failure: ReadCommandFailure) -> (progress: ReadCompletionProgress<
        B,
    >)
        ensures
            isolated(
                progress,
                self.tracked_plan(),
                self.facts(),
                ReadCompletionFailure::Command(failure),
                self.resource(),
            ),
    {
        self.fail(ReadCompletionFailure::Command(failure))
    }

    /// Record one already-observed controller interrupt snapshot. Error bits
    /// take priority over data completion when they appear together.
    pub fn controller_interrupt(self, interrupts: u32) -> (progress: ReadCompletionProgress<B>)
        ensures
            match interrupt_failure(interrupts) {
                Some(failure) => isolated(progress, self.tracked_plan(), self.facts(), failure, self.resource()),
                None => if interrupts & INT_DATA_FINISHED != 0 {
                    if has_fact(self.facts(), CompletionFact::Data) {
                        isolated(
                            progress,
                            self.tracked_plan(),
                            self.facts(),
                            ReadCompletionFailure::DuplicateData,
                            self.resource(),
                        )
                    } else {
                        settled(
                            progress,
                            self.tracked_plan(),
                            with_fact(self.facts(), CompletionFact::Data),
                            self.resource(),
                        )
                    }
                } else {
                    settled(progress, self.tracked_plan(), self.facts(), self.resource())
                },
            },
    {
        let mut this = self;
        let unknown = interrupts & !INT_CLEAR;
        if interrupts & INT_DATA_TIMEOUT != 0 {
            return this.fail(ReadCompletionFailure::DataTimeout);
        }
        if interrupts & INT_RECEIVE_CRC != 0 {
            return this.fail(ReadCompletionFailure::ReceiveCrc);
        }
        if interrupts & INT_TRANSMIT_CRC != 0 {
            return this.fail(ReadCompletionFailure::TransmitCrc);
        }
        if interrupts & INT_PROGRAM_ERROR != 0 {
            return this.fail(ReadCompletionFailure::ProgramError);
        }
        if unknown != 0 {
            return this.fail(ReadCompletionFailure::UnknownInterrupt(unknown));
        }
        if interrupts & INT_DATA_FINISHED != 0 {
            if this.evidence.data_finished {
                return this.fail(ReadCompletionFailure::DuplicateData);
            }
            this.evidence.data_finished = true;
        }
        this.finish()
    }

    pub fn dma_completed(self) -> (progress: ReadCompletionProgress<B>)
        ensures
            if has_fact(self.facts(), CompletionFact::Dma) {
                isolated(
                    progress,
                    self.tracked_plan(),
                    self.facts(),
                    ReadCompletionFailure::DuplicateDma,
                    self.resource(),
                )
            } else {
                settled(
                    progress,
                    self.tracked_plan(),
                    with_fact(self.facts(), CompletionFact::Dma),
                    self.resource(),
                )
            },
    {
        let mut this = self;
        if this.evidence.dma_finished {
            return this.fail(ReadCompletionFailure::DuplicateDma);
        }
        this.evidence.dma_finished = true;
        this.finish()
    }

    pub fn dma_failed(self, failure: ReadDmaFailure) -> (progress: ReadCompletionProgress<B>)
        ensures
            isolated(
                progress,
                self.tracked_plan(),
                self.facts(),
                ReadCompletionFailure::Dma(failure),
                self.resource(),
            ),
    {
        self.fail(ReadCompletionFailure::Dma(failure))
    }
}

/// One of the three facts a deferred read needs before it completes.
#[derive(Debug, Clone, Copy, PartialEq, Eq, Structural)]
pub enum CompletionFact {
    /// `command_validated`
    Command,
    /// `controller_interrupt` with the data-finished bit
    Data,
    /// `dma_completed`
    Dma,
}

/// The evidence already records `fact`; recording it again is refused as a
/// duplicate.
pub open spec fn has_fact(evidence: ReadCompletionEvidence, fact: CompletionFact) -> bool {
    match fact {
        CompletionFact::Command => evidence.command_response_validated,
        CompletionFact::Data => evidence.data_finished,
        CompletionFact::Dma => evidence.dma_finished,
    }
}

/// The evidence after recording `fact`, as `command_validated`,
/// `controller_interrupt` and `dma_completed` record it.
pub open spec fn with_fact(evidence: ReadCompletionEvidence, fact: CompletionFact) -> ReadCompletionEvidence {
    match fact {
        CompletionFact::Command => ReadCompletionEvidence {
            command_response_validated: true,
            ..evidence
        },
        CompletionFact::Data => ReadCompletionEvidence { data_finished: true, ..evidence },
        CompletionFact::Dma => ReadCompletionEvidence { dma_finished: true, ..evidence },
    }
}

/// From no evidence, the three facts recorded in any order are each new
/// when recorded; the read is still pending after the first two and
/// completes, with every fact set, at the third; any of them recorded again
/// afterwards is a duplicate.
pub proof fn lemma_any_order_completes(
    first: CompletionFact,
    second: CompletionFact,
    third: CompletionFact,
)
    requires
        first != second,
        second != third,
        first != third,
    ensures
        ({
            let none = ReadCompletionEvidence {
                command_response_validated: false,
                data_finished: false,
                dma_finished: false,
            };
            let one = with_fact(none, first);
            let two = with_fact(one, second);
            let all = with_fact(two, third);
            &&& !has_fact(none, first) && !has_fact(one, second) && !has_fact(two, third)
            &&& !evidence_complete(one) && !evidence_complete(two)
            &&& evidence_complete(all)
            &&& all == (ReadCompletionEvidence {
                command_response_validated: true,
                data_finished: true,
                dma_finished: true,
            })
            &&& has_fact(all, first) && has_fact(all, second) && has_fact(all, third)
        }),
{
}

/// Private proof placeholder produced only after an APBDMA session reaches its
/// quiesced state.
pub struct ReadDmaQuiescedEvidence {
    _private: (),
}

/// The DMA side of a read once its session is quiesced: finishing its cache
/// synchronization gives the CPU-owned mappings `C`, or hands the handoff
/// back with the error so that it can be retried.
pub trait QuiescedDmaHandoff<C>: Sized {
    fn finish(self) -> Result<C, (Self, DriverError)>;
}

/// Retryable synchronizer paired with exactly one DMA-quiesced evidence
/// token. It owns the handoff until cache synchronization gives CPU-owned
/// mappings.
pub struct ReadApbdmaRecoverySync<Q, C> {
    handoff: Option<Q>,
    cpu_owned: Option<C>,
}

impl ReadDmaQuiescedEvidence {
    /// Bind a quiesced DMA handoff to the evidence that records it.
    pub fn bind_apbdma_handoff<Q: QuiescedDmaHandoff<C>, C>(handoff: Q) -> (bound: (
        Self,
        ReadApbdmaRecoverySync<Q, C>,
    ))
        ensures
            bound.1.holds_handoff(),
            !bound.1.holds_cpu_owned(),
    {
        (Self { _private: () }, ReadApbdmaRecoverySync { handoff: Some(handoff), cpu_owned: None })
    }
}

impl<Q: QuiescedDmaHandoff<C>, C> ReadApbdmaRecoverySync<Q, C> {
    /// The quiesced handoff is still held, not yet synchronized.
    pub closed spec fn holds_handoff(&self) -> bool {
        self.handoff is Some
    }

    /// The CPU-owned mappings are held.
    pub closed spec fn holds_cpu_owned(&self) -> bool {
        self.cpu_owned is Some
    }

    /// Finish the handoff's cache synchronization once: refused once it is
    /// done or when no handoff is held; a failed finish keeps the handoff
    /// for a retry.
    pub fn synchronize(&mut self) -> (result: Result<(), DriverError>)
        ensures
            old(self).holds_cpu_owned() || !old(self).holds_handoff() ==> result
                == Err::<(), DriverError>(DriverError::InvalidParam) && final(self).holds_handoff()
                == old(self).holds_handoff() && final(self).holds_cpu_owned()
                == old(self).holds_cpu_owned(),
            !old(self).holds_cpu_owned() && old(self).holds_handoff() ==> match result {
                Ok(()) => final(self).holds_cpu_owned() && !final(self).holds_handoff(),
                Err(_) => final(self).holds_handoff() && !final(self).holds_cpu_owned(),
            },
    {
        if self.cpu_owned.is_some() {
            return Err(DriverError::InvalidParam);
        }
        let handoff = match self.handoff.take() {
            Some(handoff) => handoff,
            None => return Err(DriverError::InvalidParam),
        };
        match handoff.finish() {
            Ok(cpu_owned) => {
                self.cpu_owned = Some(cpu_owned);
                Ok(())
            },
            Err((handoff, error)) => {
                self.handoff = Some(handoff);
                Err(error)
            },
        }
    }

    pub fn into_cpu_owned(self) -> (owned: Option<C>)
        ensures
            owned is Some == self.holds_cpu_owned(),
    {
        self.cpu_owned
    }
}

impl<B, Q: QuiescedDmaHandoff<C>, C> ReadRecoverySync<B> for ReadApbdmaRecoverySync<Q, C> {
    fn sync_for_cpu(&mut self, _buffer: &mut B) -> Result<(), DriverError> {
        self.synchronize()
    }
}

#[derive(Debug, Clone, Copy, PartialEq, Eq, Structural)]
pub enum ReadCombinedRecoveryError {
    MmcStillActive,
    MmcUnknownInterrupt(u32),
    MmcInterruptStillPending(u32),
    MmcCommandRegistersDirty,
    DuplicateMmcEvidence,
    DuplicateDmaEvidence,
    MmcEvidenceMissing,
    DmaEvidenceMissing,
    SyncForCpu(DriverError),
}

/// Cache/ownership operation performed only after both hardware sides are
/// quiesced. A real implementation must delegate to the DMA mapping backend.
pub trait ReadRecoverySync<B> {
    fn sync_for_cpu(&mut self, buffer: &mut B) -> Result<(), DriverError>;
}

/// Combination of a failed MMC transfer resource and two independent quiesce
/// gates. The resource remains manually isolated until cache sync succeeds.
pub struct ReadCombinedRecovery<B> {
    plan: DeferredReadPlan,
    completion_failure: ReadCompletionFailure,
    completion_evidence: ReadCompletionEvidence,
    mmc_quiesced: bool,
    dma_quiesced: bool,
    buffer: ManuallyDrop<B>,
}

pub struct ReadCombinedRecoveryFailure<B> {
    pub error: ReadCombinedRecoveryError,
    pub recovery: ReadCombinedRecovery<B>,
}

pub struct ReadRecovered<B> {
    pub plan: DeferredReadPlan,
    pub original_failure: ReadCompletionFailure,
    pub completion_evidence: ReadCompletionEvidence,
    buffer: B,
}

impl<B> ReadRecovered<B> {
    pub closed spec fn recovered_plan(self) -> DeferredReadPlan {
        self.plan
    }

    pub closed spec fn cause(self) -> ReadCompletionFailure {
        self.original_failure
    }

    pub closed spec fn facts(self) -> ReadCompletionEvidence {
        self.completion_evidence
    }

    /// The buffer handed back to the CPU.
    pub closed spec fn held_buffer(self) -> B {
        self.buffer
    }

    pub fn into_buffer(self) -> (buffer: B)
        ensures
            buffer == self.held_buffer(),
    {
        self.buffer
    }
}

/// Why a quiesced-controller readback cannot count as MMC quiescence.
pub open spec fn mmc_quiesce_error(
    before: CommandPostSnapshot,
    after: CommandPostSnapshot,
) -> Option<ReadCombinedRecoveryError> {
    if !controller_idle(after.command_status, after.data_status) {
        Some(ReadCombinedRecoveryError::MmcStillActive)
    } else if (before.interrupts | after.interrupts) & !INT_CLEAR != 0 {
        Some(
            ReadCombinedRecoveryError::MmcUnknownInterrupt(
                (before.interrupts | after.interrupts) & !INT_CLEAR,
            ),
        )
    } else if after.interrupts != 0 {
        Some(ReadCombinedRecoveryError::MmcInterruptStillPending(after.interrupts))
    } else if after.argument != 0 || after.control != 0 {
        Some(ReadCombinedRecoveryError::MmcCommandRegistersDirty)
    } else {
        None
    }
}

impl<B> ReadCombinedRecovery<B> {
    pub closed spec fn pending_plan(self) -> DeferredReadPlan {
        self.plan
    }

    pub closed spec fn cause(self) -> ReadCompletionFailure {
        self.completion_failure
    }

    pub closed spec fn facts(self) -> ReadCompletionEvidence {
        self.completion_evidence
    }

    pub closed spec fn mmc_gate(self) -> bool {
        self.mmc_quiesced
    }

    /// Both hold the same plan, cause, evidence and buffer.
    pub closed spec fn same_resource(self, other: Self) -> bool {
        &&& self.plan == other.plan
        &&& self.completion_failure == other.completion_failure
        &&& self.completion_evidence == other.completion_evidence
        &&& self.buffer == other.buffer
    }

    pub closed spec fn dma_gate(self) -> bool {
        self.dma_quiesced
    }

    pub fn mmc_quiesced(&self) -> (r: bool)
        ensures
            r == self.mmc_gate(),
    {
        self.mmc_quiesced
    }

    pub fn dma_quiesced(&self) -> (r: bool)
        ensures
            r == self.dma_gate(),
    {
        self.dma_quiesced
    }

    fn failure(self, error: ReadCombinedRecoveryError) -> (failure: ReadCombinedRecoveryFailure<B>)
        ensures
            failure.error == error,
            failure.recovery == self,
    {
        ReadCombinedRecoveryFailure { error, recovery: self }
    }

    /// Record the snapshot before W1C cleanup and the verified readback after
    /// cleanup. This method does not itself perform MMIO.
    pub fn record_mmc_quiesced(self, before: CommandPostSnapshot, after: CommandPostSnapshot) -> (result:
        Result<Self, ReadCombinedRecoveryFailure<B>>)
        ensures
            match result {
                Ok(recovery) => !self.mmc_gate() && mmc_quiesce_error(before, after) is None
                    && recovery.mmc_gate() && recovery.dma_gate() == self.dma_gate()
                    && recovery.same_resource(self),
                Err(failure) => failure.recovery == self && if self.mmc_gate() {
                    failure.error == ReadCombinedRecoveryError::DuplicateMmcEvidence
                } else {
                    mmc_quiesce_error(before, after) == Some(failure.error)
                },
            },
    {
        if self.mmc_quiesced {
            return Err(self.failure(ReadCombinedRecoveryError::DuplicateMmcEvidence));
        }
        if after.command_status & CSTS_ON != 0 || after.data_status & DSTS_ACTIVE != 0 {
            return Err(self.failure(ReadCombinedRecoveryError::MmcStillActive));
        }
        let unknown = (before.interrupts | after.interrupts) & !INT_CLEAR;
        if unknown != 0 {
            return Err(self.failure(ReadCombinedRecoveryError::MmcUnknownInterrupt(unknown)));
        }
        if after.interrupts != 0 {
            return Err(
                self.failure(ReadCombinedRecoveryError::MmcInterruptStillPending(after.interrupts)),
            );
        }
        if after.argument != 0 || after.control != 0 {
            return Err(self.failure(ReadCombinedRecoveryError::MmcCommandRegistersDirty));
        }
        let mut this = self;
        this.mmc_quiesced = true;
        Ok(this)
    }

    pub fn record_dma_quiesced(self, _evidence: ReadDmaQuiescedEvidence) -> (result: Result<
        Self,
        ReadCombinedRecoveryFailure<B>,
    >)
        ensures
            match result {
                Ok(recovery) => !self.dma_gate() && recovery.dma_gate() && recovery.mmc_gate()
                    == self.mmc_gate() && recovery.same_resource(self),
                Err(failure) => self.dma_gate() && failure.recovery == self && failure.error
                    == ReadCombinedRecoveryError::DuplicateDmaEvidence,
            },
    {
        if self.dma_quiesced {
            return Err(self.failure(ReadCombinedRecoveryError::DuplicateDmaEvidence));
        }
        let mut this = self;
        this.dma_quiesced = true;
        Ok(this)
    }

    /// Return the resource to the CPU once both sides are quiesced and the
    /// synchronizer has made it coherent.
    pub fn sync_for_cpu<S: ReadRecoverySync<B>>(self, synchronizer: &mut S) -> (result: Result<
        ReadRecovered<B>,
        ReadCombinedRecoveryFailure<B>,
    >)
        ensures
            match result {
                Ok(recovered) => self.mmc_gate() && self.dma_gate() && recovered.recovered_plan()
                    == self.pending_plan() && recovered.cause() == self.cause()
                    && recovered.facts() == self.facts(),
                Err(failure) => if !self.mmc_gate() {
                    failure.error == ReadCombinedRecoveryError::MmcEvidenceMissing
                        && failure.recovery == self
                } else if !self.dma_gate() {
                    failure.error == ReadCombinedRecoveryError::DmaEvidenceMissing
                        && failure.recovery == self
                } else {
                    failure.error is SyncForCpu && failure.recovery.pending_plan()
                        == self.pending_plan() && failure.recovery.cause() == self.cause()
                        && failure.recovery.facts() == self.facts() && failure.recovery.mmc_gate()
                        && failure.recovery.dma_gate()
                },
            },
            !(self.mmc_gate() && self.dma_gate()) ==> *final(synchronizer) == *old(synchronizer),
    {
        if !self.mmc_quiesced {
            return Err(self.failure(ReadCombinedRecoveryError::MmcEvidenceMissing));
        }
        if !self.dma_quiesced {
            return Err(self.failure(ReadCombinedRecoveryError::DmaEvidenceMissing));
        }
        let ReadCombinedRecovery {
            plan,
            completion_failure,
            completion_evidence,
            mmc_quiesced,
            dma_quiesced,
            buffer,
        } = self;
        let mut inner = ManuallyDrop::into_inner(buffer);
        match synchronizer.sync_for_cpu(&mut inner) {
            Ok(()) => Ok(
                ReadRecovered {
                    plan,
                    original_failure: completion_failure,
                    completion_evidence,
                    buffer: inner,
                },
            ),
            Err(error) => Err(
                ReadCombinedRecoveryFailure {
                    error: ReadCombinedRecoveryError::SyncForCpu(error),
                    recovery: ReadCombinedRecovery {
                        plan,
                        completion_failure,
                        completion_evidence,
                        mmc_quiesced,
                        dma_quiesced,
                        buffer: ManuallyDrop::new(inner),
                    },
                },
            ),
        }
    }
}

/// A prevalidated command contract. Invalid and data-bearing commands cannot
/// reach the Host MMIO method.
#[derive(Debug, Clone, Copy, PartialEq, Eq, Structural)]
pub struct CommandDescriptor {
    index: u8,
    argument: u32,
    response: ResponseType,
}

impl CommandDescriptor {
    pub closed spec fn command_index(self) -> u8 {
        self.index
    }

    pub closed spec fn command_argument(self) -> u32 {
        self.argument
    }

    pub closed spec fn response_type(self) -> ResponseType {
        self.response
    }

    /// Validate the command index and reject all data-bearing or unsupported
    /// response-policy requests before the Host can perform MMIO.
    pub fn new(
        index: u8,
        argument: u32,
        response: ResponseType,
        validation: ResponseValidation,
        transfer: CommandTransfer,
    ) -> (result: Result<Self, CommandDescriptorError>)
        ensures
            match result {
                Ok(command) => index <= 63 && transfer == CommandTransfer::NoData && validation
                    == ResponseValidation::Unchecked && command.command_index() == index
                    && command.command_argument() == argument && command.response_type()
                    == response,
                Err(error) => if index > 63 {
                    error == CommandDescriptorError::InvalidIndex
                } else if transfer != CommandTransfer::NoData {
                    error == CommandDescriptorError::DataUnsupported
                } else {
                    validation != ResponseValidation::Unchecked && error
                        == CommandDescriptorError::ResponsePolicyUnsupported
                },
            },
    {
        if index > 63 {
            return Err(CommandDescriptorError::InvalidIndex);
        }
        if transfer != CommandTransfer::NoData {
            return Err(CommandDescriptorError::DataUnsupported);
        }
        if validation != ResponseValidation::Unchecked {
            return Err(CommandDescriptorError::ResponsePolicyUnsupported);
        }
        Ok(Self { index, argument, response })
    }
}

/// Response words read according to the validated descriptor contract.
#[derive(Debug, Clone, Copy, PartialEq, Eq)]
pub enum CommandResponse {
    NoResponse,
    Short(u32),
    /// RSP0 through RSP3 in register-offset order.
    Long([u32; 4]),
}

/// Maximum number of individual interrupt polls retained per command trace.
pub const COMMAND_TRACE_CAPACITY: usize = 8;

/// Terminal software classification recorded for one command attempt.
#[derive(Debug, Clone, Copy, PartialEq, Eq, Structural)]
pub enum CommandTraceOutcome {
    InFlight,
    Completed,
    Failed(CommandStage),
}

/// Bounded software evidence captured from accesses already performed by one
/// command. It is diagnostic evidence, never response-policy authorization.
#[derive(Debug, Clone, Copy, PartialEq, Eq)]
pub struct CommandTrace {
    pub command_index: u8,
    pub argument: u32,
    pub response: ResponseType,
    pub validation: ResponseValidation,
    pub programmed_control: Option<u32>,
    pub interrupt_samples: [u32; 8],
    pub interrupt_sample_count: u8,
    pub dropped_interrupt_samples: u32,
    pub interrupt_union: u32,
    pub response_read_mask: u8,
    pub cleanup_argument_written: bool,
    pub cleanup_control_written: bool,
    pub outcome: CommandTraceOutcome,
}

/// Control register value that starts `command` as a host command.
pub open spec fn command_control(command: CommandDescriptor) -> u32 {
    let base = command.command_index() as u32 | CCTL_HOST | CCTL_START;
    match command.response_type() {
        ResponseType::NoResponse => base,
        ResponseType::Short => base | CCTL_WAIT_RESPONSE,
        ResponseType::Long => base | CCTL_WAIT_RESPONSE | CCTL_LONG_RESPONSE,
    }
}

/// Response registers that a completed command of this type reads.
pub open spec fn response_mask(response: ResponseType) -> u8 {
    match response {
        ResponseType::NoResponse => 0,
        ResponseType::Short => 1,
        ResponseType::Long => 0xf,
    }
}

/// The trace identifies `command` and is bounded.
pub open spec fn trace_of(trace: CommandTrace, command: CommandDescriptor) -> bool {
    &&& trace.command_index == command.command_index()
    &&& trace.argument == command.command_argument()
    &&& trace.response == command.response_type()
    &&& trace.validation == ResponseValidation::Unchecked
    &&& trace.interrupt_sample_count <= 8
}

impl CommandTrace {
    fn new(command: CommandDescriptor) -> (trace: Self)
        ensures
            trace_of(trace, command),
            trace.programmed_control is None,
            trace.interrupt_sample_count == 0,
            trace.dropped_interrupt_samples == 0,
            trace.interrupt_union == 0,
            trace.response_read_mask == 0,
            !trace.cleanup_argument_written,
            !trace.cleanup_control_written,
            trace.outcome == CommandTraceOutcome::InFlight,
    {
        Self {
            command_index: command.index,
            argument: command.argument,
            response: command.response,
            validation: ResponseValidation::Unchecked,
            programmed_control: None,
            interrupt_samples: [0, 0, 0, 0, 0, 0, 0, 0],
            interrupt_sample_count: 0,
            dropped_interrupt_samples: 0,
            interrupt_union: 0,
            response_read_mask: 0,
            cleanup_argument_written: false,
            cleanup_control_written: false,
            outcome: CommandTraceOutcome::InFlight,
        }
    }

    fn record_interrupt(&mut self, interrupts: u32)
        requires
            old(self).interrupt_sample_count <= 8,
        ensures
            final(self).interrupt_union == old(self).interrupt_union | interrupts,
            old(self).interrupt_sample_count < 8 ==> final(self).interrupt_sample_count == old(self).interrupt_sample_count + 1 && final(self).interrupt_samples@ == old(self).interrupt_samples@.update(old(self).interrupt_sample_count as int, interrupts)
                && final(self).dropped_interrupt_samples == old(self).dropped_interrupt_samples,
            old(self).interrupt_sample_count == 8 ==> final(self).interrupt_sample_count == 8
                && final(self).interrupt_samples == old(self).interrupt_samples && final(self).dropped_interrupt_samples == if old(self).dropped_interrupt_samples == u32::MAX {
                u32::MAX
            } else {
                (old(self).dropped_interrupt_samples + 1) as u32
            },
            final(self).command_index == old(self).command_index,
            final(self).argument == old(self).argument,
            final(self).response == old(self).response,
            final(self).validation == old(self).validation,
            final(self).programmed_control == old(self).programmed_control,
            final(self).response_read_mask == old(self).response_read_mask,
            final(self).cleanup_argument_written == old(self).cleanup_argument_written,
            final(self).cleanup_control_written == old(self).cleanup_control_written,
            final(self).outcome == old(self).outcome,
    {
        self.interrupt_union = self.interrupt_union | interrupts;
        let index = self.interrupt_sample_count as usize;
        if index < COMMAND_TRACE_CAPACITY {
            self.interrupt_samples.set(index, interrupts);
            self.interrupt_sample_count = self.interrupt_sample_count + 1;
        } else {
            self.dropped_interrupt_samples = self.dropped_interrupt_samples.saturating_add(1);
        }
    }
}


#[derive(Debug, Clone, Copy, PartialEq, Eq, Structural)]
pub enum CommandStage {
    ClearInterrupts,
    WriteArgument,
    StartCommand,
    PollInterrupts,
    CommandTimeout,
    ResponseCrc,
    PollTimeout,
    AcknowledgeCompletion,
    ReadResponse0,
    ReadResponse1,
    ReadResponse2,
    ReadResponse3,
    CleanupArgument,
    CleanupControl,
    RevalidateCommandStatus,
    RevalidateDataStatus,
    RevalidateInterrupts,
    RevalidateBusy,
    RevalidateUnknownInterrupt,
    RevalidateClearInterrupts,
    RevalidateInterruptReadback,
    RevalidateInterruptStillPending,
    RevalidateCleanupArgument,
    RevalidateCleanupControl,
    RevalidateArgumentReadback,
    RevalidateArgumentMismatch,
    RevalidateControlReadback,
    RevalidateControlMismatch,
}

/// `after` continues the access history `before`.
pub open spec fn extends(before: Seq<MmcAccess>, after: Seq<MmcAccess>) -> bool {
    before.len() <= after.len() && after.take(before.len() as int) == before
}

/// The accesses of executing `command` on a backend whose history was
/// `before`, ending in `outcome` after at most `polls` interrupt polls: the
/// start writes, the polls until one shows completion, then the completion
/// accesses; a failed start write ends the history; a failed, timed-out or
/// erroneous poll ends it after the samples taken.
pub open spec fn command_accesses<R: RegisterIo>(
    before: Seq<MmcAccess>,
    polls: usize,
    command: CommandDescriptor,
    outcome: CommandOutcome<R>,
) -> bool {
    let after = outcome_accesses(outcome);
    let start = command_start_writes(command);
    match outcome {
        CommandOutcome::Completed { response, .. } => exists|polled: Seq<u32>|
            #![trigger interrupt_polls(polled)]
            {
                &&& completing_polls(polled, polls)
                &&& after == before + start + interrupt_polls(polled) + completion_accesses(
                    polled.last(),
                    response,
                )
            },
        CommandOutcome::RecoveryRequired(recovery) => match recovery@.stage {
            CommandStage::ClearInterrupts => after == before.push(
                MmcAccess::Write(REG_INT, INT_CLEAR, Err(recovery@.error)),
            ),
            CommandStage::WriteArgument => after == before + start.take(1).push(
                MmcAccess::Write(REG_CARG, command.command_argument(), Err(recovery@.error)),
            ),
            CommandStage::StartCommand => after == before + start.take(2).push(
                MmcAccess::Write(REG_CCTL, command_control(command), Err(recovery@.error)),
            ),
            _ => exists|polled: Seq<u32>|
                #![trigger interrupt_polls(polled)]
                polling_stopped(before + start, after, polls, recovery@.stage, recovery@.error, polled),
        },
    }
}

/// Every poll of `polled` but the last was quiet, and the last one, among at
/// most `polls`, saw completion without a timeout or CRC error.
pub open spec fn completing_polls(polled: Seq<u32>, polls: usize) -> bool {
    &&& 1 <= polled.len() <= polls
    &&& forall|i: int| 0 <= i < polled.len() - 1 ==> quiet_poll(#[trigger] polled[i])
    &&& polled.last() & INT_COMMAND_TIMEOUT == 0
    &&& polled.last() & INT_RESPONSE_CRC == 0
    &&& polled.last() & INT_COMMAND_SENT != 0
}

/// A command whose start writes left the history `started` stopped at
/// `stage` with `error` after the interrupt samples `polled`: a failed
/// sample read follows quiet samples; a timeout bit in the last sample
/// stops it before a CRC bit does; `polls` quiet samples time it out; a
/// failure while completing keeps the samples in the history.
pub open spec fn polling_stopped(
    started: Seq<MmcAccess>,
    after: Seq<MmcAccess>,
    polls: usize,
    stage: CommandStage,
    error: MmcError,
    polled: Seq<u32>,
) -> bool {
    let sampled = started + interrupt_polls(polled);
    let quiet_before_last = forall|i: int|
        0 <= i < polled.len() - 1 ==> quiet_poll(#[trigger] polled[i]);
    match stage {
        CommandStage::PollInterrupts => polled.len() < polls && (forall|i: int|
            0 <= i < polled.len() ==> quiet_poll(#[trigger] polled[i])) && after == sampled.push(
            MmcAccess::Read(REG_INT, Err(error)),
        ),
        CommandStage::CommandTimeout => 1 <= polled.len() <= polls && quiet_before_last
            && polled.last() & INT_COMMAND_TIMEOUT != 0 && after == sampled,
        CommandStage::ResponseCrc => 1 <= polled.len() <= polls && quiet_before_last
            && polled.last() & INT_COMMAND_TIMEOUT == 0 && polled.last() & INT_RESPONSE_CRC != 0
            && after == sampled,
        CommandStage::PollTimeout => polled.len() == polls && (forall|i: int|
            0 <= i < polled.len() ==> quiet_poll(#[trigger] polled[i])) && after == sampled,
        _ => completing_polls(polled, polls) && extends(sampled, after),
    }
}

/// The writes that start `command`: clear the documented interrupt bits,
/// write its argument, then its command control word.
pub open spec fn command_start_writes(command: CommandDescriptor) -> Seq<MmcAccess> {
    seq![
        MmcAccess::Write(REG_INT, INT_CLEAR, Ok(())),
        MmcAccess::Write(REG_CARG, command.command_argument(), Ok(())),
        MmcAccess::Write(REG_CCTL, command_control(command), Ok(())),
    ]
}

/// A poll that saw neither completion, timeout nor a response CRC error.
pub open spec fn quiet_poll(interrupts: u32) -> bool {
    &&& interrupts & INT_COMMAND_TIMEOUT == 0
    &&& interrupts & INT_RESPONSE_CRC == 0
    &&& interrupts & INT_COMMAND_SENT == 0
}

/// Successful reads of the interrupt status returning `polled`, in order.
pub open spec fn interrupt_polls(polled: Seq<u32>) -> Seq<MmcAccess>
    decreases polled.len(),
{
    if polled.len() == 0 {
        Seq::empty()
    } else {
        interrupt_polls(polled.drop_last()).push(MmcAccess::Read(REG_INT, Ok(polled.last())))
    }
}

/// The response register reads that produced `response`.
pub open spec fn response_reads(response: CommandResponse) -> Seq<MmcAccess> {
    match response {
        CommandResponse::NoResponse => Seq::empty(),
        CommandResponse::Short(word) => seq![MmcAccess::Read(REG_RSP0, Ok(word))],
        CommandResponse::Long(words) => seq![
            MmcAccess::Read(REG_RSP0, Ok(words[0])),
            MmcAccess::Read(REG_RSP1, Ok(words[1])),
            MmcAccess::Read(REG_RSP2, Ok(words[2])),
            MmcAccess::Read(REG_RSP3, Ok(words[3])),
        ],
    }
}

/// The accesses that complete a command whose last poll saw `interrupts`:
/// acknowledge exactly its documented bits, read the response, then clear
/// the argument and the command control registers.
pub open spec fn completion_accesses(interrupts: u32, response: CommandResponse) -> Seq<
    MmcAccess,
> {
    seq![MmcAccess::Write(REG_INT, interrupts & INT_CLEAR, Ok(()))] + response_reads(response)
        + seq![MmcAccess::Write(REG_CARG, 0, Ok(())), MmcAccess::Write(REG_CCTL, 0, Ok(()))]
}

/// The access history a command outcome holds.
pub open spec fn outcome_accesses<R: RegisterIo>(outcome: CommandOutcome<R>) -> Seq<MmcAccess> {
    match outcome {
        CommandOutcome::Completed { host, .. } => host.backend().accesses(),
        CommandOutcome::RecoveryRequired(recovery) => recovery.session().backend().accesses(),
    }
}

pub enum CommandOutcome<R> {
    Completed { host: Host<R, CommandReady>, response: CommandResponse, trace: CommandTrace },
    RecoveryRequired(CommandRecovery<R>),
}

pub struct CommandRecovery<R> {
    /// Immutable cause that first removed command-ready ownership.
    pub origin_stage: CommandStage,
    pub origin_error: MmcError,
    /// Current recovery/revalidation stage and most recent error.
    pub stage: CommandStage,
    pub error: MmcError,
    pub observed_command_status: Option<u32>,
    pub observed_data_status: Option<u32>,
    pub observed_interrupts: Option<u32>,
    pub observed_argument: Option<u32>,
    pub observed_control: Option<u32>,
    pub trace: CommandTrace,
    host: Host<R, CommandRecoveryRequired>,
}

/// The public record a command recovery carries.
pub struct CommandRecoveryView {
    pub origin_stage: CommandStage,
    pub origin_error: MmcError,
    pub stage: CommandStage,
    pub error: MmcError,
    pub observed_command_status: Option<u32>,
    pub observed_data_status: Option<u32>,
    pub observed_interrupts: Option<u32>,
    pub observed_argument: Option<u32>,
    pub observed_control: Option<u32>,
    pub trace: CommandTrace,
}

impl<R> View for CommandRecovery<R> {
    type V = CommandRecoveryView;

    closed spec fn view(&self) -> CommandRecoveryView {
        CommandRecoveryView {
            origin_stage: self.origin_stage,
            origin_error: self.origin_error,
            stage: self.stage,
            error: self.error,
            observed_command_status: self.observed_command_status,
            observed_data_status: self.observed_data_status,
            observed_interrupts: self.observed_interrupts,
            observed_argument: self.observed_argument,
            observed_control: self.observed_control,
            trace: self.trace,
        }
    }
}

/// The response carries exactly the words its type promises.
pub open spec fn response_shape(response: CommandResponse, response_type: ResponseType) -> bool {
    match response_type {
        ResponseType::NoResponse => response == CommandResponse::NoResponse,
        ResponseType::Short => response is Short,
        ResponseType::Long => response is Long,
    }
}

/// What a failed command attempt records for the stage at which it stopped.
pub open spec fn command_failure_evidence(
    command: CommandDescriptor,
    stage: CommandStage,
    error: MmcError,
    trace: CommandTrace,
) -> bool {
    match stage {
        CommandStage::ClearInterrupts | CommandStage::WriteArgument
        | CommandStage::StartCommand => trace.programmed_control is None
            && trace.interrupt_sample_count == 0,
        CommandStage::PollInterrupts | CommandStage::PollTimeout => trace.programmed_control
            == Some(command_control(command)) && (stage == CommandStage::PollTimeout ==> error
            == MmcError::Timeout),
        CommandStage::CommandTimeout => trace.programmed_control == Some(command_control(command))
            && error == MmcError::ResponseTimeout && trace.interrupt_union & INT_COMMAND_TIMEOUT
            != 0,
        CommandStage::ResponseCrc => trace.programmed_control == Some(command_control(command))
            && error == MmcError::ResponseCrc && trace.interrupt_union & INT_RESPONSE_CRC != 0,
        CommandStage::AcknowledgeCompletion | CommandStage::ReadResponse0
        | CommandStage::ReadResponse1 | CommandStage::ReadResponse2 | CommandStage::ReadResponse3
        | CommandStage::CleanupArgument | CommandStage::CleanupControl => trace.programmed_control
            == Some(command_control(command)) && trace.interrupt_union & INT_COMMAND_SENT != 0,
        _ => false,
    }
}

/// Record of a command attempt that just lost command-ready ownership.
pub open spec fn fresh_recovery(view: CommandRecoveryView, command: CommandDescriptor) -> bool {
    &&& view.origin_stage == view.stage
    &&& view.origin_error == view.error
    &&& view.observed_command_status is None
    &&& view.observed_data_status is None
    &&& view.observed_interrupts is None
    &&& view.observed_argument is None
    &&& view.observed_control is None
    &&& view.trace.outcome == CommandTraceOutcome::Failed(view.stage)
    &&& trace_of(view.trace, command)
    &&& command_failure_evidence(command, view.stage, view.error, view.trace)
}

impl<R> CommandRecovery<R> {
    /// The session held until recovery succeeds.
    pub closed spec fn session(self) -> Host<R, CommandRecoveryRequired> {
        self.host
    }

    /// Discard the previous prerequisite proof and require full reset,
    /// controller-clock configuration and authorization again.
    pub fn into_uninitialized(self) -> (host: Host<R, Uninitialized>)
        ensures
            host.polls() == self.session().polls(),
            host.wf() == self.session().wf(),
            host.backend() == self.session().backend(),
    {
        self.host.change_state()
    }

    fn at(self, stage: CommandStage, error: MmcError) -> (recovery: Self)
        ensures
            recovery@ == (CommandRecoveryView { stage, error, ..self@ }),
            recovery.session() == self.session(),
    {
        let mut this = self;
        this.stage = stage;
        this.error = error;
        this
    }
}

impl<R: RegisterIo> Host<R, CommandReady> {
    /// Execute a non-data command by bounded polling.
    ///
    /// Register definitions and W1C interrupt behavior follow the Linux
    /// driver. Physical response ordering remains unverified on hardware.
    pub fn execute_command(self, command: CommandDescriptor) -> (outcome: CommandOutcome<R>)
        requires
            self.wf(),
        ensures
            match outcome {
                CommandOutcome::Completed { host, response, trace } => {
                    &&& host.wf()
                    &&& host.polls() == self.polls()
                    &&& response_shape(response, command.response_type())
                    &&& trace_of(trace, command)
                    &&& trace.programmed_control == Some(command_control(command))
                    &&& trace.outcome == CommandTraceOutcome::Completed
                    &&& trace.interrupt_union & INT_COMMAND_SENT != 0
                    &&& trace.response_read_mask == response_mask(command.response_type())
                    &&& trace.cleanup_argument_written
                    &&& trace.cleanup_control_written
                },
                CommandOutcome::RecoveryRequired(recovery) => recovery.session().wf()
                    && recovery.session().polls() == self.polls() && fresh_recovery(
                    recovery@,
                    command,
                ),
            },
            command_accesses(self.backend().accesses(), self.polls(), command, outcome),
    {
        let ghost before = self.backend().accesses();
        let ghost start = command_start_writes(command);
        let mut this = self;
        let mut trace = CommandTrace::new(command);
        let written = this.registers.write32(REG_INT, INT_CLEAR);
        if let Err(error) = written {
            return this.command_failure(CommandStage::ClearInterrupts, error, trace, command);
        }
        assert(written->Ok_0 == ());
        let written = this.registers.write32(REG_CARG, command.argument);
        if let Err(error) = written {
            assert(this.registers.accesses() =~= before + start.take(1).push(
                MmcAccess::Write(REG_CARG, command.command_argument(), Err(error)),
            ));
            return this.command_failure(CommandStage::WriteArgument, error, trace, command);
        }
        assert(written->Ok_0 == ());
        let control = match command.response {
            ResponseType::NoResponse => command.index as u32 | CCTL_HOST | CCTL_START,
            ResponseType::Short => command.index as u32 | CCTL_HOST | CCTL_START
                | CCTL_WAIT_RESPONSE,
            ResponseType::Long => command.index as u32 | CCTL_HOST | CCTL_START
                | CCTL_WAIT_RESPONSE | CCTL_LONG_RESPONSE,
        };
        let written = this.registers.write32(REG_CCTL, control);
        if let Err(error) = written {
            assert(this.registers.accesses() =~= before + start.take(2).push(
                MmcAccess::Write(REG_CCTL, command_control(command), Err(error)),
            ));
            return this.command_failure(CommandStage::StartCommand, error, trace, command);
        }
        assert(written->Ok_0 == ());
        assert(this.registers.accesses() =~= before + start + interrupt_polls(Seq::empty()));
        trace.programmed_control = Some(control);
        let limit = this.poll_limit;
        let mut poll: usize = 0;
        let ghost mut polled: Seq<u32> = Seq::empty();
        while poll < limit
            invariant
                before == self.backend().accesses(),
                start == command_start_writes(command),
                this.registers.accesses() == before + start + interrupt_polls(polled),
                polled.len() == poll,
                forall|i: int| 0 <= i < polled.len() ==> quiet_poll(#[trigger] polled[i]),
                poll <= limit,
                limit == this.polls(),
                this.polls() == self.polls(),
                this.wf(),
                control == command_control(command),
                trace_of(trace, command),
                trace.programmed_control == Some(control),
                trace.outcome == CommandTraceOutcome::InFlight,
                trace.response_read_mask == 0,
                !trace.cleanup_argument_written,
                !trace.cleanup_control_written,
            decreases limit - poll,
        {
            let interrupts = match this.registers.read32(REG_INT) {
                Ok(interrupts) => interrupts,
                Err(error) => {
                    let outcome = this.command_failure(
                        CommandStage::PollInterrupts,
                        error,
                        trace,
                        command,
                    );
                    assert(polling_stopped(before + start, outcome_accesses(outcome), self.polls(), CommandStage::PollInterrupts, error, polled));
                    return outcome;
                },
            };
            let ghost previous = trace.interrupt_union;
            trace.record_interrupt(interrupts);
            let union = trace.interrupt_union;
            assert(interrupts & INT_COMMAND_TIMEOUT != 0 ==> union & INT_COMMAND_TIMEOUT != 0)
                by (bit_vector)
                requires
                    union == previous | interrupts,
            ;
            assert(interrupts & INT_RESPONSE_CRC != 0 ==> union & INT_RESPONSE_CRC != 0)
                by (bit_vector)
                requires
                    union == previous | interrupts,
            ;
            assert(interrupts & INT_COMMAND_SENT != 0 ==> union & INT_COMMAND_SENT != 0)
                by (bit_vector)
                requires
                    union == previous | interrupts,
            ;
            let ghost quiet = polled;
            proof {
                polled = polled.push(interrupts);
                assert(polled.drop_last() =~= quiet);
                assert(this.registers.accesses() =~= before + start + interrupt_polls(polled));
                assert(polled.last() == interrupts);
                assert(forall|i: int| 0 <= i < polled.len() - 1 ==> quiet_poll(
                    #[trigger] polled[i],
                ));
            }
            if interrupts & INT_COMMAND_TIMEOUT != 0 {
                let outcome = this.command_failure(
                    CommandStage::CommandTimeout,
                    MmcError::ResponseTimeout,
                    trace,
                    command,
                );
                assert(polling_stopped(before + start, outcome_accesses(outcome), self.polls(), CommandStage::CommandTimeout, MmcError::ResponseTimeout, polled));
                return outcome;
            }
            if interrupts & INT_RESPONSE_CRC != 0 {
                let outcome = this.command_failure(
                    CommandStage::ResponseCrc,
                    MmcError::ResponseCrc,
                    trace,
                    command,
                );
                assert(polling_stopped(before + start, outcome_accesses(outcome), self.polls(), CommandStage::ResponseCrc, MmcError::ResponseCrc, polled));
                return outcome;
            }
            if interrupts & INT_COMMAND_SENT != 0 {
                let ghost polled_log = this.registers.accesses();
                let outcome = this.complete_command(command, interrupts, trace);
                proof {
                    assert(completing_polls(polled, self.polls()));
                    if outcome is Completed {
                        assert(outcome_accesses(outcome) == before + start + interrupt_polls(polled)
                            + completion_accesses(polled.last(), outcome->response));
                    } else {
                        let recovery = outcome->RecoveryRequired_0;
                        assert(polling_stopped(
                            before + start,
                            outcome_accesses(outcome),
                            self.polls(),
                            recovery@.stage,
                            recovery@.error,
                            polled,
                        ));
                    }
                }
                return outcome;
            }
            poll = poll + 1;
        }
        let outcome = this.command_failure(CommandStage::PollTimeout, MmcError::Timeout, trace, command);
        assert(polling_stopped(before + start, outcome_accesses(outcome), self.polls(), CommandStage::PollTimeout, MmcError::Timeout, polled));
        outcome
    }
}



impl<R: RegisterIo> Host<R, CommandReady> {
    fn command_failure(
        self,
        stage: CommandStage,
        error: MmcError,
        trace: CommandTrace,
        command: CommandDescriptor,
    ) -> (outcome: CommandOutcome<R>)
        requires
            self.wf(),
            trace_of(trace, command),
            command_failure_evidence(command, stage, error, trace),
        ensures
            match outcome {
                CommandOutcome::RecoveryRequired(recovery) => recovery.session().wf()
                    && recovery.session().polls() == self.polls() && fresh_recovery(
                    recovery@,
                    command,
                ) && recovery@.stage == stage && recovery@.error == error
                    && recovery.session().backend() == self.backend(),
                _ => false,
            },
    {
        let mut trace = trace;
        trace.outcome = CommandTraceOutcome::Failed(stage);
        CommandOutcome::RecoveryRequired(
            CommandRecovery {
                stage,
                error,
                origin_stage: stage,
                origin_error: error,
                observed_command_status: None,
                observed_data_status: None,
                observed_interrupts: None,
                observed_argument: None,
                observed_control: None,
                trace,
                host: self.change_state(),
            },
        )
    }

    fn complete_command(self, command: CommandDescriptor, interrupts: u32, trace: CommandTrace) -> (outcome:
        CommandOutcome<R>)
        requires
            self.wf(),
            trace_of(trace, command),
            trace.programmed_control == Some(command_control(command)),
            trace.outcome == CommandTraceOutcome::InFlight,
            trace.interrupt_union & INT_COMMAND_SENT != 0,
            trace.response_read_mask == 0,
            !trace.cleanup_argument_written,
            !trace.cleanup_control_written,
        ensures
            match outcome {
                CommandOutcome::Completed { host, response, trace } => {
                    &&& host.wf()
                    &&& host.polls() == self.polls()
                    &&& response_shape(response, command.response_type())
                    &&& trace_of(trace, command)
                    &&& trace.programmed_control == Some(command_control(command))
                    &&& trace.outcome == CommandTraceOutcome::Completed
                    &&& trace.interrupt_union & INT_COMMAND_SENT != 0
                    &&& trace.response_read_mask == response_mask(command.response_type())
                    &&& trace.cleanup_argument_written
                    &&& trace.cleanup_control_written
                },
                CommandOutcome::RecoveryRequired(recovery) => recovery.session().wf()
                    && recovery.session().polls() == self.polls() && fresh_recovery(
                    recovery@,
                    command,
                ),
            },
            outcome matches CommandOutcome::Completed { response, .. } ==> outcome_accesses(outcome)
                == self.backend().accesses() + completion_accesses(interrupts, response),
            extends(self.backend().accesses(), outcome_accesses(outcome)),
            outcome matches CommandOutcome::RecoveryRequired(recovery) ==> recovery@.stage
                != CommandStage::ClearInterrupts && recovery@.stage != CommandStage::WriteArgument
                && recovery@.stage != CommandStage::StartCommand && recovery@.stage
                != CommandStage::PollInterrupts && recovery@.stage != CommandStage::CommandTimeout
                && recovery@.stage != CommandStage::ResponseCrc && recovery@.stage
                != CommandStage::PollTimeout,
    {
        let ghost before = self.backend().accesses();
        assert(before.take(before.len() as int) =~= before);
        let mut this = self;
        let mut trace = trace;
        let acked = this.registers.write32(REG_INT, interrupts & INT_CLEAR);
        if let Err(error) = acked {
            assert(this.registers.accesses().take(before.len() as int) =~= before);
            return this.command_failure(CommandStage::AcknowledgeCompletion, error, trace, command);
        }
        assert(acked->Ok_0 == ());
        let ghost acked_log = this.registers.accesses();
        let response = match command.response {
            ResponseType::NoResponse => CommandResponse::NoResponse,
            ResponseType::Short => {
                match this.registers.read32(REG_RSP0) {
                    Ok(value) => {
                        trace.response_read_mask = 1;
                        CommandResponse::Short(value)
                    },
                    Err(error) => {
                        assert(this.registers.accesses().take(before.len() as int) =~= before);
                        return this.command_failure(CommandStage::ReadResponse0,
                            error,
                            trace,
                            command,
                        );
                    },
                }
            },
            ResponseType::Long => {
                let word0 = match this.registers.read32(REG_RSP0) {
                    Ok(value) => value,
                    Err(error) => {
                        assert(this.registers.accesses().take(before.len() as int) =~= before);
                        return this.command_failure(CommandStage::ReadResponse0,
                            error,
                            trace,
                            command,
                        );
                    },
                };
                trace.response_read_mask = 0x1;
                let word1 = match this.registers.read32(REG_RSP1) {
                    Ok(value) => value,
                    Err(error) => {
                        assert(this.registers.accesses().take(before.len() as int) =~= before);
                        return this.command_failure(CommandStage::ReadResponse1,
                            error,
                            trace,
                            command,
                        );
                    },
                };
                trace.response_read_mask = 0x3;
                let word2 = match this.registers.read32(REG_RSP2) {
                    Ok(value) => value,
                    Err(error) => {
                        assert(this.registers.accesses().take(before.len() as int) =~= before);
                        return this.command_failure(CommandStage::ReadResponse2,
                            error,
                            trace,
                            command,
                        );
                    },
                };
                trace.response_read_mask = 0x7;
                let word3 = match this.registers.read32(REG_RSP3) {
                    Ok(value) => value,
                    Err(error) => {
                        assert(this.registers.accesses().take(before.len() as int) =~= before);
                        return this.command_failure(CommandStage::ReadResponse3,
                            error,
                            trace,
                            command,
                        );
                    },
                };
                trace.response_read_mask = 0xf;
                let words = [word0, word1, word2, word3];
                assert(words[0] == word0 && words[1] == word1 && words[2] == word2 && words[3]
                    == word3);
                CommandResponse::Long(words)
            },
        };
        assert(this.registers.accesses() =~= acked_log + response_reads(response));
        let cleared = this.registers.write32(REG_CARG, 0);
        if let Err(error) = cleared {
            assert(this.registers.accesses().take(before.len() as int) =~= before);
            return this.command_failure(CommandStage::CleanupArgument, error, trace, command);
        }
        assert(cleared->Ok_0 == ());
        trace.cleanup_argument_written = true;
        let stopped = this.registers.write32(REG_CCTL, 0);
        if let Err(error) = stopped {
            assert(this.registers.accesses().take(before.len() as int) =~= before);
            return this.command_failure(CommandStage::CleanupControl, error, trace, command);
        }
        assert(stopped->Ok_0 == ());
        trace.cleanup_control_written = true;
        trace.outcome = CommandTraceOutcome::Completed;
        proof {
            assert(this.registers.accesses() =~= before + completion_accesses(interrupts, response));
            assert(this.registers.accesses().take(before.len() as int) =~= before);
        }
        CommandOutcome::Completed { host: this, response, trace }
    }
}

/// The accesses of a revalidation that succeeded after reading command
/// status `command`, data status `data` and interrupt status `interrupts`:
/// the three status reads, a write-one-to-clear of the pending bits and its
/// zero readback when any were pending, then the cleanup writes of argument
/// and command control and their zero readbacks.
pub open spec fn revalidation_accesses(command: u32, data: u32, interrupts: u32) -> Seq<MmcAccess> {
    seq![
        MmcAccess::Read(REG_CSTS, Ok(command)),
        MmcAccess::Read(REG_DSTS, Ok(data)),
        MmcAccess::Read(REG_INT, Ok(interrupts)),
    ] + (if interrupts != 0 {
        seq![MmcAccess::Write(REG_INT, interrupts, Ok(())), MmcAccess::Read(REG_INT, Ok(0u32))]
    } else {
        Seq::empty()
    }) + seq![
        MmcAccess::Write(REG_CARG, 0, Ok(())),
        MmcAccess::Write(REG_CCTL, 0, Ok(())),
        MmcAccess::Read(REG_CARG, Ok(0u32)),
        MmcAccess::Read(REG_CCTL, Ok(0u32)),
    ]
}

/// The three status reads of a revalidation: command status, data status
/// and interrupt status.
pub open spec fn revalidation_status_reads(command: u32, data: u32, interrupts: u32) -> Seq<
    MmcAccess,
> {
    seq![
        MmcAccess::Read(REG_CSTS, Ok(command)),
        MmcAccess::Read(REG_DSTS, Ok(data)),
        MmcAccess::Read(REG_INT, Ok(interrupts)),
    ]
}

/// Write-one-to-clear of pending documented bits and its zero readback,
/// nothing when none were pending.
pub open spec fn revalidation_clear(interrupts: u32) -> Seq<MmcAccess> {
    if interrupts != 0 {
        seq![MmcAccess::Write(REG_INT, interrupts, Ok(())), MmcAccess::Read(REG_INT, Ok(0u32))]
    } else {
        Seq::empty()
    }
}

/// The accesses of a revalidation that stopped as `view` records, whose
/// first interrupt-status read returned `interrupts`.
#[verifier::opaque]
pub open spec fn revalidation_failure_accesses(view: CommandRecoveryView, interrupts: u32) -> Seq<
    MmcAccess,
> {
    let e = view.error;
    let cs = view.observed_command_status->Some_0;
    let ds = view.observed_data_status->Some_0;
    let status = revalidation_status_reads(cs, ds, interrupts);
    let cleared = status + revalidation_clear(interrupts);
    let cleaned = cleared + seq![
        MmcAccess::Write(REG_CARG, 0, Ok(())),
        MmcAccess::Write(REG_CCTL, 0, Ok(())),
    ];
    match view.stage {
        CommandStage::RevalidateCommandStatus => seq![MmcAccess::Read(REG_CSTS, Err(e))],
        CommandStage::RevalidateDataStatus => seq![
            MmcAccess::Read(REG_CSTS, Ok(cs)),
            MmcAccess::Read(REG_DSTS, Err(e)),
        ],
        CommandStage::RevalidateBusy => seq![
            MmcAccess::Read(REG_CSTS, Ok(cs)),
            MmcAccess::Read(REG_DSTS, Ok(ds)),
        ],
        CommandStage::RevalidateInterrupts => seq![
            MmcAccess::Read(REG_CSTS, Ok(cs)),
            MmcAccess::Read(REG_DSTS, Ok(ds)),
            MmcAccess::Read(REG_INT, Err(e)),
        ],
        CommandStage::RevalidateUnknownInterrupt => status,
        CommandStage::RevalidateClearInterrupts => status + seq![
            MmcAccess::Write(REG_INT, interrupts, Err(e)),
        ],
        CommandStage::RevalidateInterruptReadback => status + seq![
            MmcAccess::Write(REG_INT, interrupts, Ok(())),
            MmcAccess::Read(REG_INT, Err(e)),
        ],
        CommandStage::RevalidateInterruptStillPending => status + seq![
            MmcAccess::Write(REG_INT, interrupts, Ok(())),
            MmcAccess::Read(REG_INT, Ok(view.observed_interrupts->Some_0)),
        ],
        CommandStage::RevalidateCleanupArgument => cleared + seq![
            MmcAccess::Write(REG_CARG, 0, Err(e)),
        ],
        CommandStage::RevalidateCleanupControl => cleared + seq![
            MmcAccess::Write(REG_CARG, 0, Ok(())),
            MmcAccess::Write(REG_CCTL, 0, Err(e)),
        ],
        CommandStage::RevalidateArgumentReadback => cleaned + seq![
            MmcAccess::Read(REG_CARG, Err(e)),
        ],
        CommandStage::RevalidateArgumentMismatch => cleaned + seq![
            MmcAccess::Read(REG_CARG, Ok(view.observed_argument->Some_0)),
        ],
        CommandStage::RevalidateControlReadback => cleaned + seq![
            MmcAccess::Read(REG_CARG, Ok(0u32)),
            MmcAccess::Read(REG_CCTL, Err(e)),
        ],
        CommandStage::RevalidateControlMismatch => cleaned + seq![
            MmcAccess::Read(REG_CARG, Ok(0u32)),
            MmcAccess::Read(REG_CCTL, Ok(view.observed_control->Some_0)),
        ],
        _ => Seq::empty(),
    }
}

/// Why a revalidation whose first interrupt-status read returned
/// `interrupts` stopped where `view` says: every stage after the status
/// reads saw both engines idle, every stage after the interrupt read saw
/// only documented bits, and the clear stages saw some pending.
#[verifier::opaque]
pub open spec fn revalidation_failed(view: CommandRecoveryView, interrupts: u32) -> bool {
    let idle = view.observed_command_status is Some && view.observed_data_status is Some
        && controller_idle(view.observed_command_status->Some_0, view.observed_data_status->Some_0);
    let known = interrupts & !INT_CLEAR == 0;
    match view.stage {
        CommandStage::RevalidateCommandStatus => true,
        CommandStage::RevalidateDataStatus => view.observed_command_status is Some,
        CommandStage::RevalidateBusy => view.observed_command_status is Some
            && view.observed_data_status is Some,
        CommandStage::RevalidateInterrupts => idle,
        CommandStage::RevalidateUnknownInterrupt => idle && view.observed_interrupts == Some(
            interrupts,
        ),
        CommandStage::RevalidateClearInterrupts | CommandStage::RevalidateInterruptReadback =>
            idle && known && interrupts != 0,
        CommandStage::RevalidateInterruptStillPending => idle && known && interrupts != 0,
        CommandStage::RevalidateCleanupArgument | CommandStage::RevalidateCleanupControl
        | CommandStage::RevalidateArgumentReadback | CommandStage::RevalidateArgumentMismatch
        | CommandStage::RevalidateControlReadback | CommandStage::RevalidateControlMismatch =>
            idle && known,
        _ => false,
    }
}

/// A revalidation of `original` was refused as `recovery`: the origin and
/// trace are kept, the stage is a revalidation stage with its evidence, and
/// the session's history is the accesses made up to the one that stopped it.
pub open spec fn revalidation_refused<R: RegisterIo>(
    original: CommandRecovery<R>,
    recovery: CommandRecovery<R>,
) -> bool {
    &&& recovery@.origin_stage == original@.origin_stage
    &&& recovery@.origin_error == original@.origin_error
    &&& recovery@.trace == original@.trace
    &&& recovery.session().wf() == original.session().wf()
    &&& recovery.session().polls() == original.session().polls()
    &&& command_revalidation_stage(recovery@.stage)
    &&& command_revalidation_evidence(recovery@)
    &&& exists|interrupts: u32|
        #![trigger revalidation_failure_accesses(recovery@, interrupts)]
        revalidation_failed(recovery@, interrupts) && recovery.session().backend().accesses()
            == original.session().backend().accesses() + revalidation_failure_accesses(
            recovery@,
            interrupts,
        )
}

/// Stages at which command revalidation stops.
pub open spec fn command_revalidation_stage(stage: CommandStage) -> bool {
    match stage {
        CommandStage::RevalidateCommandStatus | CommandStage::RevalidateDataStatus
        | CommandStage::RevalidateInterrupts | CommandStage::RevalidateBusy
        | CommandStage::RevalidateUnknownInterrupt | CommandStage::RevalidateClearInterrupts
        | CommandStage::RevalidateInterruptReadback | CommandStage::RevalidateInterruptStillPending
        | CommandStage::RevalidateCleanupArgument | CommandStage::RevalidateCleanupControl
        | CommandStage::RevalidateArgumentReadback | CommandStage::RevalidateArgumentMismatch
        | CommandStage::RevalidateControlReadback | CommandStage::RevalidateControlMismatch => true,
        _ => false,
    }
}

/// What a refused revalidation observed at the stage where it stopped.
pub open spec fn command_revalidation_evidence(view: CommandRecoveryView) -> bool {
    match view.stage {
        CommandStage::RevalidateBusy => view.error == MmcError::Timeout && (view.observed_command_status matches Some(
            status,
        ) && view.observed_data_status matches Some(data) && (status & CSTS_ON != 0 || data
            & DSTS_ACTIVE != 0)),
        CommandStage::RevalidateUnknownInterrupt => view.error == MmcError::InvalidParameter
            && (view.observed_interrupts matches Some(bits) && bits & !INT_CLEAR != 0),
        CommandStage::RevalidateInterruptStillPending => view.error == MmcError::Timeout && (
        view.observed_interrupts matches Some(bits) && bits != 0),
        CommandStage::RevalidateArgumentMismatch => view.error == MmcError::InvalidParameter && (
        view.observed_argument matches Some(argument) && argument != 0),
        CommandStage::RevalidateControlMismatch => view.error == MmcError::InvalidParameter && (
        view.observed_control matches Some(control) && control != 0),
        _ => true,
    }
}

impl<R: RegisterIo> CommandRecovery<R> {
    /// Read command, data and interrupt status and clear the pending
    /// documented interrupt bits, keeping the values read.
    #[verifier::rlimit(60)]
    #[verifier::spinoff_prover]
    fn revalidate_status(self) -> (result: Result<(Self, Ghost<(u32, u32, u32)>), Self>)
        ensures
            match result {
                Ok((this, values)) => {
                    let (command, data, interrupts) = values@;
                    &&& controller_idle(command, data)
                    &&& interrupts & !INT_CLEAR == 0
                    &&& this.session().backend().accesses() == self.session().backend().accesses()
                        + revalidation_status_reads(command, data, interrupts) + revalidation_clear(
                        interrupts,
                    )
                    &&& this@ == (CommandRecoveryView {
                        observed_command_status: Some(command),
                        observed_data_status: Some(data),
                        observed_interrupts: Some(0u32),
                        ..self@
                    })
                    &&& this.session().wf() == self.session().wf()
                    &&& this.session().polls() == self.session().polls()
                },
                Err(recovery) => revalidation_refused(self, recovery),
            },
    {
        let ghost before = self.session().backend().accesses();
        let ghost mut first_interrupts: u32 = 0;
        let mut this = self;
        let command = match this.host.registers.read32(REG_CSTS) {
            Ok(value) => value,
            Err(error) => {
                let failed = this.at(CommandStage::RevalidateCommandStatus, error);
                assert(failed.session().backend().accesses() == before + revalidation_failure_accesses(failed@, first_interrupts) && revalidation_failed(failed@, first_interrupts)) by {
                    reveal(revalidation_failure_accesses);
                    reveal(revalidation_failed);
                    assert(failed.session().backend().accesses() =~= before + revalidation_failure_accesses(failed@, first_interrupts));
                }
                return Err(failed);
            },
        };
        this.observed_command_status = Some(command);
        let data = match this.host.registers.read32(REG_DSTS) {
            Ok(value) => value,
            Err(error) => {
                let failed = this.at(CommandStage::RevalidateDataStatus, error);
                assert(failed.session().backend().accesses() == before + revalidation_failure_accesses(failed@, first_interrupts) && revalidation_failed(failed@, first_interrupts)) by {
                    reveal(revalidation_failure_accesses);
                    reveal(revalidation_failed);
                    assert(failed.session().backend().accesses() =~= before + revalidation_failure_accesses(failed@, first_interrupts));
                }
                return Err(failed);
            },
        };
        this.observed_data_status = Some(data);
        if command & CSTS_ON != 0 || data & DSTS_ACTIVE != 0 {
            let failed = this.at(CommandStage::RevalidateBusy, MmcError::Timeout);
            assert(failed.session().backend().accesses() == before + revalidation_failure_accesses(failed@, first_interrupts) && revalidation_failed(failed@, first_interrupts)) by {
                reveal(revalidation_failure_accesses);
                reveal(revalidation_failed);
                assert(failed.session().backend().accesses() =~= before + revalidation_failure_accesses(failed@, first_interrupts));
            }
            return Err(failed);
        }
        let interrupts = match this.host.registers.read32(REG_INT) {
            Ok(value) => value,
            Err(error) => {
                let failed = this.at(CommandStage::RevalidateInterrupts, error);
                assert(failed.session().backend().accesses() == before + revalidation_failure_accesses(failed@, first_interrupts) && revalidation_failed(failed@, first_interrupts)) by {
                    reveal(revalidation_failure_accesses);
                    reveal(revalidation_failed);
                    assert(failed.session().backend().accesses() =~= before + revalidation_failure_accesses(failed@, first_interrupts));
                }
                return Err(failed);
            },
        };
        this.observed_interrupts = Some(interrupts);
        proof {
            first_interrupts = interrupts;
        }
        let ghost status_log = this.host.registers.accesses();
        assert(status_log =~= before + seq![
            MmcAccess::Read(REG_CSTS, Ok(command)),
            MmcAccess::Read(REG_DSTS, Ok(data)),
            MmcAccess::Read(REG_INT, Ok(interrupts)),
        ]);
        if interrupts & !INT_CLEAR != 0 {
            let failed = this.at(CommandStage::RevalidateUnknownInterrupt, MmcError::InvalidParameter);
            assert(failed.session().backend().accesses() == before + revalidation_failure_accesses(failed@, first_interrupts) && revalidation_failed(failed@, first_interrupts)) by {
                reveal(revalidation_failure_accesses);
                reveal(revalidation_failed);
                assert(failed.session().backend().accesses() =~= before + revalidation_failure_accesses(failed@, first_interrupts));
            }
            return Err(failed);
        }
        if interrupts != 0 {
            let written = this.host.registers.write32(REG_INT, interrupts);
            if let Err(error) = written {
                let failed = this.at(CommandStage::RevalidateClearInterrupts, error);
                assert(failed.session().backend().accesses() == before + revalidation_failure_accesses(failed@, first_interrupts) && revalidation_failed(failed@, first_interrupts)) by {
                    reveal(revalidation_failure_accesses);
                    reveal(revalidation_failed);
                    assert(failed.session().backend().accesses() =~= before + revalidation_failure_accesses(failed@, first_interrupts));
                }
                return Err(failed);
            }
            assert(written->Ok_0 == ());
            let readback = match this.host.registers.read32(REG_INT) {
                Ok(value) => value,
                Err(error) => {
                    let failed = this.at(CommandStage::RevalidateInterruptReadback, error);
                    assert(failed.session().backend().accesses() == before + revalidation_failure_accesses(failed@, first_interrupts) && revalidation_failed(failed@, first_interrupts)) by {
                        reveal(revalidation_failure_accesses);
                        reveal(revalidation_failed);
                        assert(failed.session().backend().accesses() =~= before + revalidation_failure_accesses(failed@, first_interrupts));
                    }
                    return Err(failed);
                },
            };
            this.observed_interrupts = Some(readback);
            if readback != 0 {
                let failed = this.at(CommandStage::RevalidateInterruptStillPending, MmcError::Timeout);
                assert(failed.session().backend().accesses() == before + revalidation_failure_accesses(failed@, first_interrupts) && revalidation_failed(failed@, first_interrupts)) by {
                    reveal(revalidation_failure_accesses);
                    reveal(revalidation_failed);
                    assert(failed.session().backend().accesses() =~= before + revalidation_failure_accesses(failed@, first_interrupts));
                }
                return Err(failed);
            }
        }
        let ghost cleared_log = this.host.registers.accesses();
        assert(cleared_log =~= before + revalidation_status_reads(command, data, interrupts)
            + revalidation_clear(interrupts));
        Ok((this, Ghost((command, data, interrupts))))
    }

    /// Prove that the controller returned idle and all documented W1C status
    /// was cleared before making the same authorized session command-capable.
    #[verifier::rlimit(60)]
    #[verifier::spinoff_prover]
    pub fn revalidate(self) -> (result: Result<Host<R, CommandReady>, Self>)
        ensures
            match result {
                Ok(host) => host.wf() == self.session().wf() && host.polls()
                    == self.session().polls() && exists|command: u32, data: u32, interrupts: u32|
                    #![trigger revalidation_accesses(command, data, interrupts)]
                    {
                        &&& controller_idle(command, data)
                        &&& interrupts & !INT_CLEAR == 0
                        &&& host.backend().accesses() == self.session().backend().accesses()
                            + revalidation_accesses(command, data, interrupts)
                    },
                Err(recovery) => revalidation_refused(self, recovery),
            },
    {
        let ghost before = self.session().backend().accesses();
        let (mut this, values) = match self.revalidate_status() {
            Ok(checked) => checked,
            Err(recovery) => return Err(recovery),
        };
        let ghost command = values@.0;
        let ghost data = values@.1;
        let ghost interrupts = values@.2;
        let ghost first_interrupts = interrupts;
        let ghost cleared_log = this.host.registers.accesses();
        let written = this.host.registers.write32(REG_CARG, 0);
        if let Err(error) = written {
            let failed = this.at(CommandStage::RevalidateCleanupArgument, error);
            assert(failed.session().backend().accesses() == before + revalidation_failure_accesses(failed@, first_interrupts) && revalidation_failed(failed@, first_interrupts)) by {
                reveal(revalidation_failure_accesses);
                reveal(revalidation_failed);
                assert(failed.session().backend().accesses() =~= before + revalidation_failure_accesses(failed@, first_interrupts));
            }
            return Err(failed);
        }
        assert(written->Ok_0 == ());
        let written = this.host.registers.write32(REG_CCTL, 0);
        if let Err(error) = written {
            let failed = this.at(CommandStage::RevalidateCleanupControl, error);
            assert(failed.session().backend().accesses() == before + revalidation_failure_accesses(failed@, first_interrupts) && revalidation_failed(failed@, first_interrupts)) by {
                reveal(revalidation_failure_accesses);
                reveal(revalidation_failed);
                assert(failed.session().backend().accesses() =~= before + revalidation_failure_accesses(failed@, first_interrupts));
            }
            return Err(failed);
        }
        assert(written->Ok_0 == ());
        let argument = match this.host.registers.read32(REG_CARG) {
            Ok(value) => value,
            Err(error) => {
                let failed = this.at(CommandStage::RevalidateArgumentReadback, error);
                assert(failed.session().backend().accesses() == before + revalidation_failure_accesses(failed@, first_interrupts) && revalidation_failed(failed@, first_interrupts)) by {
                    reveal(revalidation_failure_accesses);
                    reveal(revalidation_failed);
                    assert(failed.session().backend().accesses() =~= before + revalidation_failure_accesses(failed@, first_interrupts));
                }
                return Err(failed);
            },
        };
        this.observed_argument = Some(argument);
        if argument != 0 {
            let failed = this.at(CommandStage::RevalidateArgumentMismatch, MmcError::InvalidParameter);
            assert(failed.session().backend().accesses() == before + revalidation_failure_accesses(failed@, first_interrupts) && revalidation_failed(failed@, first_interrupts)) by {
                reveal(revalidation_failure_accesses);
                reveal(revalidation_failed);
                assert(failed.session().backend().accesses() =~= before + revalidation_failure_accesses(failed@, first_interrupts));
            }
            return Err(failed);
        }
        let control = match this.host.registers.read32(REG_CCTL) {
            Ok(value) => value,
            Err(error) => {
                let failed = this.at(CommandStage::RevalidateControlReadback, error);
                assert(failed.session().backend().accesses() == before + revalidation_failure_accesses(failed@, first_interrupts) && revalidation_failed(failed@, first_interrupts)) by {
                    reveal(revalidation_failure_accesses);
                    reveal(revalidation_failed);
                    assert(failed.session().backend().accesses() =~= before + revalidation_failure_accesses(failed@, first_interrupts));
                }
                return Err(failed);
            },
        };
        this.observed_control = Some(control);
        if control != 0 {
            let failed = this.at(CommandStage::RevalidateControlMismatch, MmcError::InvalidParameter);
            assert(failed.session().backend().accesses() == before + revalidation_failure_accesses(failed@, first_interrupts) && revalidation_failed(failed@, first_interrupts)) by {
                reveal(revalidation_failure_accesses);
                reveal(revalidation_failed);
                assert(failed.session().backend().accesses() =~= before + revalidation_failure_accesses(failed@, first_interrupts));
            }
            return Err(failed);
        }
        assert(this.host.registers.accesses() =~= before + revalidation_accesses(
            command,
            data,
            interrupts,
        ));
        assert(controller_idle(command, data) && interrupts & !INT_CLEAR == 0);
        Ok(this.host.change_state())
    }
}

/// Register at which a read-only post-command observation failed.
#[derive(Debug, Clone, Copy, PartialEq, Eq, Structural)]
pub enum CommandPostObservationStage {
    ReadArgument,
    ReadControl,
    ReadCommandStatus,
    ReadDataStatus,
    ReadInterrupts,
}

/// Fixed-order register snapshot sampled after a command attempt.
#[derive(Debug, Clone, Copy, PartialEq, Eq, Structural)]
pub struct CommandPostSnapshot {
    pub argument: u32,
    pub control: u32,
    pub command_status: u32,
    pub data_status: u32,
    pub interrupts: u32,
}

/// Partial evidence retained when a post-command snapshot cannot complete.
#[derive(Debug, Clone, Copy, PartialEq, Eq, Structural)]
pub struct CommandPostObservationFailure {
    pub stage: CommandPostObservationStage,
    pub error: MmcError,
    pub argument: Option<u32>,
    pub control: Option<u32>,
    pub command_status: Option<u32>,
    pub data_status: Option<u32>,
}

/// The registers a failed observation had already read: exactly those before its stage.
pub open spec fn post_observation_prefix(failure: CommandPostObservationFailure) -> bool {
    match failure.stage {
        CommandPostObservationStage::ReadArgument => failure.argument is None && failure.control is None
            && failure.command_status is None && failure.data_status is None,
        CommandPostObservationStage::ReadControl => failure.argument is Some && failure.control is None
            && failure.command_status is None && failure.data_status is None,
        CommandPostObservationStage::ReadCommandStatus => failure.argument is Some
            && failure.control is Some && failure.command_status is None && failure.data_status is None,
        CommandPostObservationStage::ReadDataStatus => failure.argument is Some && failure.control is Some
            && failure.command_status is Some && failure.data_status is None,
        CommandPostObservationStage::ReadInterrupts => failure.argument is Some && failure.control is Some
            && failure.command_status is Some && failure.data_status is Some,
    }
}

/// The reads of a post-command observation that ended in `result`:
/// argument, control, command status, data status and interrupt status, in
/// that order, up to and including the first that failed.
pub open spec fn post_state_reads(
    result: Result<CommandPostSnapshot, CommandPostObservationFailure>,
) -> Seq<MmcAccess> {
    match result {
        Ok(snapshot) => seq![
            MmcAccess::Read(REG_CARG, Ok(snapshot.argument)),
            MmcAccess::Read(REG_CCTL, Ok(snapshot.control)),
            MmcAccess::Read(REG_CSTS, Ok(snapshot.command_status)),
            MmcAccess::Read(REG_DSTS, Ok(snapshot.data_status)),
            MmcAccess::Read(REG_INT, Ok(snapshot.interrupts)),
        ],
        Err(failure) => match failure.stage {
            CommandPostObservationStage::ReadArgument => seq![
                MmcAccess::Read(REG_CARG, Err(failure.error)),
            ],
            CommandPostObservationStage::ReadControl => seq![
                MmcAccess::Read(REG_CARG, Ok(failure.argument->Some_0)),
                MmcAccess::Read(REG_CCTL, Err(failure.error)),
            ],
            CommandPostObservationStage::ReadCommandStatus => seq![
                MmcAccess::Read(REG_CARG, Ok(failure.argument->Some_0)),
                MmcAccess::Read(REG_CCTL, Ok(failure.control->Some_0)),
                MmcAccess::Read(REG_CSTS, Err(failure.error)),
            ],
            CommandPostObservationStage::ReadDataStatus => seq![
                MmcAccess::Read(REG_CARG, Ok(failure.argument->Some_0)),
                MmcAccess::Read(REG_CCTL, Ok(failure.control->Some_0)),
                MmcAccess::Read(REG_CSTS, Ok(failure.command_status->Some_0)),
                MmcAccess::Read(REG_DSTS, Err(failure.error)),
            ],
            CommandPostObservationStage::ReadInterrupts => seq![
                MmcAccess::Read(REG_CARG, Ok(failure.argument->Some_0)),
                MmcAccess::Read(REG_CCTL, Ok(failure.control->Some_0)),
                MmcAccess::Read(REG_CSTS, Ok(failure.command_status->Some_0)),
                MmcAccess::Read(REG_DSTS, Ok(failure.data_status->Some_0)),
                MmcAccess::Read(REG_INT, Err(failure.error)),
            ],
        },
    }
}

/// Read a fixed post-command register sequence without changing controller
/// state.
pub fn observe_command_post_state<R: RegisterIo>(registers: &mut R) -> (result: Result<
    CommandPostSnapshot,
    CommandPostObservationFailure,
>)
    ensures
        result matches Err(failure) ==> post_observation_prefix(failure),
        final(registers).accesses() == old(registers).accesses() + post_state_reads(result),
{
    let ghost before = registers.accesses();
    let argument = match registers.read32(REG_CARG) {
        Ok(value) => value,
        Err(error) => {
            let failure = CommandPostObservationFailure {
                    stage: CommandPostObservationStage::ReadArgument,
                    error,
                    argument: None,
                    control: None,
                    command_status: None,
                    data_status: None,
            };
            assert(registers.accesses() =~= before + post_state_reads(
                Err::<CommandPostSnapshot, CommandPostObservationFailure>(failure),
            ));
            return Err(failure);
        },
    };
    let control = match registers.read32(REG_CCTL) {
        Ok(value) => value,
        Err(error) => {
            let failure = CommandPostObservationFailure {
                    stage: CommandPostObservationStage::ReadControl,
                    error,
                    argument: Some(argument),
                    control: None,
                    command_status: None,
                    data_status: None,
            };
            assert(registers.accesses() =~= before + post_state_reads(
                Err::<CommandPostSnapshot, CommandPostObservationFailure>(failure),
            ));
            return Err(failure);
        },
    };
    let command_status = match registers.read32(REG_CSTS) {
        Ok(value) => value,
        Err(error) => {
            let failure = CommandPostObservationFailure {
                    stage: CommandPostObservationStage::ReadCommandStatus,
                    error,
                    argument: Some(argument),
                    control: Some(control),
                    command_status: None,
                    data_status: None,
            };
            assert(registers.accesses() =~= before + post_state_reads(
                Err::<CommandPostSnapshot, CommandPostObservationFailure>(failure),
            ));
            return Err(failure);
        },
    };
    let data_status = match registers.read32(REG_DSTS) {
        Ok(value) => value,
        Err(error) => {
            let failure = CommandPostObservationFailure {
                    stage: CommandPostObservationStage::ReadDataStatus,
                    error,
                    argument: Some(argument),
                    control: Some(control),
                    command_status: Some(command_status),
                    data_status: None,
            };
            assert(registers.accesses() =~= before + post_state_reads(
                Err::<CommandPostSnapshot, CommandPostObservationFailure>(failure),
            ));
            return Err(failure);
        },
    };
    let interrupts = match registers.read32(REG_INT) {
        Ok(value) => value,
        Err(error) => {
            let failure = CommandPostObservationFailure {
                    stage: CommandPostObservationStage::ReadInterrupts,
                    error,
                    argument: Some(argument),
                    control: Some(control),
                    command_status: Some(command_status),
                    data_status: Some(data_status),
            };
            assert(registers.accesses() =~= before + post_state_reads(
                Err::<CommandPostSnapshot, CommandPostObservationFailure>(failure),
            ));
            return Err(failure);
        },
    };
    let snapshot = CommandPostSnapshot { argument, control, command_status, data_status, interrupts };
    assert(registers.accesses() =~= before + post_state_reads(
        Ok::<CommandPostSnapshot, CommandPostObservationFailure>(snapshot),
    ));
    Ok(snapshot)
}

/// Conservative classification of command-validation evidence.
#[derive(Debug, Clone, Copy, PartialEq, Eq, Structural)]
pub enum CommandEvidenceDisposition {
    /// Complete and internally clean observation; never an authorization token.
    ObservedOnly,
    IncompleteTrace,
    UnsafeState,
}

/// Derived diagnostic facts; this type cannot authorize a response policy.
#[derive(Debug, Clone, Copy, PartialEq, Eq, Structural)]
pub struct CommandValidationAssessment {
    pub disposition: CommandEvidenceDisposition,
    pub command_completed: bool,
    pub trace_complete: bool,
    pub controller_idle: bool,
    pub command_registers_clean: bool,
    pub known_interrupts: u32,
    pub unknown_interrupts: u32,
}

/// The assessment that `trace` and `post` call for.
pub open spec fn command_assessment(trace: CommandTrace, post: CommandPostSnapshot) -> CommandValidationAssessment {
    let command_completed = trace.outcome == CommandTraceOutcome::Completed;
    let trace_complete = trace.dropped_interrupt_samples == 0;
    let controller_idle = post.command_status & CSTS_ON == 0 && post.data_status & DSTS_ACTIVE == 0;
    let command_registers_clean = post.argument == 0 && post.control == 0;
    let known_interrupts = post.interrupts & INT_CLEAR;
    let unknown_interrupts = post.interrupts & !INT_CLEAR;
    CommandValidationAssessment {
        disposition: if !trace_complete {
            CommandEvidenceDisposition::IncompleteTrace
        } else if !command_completed || !controller_idle || !command_registers_clean
            || known_interrupts != 0 || unknown_interrupts != 0 {
            CommandEvidenceDisposition::UnsafeState
        } else {
            CommandEvidenceDisposition::ObservedOnly
        },
        command_completed,
        trace_complete,
        controller_idle,
        command_registers_clean,
        known_interrupts,
        unknown_interrupts,
    }
}

/// Classify software and register evidence without enabling any response
/// policy or constructing a hardware-ready token.
pub fn assess_command_validation(trace: CommandTrace, post: CommandPostSnapshot) -> (assessment:
    CommandValidationAssessment)
    ensures
        assessment == command_assessment(trace, post),
{
    let command_completed = trace.outcome == CommandTraceOutcome::Completed;
    let trace_complete = trace.dropped_interrupt_samples == 0;
    let controller_idle = post.command_status & CSTS_ON == 0 && post.data_status & DSTS_ACTIVE == 0;
    let command_registers_clean = post.argument == 0 && post.control == 0;
    let known_interrupts = post.interrupts & INT_CLEAR;
    let unknown_interrupts = post.interrupts & !INT_CLEAR;
    let disposition = if !trace_complete {
        CommandEvidenceDisposition::IncompleteTrace
    } else if !command_completed || !controller_idle || !command_registers_clean
        || known_interrupts != 0 || unknown_interrupts != 0 {
        CommandEvidenceDisposition::UnsafeState
    } else {
        CommandEvidenceDisposition::ObservedOnly
    };
    CommandValidationAssessment {
        disposition,
        command_completed,
        trace_complete,
        controller_idle,
        command_registers_clean,
        known_interrupts,
        unknown_interrupts,
    }
}

impl<R: RegisterIo> Host<R, ClockConfigured> {
    /// Make the clock-configured session command-capable; only an assembled
    /// prerequisite proof can do so.
    pub fn authorize(self, _proof: ControllerPrerequisiteProof) -> (host: Host<R, CommandReady>)
        ensures
            host.wf() == self.wf(),
            host.polls() == self.polls(),
            host.backend() == self.backend(),
    {
        self.change_state()
    }
}

} // verus!
