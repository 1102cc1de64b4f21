//! Aggregate MMC prerequisite evidence without activating the controller.
//!
//! Topology ownership, instantaneous observations and hardware-verified tokens
//! remain distinct. A normal diagnosis cannot form a
//! [`ControllerPrerequisiteProof`].
use vstd::prelude::*;

use crate::clock::ClockError;
use crate::gpio::{CardDetectSnapshot, GpioError};
use crate::mmc::{ControllerClockReady, PrerequisiteStatus};
use crate::mmc_diagnostic::{CardDetectDiagnosis, Diagnosis};
use crate::pinctrl::{PinctrlError, PinctrlSnapshot};

verus! {

#[derive(Debug, Clone, Copy, PartialEq, Eq, Structural)]
pub enum GateStatus {
    Satisfied,
    ObservedOnly,
    UnverifiedOnHardware,
    Blocked,
    Missing,
    Unsupported,
    Error,
}

/// Stable text code of each gate status.
pub open spec fn gate_text(status: GateStatus) -> Seq<char> {
    match status {
        GateStatus::Satisfied => "satisfied"@,
        GateStatus::ObservedOnly => "observed-only"@,
        GateStatus::UnverifiedOnHardware => "unverified-hardware"@,
        GateStatus::Blocked => "blocked"@,
        GateStatus::Missing => "missing"@,
        GateStatus::Unsupported => "unsupported"@,
        GateStatus::Error => "error"@,
    }
}

pub fn gate_code(status: GateStatus) -> (code: &'static str)
    ensures
        code@ == gate_text(status),
{
    match status {
        GateStatus::Satisfied => "satisfied",
        GateStatus::ObservedOnly => "observed-only",
        GateStatus::UnverifiedOnHardware => "unverified-hardware",
        GateStatus::Blocked => "blocked",
        GateStatus::Missing => "missing",
        GateStatus::Unsupported => "unsupported",
        GateStatus::Error => "error",
    }
}

#[derive(Debug, Clone, Copy, PartialEq, Eq, Structural)]
pub enum IrqObservation {
    Unavailable,
    Transitional,
    LiveObserved,
    LiveDegraded,
}

#[derive(Debug, Clone, Copy, PartialEq, Eq, Structural)]
pub struct PrerequisiteReport {
    pub clock: GateStatus,
    pub vmmc: GateStatus,
    pub vqmmc: GateStatus,
    pub pinctrl: GateStatus,
    pub card_detect: GateStatus,
    pub irq: GateStatus,
}

impl PrerequisiteReport {
    /// Every gate is satisfied.
    pub open spec fn all_satisfied(self) -> bool {
        &&& self.clock == GateStatus::Satisfied
        &&& self.vmmc == GateStatus::Satisfied
        &&& self.vqmmc == GateStatus::Satisfied
        &&& self.pinctrl == GateStatus::Satisfied
        &&& self.card_detect == GateStatus::Satisfied
        &&& self.irq == GateStatus::Satisfied
    }

    pub fn can_form_proof(&self) -> (r: bool)
        ensures
            r == self.all_satisfied(),
    {
        self.clock == GateStatus::Satisfied && self.vmmc == GateStatus::Satisfied && self.vqmmc
            == GateStatus::Satisfied && self.pinctrl == GateStatus::Satisfied && self.card_detect
            == GateStatus::Satisfied && self.irq == GateStatus::Satisfied
    }
}

/// Hardware-verified clock-control evidence. No normal constructor exists.
pub struct ClockReady {
    controller: ControllerClockReady,
}

impl ClockReady {
    /// The caller asserts that it verified clock programming, stability and
    /// target rate on the physical board, not merely a read-only snapshot.
    pub fn assume_verified(controller: ControllerClockReady) -> (ready: Self)
        ensures
            ready.controller() == controller,
    {
        Self { controller }
    }

    /// The controller-clock evidence this token carries.
    pub closed spec fn controller(self) -> ControllerClockReady {
        self.controller
    }
}

/// Hardware-verified rail and sequencing evidence. No normal constructor exists.
pub struct PowerReady {
    _private: (),
}

impl PowerReady {
    /// The caller asserts that it verified both physical rails and their
    /// sequencing.
    pub fn assume_verified() -> Self {
        Self { _private: () }
    }
}

/// The card is known to be present.
pub struct CardReady {
    _private: (),
}

/// Card-detect evidence that shows a card present.
pub open spec fn card_present(value: CardDetectDiagnosis) -> bool {
    match value {
        CardDetectDiagnosis::NonRemovable => true,
        CardDetectDiagnosis::Gpio(Ok(snapshot)) => snapshot.card_present,
        _ => false,
    }
}

impl CardReady {
    pub fn from_diagnosis(value: CardDetectDiagnosis) -> (ready: Option<Self>)
        ensures
            ready is Some <==> card_present(value),
    {
        match value {
            CardDetectDiagnosis::NonRemovable => Some(Self { _private: () }),
            CardDetectDiagnosis::Gpio(Ok(snapshot)) => if snapshot.card_present {
                Some(Self { _private: () })
            } else {
                None
            },
            _ => None,
        }
    }
}

/// Hardware-verified interrupt delivery evidence. No normal constructor exists.
pub struct IrqReady {
    _private: (),
}

impl IrqReady {
    /// The caller asserts that it verified real MMC interrupt delivery,
    /// device ack, masking and rearm on the physical board.
    pub fn assume_verified() -> Self {
        Self { _private: () }
    }
}

/// Opaque aggregate prerequisite proof. This is still not a data-path token.
pub struct ControllerPrerequisiteProof {
    clock: ClockReady,
    power: PowerReady,
    card: CardReady,
    irq: IrqReady,
}

impl ControllerPrerequisiteProof {
    /// The controller-clock evidence inside the proof.
    pub closed spec fn clock_evidence(self) -> ControllerClockReady {
        self.clock.controller
    }
}

pub fn assemble_proof(clock: ClockReady, power: PowerReady, card: CardReady, irq: IrqReady) -> (proof:
    ControllerPrerequisiteProof)
    ensures
        proof.clock_evidence() == clock.controller(),
{
    ControllerPrerequisiteProof { clock, power, card, irq }
}

/// Gate of a supply known only from the topology: a supply present by
/// topology, board wiring or firmware is unverified on hardware; one that
/// needs a driver blocks; a missing or unsupported one says so.
pub open spec fn power_gate(status: PrerequisiteStatus) -> GateStatus {
    match status {
        PrerequisiteStatus::ReadyByTopology | PrerequisiteStatus::ImplicitBoardSupply
        | PrerequisiteStatus::FirmwareMaintained => GateStatus::UnverifiedOnHardware,
        PrerequisiteStatus::RequiresDriver => GateStatus::Blocked,
        PrerequisiteStatus::Missing => GateStatus::Missing,
        PrerequisiteStatus::UnsupportedProvider => GateStatus::Unsupported,
    }
}

pub fn topology_power(status: PrerequisiteStatus) -> (gate: GateStatus)
    ensures
        gate == power_gate(status),
{
    match status {
        PrerequisiteStatus::ReadyByTopology | PrerequisiteStatus::ImplicitBoardSupply
        | PrerequisiteStatus::FirmwareMaintained => GateStatus::UnverifiedOnHardware,
        PrerequisiteStatus::RequiresDriver => GateStatus::Blocked,
        PrerequisiteStatus::Missing => GateStatus::Missing,
        PrerequisiteStatus::UnsupportedProvider => GateStatus::Unsupported,
    }
}

/// The observed pinmux routes the controller: SDIO is selected and the card
/// detect pin is muxed to GPIO.
pub open spec fn pins_ready(snapshot: PinctrlSnapshot) -> bool {
    snapshot.sdio_selected && snapshot.card_detect_gpio_selected
}

/// Gate of each prerequisite for one diagnosis and interrupt observation.
/// A clock snapshot is only observed; a supply known from topology is at
/// best unverified on hardware; the pinmux and card presence are satisfied
/// by what was read; a live interrupt view is only observed.
pub open spec fn report_spec(diagnosis: Diagnosis, irq: IrqObservation) -> PrerequisiteReport {
    PrerequisiteReport {
        clock: match diagnosis.clock {
            Ok(_) => GateStatus::ObservedOnly,
            Err(ClockError::UnsupportedProvider) => GateStatus::Unsupported,
            Err(_) => GateStatus::Error,
        },
        vmmc: power_gate(diagnosis.plan.prerequisites.vmmc),
        vqmmc: power_gate(diagnosis.plan.prerequisites.vqmmc),
        pinctrl: match diagnosis.pinctrl {
            Ok(snapshot) => if pins_ready(snapshot) {
                GateStatus::Satisfied
            } else {
                GateStatus::Blocked
            },
            Err(PinctrlError::Missing) => GateStatus::Missing,
            Err(PinctrlError::UnsupportedProvider) => GateStatus::Unsupported,
            Err(PinctrlError::Io) => GateStatus::Error,
        },
        card_detect: match diagnosis.card_detect {
            CardDetectDiagnosis::NonRemovable => GateStatus::Satisfied,
            CardDetectDiagnosis::Gpio(Ok(snapshot)) => if snapshot.card_present {
                GateStatus::Satisfied
            } else {
                GateStatus::Blocked
            },
            CardDetectDiagnosis::Gpio(Err(GpioError::UnsupportedProvider)) => GateStatus::Unsupported,
            CardDetectDiagnosis::Gpio(Err(_)) => GateStatus::Error,
            CardDetectDiagnosis::FirmwareMaintainedBroken => GateStatus::UnverifiedOnHardware,
            CardDetectDiagnosis::NativeUnavailable => GateStatus::Missing,
        },
        irq: match irq {
            IrqObservation::Unavailable => GateStatus::Missing,
            IrqObservation::Transitional | IrqObservation::LiveDegraded => GateStatus::Blocked,
            IrqObservation::LiveObserved => GateStatus::ObservedOnly,
        },
    }
}

/// Classify every prerequisite gate of a diagnosis.
pub fn report(diagnosis: Diagnosis, irq: IrqObservation) -> (r: PrerequisiteReport)
    ensures
        r == report_spec(diagnosis, irq),
{
    let clock = match diagnosis.clock {
        Ok(_) => GateStatus::ObservedOnly,
        Err(ClockError::UnsupportedProvider) => GateStatus::Unsupported,
        Err(_) => GateStatus::Error,
    };
    let pinctrl = match diagnosis.pinctrl {
        Ok(snapshot) => if snapshot.sdio_selected && snapshot.card_detect_gpio_selected {
            GateStatus::Satisfied
        } else {
            GateStatus::Blocked
        },
        Err(PinctrlError::Missing) => GateStatus::Missing,
        Err(PinctrlError::UnsupportedProvider) => GateStatus::Unsupported,
        Err(PinctrlError::Io) => GateStatus::Error,
    };
    let card_detect = match diagnosis.card_detect {
        CardDetectDiagnosis::NonRemovable => GateStatus::Satisfied,
        CardDetectDiagnosis::Gpio(Ok(snapshot)) => if snapshot.card_present {
            GateStatus::Satisfied
        } else {
            GateStatus::Blocked
        },
        CardDetectDiagnosis::Gpio(Err(GpioError::UnsupportedProvider)) => GateStatus::Unsupported,
        CardDetectDiagnosis::Gpio(Err(_)) => GateStatus::Error,
        CardDetectDiagnosis::FirmwareMaintainedBroken => GateStatus::UnverifiedOnHardware,
        CardDetectDiagnosis::NativeUnavailable => GateStatus::Missing,
    };
    let irq_gate = match irq {
        IrqObservation::Unavailable => GateStatus::Missing,
        IrqObservation::Transitional | IrqObservation::LiveDegraded => GateStatus::Blocked,
        IrqObservation::LiveObserved => GateStatus::ObservedOnly,
    };
    PrerequisiteReport {
        clock,
        vmmc: topology_power(diagnosis.plan.prerequisites.vmmc),
        vqmmc: topology_power(diagnosis.plan.prerequisites.vqmmc),
        pinctrl,
        card_detect,
        irq: irq_gate,
    }
}

/// No diagnosis forms a prerequisite proof on its own: the supply gates
/// never reach satisfied from topology, so a report never has every gate
/// satisfied.
pub proof fn lemma_report_never_proves(diagnosis: Diagnosis, irq: IrqObservation)
    ensures
        !report_spec(diagnosis, irq).all_satisfied(),
{
    lemma_topology_never_satisfies(diagnosis.plan.prerequisites.vmmc);
}

/// Topology evidence alone never satisfies a supply gate: whatever the
/// device tree says of a supply, its gate is at best unverified on hardware.
pub proof fn lemma_topology_never_satisfies(status: PrerequisiteStatus)
    ensures
        power_gate(status) != GateStatus::Satisfied,
{
}

} // verus!
