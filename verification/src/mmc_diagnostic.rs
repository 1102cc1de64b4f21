//! Combined read-only MMC prerequisite diagnostics.
//!
//! A successful snapshot is evidence about one instant, not permission to
//! activate the host. Every [`Diagnosis`] retains the bring-up plan it came from,
//! whose blockers remain authoritative.
use core::sync::atomic::{AtomicBool, Ordering};
use vstd::prelude::*;
use vstd::string::StringExecFns;

use crate::clock::{self, ClockError, ClockSnapshot};
use crate::gpio::{self, CardDetectSnapshot, GpioError};
use crate::mmc::{
    self, BringUpPlan, CommandEvidenceDisposition, CommandPostObservationFailure,
    CommandPostObservationStage, CommandPostSnapshot, CommandStage, CommandTrace,
    CommandTraceOutcome, CommandValidationAssessment, PlanError, PrerequisiteStatus, ResponseType,
};
use crate::mmc_prerequisite::{
    gate_code, gate_text, pins_ready, report, report_spec, IrqObservation,
};
use crate::pinctrl::{self, PinctrlError, PinctrlSnapshot};
use crate::topology::{CardDetect, MmcClockProvider, MmcDescription, PinctrlProvider};

verus! {

/// Non-blocking exclusion for explicit physical diagnostic reads.
pub struct DiagnosticGate {
    busy: AtomicBool,
}

impl DiagnosticGate {
    pub fn new() -> Self {
        Self { busy: AtomicBool::new(false) }
    }

    /// Take the diagnostic token when no diagnosis is in progress. Whether
    /// one is in progress is the atomic flag's to say; a guard that is
    /// handed out belongs to this gate.
    pub fn try_enter(&self) -> (result: Result<DiagnosticGuard<'_>, GateError>)
        ensures
            result matches Ok(guard) ==> guard.gate() == *self,
    {
        match self.busy.compare_exchange(false, true, Ordering::AcqRel, Ordering::Acquire) {
            Ok(_) => Ok(DiagnosticGuard { gate: self }),
            Err(_) => Err(GateError::Busy),
        }
    }
}

impl Default for DiagnosticGate {
    fn default() -> Self {
        Self::new()
    }
}

/// Token for one diagnosis; dropping it ends the diagnosis.
pub struct DiagnosticGuard<'a> {
    gate: &'a DiagnosticGate,
}

impl<'a> DiagnosticGuard<'a> {
    /// Gate of this guard.
    pub closed spec fn gate(&self) -> DiagnosticGate {
        *self.gate
    }
}

impl<'a> Drop for DiagnosticGuard<'a> {
    fn drop(&mut self)
        opens_invariants none
        no_unwind
    {
        mmc::release_flag(&self.gate.busy);
    }
}

#[derive(Debug, Clone, Copy, PartialEq, Eq, Structural)]
pub enum GateError {
    Busy,
}

#[derive(Debug, Clone, Copy, PartialEq, Eq)]
pub enum CardDetectDiagnosis {
    /// No removable-card observation is necessary.
    NonRemovable,
    /// Firmware or board policy owns detection; no level was observed.
    FirmwareMaintainedBroken,
    /// Native controller detection has no safe read-only model yet.
    NativeUnavailable,
    Gpio(Result<CardDetectSnapshot, GpioError>),
}

#[derive(Debug, Clone, Copy, PartialEq, Eq)]
pub struct Diagnosis {
    pub plan: BringUpPlan,
    pub clock: Result<ClockSnapshot, ClockError>,
    pub pinctrl: Result<PinctrlSnapshot, PinctrlError>,
    pub card_detect: CardDetectDiagnosis,
}

/// The card-detect observation kind a description calls for.
pub open spec fn card_diagnosis_kind(card: CardDetect, diagnosis: CardDetectDiagnosis) -> bool {
    match card {
        CardDetect::NonRemovable => diagnosis == CardDetectDiagnosis::NonRemovable,
        CardDetect::Broken => diagnosis == CardDetectDiagnosis::FirmwareMaintainedBroken,
        CardDetect::Native => diagnosis == CardDetectDiagnosis::NativeUnavailable,
        CardDetect::Gpio(_) => diagnosis is Gpio,
    }
}

/// Whether the static bring-up plan of `description` is refused.
pub open spec fn plan_refused(description: MmcDescription) -> bool {
    ||| description.controller_mmio.size < mmc::MIN_CONTROLLER_WINDOW
    ||| description.auxiliary_mmio is None
    ||| description.auxiliary_mmio->Some_0.size < 4
    ||| description.clocks@.len() != 1
}

/// Collect clock, pinmux and card-detect evidence without changing hardware
/// state. Errors are retained in the diagnosis; only an invalid static
/// bring-up plan prevents a result.
pub fn diagnose<C: clock::RegisterIo, G: gpio::RegisterIo, P: pinctrl::RegisterIo>(
    description: &MmcDescription,
    clock_registers: &mut C,
    gpio_registers: &mut G,
    pinctrl_registers: &mut P,
) -> (result: Result<Diagnosis, PlanError>)
    ensures
        result is Err <==> plan_refused(*description),
        match result {
            Ok(diagnosis) => {
                &&& diagnosis.plan.controller_mmio == description.controller_mmio
                &&& diagnosis.plan.auxiliary_mmio == description.auxiliary_mmio->Some_0
                &&& diagnosis.plan.bus_width == description.bus_width
                &&& diagnosis.plan.prerequisites.clock == mmc::clock_status(
                    description.clock_provider,
                )
                &&& diagnosis.plan.prerequisites.vmmc == mmc::supply_status(description.vmmc_supply)
                &&& diagnosis.plan.prerequisites.vqmmc == mmc::supply_status(
                    description.vqmmc_supply,
                )
                &&& diagnosis.plan.prerequisites.pinctrl == mmc::pinctrl_status(description.pinctrl)
                &&& diagnosis.plan.prerequisites.card_detect == mmc::card_detect_status(
                    description.card_detect,
                )
                &&& diagnosis.plan.blockers@ == mmc::standard_blockers()
                &&& card_diagnosis_kind(description.card_detect, diagnosis.card_detect)
                &&& (description.clock_provider is Unsupported ==> diagnosis.clock == Err::<
                    ClockSnapshot,
                    ClockError,
                >(ClockError::UnsupportedProvider))
                &&& (description.pinctrl is None ==> diagnosis.pinctrl == Err::<
                    PinctrlSnapshot,
                    PinctrlError,
                >(PinctrlError::Missing))
                &&& (description.pinctrl matches Some(state) && state.provider is Unsupported
                    ==> diagnosis.pinctrl == Err::<PinctrlSnapshot, PinctrlError>(
                    PinctrlError::UnsupportedProvider,
                ))
            },
            Err(error) => if description.controller_mmio.size < mmc::MIN_CONTROLLER_WINDOW {
                error == PlanError::ControllerWindowTooSmall
            } else if description.auxiliary_mmio is None || description.auxiliary_mmio->Some_0.size
                < 4 {
                error == PlanError::MissingAuxiliaryWindow
            } else {
                error == PlanError::MissingClock
            },
        },
{
    let plan = mmc::plan(description)?;
    let clock = match clock::snapshot_provider_consistent(description.clock_provider, clock_registers) {
        Ok(value) => Ok(value.snapshot()),
        Err(recovery) => Err(
            match recovery.error {
                Some(error) => error,
                None => ClockError::Inconsistent,
            },
        ),
    };
    let pinctrl = pinctrl::snapshot(description.pinctrl, pinctrl_registers);
    let card_detect = match &description.card_detect {
        CardDetect::NonRemovable => CardDetectDiagnosis::NonRemovable,
        CardDetect::Broken => CardDetectDiagnosis::FirmwareMaintainedBroken,
        CardDetect::Native => CardDetectDiagnosis::NativeUnavailable,
        CardDetect::Gpio(line) => CardDetectDiagnosis::Gpio(
            gpio::card_detect_snapshot(line, gpio_registers),
        ),
    };
    Ok(Diagnosis { plan, clock, pinctrl, card_detect })
}

/// `core::fmt::Error`, the error a formatting sink reports.
#[verifier::external_type_specification]
#[verifier::external_body]
pub struct ExFmtError(core::fmt::Error);

/// Lower-case hexadecimal digit of `d`.
pub open spec fn hex_digit(d: nat) -> char {
    if d < 10 {
        (48 + d) as char
    } else {
        (87 + d) as char
    }
}

/// Lower-case hexadecimal digits of `value`, without leading zeros.
pub open spec fn hex_digits(value: nat) -> Seq<char>
    decreases value,
{
    if value < 16 {
        seq![hex_digit(value)]
    } else {
        hex_digits(value / 16).push(hex_digit(value % 16))
    }
}

/// Decimal digits of `value`, without leading zeros.
pub open spec fn decimal_digits(value: nat) -> Seq<char>
    decreases value,
{
    if value < 10 {
        seq![(48 + value) as char]
    } else {
        decimal_digits(value / 10).push((48 + value % 10) as char)
    }
}

/// `value` as `{:#x}` writes it.
pub open spec fn hex_text(value: nat) -> Seq<char> {
    "0x"@ + hex_digits(value)
}

/// Calls `format!("{value:#x}")`. std documents the `#x` form as lower-case
/// hexadecimal digits without leading zeros behind a `0x` prefix.
#[verifier::external_body]
fn hex_string(value: u64) -> (text: String)
    ensures
        text@ == hex_text(value as nat),
{
    format!("{value:#x}")
}

/// Calls `format!("{value}")`. std documents integer `Display` as the
/// decimal digits without leading zeros.
#[verifier::external_body]
fn decimal_string(value: u64) -> (text: String)
    ensures
        text@ == decimal_digits(value as nat),
{
    format!("{value}")
}

/// Calls `Write::write_str` of the sink; what it accepts is the sink's own
/// business, so nothing is stated of the result.
#[verifier::external_body]
fn write_text<W: core::fmt::Write>(output: &mut W, text: &str) -> Result<(), core::fmt::Error> {
    output.write_str(text)
}

pub open spec fn flag_text(flag: bool) -> Seq<char> {
    if flag {
        "1"@
    } else {
        "0"@
    }
}

fn flag_code(flag: bool) -> (code: &'static str)
    ensures
        code@ == flag_text(flag),
{
    if flag {
        "1"
    } else {
        "0"
    }
}

pub open spec fn optional_hex_text(value: Option<u32>) -> Seq<char> {
    match value {
        Some(v) => hex_text(v as nat),
        None => "na"@,
    }
}

fn optional_hex(value: Option<u32>) -> (text: String)
    ensures
        text@ == optional_hex_text(value),
{
    match value {
        Some(v) => hex_string(v as u64),
        None => String::from_str("na"),
    }
}

pub open spec fn post_stage_text(stage: CommandPostObservationStage) -> Seq<char> {
    match stage {
        CommandPostObservationStage::ReadArgument => "read-carg"@,
        CommandPostObservationStage::ReadControl => "read-cctl"@,
        CommandPostObservationStage::ReadCommandStatus => "read-csts"@,
        CommandPostObservationStage::ReadDataStatus => "read-dsts"@,
        CommandPostObservationStage::ReadInterrupts => "read-int"@,
    }
}

fn post_stage_code(stage: CommandPostObservationStage) -> (code: &'static str)
    ensures
        code@ == post_stage_text(stage),
{
    match stage {
        CommandPostObservationStage::ReadArgument => "read-carg",
        CommandPostObservationStage::ReadControl => "read-cctl",
        CommandPostObservationStage::ReadCommandStatus => "read-csts",
        CommandPostObservationStage::ReadDataStatus => "read-dsts",
        CommandPostObservationStage::ReadInterrupts => "read-int",
    }
}

/// Stable text of a controller post-observation.
pub open spec fn post_text(post: Result<CommandPostSnapshot, CommandPostObservationFailure>) -> Seq<
    char,
> {
    match post {
        Ok(post) => "controller=ok carg="@ + hex_text(post.argument as nat) + " cctl="@ + hex_text(
            post.control as nat,
        ) + " csts="@ + hex_text(post.command_status as nat) + " dsts="@ + hex_text(
            post.data_status as nat,
        ) + " int="@ + hex_text(post.interrupts as nat) + " idle="@ + flag_text(
            post.command_status & 0x100 == 0 && post.data_status & 3 == 0,
        ) + " clean="@ + flag_text(post.argument == 0 && post.control == 0) + " int_known="@
            + hex_text((post.interrupts & 0x3FF) as nat) + " int_unknown="@ + hex_text(
            (post.interrupts & !0x3FFu32) as nat,
        ),
        Err(failure) => "controller=error:"@ + post_stage_text(failure.stage) + " carg="@
            + optional_hex_text(failure.argument) + " cctl="@ + optional_hex_text(failure.control)
            + " csts="@ + optional_hex_text(failure.command_status) + " dsts="@
            + optional_hex_text(failure.data_status) + " int=na"@,
    }
}

/// The stable, single-line text of a controller post-observation.
pub fn command_post_text(post: Result<CommandPostSnapshot, CommandPostObservationFailure>) -> (text:
    String)
    ensures
        text@ == post_text(post),
{
    match post {
        Ok(post) => {
            let mut out = String::from_str("controller=ok carg=");
            out.append(hex_string(post.argument as u64).as_str());
            out.append(" cctl=");
            out.append(hex_string(post.control as u64).as_str());
            out.append(" csts=");
            out.append(hex_string(post.command_status as u64).as_str());
            out.append(" dsts=");
            out.append(hex_string(post.data_status as u64).as_str());
            out.append(" int=");
            out.append(hex_string(post.interrupts as u64).as_str());
            out.append(" idle=");
            out.append(flag_code(post.command_status & 0x100 == 0 && post.data_status & 3 == 0));
            out.append(" clean=");
            out.append(flag_code(post.argument == 0 && post.control == 0));
            out.append(" int_known=");
            out.append(hex_string((post.interrupts & 0x3FF) as u64).as_str());
            out.append(" int_unknown=");
            out.append(hex_string((post.interrupts & !0x3FFu32) as u64).as_str());
            out
        },
        Err(failure) => {
            let mut out = String::from_str("controller=error:");
            out.append(post_stage_code(failure.stage));
            out.append(" carg=");
            out.append(optional_hex(failure.argument).as_str());
            out.append(" cctl=");
            out.append(optional_hex(failure.control).as_str());
            out.append(" csts=");
            out.append(optional_hex(failure.command_status).as_str());
            out.append(" dsts=");
            out.append(optional_hex(failure.data_status).as_str());
            out.append(" int=na");
            out
        },
    }
}

/// Append the stable controller post-observation fragment to `output`.
pub fn write_command_post<W: core::fmt::Write>(
    output: &mut W,
    post: Result<CommandPostSnapshot, CommandPostObservationFailure>,
) -> Result<(), core::fmt::Error> {
    let text = command_post_text(post);
    write_text(output, text.as_str())
}

pub open spec fn response_text(response: ResponseType) -> Seq<char> {
    match response {
        ResponseType::NoResponse => "none"@,
        ResponseType::Short => "short"@,
        ResponseType::Long => "long"@,
    }
}

fn response_code(response: ResponseType) -> (code: &'static str)
    ensures
        code@ == response_text(response),
{
    match response {
        ResponseType::NoResponse => "none",
        ResponseType::Short => "short",
        ResponseType::Long => "long",
    }
}

pub open spec fn stage_text(stage: CommandStage) -> Seq<char> {
    match stage {
        CommandStage::ClearInterrupts => "clear-int"@,
        CommandStage::WriteArgument => "write-carg"@,
        CommandStage::StartCommand => "start"@,
        CommandStage::PollInterrupts => "poll-int"@,
        CommandStage::CommandTimeout => "command-timeout"@,
        CommandStage::ResponseCrc => "response-crc"@,
        CommandStage::PollTimeout => "poll-timeout"@,
        CommandStage::AcknowledgeCompletion => "ack-completion"@,
        CommandStage::ReadResponse0 => "read-rsp0"@,
        CommandStage::ReadResponse1 => "read-rsp1"@,
        CommandStage::ReadResponse2 => "read-rsp2"@,
        CommandStage::ReadResponse3 => "read-rsp3"@,
        CommandStage::CleanupArgument => "cleanup-carg"@,
        CommandStage::CleanupControl => "cleanup-cctl"@,
        CommandStage::RevalidateCommandStatus => "revalidate-csts"@,
        CommandStage::RevalidateDataStatus => "revalidate-dsts"@,
        CommandStage::RevalidateInterrupts => "revalidate-int"@,
        CommandStage::RevalidateBusy => "revalidate-busy"@,
        CommandStage::RevalidateUnknownInterrupt => "revalidate-unknown-int"@,
        CommandStage::RevalidateClearInterrupts => "revalidate-clear-int"@,
        CommandStage::RevalidateInterruptReadback => "revalidate-int-readback"@,
        CommandStage::RevalidateInterruptStillPending => "revalidate-int-pending"@,
        CommandStage::RevalidateCleanupArgument => "revalidate-cleanup-carg"@,
        CommandStage::RevalidateCleanupControl => "revalidate-cleanup-cctl"@,
        CommandStage::RevalidateArgumentReadback => "revalidate-carg-readback"@,
        CommandStage::RevalidateArgumentMismatch => "revalidate-carg-mismatch"@,
        CommandStage::RevalidateControlReadback => "revalidate-cctl-readback"@,
        CommandStage::RevalidateControlMismatch => "revalidate-cctl-mismatch"@,
    }
}

fn command_stage_code(stage: CommandStage) -> (code: &'static str)
    ensures
        code@ == stage_text(stage),
{
    match stage {
        CommandStage::ClearInterrupts => "clear-int",
        CommandStage::WriteArgument => "write-carg",
        CommandStage::StartCommand => "start",
        CommandStage::PollInterrupts => "poll-int",
        CommandStage::CommandTimeout => "command-timeout",
        CommandStage::ResponseCrc => "response-crc",
        CommandStage::PollTimeout => "poll-timeout",
        CommandStage::AcknowledgeCompletion => "ack-completion",
        CommandStage::ReadResponse0 => "read-rsp0",
        CommandStage::ReadResponse1 => "read-rsp1",
        CommandStage::ReadResponse2 => "read-rsp2",
        CommandStage::ReadResponse3 => "read-rsp3",
        CommandStage::CleanupArgument => "cleanup-carg",
        CommandStage::CleanupControl => "cleanup-cctl",
        CommandStage::RevalidateCommandStatus => "revalidate-csts",
        CommandStage::RevalidateDataStatus => "revalidate-dsts",
        CommandStage::RevalidateInterrupts => "revalidate-int",
        CommandStage::RevalidateBusy => "revalidate-busy",
        CommandStage::RevalidateUnknownInterrupt => "revalidate-unknown-int",
        CommandStage::RevalidateClearInterrupts => "revalidate-clear-int",
        CommandStage::RevalidateInterruptReadback => "revalidate-int-readback",
        CommandStage::RevalidateInterruptStillPending => "revalidate-int-pending",
        CommandStage::RevalidateCleanupArgument => "revalidate-cleanup-carg",
        CommandStage::RevalidateCleanupControl => "revalidate-cleanup-cctl",
        CommandStage::RevalidateArgumentReadback => "revalidate-carg-readback",
        CommandStage::RevalidateArgumentMismatch => "revalidate-carg-mismatch",
        CommandStage::RevalidateControlReadback => "revalidate-cctl-readback",
        CommandStage::RevalidateControlMismatch => "revalidate-cctl-mismatch",
    }
}

pub open spec fn outcome_text(outcome: CommandTraceOutcome) -> Seq<char> {
    match outcome {
        CommandTraceOutcome::InFlight => "in-flight"@,
        CommandTraceOutcome::Completed => "completed"@,
        CommandTraceOutcome::Failed(stage) => "failed:"@ + stage_text(stage),
    }
}

/// Stable text of a command trace.
pub open spec fn trace_text(trace: CommandTrace) -> Seq<char> {
    "trace=present cmd="@ + decimal_digits(trace.command_index as nat) + " arg="@ + hex_text(
        trace.argument as nat,
    ) + " response="@ + response_text(trace.response) + " validation=unchecked cctl="@
        + optional_hex_text(trace.programmed_control) + " samples="@ + decimal_digits(
        trace.interrupt_sample_count as nat,
    ) + " dropped="@ + decimal_digits(trace.dropped_interrupt_samples as nat) + " int_union="@
        + hex_text(trace.interrupt_union as nat) + " rsp_mask="@ + hex_text(
        trace.response_read_mask as nat,
    ) + " cleanup="@ + flag_text(trace.cleanup_argument_written) + "/"@ + flag_text(
        trace.cleanup_control_written,
    ) + " outcome="@ + outcome_text(trace.outcome)
}

/// The stable, bounded text of a command trace.
pub fn command_trace_text(trace: CommandTrace) -> (text: String)
    ensures
        text@ == trace_text(trace),
{
    let mut out = String::from_str("trace=present cmd=");
    out.append(decimal_string(trace.command_index as u64).as_str());
    out.append(" arg=");
    out.append(hex_string(trace.argument as u64).as_str());
    out.append(" response=");
    out.append(response_code(trace.response));
    out.append(" validation=unchecked cctl=");
    out.append(optional_hex(trace.programmed_control).as_str());
    out.append(" samples=");
    out.append(decimal_string(trace.interrupt_sample_count as u64).as_str());
    out.append(" dropped=");
    out.append(decimal_string(trace.dropped_interrupt_samples as u64).as_str());
    out.append(" int_union=");
    out.append(hex_string(trace.interrupt_union as u64).as_str());
    out.append(" rsp_mask=");
    out.append(hex_string(trace.response_read_mask as u64).as_str());
    out.append(" cleanup=");
    out.append(flag_code(trace.cleanup_argument_written));
    out.append("/");
    out.append(flag_code(trace.cleanup_control_written));
    out.append(" outcome=");
    match trace.outcome {
        CommandTraceOutcome::InFlight => out.append("in-flight"),
        CommandTraceOutcome::Completed => out.append("completed"),
        CommandTraceOutcome::Failed(stage) => {
            out.append("failed:");
            out.append(command_stage_code(stage));
        },
    }
    out
}

/// Append the stable command-trace fragment to `output`.
pub fn write_command_trace<W: core::fmt::Write>(output: &mut W, trace: CommandTrace) -> Result<
    (),
    core::fmt::Error,
> {
    let text = command_trace_text(trace);
    write_text(output, text.as_str())
}

pub open spec fn disposition_text(disposition: CommandEvidenceDisposition) -> Seq<char> {
    match disposition {
        CommandEvidenceDisposition::ObservedOnly => "observed-only"@,
        CommandEvidenceDisposition::IncompleteTrace => "incomplete-trace"@,
        CommandEvidenceDisposition::UnsafeState => "unsafe-state"@,
    }
}

/// Stable text of a command-validation assessment.
pub open spec fn assessment_text(assessment: CommandValidationAssessment) -> Seq<char> {
    "assessment="@ + disposition_text(assessment.disposition) + " completed="@ + flag_text(
        assessment.command_completed,
    ) + " trace_complete="@ + flag_text(assessment.trace_complete) + " idle="@ + flag_text(
        assessment.controller_idle,
    ) + " clean="@ + flag_text(assessment.command_registers_clean) + " int_known="@ + hex_text(
        assessment.known_interrupts as nat,
    ) + " int_unknown="@ + hex_text(assessment.unknown_interrupts as nat)
}

/// The stable text of an assessment; it never represents authorization.
pub fn command_assessment_text(assessment: CommandValidationAssessment) -> (text: String)
    ensures
        text@ == assessment_text(assessment),
{
    let mut out = String::from_str("assessment=");
    match assessment.disposition {
        CommandEvidenceDisposition::ObservedOnly => out.append("observed-only"),
        CommandEvidenceDisposition::IncompleteTrace => out.append("incomplete-trace"),
        CommandEvidenceDisposition::UnsafeState => out.append("unsafe-state"),
    }
    out.append(" completed=");
    out.append(flag_code(assessment.command_completed));
    out.append(" trace_complete=");
    out.append(flag_code(assessment.trace_complete));
    out.append(" idle=");
    out.append(flag_code(assessment.controller_idle));
    out.append(" clean=");
    out.append(flag_code(assessment.command_registers_clean));
    out.append(" int_known=");
    out.append(hex_string(assessment.known_interrupts as u64).as_str());
    out.append(" int_unknown=");
    out.append(hex_string(assessment.unknown_interrupts as u64).as_str());
    out
}

/// Append the stable assessment fragment to `output`.
pub fn write_command_assessment<W: core::fmt::Write>(
    output: &mut W,
    assessment: CommandValidationAssessment,
) -> Result<(), core::fmt::Error> {
    let text = command_assessment_text(assessment);
    write_text(output, text.as_str())
}

/// Stable code of a clock failure.
pub open spec fn clock_error_text(error: ClockError) -> Seq<char> {
    match error {
        ClockError::Io => "io"@,
        ClockError::ZeroReference => "zero-reference"@,
        ClockError::ZeroPllMultiplier => "zero-pll-multiplier"@,
        ClockError::ZeroPllDivisor => "zero-pll-divisor"@,
        ClockError::RateOverflow => "rate-overflow"@,
        ClockError::Inconsistent => "inconsistent"@,
        ClockError::UnsupportedProvider => "unsupported-provider"@,
    }
}

pub fn clock_error_code(error: ClockError) -> (code: &'static str)
    ensures
        code@ == clock_error_text(error),
{
    match error {
        ClockError::Io => "io",
        ClockError::ZeroReference => "zero-reference",
        ClockError::ZeroPllMultiplier => "zero-pll-multiplier",
        ClockError::ZeroPllDivisor => "zero-pll-divisor",
        ClockError::RateOverflow => "rate-overflow",
        ClockError::Inconsistent => "inconsistent",
        ClockError::UnsupportedProvider => "unsupported-provider",
    }
}

/// Stable code of a GPIO failure.
pub open spec fn gpio_error_text(error: GpioError) -> Seq<char> {
    match error {
        GpioError::Io => "io"@,
        GpioError::UnsupportedProvider => "unsupported-provider"@,
        GpioError::PinOutOfRange => "pin-out-of-range"@,
        GpioError::NotInput => "not-input"@,
    }
}

pub fn gpio_error_code(error: GpioError) -> (code: &'static str)
    ensures
        code@ == gpio_error_text(error),
{
    match error {
        GpioError::Io => "io",
        GpioError::UnsupportedProvider => "unsupported-provider",
        GpioError::PinOutOfRange => "pin-out-of-range",
        GpioError::NotInput => "not-input",
    }
}

/// Stable code of a prerequisite's status.
pub open spec fn prerequisite_text(status: PrerequisiteStatus) -> Seq<char> {
    match status {
        PrerequisiteStatus::ReadyByTopology => "topology-ready"@,
        PrerequisiteStatus::ImplicitBoardSupply => "implicit-board-supply"@,
        PrerequisiteStatus::FirmwareMaintained => "firmware-maintained"@,
        PrerequisiteStatus::RequiresDriver => "requires-driver"@,
        PrerequisiteStatus::Missing => "missing"@,
        PrerequisiteStatus::UnsupportedProvider => "unsupported-provider"@,
    }
}

pub fn prerequisite_code(status: PrerequisiteStatus) -> (code: &'static str)
    ensures
        code@ == prerequisite_text(status),
{
    match status {
        PrerequisiteStatus::ReadyByTopology => "topology-ready",
        PrerequisiteStatus::ImplicitBoardSupply => "implicit-board-supply",
        PrerequisiteStatus::FirmwareMaintained => "firmware-maintained",
        PrerequisiteStatus::RequiresDriver => "requires-driver",
        PrerequisiteStatus::Missing => "missing",
        PrerequisiteStatus::UnsupportedProvider => "unsupported-provider",
    }
}

/// Stable code of a pin-controller failure.
pub open spec fn pinctrl_error_text(error: PinctrlError) -> Seq<char> {
    match error {
        PinctrlError::Io => "io"@,
        PinctrlError::Missing => "missing"@,
        PinctrlError::UnsupportedProvider => "unsupported-provider"@,
    }
}

pub fn pinctrl_error_code(error: PinctrlError) -> (code: &'static str)
    ensures
        code@ == pinctrl_error_text(error),
{
    match error {
        PinctrlError::Io => "io",
        PinctrlError::Missing => "missing",
        PinctrlError::UnsupportedProvider => "unsupported-provider",
    }
}


/// Clock part of a diagnosis line.
pub open spec fn clock_line(clock: Result<ClockSnapshot, ClockError>) -> Seq<char> {
    match clock {
        Ok(snapshot) => "clock=ok ref_hz="@ + decimal_digits(snapshot.reference_hz as nat)
            + " pll_raw="@ + hex_text(snapshot.dc_pll_raw as nat) + " gmac_raw="@ + hex_text(
            snapshot.gmac_div_raw as nat,
        ) + " apb_raw="@ + hex_text(snapshot.apb_scale_raw as nat) + " apb_hz="@
            + decimal_digits(snapshot.apb_hz as nat),
        Err(error) => "clock=error:"@ + clock_error_text(error),
    }
}

/// Card-detect part of a diagnosis line.
pub open spec fn card_line(card: CardDetectDiagnosis) -> Seq<char> {
    match card {
        CardDetectDiagnosis::NonRemovable => "card=non-removable"@,
        CardDetectDiagnosis::FirmwareMaintainedBroken => "card=firmware-maintained-broken"@,
        CardDetectDiagnosis::NativeUnavailable => "card=native-unavailable"@,
        CardDetectDiagnosis::Gpio(Ok(snapshot)) => "card=gpio dir_raw="@ + hex_text(
            snapshot.direction_raw as nat,
        ) + " input_raw="@ + hex_text(snapshot.input_raw as nat) + " pin="@ + decimal_digits(
            snapshot.pin as nat,
        ) + " active_low="@ + flag_text(snapshot.active_low) + " level_high="@ + flag_text(
            snapshot.level_high,
        ) + " present="@ + flag_text(snapshot.card_present),
        CardDetectDiagnosis::Gpio(Err(error)) => "card=gpio-error:"@ + gpio_error_text(error),
    }
}

/// Pinmux part of a diagnosis line.
pub open spec fn pinmux_line(pins: Result<PinctrlSnapshot, PinctrlError>) -> Seq<char> {
    match pins {
        Ok(snapshot) => "pinmux=ok raw="@ + hex_text(snapshot.mux_raw as nat) + " sdio="@
            + flag_text(snapshot.sdio_selected) + " card_gpio="@ + flag_text(
            snapshot.card_detect_gpio_selected,
        ) + " ready="@ + flag_text(pins_ready(snapshot)),
        Err(error) => "pinmux=error:"@ + pinctrl_error_text(error),
    }
}

/// The stable single-line representation of a diagnosis and the software
/// interrupt view, ending in CR LF.
pub open spec fn diagnosis_line(diagnosis: Diagnosis, irq: IrqObservation) -> Seq<char> {
    let gates = report_spec(diagnosis, irq);
    let needs = diagnosis.plan.prerequisites;
    "ls2k-mmc "@ + clock_line(diagnosis.clock) + " vmmc="@ + prerequisite_text(needs.vmmc)
        + " vqmmc="@ + prerequisite_text(needs.vqmmc) + " pinctrl="@ + prerequisite_text(
        needs.pinctrl,
    ) + " "@ + pinmux_line(diagnosis.pinctrl) + " "@ + card_line(diagnosis.card_detect)
        + " gates=clock:"@ + gate_text(gates.clock) + ",vmmc:"@ + gate_text(gates.vmmc)
        + ",vqmmc:"@ + gate_text(gates.vqmmc) + ",pinctrl:"@ + gate_text(gates.pinctrl)
        + ",card:"@ + gate_text(gates.card_detect) + ",irq:"@ + gate_text(gates.irq) + " proof="@
        + flag_text(gates.all_satisfied()) + " can_activate="@ + flag_text(false) + " blockers="@
        + decimal_digits(diagnosis.plan.blockers@.len()) + "\r\n"@
}

fn clock_line_text(clock: Result<ClockSnapshot, ClockError>) -> (text: String)
    ensures
        text@ == clock_line(clock),
{
    match clock {
        Ok(snapshot) => {
            let mut out = String::from_str("clock=ok ref_hz=");
            out.append(decimal_string(snapshot.reference_hz as u64).as_str());
            out.append(" pll_raw=");
            out.append(hex_string(snapshot.dc_pll_raw).as_str());
            out.append(" gmac_raw=");
            out.append(hex_string(snapshot.gmac_div_raw as u64).as_str());
            out.append(" apb_raw=");
            out.append(hex_string(snapshot.apb_scale_raw).as_str());
            out.append(" apb_hz=");
            out.append(decimal_string(snapshot.apb_hz).as_str());
            out
        },
        Err(error) => {
            let mut out = String::from_str("clock=error:");
            out.append(clock_error_code(error));
            out
        },
    }
}

fn card_line_text(card: CardDetectDiagnosis) -> (text: String)
    ensures
        text@ == card_line(card),
{
    match card {
        CardDetectDiagnosis::NonRemovable => String::from_str("card=non-removable"),
        CardDetectDiagnosis::FirmwareMaintainedBroken => String::from_str(
            "card=firmware-maintained-broken",
        ),
        CardDetectDiagnosis::NativeUnavailable => String::from_str("card=native-unavailable"),
        CardDetectDiagnosis::Gpio(Ok(snapshot)) => {
            let mut out = String::from_str("card=gpio dir_raw=");
            out.append(hex_string(snapshot.direction_raw).as_str());
            out.append(" input_raw=");
            out.append(hex_string(snapshot.input_raw).as_str());
            out.append(" pin=");
            out.append(decimal_string(snapshot.pin as u64).as_str());
            out.append(" active_low=");
            out.append(flag_code(snapshot.active_low));
            out.append(" level_high=");
            out.append(flag_code(snapshot.level_high));
            out.append(" present=");
            out.append(flag_code(snapshot.card_present));
            out
        },
        CardDetectDiagnosis::Gpio(Err(error)) => {
            let mut out = String::from_str("card=gpio-error:");
            out.append(gpio_error_code(error));
            out
        },
    }
}

fn pinmux_line_text(pins: Result<PinctrlSnapshot, PinctrlError>) -> (text: String)
    ensures
        text@ == pinmux_line(pins),
{
    match pins {
        Ok(snapshot) => {
            let mut out = String::from_str("pinmux=ok raw=");
            out.append(hex_string(snapshot.mux_raw as u64).as_str());
            out.append(" sdio=");
            out.append(flag_code(snapshot.sdio_selected));
            out.append(" card_gpio=");
            out.append(flag_code(snapshot.card_detect_gpio_selected));
            out.append(" ready=");
            out.append(flag_code(snapshot.sdio_selected && snapshot.card_detect_gpio_selected));
            out
        },
        Err(error) => {
            let mut out = String::from_str("pinmux=error:");
            out.append(pinctrl_error_code(error));
            out
        },
    }
}

/// The stable single-line representation of a diagnosis with the current
/// software interrupt view.
#[verifier::rlimit(50)]
pub fn format_diagnosis_with_observation(diagnosis: Diagnosis, irq: IrqObservation) -> (text:
    String)
    ensures
        text@ == diagnosis_line(diagnosis, irq),
{
    let gates = report(diagnosis, irq);
    let needs = diagnosis.plan.prerequisites;
    let mut out = String::from_str("ls2k-mmc ");
    out.append(clock_line_text(diagnosis.clock).as_str());
    out.append(" vmmc=");
    out.append(prerequisite_code(needs.vmmc));
    out.append(" vqmmc=");
    out.append(prerequisite_code(needs.vqmmc));
    out.append(" pinctrl=");
    out.append(prerequisite_code(needs.pinctrl));
    out.append(" ");
    out.append(pinmux_line_text(diagnosis.pinctrl).as_str());
    out.append(" ");
    out.append(card_line_text(diagnosis.card_detect).as_str());
    out.append(" gates=clock:");
    out.append(gate_code(gates.clock));
    out.append(",vmmc:");
    out.append(gate_code(gates.vmmc));
    out.append(",vqmmc:");
    out.append(gate_code(gates.vqmmc));
    out.append(",pinctrl:");
    out.append(gate_code(gates.pinctrl));
    out.append(",card:");
    out.append(gate_code(gates.card_detect));
    out.append(",irq:");
    out.append(gate_code(gates.irq));
    out.append(" proof=");
    out.append(flag_code(gates.can_form_proof()));
    out.append(" can_activate=");
    out.append(flag_code(diagnosis.plan.can_activate()));
    out.append(" blockers=");
    out.append(decimal_string(diagnosis.plan.blockers.len() as u64).as_str());
    out.append("\r\n");
    out
}

/// The diagnosis line when no interrupt view is available.
pub fn format_diagnosis(diagnosis: Diagnosis) -> (text: String)
    ensures
        text@ == diagnosis_line(diagnosis, IrqObservation::Unavailable),
{
    format_diagnosis_with_observation(diagnosis, IrqObservation::Unavailable)
}

} // verus!
