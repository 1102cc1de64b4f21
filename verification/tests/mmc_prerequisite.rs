use ls2k1000la::gpio::{CardDetectSnapshot, GpioError};
use ls2k1000la::mmc_diagnostic::CardDetectDiagnosis;
use ls2k1000la::mmc::PrerequisiteStatus;
use ls2k1000la::mmc_prerequisite::{
    gate_code, report, CardReady, GateStatus, IrqObservation, PrerequisiteReport,
};

fn snapshot(card_present: bool) -> CardDetectSnapshot {
    CardDetectSnapshot { direction_raw: 1 << 22, input_raw: 0, pin: 22, active_low: true, level_high: false, card_present }
}

#[test]
fn only_all_satisfied_gates_can_form_a_proof() {
    let all = PrerequisiteReport {
        clock: GateStatus::Satisfied,
        vmmc: GateStatus::Satisfied,
        vqmmc: GateStatus::Satisfied,
        pinctrl: GateStatus::Satisfied,
        card_detect: GateStatus::Satisfied,
        irq: GateStatus::Satisfied,
    };
    assert!(all.can_form_proof());
    let observed = PrerequisiteReport { irq: GateStatus::ObservedOnly, ..all };
    assert!(!observed.can_form_proof());
    let unverified = PrerequisiteReport { vmmc: GateStatus::UnverifiedOnHardware, ..all };
    assert!(!unverified.can_form_proof());
}

#[test]
fn gate_codes_are_stable() {
    assert_eq!(gate_code(GateStatus::Satisfied), "satisfied");
    assert_eq!(gate_code(GateStatus::ObservedOnly), "observed-only");
    assert_eq!(gate_code(GateStatus::UnverifiedOnHardware), "unverified-hardware");
    assert_eq!(gate_code(GateStatus::Blocked), "blocked");
    assert_eq!(gate_code(GateStatus::Missing), "missing");
    assert_eq!(gate_code(GateStatus::Unsupported), "unsupported");
    assert_eq!(gate_code(GateStatus::Error), "error");
}

#[test]
fn card_token_requires_present_card_or_non_removable_slot() {
    assert!(CardReady::from_diagnosis(CardDetectDiagnosis::NonRemovable).is_some());
    assert!(CardReady::from_diagnosis(CardDetectDiagnosis::Gpio(Ok(snapshot(true)))).is_some());
    assert!(CardReady::from_diagnosis(CardDetectDiagnosis::Gpio(Ok(snapshot(false)))).is_none());
    assert!(CardReady::from_diagnosis(CardDetectDiagnosis::Gpio(Err(GpioError::Io))).is_none());
    assert!(CardReady::from_diagnosis(CardDetectDiagnosis::FirmwareMaintainedBroken).is_none());
    assert!(CardReady::from_diagnosis(CardDetectDiagnosis::NativeUnavailable).is_none());
}

fn report_clock_snapshot() -> ls2k1000la::clock::ClockSnapshot {
    ls2k1000la::clock::ClockSnapshot {
        dc_pll_raw: (10u64 << 32) | (2u64 << 26),
        gmac_div_raw: 2 << 22,
        apb_scale_raw: 3 << 20,
        reference_hz: 100_000_000,
        dc_pll_hz: 500_000_000,
        gmac_hz: 250_000_000,
        apb_hz: 125_000_000,
    }
}

fn report_pins(raw: u32) -> ls2k1000la::pinctrl::PinctrlSnapshot {
    ls2k1000la::pinctrl::PinctrlSnapshot {
        mux_raw: raw,
        sdio_selected: raw & ls2k1000la::pinctrl::SDIO_BIT != 0,
        card_detect_gpio_selected: raw & ls2k1000la::pinctrl::CARD_DETECT_GPIO_BIT == 0,
    }
}

fn report_diagnosis() -> ls2k1000la::mmc_diagnostic::Diagnosis {
    ls2k1000la::mmc_diagnostic::Diagnosis {
        plan: ls2k1000la::mmc::BringUpPlan {
            controller_mmio: ls2k1000la::platform::MmioRegion { base: 0x1000, size: 0x68 },
            auxiliary_mmio: ls2k1000la::platform::MmioRegion { base: 0x2000, size: 8 },
            bus_width: 4,
            prerequisites: ls2k1000la::mmc::PrerequisitePlan {
                clock: PrerequisiteStatus::RequiresDriver,
                vmmc: PrerequisiteStatus::ImplicitBoardSupply,
                vqmmc: PrerequisiteStatus::ReadyByTopology,
                pinctrl: PrerequisiteStatus::RequiresDriver,
                card_detect: PrerequisiteStatus::RequiresDriver,
            },
            blockers: [
                ls2k1000la::mmc::ActivationBlocker::DataPathUnavailable,
                ls2k1000la::mmc::ActivationBlocker::ExternalDmaExecutorUnavailable,
                ls2k1000la::mmc::ActivationBlocker::ClockControlUnavailable,
                ls2k1000la::mmc::ActivationBlocker::PowerSequencingUnavailable,
                ls2k1000la::mmc::ActivationBlocker::CardDetectUnavailable,
                ls2k1000la::mmc::ActivationBlocker::PinControlUnavailable,
                ls2k1000la::mmc::ActivationBlocker::InterruptPathUnverified,
            ],
        },
        clock: Ok(report_clock_snapshot()),
        pinctrl: Ok(report_pins(1 << 20)),
        card_detect: CardDetectDiagnosis::Gpio(Ok(ls2k1000la::gpio::CardDetectSnapshot {
            direction_raw: 1 << 22,
            input_raw: 0,
            pin: 22,
            active_low: true,
            level_high: false,
            card_present: true,
        })),
    }
}

#[test]
fn healthy_observations_still_refuse_to_claim_hardware_proof() {
    let report = report(report_diagnosis(), IrqObservation::LiveObserved);
    assert_eq!(report.clock, GateStatus::ObservedOnly);
    assert_eq!(report.vmmc, GateStatus::UnverifiedOnHardware);
    assert_eq!(report.vqmmc, GateStatus::UnverifiedOnHardware);
    assert_eq!(report.pinctrl, GateStatus::Satisfied);
    assert_eq!(report.card_detect, GateStatus::Satisfied);
    assert_eq!(report.irq, GateStatus::ObservedOnly);
    assert!(!report.can_form_proof());
}

#[test]
fn fault_matrix_classifies_each_independent_gate() {
    let mut value = report_diagnosis();
    value.clock = Err(ls2k1000la::clock::ClockError::Io);
    value.pinctrl = Ok(report_pins(0));
    value.card_detect = CardDetectDiagnosis::Gpio(Ok(ls2k1000la::gpio::CardDetectSnapshot {
        direction_raw: 1 << 22,
        input_raw: 0,
        pin: 22,
        active_low: true,
        level_high: false,
        card_present: false,
    }));
    value.plan.prerequisites.vmmc = PrerequisiteStatus::RequiresDriver;
    value.plan.prerequisites.vqmmc = PrerequisiteStatus::UnsupportedProvider;
    let report = report(value, IrqObservation::LiveDegraded);
    assert_eq!(report.clock, GateStatus::Error);
    assert_eq!(report.vmmc, GateStatus::Blocked);
    assert_eq!(report.vqmmc, GateStatus::Unsupported);
    assert_eq!(report.pinctrl, GateStatus::Blocked);
    assert_eq!(report.card_detect, GateStatus::Blocked);
    assert_eq!(report.irq, GateStatus::Blocked);
}

#[test]
fn diagnosis_line_is_one_stable_line() {
    let line = ls2k1000la::mmc_diagnostic::format_diagnosis_with_observation(
        report_diagnosis(),
        IrqObservation::LiveObserved,
    );
    assert_eq!(
        line,
        "ls2k-mmc clock=ok ref_hz=100000000 pll_raw=0xa08000000 gmac_raw=0x800000 \
         apb_raw=0x300000 apb_hz=125000000 vmmc=implicit-board-supply vqmmc=topology-ready \
         pinctrl=requires-driver pinmux=ok raw=0x100000 sdio=1 card_gpio=1 ready=1 \
         card=gpio dir_raw=0x400000 input_raw=0x0 pin=22 active_low=1 level_high=0 present=1 \
         gates=clock:observed-only,vmmc:unverified-hardware,vqmmc:unverified-hardware,\
         pinctrl:satisfied,card:satisfied,irq:observed-only proof=0 can_activate=0 blockers=7\r\n"
    );
    let unavailable = ls2k1000la::mmc_diagnostic::format_diagnosis(report_diagnosis());
    assert!(unavailable.contains(",irq:missing proof=0"));
    assert!(unavailable.ends_with("\r\n"));
    assert_eq!(unavailable.matches('\n').count(), 1);
}
