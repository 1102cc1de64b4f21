use ls2k1000la::clock::ClockError;
use ls2k1000la::gpio::GpioError;
use ls2k1000la::mmc::PrerequisiteStatus;
use ls2k1000la::mmc_diagnostic::{clock_error_code, gpio_error_code, pinctrl_error_code, prerequisite_code};
use ls2k1000la::mmc_prerequisite::{topology_power, GateStatus};
use ls2k1000la::pinctrl::PinctrlError;

#[test]
fn failure_codes_are_stable() {
    assert_eq!(clock_error_code(ClockError::Io), "io");
    assert_eq!(clock_error_code(ClockError::ZeroPllDivisor), "zero-pll-divisor");
    assert_eq!(clock_error_code(ClockError::UnsupportedProvider), "unsupported-provider");
    assert_eq!(gpio_error_code(GpioError::PinOutOfRange), "pin-out-of-range");
    assert_eq!(gpio_error_code(GpioError::NotInput), "not-input");
    assert_eq!(pinctrl_error_code(PinctrlError::Missing), "missing");
    assert_eq!(prerequisite_code(PrerequisiteStatus::ReadyByTopology), "topology-ready");
    assert_eq!(prerequisite_code(PrerequisiteStatus::ImplicitBoardSupply), "implicit-board-supply");
    assert_eq!(prerequisite_code(PrerequisiteStatus::RequiresDriver), "requires-driver");
}

#[test]
fn topology_only_power_is_never_satisfied() {
    assert_eq!(topology_power(PrerequisiteStatus::ReadyByTopology), GateStatus::UnverifiedOnHardware);
    assert_eq!(topology_power(PrerequisiteStatus::ImplicitBoardSupply), GateStatus::UnverifiedOnHardware);
    assert_eq!(topology_power(PrerequisiteStatus::FirmwareMaintained), GateStatus::UnverifiedOnHardware);
    assert_eq!(topology_power(PrerequisiteStatus::RequiresDriver), GateStatus::Blocked);
    assert_eq!(topology_power(PrerequisiteStatus::Missing), GateStatus::Missing);
    assert_eq!(topology_power(PrerequisiteStatus::UnsupportedProvider), GateStatus::Unsupported);
}
