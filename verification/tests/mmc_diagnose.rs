use ls2k1000la::clock::{self, ClockError};
use ls2k1000la::gpio::{self, CardDetectSnapshot, GpioError};
use ls2k1000la::mmc::PlanError;
use ls2k1000la::mmc_diagnostic::{diagnose, CardDetectDiagnosis};
use ls2k1000la::pinctrl::{self, PinctrlError};
use ls2k1000la::platform::MmioRegion;
use ls2k1000la::topology::{
    CardDetect, GpioLineDescription, GpioProvider, InterruptSpec, MmcClockProvider, MmcDescription,
    MmcPinctrlDescription, NamedResource, PinctrlProvider, ResourceSpecifier,
};

#[derive(Default)]
struct ClockModel {
    reads: Vec<(usize, usize)>,
    fail: bool,
    change_after_first: bool,
    gmac_reads: usize,
}

impl clock::RegisterIo for ClockModel {
    fn reads(&self) -> ls2k1000la::clock::ReadHistory {
        unreachable!("specification only")
    }

    fn read32(&mut self, offset: usize) -> Result<u32, ClockError> {
        self.reads.push((offset, 4));
        if self.fail {
            Err(ClockError::Io)
        } else {
            self.gmac_reads += 1;
            Ok(if self.change_after_first && self.gmac_reads > 1 { 3 << 22 } else { 2 << 22 })
        }
    }

    fn read64(&mut self, offset: usize) -> Result<u64, ClockError> {
        self.reads.push((offset, 8));
        if self.fail {
            Err(ClockError::Io)
        } else if offset == 0x20 {
            Ok((40u64 << 32) | (4u64 << 26))
        } else {
            Ok(3u64 << 20)
        }
    }
}

#[derive(Default)]
struct GpioModel {
    reads: Vec<usize>,
    direction: u64,
    input: u64,
}

impl gpio::RegisterIo for GpioModel {
    fn read64(&mut self, offset: usize) -> Result<u64, GpioError> {
        self.reads.push(offset);
        if offset == 0 {
            Ok(self.direction)
        } else {
            Ok(self.input)
        }
    }
}

#[derive(Default)]
struct PinctrlModel {
    raw: u32,
    reads: usize,
    fail: bool,
}

impl pinctrl::RegisterIo for PinctrlModel {
    fn read32(&mut self, offset: usize) -> Result<u32, PinctrlError> {
        assert_eq!(offset, 0);
        self.reads += 1;
        if self.fail {
            Err(PinctrlError::Io)
        } else {
            Ok(self.raw)
        }
    }
}

fn pinctrl_state(provider: PinctrlProvider) -> MmcPinctrlDescription {
    MmcPinctrlDescription { state_phandle: 4, provider }
}

fn description(card_detect: CardDetect) -> MmcDescription {
    MmcDescription {
        controller_mmio: MmioRegion { base: 0x1FE0_C000, size: 0x68 },
        auxiliary_mmio: Some(MmioRegion { base: 0x1FE0_048C, size: 4 }),
        interrupt: InterruptSpec { parent_phandle: 1, cells: [31, 4, 0, 0], cell_count: 2 },
        clocks: vec![NamedResource {
            name: Some("apb".into()),
            specifier: ResourceSpecifier { provider_phandle: 2, args: vec![12] },
        }],
        clock_provider: MmcClockProvider::Loongson2k {
            mmio: MmioRegion { base: 0x1FE0_0480, size: 0x58 },
            reference_hz: 100_000_000,
        },
        dma: None,
        bus_width: 4,
        pinctrl: None,
        card_detect,
        vmmc_supply: None,
        vqmmc_supply: None,
    }
}

fn gpio_line() -> GpioLineDescription {
    GpioLineDescription {
        specifier: ResourceSpecifier { provider_phandle: 3, args: vec![22, 1] },
        provider: GpioProvider::Loongson2k1000 { mmio: MmioRegion { base: 0x1FE0_0500, size: 0x38 }, ngpios: 64 },
        pin: 22,
        active_low: true,
    }
}

#[test]
fn topology_only_card_modes_never_read_gpio() {
    for (card_detect, expected) in [
        (CardDetect::NonRemovable, CardDetectDiagnosis::NonRemovable),
        (CardDetect::Broken, CardDetectDiagnosis::FirmwareMaintainedBroken),
        (CardDetect::Native, CardDetectDiagnosis::NativeUnavailable),
    ] {
        let mut clocks = ClockModel::default();
        let mut gpios = GpioModel::default();
        let mut pins = PinctrlModel::default();
        let result = diagnose(&description(card_detect), &mut clocks, &mut gpios, &mut pins).unwrap();
        assert_eq!(result.card_detect, expected);
        assert!(gpios.reads.is_empty());
    }
}

#[test]
fn unsupported_providers_fail_without_access() {
    let mut description =
        description(CardDetect::Gpio(GpioLineDescription { provider: GpioProvider::Unsupported { phandle: 3 }, ..gpio_line() }));
    description.clock_provider = MmcClockProvider::Unsupported { phandle: 2 };
    description.pinctrl = Some(pinctrl_state(PinctrlProvider::Unsupported));
    let mut clocks = ClockModel::default();
    let mut gpios = GpioModel::default();
    let mut pins = PinctrlModel::default();
    let result = diagnose(&description, &mut clocks, &mut gpios, &mut pins).unwrap();

    assert_eq!(result.clock, Err(ClockError::UnsupportedProvider));
    assert_eq!(result.pinctrl, Err(PinctrlError::UnsupportedProvider));
    assert_eq!(pins.reads, 0);
    assert_eq!(result.card_detect, CardDetectDiagnosis::Gpio(Err(GpioError::UnsupportedProvider)));
    assert!(clocks.reads.is_empty());
    assert!(gpios.reads.is_empty());
    assert!(!result.plan.can_activate());
}

#[test]
fn invalid_static_plan_prevents_every_read() {
    let mut description = description(CardDetect::Gpio(gpio_line()));
    description.controller_mmio.size = 4;
    let mut clocks = ClockModel::default();
    let mut gpios = GpioModel::default();
    let mut pins = PinctrlModel::default();
    assert_eq!(diagnose(&description, &mut clocks, &mut gpios, &mut pins), Err(PlanError::ControllerWindowTooSmall));
    assert!(clocks.reads.is_empty());
    assert!(gpios.reads.is_empty());
    assert_eq!(pins.reads, 0);
}

#[test]
fn diagnosis_combines_clock_pinmux_and_active_low_card_evidence() {
    let mut description = description(CardDetect::Gpio(gpio_line()));
    description.pinctrl = Some(pinctrl_state(PinctrlProvider::Loongson2k { mmio: MmioRegion { base: 0x1FE0_0420, size: 0x18 } }));
    let mut clocks = ClockModel::default();
    let mut gpios = GpioModel { direction: 1 << 22, input: 0, ..Default::default() };
    let mut pins = PinctrlModel { raw: 1 << 20, ..Default::default() };
    let result = diagnose(&description, &mut clocks, &mut gpios, &mut pins).unwrap();
    assert_eq!(result.clock.unwrap().apb_hz, 250_000_000);
    assert_eq!(
        result.card_detect,
        CardDetectDiagnosis::Gpio(Ok(CardDetectSnapshot {
            direction_raw: 1 << 22,
            input_raw: 0,
            pin: 22,
            active_low: true,
            level_high: false,
            card_present: true
        }))
    );
    assert!(result.pinctrl.unwrap().sdio_selected);
    assert!(!result.plan.can_activate());
    assert_eq!(clocks.reads.len(), 6);
    assert_eq!(gpios.reads, vec![0, 0x20]);
    assert_eq!(pins.reads, 1);

    let mut changing = ClockModel { change_after_first: true, ..Default::default() };
    let result = diagnose(&description, &mut changing, &mut GpioModel::default(), &mut PinctrlModel::default()).unwrap();
    assert_eq!(result.clock, Err(ClockError::Inconsistent));
}
