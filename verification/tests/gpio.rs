use ls2k1000la::gpio::{card_detect_snapshot, GpioError, RegisterIo, DIRECTION_OFFSET, INPUT_OFFSET};
use ls2k1000la::platform::MmioRegion;
use ls2k1000la::topology::{GpioLineDescription, GpioProvider, ResourceSpecifier};

struct Model {
    direction: u64,
    input: u64,
    fail_at: Option<usize>,
    reads: Vec<usize>,
}

impl RegisterIo for Model {
    fn read64(&mut self, offset: usize) -> Result<u64, GpioError> {
        self.reads.push(offset);
        if self.fail_at == Some(offset) {
            Err(GpioError::Io)
        } else if offset == DIRECTION_OFFSET {
            Ok(self.direction)
        } else {
            Ok(self.input)
        }
    }
}

fn line(active_low: bool) -> GpioLineDescription {
    GpioLineDescription {
        specifier: ResourceSpecifier { provider_phandle: 5, args: vec![22, active_low as u32] },
        provider: GpioProvider::Loongson2k1000 { mmio: MmioRegion { base: 0x1fe0_0500, size: 0x38 }, ngpios: 64 },
        pin: 22,
        active_low,
    }
}

#[test]
fn samples_direction_then_input_and_applies_active_low() {
    let mask = 1 << 22;
    let mut io = Model { direction: mask, input: 0, fail_at: None, reads: vec![] };
    let state = card_detect_snapshot(&line(true), &mut io).unwrap();
    assert_eq!(io.reads, [0x00, 0x20]);
    assert!(!state.level_high);
    assert!(state.card_present);

    io.reads.clear();
    io.input = mask;
    assert!(!card_detect_snapshot(&line(true), &mut io).unwrap().card_present);
    assert!(card_detect_snapshot(&line(false), &mut io).unwrap().card_present);
}

#[test]
fn refuses_output_pin_without_changing_direction() {
    let mut io = Model { direction: 0, input: 1 << 22, fail_at: None, reads: vec![] };
    assert_eq!(card_detect_snapshot(&line(true), &mut io), Err(GpioError::NotInput));
    assert_eq!(io.reads, [0x00]);
}

#[test]
fn unsupported_or_out_of_range_provider_never_reads() {
    let mut io = Model { direction: u64::MAX, input: 0, fail_at: None, reads: vec![] };
    let mut value = line(true);
    value.provider = GpioProvider::Unsupported { phandle: 5 };
    assert_eq!(card_detect_snapshot(&value, &mut io), Err(GpioError::UnsupportedProvider));
    value.provider = GpioProvider::Loongson2k1000 { mmio: MmioRegion { base: 0x1FE0_0500, size: 0x38 }, ngpios: 16 };
    assert_eq!(card_detect_snapshot(&value, &mut io), Err(GpioError::PinOutOfRange));
    assert!(io.reads.is_empty());
}

#[test]
fn propagates_each_read_failure() {
    for offset in [DIRECTION_OFFSET, INPUT_OFFSET] {
        let mut io = Model { direction: u64::MAX, input: 0, fail_at: Some(offset), reads: vec![] };
        assert_eq!(card_detect_snapshot(&line(true), &mut io), Err(GpioError::Io));
    }
}
