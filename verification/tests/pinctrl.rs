use ls2k1000la::pinctrl::{snapshot, PinctrlError, RegisterIo};
use ls2k1000la::platform::MmioRegion;
use ls2k1000la::topology::{MmcPinctrlDescription, PinctrlProvider};

#[derive(Default)]
struct Model {
    raw: u32,
    reads: usize,
    fail: bool,
}

impl RegisterIo for Model {
    fn read32(&mut self, offset: usize) -> Result<u32, PinctrlError> {
        assert_eq!(offset, 0);
        self.reads += 1;
        if self.fail {
            Err(PinctrlError::Io)
        } else {
            Ok(self.raw)
        }
    }
}

fn state(provider: PinctrlProvider) -> Option<MmcPinctrlDescription> {
    Some(MmcPinctrlDescription { state_phandle: 1, provider })
}

#[test]
fn decodes_sdio_and_active_low_gpio_mux_from_one_read() {
    let provider = PinctrlProvider::Loongson2k { mmio: MmioRegion { base: 0x1FE0_0420, size: 0x18 } };
    for (raw, sdio, gpio) in [(1 << 20, true, true), ((1 << 20) | (1 << 14), true, false), (0, false, true)] {
        let mut registers = Model { raw, ..Default::default() };
        let result = snapshot(state(provider), &mut registers).unwrap();
        assert_eq!((result.sdio_selected, result.card_detect_gpio_selected), (sdio, gpio));
        assert_eq!(registers.reads, 1);
    }
}

#[test]
fn missing_and_unsupported_never_read_and_io_error_is_retained() {
    let mut registers = Model::default();
    assert_eq!(snapshot(None, &mut registers), Err(PinctrlError::Missing));
    assert_eq!(snapshot(state(PinctrlProvider::Unsupported), &mut registers), Err(PinctrlError::UnsupportedProvider));
    assert_eq!(registers.reads, 0);
    registers.fail = true;
    assert_eq!(
        snapshot(state(PinctrlProvider::Loongson2k { mmio: MmioRegion { base: 4, size: 0x18 } }), &mut registers),
        Err(PinctrlError::Io)
    );
}
