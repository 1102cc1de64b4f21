//! Read-only LS2K1000 GPIO card-detect diagnostics.
//!
//! The model follows the bit-control register layout but never changes
//! direction, output, mux or interrupt state.
use vstd::prelude::*;

use crate::topology::{GpioLineDescription, GpioProvider};

verus! {

pub const DIRECTION_OFFSET: usize = 0x00;

pub const INPUT_OFFSET: usize = 0x20;

#[derive(Debug, Clone, Copy, PartialEq, Eq, Structural)]
pub enum GpioError {
    Io,
    UnsupportedProvider,
    PinOutOfRange,
    NotInput,
}

/// Read-only access to a GPIO controller window.
pub trait RegisterIo {
    fn read64(&mut self, offset: usize) -> Result<u64, GpioError>;
}

#[derive(Debug, Clone, Copy, PartialEq, Eq, Structural)]
pub struct CardDetectSnapshot {
    pub direction_raw: u64,
    pub input_raw: u64,
    pub pin: u8,
    pub active_low: bool,
    pub level_high: bool,
    pub card_present: bool,
}

/// Whether bit `pin` of `raw` is set.
pub open spec fn bit_set(raw: u64, pin: u8) -> bool {
    raw & (1u64 << pin) != 0
}

/// Sample the direction register, then the input register, for one pin that
/// must be configured as an input.
pub fn card_detect_snapshot<R: RegisterIo>(line: &GpioLineDescription, registers: &mut R) -> (result:
    Result<CardDetectSnapshot, GpioError>)
    ensures
        match line.provider {
            GpioProvider::Unsupported { .. } => result == Err::<CardDetectSnapshot, GpioError>(
                GpioError::UnsupportedProvider,
            ),
            GpioProvider::Loongson2k1000 { ngpios, .. } => if line.pin >= ngpios || line.pin
                >= 64 {
                result == Err::<CardDetectSnapshot, GpioError>(GpioError::PinOutOfRange)
            } else {
                match result {
                    Ok(snapshot) => snapshot.pin == line.pin && snapshot.active_low
                        == line.active_low && bit_set(snapshot.direction_raw, line.pin)
                        && snapshot.level_high == bit_set(snapshot.input_raw, line.pin)
                        && snapshot.card_present == (snapshot.level_high != line.active_low),
                    Err(_) => true,
                }
            },
        },
{
    let ngpios = match line.provider {
        GpioProvider::Loongson2k1000 { ngpios, .. } => ngpios,
        GpioProvider::Unsupported { .. } => return Err(GpioError::UnsupportedProvider),
    };
    if line.pin >= ngpios || line.pin >= 64 {
        return Err(GpioError::PinOutOfRange);
    }
    let direction_raw = registers.read64(DIRECTION_OFFSET)?;
    let mask = 1u64 << line.pin;
    if direction_raw & mask == 0 {
        return Err(GpioError::NotInput);
    }
    let input_raw = registers.read64(INPUT_OFFSET)?;
    let level_high = input_raw & mask != 0;
    Ok(
        CardDetectSnapshot {
            direction_raw,
            input_raw,
            pin: line.pin,
            active_low: line.active_low,
            level_high,
            card_present: level_high ^ line.active_low,
        },
    )
}

} // verus!
