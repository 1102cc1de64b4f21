//! Read-only Loongson-2 MMC pinmux evidence.
//!
//! SDIO is muxed by bit 20 and the PWM2/GPIO22 card-detect mux by bit 14 of
//! the first pinctrl register. This module never writes the register.
use vstd::prelude::*;

use crate::topology::{MmcPinctrlDescription, PinctrlProvider};

verus! {

pub const MUX_REGISTER: usize = 0;

pub const SDIO_BIT: u32 = 0x10_0000;

pub const CARD_DETECT_GPIO_BIT: u32 = 0x4000;

#[derive(Debug, Clone, Copy, PartialEq, Eq, Structural)]
pub enum PinctrlError {
    Io,
    Missing,
    UnsupportedProvider,
}

#[derive(Debug, Clone, Copy, PartialEq, Eq, Structural)]
pub struct PinctrlSnapshot {
    pub mux_raw: u32,
    pub sdio_selected: bool,
    pub card_detect_gpio_selected: bool,
}

/// Read-only access to the pin controller window.
pub trait RegisterIo {
    fn read32(&mut self, offset: usize) -> Result<u32, PinctrlError>;
}

/// The mux selections one raw register value encodes.
pub open spec fn decode_mux(mux_raw: u32) -> PinctrlSnapshot {
    PinctrlSnapshot {
        mux_raw,
        sdio_selected: mux_raw & SDIO_BIT != 0,
        card_detect_gpio_selected: mux_raw & CARD_DETECT_GPIO_BIT == 0,
    }
}

/// Sample the mux register once for a supported provider.
pub fn snapshot<R: RegisterIo>(state: Option<MmcPinctrlDescription>, registers: &mut R) -> (result:
    Result<PinctrlSnapshot, PinctrlError>)
    ensures
        match state {
            None => result == Err::<PinctrlSnapshot, PinctrlError>(PinctrlError::Missing),
            Some(description) => match description.provider {
                PinctrlProvider::Unsupported => result == Err::<PinctrlSnapshot, PinctrlError>(
                    PinctrlError::UnsupportedProvider,
                ),
                PinctrlProvider::Loongson2k { .. } => match result {
                    Ok(snapshot) => snapshot == decode_mux(snapshot.mux_raw),
                    Err(_) => true,
                },
            },
        },
{
    match state {
        None => Err(PinctrlError::Missing),
        Some(description) => match description.provider {
            PinctrlProvider::Unsupported => Err(PinctrlError::UnsupportedProvider),
            PinctrlProvider::Loongson2k { .. } => {
                let mux_raw = registers.read32(MUX_REGISTER)?;
                Ok(
                    PinctrlSnapshot {
                        mux_raw,
                        sdio_selected: mux_raw & SDIO_BIT != 0,
                        card_detect_gpio_selected: mux_raw & CARD_DETECT_GPIO_BIT == 0,
                    },
                )
            },
        },
    }
}

} // verus!
