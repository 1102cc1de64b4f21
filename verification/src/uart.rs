//! Loongson 2K1000LA UART register-layout selection.
use vstd::prelude::*;

use crate::platform::MmioRegion;

verus! {

/// Register layouts the character driver can serve.
#[derive(Debug, Clone, Copy, PartialEq, Eq, Structural)]
pub enum RegisterLayout {
    /// Byte-spaced 8-bit 16550 registers.
    Byte16550,
    /// DesignWare APB UART with 32-bit registers four bytes apart.
    DwApb32,
}

#[derive(Debug, Clone, Copy, PartialEq, Eq, Structural)]
pub struct UartDescription {
    pub mmio: MmioRegion,
    pub layout: RegisterLayout,
}

/// The layout a `reg-shift`/`reg-io-width` pair selects; absent properties
/// mean shift 0 and width 1.
pub open spec fn layout_spec(reg_shift: Option<u32>, reg_io_width: Option<u32>) -> Option<
    RegisterLayout,
> {
    let shift = match reg_shift {
        Some(value) => value,
        None => 0,
    };
    let width = match reg_io_width {
        Some(value) => value,
        None => 1,
    };
    if shift == 0 && width == 1 {
        Some(RegisterLayout::Byte16550)
    } else if shift == 2 && width == 4 {
        Some(RegisterLayout::DwApb32)
    } else {
        None
    }
}

pub fn layout(reg_shift: Option<u32>, reg_io_width: Option<u32>) -> (result: Option<RegisterLayout>)
    ensures
        result == layout_spec(reg_shift, reg_io_width),
{
    let shift = match reg_shift {
        Some(value) => value,
        None => 0,
    };
    let width = match reg_io_width {
        Some(value) => value,
        None => 1,
    };
    if shift == 0 && width == 1 {
        Some(RegisterLayout::Byte16550)
    } else if shift == 2 && width == 4 {
        Some(RegisterLayout::DwApb32)
    } else {
        None
    }
}

/// Self-test of the known register layout pairs; each result is proved here.
pub fn test() {
    let default_pair = layout(None, None);
    assert(default_pair == Some(RegisterLayout::Byte16550));
    let byte_pair = layout(Some(0), Some(1));
    assert(byte_pair == Some(RegisterLayout::Byte16550));
    let word_pair = layout(Some(2), Some(4));
    assert(word_pair == Some(RegisterLayout::DwApb32));
    let mixed_pair = layout(Some(2), Some(1));
    assert(mixed_pair is None);
}

} // verus!
