//! Platform-neutral value types shared by every driver module.
use vstd::prelude::*;

verus! {

/// One physical MMIO window described by firmware.
#[derive(Debug, Clone, Copy, PartialEq, Eq, Structural)]
pub struct MmioRegion {
    pub base: usize,
    pub size: usize,
}

/// Coarse driver failure reported to the kernel.
#[derive(Debug, Clone, Copy, PartialEq, Eq, Structural)]
pub enum DriverError {
    InvalidParam,
    IoError,
    NotFound,
    Unsupported,
    InvalidDtb,
}

/// Failure reported by an MMC register backend or command engine.
#[derive(Debug, Clone, Copy, PartialEq, Eq, Structural)]
pub enum MmcError {
    RegisterOutOfRange,
    InvalidParameter,
    ResponseTimeout,
    ResponseCrc,
    Timeout,
}

/// A window at a non-zero base aligned to `alignment` and at least
/// `min_size` bytes long.
pub open spec fn window_fits(region: MmioRegion, alignment: usize, min_size: usize) -> bool {
    &&& region.base != 0
    &&& region.base % alignment == 0
    &&& region.size >= min_size
}

/// Whether `region` can back a register block with these requirements.
pub fn window_usable(region: MmioRegion, alignment: usize, min_size: usize) -> (usable: bool)
    requires
        alignment > 0,
    ensures
        usable == window_fits(region, alignment, min_size),
{
    region.base != 0 && region.base % alignment == 0 && region.size >= min_size
}

/// An access of `width` bytes at `offset` is naturally aligned and lies
/// inside a window of `size` bytes.
pub open spec fn access_fits(size: usize, offset: usize, width: usize) -> bool {
    offset % width == 0 && offset + width <= size
}

/// Whether an access of `width` bytes at `offset` stays inside the window.
pub fn access_in_window(size: usize, offset: usize, width: usize) -> (inside: bool)
    requires
        width > 0,
    ensures
        inside == access_fits(size, offset, width),
{
    offset % width == 0 && offset <= size && width <= size - offset
}

} // verus!
