//! APBDMA order-register access for Loongson 2K1000LA.
//!
//! The 8-byte order window is accessed as two 32-bit halves: the low word
//! first, then the high word.
use core::sync::atomic::{fence, Ordering};
use vstd::prelude::*;

use crate::apbdma::{ExecutorError, OrderAccess, OrderIo, OrderWriteFailure, WriteEffect};
use crate::irq_binding::InterruptBinding;
use crate::irq_domain::{local_of, GlobalIrq};
use crate::platform::MmioRegion;
use crate::topology::DmaControllerDescription;

verus! {

pub const LOW_OFFSET: usize = 0;

pub const HIGH_OFFSET: usize = 4;

/// Size of the APBDMA order window.
pub const ORDER_WINDOW_SIZE: usize = 8;

/// Whether `offset` names one half of the order register.
pub fn order_offset(offset: usize) -> (valid: bool)
    ensures
        valid == (offset == LOW_OFFSET || offset == HIGH_OFFSET),
{
    offset == LOW_OFFSET || offset == HIGH_OFFSET
}

/// The binding serves the controller's interrupt: same parent, and its
/// line is the first interrupt cell.
pub open spec fn binding_serves(controller: DmaControllerDescription, binding: InterruptBinding) -> bool {
    &&& binding.provider() == controller.interrupt.parent_phandle
    &&& local_of(binding.irq().id()) == controller.interrupt.cells[0]
}

/// The controller's window is the order window at a non-zero 4-byte
/// aligned base.
pub open spec fn order_window(controller: DmaControllerDescription) -> bool {
    &&& controller.mmio.size == ORDER_WINDOW_SIZE
    &&& controller.mmio.base != 0
    &&& controller.mmio.base % 4 == 0
}

/// Window and interrupt an executor may drive for `controller`: the binding
/// is checked first, then the window.
pub fn executor_resources(controller: &DmaControllerDescription, binding: InterruptBinding) -> (resources:
    Result<(MmioRegion, GlobalIrq), ExecutorError>)
    ensures
        match resources {
            Ok((window, irq)) => {
                &&& binding_serves(*controller, binding)
                &&& order_window(*controller)
                &&& window == controller.mmio
                &&& irq == binding.irq()
            },
            Err(ExecutorError::UnexpectedIrq) => !binding_serves(*controller, binding),
            Err(ExecutorError::Register) => binding_serves(*controller, binding) && !order_window(
                *controller,
            ),
            Err(_) => false,
        },
{
    if binding.provider_phandle() != controller.interrupt.parent_phandle
        || binding.global_irq().local() != controller.interrupt.cells[0] {
        return Err(ExecutorError::UnexpectedIrq);
    }
    let window = controller.mmio;
    if window.size != ORDER_WINDOW_SIZE || window.base == 0 || window.base % 4 != 0 {
        return Err(ExecutorError::Register);
    }
    Ok((window, binding.global_irq()))
}

/// One ordered 32-bit MMIO access. Implementations must not merge adjacent
/// calls into a native 64-bit transaction. A failed `write32` must mean that
/// this individual 32-bit write did not reach the device.
/// One 32-bit access to the order window, with its result.
#[derive(Debug, Clone, Copy, PartialEq, Eq)]
pub enum HalfAccess {
    Read(usize, Result<u32, ExecutorError>),
    Write(usize, u32, Result<(), ExecutorError>),
}

/// History of the 32-bit accesses made through an [`OrderMmio32`] window.
pub type HalfHistory = Seq<HalfAccess>;

pub trait OrderMmio32 {
    /// Every 32-bit access made through this window so far, oldest first.
    spec fn accesses(&self) -> HalfHistory;

    fn read32(&mut self, offset: usize) -> (result: Result<u32, ExecutorError>)
        ensures
            final(self).accesses() == old(self).accesses().push(HalfAccess::Read(offset, result)),
    ;

    fn write32(&mut self, offset: usize, value: u32) -> (result: Result<(), ExecutorError>)
        ensures
            final(self).accesses() == old(self).accesses().push(
                HalfAccess::Write(offset, value, result),
            ),
    ;

    /// Platform-specific proof that the DMA engine no longer accesses memory.
    /// Without a documented register-level probe no stop is confirmed. The
    /// probe is not one of the window's recorded accesses.
    fn confirm_stopped(&mut self) -> (result: Result<bool, ExecutorError>)
        ensures
            final(self).accesses() == old(self).accesses(),
        default_ensures
            result == Err::<bool, ExecutorError>(ExecutorError::StopUnverified),
    {
        Err(ExecutorError::StopUnverified)
    }
}

/// The order value whose low and high 32-bit words are `low` and `high`.
pub fn order_from_halves(low: u32, high: u32) -> (value: u64)
    ensures
        value == low as int + high as int * 0x1_0000_0000,
{
    let value: u64 = (low as u64) | ((high as u64) << 32u64);
    assert(((low as u64) | ((high as u64) << 32u64)) == (low as u64) + (high as u64)
        * 0x1_0000_0000u64) by (bit_vector);
    value
}

/// The low and high 32-bit words of an order value, in that order.
pub fn order_halves(value: u64) -> (halves: (u32, u32))
    ensures
        halves.0 == value % 0x1_0000_0000,
        halves.1 == value / 0x1_0000_0000,
{
    let low: u32 = value as u32;
    let high: u32 = (value >> 32u64) as u32;
    assert(value as u32 == value % 0x1_0000_0000) by (bit_vector);
    assert((value >> 32u64) as u32 == value / 0x1_0000_0000) by (bit_vector);
    (low, high)
}

/// Calls `core::sync::atomic::fence(SeqCst)`, which orders the surrounding
/// register accesses and returns nothing.
#[verifier::external_body]
fn order_fence() {
    fence(Ordering::SeqCst);
}

/// Non-atomic low-word/high-word adapter used by the APBDMA executor.
pub struct LoHiOrderIo<M> {
    mmio: M,
    history: Ghost<Seq<OrderAccess>>,
}

/// Low word of an order value.
pub open spec fn low_half(value: u64) -> u32 {
    (value % 0x1_0000_0000) as u32
}

/// High word of an order value.
pub open spec fn high_half(value: u64) -> u32 {
    (value / 0x1_0000_0000) as u32
}

impl<M> LoHiOrderIo<M> {
    pub fn new(mmio: M) -> (io: Self)
        ensures
            io.inner() == mmio,
            io.history() == Seq::<OrderAccess>::empty(),
    {
        Self { mmio, history: Ghost(Seq::empty()) }
    }

    /// The 32-bit window behind the adapter.
    pub closed spec fn inner(self) -> M {
        self.mmio
    }

    /// The 64-bit operations made through the adapter, oldest first.
    pub closed spec fn history(self) -> Seq<OrderAccess> {
        self.history@
    }

    pub fn into_inner(self) -> (mmio: M)
        ensures
            mmio == self.inner(),
    {
        self.mmio
    }
}

impl<M: OrderMmio32> OrderIo for LoHiOrderIo<M> {
    closed spec fn operations(&self) -> Seq<OrderAccess> {
        self.history@
    }

    /// Reads the low word, then the high word, and joins them.
    fn read64(&mut self) -> (result: Result<u64, ExecutorError>)
        ensures
            match result {
                Ok(value) => final(self).inner().accesses() == old(self).inner().accesses() + seq![
                    HalfAccess::Read(LOW_OFFSET, Ok(low_half(value))),
                    HalfAccess::Read(HIGH_OFFSET, Ok(high_half(value))),
                ],
                Err(error) => final(self).inner().accesses() == old(self).inner().accesses().push(
                    HalfAccess::Read(LOW_OFFSET, Err(error)),
                ) || exists|low: u32|
                    final(self).inner().accesses() == old(self).inner().accesses() + seq![
                        HalfAccess::Read(LOW_OFFSET, Ok(low)),
                        HalfAccess::Read(HIGH_OFFSET, Err(error)),
                    ],
            },
    {
        order_fence();
        let low = match self.mmio.read32(LOW_OFFSET) {
            Ok(low) => low,
            Err(error) => {
                proof {
                    self.history@ = self.history@.push(OrderAccess::Read(Err(error)));
                }
                return Err(error);
            },
        };
        let high = match self.mmio.read32(HIGH_OFFSET) {
            Ok(high) => high,
            Err(error) => {
                proof {
                    self.history@ = self.history@.push(OrderAccess::Read(Err(error)));
                    assert(self.mmio.accesses() =~= old(self).mmio.accesses() + seq![
                        HalfAccess::Read(LOW_OFFSET, Ok(low)),
                        HalfAccess::Read(HIGH_OFFSET, Err(error)),
                    ]);
                }
                return Err(error);
            },
        };
        order_fence();
        let value = order_from_halves(low, high);
        proof {
            self.history@ = self.history@.push(OrderAccess::Read(Ok(value)));
            assert(low_half(value) == low);
            assert(high_half(value) == high);
            assert(self.mmio.accesses() =~= old(self).mmio.accesses() + seq![
                HalfAccess::Read(LOW_OFFSET, Ok(low_half(value))),
                HalfAccess::Read(HIGH_OFFSET, Ok(high_half(value))),
            ]);
        }
        Ok(value)
    }

    /// Writes the low word, then, only if that succeeded, the high word.
    fn write64(&mut self, value: u64) -> (result: Result<(), OrderWriteFailure>)
        ensures
            match result {
                Ok(()) => final(self).inner().accesses() == old(self).inner().accesses() + seq![
                    HalfAccess::Write(LOW_OFFSET, low_half(value), Ok(())),
                    HalfAccess::Write(HIGH_OFFSET, high_half(value), Ok(())),
                ],
                Err(failure) => match failure.effect {
                    WriteEffect::Untouched => final(self).inner().accesses() == old(
                        self,
                    ).inner().accesses().push(
                        HalfAccess::Write(LOW_OFFSET, low_half(value), Err(failure.error)),
                    ),
                    WriteEffect::MayHaveWritten => final(self).inner().accesses() == old(
                        self,
                    ).inner().accesses() + seq![
                        HalfAccess::Write(LOW_OFFSET, low_half(value), Ok(())),
                        HalfAccess::Write(HIGH_OFFSET, high_half(value), Err(failure.error)),
                    ],
                },
            },
    {
        let (low, high) = order_halves(value);
        assert(low == low_half(value) && high == high_half(value));
        order_fence();
        let first = self.mmio.write32(LOW_OFFSET, low);
        let ghost after_low = self.mmio.accesses();
        if let Err(error) = first {
            let failure = OrderWriteFailure { error, effect: WriteEffect::Untouched };
            proof {
                self.history@ = self.history@.push(OrderAccess::Write(value, Err(failure)));
            }
            return Err(failure);
        }
        assert(first->Ok_0 == ());
        assert(first == Ok::<(), ExecutorError>(()));
        let second = self.mmio.write32(HIGH_OFFSET, high);
        if let Err(error) = second {
            let failure = OrderWriteFailure { error, effect: WriteEffect::MayHaveWritten };
            proof {
                self.history@ = self.history@.push(OrderAccess::Write(value, Err(failure)));
                assert(self.mmio.accesses() =~= old(self).mmio.accesses() + seq![
                    HalfAccess::Write(LOW_OFFSET, low_half(value), Ok(())),
                    HalfAccess::Write(HIGH_OFFSET, high_half(value), Err(error)),
                ]);
            }
            return Err(failure);
        }
        assert(second->Ok_0 == ());
        assert(second == Ok::<(), ExecutorError>(()));
        order_fence();
        proof {
            self.history@ = self.history@.push(OrderAccess::Write(value, Ok(())));
            assert(self.mmio.accesses() =~= old(self).mmio.accesses() + seq![
                HalfAccess::Write(LOW_OFFSET, low_half(value), Ok(())),
                HalfAccess::Write(HIGH_OFFSET, high_half(value), Ok(())),
            ]);
        }
        Ok(())
    }

    /// Forwards the window's own stop probe.
    fn confirm_stopped(&mut self) -> (result: Result<bool, ExecutorError>)
        ensures
            final(self).inner().accesses() == old(self).inner().accesses(),
    {
        let result = self.mmio.confirm_stopped();
        proof {
            self.history@ = self.history@.push(OrderAccess::ConfirmStopped(result));
        }
        result
    }
}

} // verus!
