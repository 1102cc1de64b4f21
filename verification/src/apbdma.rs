//! Loongson-2 APBDMA descriptor planning, channel leases and the order
//! register executor.
//!
//! Planning performs no allocation, address translation, cache maintenance
//! or MMIO. The executor touches hardware only through [`OrderIo`].
use vstd::prelude::*;

use crate::dma_memory::DmaAllocationError;
use crate::irq_domain::{AcknowledgedIrq, GlobalIrq};
use crate::platform::DriverError;
use crate::topology::DmaControllerDescription;

verus! {

#[derive(Debug, Clone, Copy, PartialEq, Eq, Structural)]
pub enum Direction {
    DeviceToMemory,
    MemoryToDevice,
}

#[derive(Debug, Clone, Copy, PartialEq, Eq, Structural)]
pub enum PlanError {
    EmptyTransfer,
    UnalignedLength,
    UnalignedDescriptor,
    InvalidBurst,
    AddressOutOfRange,
    ArithmeticOverflow,
}

#[derive(Debug, Clone, Copy, PartialEq, Eq, Structural)]
pub struct ChannelLease {
    provider_phandle: u32,
    channel: u32,
}

impl ChannelLease {
    /// Provider whose channel this lease holds.
    pub closed spec fn provider(self) -> u32 {
        self.provider_phandle
    }

    /// Channel number within the provider.
    pub closed spec fn channel_number(self) -> u32 {
        self.channel
    }
}

#[derive(Debug, Clone, Copy, PartialEq, Eq, Structural)]
pub enum LeaseError {
    UnknownProvider,
    InvalidChannel,
    Busy,
    NotOwned,
}

/// One busy flag per APBDMA provider, in topology order.
pub struct ChannelLeases {
    slots: Vec<(u32, bool)>,
}

/// First slot of `provider` in `slots`, if any.
pub open spec fn first_slot(slots: Seq<(u32, bool)>, provider: u32) -> Option<int> {
    if exists|i: int|
        0 <= i < slots.len() && slots[i].0 == provider && forall|j: int|
            0 <= j < i ==> slots[j].0 != provider {
        Some(
            choose|i: int|
                0 <= i < slots.len() && slots[i].0 == provider && forall|j: int|
                    0 <= j < i ==> slots[j].0 != provider,
        )
    } else {
        None
    }
}

proof fn lemma_first_slot(slots: Seq<(u32, bool)>, provider: u32, i: int)
    requires
        0 <= i < slots.len(),
        slots[i].0 == provider,
        forall|j: int| 0 <= j < i ==> slots[j].0 != provider,
    ensures
        first_slot(slots, provider) == Some(i),
{
    let k = choose|k: int|
        0 <= k < slots.len() && slots[k].0 == provider && forall|j: int|
            0 <= j < k ==> slots[j].0 != provider;
    assert(0 <= k < slots.len() && slots[k].0 == provider && forall|j: int|
        0 <= j < k ==> slots[j].0 != provider);
    if k < i {
        assert(slots[k].0 != provider);
    }
    if i < k {
        assert(slots[i].0 != provider);
    }
}

impl View for ChannelLeases {
    type V = Seq<(u32, bool)>;

    closed spec fn view(&self) -> Seq<(u32, bool)> {
        self.slots@
    }
}

impl ChannelLeases {
    /// One idle slot per controller, in topology order.
    pub fn from_topology(controllers: &[DmaControllerDescription]) -> (leases: Self)
        ensures
            leases@.len() == controllers@.len(),
            forall|i: int|
                0 <= i < controllers@.len() ==> #[trigger] leases@[i] == (controllers@[i].phandle, false),
    {
        let mut slots: Vec<(u32, bool)> = Vec::new();
        let mut index: usize = 0;
        while index < controllers.len()
            invariant
                index <= controllers@.len(),
                slots@.len() == index,
                forall|i: int| 0 <= i < index ==> #[trigger] slots@[i] == (controllers@[i].phandle, false),
            decreases controllers@.len() - index,
        {
            slots.push((controllers[index].phandle, false));
            index = index + 1;
        }
        Self { slots }
    }

    fn find(&self, provider: u32) -> (found: Option<usize>)
        ensures
            match found {
                Some(i) => i < self@.len() && first_slot(self@, provider) == Some(i as int),
                None => first_slot(self@, provider) is None,
            },
    {
        let mut index: usize = 0;
        while index < self.slots.len()
            invariant
                index <= self.slots@.len(),
                forall|j: int| 0 <= j < index ==> self.slots@[j].0 != provider,
            decreases self.slots@.len() - index,
        {
            if self.slots[index].0 == provider {
                proof {
                    lemma_first_slot(self@, provider, index as int);
                }
                return Some(index);
            }
            index = index + 1;
        }
        None
    }

    /// Claim channel 0 of `provider_phandle` unless it is already leased.
    pub fn claim(&mut self, provider_phandle: u32, channel: u32) -> (result: Result<
        ChannelLease,
        LeaseError,
    >)
        ensures
            channel != 0 ==> result == Err::<ChannelLease, LeaseError>(LeaseError::InvalidChannel)
                && final(self)@ == old(self)@,
            channel == 0 ==> match first_slot(old(self)@, provider_phandle) {
                None => result == Err::<ChannelLease, LeaseError>(LeaseError::UnknownProvider)
                    && final(self)@ == old(self)@,
                Some(i) => if old(self)@[i].1 {
                    result == Err::<ChannelLease, LeaseError>(LeaseError::Busy) && final(self)@
                        == old(self)@
                } else {
                    result matches Ok(lease) && lease.provider() == provider_phandle
                        && lease.channel_number() == 0 && final(self)@ == old(self)@.update(
                        i,
                        (provider_phandle, true),
                    )
                },
            },
    {
        if channel != 0 {
            return Err(LeaseError::InvalidChannel);
        }
        let index = match self.find(provider_phandle) {
            Some(index) => index,
            None => return Err(LeaseError::UnknownProvider),
        };
        if self.slots[index].1 {
            return Err(LeaseError::Busy);
        }
        self.slots.set(index, (provider_phandle, true));
        Ok(ChannelLease { provider_phandle, channel })
    }

    /// Return a lease; only a busy channel 0 of a known provider is accepted.
    pub fn release(&mut self, lease: ChannelLease) -> (result: Result<(), LeaseError>)
        ensures
            match first_slot(old(self)@, lease.provider()) {
                None => result == Err::<(), LeaseError>(LeaseError::UnknownProvider)
                    && final(self)@ == old(self)@,
                Some(i) => if lease.channel_number() != 0 || !old(self)@[i].1 {
                    result == Err::<(), LeaseError>(LeaseError::NotOwned) && final(self)@ == old(
                        self,
                    )@
                } else {
                    result is Ok && final(self)@ == old(self)@.update(
                        i,
                        (lease.provider(), false),
                    )
                },
            },
    {
        let index = match self.find(lease.provider_phandle) {
            Some(index) => index,
            None => return Err(LeaseError::UnknownProvider),
        };
        if lease.channel != 0 || !self.slots[index].1 {
            return Err(LeaseError::NotOwned);
        }
        self.slots.set(index, (lease.provider_phandle, false));
        Ok(())
    }
}

/// Releasing the lease that a successful claim returned restores the table:
/// the claimed slot is still found first, it is busy, and clearing it gives
/// back the slots as they were before the claim.
pub proof fn lemma_claim_release_restores(slots: Seq<(u32, bool)>, provider: u32)
    requires
        first_slot(slots, provider) is Some,
        !slots[first_slot(slots, provider)->Some_0].1,
    ensures
        ({
            let i = first_slot(slots, provider)->Some_0;
            let claimed = slots.update(i, (provider, true));
            &&& first_slot(claimed, provider) == Some(i)
            &&& claimed[i].1
            &&& claimed.update(i, (provider, false)) == slots
        }),
{
    let i = first_slot(slots, provider)->Some_0;
    assert(0 <= i < slots.len() && slots[i].0 == provider && forall|j: int|
        0 <= j < i ==> slots[j].0 != provider);
    let claimed = slots.update(i, (provider, true));
    assert forall|j: int| 0 <= j < i implies claimed[j].0 != provider by {
        assert(claimed[j] == slots[j]);
    }
    lemma_first_slot(claimed, provider, i);
    assert(claimed.update(i, (provider, false)) =~= slots);
}

/// Descriptor layout of the Loongson-2 APBDMA engine, as Linux defines it.
#[derive(Debug, Clone, Copy, Default, PartialEq, Eq)]
pub struct HardwareDescriptor {
    pub next_address_low: u32,
    pub memory_address_low: u32,
    pub apb_address: u32,
    pub length_words: u32,
    pub step_length: u32,
    pub step_times: u32,
    pub command: u32,
    pub status: u32,
    pub next_address_high: u32,
    pub memory_address_high: u32,
    pub reserved: [u32; 2],
}

impl HardwareDescriptor {
    /// The descriptor as the device reads it: twelve 32-bit words in field
    /// order.
    pub open spec fn word_layout(self) -> Seq<u32> {
        seq![
            self.next_address_low,
            self.memory_address_low,
            self.apb_address,
            self.length_words,
            self.step_length,
            self.step_times,
            self.command,
            self.status,
            self.next_address_high,
            self.memory_address_high,
            self.reserved[0],
            self.reserved[1],
        ]
    }

    /// The twelve device-visible words of the descriptor, in layout order.
    pub fn to_words(&self) -> (words: [u32; 12])
        ensures
            words@ == self.word_layout(),
    {
        let words = [
            self.next_address_low,
            self.memory_address_low,
            self.apb_address,
            self.length_words,
            self.step_length,
            self.step_times,
            self.command,
            self.status,
            self.next_address_high,
            self.memory_address_high,
            self.reserved[0],
            self.reserved[1],
        ];
        assert(words@ =~= self.word_layout());
        words
    }
}

/// Raise the completion interrupt.
pub const COMMAND_INTERRUPT: u32 = 0x2;

/// Transfer from memory to the device.
pub const COMMAND_MEMORY_TO_DEVICE: u32 = 0x1000;

pub const ORDER_64_BIT: u64 = 0x1;

pub const ORDER_START: u64 = 0x8;

pub const ORDER_STOP: u64 = 0x10;

/// Low order-register bits that carry control rather than the descriptor address.
pub const ORDER_CONFIG_MASK: u64 = 0x1f;

pub const DEFAULT_STOP_POLL_LIMIT: usize = 1024;

/// System-register field that routes SDIO to one of the APBDMA engines.
pub const DMA_ROUTE_MASK: u32 = 0x3_8000;

pub const DMA1_ROUTE: u32 = 0x8000;

#[derive(Debug, Clone, Copy, PartialEq, Eq)]
pub struct TransferPlan {
    pub descriptor: HardwareDescriptor,
    pub descriptor_physical_address: u64,
    pub start_order: u64,
    pub memory_physical_address: u64,
    pub byte_length: usize,
    pub direction: Direction,
    /// The buffer must be invalidated after a device-to-memory transfer.
    pub invalidate_buffer_after: bool,
    /// Descriptor contents must be visible before the order register is written.
    pub clean_descriptor_before: bool,
}

/// A plan whose descriptor and buffer were made visible to the device.
#[derive(Debug)]
pub struct PreparedTransfer(TransferPlan);

impl PreparedTransfer {
    /// The plan this token stands for.
    pub closed spec fn planned(self) -> TransferPlan {
        self.0
    }
}

#[derive(Debug, Clone, Copy, PartialEq, Eq, Structural)]
pub enum ResourceError {
    Allocation(DmaAllocationError),
    InvalidPlan(PlanError),
    Driver(DriverError),
}

/// Quotient of `a` by `b`, rounded up.
pub open spec fn ceil_div(a: int, b: int) -> int {
    (a + b - 1) / b
}

/// The transfer plan for a request, or why it is refused.
pub open spec fn transfer_spec(
    descriptor_physical_address: u64,
    memory_physical_address: u64,
    apb_address: u64,
    byte_length: usize,
    burst_words: u32,
    direction: Direction,
) -> Result<TransferPlan, PlanError> {
    if byte_length == 0 {
        Err(PlanError::EmptyTransfer)
    } else if byte_length % 4 != 0 {
        Err(PlanError::UnalignedLength)
    } else if descriptor_physical_address & ORDER_CONFIG_MASK != 0 {
        Err(PlanError::UnalignedDescriptor)
    } else if burst_words == 0 {
        Err(PlanError::InvalidBurst)
    } else if apb_address > u32::MAX {
        Err(PlanError::AddressOutOfRange)
    } else if byte_length / 4 > u32::MAX {
        Err(PlanError::ArithmeticOverflow)
    } else {
        let words = byte_length / 4;
        let step_times = ceil_div(words as int, burst_words as int);
        Ok(
            TransferPlan {
                descriptor: HardwareDescriptor {
                    next_address_low: 0,
                    memory_address_low: memory_physical_address as u32,
                    apb_address: apb_address as u32,
                    length_words: ceil_div(words as int, step_times) as u32,
                    step_length: 0,
                    step_times: step_times as u32,
                    command: if direction == Direction::MemoryToDevice {
                        COMMAND_INTERRUPT | COMMAND_MEMORY_TO_DEVICE
                    } else {
                        COMMAND_INTERRUPT
                    },
                    status: 0,
                    next_address_high: 0,
                    memory_address_high: (memory_physical_address >> 32u64) as u32,
                    reserved: [0u32, 0u32],
                },
                descriptor_physical_address,
                start_order: (descriptor_physical_address & !ORDER_CONFIG_MASK) | ORDER_64_BIT
                    | ORDER_START,
                memory_physical_address,
                byte_length,
                direction,
                invalidate_buffer_after: direction == Direction::DeviceToMemory,
                clean_descriptor_before: true,
            },
        )
    }
}

proof fn lemma_ceil_div_bounds(a: int, b: int)
    requires
        a >= 1,
        b >= 1,
    ensures
        1 <= ceil_div(a, b) <= a,
{
    assert(1 <= (a + b - 1) / b) by (nonlinear_arith)
        requires
            a >= 1,
            b >= 1,
    ;
    assert((a + b - 1) / b <= a) by (nonlinear_arith)
        requires
            a >= 1,
            b >= 1,
    ;
}

/// System-register value with the SDIO route set to APBDMA1.
pub open spec fn routed_to_dma1(current: u32) -> u32 {
    (current & !DMA_ROUTE_MASK) | DMA1_ROUTE
}

/// Routing SDIO to APBDMA1 is idempotent and keeps every bit outside the
/// route field.
pub proof fn lemma_route_idempotent(current: u32)
    ensures
        routed_to_dma1(routed_to_dma1(current)) == routed_to_dma1(current),
        routed_to_dma1(current) & !DMA_ROUTE_MASK == current & !DMA_ROUTE_MASK,
        routed_to_dma1(current) & DMA_ROUTE_MASK == DMA1_ROUTE,
{
    let once = (current & !DMA_ROUTE_MASK) | DMA1_ROUTE;
    assert(((once & !DMA_ROUTE_MASK) | DMA1_ROUTE) == once && once & !DMA_ROUTE_MASK == current
        & !DMA_ROUTE_MASK && once & DMA_ROUTE_MASK == DMA1_ROUTE) by (bit_vector)
        requires
            once == (current & !DMA_ROUTE_MASK) | DMA1_ROUTE,
            DMA_ROUTE_MASK == 0x3_8000u32,
            DMA1_ROUTE == 0x8000u32,
    ;
}

proof fn lemma_ceil_div_covers(a: int, b: int)
    requires
        a >= 0,
        b >= 1,
    ensures
        ceil_div(a, b) * b >= a,
        ceil_div(a, b) * b < a + b,
{
    let q = (a + b - 1) / b;
    let r = (a + b - 1) % b;
    assert(a + b - 1 == q * b + r && 0 <= r < b) by (nonlinear_arith)
        requires
            b >= 1,
            q == (a + b - 1) / b,
            r == (a + b - 1) % b,
    ;
    assert(q * b == b * q) by (nonlinear_arith);
}

proof fn lemma_quotient_bounded(x: int, s: int, k: int)
    requires
        x >= 0,
        s >= 1,
        k >= 0,
        x < s * (k + 1),
    ensures
        x / s <= k,
{
    assert(x / s <= k) by (nonlinear_arith)
        requires
            x >= 0,
            s >= 1,
            k >= 0,
            x < s * (k + 1),
    ;
}

/// A planned transfer moves every requested word: its steps times its
/// per-step length cover the request, overshooting it by fewer words than
/// there are steps, and no step is longer than a burst.
pub proof fn lemma_transfer_covers_request(
    descriptor_physical_address: u64,
    memory_physical_address: u64,
    apb_address: u64,
    byte_length: usize,
    burst_words: u32,
    direction: Direction,
)
    requires
        transfer_spec(
            descriptor_physical_address,
            memory_physical_address,
            apb_address,
            byte_length,
            burst_words,
            direction,
        ) is Ok,
    ensures
        ({
            let plan = transfer_spec(
                descriptor_physical_address,
                memory_physical_address,
                apb_address,
                byte_length,
                burst_words,
                direction,
            )->Ok_0;
            let words = byte_length / 4;
            &&& plan.descriptor.step_times * plan.descriptor.length_words >= words
            &&& plan.descriptor.length_words <= burst_words
            &&& plan.descriptor.step_times * plan.descriptor.length_words < words
                + plan.descriptor.step_times
            &&& plan.descriptor.step_times >= 1
            &&& plan.descriptor.length_words >= 1
        }),
{
    let words = (byte_length / 4) as int;
    let b = burst_words as int;
    lemma_ceil_div_bounds(words, b);
    let steps = ceil_div(words, b);
    lemma_ceil_div_covers(words, b);
    lemma_ceil_div_bounds(words, steps);
    lemma_ceil_div_covers(words, steps);
    let length = ceil_div(words, steps);
    assert(words + steps - 1 < steps * (b + 1)) by (nonlinear_arith)
        requires
            steps * b >= words,
            steps >= 1,
    ;
    lemma_quotient_bounded(words + steps - 1, steps, b);
    assert(length * steps == steps * length) by (nonlinear_arith);
}

/// Preserve unrelated system-register bits and route SDIO to APBDMA1.
pub fn route_sdio_to_dma1(current: u32) -> (routed: u32)
    ensures
        routed == routed_to_dma1(current),
{
    (current & !DMA_ROUTE_MASK) | DMA1_ROUTE
}

/// Plan one single-descriptor transfer of whole 32-bit words.
pub fn build_transfer(
    descriptor_physical_address: u64,
    memory_physical_address: u64,
    apb_address: u64,
    byte_length: usize,
    burst_words: u32,
    direction: Direction,
) -> (result: Result<TransferPlan, PlanError>)
    ensures
        result == transfer_spec(
            descriptor_physical_address,
            memory_physical_address,
            apb_address,
            byte_length,
            burst_words,
            direction,
        ),
{
    if byte_length == 0 {
        return Err(PlanError::EmptyTransfer);
    }
    if byte_length % 4 != 0 {
        return Err(PlanError::UnalignedLength);
    }
    if descriptor_physical_address & ORDER_CONFIG_MASK != 0 {
        return Err(PlanError::UnalignedDescriptor);
    }
    if burst_words == 0 {
        return Err(PlanError::InvalidBurst);
    }
    if apb_address > 0xffff_ffff {
        return Err(PlanError::AddressOutOfRange);
    }
    let apb = apb_address as u32;
    let word_count = byte_length / 4;
    if word_count > 0xffff_ffff {
        return Err(PlanError::ArithmeticOverflow);
    }
    let words = word_count as u64;
    let burst = burst_words as u64;
    proof {
        lemma_ceil_div_bounds(words as int, burst as int);
    }
    let step_times = (words + burst - 1) / burst;
    proof {
        lemma_ceil_div_bounds(words as int, step_times as int);
    }
    let length_words = (words + step_times - 1) / step_times;
    let command = if direction == Direction::MemoryToDevice {
        COMMAND_INTERRUPT | COMMAND_MEMORY_TO_DEVICE
    } else {
        COMMAND_INTERRUPT
    };
    let descriptor = HardwareDescriptor {
        next_address_low: 0,
        memory_address_low: memory_physical_address as u32,
        apb_address: apb,
        length_words: length_words as u32,
        step_length: 0,
        step_times: step_times as u32,
        command,
        status: 0,
        next_address_high: 0,
        memory_address_high: (memory_physical_address >> 32u64) as u32,
        reserved: [0u32, 0u32],
    };
    Ok(
        TransferPlan {
            descriptor,
            descriptor_physical_address,
            start_order: (descriptor_physical_address & !ORDER_CONFIG_MASK) | ORDER_64_BIT
                | ORDER_START,
            memory_physical_address,
            byte_length,
            direction,
            invalidate_buffer_after: direction == Direction::DeviceToMemory,
            clean_descriptor_before: true,
        },
    )
}

#[derive(Debug, Clone, Copy, PartialEq, Eq, Structural)]
pub enum ExecutorError {
    Busy,
    Idle,
    Register,
    InvalidPollLimit,
    StopTimeout,
    StopUnverified,
    UnexpectedIrq,
}

#[derive(Debug, Clone, Copy, PartialEq, Eq, Structural)]
pub enum WriteEffect {
    Untouched,
    MayHaveWritten,
}

#[derive(Debug, Clone, Copy, PartialEq, Eq, Structural)]
pub struct OrderWriteFailure {
    pub error: ExecutorError,
    pub effect: WriteEffect,
}

#[derive(Debug)]
pub struct StartFailure {
    pub error: ExecutorError,
    pub prepared: PreparedTransfer,
    recovery_required: bool,
}

impl StartFailure {
    /// The order register may hold a partial write: the engine must be stopped
    /// before the CPU reclaims the buffer.
    pub closed spec fn needs_recovery(self) -> bool {
        self.recovery_required
    }

    /// Why the start failed.
    pub closed spec fn cause(self) -> ExecutorError {
        self.error
    }

    /// The plan of the transfer handed back.
    pub closed spec fn returned_plan(self) -> TransferPlan {
        self.prepared.0
    }
}

/// Access to the 64-bit APBDMA order register.
/// One operation on the order register, with its result.
#[derive(Debug, Clone, Copy, PartialEq, Eq)]
pub enum OrderAccess {
    Read(Result<u64, ExecutorError>),
    Write(u64, Result<(), OrderWriteFailure>),
    ConfirmStopped(Result<bool, ExecutorError>),
}

/// History of the operations made through an [`OrderIo`] register.
pub type OrderHistory = Seq<OrderAccess>;

/// The 64-bit order register. Each operation is recorded, with its result,
/// at the end of the register's operation history.
pub trait OrderIo {
    /// Every operation made through this register so far, oldest first.
    spec fn operations(&self) -> OrderHistory;

    fn read64(&mut self) -> (result: Result<u64, ExecutorError>)
        ensures
            final(self).operations() == old(self).operations().push(OrderAccess::Read(result)),
    ;

    fn write64(&mut self, value: u64) -> (result: Result<(), OrderWriteFailure>)
        ensures
            final(self).operations() == old(self).operations().push(
                OrderAccess::Write(value, result),
            ),
    ;

    /// Report whether hardware is proven to have stopped. Implementations must
    /// return `StopUnverified` when the platform has no documented probe.
    fn confirm_stopped(&mut self) -> (result: Result<bool, ExecutorError>)
        ensures
            final(self).operations() == old(self).operations().push(
                OrderAccess::ConfirmStopped(result),
            ),
    ;
}

#[derive(Debug, Clone, Copy, PartialEq, Eq)]
pub struct Completion {
    plan: TransferPlan,
}

impl Completion {
    /// The plan that finished.
    pub closed spec fn finished(self) -> TransferPlan {
        self.plan
    }

    pub fn requires_buffer_invalidate(self) -> (r: bool)
        ensures
            r == self.finished().invalidate_buffer_after,
    {
        self.plan.invalidate_buffer_after
    }

    pub fn plan(self) -> (r: TransferPlan)
        ensures
            r == self.finished(),
    {
        self.plan
    }
}

#[derive(Debug, Clone, Copy, PartialEq, Eq, Structural)]
pub enum DescriptorCompletion {
    Complete,
    HardwareError(u32),
}

#[derive(Debug, Clone, Copy, PartialEq, Eq, Structural)]
pub enum DescriptorStatusError {
    Cache(DriverError),
    Read,
    StatusUnverified,
    Unknown(u32),
}

/// Interpretation of a descriptor status word.
pub trait DescriptorStatusDecoder {
    fn decode(&self, status: u32) -> Result<DescriptorCompletion, DescriptorStatusError>;
}

/// Decoder for the board as documented: no status encoding is known, so no
/// status word counts as completion.
pub struct UnverifiedStatusDecoder;

impl DescriptorStatusDecoder for UnverifiedStatusDecoder {
    fn decode(&self, _status: u32) -> (result: Result<DescriptorCompletion, DescriptorStatusError>)
        ensures
            result == Err::<DescriptorCompletion, DescriptorStatusError>(
                DescriptorStatusError::StatusUnverified,
            ),
    {
        Err(DescriptorStatusError::StatusUnverified)
    }
}

/// Drives one APBDMA channel through its order register.
pub struct Executor<R> {
    registers: R,
    running: Option<TransferPlan>,
    stop_poll_limit: usize,
    expected_irq: GlobalIrq,
}

/// The order value that stops the engine while keeping its address bits.
pub open spec fn stop_order(current: u64) -> u64 {
    (current & !ORDER_CONFIG_MASK) | ORDER_64_BIT | ORDER_STOP
}

/// `count` stop confirmations that each reported the engine still running.
pub open spec fn declined_confirmations(count: nat) -> Seq<OrderAccess> {
    Seq::new(count, |i: int| OrderAccess::ConfirmStopped(Ok(false)))
}

/// The order-register operations of a start of a transfer with start order
/// `start`: clear the register, then, only if that succeeded, write the
/// start order. `result` is how the start ended.
pub open spec fn start_operations(
    before: Seq<OrderAccess>,
    after: Seq<OrderAccess>,
    start: u64,
    result: Result<(), StartFailure>,
) -> bool {
    match result {
        Ok(()) => after == before + seq![
            OrderAccess::Write(0, Ok(())),
            OrderAccess::Write(start, Ok(())),
        ],
        Err(failure) => exists|write: OrderWriteFailure|
            #![trigger write.error]
            {
                &&& failure.cause() == write.error
                &&& failure.needs_recovery() == (write.effect == WriteEffect::MayHaveWritten)
                &&& (after == before.push(OrderAccess::Write(0, Err(write))) || after == before
                    + seq![OrderAccess::Write(0, Ok(())), OrderAccess::Write(start, Err(write))])
            },
    }
}

/// The order-register operations of a stop polled at most `limit` times:
/// one read, the stop order derived from it, then confirmations until the
/// engine is confirmed stopped, a confirmation fails, or `limit` of them
/// reported it still running.
pub open spec fn stop_operations(
    before: Seq<OrderAccess>,
    after: Seq<OrderAccess>,
    limit: usize,
    result: Result<Completion, ExecutorError>,
) -> bool {
    ||| result matches Err(error) && after == before.push(OrderAccess::Read(Err(error)))
    ||| exists|current: u64, write: OrderWriteFailure|
        result == Err::<Completion, ExecutorError>(write.error) && after == before + seq![
            OrderAccess::Read(Ok(current)),
            OrderAccess::Write(stop_order(current), Err(write)),
        ]
    ||| exists|current: u64, declined: nat|
        #![trigger stop_order(current), declined_confirmations(declined)]
        {
            let issued = before + seq![
                OrderAccess::Read(Ok(current)),
                OrderAccess::Write(stop_order(current), Ok(())),
            ] + declined_confirmations(declined);
            ||| declined == limit && result == Err::<Completion, ExecutorError>(
                ExecutorError::StopTimeout,
            ) && after == issued
            ||| declined < limit && result is Ok && after == issued.push(
                OrderAccess::ConfirmStopped(Ok(true)),
            )
            ||| declined < limit && (result matches Err(error) && after == issued.push(
                OrderAccess::ConfirmStopped(Err(error)),
            ))
        }
}

impl<R> Executor<R> {
    /// Every stop polls the engine at least once.
    pub closed spec fn wf(self) -> bool {
        self.stop_poll_limit >= 1
    }

    /// The transfer the engine may be running.
    pub closed spec fn in_flight(self) -> Option<TransferPlan> {
        self.running
    }

    /// Number of stop confirmations polled before giving up.
    pub closed spec fn stop_polls(self) -> usize {
        self.stop_poll_limit
    }

    /// The interrupt this channel completes on.
    pub closed spec fn irq(self) -> GlobalIrq {
        self.expected_irq
    }
}

impl<R: OrderIo> Executor<R> {
    /// The operations made on the order register so far, oldest first.
    pub closed spec fn order_operations(self) -> Seq<OrderAccess> {
        self.registers.operations()
    }

    pub fn new(registers: R, expected_irq: GlobalIrq) -> (executor: Self)
        ensures
            executor.wf(),
            executor.in_flight() is None,
            executor.stop_polls() == DEFAULT_STOP_POLL_LIMIT,
            executor.irq() == expected_irq,
            executor.order_operations() == registers.operations(),
    {
        Self { registers, running: None, stop_poll_limit: DEFAULT_STOP_POLL_LIMIT, expected_irq }
    }

    pub fn with_stop_poll_limit(registers: R, expected_irq: GlobalIrq, stop_poll_limit: usize) -> (result:
        Result<Self, ExecutorError>)
        ensures
            stop_poll_limit == 0 <==> result == Err::<Self, ExecutorError>(
                ExecutorError::InvalidPollLimit,
            ),
            stop_poll_limit != 0 <==> result is Ok,
            result matches Ok(executor) ==> executor.wf() && executor.in_flight() is None
                && executor.stop_polls() == stop_poll_limit && executor.irq() == expected_irq
                && executor.order_operations() == registers.operations(),
    {
        if stop_poll_limit == 0 {
            return Err(ExecutorError::InvalidPollLimit);
        }
        Ok(Self { registers, running: None, stop_poll_limit, expected_irq })
    }

    /// Clear the order register, then write the start order of `prepared`.
    pub(crate) fn start(&mut self, prepared: PreparedTransfer) -> (result: Result<(), StartFailure>)
        ensures
            final(self).wf() == old(self).wf(),
            final(self).stop_polls() == old(self).stop_polls(),
            final(self).irq() == old(self).irq(),
            old(self).in_flight() is Some ==> (result matches Err(failure) && failure.cause()
                == ExecutorError::Busy && !failure.needs_recovery() && final(self).in_flight()
                == old(self).in_flight() && final(self).order_operations() == old(
                self,
            ).order_operations()),
            old(self).in_flight() is None ==> start_operations(
                old(self).order_operations(),
                final(self).order_operations(),
                prepared.planned().start_order,
                result,
            ),
            old(self).in_flight() is None ==> match result {
                Ok(()) => final(self).in_flight() == Some(prepared.planned()),
                Err(failure) => failure.returned_plan() == prepared.planned() && if failure.needs_recovery() {
                    final(self).in_flight() == Some(prepared.planned())
                } else {
                    final(self).in_flight() is None
                },
            },
    {
        if self.running.is_some() {
            return Err(StartFailure { error: ExecutorError::Busy, prepared, recovery_required: false });
        }
        let ghost before = self.registers.operations();
        let cleared = self.registers.write64(0);
        if let Err(failure) = cleared {
            let partial = failure.effect == WriteEffect::MayHaveWritten;
            if partial {
                self.running = Some(prepared.0);
            }
            let start_failure = StartFailure { error: failure.error, prepared, recovery_required: partial };
            assert(start_operations(before, self.registers.operations(), prepared.planned().start_order, Err(start_failure)));
            return Err(start_failure);
        }
        assert(cleared->Ok_0 == ());
        let started = self.registers.write64(prepared.0.start_order);
        if let Err(failure) = started {
            let partial = failure.effect == WriteEffect::MayHaveWritten;
            if partial {
                self.running = Some(prepared.0);
            }
            let start_failure = StartFailure { error: failure.error, prepared, recovery_required: partial };
            assert(self.registers.operations() =~= before + seq![
                OrderAccess::Write(0, Ok(())),
                OrderAccess::Write(prepared.planned().start_order, Err(failure)),
            ]);
            assert(start_failure.cause() == failure.error);
            assert(start_failure.needs_recovery() == (failure.effect == WriteEffect::MayHaveWritten));
            assert(start_operations(before, self.registers.operations(), prepared.planned().start_order, Err(start_failure)));
            return Err(start_failure);
        }
        assert(started->Ok_0 == ());
        assert(self.registers.operations() =~= before + seq![
            OrderAccess::Write(0, Ok(())),
            OrderAccess::Write(prepared.planned().start_order, Ok(())),
        ]);
        self.running = Some(prepared.0);
        Ok(())
    }

    /// Called only after the APBDMA IRQ has been claimed and acknowledged.
    pub(crate) fn complete_irq(&mut self, acknowledged: AcknowledgedIrq) -> (result: Result<
        Completion,
        ExecutorError,
    >)
        ensures
            final(self).wf() == old(self).wf(),
            final(self).stop_polls() == old(self).stop_polls(),
            final(self).irq() == old(self).irq(),
            if acknowledged@ != old(self).irq() {
                result == Err::<Completion, ExecutorError>(ExecutorError::UnexpectedIrq)
                    && final(self).in_flight() == old(self).in_flight()
            } else {
                match old(self).in_flight() {
                    None => result == Err::<Completion, ExecutorError>(ExecutorError::Idle)
                        && final(self).in_flight() is None,
                    Some(plan) => (result matches Ok(completion) && completion.finished() == plan
                        && final(self).in_flight() is None),
                }
            },
    {
        if acknowledged.irq() != self.expected_irq {
            return Err(ExecutorError::UnexpectedIrq);
        }
        match self.running.take() {
            Some(plan) => Ok(Completion { plan }),
            None => Err(ExecutorError::Idle),
        }
    }

    /// Write the stop order and wait, boundedly, for the platform to confirm
    /// that the engine no longer touches memory.
    pub(crate) fn stop(&mut self) -> (result: Result<Completion, ExecutorError>)
        requires
            old(self).wf(),
        ensures
            final(self).wf(),
            final(self).stop_polls() == old(self).stop_polls(),
            final(self).irq() == old(self).irq(),
            match old(self).in_flight() {
                None => result == Err::<Completion, ExecutorError>(ExecutorError::Idle)
                    && final(self).in_flight() is None,
                Some(plan) => match result {
                    Ok(completion) => completion.finished() == plan && final(self).in_flight() is None,
                    Err(_) => final(self).in_flight() == Some(plan),
                },
            },
            old(self).in_flight() is None ==> final(self).order_operations() == old(
                self,
            ).order_operations(),
            old(self).in_flight() is Some ==> stop_operations(
                old(self).order_operations(),
                final(self).order_operations(),
                old(self).stop_polls(),
                result,
            ),
    {
        let plan = match self.running {
            Some(plan) => plan,
            None => return Err(ExecutorError::Idle),
        };
        let ghost before = self.registers.operations();
        let current = match self.registers.read64() {
            Ok(value) => value,
            Err(error) => {
                return Err(error);
            },
        };
        let written = self.registers.write64((current & !ORDER_CONFIG_MASK) | ORDER_64_BIT | ORDER_STOP);
        if let Err(failure) = written {
            assert(self.registers.operations() =~= before + seq![
                OrderAccess::Read(Ok(current)),
                OrderAccess::Write(stop_order(current), Err(failure)),
            ]);
            return Err(failure.error);
        }
        assert(written->Ok_0 == ());
        let ghost issued = before + seq![
            OrderAccess::Read(Ok(current)),
            OrderAccess::Write(stop_order(current), Ok(())),
        ];
        assert(self.registers.operations() =~= issued + declined_confirmations(0));
        let limit = self.stop_poll_limit;
        let mut poll: usize = 0;
        while poll < limit
            invariant
                self.registers.operations() == issued + declined_confirmations(poll as nat),
                before == old(self).order_operations(),
                issued == before + seq![
                    OrderAccess::Read(Ok(current)),
                    OrderAccess::Write(stop_order(current), Ok(())),
                ],
                poll <= limit,
                limit == self.stop_poll_limit,
                self.running == Some(plan),
                old(self).in_flight() == Some(plan),
                self.wf(),
                self.stop_polls() == old(self).stop_polls(),
                self.irq() == old(self).irq(),
            decreases limit - poll,
        {
            let confirmed = self.registers.confirm_stopped();
            match confirmed {
                Ok(true) => {
                    self.running = None;
                    let completion = Completion { plan };
                    assert(stop_operations(before, self.registers.operations(), limit, Ok(completion)));
                    return Ok(completion);
                },
                Ok(false) => {},
                Err(error) => {
                    assert(stop_operations(before, self.registers.operations(), limit, Err(error)));
                    return Err(error);
                },
            }
            assert(self.registers.operations() =~= issued + declined_confirmations(poll as nat + 1));
            poll = poll + 1;
        }
        assert(stop_operations(before, self.registers.operations(), limit, Err(ExecutorError::StopTimeout)));
        Err(ExecutorError::StopTimeout)
    }
}

} // verus!
