use ls2k1000la::apbdma::{
    build_transfer, route_sdio_to_dma1, ChannelLeases, DescriptorStatusDecoder, DescriptorStatusError,
    Direction, Executor, ExecutorError, LeaseError, OrderIo, OrderWriteFailure, PlanError,
    UnverifiedStatusDecoder, COMMAND_INTERRUPT, COMMAND_MEMORY_TO_DEVICE, DMA1_ROUTE,
    DMA_ROUTE_MASK, HardwareDescriptor,
};
use ls2k1000la::irq_domain::GlobalIrq;
use ls2k1000la::platform::MmioRegion;
use ls2k1000la::topology::{DmaControllerDescription, InterruptSpec, NamedResource, ResourceSpecifier};

#[derive(Default)]
struct MockOrderIo {
    value: u64,
    writes: Vec<u64>,
}

impl OrderIo for MockOrderIo {
    fn operations(&self) -> ls2k1000la::apbdma::OrderHistory {
        unreachable!("specification only")
    }

    fn read64(&mut self) -> Result<u64, ExecutorError> {
        Ok(self.value)
    }
    fn write64(&mut self, value: u64) -> Result<(), OrderWriteFailure> {
        self.value = value;
        self.writes.push(value);
        Ok(())
    }
    fn confirm_stopped(&mut self) -> Result<bool, ExecutorError> {
        Ok(true)
    }
}

fn dma_irq() -> GlobalIrq {
    GlobalIrq::from_bank_local(1, 13).unwrap()
}

#[test]
fn builds_64_bit_read_descriptor_and_start_order() {
    let plan = build_transfer(0x1_0000_0040, 0x2_1234_5000, 0x1fe2_c040, 512, 16, Direction::DeviceToMemory)
        .unwrap();
    assert_eq!(core::mem::size_of::<HardwareDescriptor>(), 48);
    assert_eq!(plan.descriptor.memory_address_low, 0x1234_5000);
    assert_eq!(plan.descriptor.memory_address_high, 2);
    assert_eq!(plan.descriptor.apb_address, 0x1fe2_c040);
    assert_eq!(plan.descriptor.length_words, 16);
    assert_eq!(plan.descriptor.step_times, 8);
    assert_eq!(plan.descriptor.command, COMMAND_INTERRUPT);
    assert_eq!(plan.start_order, 0x1_0000_0049);
    assert!(plan.invalidate_buffer_after);
    assert!(plan.clean_descriptor_before);
}

#[test]
fn encodes_write_direction_and_dma_route_without_clobbering_bits() {
    let plan = build_transfer(0x2000, 0x3000, 0x1fe2_c040, 4, 1, Direction::MemoryToDevice).unwrap();
    assert_eq!(plan.descriptor.command, COMMAND_INTERRUPT | COMMAND_MEMORY_TO_DEVICE);
    assert!(!plan.invalidate_buffer_after);
    assert_eq!(route_sdio_to_dma1(0xa5a5_7fff), (0xa5a5_7fff & !DMA_ROUTE_MASK) | DMA1_ROUTE);
}

#[test]
fn rejects_unsafe_or_unrepresentable_transfers() {
    assert_eq!(build_transfer(0x2000, 0, 0, 0, 1, Direction::DeviceToMemory), Err(PlanError::EmptyTransfer));
    assert_eq!(build_transfer(0x2000, 0, 0, 3, 1, Direction::DeviceToMemory), Err(PlanError::UnalignedLength));
    assert_eq!(build_transfer(0x2004, 0, 0, 4, 1, Direction::DeviceToMemory), Err(PlanError::UnalignedDescriptor));
    assert_eq!(build_transfer(0x2000, 0, 0, 4, 0, Direction::DeviceToMemory), Err(PlanError::InvalidBurst));
    assert_eq!(
        build_transfer(0x2000, 0, u32::MAX as u64 + 1, 4, 1, Direction::DeviceToMemory),
        Err(PlanError::AddressOutOfRange)
    );
}

#[test]
fn executor_rejects_zero_stop_poll_budget() {
    assert!(matches!(
        Executor::with_stop_poll_limit(MockOrderIo::default(), dma_irq(), 0),
        Err(ExecutorError::InvalidPollLimit)
    ));
}

#[test]
fn executor_accepts_positive_stop_poll_budget() {
    assert!(Executor::with_stop_poll_limit(MockOrderIo::default(), dma_irq(), 1).is_ok());
    let _default = Executor::new(MockOrderIo::default(), dma_irq());
}

#[test]
fn uneven_burst_spreads_words_over_fewer_steps() {
    // 10 words in bursts of 4: three steps of ceil(10 / 3) = 4 words.
    let plan = build_transfer(0x2000, 0x3000, 0x100, 40, 4, Direction::DeviceToMemory).unwrap();
    assert_eq!(plan.descriptor.step_times, 3);
    assert_eq!(plan.descriptor.length_words, 4);
    assert_eq!(plan.byte_length, 40);
    assert_eq!(plan.start_order, 0x2000 | 0x1 | 0x8);
}

#[test]
fn unverified_decoder_never_reports_completion() {
    assert_eq!(UnverifiedStatusDecoder.decode(0), Err(DescriptorStatusError::StatusUnverified));
    assert_eq!(UnverifiedStatusDecoder.decode(u32::MAX), Err(DescriptorStatusError::StatusUnverified));
}

fn controller(phandle: u32) -> DmaControllerDescription {
    DmaControllerDescription {
        phandle,
        mmio: MmioRegion { base: 0x1fe0_0c00, size: 8 },
        interrupt: InterruptSpec { parent_phandle: 1, cells: [13, 4, 0, 0], cell_count: 2 },
        clock: NamedResource {
            name: None,
            specifier: ResourceSpecifier { provider_phandle: 50, args: vec![0] },
        },
        channel_cells: 1,
    }
}

#[test]
fn leases_one_channel_per_provider_and_release_reopens_it() {
    let mut leases = ChannelLeases::from_topology(&[controller(5), controller(6)]);
    assert_eq!(leases.claim(5, 1), Err(LeaseError::InvalidChannel));
    assert_eq!(leases.claim(7, 0), Err(LeaseError::UnknownProvider));
    let lease = leases.claim(5, 0).unwrap();
    assert_eq!(leases.claim(5, 0), Err(LeaseError::Busy));
    let other = leases.claim(6, 0).unwrap();
    assert_eq!(leases.release(lease), Ok(()));
    assert_eq!(leases.release(lease), Err(LeaseError::NotOwned));
    let again = leases.claim(5, 0).unwrap();
    assert_eq!(again, lease);
    assert_eq!(leases.release(other), Ok(()));
}

#[test]
fn leases_one_channel_per_provider_without_reuse_while_busy() {
    let controller = DmaControllerDescription {
        phandle: 7,
        mmio: MmioRegion { base: 0x1fe0_0c10, size: 8 },
        interrupt: InterruptSpec { parent_phandle: 1, cells: [13, 4, 0, 0], cell_count: 2 },
        clock: NamedResource {
            name: None,
            specifier: ResourceSpecifier { provider_phandle: 2, args: vec![0] },
        },
        channel_cells: 1,
    };
    let mut leases = ChannelLeases::from_topology(&[controller]);
    let lease = leases.claim(7, 0).unwrap();
    assert_eq!(leases.claim(7, 0), Err(LeaseError::Busy));
    assert_eq!(leases.claim(7, 1), Err(LeaseError::InvalidChannel));
    assert_eq!(leases.claim(8, 0), Err(LeaseError::UnknownProvider));
    leases.release(lease).unwrap();
    assert!(leases.claim(7, 0).is_ok());
}

#[test]
fn descriptor_words_follow_device_layout() {
    let plan = build_transfer(0x1_0000_0040, 0x2_1234_5000, 0x1fe2_c040, 512, 16, Direction::DeviceToMemory)
        .unwrap();
    let words = plan.descriptor.to_words();
    assert_eq!(words.len(), 12);
    assert_eq!(words[0], plan.descriptor.next_address_low);
    assert_eq!(words[1], 0x1234_5000);
    assert_eq!(words[2], 0x1fe2_c040);
    assert_eq!(words[3], plan.descriptor.length_words);
    assert_eq!(words[6], plan.descriptor.command);
    assert_eq!(words[9], 2);
    assert_eq!(words[10], 0);
    assert_eq!(words[11], 0);
}
