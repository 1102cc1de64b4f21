use ls2k1000la::gmac::{
    GmacBlock, GmacHardware, LoongsonGmacDevice, Ring, DMA_BUS_MODE, DMA_RESET_ON,
    GMAC0_PADDR, GMAC_GMII_ADDR, GMII_BUSY,
    configure_link_value, dma_addr32, is_supported_compatible, mac_address_words, phy_identifier,
    ring_next, rx_descriptor, tx_idle_descriptor, tx_ready_status,
    valid_unicast_mac, DmaDesc, LinkState, MAC_DUPLEX, MAC_LINK_MODE, MAC_LINK_SPEED_125,
    MAC_LINK_SPEED_25, MAC_LINK_STATUS, MAC_PORT_SELECT, MAC_SPEED_100, RING_SIZE,
};
use ls2k1000la::platform::{DriverError, MmioRegion};
use std::collections::HashMap;

#[test]
fn recognizes_dwmac_compatibles() {
    assert!(is_supported_compatible(&[String::from("snps,dwmac-3.70a")]));
    assert!(is_supported_compatible(&[String::from("snps,arc-dwmac-3.70a")]));
    assert!(!is_supported_compatible(&[String::from("virtio,mmio")]));
}

#[test]
fn decodes_link_state() {
    let gigabit = LinkState::from_rgsmii(MAC_LINK_STATUS | MAC_LINK_MODE | MAC_LINK_SPEED_125);
    assert!(gigabit.up);
    assert!(gigabit.full_duplex);
    assert_eq!(gigabit.speed_mbps, 1000);
    let hundred = LinkState::from_rgsmii(MAC_LINK_STATUS | MAC_LINK_SPEED_25);
    assert_eq!(hundred.speed_mbps, 100);
    let ten = LinkState::from_rgsmii(0);
    assert!(!ten.up);
    assert_eq!(ten.speed_mbps, 10);
}

#[test]
fn validates_unicast_mac_addresses() {
    assert!(valid_unicast_mac([0x02, 0, 0, 0, 0, 1]));
    assert!(!valid_unicast_mac([0, 0, 0, 0, 0, 0]));
    assert!(!valid_unicast_mac([1, 0, 0, 0, 0, 0]));
}

#[test]
fn gmac_self_test_runs() {
    ls2k1000la::gmac::test();
}

#[test]
fn station_address_splits_into_high_and_low_words() {
    assert_eq!(mac_address_words([0x62, 0x19, 0x1A, 0x02, 0xA8, 0x91]), (0x91A8, 0x021A_1962));
}

#[test]
fn link_configuration_keeps_unrelated_bits() {
    let unrelated = 0x0000_000C;
    let full_gigabit = LinkState::from_rgsmii(MAC_LINK_STATUS | MAC_LINK_MODE | MAC_LINK_SPEED_125);
    assert_eq!(configure_link_value(unrelated | MAC_PORT_SELECT, full_gigabit), unrelated | MAC_DUPLEX);
    let half_hundred = LinkState::from_rgsmii(MAC_LINK_STATUS | MAC_LINK_SPEED_25);
    assert_eq!(configure_link_value(unrelated | MAC_DUPLEX, half_hundred), unrelated | MAC_PORT_SELECT | MAC_SPEED_100);
    let ten = LinkState::from_rgsmii(0);
    assert_eq!(configure_link_value(unrelated, ten), unrelated | MAC_PORT_SELECT);
}

#[test]
fn descriptor_fields_and_ring_wrap() {
    let frame = DmaDesc { status: 0x0040_0300, length: 0, buffer1: 0, buffer2: 0 };
    assert!(frame.rx_valid());
    assert!(!frame.owned_by_dma());
    assert_eq!(frame.rx_length(), 0x40);
    let errored = DmaDesc { status: 0x8000_8300, length: 0, buffer1: 0, buffer2: 0 };
    assert!(errored.owned_by_dma());
    assert!(!errored.rx_valid());
    assert_eq!(ring_next(0), 1);
    assert_eq!(ring_next(RING_SIZE - 1), 0);
    assert_eq!(dma_addr32(0xFFFF_FFFF), Ok(0xFFFF_FFFF));
    assert_eq!(dma_addr32(0x1_0000_0000), Err(DriverError::Unsupported));
}

#[test]
fn phy_identifier_puts_id1_above_id2() {
    assert_eq!(phy_identifier(0x001C, 0xC916), 0x001C_C916);
    assert_eq!(phy_identifier(0, 0), 0);
    assert_eq!(phy_identifier(0xFFFF, 0x0001), 0xFFFF_0001);
}

#[test]
fn descriptors_mark_the_last_slot_end_of_ring() {
    assert_eq!(tx_ready_status(0), 0xF000_0000);
    assert_eq!(tx_ready_status(RING_SIZE - 1), 0xF020_0000);
    assert_eq!(tx_idle_descriptor(3), DmaDesc { status: 0, length: 0, buffer1: 0, buffer2: 0 });
    assert_eq!(
        tx_idle_descriptor(RING_SIZE - 1),
        DmaDesc { status: 0x0020_0000, length: 0, buffer1: 0, buffer2: 0 }
    );
    assert_eq!(
        rx_descriptor(0, 0x1000, 0x8000_0000),
        DmaDesc { status: 0x8000_0000, length: 0x0800, buffer1: 0x1000, buffer2: 0 }
    );
    assert_eq!(
        rx_descriptor(RING_SIZE - 1, 0x2000, 0),
        DmaDesc { status: 0, length: 0x8800, buffer1: 0x2000, buffer2: 0 }
    );
}

struct ModelGmac {
    registers: HashMap<(u8, usize), u32>,
    rx_buffer_base: u64,
    reset_sticks: bool,
    writes: Vec<(u8, usize, u32)>,
}

fn block_code(block: GmacBlock) -> u8 {
    match block {
        GmacBlock::Mac => 0,
        GmacBlock::Dma => 1,
    }
}

impl ModelGmac {
    fn new(rx_buffer_base: u64, reset_sticks: bool) -> Self {
        ModelGmac { registers: HashMap::new(), rx_buffer_base, reset_sticks, writes: Vec::new() }
    }
}

impl GmacHardware for ModelGmac {
    fn ring_address(&self, _ring: Ring) -> u64 {
        unreachable!("specification only")
    }

    fn buffer_address(&self, _ring: Ring, _index: usize) -> u64 {
        unreachable!("specification only")
    }

    fn read32(&mut self, block: GmacBlock, offset: usize) -> u32 {
        *self.registers.get(&(block_code(block), offset)).unwrap_or(&0)
    }

    fn write32(&mut self, block: GmacBlock, offset: usize, value: u32) {
        self.writes.push((block_code(block), offset, value));
        let mut stored = value;
        if block == GmacBlock::Mac && offset == GMAC_GMII_ADDR {
            stored &= !GMII_BUSY;
        }
        if block == GmacBlock::Dma && offset == DMA_BUS_MODE && !self.reset_sticks {
            stored &= !DMA_RESET_ON;
        }
        self.registers.insert((block_code(block), offset), stored);
    }

    fn read_desc(&mut self, _ring: Ring, _index: usize) -> DmaDesc {
        DmaDesc { status: 0, length: 0, buffer1: 0, buffer2: 0 }
    }

    fn write_desc(&mut self, _ring: Ring, _index: usize, _desc: DmaDesc) {}

    fn set_desc_status(&mut self, _ring: Ring, _index: usize, _status: u32) {}

    fn ring_bus_address(&self, ring: Ring) -> u64 {
        match ring {
            Ring::Tx => 0x1000,
            Ring::Rx => 0x2000,
        }
    }

    fn buffer_bus_address(&self, ring: Ring, index: usize) -> u64 {
        match ring {
            Ring::Tx => 0x10_0000 + (index as u64) * 2048,
            Ring::Rx => self.rx_buffer_base + (index as u64) * 2048,
        }
    }

    fn clear_memory(&mut self) {}

    fn fill_tx_buffer(&mut self, _index: usize, _data: &[u8]) {}

    fn copy_rx_buffer(&mut self, _index: usize, _out: &mut [u8], _len: usize) {}

    fn barrier(&mut self) {}
}

fn gmac_window() -> MmioRegion {
    MmioRegion { base: GMAC0_PADDR, size: 0x2000 }
}

#[test]
fn bring_up_programs_station_and_ring_bases() {
    let mac = [0x02, 0x11, 0x22, 0x33, 0x44, 0x55];
    let device = LoongsonGmacDevice::from_mmio(ModelGmac::new(0x20_0000, false), gmac_window(), mac)
        .ok()
        .unwrap();
    assert_eq!(device.mac_address(), mac);
}

#[test]
fn bring_up_refuses_buffers_beyond_32_bits_and_a_stuck_reset() {
    let mac = [0x02, 0x11, 0x22, 0x33, 0x44, 0x55];
    let high = LoongsonGmacDevice::from_mmio(ModelGmac::new(0xFFFF_F000, false), gmac_window(), mac);
    assert_eq!(high.err(), Some(DriverError::Unsupported));
    let stuck = LoongsonGmacDevice::from_mmio(ModelGmac::new(0x20_0000, true), gmac_window(), mac);
    assert_eq!(stuck.err(), Some(DriverError::IoError));
    let elsewhere = MmioRegion { base: GMAC0_PADDR + 0x1_0000, size: 0x2000 };
    let wrong = LoongsonGmacDevice::from_mmio(ModelGmac::new(0x20_0000, false), elsewhere, mac);
    assert_eq!(wrong.err(), Some(DriverError::Unsupported));
}
