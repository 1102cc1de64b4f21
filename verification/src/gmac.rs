//! Loongson 2K1000LA GMAC0 (DesignWare MAC 3.70a) bring-up and descriptor
//! ring handling.
//!
//! Register programming and ring bookkeeping are verified here; the memory
//! that backs the rings and buffers, and the register window itself, are
//! reached through [`GmacHardware`].
use vstd::prelude::*;
use vstd::string::StringExecFns;

use crate::device_tree::{prop, DtNode};
use crate::platform::{DriverError, MmioRegion};

verus! {

/// Physical base of GMAC0, the only instance this driver serves.
pub const GMAC0_PADDR: usize = 0x4004_0000;

pub const MAC_BASE_OFFSET: usize = 0x0000;

pub const DMA_BASE_OFFSET: usize = 0x1000;

/// Window size assumed when the device tree gives none.
pub const DEFAULT_MMIO_SIZE: usize = 0x8000;

pub const DEFAULT_MAC_ADDRESS: [u8; 6] = [0x62, 0x19, 0x1A, 0x02, 0xA8, 0x91];

pub const GMAC_CONFIG: usize = 0x0000;

pub const GMAC_FRAME_FILTER: usize = 0x0004;

pub const GMAC_GMII_ADDR: usize = 0x0010;

pub const GMAC_GMII_DATA: usize = 0x0014;

pub const GMAC_FLOW_CONTROL: usize = 0x0018;

pub const GMAC_VERSION: usize = 0x0020;

pub const GMAC_INTERRUPT_STATUS: usize = 0x0038;

pub const GMAC_INTERRUPT_MASK: usize = 0x003C;

pub const GMAC_ADDR0_HIGH: usize = 0x0040;

pub const GMAC_ADDR0_LOW: usize = 0x0044;

pub const GMAC_RGSMII_STATUS: usize = 0x00D8;

pub const GMAC_MMC_INTR_MASK_RX: usize = 0x010C;

pub const GMAC_MMC_INTR_MASK_TX: usize = 0x0110;

pub const GMAC_MMC_RX_IPC_INTR_MASK: usize = 0x0200;

pub const DMA_BUS_MODE: usize = 0x0000;

pub const DMA_TX_POLL_DEMAND: usize = 0x0004;

pub const DMA_RX_POLL_DEMAND: usize = 0x0008;

pub const DMA_RX_BASE_ADDR: usize = 0x000C;

pub const DMA_TX_BASE_ADDR: usize = 0x0010;

pub const DMA_STATUS: usize = 0x0014;

pub const DMA_CONTROL: usize = 0x0018;

pub const DMA_INTERRUPT: usize = 0x001C;

pub const DMA_AXI_BUS_MODE: usize = 0x0028;

pub const GMII_BUSY: u32 = 0x1;

pub const GMII_CSR_CLK4: u32 = 0x10;

pub const GMII_REG_MASK: u32 = 0x7C0;

pub const GMII_DEV_MASK: u32 = 0xF800;

pub const PHY_ADDR: u32 = 0;

pub const PHY_ID1: u32 = 2;

pub const PHY_ID2: u32 = 3;

pub const MAC_RX: u32 = 0x0000_0004;

pub const MAC_TX: u32 = 0x0000_0008;

pub const MAC_DEFERRAL_CHECK: u32 = 0x0000_0010;

pub const MAC_BACKOFF_LIMIT: u32 = 0x0000_0060;

pub const MAC_PAD_CRC_STRIP: u32 = 0x0000_0080;

pub const MAC_RETRY: u32 = 0x0000_0200;

pub const MAC_DUPLEX: u32 = 0x0000_0800;

pub const MAC_LOOPBACK: u32 = 0x0000_1000;

pub const MAC_RX_OWN: u32 = 0x0000_2000;

pub const MAC_SPEED_100: u32 = 0x0000_4000;

pub const MAC_PORT_SELECT: u32 = 0x0000_8000;

pub const MAC_JUMBO_FRAME: u32 = 0x0010_0000;

pub const MAC_FRAME_BURST: u32 = 0x0020_0000;

pub const MAC_JABBER: u32 = 0x0040_0000;

pub const MAC_WATCHDOG: u32 = 0x0080_0000;

pub const MAC_TX_CONFIG: u32 = 0x0100_0000;

/// Configuration bits cleared when the MAC is initialized.
pub const MAC_CONFIG_CLEARED: u32 = 0x00F0_32F0;

/// Frame-filter bits cleared when the MAC is initialized.
pub const MAC_FILTER_CLEARED: u32 = 0x0000_02FF;

pub const MAC_FILTER: u32 = 0x8000_0000;

pub const MAC_TX_FLOW_CONTROL: u32 = 0x0000_0002;

pub const MAC_RX_FLOW_CONTROL: u32 = 0x0000_0004;

pub const MAC_PAUSE_TIME_MASK: u32 = 0xFFFF_0000;

pub const MAC_LINK_MODE: u32 = 0x0000_0001;

pub const MAC_LINK_SPEED_25: u32 = 0x0000_0002;

pub const MAC_LINK_SPEED_125: u32 = 0x0000_0004;

pub const MAC_LINK_SPEED_MASK: u32 = 0x0000_0006;

pub const MAC_LINK_STATUS: u32 = 0x0000_0008;

pub const DMA_RESET_ON: u32 = 0x0000_0001;

/// Mixed bursts of up to 8 x 32 beats.
pub const DMA_BUS_MODE_VALUE: u32 = 0x0500_2000;

pub const DMA_RX_START: u32 = 0x0000_0002;

pub const DMA_TX_SECOND_FRAME: u32 = 0x0000_0004;

/// Hardware flow-control bits cleared in the DMA control register.
pub const DMA_FLOW_CONTROL_BITS: u32 = 0x00C0_1F00;

pub const DMA_TX_START: u32 = 0x0000_2000;

pub const DMA_STORE_AND_FORWARD: u32 = 0x0220_0000;

pub const DMA_AXI_BUS_MODE_VALUE: u32 = 0x0077_00FF;

pub const DMA_INT_DISABLE: u32 = 0;

pub const DESC_SIZE1_MASK: u32 = 0x0000_1FFF;

pub const RX_DESC_END_OF_RING: u32 = 0x0000_8000;

pub const TX_DESC_END_OF_RING: u32 = 0x0020_0000;

pub const DESC_TX_FIRST: u32 = 0x1000_0000;

pub const DESC_TX_LAST: u32 = 0x2000_0000;

pub const DESC_TX_INT_ENABLE: u32 = 0x4000_0000;

pub const DESC_RX_LAST: u32 = 0x0000_0100;

pub const DESC_RX_FIRST: u32 = 0x0000_0200;

pub const DESC_ERROR: u32 = 0x0000_8000;

pub const DESC_FRAME_LENGTH_MASK: u32 = 0x3FFF_0000;

pub const DESC_OWN_BY_DMA: u32 = 0x8000_0000;

/// Largest bus address the 32-bit descriptors can hold.
pub const HW_DMA_MASK_32: u64 = 0xFFFF_FFFF;

pub const MDIO_TIMEOUT: usize = 100_000;

pub const DMA_RESET_TIMEOUT: usize = 1_000_000;

pub const RING_SIZE: usize = 128;

pub const BUFFER_SIZE: usize = 2048;

/// Decoded RGMII/SGMII status register.
#[derive(Debug, Clone, Copy, PartialEq, Eq, Structural)]
pub struct LinkState {
    pub raw: u32,
    pub up: bool,
    pub speed_mbps: u32,
    pub full_duplex: bool,
}

/// Speed encoded in an RGMII/SGMII status word.
pub open spec fn link_speed(raw: u32) -> u32 {
    if raw & MAC_LINK_SPEED_MASK == MAC_LINK_SPEED_125 {
        1000
    } else if raw & MAC_LINK_SPEED_MASK == MAC_LINK_SPEED_25 {
        100
    } else {
        10
    }
}

impl LinkState {
    pub fn from_rgsmii(raw: u32) -> (link: Self)
        ensures
            link.raw == raw,
            link.up == (raw & MAC_LINK_STATUS != 0),
            link.speed_mbps == link_speed(raw),
            link.full_duplex == (raw & MAC_LINK_MODE != 0),
    {
        let speed = raw & MAC_LINK_SPEED_MASK;
        let speed_mbps = if speed == MAC_LINK_SPEED_125 {
            1000
        } else if speed == MAC_LINK_SPEED_25 {
            100
        } else {
            10
        };
        Self {
            raw,
            up: raw & MAC_LINK_STATUS != 0,
            speed_mbps,
            full_duplex: raw & MAC_LINK_MODE != 0,
        }
    }
}

/// A usable station address: not all zero and not multicast.
pub open spec fn unicast(mac: [u8; 6]) -> bool {
    mac@ != seq![0u8, 0u8, 0u8, 0u8, 0u8, 0u8] && mac[0] & 1 == 0
}

/// The station address a property holds: its first six bytes, when there
/// are six and they form a usable address.
pub open spec fn mac_from(value: Option<Seq<u8>>) -> Option<Seq<u8>> {
    match value {
        Some(bytes) => if bytes.len() >= 6 && bytes.subrange(0, 6) != seq![0u8, 0u8, 0u8, 0u8, 0u8, 0u8]
            && bytes[0] & 1 == 0 {
            Some(bytes.subrange(0, 6))
        } else {
            None
        },
        None => None,
    }
}

/// The station address of a GMAC node: `local-mac-address`, else
/// `mac-address`, else the default address.
pub open spec fn node_mac_address(node: DtNode) -> Seq<u8> {
    match mac_from(prop(node, "local-mac-address"@)) {
        Some(mac) => mac,
        None => match mac_from(prop(node, "mac-address"@)) {
            Some(mac) => mac,
            None => DEFAULT_MAC_ADDRESS@,
        },
    }
}

fn mac_candidate(value: Option<&[u8]>) -> (mac: Option<[u8; 6]>)
    ensures
        match value {
            Some(bytes) => match mac {
                Some(found) => mac_from(Some(bytes@)) == Some(found@),
                None => mac_from(Some(bytes@)) is None,
            },
            None => mac is None,
        },
{
    let bytes = match value {
        Some(bytes) => bytes,
        None => return None,
    };
    if bytes.len() < 6 {
        return None;
    }
    let mac: [u8; 6] = [bytes[0], bytes[1], bytes[2], bytes[3], bytes[4], bytes[5]];
    assert(mac@ =~= bytes@.subrange(0, 6));
    if valid_unicast_mac(mac) {
        Some(mac)
    } else {
        None
    }
}

/// Reads a GMAC node's station address, falling back to the default.
pub fn mac_address_from_node(node: &DtNode) -> (mac: [u8; 6])
    ensures
        mac@ == node_mac_address(*node),
{
    match mac_candidate(node.property("local-mac-address")) {
        Some(mac) => return mac,
        None => {},
    }
    match mac_candidate(node.property("mac-address")) {
        Some(mac) => mac,
        None => DEFAULT_MAC_ADDRESS,
    }
}

pub fn valid_unicast_mac(mac: [u8; 6]) -> (r: bool)
    ensures
        r == unicast(mac),
{
    let zero = mac[0] == 0 && mac[1] == 0 && mac[2] == 0 && mac[3] == 0 && mac[4] == 0 && mac[5]
        == 0;
    proof {
        if !zero {
            assert(mac@ != seq![0u8, 0u8, 0u8, 0u8, 0u8, 0u8]) by {
                if mac@ == seq![0u8, 0u8, 0u8, 0u8, 0u8, 0u8] {
                    assert(mac@[0] == 0 && mac@[1] == 0 && mac@[2] == 0);
                    assert(mac@[3] == 0 && mac@[4] == 0 && mac@[5] == 0);
                }
            }
        } else {
            assert(mac@ =~= seq![0u8, 0u8, 0u8, 0u8, 0u8, 0u8]);
        }
    }
    !zero && mac[0] & 1 == 0
}

/// Device-tree compatible strings of the supported controller.
pub open spec fn supported_compatible(name: Seq<char>) -> bool {
    name == "snps,dwmac-3.70a"@ || name == "snps,arc-dwmac-3.70a"@
}

pub fn is_supported_compatible(compatibles: &[String]) -> (r: bool)
    ensures
        r == exists|i: int| 0 <= i < compatibles@.len() && supported_compatible(#[trigger] compatibles@[i]@),
{
    let dwmac = String::from_str("snps,dwmac-3.70a");
    let arc_dwmac = String::from_str("snps,arc-dwmac-3.70a");
    let mut index: usize = 0;
    while index < compatibles.len()
        invariant
            index <= compatibles@.len(),
            dwmac@ == "snps,dwmac-3.70a"@,
            arc_dwmac@ == "snps,arc-dwmac-3.70a"@,
            forall|i: int| 0 <= i < index ==> !supported_compatible(#[trigger] compatibles@[i]@),
        decreases compatibles@.len() - index,
    {
        if compatibles[index] == dwmac || compatibles[index] == arc_dwmac {
            assert(supported_compatible(compatibles@[index as int]@));
            return true;
        }
        index = index + 1;
    }
    false
}

/// Station address as the ADDR0 high and low register words.
pub open spec fn address_words(mac: [u8; 6]) -> (u32, u32) {
    (
        ((mac[5] as u32) << 8u32) | (mac[4] as u32),
        ((mac[3] as u32) << 24u32) | ((mac[2] as u32) << 16u32) | ((mac[1] as u32) << 8u32) | (
        mac[0] as u32),
    )
}

pub fn mac_address_words(mac: [u8; 6]) -> (words: (u32, u32))
    ensures
        words == address_words(mac),
{
    let high = ((mac[5] as u32) << 8u32) | (mac[4] as u32);
    let low = ((mac[3] as u32) << 24u32) | ((mac[2] as u32) << 16u32) | ((mac[1] as u32) << 8u32)
        | (mac[0] as u32);
    (high, low)
}

/// GMII address word that starts a read of `reg` on `phy`.
pub open spec fn mdio_command(phy: u32, reg: u32) -> u32 {
    ((phy << 11u32) & GMII_DEV_MASK) | ((reg << 6u32) & GMII_REG_MASK) | GMII_CSR_CLK4 | GMII_BUSY
}

/// MAC configuration that matches `link`, keeping unrelated bits of `old`.
pub open spec fn link_config(old: u32, link: LinkState) -> u32 {
    let base = old & !(MAC_PORT_SELECT | MAC_SPEED_100 | MAC_DUPLEX);
    let duplex = if link.full_duplex {
        base | MAC_DUPLEX
    } else {
        base
    };
    if link.speed_mbps == 1000 {
        duplex
    } else if link.speed_mbps == 100 {
        duplex | MAC_PORT_SELECT | MAC_SPEED_100
    } else {
        duplex | MAC_PORT_SELECT
    }
}

/// The RGMII speed field names the speed: 0b10 in bits 1-2 is 1000 Mbit/s,
/// 0b01 is 100 Mbit/s, anything else 10 Mbit/s.
pub proof fn lemma_link_speed_field(raw: u32)
    ensures
        (link_speed(raw) == 1000) <==> (raw >> 1u32) & 3 == 2,
        (link_speed(raw) == 100) <==> (raw >> 1u32) & 3 == 1,
        (link_speed(raw) == 10) <==> ((raw >> 1u32) & 3 == 0 || (raw >> 1u32) & 3 == 3),
{
    assert(((raw & 6u32 == 4u32) <==> (raw >> 1u32) & 3u32 == 2u32) && ((raw & 6u32 == 2u32) <==> (
    raw >> 1u32) & 3u32 == 1u32) && ((raw & 6u32 != 4u32 && raw & 6u32 != 2u32) <==> ((raw
        >> 1u32) & 3u32 == 0u32 || (raw >> 1u32) & 3u32 == 3u32))) by (bit_vector);
}

/// The configuration names the link: the duplex bit is the link's duplex
/// at every speed, port select marks a 10 or 100 Mbit/s link, the speed bit
/// a 100 Mbit/s one, and every other bit of the old value is kept.
pub proof fn lemma_link_config_matches_link(old: u32, link: LinkState)
    ensures
        (link_config(old, link) & MAC_DUPLEX != 0) == link.full_duplex,
        (link_config(old, link) & MAC_PORT_SELECT != 0) == (link.speed_mbps != 1000),
        (link_config(old, link) & MAC_SPEED_100 != 0) == (link.speed_mbps == 100),
        link_config(old, link) & !(MAC_PORT_SELECT | MAC_SPEED_100 | MAC_DUPLEX) == old & !(
        MAC_PORT_SELECT | MAC_SPEED_100 | MAC_DUPLEX),
{
    let config = link_config(old, link);
    let full = link.full_duplex;
    let gigabit = link.speed_mbps == 1000;
    let fast = link.speed_mbps == 100;
    assert(config == {
        let base = old & !(0x8000u32 | 0x4000u32 | 0x800u32);
        let duplex = if full {
            base | 0x800u32
        } else {
            base
        };
        if gigabit {
            duplex
        } else if fast {
            duplex | 0x8000u32 | 0x4000u32
        } else {
            duplex | 0x8000u32
        }
    });
    assert({
        let base = old & !(0x8000u32 | 0x4000u32 | 0x800u32);
        let duplex = if full {
            base | 0x800u32
        } else {
            base
        };
        let c = if gigabit {
            duplex
        } else if fast {
            duplex | 0x8000u32 | 0x4000u32
        } else {
            duplex | 0x8000u32
        };
        &&& (c & 0x800u32 != 0) == full
        &&& (c & 0x8000u32 != 0) == !gigabit
        &&& (c & 0x4000u32 != 0) == (!gigabit && fast)
        &&& c & !(0x8000u32 | 0x4000u32 | 0x800u32) == base
    }) by (bit_vector);
}

pub fn configure_link_value(old: u32, link: LinkState) -> (config: u32)
    ensures
        config == link_config(old, link),
        (config & MAC_DUPLEX != 0) == link.full_duplex,
        (config & MAC_PORT_SELECT != 0) == (link.speed_mbps != 1000),
        (config & MAC_SPEED_100 != 0) == (link.speed_mbps == 100),
        config & !(MAC_PORT_SELECT | MAC_SPEED_100 | MAC_DUPLEX) == old & !(MAC_PORT_SELECT
            | MAC_SPEED_100 | MAC_DUPLEX),
{
    proof {
        lemma_link_config_matches_link(old, link);
    }
    let mut config = old & !(MAC_PORT_SELECT | MAC_SPEED_100 | MAC_DUPLEX);
    if link.full_duplex {
        config = config | MAC_DUPLEX;
    }
    if link.speed_mbps == 1000 {
    } else if link.speed_mbps == 100 {
        config = config | MAC_PORT_SELECT | MAC_SPEED_100;
    } else {
        config = config | MAC_PORT_SELECT;
    }
    config
}

/// One hardware descriptor of a ring.
#[derive(Debug, Clone, Copy, PartialEq, Eq, Structural)]
pub struct DmaDesc {
    pub status: u32,
    pub length: u32,
    pub buffer1: u32,
    pub buffer2: u32,
}

impl DmaDesc {
    pub fn owned_by_dma(self) -> (r: bool)
        ensures
            r == (self.status & DESC_OWN_BY_DMA != 0),
            r == desc_owned(self),
    {
        self.status & DESC_OWN_BY_DMA != 0
    }

    /// A complete, error-free single-descriptor frame.
    pub fn rx_valid(self) -> (r: bool)
        ensures
            r == (self.status & DESC_ERROR == 0 && self.status & DESC_RX_FIRST != 0 && self.status
                & DESC_RX_LAST != 0),
            r == desc_valid(self),
    {
        self.status & DESC_ERROR == 0 && self.status & DESC_RX_FIRST != 0 && self.status
            & DESC_RX_LAST != 0
    }

    pub fn rx_length(self) -> (r: usize)
        ensures
            r == (self.status & DESC_FRAME_LENGTH_MASK) >> 16u32,
            r == desc_frame_length(self),
            r < 0x4000,
    {
        let status = self.status;
        let field = (status & DESC_FRAME_LENGTH_MASK) >> 16u32;
        assert(field < 0x4000) by (bit_vector)
            requires
                field == (status & DESC_FRAME_LENGTH_MASK) >> 16u32,
        ;
        field as usize
    }
}

/// Next slot of a ring.
pub open spec fn next_slot(index: int) -> int {
    (index + 1) % (RING_SIZE as int)
}

pub fn ring_next(index: usize) -> (next: usize)
    requires
        index < usize::MAX,
    ensures
        next == next_slot(index as int),
        next < RING_SIZE,
{
    (index + 1) % RING_SIZE
}

/// Register block of the controller.
#[derive(Debug, Clone, Copy, PartialEq, Eq, Structural)]
pub enum GmacBlock {
    Mac,
    Dma,
}

#[derive(Debug, Clone, Copy, PartialEq, Eq, Structural)]
pub enum Ring {
    Tx,
    Rx,
}

/// The register window, descriptor rings and packet buffers of GMAC0.
pub trait GmacHardware: Sized {
    /// Bus address of the first descriptor of `ring`; fixed when the
    /// descriptor memory was set up.
    spec fn ring_address(&self, ring: Ring) -> u64;

    /// Bus address of packet buffer `index` of `ring`; fixed likewise.
    spec fn buffer_address(&self, ring: Ring, index: usize) -> u64;

    fn read32(&mut self, block: GmacBlock, offset: usize) -> (value: u32)
        ensures
            forall|ring: Ring| #[trigger] final(self).ring_address(ring) == old(self).ring_address(ring),
            forall|ring: Ring, index: usize|
                #[trigger] final(self).buffer_address(ring, index) == old(self).buffer_address(ring, index),
    ;

    fn write32(&mut self, block: GmacBlock, offset: usize, value: u32)
        ensures
            forall|ring: Ring| #[trigger] final(self).ring_address(ring) == old(self).ring_address(ring),
            forall|ring: Ring, index: usize|
                #[trigger] final(self).buffer_address(ring, index) == old(self).buffer_address(ring, index),
    ;

    fn read_desc(&mut self, ring: Ring, index: usize) -> (desc: DmaDesc)
        requires
            index < RING_SIZE,
        ensures
            forall|ring: Ring| #[trigger] final(self).ring_address(ring) == old(self).ring_address(ring),
            forall|ring: Ring, index: usize|
                #[trigger] final(self).buffer_address(ring, index) == old(self).buffer_address(ring, index),
    ;

    fn write_desc(&mut self, ring: Ring, index: usize, desc: DmaDesc)
        requires
            index < RING_SIZE,
        ensures
            forall|ring: Ring| #[trigger] final(self).ring_address(ring) == old(self).ring_address(ring),
            forall|ring: Ring, index: usize|
                #[trigger] final(self).buffer_address(ring, index) == old(self).buffer_address(ring, index),
    ;

    /// Store only the status word, the last step of handing a descriptor over.
    fn set_desc_status(&mut self, ring: Ring, index: usize, status: u32)
        requires
            index < RING_SIZE,
        ensures
            forall|ring: Ring| #[trigger] final(self).ring_address(ring) == old(self).ring_address(ring),
            forall|ring: Ring, index: usize|
                #[trigger] final(self).buffer_address(ring, index) == old(self).buffer_address(ring, index),
    ;

    /// Bus address of the first descriptor of `ring`.
    fn ring_bus_address(&self, ring: Ring) -> (bus: u64)
        ensures
            bus == self.ring_address(ring),
    ;

    /// Bus address of packet buffer `index` of `ring`.
    fn buffer_bus_address(&self, ring: Ring, index: usize) -> (bus: u64)
        requires
            index < RING_SIZE,
        ensures
            bus == self.buffer_address(ring, index),
    ;

    /// Zero both rings and all packet buffers.
    fn clear_memory(&mut self)
        ensures
            forall|ring: Ring| #[trigger] final(self).ring_address(ring) == old(self).ring_address(ring),
            forall|ring: Ring, index: usize|
                #[trigger] final(self).buffer_address(ring, index) == old(self).buffer_address(ring, index),
    ;

    fn fill_tx_buffer(&mut self, index: usize, data: &[u8])
        requires
            index < RING_SIZE,
            data@.len() <= BUFFER_SIZE,
        ensures
            forall|ring: Ring| #[trigger] final(self).ring_address(ring) == old(self).ring_address(ring),
            forall|ring: Ring, index: usize|
                #[trigger] final(self).buffer_address(ring, index) == old(self).buffer_address(ring, index),
    ;

    fn copy_rx_buffer(&mut self, index: usize, out: &mut [u8], len: usize)
        requires
            index < RING_SIZE,
            len <= BUFFER_SIZE,
            len <= old(out)@.len(),
        ensures
            final(out)@.len() == old(out)@.len(),
            forall|ring: Ring| #[trigger] final(self).ring_address(ring) == old(self).ring_address(ring),
            forall|ring: Ring, index: usize|
                #[trigger] final(self).buffer_address(ring, index) == old(self).buffer_address(ring, index),
    ;

    /// Make earlier descriptor and buffer stores visible to the device.
    fn barrier(&mut self)
        ensures
            forall|ring: Ring| #[trigger] final(self).ring_address(ring) == old(self).ring_address(ring),
            forall|ring: Ring, index: usize|
                #[trigger] final(self).buffer_address(ring, index) == old(self).buffer_address(ring, index),
    ;
}

/// The descriptor and buffer bus addresses are the same in both.
pub open spec fn addresses_kept<H: GmacHardware>(before: H, after: H) -> bool {
    &&& forall|ring: Ring|
        #![trigger after.ring_address(ring)]
        #![trigger before.ring_address(ring)]
        after.ring_address(ring) == before.ring_address(ring)
    &&& forall|ring: Ring, index: usize|
        #![trigger after.buffer_address(ring, index)]
        #![trigger before.buffer_address(ring, index)]
        after.buffer_address(ring, index) == before.buffer_address(ring, index)
}

/// Every ring and packet buffer address fits the 32-bit descriptors.
pub open spec fn addresses_fit<H: GmacHardware>(hw: H) -> bool {
    &&& hw.ring_address(Ring::Tx) <= HW_DMA_MASK_32
    &&& hw.ring_address(Ring::Rx) <= HW_DMA_MASK_32
    &&& hw.buffer_address(Ring::Tx, (RING_SIZE - 1) as usize) <= HW_DMA_MASK_32
    &&& forall|index: usize|
        index < RING_SIZE ==> #[trigger] hw.buffer_address(Ring::Rx, index) <= HW_DMA_MASK_32
}

/// Bus address usable by the 32-bit descriptors.
pub fn dma_addr32(bus_address: u64) -> (result: Result<u32, DriverError>)
    ensures
        match result {
            Ok(address) => bus_address <= HW_DMA_MASK_32 && address == bus_address,
            Err(error) => bus_address > HW_DMA_MASK_32 && error == DriverError::Unsupported,
        },
{
    if bus_address > HW_DMA_MASK_32 {
        Err(DriverError::Unsupported)
    } else {
        Ok(bus_address as u32)
    }
}

/// Status word of a transmit descriptor in slot `index`.
pub open spec fn tx_status(index: int) -> u32 {
    DESC_OWN_BY_DMA | DESC_TX_INT_ENABLE | DESC_TX_LAST | DESC_TX_FIRST | if index == RING_SIZE
        - 1 {
        TX_DESC_END_OF_RING
    } else {
        0
    }
}

/// Length word of a receive descriptor in slot `index`.
pub open spec fn rx_length_word(index: int) -> u32 {
    (BUFFER_SIZE as u32 & DESC_SIZE1_MASK) | if index == RING_SIZE - 1 {
        RX_DESC_END_OF_RING
    } else {
        0
    }
}

/// Status word of transmit slot `index` once its frame is handed to the device.
pub fn tx_ready_status(index: usize) -> (status: u32)
    ensures
        status == tx_status(index as int),
{
    DESC_OWN_BY_DMA | DESC_TX_INT_ENABLE | DESC_TX_LAST | DESC_TX_FIRST | if index == RING_SIZE
        - 1 {
        TX_DESC_END_OF_RING
    } else {
        0
    }
}

/// Descriptor of an idle transmit slot `index`: no buffer, no length, and
/// the end-of-ring mark on the last slot.
pub fn tx_idle_descriptor(index: usize) -> (desc: DmaDesc)
    ensures
        desc == (DmaDesc {
            status: if index == RING_SIZE - 1 {
                TX_DESC_END_OF_RING
            } else {
                0
            },
            length: 0,
            buffer1: 0,
            buffer2: 0,
        }),
{
    let status = if index == RING_SIZE - 1 {
        TX_DESC_END_OF_RING
    } else {
        0
    };
    DmaDesc { status, length: 0, buffer1: 0, buffer2: 0 }
}

/// Descriptor of receive slot `index` over the buffer at bus address `bus`.
pub fn rx_descriptor(index: usize, bus: u32, status: u32) -> (desc: DmaDesc)
    ensures
        desc == (DmaDesc { status, length: rx_length_word(index as int), buffer1: bus, buffer2: 0 }),
{
    let length = (BUFFER_SIZE as u32 & DESC_SIZE1_MASK) | if index == RING_SIZE - 1 {
        RX_DESC_END_OF_RING
    } else {
        0
    };
    DmaDesc { status, length, buffer1: bus, buffer2: 0 }
}

fn wait_mdio_idle<H: GmacHardware>(hw: &mut H) -> bool {
    let mut poll: usize = 0;
    while poll < MDIO_TIMEOUT
        decreases MDIO_TIMEOUT - poll,
    {
        if hw.read32(GmacBlock::Mac, GMAC_GMII_ADDR) & GMII_BUSY == 0 {
            return true;
        }
        poll = poll + 1;
    }
    false
}

fn mdio_read<H: GmacHardware>(hw: &mut H, phy: u32, reg: u32) -> (value: Option<u16>) {
    if !wait_mdio_idle(hw) {
        return None;
    }
    let address = ((phy << 11u32) & GMII_DEV_MASK) | ((reg << 6u32) & GMII_REG_MASK)
        | GMII_CSR_CLK4 | GMII_BUSY;
    hw.write32(GmacBlock::Mac, GMAC_GMII_ADDR, address);
    if wait_mdio_idle(hw) {
        Some((hw.read32(GmacBlock::Mac, GMAC_GMII_DATA) & 0xFFFF) as u16)
    } else {
        None
    }
}

/// PHY identifier whose upper half is the ID1 register and lower half ID2.
pub fn phy_identifier(high: u16, low: u16) -> (id: u32)
    ensures
        id == high as int * 0x10000 + low as int,
{
    let id: u32 = ((high as u32) << 16u32) | (low as u32);
    assert(((high as u32) << 16u32) | (low as u32) == (high as u32) * 0x10000u32 + (low as u32))
        by (bit_vector);
    id
}

/// Identifier of PHY 0 from its two ID registers.
pub fn phy_id<H: GmacHardware>(hw: &mut H) -> Option<u32> {
    let high = match mdio_read(hw, PHY_ADDR, PHY_ID1) {
        Some(value) => value,
        None => return None,
    };
    let low = match mdio_read(hw, PHY_ADDR, PHY_ID2) {
        Some(value) => value,
        None => return None,
    };
    Some(phy_identifier(high, low))
}

/// The current link as reported by the MAC.
pub fn read_link_state<H: GmacHardware>(hw: &mut H) -> (link: LinkState)
    ensures
        link == (LinkState {
            raw: link.raw,
            up: link.raw & MAC_LINK_STATUS != 0,
            speed_mbps: link_speed(link.raw),
            full_duplex: link.raw & MAC_LINK_MODE != 0,
        }),
{
    let raw = hw.read32(GmacBlock::Mac, GMAC_RGSMII_STATUS);
    LinkState::from_rgsmii(raw)
}

/// Why bring-up refuses a window before touching it.
pub open spec fn window_supported(mmio: MmioRegion) -> bool {
    mmio.base == GMAC0_PADDR && mmio.size >= DMA_BASE_OFFSET + 0x100
}

/// One hardware operation the driver performed after bring-up, with what it
/// returned.
#[derive(Debug, Clone, Copy, PartialEq, Eq)]
pub enum GmacOp {
    Read(GmacBlock, usize, u32),
    RingAddress(Ring, u64),
    ClearMemory,
    ReadDesc(Ring, usize, DmaDesc),
    WriteDesc(Ring, usize, DmaDesc),
    SetStatus(Ring, usize, u32),
    BufferAddress(Ring, usize, u64),
    FillTx(usize, usize),
    CopyRx(usize, usize),
    Write(GmacBlock, usize, u32),
    Barrier,
}

/// The descriptor is owned by the device.
pub open spec fn desc_owned(desc: DmaDesc) -> bool {
    desc.status & DESC_OWN_BY_DMA != 0
}

/// The descriptor holds a complete, error-free single-descriptor frame.
pub open spec fn desc_valid(desc: DmaDesc) -> bool {
    desc.status & DESC_ERROR == 0 && desc.status & DESC_RX_FIRST != 0 && desc.status
        & DESC_RX_LAST != 0
}

/// Frame length a receive descriptor reports.
pub open spec fn desc_frame_length(desc: DmaDesc) -> u32 {
    (desc.status & DESC_FRAME_LENGTH_MASK) >> 16u32
}

/// Operations that give receive slot `index` back to the device with the
/// buffer at bus address `bus`: the descriptor without ownership, a
/// barrier, the ownership bit, a barrier.
pub open spec fn rearm_ops(index: usize, bus: u64) -> Seq<GmacOp> {
    seq![
        GmacOp::BufferAddress(Ring::Rx, index, bus),
        GmacOp::WriteDesc(
            Ring::Rx,
            index,
            DmaDesc { status: 0, length: rx_length_word(index as int), buffer1: bus as u32, buffer2: 0 },
        ),
        GmacOp::Barrier,
        GmacOp::SetStatus(Ring::Rx, index, DESC_OWN_BY_DMA),
        GmacOp::Barrier,
    ]
}

/// Operations of a rearm of slot `index` with buffer bus address `bus`: a buffer
/// address that 32-bit descriptors cannot hold stops it.
pub open spec fn rearm_outcome(index: usize, bus: u64) -> Seq<GmacOp> {
    if bus <= HW_DMA_MASK_32 {
        rearm_ops(index, bus)
    } else {
        seq![GmacOp::BufferAddress(Ring::Rx, index, bus)]
    }
}

/// Operations that queue a frame of `len` bytes in transmit slot `index`
/// over the buffer at bus address `bus`: fill the buffer, write the
/// descriptor without ownership, then hand it over and demand a poll.
pub open spec fn transmit_ops(index: usize, len: usize, bus: u64) -> Seq<GmacOp> {
    seq![
        GmacOp::FillTx(index, len),
        GmacOp::Barrier,
        GmacOp::WriteDesc(
            Ring::Tx,
            index,
            DmaDesc {
                status: tx_status(index as int) & !DESC_OWN_BY_DMA,
                length: len as u32 & DESC_SIZE1_MASK,
                buffer1: bus as u32,
                buffer2: 0,
            },
        ),
        GmacOp::Barrier,
        GmacOp::SetStatus(Ring::Tx, index, tx_status(index as int)),
        GmacOp::Barrier,
        GmacOp::Write(GmacBlock::Dma, DMA_TX_POLL_DEMAND, 0),
    ]
}

/// `after` continues the operation history `before`.
pub open spec fn ops_extend(before: Seq<GmacOp>, after: Seq<GmacOp>) -> bool {
    before.len() <= after.len() && after.take(before.len() as int) == before
}

/// A history continuing one that continues `before` continues `before`.
pub proof fn lemma_ops_extend_trans(before: Seq<GmacOp>, middle: Seq<GmacOp>, after: Seq<GmacOp>)
    requires
        ops_extend(before, middle),
        ops_extend(middle, after),
    ensures
        ops_extend(before, after),
{
    assert(after.take(before.len() as int) =~= middle.take(before.len() as int));
}

/// An operation of an MDIO transfer: a read of the GMII address or data
/// register, or a write of the GMII address register.
pub open spec fn mdio_op(op: GmacOp) -> bool {
    match op {
        GmacOp::Read(block, offset, _) => block == GmacBlock::Mac && (offset == GMAC_GMII_ADDR
            || offset == GMAC_GMII_DATA),
        GmacOp::Write(block, offset, _) => block == GmacBlock::Mac && offset == GMAC_GMII_ADDR,
        _ => false,
    }
}

/// `after` continues `before` with MDIO operations only.
pub open spec fn mdio_extends(before: Seq<GmacOp>, after: Seq<GmacOp>) -> bool {
    &&& before.len() <= after.len()
    &&& after.subrange(0, before.len() as int) == before
    &&& forall|i: int| before.len() <= i < after.len() ==> mdio_op(#[trigger] after[i])
}

proof fn lemma_mdio_extends_trans(a: Seq<GmacOp>, b: Seq<GmacOp>, c: Seq<GmacOp>)
    requires
        mdio_extends(a, b),
        mdio_extends(b, c),
    ensures
        mdio_extends(a, c),
{
    assert(c.subrange(0, a.len() as int) =~= b.subrange(0, a.len() as int)) by {
        assert(c.subrange(0, b.len() as int) == b);
        assert forall|i: int| 0 <= i < a.len() implies c[i] == b[i] by {
            assert(c.subrange(0, b.len() as int)[i] == c[i]);
        }
    }
    assert forall|i: int| a.len() <= i < c.len() implies mdio_op(#[trigger] c[i]) by {
        if i < b.len() {
            assert(c.subrange(0, b.len() as int)[i] == c[i]);
        }
    }
}

proof fn lemma_mdio_extends_push(b: Seq<GmacOp>, op: GmacOp)
    requires
        mdio_op(op),
    ensures
        mdio_extends(b, b.push(op)),
{
    assert(b.push(op).subrange(0, b.len() as int) =~= b);
}

/// Every operation of `ops` belongs to an MDIO transfer.
pub open spec fn mdio_ops(ops: Seq<GmacOp>) -> bool {
    forall|i: int| 0 <= i < ops.len() ==> mdio_op(#[trigger] ops[i])
}

/// Descriptor of an idle transmit slot `index`.
pub open spec fn tx_idle_desc(index: int) -> DmaDesc {
    DmaDesc {
        status: if index == RING_SIZE - 1 {
            TX_DESC_END_OF_RING
        } else {
            0
        },
        length: 0,
        buffer1: 0,
        buffer2: 0,
    }
}

/// Writes of the idle descriptors of the first `count` transmit slots.
pub open spec fn tx_ring_ops(count: nat) -> Seq<GmacOp> {
    Seq::new(count, |i: int| GmacOp::WriteDesc(Ring::Tx, i as usize, tx_idle_desc(i)))
}

/// For each of the first `buses.len()` receive slots: the buffer's bus
/// address, then a device-owned descriptor over it.
pub open spec fn rx_ring_ops(buses: Seq<u64>) -> Seq<GmacOp>
    decreases buses.len(),
{
    if buses.len() == 0 {
        Seq::empty()
    } else {
        let index = buses.len() - 1;
        rx_ring_ops(buses.drop_last()) + seq![
            GmacOp::BufferAddress(Ring::Rx, index as usize, buses.last()),
            GmacOp::WriteDesc(
                Ring::Rx,
                index as usize,
                DmaDesc {
                    status: DESC_OWN_BY_DMA,
                    length: rx_length_word(index),
                    buffer1: buses.last() as u32,
                    buffer2: 0,
                },
            ),
        ]
    }
}

/// Reads of the DMA bus mode register that returned `values`.
pub open spec fn reset_poll_ops(values: Seq<u32>) -> Seq<GmacOp> {
    Seq::new(values.len(), |i: int| GmacOp::Read(GmacBlock::Dma, DMA_BUS_MODE, values[i]))
}

/// A DMA reset wait that succeeded: at most the timeout of polls, each but
/// the last still showing the reset bit.
pub open spec fn reset_completed(values: Seq<u32>) -> bool {
    &&& 1 <= values.len() <= DMA_RESET_TIMEOUT
    &&& values.last() & DMA_RESET_ON == 0
    &&& forall|i: int| 0 <= i < values.len() - 1 ==> #[trigger] values[i] & DMA_RESET_ON != 0
}

/// The receive buffer addresses of `hw`, slot by slot.
pub open spec fn rx_buffer_addresses<H: GmacHardware>(hw: H) -> Seq<u64> {
    Seq::new(RING_SIZE as nat, |i: int| hw.buffer_address(Ring::Rx, i as usize))
}

/// Bring-up up to the DMA reset: version read, PHY probe `phy`, the address
/// checks, zeroed memory, both rings, a barrier, both directions stopped
/// from `control` and `config`, interrupts disabled, the reset and its
/// polls `polls`.
pub open spec fn bring_up_ops<H: GmacHardware>(
    hw: H,
    version: u32,
    phy: Seq<GmacOp>,
    control: u32,
    config: u32,
    polls: Seq<u32>,
) -> Seq<GmacOp> {
    seq![GmacOp::Read(GmacBlock::Mac, GMAC_VERSION, version)] + phy + seq![
        GmacOp::RingAddress(Ring::Tx, hw.ring_address(Ring::Tx)),
        GmacOp::RingAddress(Ring::Rx, hw.ring_address(Ring::Rx)),
        GmacOp::BufferAddress(
            Ring::Tx,
            (RING_SIZE - 1) as usize,
            hw.buffer_address(Ring::Tx, (RING_SIZE - 1) as usize),
        ),
        GmacOp::BufferAddress(
            Ring::Rx,
            (RING_SIZE - 1) as usize,
            hw.buffer_address(Ring::Rx, (RING_SIZE - 1) as usize),
        ),
        GmacOp::ClearMemory,
    ] + tx_ring_ops(RING_SIZE as nat) + rx_ring_ops(rx_buffer_addresses(hw)) + seq![
        GmacOp::Barrier,
        GmacOp::Read(GmacBlock::Dma, DMA_CONTROL, control),
        GmacOp::Write(GmacBlock::Dma, DMA_CONTROL, control & !(DMA_RX_START | DMA_TX_START)),
        GmacOp::Read(GmacBlock::Mac, GMAC_CONFIG, config),
        GmacOp::Write(GmacBlock::Mac, GMAC_CONFIG, config & !(MAC_RX | MAC_TX)),
        GmacOp::Barrier,
        GmacOp::Write(GmacBlock::Dma, DMA_INTERRUPT, DMA_INT_DISABLE),
        GmacOp::Write(GmacBlock::Dma, DMA_BUS_MODE, DMA_RESET_ON),
    ] + reset_poll_ops(polls)
}

/// The operations that program the station address and the DMA engine at
/// bring-up: address high and low words, bus mode, operation mode, AXI bus
/// mode, then the transmit and receive ring bases.
pub open spec fn station_and_dma_ops(mac: [u8; 6], tx_base: u32, rx_base: u32) -> Seq<GmacOp> {
    seq![
        GmacOp::Write(GmacBlock::Mac, GMAC_ADDR0_HIGH, address_words(mac).0),
        GmacOp::Write(GmacBlock::Mac, GMAC_ADDR0_LOW, address_words(mac).1),
        GmacOp::Write(GmacBlock::Dma, DMA_BUS_MODE, DMA_BUS_MODE_VALUE),
        GmacOp::Write(GmacBlock::Dma, DMA_CONTROL, DMA_STORE_AND_FORWARD | DMA_TX_SECOND_FRAME),
        GmacOp::Write(GmacBlock::Dma, DMA_AXI_BUS_MODE, DMA_AXI_BUS_MODE_VALUE),
        GmacOp::Write(GmacBlock::Dma, DMA_TX_BASE_ADDR, tx_base),
        GmacOp::Write(GmacBlock::Dma, DMA_RX_BASE_ADDR, rx_base),
    ]
}

/// A send of a `len`-byte frame in transmit slot `index`, whose history was
/// `before` plus the reclaim operations `reclaimed`, read descriptor `desc`
/// and, if it was free, buffer bus address `bus`, and ended in `result`
/// with history `after`.
pub open spec fn send_outcome(
    before: Seq<GmacOp>,
    after: Seq<GmacOp>,
    index: usize,
    len: usize,
    result: Result<(), DriverError>,
    reclaimed: Seq<GmacOp>,
    desc: DmaDesc,
    bus: u64,
) -> bool {
    let seen = before + reclaimed + seq![GmacOp::ReadDesc(Ring::Tx, index, desc)];
    if desc_owned(desc) || desc.length != 0 {
        result == Err::<(), DriverError>(DriverError::IoError) && after == seen
    } else if bus > HW_DMA_MASK_32 {
        result == Err::<(), DriverError>(DriverError::Unsupported) && after == seen.push(
            GmacOp::BufferAddress(Ring::Tx, index, bus),
        )
    } else {
        result is Ok && after == seen.push(GmacOp::BufferAddress(Ring::Tx, index, bus))
            + transmit_ops(index, len, bus)
    }
}

/// A receive in slot `index` into a `capacity`-byte buffer, on history
/// `before`, that read descriptor `desc` and, when it rearmed the slot,
/// buffer bus address `bus`, and ended in `result` with history `after`.
pub open spec fn receive_outcome(
    before: Seq<GmacOp>,
    after: Seq<GmacOp>,
    index: usize,
    capacity: usize,
    result: Result<usize, DriverError>,
    desc: DmaDesc,
    bus: u64,
) -> bool {
    let seen = before.push(GmacOp::ReadDesc(Ring::Rx, index, desc));
    let len = desc_frame_length(desc) as usize;
    let rearmed = bus <= HW_DMA_MASK_32;
    if desc_owned(desc) {
        result == Ok::<usize, DriverError>(0) && after == seen
    } else if !desc_valid(desc) {
        after == seen.push(GmacOp::Barrier) + rearm_outcome(index, bus) && result == if rearmed {
            Ok::<usize, DriverError>(0)
        } else {
            Err(DriverError::Unsupported)
        }
    } else if len > capacity || len > BUFFER_SIZE {
        after == seen.push(GmacOp::Barrier) + rearm_outcome(index, bus) && result == if rearmed {
            Err::<usize, DriverError>(DriverError::InvalidParam)
        } else {
            Err(DriverError::Unsupported)
        }
    } else {
        after == seen.push(GmacOp::Barrier).push(GmacOp::CopyRx(index, len)) + rearm_outcome(index, bus) && result == if rearmed {
            Ok::<usize, DriverError>(len)
        } else {
            Err(DriverError::Unsupported)
        }
    }
}

/// GMAC0 with its descriptor rings; slot indices stay inside the rings.
pub struct LoongsonGmacDevice<H> {
    hw: H,
    mac_address: [u8; 6],
    tx_next: usize,
    tx_busy: usize,
    rx_next: usize,
    history: Ghost<Seq<GmacOp>>,
}

impl<H> LoongsonGmacDevice<H> {
    pub closed spec fn wf(self) -> bool {
        &&& self.tx_next < RING_SIZE
        &&& self.tx_busy < RING_SIZE
        &&& self.rx_next < RING_SIZE
    }

    /// Station address programmed at bring-up.
    pub closed spec fn station(self) -> [u8; 6] {
        self.mac_address
    }

    /// Next transmit slot.
    pub closed spec fn tx_slot(self) -> usize {
        self.tx_next
    }

    /// Next receive slot.
    pub closed spec fn rx_slot(self) -> usize {
        self.rx_next
    }

    /// The hardware operations made since bring-up began, oldest first.
    pub closed spec fn operations(self) -> Seq<GmacOp> {
        self.history@
    }

    /// The driver's own state is the same in both.
    pub closed spec fn same_driver_state(self, other: Self) -> bool {
        &&& self.tx_next == other.tx_next
        &&& self.tx_busy == other.tx_busy
        &&& self.rx_next == other.rx_next
        &&& self.mac_address == other.mac_address
    }

    pub fn mac_address(&self) -> (mac: [u8; 6])
        ensures
            mac == self.station(),
    {
        self.mac_address
    }
}

impl<H: GmacHardware> LoongsonGmacDevice<H> {
    /// Bring GMAC0 up: check the window, lay out both rings, reset the DMA
    /// engine, program the station address, MAC and DMA, match the current
    /// link and start both directions.
    pub fn from_mmio(hw: H, mmio: MmioRegion, mac_address: [u8; 6]) -> (result: Result<
        Self,
        DriverError,
    >)
        ensures
            (result matches Err(error) && error == DriverError::Unsupported) <==> (!window_supported(
                mmio,
            ) || !addresses_fit(hw)),
            result matches Err(error) ==> error == DriverError::Unsupported || error
                == DriverError::IoError,
            result matches Ok(device) ==> device.wf() && device.station() == mac_address
                && device.tx_slot() == 0 && device.rx_slot() == 0 && device.operations().last()
                == GmacOp::Write(GmacBlock::Dma, DMA_RX_POLL_DEMAND, 0) && (exists|
                version: u32,
                phy: Seq<GmacOp>,
                control: u32,
                config: u32,
                polls: Seq<u32>,
            |
                mdio_ops(phy) && reset_completed(polls) && #[trigger] ops_extend(
                    bring_up_ops(hw, version, phy, control, config, polls) + station_and_dma_ops(
                        mac_address,
                        hw.ring_address(Ring::Tx) as u32,
                        hw.ring_address(Ring::Rx) as u32,
                    ),
                    device.operations(),
                )),
    {
        if mmio.base != GMAC0_PADDR || mmio.size < DMA_BASE_OFFSET + 0x100 {
            return Err(DriverError::Unsupported);
        }
        let ghost hw0 = hw;
        let mut device = Self {
            hw,
            mac_address,
            tx_next: 0,
            tx_busy: 0,
            rx_next: 0,
            history: Ghost(Seq::empty()),
        };
        let version = device.record_read32(GmacBlock::Mac, GMAC_VERSION);
        let phy = device.probe_phy();
        let ghost checks = device.history@;
        let tx_ring = device.record_ring_address(Ring::Tx);
        let tx_base = match dma_addr32(tx_ring) {
            Ok(address) => address,
            Err(error) => return Err(error),
        };
        let rx_ring = device.record_ring_address(Ring::Rx);
        let rx_base = match dma_addr32(rx_ring) {
            Ok(address) => address,
            Err(error) => return Err(error),
        };
        let tx_last = device.record_buffer_address(Ring::Tx, RING_SIZE - 1);
        if let Err(error) = dma_addr32(tx_last) {
            return Err(error);
        }
        let rx_last = device.record_buffer_address(Ring::Rx, RING_SIZE - 1);
        if let Err(error) = dma_addr32(rx_last) {
            proof {
                assert(rx_last == hw0.buffer_address(Ring::Rx, (RING_SIZE - 1) as usize));
            }
            return Err(error);
        }
        device.record_clear_memory();
        proof {
            assert(tx_ring == hw0.ring_address(Ring::Tx));
            assert(rx_ring == hw0.ring_address(Ring::Rx));
            assert(tx_last == hw0.buffer_address(Ring::Tx, (RING_SIZE - 1) as usize));
            assert(rx_last == hw0.buffer_address(Ring::Rx, (RING_SIZE - 1) as usize));
            assert(device.history@ =~= seq![GmacOp::Read(GmacBlock::Mac, GMAC_VERSION, version)]
                + phy@ + seq![
                GmacOp::RingAddress(Ring::Tx, hw0.ring_address(Ring::Tx)),
                GmacOp::RingAddress(Ring::Rx, hw0.ring_address(Ring::Rx)),
                GmacOp::BufferAddress(
                    Ring::Tx,
                    (RING_SIZE - 1) as usize,
                    hw0.buffer_address(Ring::Tx, (RING_SIZE - 1) as usize),
                ),
                GmacOp::BufferAddress(
                    Ring::Rx,
                    (RING_SIZE - 1) as usize,
                    hw0.buffer_address(Ring::Rx, (RING_SIZE - 1) as usize),
                ),
                GmacOp::ClearMemory,
            ]);
        }
        let ghost rings = device.history@;
        device.write_tx_ring();
        let ghost rx_hw = device.hw;
        if let Err(error) = device.write_rx_ring() {
            return Err(error);
        }
        proof {
            assert(rx_buffer_addresses(rx_hw) =~= rx_buffer_addresses(hw0));
        }
        let ghost rx_end = device.history@;
        assert(rx_end =~= rings + tx_ring_ops(RING_SIZE as nat) + rx_ring_ops(rx_buffer_addresses(hw0)));
        device.record_barrier();
        let control = device.record_read32(GmacBlock::Dma, DMA_CONTROL);
        device.record_write32(GmacBlock::Dma, DMA_CONTROL, control & !(DMA_RX_START | DMA_TX_START));
        let config = device.record_read32(GmacBlock::Mac, GMAC_CONFIG);
        device.record_write32(GmacBlock::Mac, GMAC_CONFIG, config & !(MAC_RX | MAC_TX));
        device.record_barrier();
        device.record_write32(GmacBlock::Dma, DMA_INTERRUPT, DMA_INT_DISABLE);
        device.record_write32(GmacBlock::Dma, DMA_BUS_MODE, DMA_RESET_ON);
        let ghost polls_start = device.history@;
        let (reset, polls) = device.wait_dma_reset();
        if reset.is_err() {
            proof {
                assert(addresses_fit(hw0));
            }
            return Err(DriverError::IoError);
        }
        proof {
            assert(device.history@ =~= rx_end + seq![
                GmacOp::Barrier,
                GmacOp::Read(GmacBlock::Dma, DMA_CONTROL, control),
                GmacOp::Write(GmacBlock::Dma, DMA_CONTROL, control & !(DMA_RX_START | DMA_TX_START)),
                GmacOp::Read(GmacBlock::Mac, GMAC_CONFIG, config),
                GmacOp::Write(GmacBlock::Mac, GMAC_CONFIG, config & !(MAC_RX | MAC_TX)),
                GmacOp::Barrier,
                GmacOp::Write(GmacBlock::Dma, DMA_INTERRUPT, DMA_INT_DISABLE),
                GmacOp::Write(GmacBlock::Dma, DMA_BUS_MODE, DMA_RESET_ON),
            ] + reset_poll_ops(polls@));
            assert(device.history@ =~= bring_up_ops(hw0, version, phy@, control, config, polls@));
        }
        let ghost prefix = device.history@;
        device.finish_bring_up(tx_base, rx_base);
        proof {
            assert(prefix + station_and_dma_ops(mac_address, tx_base, rx_base) =~= bring_up_ops(
                hw0,
                version,
                phy@,
                control,
                config,
                polls@,
            ) + station_and_dma_ops(
                mac_address,
                hw0.ring_address(Ring::Tx) as u32,
                hw0.ring_address(Ring::Rx) as u32,
            ));
        }
        Ok(device)
    }

    /// Probe the PHY identifier as bring-up does, discarding it.
    fn probe_phy(&mut self) -> (phy: Ghost<Seq<GmacOp>>)
        ensures
            addresses_kept(old(self).hw, final(self).hw),
            final(self).same_driver_state(*old(self)),
            final(self).operations() == old(self).operations() + phy@,
            mdio_ops(phy@),
    {
        let ghost start = self.history@;
        assert(start.subrange(0, start.len() as int) =~= start);
        let high = self.recorded_mdio_read(PHY_ADDR, PHY_ID1);
        if high.is_some() {
            let ghost mid = self.history@;
            let _ = self.recorded_mdio_read(PHY_ADDR, PHY_ID2);
            proof {
                lemma_mdio_extends_trans(start, mid, self.history@);
            }
        }
        let ghost phy = self.history@.subrange(start.len() as int, self.history@.len() as int);
        assert(self.history@ =~= start + phy) by {
            assert(self.history@.subrange(0, start.len() as int) == start);
            assert forall|i: int| 0 <= i < start.len() implies self.history@[i] == start[i] by {
                assert(self.history@.subrange(0, start.len() as int)[i] == self.history@[i]);
            }
        }
        assert forall|i: int| 0 <= i < phy.len() implies mdio_op(#[trigger] phy[i]) by {
            assert(phy[i] == self.history@[start.len() + i]);
        }
        Ghost(phy)
    }

    /// One MDIO register read of PHY `phy`, recorded.
    fn recorded_mdio_read(&mut self, phy: u32, reg: u32) -> (value: Option<u16>)
        ensures
            addresses_kept(old(self).hw, final(self).hw),
            final(self).same_driver_state(*old(self)),
            mdio_extends(old(self).operations(), final(self).operations()),
    {
        let ghost start = self.history@;
        if !self.recorded_wait_mdio_idle() {
            return None;
        }
        let ghost mid = self.history@;
        let address = ((phy << 11u32) & GMII_DEV_MASK) | ((reg << 6u32) & GMII_REG_MASK)
            | GMII_CSR_CLK4 | GMII_BUSY;
        self.record_write32(GmacBlock::Mac, GMAC_GMII_ADDR, address);
        proof {
            lemma_mdio_extends_push(mid, GmacOp::Write(GmacBlock::Mac, GMAC_GMII_ADDR, address));
            lemma_mdio_extends_trans(start, mid, self.history@);
        }
        let ghost mid1 = self.history@;
        if self.recorded_wait_mdio_idle() {
            let ghost mid2 = self.history@;
            let value = self.record_read32(GmacBlock::Mac, GMAC_GMII_DATA);
            proof {
                lemma_mdio_extends_trans(start, mid1, mid2);
                lemma_mdio_extends_push(mid2, GmacOp::Read(GmacBlock::Mac, GMAC_GMII_DATA, value));
                lemma_mdio_extends_trans(start, mid2, self.history@);
            }
            Some((value & 0xFFFF) as u16)
        } else {
            proof {
                lemma_mdio_extends_trans(start, mid1, self.history@);
            }
            None
        }
    }

    /// Poll the GMII busy bit until it clears or the timeout passes, recorded.
    fn recorded_wait_mdio_idle(&mut self) -> (idle: bool)
        ensures
            addresses_kept(old(self).hw, final(self).hw),
            final(self).same_driver_state(*old(self)),
            mdio_extends(old(self).operations(), final(self).operations()),
    {
        let ghost start = *self;
        let mut poll: usize = 0;
        assert(self.history@.subrange(0, start.history@.len() as int) =~= start.history@);
        while poll < MDIO_TIMEOUT
            invariant
                start == *old(self),
                addresses_kept(start.hw, self.hw),
                self.same_driver_state(start),
                mdio_extends(start.history@, self.history@),
            decreases MDIO_TIMEOUT - poll,
        {
            let ghost prev = self.history@;
            let value = self.record_read32(GmacBlock::Mac, GMAC_GMII_ADDR);
            proof {
                lemma_mdio_extends_push(prev, GmacOp::Read(GmacBlock::Mac, GMAC_GMII_ADDR, value));
                lemma_mdio_extends_trans(start.history@, prev, self.history@);
            }
            if value & GMII_BUSY == 0 {
                return true;
            }
            poll = poll + 1;
        }
        false
    }

    /// Write the idle descriptor of every transmit slot.
    fn write_tx_ring(&mut self)
        ensures
            addresses_kept(old(self).hw, final(self).hw),
            final(self).same_driver_state(*old(self)),
            final(self).operations() == old(self).operations() + tx_ring_ops(RING_SIZE as nat),
    {
        let ghost start = *self;
        let mut index: usize = 0;
        while index < RING_SIZE
            invariant
                start == *old(self),
                index <= RING_SIZE,
                addresses_kept(start.hw, self.hw),
                self.same_driver_state(start),
                self.history@ == start.history@ + tx_ring_ops(index as nat),
            decreases RING_SIZE - index,
        {
            self.record_write_desc(Ring::Tx, index, tx_idle_descriptor(index));
            assert(tx_ring_ops((index + 1) as nat) =~= tx_ring_ops(index as nat).push(
                GmacOp::WriteDesc(Ring::Tx, index, tx_idle_desc(index as int)),
            ));
            index = index + 1;
        }
    }

    /// Give every receive slot to the device over its buffer; refused at the
    /// first buffer beyond the 32-bit descriptors.
    fn write_rx_ring(&mut self) -> (result: Result<(), DriverError>)
        ensures
            addresses_kept(old(self).hw, final(self).hw),
            final(self).same_driver_state(*old(self)),
            match result {
                Ok(()) => final(self).operations() == old(self).operations() + rx_ring_ops(
                    rx_buffer_addresses(old(self).hw),
                ) && forall|index: usize|
                    index < RING_SIZE ==> #[trigger] old(self).hw.buffer_address(Ring::Rx, index)
                        <= HW_DMA_MASK_32,
                Err(error) => error == DriverError::Unsupported && exists|index: usize|
                    index < RING_SIZE && #[trigger] old(self).hw.buffer_address(Ring::Rx, index)
                        > HW_DMA_MASK_32,
            },
    {
        let ghost start = *self;
        let ghost buses: Seq<u64> = Seq::empty();
        let mut index: usize = 0;
        while index < RING_SIZE
            invariant
                start == *old(self),
                index <= RING_SIZE,
                addresses_kept(start.hw, self.hw),
                self.same_driver_state(start),
                buses.len() == index,
                forall|i: int| 0 <= i < index ==> #[trigger] buses[i] == start.hw.buffer_address(Ring::Rx, i as usize),
                forall|i: usize| i < index ==> #[trigger] start.hw.buffer_address(Ring::Rx, i) <= HW_DMA_MASK_32,
                self.history@ == start.history@ + rx_ring_ops(buses),
            decreases RING_SIZE - index,
        {
            let bus = self.record_buffer_address(Ring::Rx, index);
            let address = match dma_addr32(bus) {
                Ok(address) => address,
                Err(error) => {
                    assert(start.hw.buffer_address(Ring::Rx, index) > HW_DMA_MASK_32);
                    return Err(error);
                },
            };
            let ghost prev = self.history@;
            let desc = rx_descriptor(index, address, DESC_OWN_BY_DMA);
            self.record_write_desc(Ring::Rx, index, desc);
            proof {
                let next = buses.push(bus);
                assert(next.drop_last() =~= buses);
                assert(desc == DmaDesc {
                    status: DESC_OWN_BY_DMA,
                    length: rx_length_word(index as int),
                    buffer1: next.last() as u32,
                    buffer2: 0,
                });
                assert(rx_ring_ops(next) == rx_ring_ops(buses) + seq![
                    GmacOp::BufferAddress(Ring::Rx, index, bus),
                    GmacOp::WriteDesc(Ring::Rx, index, desc),
                ]);
                assert(self.history@ =~= start.history@ + rx_ring_ops(next));
                buses = next;
            }
            index = index + 1;
        }
        assert(buses =~= rx_buffer_addresses(start.hw));
        Ok(())
    }

    /// Start the DMA software reset's wait: poll the bus mode register until
    /// the reset bit clears, at most the timeout of times.
    fn wait_dma_reset(&mut self) -> (outcome: (Result<(), DriverError>, Ghost<Seq<u32>>))
        ensures
            addresses_kept(old(self).hw, final(self).hw),
            final(self).same_driver_state(*old(self)),
            final(self).operations() == old(self).operations() + reset_poll_ops(outcome.1@),
            outcome.0 is Ok ==> reset_completed(outcome.1@),
            outcome.0 matches Err(error) ==> error == DriverError::IoError,
    {
        let ghost start = *self;
        let ghost values: Seq<u32> = Seq::empty();
        let mut poll: usize = 0;
        while poll < DMA_RESET_TIMEOUT
            invariant
                start == *old(self),
                poll <= DMA_RESET_TIMEOUT,
                addresses_kept(start.hw, self.hw),
                self.same_driver_state(start),
                values.len() == poll,
                forall|i: int| 0 <= i < poll ==> #[trigger] values[i] & DMA_RESET_ON != 0,
                self.history@ == start.history@ + reset_poll_ops(values),
            decreases DMA_RESET_TIMEOUT - poll,
        {
            let value = self.record_read32(GmacBlock::Dma, DMA_BUS_MODE);
            proof {
                let next = values.push(value);
                assert(reset_poll_ops(next) =~= reset_poll_ops(values).push(
                    GmacOp::Read(GmacBlock::Dma, DMA_BUS_MODE, value),
                ));
                values = next;
            }
            if value & DMA_RESET_ON == 0 {
                return (Ok(()), Ghost(values));
            }
            poll = poll + 1;
        }
        (Err(DriverError::IoError), Ghost(values))
    }

    fn record_ring_address(&mut self, ring: Ring) -> (bus: u64)
        ensures
            addresses_kept(old(self).hw, final(self).hw),
            bus == old(self).hw.ring_address(ring),
            final(self).same_driver_state(*old(self)),
            final(self).operations() == old(self).operations().push(GmacOp::RingAddress(ring, bus)),
    {
        let bus = self.hw.ring_bus_address(ring);
        proof {
            self.history@ = self.history@.push(GmacOp::RingAddress(ring, bus));
        }
        bus
    }

    fn record_clear_memory(&mut self)
        ensures
            addresses_kept(old(self).hw, final(self).hw),
            final(self).same_driver_state(*old(self)),
            final(self).operations() == old(self).operations().push(GmacOp::ClearMemory),
    {
        self.hw.clear_memory();
        proof {
            self.history@ = self.history@.push(GmacOp::ClearMemory);
        }
    }

    fn record_read32(&mut self, block: GmacBlock, offset: usize) -> (value: u32)
        ensures
            addresses_kept(old(self).hw, final(self).hw),
            final(self).same_driver_state(*old(self)),
            final(self).operations() == old(self).operations().push(
                GmacOp::Read(block, offset, value),
            ),
    {
        let value = self.hw.read32(block, offset);
        proof {
            self.history@ = self.history@.push(GmacOp::Read(block, offset, value));
        }
        value
    }

    fn record_write32(&mut self, block: GmacBlock, offset: usize, value: u32)
        ensures
            addresses_kept(old(self).hw, final(self).hw),
            final(self).same_driver_state(*old(self)),
            final(self).operations() == old(self).operations().push(
                GmacOp::Write(block, offset, value),
            ),
    {
        self.hw.write32(block, offset, value);
        proof {
            self.history@ = self.history@.push(GmacOp::Write(block, offset, value));
        }
    }

    /// Read-modify-write that sets `bits`.
    fn update_set_bits(&mut self, block: GmacBlock, offset: usize, bits: u32)
        ensures
            addresses_kept(old(self).hw, final(self).hw),
            final(self).same_driver_state(*old(self)),
            exists|value: u32|
                final(self).operations() == old(self).operations() + seq![
                    GmacOp::Read(block, offset, value),
                    GmacOp::Write(block, offset, value | bits),
                ],
    {
        let value = self.record_read32(block, offset);
        self.record_write32(block, offset, value | bits);
        assert(self.operations() =~= old(self).operations() + seq![
            GmacOp::Read(block, offset, value),
            GmacOp::Write(block, offset, value | bits),
        ]);
    }

    /// Read-modify-write that clears `bits`.
    fn update_clear_bits(&mut self, block: GmacBlock, offset: usize, bits: u32)
        ensures
            addresses_kept(old(self).hw, final(self).hw),
            final(self).same_driver_state(*old(self)),
            exists|value: u32|
                final(self).operations() == old(self).operations() + seq![
                    GmacOp::Read(block, offset, value),
                    GmacOp::Write(block, offset, value & !bits),
                ],
    {
        let value = self.record_read32(block, offset);
        self.record_write32(block, offset, value & !bits);
        assert(self.operations() =~= old(self).operations() + seq![
            GmacOp::Read(block, offset, value),
            GmacOp::Write(block, offset, value & !bits),
        ]);
    }

    /// Program the station address and the DMA engine, then the MAC, the
    /// current link, the interrupt masks, and start both directions; every
    /// operation is recorded.
    fn finish_bring_up(&mut self, tx_base: u32, rx_base: u32)
        ensures
            final(self).same_driver_state(*old(self)),
            ops_extend(
                old(self).operations() + station_and_dma_ops(old(self).station(), tx_base, rx_base),
                final(self).operations(),
            ),
            final(self).operations().last() == GmacOp::Write(GmacBlock::Dma, DMA_RX_POLL_DEMAND, 0),
    {
        let (high, low) = mac_address_words(self.mac_address);
        self.record_write32(GmacBlock::Mac, GMAC_ADDR0_HIGH, high);
        self.record_write32(GmacBlock::Mac, GMAC_ADDR0_LOW, low);
        self.record_write32(GmacBlock::Dma, DMA_BUS_MODE, DMA_BUS_MODE_VALUE);
        self.record_write32(GmacBlock::Dma, DMA_CONTROL, DMA_STORE_AND_FORWARD | DMA_TX_SECOND_FRAME);
        self.record_write32(GmacBlock::Dma, DMA_AXI_BUS_MODE, DMA_AXI_BUS_MODE_VALUE);
        self.record_write32(GmacBlock::Dma, DMA_TX_BASE_ADDR, tx_base);
        self.record_write32(GmacBlock::Dma, DMA_RX_BASE_ADDR, rx_base);
        let ghost mark = self.history@;
        assert(mark =~= old(self).operations() + station_and_dma_ops(old(self).station(), tx_base, rx_base));
        assert(mark.take(mark.len() as int) =~= mark);
        let ghost prev = self.history@;
        self.update_set_bits(GmacBlock::Mac, GMAC_CONFIG, MAC_TX_CONFIG);
        proof {
            assert(self.history@.take(prev.len() as int) =~= prev);
            lemma_ops_extend_trans(mark, prev, self.history@);
        }
        let ghost prev = self.history@;
        self.update_clear_bits(GmacBlock::Mac, GMAC_CONFIG, MAC_CONFIG_CLEARED);
        proof {
            assert(self.history@.take(prev.len() as int) =~= prev);
            lemma_ops_extend_trans(mark, prev, self.history@);
        }
        let ghost prev = self.history@;
        self.update_set_bits(GmacBlock::Mac, GMAC_CONFIG, MAC_DUPLEX);
        proof {
            assert(self.history@.take(prev.len() as int) =~= prev);
            lemma_ops_extend_trans(mark, prev, self.history@);
        }
        let ghost prev = self.history@;
        self.update_clear_bits(GmacBlock::Mac, GMAC_FRAME_FILTER, MAC_FILTER_CLEARED);
        proof {
            assert(self.history@.take(prev.len() as int) =~= prev);
            lemma_ops_extend_trans(mark, prev, self.history@);
        }
        let ghost prev = self.history@;
        self.update_set_bits(GmacBlock::Mac, GMAC_FRAME_FILTER, MAC_FILTER);
        proof {
            assert(self.history@.take(prev.len() as int) =~= prev);
            lemma_ops_extend_trans(mark, prev, self.history@);
        }
        let ghost prev = self.history@;
        self.update_clear_bits(GmacBlock::Dma, DMA_CONTROL, DMA_FLOW_CONTROL_BITS);
        proof {
            assert(self.history@.take(prev.len() as int) =~= prev);
            lemma_ops_extend_trans(mark, prev, self.history@);
        }
        let ghost prev = self.history@;
        self.record_write32(
            GmacBlock::Mac,
            GMAC_FLOW_CONTROL,
            MAC_PAUSE_TIME_MASK & !(MAC_RX_FLOW_CONTROL | MAC_TX_FLOW_CONTROL),
        );
        proof {
            assert(self.history@.take(prev.len() as int) =~= prev);
            lemma_ops_extend_trans(mark, prev, self.history@);
        }
        let ghost prev = self.history@;
        let raw = self.record_read32(GmacBlock::Mac, GMAC_RGSMII_STATUS);
        let link = LinkState::from_rgsmii(raw);
        let current = self.record_read32(GmacBlock::Mac, GMAC_CONFIG);
        let config = configure_link_value(current, link);
        if config != current {
            self.record_write32(GmacBlock::Mac, GMAC_CONFIG, config);
        }
        proof {
            assert(self.history@.take(prev.len() as int) =~= prev);
            lemma_ops_extend_trans(mark, prev, self.history@);
        }
        let ghost prev = self.history@;
        self.record_write32(GmacBlock::Mac, GMAC_MMC_INTR_MASK_TX, 0xFFFF_FFFF);
        self.record_write32(GmacBlock::Mac, GMAC_MMC_INTR_MASK_RX, 0xFFFF_FFFF);
        self.record_write32(GmacBlock::Mac, GMAC_MMC_RX_IPC_INTR_MASK, 0xFFFF_FFFF);
        let status = self.record_read32(GmacBlock::Dma, DMA_STATUS);
        self.record_write32(GmacBlock::Dma, DMA_STATUS, status);
        let _ = self.record_read32(GmacBlock::Mac, GMAC_INTERRUPT_STATUS);
        let _ = self.record_read32(GmacBlock::Mac, GMAC_INTERRUPT_MASK);
        proof {
            assert(self.history@.take(prev.len() as int) =~= prev);
            lemma_ops_extend_trans(mark, prev, self.history@);
        }
        let ghost prev = self.history@;
        self.update_set_bits(GmacBlock::Mac, GMAC_CONFIG, MAC_RX | MAC_TX);
        proof {
            assert(self.history@.take(prev.len() as int) =~= prev);
            lemma_ops_extend_trans(mark, prev, self.history@);
        }
        let ghost prev = self.history@;
        self.update_set_bits(GmacBlock::Dma, DMA_CONTROL, DMA_RX_START | DMA_TX_START);
        proof {
            assert(self.history@.take(prev.len() as int) =~= prev);
            lemma_ops_extend_trans(mark, prev, self.history@);
        }
        let ghost prev = self.history@;
        self.record_barrier();
        proof {
            assert(self.history@.take(prev.len() as int) =~= prev);
            lemma_ops_extend_trans(mark, prev, self.history@);
        }
        self.record_write32(GmacBlock::Dma, DMA_RX_POLL_DEMAND, 0);
        proof {
            let ghost last = self.history@;
            assert(last.take(mark.len() as int) =~= mark) by {
                assert(last.drop_last() =~= last.take(last.len() - 1));
                assert(last.take(mark.len() as int) =~= last.drop_last().take(mark.len() as int));
            }
        }
    }

    fn record_read_desc(&mut self, ring: Ring, index: usize) -> (desc: DmaDesc)
        requires
            index < RING_SIZE,
        ensures
            addresses_kept(old(self).hw, final(self).hw),
            final(self).same_driver_state(*old(self)),
            final(self).operations() == old(self).operations().push(
                GmacOp::ReadDesc(ring, index, desc),
            ),
    {
        let desc = self.hw.read_desc(ring, index);
        proof {
            self.history@ = self.history@.push(GmacOp::ReadDesc(ring, index, desc));
        }
        desc
    }

    fn record_write_desc(&mut self, ring: Ring, index: usize, desc: DmaDesc)
        requires
            index < RING_SIZE,
        ensures
            addresses_kept(old(self).hw, final(self).hw),
            final(self).same_driver_state(*old(self)),
            final(self).operations() == old(self).operations().push(
                GmacOp::WriteDesc(ring, index, desc),
            ),
    {
        self.hw.write_desc(ring, index, desc);
        proof {
            self.history@ = self.history@.push(GmacOp::WriteDesc(ring, index, desc));
        }
    }

    fn record_set_status(&mut self, ring: Ring, index: usize, status: u32)
        requires
            index < RING_SIZE,
        ensures
            addresses_kept(old(self).hw, final(self).hw),
            final(self).same_driver_state(*old(self)),
            final(self).operations() == old(self).operations().push(
                GmacOp::SetStatus(ring, index, status),
            ),
    {
        self.hw.set_desc_status(ring, index, status);
        proof {
            self.history@ = self.history@.push(GmacOp::SetStatus(ring, index, status));
        }
    }

    fn record_buffer_address(&mut self, ring: Ring, index: usize) -> (bus: u64)
        requires
            index < RING_SIZE,
        ensures
            bus == old(self).hw.buffer_address(ring, index),
            addresses_kept(old(self).hw, final(self).hw),
            final(self).same_driver_state(*old(self)),
            final(self).operations() == old(self).operations().push(
                GmacOp::BufferAddress(ring, index, bus),
            ),
    {
        let bus = self.hw.buffer_bus_address(ring, index);
        proof {
            self.history@ = self.history@.push(GmacOp::BufferAddress(ring, index, bus));
        }
        bus
    }

    fn record_barrier(&mut self)
        ensures
            addresses_kept(old(self).hw, final(self).hw),
            final(self).same_driver_state(*old(self)),
            final(self).operations() == old(self).operations().push(GmacOp::Barrier),
    {
        self.hw.barrier();
        proof {
            self.history@ = self.history@.push(GmacOp::Barrier);
        }
    }

    /// Whether the MAC reports the link up; the driver's own state is kept.
    pub fn is_link_up(&mut self) -> (up: bool)
        ensures
            final(self).wf() == old(self).wf(),
            final(self).station() == old(self).station(),
            final(self).tx_slot() == old(self).tx_slot(),
            final(self).rx_slot() == old(self).rx_slot(),
            final(self).operations() == old(self).operations().push(final(self).operations().last()),
            final(self).operations().last() matches GmacOp::Read(block, offset, raw) && block
                == GmacBlock::Mac && offset == GMAC_RGSMII_STATUS && up == (raw & MAC_LINK_STATUS
                != 0),
    {
        let raw = self.record_read32(GmacBlock::Mac, GMAC_RGSMII_STATUS);
        LinkState::from_rgsmii(raw).up
    }

    /// Return completed transmit descriptors to the CPU. Each slot is
    /// reclaimed at most once per call.
    fn reclaim_tx(&mut self)
        requires
            old(self).wf(),
        ensures
            final(self).wf(),
            final(self).tx_next == old(self).tx_next,
            final(self).rx_next == old(self).rx_next,
            final(self).mac_address == old(self).mac_address,
            ops_extend(old(self).operations(), final(self).operations()),
    {
        let ghost before = self.history@;
        assert(before.take(before.len() as int) =~= before);
        let mut step: usize = 0;
        while step < RING_SIZE
            invariant
                self.wf(),
                self.tx_next == old(self).tx_next,
                self.rx_next == old(self).rx_next,
                self.mac_address == old(self).mac_address,
                before == old(self).history@,
                ops_extend(before, self.history@),
            decreases RING_SIZE - step,
        {
            let ghost start = self.history@;
            let busy = self.tx_busy;
            let desc = self.record_read_desc(Ring::Tx, busy);
            if desc.owned_by_dma() || desc.length == 0 {
                assert(self.history@.take(before.len() as int) =~= start.take(before.len() as int));
                break;
            }
            self.record_write_desc(Ring::Tx, busy, tx_idle_descriptor(busy));
            assert(self.history@.take(before.len() as int) =~= start.take(before.len() as int));
            self.tx_busy = ring_next(busy);
            step = step + 1;
        }
    }

    /// Give receive slot `index` back to the device with a fresh buffer.
    fn rearm_rx(&mut self, index: usize) -> (result: Result<(), DriverError>)
        requires
            index < RING_SIZE,
        ensures
            final(self).tx_next == old(self).tx_next,
            final(self).tx_busy == old(self).tx_busy,
            final(self).rx_next == old(self).rx_next,
            final(self).mac_address == old(self).mac_address,
            result matches Err(error) ==> error == DriverError::Unsupported,
            exists|bus: u64|
                #![trigger rearm_outcome(index, bus)]
                (result is Ok <==> bus <= HW_DMA_MASK_32) && final(self).operations() == old(
                    self,
                ).operations() + rearm_outcome(index, bus),
    {
        let ghost before = self.history@;
        let address = self.record_buffer_address(Ring::Rx, index);
        let bus = match dma_addr32(address) {
            Ok(bus) => bus,
            Err(error) => {
                assert(self.history@ =~= before + rearm_outcome(index, address));
                return Err(error);
            },
        };
        self.record_write_desc(Ring::Rx, index, rx_descriptor(index, bus, 0));
        self.record_barrier();
        self.record_set_status(Ring::Rx, index, DESC_OWN_BY_DMA);
        self.record_barrier();
        assert(bus == address as u32);
        assert(self.history@ =~= before + rearm_outcome(index, address));
        Ok(())
    }

    /// Queue one frame for transmission.
    pub fn send(&mut self, buf: &[u8]) -> (result: Result<(), DriverError>)
        requires
            old(self).wf(),
        ensures
            final(self).wf(),
            final(self).station() == old(self).station(),
            final(self).rx_slot() == old(self).rx_slot(),
            (buf@.len() == 0 || buf@.len() > BUFFER_SIZE) ==> result == Err::<(), DriverError>(
                DriverError::InvalidParam,
            ) && final(self).tx_slot() == old(self).tx_slot() && final(self).operations() == old(
                self,
            ).operations(),
            match result {
                Ok(()) => 0 < buf@.len() <= BUFFER_SIZE && final(self).tx_slot() == next_slot(
                    old(self).tx_slot() as int,
                ),
                Err(_) => final(self).tx_slot() == old(self).tx_slot(),
            },
            0 < buf@.len() <= BUFFER_SIZE ==> exists|reclaimed: Seq<GmacOp>, desc: DmaDesc, bus: u64|
                #[trigger] send_outcome(
                    old(self).operations(),
                    final(self).operations(),
                    old(self).tx_slot(),
                    buf@.len() as usize,
                    result,
                    reclaimed,
                    desc,
                    bus,
                ),
    {
        if buf.len() == 0 || buf.len() > BUFFER_SIZE || buf.len() > DESC_SIZE1_MASK as usize {
            return Err(DriverError::InvalidParam);
        }
        let ghost before = self.history@;
        self.reclaim_tx();
        let ghost reclaimed = self.history@.skip(before.len() as int);
        assert(self.history@ =~= before + reclaimed);
        let index = self.tx_next;
        let desc = self.record_read_desc(Ring::Tx, index);
        assert(self.history@ =~= before + reclaimed + seq![GmacOp::ReadDesc(Ring::Tx, index, desc)]);
        if desc.owned_by_dma() || desc.length != 0 {
            assert(send_outcome(old(self).operations(), self.operations(), old(self).tx_slot(), buf@.len() as usize, Err(DriverError::IoError), reclaimed, desc, 0));
            return Err(DriverError::IoError);
        }
        let address = self.record_buffer_address(Ring::Tx, index);
        let bus = match dma_addr32(address) {
            Ok(bus) => bus,
            Err(error) => {
                assert(send_outcome(old(self).operations(), self.operations(), old(self).tx_slot(), buf@.len() as usize, Err(error), reclaimed, desc, address));
                return Err(error);
            },
        };
        let ghost probed = self.history@;
        self.hw.fill_tx_buffer(index, buf);
        proof {
            self.history@ = self.history@.push(GmacOp::FillTx(index, buf@.len() as usize));
        }
        self.record_barrier();
        let status = tx_ready_status(index);
        self.record_write_desc(
            Ring::Tx,
            index,
            DmaDesc {
                status: status & !DESC_OWN_BY_DMA,
                length: buf.len() as u32 & DESC_SIZE1_MASK,
                buffer1: bus,
                buffer2: 0,
            },
        );
        self.record_barrier();
        self.record_set_status(Ring::Tx, index, status);
        self.record_barrier();
        self.tx_next = ring_next(index);
        self.hw.write32(GmacBlock::Dma, DMA_TX_POLL_DEMAND, 0);
        proof {
            self.history@ = self.history@.push(GmacOp::Write(GmacBlock::Dma, DMA_TX_POLL_DEMAND, 0));
            assert(bus == address as u32);
            assert(self.history@ =~= probed + transmit_ops(index, buf@.len() as usize, address));
            assert(send_outcome(old(self).operations(), self.operations(), old(self).tx_slot(), buf@.len() as usize, Ok(()), reclaimed, desc, address));
        }
        Ok(())
    }

    /// Copy one received frame into `buf`; `Ok(0)` when none is ready or the
    /// frame was damaged.
    pub fn receive(&mut self, buf: &mut [u8]) -> (result: Result<usize, DriverError>)
        requires
            old(self).wf(),
        ensures
            final(self).wf(),
            final(self).station() == old(self).station(),
            final(self).tx_slot() == old(self).tx_slot(),
            final(buf)@.len() == old(buf)@.len(),
            match result {
                Ok(len) => {
                    &&& len <= old(buf)@.len()
                    &&& len > 0 ==> final(self).rx_slot() == next_slot(old(self).rx_slot() as int)
                    &&& final(self).rx_slot() == old(self).rx_slot() || final(self).rx_slot()
                        == next_slot(old(self).rx_slot() as int)
                },
                Err(DriverError::InvalidParam) => final(self).rx_slot() == next_slot(
                    old(self).rx_slot() as int,
                ),
                Err(DriverError::Unsupported) => final(self).rx_slot() == old(self).rx_slot(),
                Err(_) => false,
            },
            exists|desc: DmaDesc, bus: u64|
                #[trigger] receive_outcome(
                    old(self).operations(),
                    final(self).operations(),
                    old(self).rx_slot(),
                    old(buf)@.len() as usize,
                    result,
                    desc,
                    bus,
                ),
    {
        let ghost before = self.history@;
        let index = self.rx_next;
        let desc = self.record_read_desc(Ring::Rx, index);
        if desc.owned_by_dma() {
            assert(receive_outcome(old(self).operations(), self.operations(), old(self).rx_slot(), old(buf)@.len() as usize, Ok(0), desc, 0));
            return Ok(0);
        }
        self.record_barrier();
        let ghost seen = self.history@;
        assert(seen == before.push(GmacOp::ReadDesc(Ring::Rx, index, desc)).push(GmacOp::Barrier));
        if !desc.rx_valid() {
            let rearmed = self.rearm_rx(index);
            let ghost bus = choose|bus: u64| (rearmed is Ok <==> bus <= HW_DMA_MASK_32) && self.history@ == seen + rearm_outcome(index, bus);
            if let Err(error) = rearmed {
                assert(receive_outcome(old(self).operations(), self.operations(), old(self).rx_slot(), old(buf)@.len() as usize, Err(error), desc, bus));
                return Err(error);
            }
            self.rx_next = ring_next(index);
            assert(receive_outcome(old(self).operations(), self.operations(), old(self).rx_slot(), old(buf)@.len() as usize, Ok(0), desc, bus));
            return Ok(0);
        }
        let len = desc.rx_length();
        assert(len == desc_frame_length(desc) as usize);
        if len > buf.len() || len > BUFFER_SIZE {
            let rearmed = self.rearm_rx(index);
            let ghost bus = choose|bus: u64| (rearmed is Ok <==> bus <= HW_DMA_MASK_32) && self.history@ == seen + rearm_outcome(index, bus);
            if let Err(error) = rearmed {
                assert(receive_outcome(old(self).operations(), self.operations(), old(self).rx_slot(), old(buf)@.len() as usize, Err(error), desc, bus));
                return Err(error);
            }
            self.rx_next = ring_next(index);
            assert(receive_outcome(old(self).operations(), self.operations(), old(self).rx_slot(), old(buf)@.len() as usize, Err(DriverError::InvalidParam), desc, bus));
            return Err(DriverError::InvalidParam);
        }
        self.hw.copy_rx_buffer(index, buf, len);
        proof {
            self.history@ = self.history@.push(GmacOp::CopyRx(index, len));
        }
        let ghost copied = self.history@;
        let rearmed = self.rearm_rx(index);
        let ghost bus = choose|bus: u64| (rearmed is Ok <==> bus <= HW_DMA_MASK_32) && self.history@ == copied + rearm_outcome(index, bus);
        if let Err(error) = rearmed {
            assert(receive_outcome(old(self).operations(), self.operations(), old(self).rx_slot(), old(buf)@.len() as usize, Err(error), desc, bus));
            return Err(error);
        }
        self.rx_next = ring_next(index);
        assert(receive_outcome(old(self).operations(), self.operations(), old(self).rx_slot(), old(buf)@.len() as usize, Ok(len), desc, bus));
        Ok(len)
    }
}

/// Self-test of compatible matching, address validation and link decoding;
/// each result is proved here.
pub fn test() {
    let compatibles = vec![String::from_str("snps,dwmac-3.70a")];
    let supported = is_supported_compatible(compatibles.as_slice());
    assert(supported) by {
        assert(supported_compatible(compatibles@[0]@));
    }
    let local: [u8; 6] = [0x02, 0, 0, 0, 0, 1];
    let good = valid_unicast_mac(local);
    assert(good) by {
        assert(local[0] == 2);
        assert(2u8 & 1 == 0) by (bit_vector);
        if local@ == seq![0u8, 0u8, 0u8, 0u8, 0u8, 0u8] {
            assert(local@[0] == 0);
        }
    }
    let zero = valid_unicast_mac([0, 0, 0, 0, 0, 0]);
    assert(!zero);
    let group: [u8; 6] = [1, 0, 0, 0, 0, 0];
    let multicast = valid_unicast_mac(group);
    assert(!multicast) by {
        assert(group[0] == 1);
        assert(1u8 & 1 == 1) by (bit_vector);
    }
    let raw = MAC_LINK_STATUS | MAC_LINK_MODE | MAC_LINK_SPEED_125;
    let link = LinkState::from_rgsmii(raw);
    assert(link.up && link.speed_mbps == 1000) by {
        assert((raw & MAC_LINK_STATUS != 0) && (raw & MAC_LINK_SPEED_MASK == MAC_LINK_SPEED_125))
            by (bit_vector)
            requires
                raw == MAC_LINK_STATUS | MAC_LINK_MODE | MAC_LINK_SPEED_125,
        ;
    }
}

} // verus!
