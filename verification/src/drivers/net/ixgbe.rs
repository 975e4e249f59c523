//! The Intel X550 (ixgbe family) driver's register layout, descriptor
//! formats and ring indices.

use vstd::prelude::*;

verus! {

/// Number of descriptors per ring.
pub const RX_RING_SIZE: usize = 512;
pub const TX_RING_SIZE: usize = 512;
/// Size of one DMA packet buffer.
pub const BUF_SIZE: usize = 2048;

pub const IXGBE_RXDADV_STAT_DD: u32 = 0x0000_0001;
pub const IXGBE_RXDADV_STAT_EOP: u32 = 0x0000_0002;
pub const IXGBE_ADVTXD_DTYP_DATA: u32 = 0x0030_0000;
pub const IXGBE_ADVTXD_DCMD_DEXT: u32 = 0x2000_0000;
pub const IXGBE_ADVTXD_DCMD_EOP: u32 = 0x0100_0000;
pub const IXGBE_ADVTXD_DCMD_RS: u32 = 0x0800_0000;
pub const IXGBE_ADVTXD_DCMD_IFCS: u32 = 0x0200_0000;
pub const IXGBE_ADVTXD_STAT_DD: u32 = 0x0000_0001;
pub const IXGBE_ADVTXD_PAYLEN_SHIFT: u32 = 14;
pub const IXGBE_SRRCTL_DESCTYPE_MASK: u32 = 0x0e00_0000;
pub const IXGBE_SRRCTL_DESCTYPE_ADV_ONEBUF: u32 = 0x0200_0000;
pub const IXGBE_SRRCTL_DROP_EN: u32 = 0x1000_0000;
pub const IXGBE_SRRCTL_BSIZEPKT_MASK: u32 = 0x0000_001f;
pub const IXGBE_LINKS_UP: u32 = 0x4000_0000;
pub const IXGBE_LINKS_SPEED_MASK: u32 = 0x3000_0000;
pub const IXGBE_LINKS_SPEED_10G: u32 = 0x3000_0000;
pub const IXGBE_LINKS_SPEED_1G: u32 = 0x2000_0000;
pub const IXGBE_LINKS_SPEED_100M: u32 = 0x1000_0000;

/// Errors of the ixgbe driver.
#[derive(Clone, Copy, Debug, PartialEq, Eq)]
pub enum IxgbeError {
    NoBar,
    ResetFailed,
    InitFailed,
    Unknown,
}

/// Interrupt vector allocation register `i`.
pub fn ixgbe_ivar(i: u32) -> (r: u32)
    requires
        i <= 0x3ffb_f000,
    ensures
        r == 0x00900 + 4 * i,
{
    0x00900 + 4 * i
}

/// Receive packet buffer size register `i`.
pub fn ixgbe_rxpbsize(i: u32) -> (r: u32)
    requires
        i <= 0x3fff_0000,
    ensures
        r == 0x03c00 + 4 * i,
{
    0x03c00 + 4 * i
}

/// Split receive control register of queue `i`.
pub fn ixgbe_srrctl(i: u32) -> (r: u32)
    requires
        i <= 0x3ff_ff00,
    ensures
        r == 0x01014 + 0x40 * i,
{
    0x01014 + 0x40 * i
}

/// Receive descriptor base address low register of queue `i`.
pub fn ixgbe_rdbal(i: u32) -> (r: u32)
    requires
        i <= 0x3ff_ff00,
    ensures
        r == 0x01000 + 0x40 * i,
{
    0x01000 + 0x40 * i
}

/// Receive descriptor base address high register of queue `i`.
pub fn ixgbe_rdbah(i: u32) -> (r: u32)
    requires
        i <= 0x3ff_ff00,
    ensures
        r == 0x01004 + 0x40 * i,
{
    0x01004 + 0x40 * i
}

/// Receive descriptor length register of queue `i`.
pub fn ixgbe_rdlen(i: u32) -> (r: u32)
    requires
        i <= 0x3ff_ff00,
    ensures
        r == 0x01008 + 0x40 * i,
{
    0x01008 + 0x40 * i
}

/// Receive descriptor head register of queue `i`.
pub fn ixgbe_rdh(i: u32) -> (r: u32)
    requires
        i <= 0x3ff_ff00,
    ensures
        r == 0x01010 + 0x40 * i,
{
    0x01010 + 0x40 * i
}

/// Receive descriptor tail register of queue `i`.
pub fn ixgbe_rdt(i: u32) -> (r: u32)
    requires
        i <= 0x3ff_ff00,
    ensures
        r == 0x01018 + 0x40 * i,
{
    0x01018 + 0x40 * i
}

/// Receive descriptor control register of queue `i`.
pub fn ixgbe_rxdctl(i: u32) -> (r: u32)
    requires
        i <= 0x3ff_ff00,
    ensures
        r == 0x01028 + 0x40 * i,
{
    0x01028 + 0x40 * i
}

/// Receive DCA control register of queue `i`.
pub fn ixgbe_dca_rxctrl(i: u32) -> (r: u32)
    requires
        i <= 0x3ff_ff00,
    ensures
        r == 0x0100c + 0x40 * i,
{
    0x0100c + 0x40 * i
}

/// Transmit packet buffer size register `i`.
pub fn ixgbe_txpbsize(i: u32) -> (r: u32)
    requires
        i <= 0x3fff_0000,
    ensures
        r == 0x0cc00 + 4 * i,
{
    0x0cc00 + 4 * i
}

/// Transmit descriptor base address low register of queue `i`.
pub fn ixgbe_tdbal(i: u32) -> (r: u32)
    requires
        i <= 0x3ff_f000,
    ensures
        r == 0x06000 + 0x40 * i,
{
    0x06000 + 0x40 * i
}

/// Transmit descriptor base address high register of queue `i`.
pub fn ixgbe_tdbah(i: u32) -> (r: u32)
    requires
        i <= 0x3ff_f000,
    ensures
        r == 0x06004 + 0x40 * i,
{
    0x06004 + 0x40 * i
}

/// Transmit descriptor length register of queue `i`.
pub fn ixgbe_tdlen(i: u32) -> (r: u32)
    requires
        i <= 0x3ff_f000,
    ensures
        r == 0x06008 + 0x40 * i,
{
    0x06008 + 0x40 * i
}

/// Transmit descriptor head register of queue `i`.
pub fn ixgbe_tdh(i: u32) -> (r: u32)
    requires
        i <= 0x3ff_f000,
    ensures
        r == 0x06010 + 0x40 * i,
{
    0x06010 + 0x40 * i
}

/// Transmit descriptor tail register of queue `i`.
pub fn ixgbe_tdt(i: u32) -> (r: u32)
    requires
        i <= 0x3ff_f000,
    ensures
        r == 0x06018 + 0x40 * i,
{
    0x06018 + 0x40 * i
}

/// Transmit descriptor control register of queue `i`.
pub fn ixgbe_txdctl(i: u32) -> (r: u32)
    requires
        i <= 0x3ff_f000,
    ensures
        r == 0x06028 + 0x40 * i,
{
    0x06028 + 0x40 * i
}

/// Receive address low register `i`.
pub fn ixgbe_ral(i: u32) -> (r: u32)
    requires
        i <= 0x1ffe_0000,
    ensures
        r == 0x0a200 + 8 * i,
{
    0x0a200 + 8 * i
}

/// Receive address high register `i`.
pub fn ixgbe_rah(i: u32) -> (r: u32)
    requires
        i <= 0x1ffe_0000,
    ensures
        r == 0x0a204 + 8 * i,
{
    0x0a204 + 8 * i
}

/// The MAC address held by the receive address registers, low bytes first.
pub fn mac_from_ral_rah(ral: u32, rah: u32) -> (r: [u8; 6])
    ensures
        r@ == seq![
            (ral % 0x100) as u8,
            (ral / 0x100 % 0x100) as u8,
            (ral / 0x1_0000 % 0x100) as u8,
            (ral / 0x100_0000) as u8,
            (rah % 0x100) as u8,
            (rah / 0x100 % 0x100) as u8,
        ],
{
    proof {
        assert((ral & 0xff) == ral % 0x100) by (bit_vector);
        assert(((ral >> 8) & 0xff) == ral / 0x100 % 0x100) by (bit_vector);
        assert(((ral >> 16) & 0xff) == ral / 0x1_0000 % 0x100) by (bit_vector);
        assert((ral >> 24) == ral / 0x100_0000) by (bit_vector);
        assert((rah & 0xff) == rah % 0x100) by (bit_vector);
        assert(((rah >> 8) & 0xff) == rah / 0x100 % 0x100) by (bit_vector);
    }
    let r = [
        (ral & 0xff) as u8,
        ((ral >> 8) & 0xff) as u8,
        ((ral >> 16) & 0xff) as u8,
        (ral >> 24) as u8,
        (rah & 0xff) as u8,
        ((rah >> 8) & 0xff) as u8,
    ];
    assert(r@ =~= seq![
        (ral % 0x100) as u8,
        (ral / 0x100 % 0x100) as u8,
        (ral / 0x1_0000 % 0x100) as u8,
        (ral / 0x100_0000) as u8,
        (rah % 0x100) as u8,
        (rah / 0x100 % 0x100) as u8,
    ]);
    r
}

/// The split receive control value for advanced one-buffer descriptors with
/// 2 KiB buffers that drops packets when no descriptor is free, keeping the
/// other bits of `srrctl`.
pub fn rx_srrctl(srrctl: u32) -> (r: u32)
    ensures
        r == (srrctl & !(IXGBE_SRRCTL_DESCTYPE_MASK | IXGBE_SRRCTL_BSIZEPKT_MASK))
            | IXGBE_SRRCTL_DESCTYPE_ADV_ONEBUF | IXGBE_SRRCTL_DROP_EN | 2,
{
    let mut v = srrctl;
    v = v & !(IXGBE_SRRCTL_DESCTYPE_MASK | IXGBE_SRRCTL_BSIZEPKT_MASK);
    v = v | IXGBE_SRRCTL_DESCTYPE_ADV_ONEBUF | IXGBE_SRRCTL_DROP_EN | ((BUF_SIZE / 1024) as u32);
    v
}

/// The transmit descriptor control value with the write-back thresholds
/// (36, 8, 4) set, keeping the other bits of `txdctl`.
pub fn tx_txdctl(txdctl: u32) -> (r: u32)
    ensures
        r == (txdctl & !0x007f_7f7fu32) | 0x0004_0824u32,
{
    let mut v = txdctl;
    v = v & !(0x7f | (0x7f << 8) | (0x7f << 16));
    v = v | (36 | (8 << 8) | (4 << 16));
    proof {
        assert(0x7fu32 | (0x7fu32 << 8) | (0x7fu32 << 16) == 0x007f_7f7fu32) by (bit_vector);
        assert(36u32 | (8u32 << 8) | (4u32 << 16) == 0x0004_0824u32) by (bit_vector);
    }
    v
}

/// The speed a link runs at, read from the links register.
#[derive(Clone, Copy, Debug, PartialEq, Eq)]
pub enum LinkSpeed {
    Speed10G,
    Speed1G,
    Speed100M,
    Unknown,
}

/// The link's speed if it is up, `None` otherwise.
pub fn link_speed(links: u32) -> (r: Option<LinkSpeed>)
    ensures
        links & IXGBE_LINKS_UP == 0 ==> r is None,
        links & IXGBE_LINKS_UP != 0 ==> r == Some(
            if links & IXGBE_LINKS_SPEED_MASK == IXGBE_LINKS_SPEED_10G {
                LinkSpeed::Speed10G
            } else if links & IXGBE_LINKS_SPEED_MASK == IXGBE_LINKS_SPEED_1G {
                LinkSpeed::Speed1G
            } else if links & IXGBE_LINKS_SPEED_MASK == IXGBE_LINKS_SPEED_100M {
                LinkSpeed::Speed100M
            } else {
                LinkSpeed::Unknown
            },
        ),
{
    if links & IXGBE_LINKS_UP == 0 {
        return None;
    }
    let speed = links & IXGBE_LINKS_SPEED_MASK;
    Some(
        if speed == IXGBE_LINKS_SPEED_10G {
            LinkSpeed::Speed10G
        } else if speed == IXGBE_LINKS_SPEED_1G {
            LinkSpeed::Speed1G
        } else if speed == IXGBE_LINKS_SPEED_100M {
            LinkSpeed::Speed100M
        } else {
            LinkSpeed::Unknown
        },
    )
}

/// The upper word of the advanced transmit descriptor of a frame of `len`
/// bytes: the command, type and length in the low half, the payload length
/// in the upper half.
pub fn tx_desc_hi(len: usize) -> (r: u64)
    requires
        len <= BUF_SIZE,
    ensures
        r == (IXGBE_ADVTXD_DCMD_EOP | IXGBE_ADVTXD_DCMD_RS | IXGBE_ADVTXD_DCMD_IFCS
            | IXGBE_ADVTXD_DCMD_DEXT | IXGBE_ADVTXD_DTYP_DATA | len as u32) + (len * 0x4000)
            * 0x1_0000_0000,
{
    let l = len as u32;
    let cmd_type_len = IXGBE_ADVTXD_DCMD_EOP | IXGBE_ADVTXD_DCMD_RS | IXGBE_ADVTXD_DCMD_IFCS
        | IXGBE_ADVTXD_DCMD_DEXT | IXGBE_ADVTXD_DTYP_DATA | l;
    let olinfo_status = l << IXGBE_ADVTXD_PAYLEN_SHIFT;
    proof {
        assert(l <= 2048 ==> l << 14u32 == l * 0x4000) by (bit_vector);
        let c = cmd_type_len as u64;
        let o = olinfo_status as u64;
        assert(c | (o << 32) == c + o * 0x1_0000_0000) by (bit_vector)
            requires
                c <= 0xffff_ffff,
                o <= 0xffff_ffff,
        ;
    }
    (cmd_type_len as u64) | ((olinfo_status as u64) << 32)
}

/// The receive ring's software state: the next descriptor to check.
pub struct RxRing {
    pub index: usize,
}

impl RxRing {
    /// Whether the descriptor whose upper word is `hi` holds a received packet.
    pub fn has_packet(hi: u64) -> (r: bool)
        ensures
            r == ((hi as u32) & IXGBE_RXDADV_STAT_DD != 0),
    {
        (hi as u32) & IXGBE_RXDADV_STAT_DD != 0
    }

    /// The length of the packet the descriptor with upper word `hi` holds,
    /// cut to the buffer size.
    pub fn frame_len(hi: u64) -> (r: usize)
        ensures
            r == (if hi / 0x1_0000_0000 % 0x1_0000 <= BUF_SIZE {
                (hi / 0x1_0000_0000 % 0x1_0000) as int
            } else {
                BUF_SIZE as int
            }),
    {
        proof {
            assert((hi >> 32) & 0xffff == hi / 0x1_0000_0000 % 0x1_0000) by (bit_vector);
        }
        let len = ((hi >> 32) & 0xffff) as usize;
        if len <= BUF_SIZE {
            len
        } else {
            BUF_SIZE
        }
    }

    /// The byte offset of descriptor `i`'s buffer in the buffer area.
    pub fn buf_offset(i: usize) -> (r: usize)
        requires
            i < RX_RING_SIZE,
        ensures
            r == i * BUF_SIZE,
    {
        i * BUF_SIZE
    }

    /// Moves on to the next descriptor after a packet was consumed; the
    /// consumed descriptor's index goes to the tail register.
    pub fn advance(&mut self) -> (tail: u32)
        requires
            old(self).index < RX_RING_SIZE,
        ensures
            final(self).index == (old(self).index + 1) % (RX_RING_SIZE as int),
            tail == old(self).index,
    {
        let index = self.index;
        self.index = (index + 1) % RX_RING_SIZE;
        index as u32
    }
}

/// The transmit ring's software state: the next descriptor to use and the
/// next one to check for completed transmission.
pub struct TxRing {
    pub index: usize,
    pub clean_index: usize,
}

impl TxRing {
    pub open spec fn wf(&self) -> bool {
        self.index < TX_RING_SIZE && self.clean_index < TX_RING_SIZE
    }

    /// Reclaims the descriptors whose transmission completed, given the upper
    /// words `hi` of the ring's descriptors: moves the clean index on over
    /// each descriptor the device marked done, up to the next one to use.
    pub fn clean(&mut self, hi: &[u64])
        requires
            old(self).wf(),
            hi@.len() == TX_RING_SIZE,
        ensures
            final(self).wf(),
            final(self).index == old(self).index,
            final(self).clean_index == old(self).index || ((hi@[final(self).clean_index as int]
                >> 32u64) as u32) & IXGBE_ADVTXD_STAT_DD == 0,
    {
        let mut steps: usize = 0;
        while self.clean_index != self.index
            invariant
                self.wf(),
                hi@.len() == TX_RING_SIZE,
                self.index == old(self).index,
                steps <= TX_RING_SIZE,
                (self.index + TX_RING_SIZE - self.clean_index) % (TX_RING_SIZE as int) + steps
                    == (old(self).index + TX_RING_SIZE - old(self).clean_index) % (
                TX_RING_SIZE as int),
            ensures
                self.wf(),
                self.index == old(self).index,
                self.clean_index == self.index || ((hi@[self.clean_index as int] >> 32u64) as u32)
                    & IXGBE_ADVTXD_STAT_DD == 0,
            decreases TX_RING_SIZE - steps,
        {
            let clean_index = self.clean_index;
            let status = hi[clean_index];
            if (status >> 32) as u32 & IXGBE_ADVTXD_STAT_DD == 0 {
                break;
            }
            self.clean_index = (clean_index + 1) % TX_RING_SIZE;
            steps = steps + 1;
        }
    }

    /// Whether no descriptor is free for sending.
    pub fn is_full(&self) -> (r: bool)
        requires
            self.wf(),
        ensures
            r == ((self.index + 1) % (TX_RING_SIZE as int) == self.clean_index),
    {
        (self.index + 1) % TX_RING_SIZE == self.clean_index
    }

    /// Moves on to the next descriptor after a frame was placed in it; the
    /// new index goes to the tail register.
    pub fn advance(&mut self) -> (tail: u32)
        requires
            old(self).wf(),
        ensures
            final(self).wf(),
            final(self).clean_index == old(self).clean_index,
            final(self).index == (old(self).index + 1) % (TX_RING_SIZE as int),
            tail == final(self).index,
    {
        self.index = (self.index + 1) % TX_RING_SIZE;
        self.index as u32
    }
}

/// The number of frames smoltcp may hand over in one go.
pub fn max_burst_size() -> (r: usize)
    ensures
        r == TX_RING_SIZE / 2,
{
    TX_RING_SIZE / 2
}

} // verus!
