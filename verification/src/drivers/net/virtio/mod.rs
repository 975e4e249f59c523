//! virtio-net: buffer sizing and checksum offloading.

pub mod checksum;

use vstd::prelude::*;

use crate::console::{chunk_views, concat};
use crate::drivers::net::virtio_net::VirtioNetError;
use crate::drivers::virtio::transport::pci::NotifCfg;
use crate::drivers::virtio::transport::{
    lemma_status_bit_set, status_after_write, ComCfg, CommonCfgAccess, STATUS_ACKNOWLEDGE,
    STATUS_DRIVER, STATUS_DRIVER_OK, STATUS_FEATURES_OK,
};
use crate::drivers::virtio::virtqueue::{queue_ready, VirtQueue};
use crate::drivers::virtio::VIRTIO_F_IN_ORDER;
use crate::parse::{parse_unsigned, spec_parse_unsigned};

verus! {

/// Size of the virtio-net header that precedes each packet.
pub const HDR_SIZE: u32 = 12;

/// The MTU a virtio-net device is driven with: the device's, if
/// VIRTIO_NET_F_MTU was negotiated, the configured one otherwise.
pub fn determine_mtu(feature_mtu: bool, device_mtu: u16, configured_mtu: u16) -> (r: u16)
    ensures
        r == (if feature_mtu {
            device_mtu
        } else {
            configured_mtu
        }),
{
    if feature_mtu {
        device_mtu
    } else {
        configured_mtu
    }
}

/// The size of the receive buffers (Virtio specification v1.1 - 5.1.6.3.1):
/// the size configured by `HERMIT_MRG_RXBUF_SIZE` when mergeable receive
/// buffers are negotiated and the variable is set; otherwise at least the
/// MTU, and at least what a packet of 65562 bytes (with large receive
/// offloads) or 1526 bytes needs besides the header.
pub fn determine_rx_buf_size(
    mtu: u16,
    mrg_rxbuf: bool,
    mrg_rxbuf_size: Option<&str>,
    guest_tso4: bool,
    guest_tso6: bool,
    guest_ufo: bool,
) -> (r: u32)
    requires
        mrg_rxbuf && mrg_rxbuf_size is Some ==> (spec_parse_unsigned(
            mrg_rxbuf_size->Some_0@,
            u32::MAX as int,
        ) matches Some(v) && v > 0),
    ensures
        mrg_rxbuf && mrg_rxbuf_size is Some ==> Some(r as int) == spec_parse_unsigned(
            mrg_rxbuf_size->Some_0@,
            u32::MAX as int,
        ),
        !(mrg_rxbuf && mrg_rxbuf_size is Some) ==> r == (if guest_tso4 || guest_tso6
            || guest_ufo {
            if mtu >= 65562 - HDR_SIZE {
                mtu as u32
            } else {
                (65562 - HDR_SIZE) as u32
            }
        } else {
            if mtu >= 1526 - HDR_SIZE {
                mtu as u32
            } else {
                (1526 - HDR_SIZE) as u32
            }
        }),
{
    let mut min_buf_size: u32 = mtu as u32;
    if mrg_rxbuf && mrg_rxbuf_size.is_some() {
        let s = match mrg_rxbuf_size {
            Some(s) => s,
            None => {
                return min_buf_size;
            },
        };
        match parse_unsigned(s, 0xffff_ffff) {
            Some(v) => {
                min_buf_size = v as u32;
            },
            None => {
                proof {
                    assert(false);
                }
            },
        }
    } else {
        if guest_tso4 || guest_tso6 || guest_ufo {
            let floor = 65562 - HDR_SIZE;
            min_buf_size = if min_buf_size >= floor {
                min_buf_size
            } else {
                floor
            };
        } else {
            let floor = 1526 - HDR_SIZE;
            min_buf_size = if min_buf_size >= floor {
                min_buf_size
            } else {
                floor
            };
        }
    }
    min_buf_size
}

/// Which checksum the driver asks the device to compute.
#[derive(Clone, Copy, Debug, PartialEq, Eq)]
pub enum EtherType {
    Ipv4,
    Ipv6,
    Other,
}

/// IP protocol number of TCP.
pub const IP_PROTOCOL_TCP: u8 = 6;
/// IP protocol number of UDP.
pub const IP_PROTOCOL_UDP: u8 = 17;

/// Whether the device is asked to compute a checksum of an outgoing frame,
/// and where: for a TCP or UDP packet inside IPv4 or IPv6 whose checksum is
/// not computed by the stack (`tcp_tx`, `udp_tx`), the IP header length and
/// the checksum's offset in the transport header; `None` otherwise.
pub fn checksum_request(
    tcp_tx: bool,
    udp_tx: bool,
    ethertype: EtherType,
    ip_header_len: u16,
    protocol: u8,
) -> (r: Option<(u16, u16)>)
    ensures
        (tcp_tx && udp_tx) || ethertype == EtherType::Other ==> r is None,
        !(tcp_tx && udp_tx) && ethertype != EtherType::Other ==> r == (if protocol
            == IP_PROTOCOL_TCP && !tcp_tx {
            Some((ip_header_len, 16u16))
        } else if protocol == IP_PROTOCOL_UDP && !udp_tx {
            Some((ip_header_len, 6u16))
        } else {
            None
        }),
{
    if tcp_tx && udp_tx {
        return None;
    }
    match ethertype {
        EtherType::Other => return None,
        _ => {},
    }
    if protocol == IP_PROTOCOL_TCP && !tcp_tx {
        Some((ip_header_len, 16))
    } else if protocol == IP_PROTOCOL_UDP && !udp_tx {
        Some((ip_header_len, 6))
    } else {
        None
    }
}

/// Header flag: the device is to complete the packet's checksum.
pub const HDR_F_NEEDS_CSUM: u8 = 1;
/// Length of an Ethernet header.
pub const ETHERNET_HEADER_LEN: u16 = 14;

/// The virtio-net header sent before an outgoing frame, as its bytes (all
/// fields little-endian): where `request` asks for a checksum (the IP
/// header's length and the checksum's offset in the transport header, see
/// `checksum_request`), the header flags NEEDS_CSUM and says where the
/// checksummed part starts (after the Ethernet and IP headers) and where
/// in it the checksum goes; every other field is zero.
pub fn tx_header(request: Option<(u16, u16)>) -> (r: Vec<u8>)
    requires
        request matches Some((ip_header_len, _)) ==> ETHERNET_HEADER_LEN + ip_header_len
            <= u16::MAX,
    ensures
        r@.len() == HDR_SIZE,
        forall|i: int| 1 <= i < 6 || 10 <= i < 12 ==> #[trigger] r@[i] == 0,
        request is None ==> r@ == seq![0u8, 0, 0, 0, 0, 0, 0, 0, 0, 0, 0, 0],
        request matches Some((ip_header_len, csum_offset)) ==> {
            &&& r@[0] == HDR_F_NEEDS_CSUM
            &&& r@[6] + r@[7] * 256 == ETHERNET_HEADER_LEN + ip_header_len
            &&& r@[8] + r@[9] * 256 == csum_offset
        },
{
    let (flags, csum_start, csum_offset): (u8, u16, u16) = match request {
        Some((ip_header_len, csum_offset)) => (
            HDR_F_NEEDS_CSUM,
            ETHERNET_HEADER_LEN + ip_header_len,
            csum_offset,
        ),
        None => (0, 0, 0),
    };
    let r: Vec<u8> = vec![
        flags,
        0,
        0,
        0,
        0,
        0,
        (csum_start % 256) as u8,
        (csum_start / 256) as u8,
        (csum_offset % 256) as u8,
        (csum_offset / 256) as u8,
        0,
        0,
    ];
    r
}

/// Feature bit: the device computes checksums of outgoing packets.
pub const F_CSUM: u128 = 1 << 0;
/// Feature bit: the driver accepts partially checksummed incoming packets.
pub const F_GUEST_CSUM: u128 = 1 << 1;
/// Feature bit: the device reports its MTU.
pub const F_MTU: u128 = 1 << 3;
/// Feature bit: the device reports its MAC address.
pub const F_MAC: u128 = 1 << 5;
/// Feature bit: the driver can merge receive buffers.
pub const F_MRG_RXBUF: u128 = 1 << 15;
/// Feature bit: the device reports its link status.
pub const F_STATUS: u128 = 1 << 16;
/// Feature bit: the device has a control queue.
pub const F_CTRL_VQ: u128 = 1 << 17;
/// Feature bit: the device has several queue pairs.
pub const F_MQ: u128 = 1 << 22;
/// Feature bit: indirect descriptors can be used.
pub const F_INDIRECT_DESC: u128 = 1 << 28;
/// Feature bit: the device follows version 1 of the specification.
pub const F_VERSION_1: u128 = 1 << 32;
/// Feature bit: packed virtqueues can be used.
pub const F_RING_PACKED: u128 = 1 << 34;
/// Feature bit: notifications carry data.
pub const F_NOTIFICATION_DATA: u128 = 1 << 38;

/// The features the driver cannot do without.
pub const MINIMAL_FEATURES: u128 = F_VERSION_1 | F_MAC;

/// The features the driver offers.
pub const DRIVER_FEATURES: u128 = F_VERSION_1 | F_MAC | F_INDIRECT_DESC | F_RING_PACKED
    | F_NOTIFICATION_DATA | F_MTU | F_MRG_RXBUF | F_STATUS | F_CTRL_VQ | F_MQ | F_CSUM
    | F_GUEST_CSUM;

/// The features the device and the driver agree on, given what the device
/// offers: those both offer. Fails with [`VirtioNetError::FailFeatureNeg`]
/// for the device `dev_id` where they do not include the minimal features.
pub fn negotiate_features(device_features: u128, dev_id: u16) -> (r: Result<u128, VirtioNetError>)
    ensures
        (device_features & DRIVER_FEATURES) & MINIMAL_FEATURES == MINIMAL_FEATURES ==> r
            == Ok::<u128, VirtioNetError>(device_features & DRIVER_FEATURES),
        (device_features & DRIVER_FEATURES) & MINIMAL_FEATURES != MINIMAL_FEATURES ==> r
            == Err::<u128, VirtioNetError>(VirtioNetError::FailFeatureNeg(dev_id)),
{
    let negotiated = device_features & DRIVER_FEATURES;
    if negotiated & MINIMAL_FEATURES != MINIMAL_FEATURES {
        return Err(VirtioNetError::FailFeatureNeg(dev_id));
    }
    Ok(negotiated)
}

/// Who computes and verifies checksums, from the network stack's side.
#[derive(Clone, Copy, Debug, PartialEq, Eq)]
pub enum Checksum {
    /// The stack computes them on sending and verifies them on receiving.
    Both,
    /// The stack computes them only on sending.
    Tx,
    /// The stack verifies them only on receiving.
    Rx,
    /// The stack does neither and leaves both to the device.
    Neither,
}

impl Checksum {
    /// Whether the stack verifies checksums of incoming packets.
    pub open spec fn spec_rx(self) -> bool {
        self == Checksum::Both || self == Checksum::Rx
    }

    /// Whether the stack verifies checksums of incoming packets.
    #[verifier::when_used_as_spec(spec_rx)]
    pub fn rx(self) -> (r: bool)
        ensures
            r == self.spec_rx(),
    {
        match self {
            Checksum::Both | Checksum::Rx => true,
            _ => false,
        }
    }

    /// Whether the stack computes checksums of outgoing packets.
    pub open spec fn spec_tx(self) -> bool {
        self == Checksum::Both || self == Checksum::Tx
    }

    /// Whether the stack computes checksums of outgoing packets.
    #[verifier::when_used_as_spec(spec_tx)]
    pub fn tx(self) -> (r: bool)
        ensures
            r == self.spec_tx(),
    {
        match self {
            Checksum::Both | Checksum::Tx => true,
            _ => false,
        }
    }
}

/// The checksum handling of TCP and UDP once `features` are negotiated:
/// with both offloads nothing is left to the stack; with the device
/// computing outgoing checksums the stack verifies incoming ones; with
/// partially checksummed input accepted the stack computes outgoing ones;
/// without either it does both.
pub fn offload_checksums(features: u128) -> (r: Checksum)
    ensures
        r == (if features & F_CSUM != 0 && features & F_GUEST_CSUM != 0 {
            Checksum::Neither
        } else if features & F_CSUM != 0 {
            Checksum::Rx
        } else if features & F_GUEST_CSUM != 0 {
            Checksum::Tx
        } else {
            Checksum::Both
        }),
{
    if features & F_CSUM != 0 && features & F_GUEST_CSUM != 0 {
        Checksum::Neither
    } else if features & F_CSUM != 0 {
        Checksum::Rx
    } else if features & F_GUEST_CSUM != 0 {
        Checksum::Tx
    } else {
        Checksum::Both
    }
}

/// The most virtqueues the driver sets up.
pub const MAX_NUM_VQ: u16 = 2;

/// The number of virtqueues to set up: two per queue pair the device offers
/// with multiqueue, at most [`MAX_NUM_VQ`], and one pair without.
pub fn num_virtqueues(feature_mq: bool, max_virtqueue_pairs: u16) -> (r: u16)
    requires
        feature_mq ==> max_virtqueue_pairs * 2 <= u16::MAX,
    ensures
        r == (if feature_mq {
            if max_virtqueue_pairs * 2 >= MAX_NUM_VQ {
                MAX_NUM_VQ as int
            } else {
                max_virtqueue_pairs * 2
            }
        } else {
            2
        }),
{
    if feature_mq {
        if max_virtqueue_pairs * 2 >= MAX_NUM_VQ {
            MAX_NUM_VQ
        } else {
            max_virtqueue_pairs * 2
        }
    } else {
        2
    }
}

/// What checking a TCP or UDP packet gave: `None` where it is too short to
/// be one, whether its checksum is right otherwise.
#[derive(Clone, Copy, Debug, PartialEq, Eq)]
pub enum TransportCheck {
    Tcp(Option<bool>),
    Udp(Option<bool>),
    Other,
}

/// What checking an incoming Ethernet frame gave.
#[derive(Clone, Copy, Debug, PartialEq, Eq)]
pub enum FrameCheck {
    /// Too short for an Ethernet frame.
    Malformed,
    /// An IPv4 packet: `None` where it is malformed, whether its header
    /// checksum is right otherwise; and what it carries.
    Ipv4 { header_checksum: Option<bool>, transport: TransportCheck },
    /// An IPv6 packet, `false` where it is malformed, and what it carries.
    Ipv6 { valid: bool, transport: TransportCheck },
    /// An ARP packet, which has no checksum.
    Arp,
    /// A protocol the driver leaves to the stack.
    Unknown,
}

/// Whether the transport packet may go to the stack: where the stack
/// verifies the protocol's checksums itself, or the packet is well formed
/// with a right checksum, or the protocol has none the driver checks.
pub open spec fn spec_transport_passable(t: TransportCheck, tcp: Checksum, udp: Checksum) -> bool {
    match t {
        TransportCheck::Tcp(c) => tcp.spec_rx() || c == Some(true),
        TransportCheck::Udp(c) => udp.spec_rx() || c == Some(true),
        TransportCheck::Other => true,
    }
}

/// Whether an incoming frame may go to the stack. Where the stack verifies
/// TCP and UDP checksums itself, every frame may. Otherwise the driver only
/// passes frames it validated: a frame another guest on the same host sent
/// (`needs_csum`) or one without checksums; an IPv4 packet with a right
/// header checksum or one the device validated (`data_valid`), whose TCP or
/// UDP checksum is right; an IPv6 packet the device validated, or whose TCP
/// or UDP checksum is right.
pub open spec fn spec_frame_passable(
    tcp: Checksum,
    udp: Checksum,
    needs_csum: bool,
    data_valid: bool,
    frame: FrameCheck,
) -> bool {
    if tcp.spec_rx() && udp.spec_rx() {
        true
    } else {
        match frame {
            FrameCheck::Malformed => false,
            _ => if needs_csum {
                true
            } else {
                match frame {
                    FrameCheck::Ipv4 { header_checksum, transport } => header_checksum is Some && (
                    data_valid || header_checksum == Some(true)) && spec_transport_passable(
                        transport,
                        tcp,
                        udp,
                    ),
                    FrameCheck::Ipv6 { valid, transport } => valid && (data_valid
                        || spec_transport_passable(transport, tcp, udp)),
                    _ => true,
                }
            },
        }
    }
}

/// A transport packet whose checksum is wrong or could not be checked
/// reaches the stack only where the stack verifies that protocol's
/// checksums itself, the device marked the frame as one another guest on
/// the host sent (`needs_csum`), or, for IPv6, the device validated it; one
/// with a right checksum in a valid IPv4 or IPv6 packet always does.
pub proof fn lemma_checksums_decide_passing(
    tcp: Checksum,
    udp: Checksum,
    needs_csum: bool,
    data_valid: bool,
    frame: FrameCheck,
)
    ensures
        frame matches FrameCheck::Ipv4 { transport: TransportCheck::Udp(c), .. } && c != Some(true)
            && !udp.spec_rx() && !needs_csum ==> !spec_frame_passable(
            tcp,
            udp,
            needs_csum,
            data_valid,
            frame,
        ),
        frame matches FrameCheck::Ipv4 { transport: TransportCheck::Tcp(c), .. } && c != Some(true)
            && !tcp.spec_rx() && !needs_csum ==> !spec_frame_passable(
            tcp,
            udp,
            needs_csum,
            data_valid,
            frame,
        ),
        frame matches FrameCheck::Ipv6 { transport: TransportCheck::Udp(c), .. } && c != Some(true)
            && !udp.spec_rx() && !needs_csum && !data_valid ==> !spec_frame_passable(
            tcp,
            udp,
            needs_csum,
            data_valid,
            frame,
        ),
        frame matches FrameCheck::Ipv6 { transport: TransportCheck::Tcp(c), .. } && c != Some(true)
            && !tcp.spec_rx() && !needs_csum && !data_valid ==> !spec_frame_passable(
            tcp,
            udp,
            needs_csum,
            data_valid,
            frame,
        ),
        frame matches FrameCheck::Ipv4 { header_checksum: Some(true), transport: TransportCheck::Udp(
            Some(true),
        ) } ==> spec_frame_passable(tcp, udp, needs_csum, data_valid, frame),
        frame matches FrameCheck::Ipv4 { header_checksum: Some(true), transport: TransportCheck::Tcp(
            Some(true),
        ) } ==> spec_frame_passable(tcp, udp, needs_csum, data_valid, frame),
        frame matches FrameCheck::Ipv6 { valid: true, transport: TransportCheck::Udp(Some(true)) }
            ==> spec_frame_passable(tcp, udp, needs_csum, data_valid, frame),
        frame matches FrameCheck::Ipv6 { valid: true, transport: TransportCheck::Tcp(Some(true)) }
            ==> spec_frame_passable(tcp, udp, needs_csum, data_valid, frame),
{
}

fn transport_passable(t: TransportCheck, tcp: Checksum, udp: Checksum) -> (r: bool)
    ensures
        r == spec_transport_passable(t, tcp, udp),
{
    match t {
        TransportCheck::Tcp(c) => tcp.rx() || c == Some(true),
        TransportCheck::Udp(c) => udp.rx() || c == Some(true),
        TransportCheck::Other => true,
    }
}

/// Whether an incoming frame may go to the stack, as [`spec_frame_passable`] says.
pub fn is_ethernet_frame_passable(
    tcp: Checksum,
    udp: Checksum,
    needs_csum: bool,
    data_valid: bool,
    frame: FrameCheck,
) -> (r: bool)
    ensures
        r == spec_frame_passable(tcp, udp, needs_csum, data_valid, frame),
{
    if tcp.rx() && udp.rx() {
        return true;
    }
    match frame {
        FrameCheck::Malformed => false,
        FrameCheck::Ipv4 { header_checksum, transport } => {
            if needs_csum {
                return true;
            }
            match header_checksum {
                None => false,
                Some(ok) => (data_valid || ok) && transport_passable(transport, tcp, udp),
            }
        },
        FrameCheck::Ipv6 { valid, transport } => {
            if needs_csum {
                return true;
            }
            valid && (data_valid || transport_passable(transport, tcp, udp))
        },
        FrameCheck::Arp | FrameCheck::Unknown => true,
    }
}

/// The number of buffers an incoming frame spans: as the header says with
/// mergeable receive buffers, one without, whatever the header says.
pub fn rx_buffer_count(mrg_rxbuf: bool, hdr_num_buffers: u16) -> (r: u16)
    ensures
        r == (if mrg_rxbuf {
            hdr_num_buffers
        } else {
            1
        }),
{
    if mrg_rxbuf {
        hdr_num_buffers
    } else {
        1
    }
}

/// The `num_buffers` field of a received virtio-net header, little-endian
/// at its end; `None` where the buffer is shorter than a header.
pub fn header_num_buffers(packet: &[u8]) -> (r: Option<u16>)
    ensures
        r is None <==> packet@.len() < HDR_SIZE,
        r matches Some(n) ==> n == packet@[10] + packet@[11] * 256,
{
    if packet.len() < 12 {
        return None;
    }
    let lo = packet[10] as u16;
    let hi = packet[11] as u16;
    Some(lo + hi * 256)
}

/// The frame that received buffers hold: what follows the header in the
/// first buffer, then the further buffers in order.
pub fn assemble_frame(first: &[u8], rest: &Vec<Vec<u8>>) -> (r: Vec<u8>)
    requires
        first@.len() >= HDR_SIZE,
    ensures
        r@ == first@.skip(HDR_SIZE as int) + concat(chunk_views(rest@)),
{
    let mut frame: Vec<u8> = Vec::new();
    let mut i: usize = 12;
    while i < first.len()
        invariant
            12 <= i <= first@.len(),
            frame@ == first@.subrange(12, i as int),
        decreases first@.len() - i,
    {
        frame.push(first[i]);
        i = i + 1;
        assert(frame@ =~= first@.subrange(12, i as int));
    }
    assert(frame@ =~= first@.skip(12) + concat(chunk_views(rest@.take(0)))) by {
        assert(chunk_views(rest@.take(0)) =~= Seq::<Seq<u8>>::empty());
    }
    let mut k: usize = 0;
    while k < rest.len()
        invariant
            0 <= k <= rest@.len(),
            frame@ == first@.skip(12) + concat(chunk_views(rest@.take(k as int))),
        decreases rest@.len() - k,
    {
        let chunk = &rest[k];
        let ghost before = frame@;
        let mut j: usize = 0;
        while j < chunk.len()
            invariant
                0 <= j <= chunk@.len(),
                frame@ == before + chunk@.subrange(0, j as int),
            decreases chunk@.len() - j,
        {
            frame.push(chunk[j]);
            j = j + 1;
            assert(frame@ =~= before + chunk@.subrange(0, j as int));
        }
        proof {
            let cv = chunk_views(rest@.take(k + 1));
            assert(cv.drop_last() =~= chunk_views(rest@.take(k as int)));
            assert(cv.last() == chunk@);
            assert(chunk@.subrange(0, j as int) =~= chunk@);
            assert(frame@ =~= first@.skip(12) + concat(cv));
        }
        k = k + 1;
    }
    assert(rest@.take(rest@.len() as int) =~= rest@);
    frame
}

/// Descriptors a frame takes in a send queue: its header and its data.
pub const BUFF_PER_PACKET: u16 = 2;

/// The free descriptors of the send queues, which bound how many frames can
/// be handed to the device before it returns buffers.
pub struct SendCapacity {
    free: u32,
}

impl SendCapacity {
    pub closed spec fn spec_free(&self) -> u32 {
        self.free
    }

    /// The capacity of send queues with `descriptors` descriptors in all.
    pub fn new(descriptors: u32) -> (r: SendCapacity)
        ensures
            r.spec_free() == descriptors,
    {
        SendCapacity { free: descriptors }
    }

    /// Reserves the descriptors of one frame for a send token, where that
    /// many are free.
    pub fn reserve(&mut self) -> (r: bool)
        ensures
            r == (old(self).spec_free() >= BUFF_PER_PACKET),
            final(self).spec_free() == old(self).spec_free() - (if r {
                BUFF_PER_PACKET as int
            } else {
                0
            }),
    {
        if self.free >= BUFF_PER_PACKET as u32 {
            self.free = self.free - BUFF_PER_PACKET as u32;
            true
        } else {
            false
        }
    }

    /// Gives back the descriptors of a send token that was not used.
    pub fn give_back(&mut self)
        requires
            old(self).spec_free() + BUFF_PER_PACKET <= u32::MAX,
        ensures
            final(self).spec_free() == old(self).spec_free() + BUFF_PER_PACKET,
    {
        self.free = self.free + BUFF_PER_PACKET as u32;
    }

    /// Frees the descriptors of `released` frames the device sent.
    pub fn add_released(&mut self, released: u32)
        requires
            old(self).spec_free() + released * BUFF_PER_PACKET <= u32::MAX,
        ensures
            final(self).spec_free() == old(self).spec_free() + released * BUFF_PER_PACKET,
    {
        self.free = self.free + released * BUFF_PER_PACKET as u32;
    }

    /// How many frames can be sent at once.
    pub fn max_burst_size(&self) -> (r: usize)
        ensures
            r == self.spec_free() / (BUFF_PER_PACKET as u32),
    {
        (self.free / BUFF_PER_PACKET as u32) as usize
    }
}

/// Giving back a reserved send token's descriptors restores the capacity.
pub proof fn lemma_reserve_give_back(free: u32)
    requires
        free >= BUFF_PER_PACKET,
    ensures
        (free - BUFF_PER_PACKET) + BUFF_PER_PACKET == free,
        (free - BUFF_PER_PACKET) + BUFF_PER_PACKET <= u32::MAX,
{
}

/// The driver never asks for in-order use.
proof fn lemma_no_in_order(device_features: u128)
    ensures
        (device_features & DRIVER_FEATURES) & VIRTIO_F_IN_ORDER == 0,
{
    assert((device_features & DRIVER_FEATURES) & VIRTIO_F_IN_ORDER == 0) by (bit_vector);
}

/// The device status once the driver reset the device, acknowledged it
/// and said it can drive it, for a device that refuses features as
/// `rejects` says.
pub open spec fn status_after_start(rejects: bool) -> u8 {
    status_after_write(
        rejects,
        status_after_write(
            rejects,
            status_after_write(rejects, 0) | STATUS_ACKNOWLEDGE,
        ) | STATUS_DRIVER,
    )
}

/// What bringing up a network device gives.
pub struct NetInit<T> {
    /// The negotiated features.
    pub features: u128,
    /// Who handles TCP and UDP checksums.
    pub checksums: Checksum,
    /// The number of virtqueues.
    pub num_vqs: u16,
    /// The receive queues, at even indices.
    pub recv_vqs: Vec<VirtQueue<T>>,
    /// The send queues, at odd indices.
    pub send_vqs: Vec<VirtQueue<T>>,
    /// The descriptors the send queues have room for.
    pub send_capacity: u32,
}

/// Brings up a network device that offers, with multiqueue,
/// `max_virtqueue_pairs` queue pairs: resets it, acknowledges it, says the
/// driver can drive it, reads the features the device offers and writes
/// back those the driver accepts too, has the device accept them, sets up the queue pair (notifications wanted on
/// receiving, not on sending; the send capacity grows by the send queue's
/// size) and sets DRIVER_OK. Fails with `FailFeatureNeg` where the
/// negotiated features lack the minimal ones or the device refuses them.
pub fn init_net<R: CommonCfgAccess, T>(
    com_cfg: &mut ComCfg<R>,
    notif_cfg: &NotifCfg,
    dev_id: u16,
    max_virtqueue_pairs: u16,
    queue_size: u16,
) -> (r: Result<NetInit<T>, VirtioNetError>)
    requires
        0 < queue_size <= 0x8000,
        (old(com_cfg).device_features() & DRIVER_FEATURES) & F_MQ != 0 ==> max_virtqueue_pairs * 2 <= u16::MAX,
        queue_ready(*old(com_cfg), *notif_cfg, 0),
        queue_ready(*old(com_cfg), *notif_cfg, 1),
    ensures
        r is Err <==> (old(com_cfg).device_features() & DRIVER_FEATURES) & MINIMAL_FEATURES != MINIMAL_FEATURES
            || old(com_cfg).rejects_features(),
        r matches Err(e) ==> e == VirtioNetError::FailFeatureNeg(dev_id),
        final(com_cfg).rejects_features() == old(com_cfg).rejects_features(),
        final(com_cfg).device_features() == old(com_cfg).device_features(),
        final(com_cfg).driver_features() == old(com_cfg).device_features() & DRIVER_FEATURES,
        r matches Ok(init) ==> {
            let negotiated = old(com_cfg).device_features() & DRIVER_FEATURES;
            let num_vqs = if negotiated & F_MQ != 0 {
                if max_virtqueue_pairs * 2 >= MAX_NUM_VQ {
                    MAX_NUM_VQ as int
                } else {
                    max_virtqueue_pairs * 2
                }
            } else {
                2
            };
            &&& init.features == negotiated
            &&& init.checksums == (if negotiated & F_CSUM != 0 && negotiated & F_GUEST_CSUM != 0 {
                Checksum::Neither
            } else if negotiated & F_CSUM != 0 {
                Checksum::Rx
            } else if negotiated & F_GUEST_CSUM != 0 {
                Checksum::Tx
            } else {
                Checksum::Both
            })
            &&& final(com_cfg).status() & STATUS_DRIVER_OK == STATUS_DRIVER_OK
            &&& init.num_vqs == num_vqs
            &&& init.recv_vqs@.len() == num_vqs / 2
            &&& init.send_vqs@.len() == num_vqs / 2
            &&& forall|k: int|
                0 <= k < init.recv_vqs@.len() ==> {
                    &&& (#[trigger] init.recv_vqs@[k]).notifs_enabled()
                    &&& init.recv_vqs@[k].spec_index() == 2 * k
                    &&& (init.recv_vqs@[k] is Packed <==> negotiated & F_RING_PACKED != 0)
                }
            &&& forall|k: int|
                0 <= k < init.send_vqs@.len() ==> {
                    &&& !(#[trigger] init.send_vqs@[k]).notifs_enabled()
                    &&& init.send_vqs@[k].spec_index() == 2 * k + 1
                    &&& (init.send_vqs@[k] is Packed <==> negotiated & F_RING_PACKED != 0)
                }
            &&& init.send_capacity == (if num_vqs >= 2 {
                init.send_vqs@[0].spec_size() as int
            } else {
                0
            })
        },
{
    let ghost rejects = com_cfg.rejects_features();
    com_cfg.reset_dev();
    com_cfg.ack_dev();
    com_cfg.set_drv();
    assert(com_cfg.status() == status_after_start(rejects));
    let device_features = com_cfg.dev_features();
    let negotiated = device_features & DRIVER_FEATURES;
    com_cfg.set_drv_features(negotiated);
    if negotiated & MINIMAL_FEATURES != MINIMAL_FEATURES {
        return Err(VirtioNetError::FailFeatureNeg(dev_id));
    }
    let ghost s3 = com_cfg.status();
    com_cfg.features_ok();
    proof {
        lemma_status_bit_set(s3, STATUS_FEATURES_OK);
        lemma_status_bit_set(s3 | STATUS_FEATURES_OK, STATUS_FEATURES_OK);
    }
    if !com_cfg.check_features() {
        return Err(VirtioNetError::FailFeatureNeg(dev_id));
    }
    assert(!rejects);
    let num_vqs = num_virtqueues(negotiated & F_MQ != 0, max_virtqueue_pairs);
    let packed = negotiated & F_RING_PACKED != 0;
    proof {
        lemma_no_in_order(device_features);
    }
    let mut recv_vqs: Vec<VirtQueue<T>> = Vec::new();
    let mut send_vqs: Vec<VirtQueue<T>> = Vec::new();
    let mut send_capacity: u32 = 0;
    if num_vqs >= 2 {
        let mut rx = match VirtQueue::new(packed, com_cfg, notif_cfg, queue_size, 0, negotiated) {
            Ok(vq) => vq,
            Err(_) => {
                proof {
                    assert(false);
                }
                return Err(VirtioNetError::FailFeatureNeg(dev_id));
            },
        };
        rx.enable_notifs();
        recv_vqs.push(rx);
        let mut tx = match VirtQueue::new(packed, com_cfg, notif_cfg, queue_size, 1, negotiated) {
            Ok(vq) => vq,
            Err(_) => {
                proof {
                    assert(false);
                }
                return Err(VirtioNetError::FailFeatureNeg(dev_id));
            },
        };
        tx.disable_notifs();
        send_capacity = tx.size() as u32;
        send_vqs.push(tx);
    }
    let ghost s5 = com_cfg.status();
    com_cfg.drv_ok();
    proof {
        lemma_status_bit_set(s5, STATUS_DRIVER_OK);
    }
    let checksums = offload_checksums(negotiated);
    Ok(NetInit { features: negotiated, checksums, num_vqs, recv_vqs, send_vqs, send_capacity })
}

} // verus!
