use vstd::prelude::*;

verus! {

/// Virtio's network device configuration structure as the memory-mapped
/// transport presents it, with the configuration generation counter
/// (Virtio specification v1.1 - 2.4.1 and 5.1.4).
#[derive(Clone, Copy, Debug, PartialEq, Eq)]
pub struct NetDevCfgRaw {
    pub config_generation: u32,
    /// Mac address, only valid if VIRTIO_NET_F_MAC is set.
    pub mac: [u8; 6],
    /// Status of the device, only valid if VIRTIO_NET_F_STATUS is set.
    pub status: u16,
    /// Number of allowed virtqueue pairs, only valid if VIRTIO_NET_F_MQ is set.
    pub max_virtqueue_pairs: u16,
    /// Maximum MTU the driver should use, only valid if VIRTIO_NET_F_MTU is set.
    pub mtu: u16,
}

/// Whether a field read between two reads of the configuration generation
/// counter, which gave `before` and `after`, is consistent: the device did
/// not change the configuration in between. Otherwise the read is repeated.
pub fn read_is_consistent(before: u32, after: u32) -> (r: bool)
    ensures
        r == (before == after),
{
    before == after
}

} // verus!
