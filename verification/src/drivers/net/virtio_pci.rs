use vstd::prelude::*;

verus! {

/// Virtio's network device configuration structure (Virtio specification
/// v1.1 - 5.1.4).
#[derive(Clone, Copy, Debug, PartialEq, Eq)]
pub struct NetDevCfgRaw {
    /// Mac address, only valid if VIRTIO_NET_F_MAC is set.
    pub mac: [u8; 6],
    /// Status of the device, only valid if VIRTIO_NET_F_STATUS is set.
    pub status: u16,
    /// Number of allowed virtqueue pairs, only valid if VIRTIO_NET_F_MQ is set.
    pub max_virtqueue_pairs: u16,
    /// Maximum MTU the driver should use, only valid if VIRTIO_NET_F_MTU is set.
    pub mtu: u16,
}

impl NetDevCfgRaw {
    pub fn get_mtu(&self) -> (r: u16)
        ensures
            r == self.mtu,
    {
        self.mtu
    }

    pub fn get_mac(&self) -> (r: [u8; 6])
        ensures
            r == self.mac,
    {
        self.mac
    }

    pub fn get_status(&self) -> (r: u16)
        ensures
            r == self.status,
    {
        self.status
    }

    pub fn get_max_virtqueue_pairs(&self) -> (r: u16)
        ensures
            r == self.max_virtqueue_pairs,
    {
        self.max_virtqueue_pairs
    }
}

} // verus!
