use vstd::prelude::*;

verus! {

/// Virtio's network device status, as the device's configuration structure
/// indicates it (Virtio specification v1.1 - 5.1.4).
#[allow(non_camel_case_types)]
#[derive(Clone, Copy, Debug, PartialEq, Eq)]
pub enum Status {
    VIRTIO_NET_S_LINK_UP,
    VIRTIO_NET_S_ANNOUNCE,
}

impl Status {
    /// The status bit.
    pub fn bits(self) -> (r: u16)
        ensures
            r == (match self {
                Status::VIRTIO_NET_S_LINK_UP => 1u16,
                Status::VIRTIO_NET_S_ANNOUNCE => 2u16,
            }),
    {
        match self {
            Status::VIRTIO_NET_S_LINK_UP => 1,
            Status::VIRTIO_NET_S_ANNOUNCE => 2,
        }
    }
}

/// Whether the link is up: as the device's status says if VIRTIO_NET_F_STATUS
/// was negotiated, assumed up otherwise.
pub fn is_link_up(feature_status: bool, status: u16) -> (r: bool)
    ensures
        r == (!feature_status || status & 1 != 0),
{
    if feature_status {
        status & Status::VIRTIO_NET_S_LINK_UP.bits() != 0
    } else {
        true
    }
}

/// Whether the device asks for an announcement: only known if
/// VIRTIO_NET_F_STATUS was negotiated.
pub fn is_announce(feature_status: bool, status: u16) -> (r: bool)
    ensures
        r == (feature_status && status & 2 != 0),
{
    if feature_status {
        status & Status::VIRTIO_NET_S_ANNOUNCE.bits() != 0
    } else {
        false
    }
}

/// The maximal number of virtqueue pairs: the device's if VIRTIO_NET_F_MQ
/// was negotiated, one otherwise.
pub fn get_max_vq_pairs(feature_mq: bool, max_virtqueue_pairs: u16) -> (r: u16)
    ensures
        r == (if feature_mq {
            max_virtqueue_pairs
        } else {
            1
        }),
{
    if feature_mq {
        max_virtqueue_pairs
    } else {
        1
    }
}

/// Errors of the virtio network driver; feature sets are given by their bits.
#[derive(Clone, Copy, Debug, PartialEq, Eq)]
pub enum VirtioNetError {
    NoDevCfg(u16),
    NoComCfg(u16),
    NoIsrCfg(u16),
    NoNotifCfg(u16),
    FailFeatureNeg(u16),
    /// The set of features does not adhere to the requirements of features
    /// indicated by the specification.
    FeatureRequirementsNotMet(u128),
    /// The feature bits wanted by the driver, incompatible with the device's,
    /// the second field.
    IncompatibleFeatureSets(u128, u128),
}

} // verus!
