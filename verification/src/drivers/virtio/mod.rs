//! Virtio infrastructure: the virtqueues' bookkeeping and the transports'
//! notification and capability arithmetic.

pub mod depr;
pub mod transport;
pub mod virtqueue;

use vstd::prelude::*;

use crate::drivers::console::VirtioConsoleError;
use crate::drivers::fs::VirtioFsInitError;
use crate::drivers::net::virtio_net::VirtioNetError;
use crate::drivers::pci::PciError;
use crate::drivers::vsock::VirtioVsockError;

verus! {

/// Feature bit: the driver can ask for notifications at specific ring
/// positions (VIRTIO_F_RING_EVENT_IDX).
pub const VIRTIO_F_RING_EVENT_IDX: u128 = 1 << 29;
/// Feature bit: the device uses buffers in the order they were made
/// available (VIRTIO_F_IN_ORDER).
pub const VIRTIO_F_IN_ORDER: u128 = 1 << 35;
/// Feature bit: notifications carry the next available position
/// (VIRTIO_F_NOTIFICATION_DATA).
pub const VIRTIO_F_NOTIFICATION_DATA: u128 = 1 << 38;

/// Why a virtio driver could not be brought up.
#[derive(Clone, Copy, Debug, PartialEq, Eq)]
pub enum VirtioError {
    FromPci(PciError),
    /// The device, with this id, has no usable common configuration.
    NoComCfg(u16),
    /// The device, with this id, has no usable ISR status configuration.
    NoIsrCfg(u16),
    /// The device, with this id, has no usable notification configuration.
    NoNotifCfg(u16),
    /// No driver supports the device with this id.
    DevNotSupported(u16),
    NetDriver(VirtioNetError),
    FsDriver(VirtioFsInitError),
    VsockDriver(VirtioVsockError),
    ConsoleDriver(VirtioConsoleError),
}

/// Word `i` of 128 feature bits, as the feature registers show them:
/// four 32-bit words, least significant first.
pub open spec fn feature_word(features: u128, i: u32) -> u32 {
    if i == 0 {
        features as u32
    } else if i == 1 {
        (features >> 32u128) as u32
    } else if i == 2 {
        (features >> 64u128) as u32
    } else {
        (features >> 96u128) as u32
    }
}

/// `features` with word `i` replaced by `word`.
pub open spec fn with_feature_word(features: u128, i: u32, word: u32) -> u128 {
    if i == 0 {
        (features & !0xFFFF_FFFFu128) | (word as u128)
    } else if i == 1 {
        (features & !(0xFFFF_FFFFu128 << 32u128)) | ((word as u128) << 32u128)
    } else if i == 2 {
        (features & !(0xFFFF_FFFFu128 << 64u128)) | ((word as u128) << 64u128)
    } else {
        (features & !(0xFFFF_FFFFu128 << 96u128)) | ((word as u128) << 96u128)
    }
}

/// The 128 feature bits that four words give, the first word least significant.
pub fn features_from_words(w0: u32, w1: u32, w2: u32, w3: u32) -> (r: u128)
    ensures
        feature_word(r, 0) == w0,
        feature_word(r, 1) == w1,
        feature_word(r, 2) == w2,
        feature_word(r, 3) == w3,
{
    let r: u128 = (w0 as u128) | ((w1 as u128) << 32u128) | ((w2 as u128) << 64u128) | ((
    w3 as u128) << 96u128);
    assert(r as u32 == w0 && (r >> 32u128) as u32 == w1 && (r >> 64u128) as u32 == w2 && (r
        >> 96u128) as u32 == w3) by (bit_vector)
        requires
            r == (w0 as u128) | ((w1 as u128) << 32u128) | ((w2 as u128) << 64u128) | ((
            w3 as u128) << 96u128),
    ;
    r
}

/// Feature bits are determined by their four words.
pub proof fn lemma_feature_words_determine(a: u128, b: u128)
    requires
        feature_word(a, 0) == feature_word(b, 0),
        feature_word(a, 1) == feature_word(b, 1),
        feature_word(a, 2) == feature_word(b, 2),
        feature_word(a, 3) == feature_word(b, 3),
    ensures
        a == b,
{
    assert(a == b) by (bit_vector)
        requires
            a as u32 == b as u32,
            (a >> 32u128) as u32 == (b >> 32u128) as u32,
            (a >> 64u128) as u32 == (b >> 64u128) as u32,
            (a >> 96u128) as u32 == (b >> 96u128) as u32,
    ;
}

/// Replacing a word changes that word and no other.
pub proof fn lemma_with_feature_word(features: u128, i: u32, word: u32, j: u32)
    requires
        i < 4,
        j < 4,
    ensures
        feature_word(with_feature_word(features, i, word), j) == (if i == j {
            word
        } else {
            feature_word(features, j)
        }),
{
    let f = features;
    let w = word;
    assert(((f & !0xFFFF_FFFFu128) | (w as u128)) as u32 == w
        && (((f & !0xFFFF_FFFFu128) | (w as u128)) >> 32u128) as u32 == (f >> 32u128) as u32
        && (((f & !0xFFFF_FFFFu128) | (w as u128)) >> 64u128) as u32 == (f >> 64u128) as u32
        && (((f & !0xFFFF_FFFFu128) | (w as u128)) >> 96u128) as u32 == (f >> 96u128) as u32)
        by (bit_vector);
    assert(((f & !(0xFFFF_FFFFu128 << 32u128)) | ((w as u128) << 32u128)) as u32 == f as u32
        && (((f & !(0xFFFF_FFFFu128 << 32u128)) | ((w as u128) << 32u128)) >> 32u128) as u32 == w
        && (((f & !(0xFFFF_FFFFu128 << 32u128)) | ((w as u128) << 32u128)) >> 64u128) as u32 == (f
        >> 64u128) as u32 && (((f & !(0xFFFF_FFFFu128 << 32u128)) | ((w as u128) << 32u128))
        >> 96u128) as u32 == (f >> 96u128) as u32) by (bit_vector);
    assert(((f & !(0xFFFF_FFFFu128 << 64u128)) | ((w as u128) << 64u128)) as u32 == f as u32
        && (((f & !(0xFFFF_FFFFu128 << 64u128)) | ((w as u128) << 64u128)) >> 32u128) as u32 == (f
        >> 32u128) as u32 && (((f & !(0xFFFF_FFFFu128 << 64u128)) | ((w as u128) << 64u128))
        >> 64u128) as u32 == w && (((f & !(0xFFFF_FFFFu128 << 64u128)) | ((w as u128)
        << 64u128)) >> 96u128) as u32 == (f >> 96u128) as u32) by (bit_vector);
    assert(((f & !(0xFFFF_FFFFu128 << 96u128)) | ((w as u128) << 96u128)) as u32 == f as u32
        && (((f & !(0xFFFF_FFFFu128 << 96u128)) | ((w as u128) << 96u128)) >> 32u128) as u32 == (f
        >> 32u128) as u32 && (((f & !(0xFFFF_FFFFu128 << 96u128)) | ((w as u128) << 96u128))
        >> 64u128) as u32 == (f >> 64u128) as u32 && (((f & !(0xFFFF_FFFFu128 << 96u128)) | ((
    w as u128) << 96u128)) >> 96u128) as u32 == w) by (bit_vector);
}

/// Access to the feature registers of a virtio device: the device offers
/// 128 feature bits, read one 32-bit word at a time, and the driver writes
/// back the bits it accepts in the same way.
pub trait ControlRegistersAccess: Sized {
    /// The feature bits the device offers.
    spec fn device_features_spec(&self) -> u128;

    /// The feature bits the driver wrote.
    spec fn driver_features_spec(&self) -> u128;

    /// Reads word `i` of the device's features.
    fn read_device_feature_word(&mut self, i: u32) -> (r: u32)
        requires
            i < 4,
        ensures
            r == feature_word(old(self).device_features_spec(), i),
            final(self).device_features_spec() == old(self).device_features_spec(),
            final(self).driver_features_spec() == old(self).driver_features_spec(),
    ;

    /// Writes word `i` of the driver's features.
    fn write_driver_feature_word(&mut self, i: u32, word: u32)
        requires
            i < 4,
        ensures
            final(self).device_features_spec() == old(self).device_features_spec(),
            final(self).driver_features_spec() == with_feature_word(
                old(self).driver_features_spec(),
                i,
                word,
            ),
    ;

    /// Reads all of the device's features.
    fn read_device_features(&mut self) -> (r: u128)
        ensures
            r == old(self).device_features_spec(),
            final(self).device_features_spec() == old(self).device_features_spec(),
            final(self).driver_features_spec() == old(self).driver_features_spec(),
    {
        let w0 = self.read_device_feature_word(0);
        let w1 = self.read_device_feature_word(1);
        let w2 = self.read_device_feature_word(2);
        let w3 = self.read_device_feature_word(3);
        let r = features_from_words(w0, w1, w2, w3);
        proof {
            lemma_feature_words_determine(r, old(self).device_features_spec());
        }
        r
    }

    /// Writes all of the driver's features.
    fn write_driver_features(&mut self, features: u128)
        ensures
            final(self).device_features_spec() == old(self).device_features_spec(),
            final(self).driver_features_spec() == features,
    {
        let ghost d0 = self.driver_features_spec();
        let w0 = features as u32;
        let w1 = (features >> 32u128) as u32;
        let w2 = (features >> 64u128) as u32;
        let w3 = (features >> 96u128) as u32;
        self.write_driver_feature_word(0, w0);
        self.write_driver_feature_word(1, w1);
        self.write_driver_feature_word(2, w2);
        self.write_driver_feature_word(3, w3);
        proof {
            let d1 = with_feature_word(d0, 0, w0);
            let d2 = with_feature_word(d1, 1, w1);
            let d3 = with_feature_word(d2, 2, w2);
            let d4 = with_feature_word(d3, 3, w3);
            assert forall|j: u32| j < 4 implies feature_word(d4, j) == feature_word(features, j) by {
                lemma_with_feature_word(d0, 0, w0, j);
                lemma_with_feature_word(d1, 1, w1, j);
                lemma_with_feature_word(d2, 2, w2, j);
                lemma_with_feature_word(d3, 3, w3, j);
            }
            assert(feature_word(d4, 0) == feature_word(features, 0));
            assert(feature_word(d4, 1) == feature_word(features, 1));
            assert(feature_word(d4, 2) == feature_word(features, 2));
            assert(feature_word(d4, 3) == feature_word(features, 3));
            lemma_feature_words_determine(d4, features);
        }
    }
}

/// Feature negotiation with a virtio device.
pub trait ControlRegisters: ControlRegistersAccess {
    /// Negotiates features: reads what the device offers, keeps what the
    /// driver offers too, writes that back and returns it.
    fn negotiate_features(&mut self, driver_features: u128) -> (r: u128)
        ensures
            r == old(self).device_features_spec() & driver_features,
            final(self).driver_features_spec() == r,
            final(self).device_features_spec() == old(self).device_features_spec(),
    ;
}

impl<T: ControlRegistersAccess> ControlRegisters for T {
    fn negotiate_features(&mut self, driver_features: u128) -> (r: u128) {
        let device_features = self.read_device_features();
        let common_features = device_features & driver_features;
        self.write_driver_features(common_features);
        common_features
    }
}

/// The feature registers of a device held in memory: what the device
/// offers and what the driver accepted.
#[derive(Clone, Copy, Debug, PartialEq, Eq)]
pub struct FeatureRegisters {
    pub device: u128,
    pub driver: u128,
}

impl ControlRegistersAccess for FeatureRegisters {
    open spec fn device_features_spec(&self) -> u128 {
        self.device
    }

    open spec fn driver_features_spec(&self) -> u128 {
        self.driver
    }

    fn read_device_feature_word(&mut self, i: u32) -> (r: u32) {
        if i == 0 {
            self.device as u32
        } else if i == 1 {
            (self.device >> 32u128) as u32
        } else if i == 2 {
            (self.device >> 64u128) as u32
        } else {
            (self.device >> 96u128) as u32
        }
    }

    fn write_driver_feature_word(&mut self, i: u32, word: u32) {
        if i == 0 {
            self.driver = (self.driver & !0xFFFF_FFFFu128) | (word as u128);
        } else if i == 1 {
            self.driver = (self.driver & !(0xFFFF_FFFFu128 << 32u128)) | ((word as u128) << 32u128);
        } else if i == 2 {
            self.driver = (self.driver & !(0xFFFF_FFFFu128 << 64u128)) | ((word as u128) << 64u128);
        } else {
            self.driver = (self.driver & !(0xFFFF_FFFFu128 << 96u128)) | ((word as u128) << 96u128);
        }
    }
}

/// The kinds of virtio devices, as far as the kernel tells them apart.
#[derive(Clone, Copy, Debug, PartialEq, Eq)]
pub enum DeviceId {
    Net,
    Block,
    Console,
    Rng,
    Balloon,
    Fs,
    Vsock,
    /// Any other device, with its id.
    Other(u16),
}

/// The kernel feature that drives a kind of device, for the kinds whose
/// drivers are optional features.
pub fn as_feature(id: DeviceId) -> (r: Option<&'static str>)
    ensures
        r == (match id {
            DeviceId::Net => Some("virtio-net"),
            DeviceId::Console => Some("virtio-console"),
            DeviceId::Fs => Some("virtio-fs"),
            DeviceId::Vsock => Some("virtio-vsock"),
            _ => None,
        }),
{
    match id {
        DeviceId::Net => Some("virtio-net"),
        DeviceId::Console => Some("virtio-console"),
        DeviceId::Fs => Some("virtio-fs"),
        DeviceId::Vsock => Some("virtio-vsock"),
        _ => None,
    }
}

/// The kind of device a virtio device id (Virtio specification v1.1 -
/// 5) names.
pub open spec fn device_kind(id: u16) -> DeviceId {
    if id == 1 {
        DeviceId::Net
    } else if id == 2 {
        DeviceId::Block
    } else if id == 3 {
        DeviceId::Console
    } else if id == 4 {
        DeviceId::Rng
    } else if id == 5 {
        DeviceId::Balloon
    } else if id == 0x13 {
        DeviceId::Vsock
    } else if id == 0x1a {
        DeviceId::Fs
    } else {
        DeviceId::Other(id)
    }
}

/// The kind of a virtio PCI device with PCI device id `device_id`: legacy
/// and transitional devices, below 0x1040, are not supported; the others
/// carry the virtio device id above 0x1040.
pub fn virtio_kind(device_id: u16) -> (r: Result<DeviceId, VirtioError>)
    requires
        device_id < 0x1140,
    ensures
        device_id < 0x1040 ==> r == Err::<DeviceId, VirtioError>(
            VirtioError::DevNotSupported(device_id),
        ),
        device_id >= 0x1040 ==> r == Ok::<DeviceId, VirtioError>(
            device_kind((device_id - 0x1040) as u16),
        ),
{
    if device_id < 0x1040 {
        return Err(VirtioError::DevNotSupported(device_id));
    }
    let id = device_id - 0x1040;
    let kind = if id == 1 {
        DeviceId::Net
    } else if id == 2 {
        DeviceId::Block
    } else if id == 3 {
        DeviceId::Console
    } else if id == 4 {
        DeviceId::Rng
    } else if id == 5 {
        DeviceId::Balloon
    } else if id == 0x13 {
        DeviceId::Vsock
    } else if id == 0x1a {
        DeviceId::Fs
    } else {
        DeviceId::Other(id)
    };
    Ok(kind)
}

} // verus!
