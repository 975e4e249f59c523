//! The virtio console device as a serial port.

use vstd::prelude::*;
use virtio_spec::FeatureBits;

use crate::drivers::net::virtio::status_after_start;
use crate::drivers::virtio::transport::pci::NotifCfg;
use crate::drivers::virtio::transport::{
    lemma_status_bit_set, ComCfg, CommonCfgAccess, STATUS_DRIVER_OK, STATUS_FEATURES_OK,
};
use crate::drivers::virtio::virtqueue::{queue_ready, VirtQueue};

verus! {

/// The serial port that the virtio console device provides. Reading and
/// writing go to the device's driver, where there is one.
#[derive(Clone, Copy, Debug, PartialEq, Eq)]
pub struct VirtioUART;

impl VirtioUART {
    /// The serial port.
    pub fn new() -> (r: VirtioUART)
        ensures
            r == VirtioUART,
    {
        VirtioUART
    }
}

/// Errors of the virtio console driver.
#[derive(Clone, Copy, Debug, PartialEq, Eq)]
pub enum VirtioConsoleError {
    /// The device with this id has a missing or malformed device config.
    NoDevCfg(u16),
    /// The device with this id did not acknowledge the negotiated features.
    FailFeatureNeg(u16),
    /// These features do not meet the requirements the specification sets
    /// between features.
    FeatureRequirementsNotMet(u128),
    /// The features the driver wants (first) are not all among those the
    /// device offers (second).
    IncompatibleFeatureSets(u128, u128),
}

/// Feature bit: the device complies with Virtio 1.0 or later.
pub const CONSOLE_F_VERSION_1: u128 = 1 << 32;

/// Whether a console device offering `features` meets the requirements the
/// virtio specification sets between console features, as
/// `virtio_spec::FeatureBits::requirements_satisfied` on
/// `virtio_spec::console::F` decides. virtio-spec sets no such requirement
/// for the console's features: that method is the trait's provided one,
/// which returns `true` whatever the bits.
#[verifier::external_body]
fn console_requirements_satisfied(features: u128) -> (r: bool)
    ensures
        r,
{
    virtio_spec::console::F::from_bits_retain(virtio_spec::le128::from_ne(features))
        .requirements_satisfied()
}

/// What bringing up a console device gives.
pub struct ConsoleInit<T> {
    /// The negotiated features.
    pub features: u128,
    /// The receive queue, index 0.
    pub recv_vq: VirtQueue<T>,
    /// The send queue, index 1.
    pub send_vq: VirtQueue<T>,
}

/// Brings up the console device `dev_id`: resets it, acknowledges it, says
/// the driver can drive it, reads the features the device offers, checks
/// them against the specification's requirements and writes back VERSION_1
/// where the device offers it, has the device accept that, sets up the
/// receive and send queues as split queues (notifications wanted on
/// receiving, not on sending) and sets DRIVER_OK. Fails with
/// `IncompatibleFeatureSets` where the device does not offer VERSION_1, and
/// with `FailFeatureNeg` where it refuses it.
pub fn init_console<R: CommonCfgAccess, T>(
    com_cfg: &mut ComCfg<R>,
    notif_cfg: &NotifCfg,
    dev_id: u16,
    queue_size: u16,
) -> (r: Result<ConsoleInit<T>, VirtioConsoleError>)
    requires
        0 < queue_size <= 0x8000,
        queue_ready(*old(com_cfg), *notif_cfg, 0),
        queue_ready(*old(com_cfg), *notif_cfg, 1),
    ensures
        r is Err <==> old(com_cfg).device_features() & CONSOLE_F_VERSION_1 != CONSOLE_F_VERSION_1
            || old(com_cfg).rejects_features(),
        r matches Err(e) ==> e == (if old(com_cfg).device_features() & CONSOLE_F_VERSION_1
            != CONSOLE_F_VERSION_1 {
            VirtioConsoleError::IncompatibleFeatureSets(
                CONSOLE_F_VERSION_1,
                old(com_cfg).device_features(),
            )
        } else {
            VirtioConsoleError::FailFeatureNeg(dev_id)
        }),
        final(com_cfg).rejects_features() == old(com_cfg).rejects_features(),
        final(com_cfg).device_features() == old(com_cfg).device_features(),
        final(com_cfg).driver_features() == (if old(com_cfg).device_features()
            & CONSOLE_F_VERSION_1 == CONSOLE_F_VERSION_1 {
            CONSOLE_F_VERSION_1
        } else {
            old(com_cfg).driver_features()
        }),
        r matches Ok(init) ==> {
            &&& init.features == CONSOLE_F_VERSION_1
            &&& final(com_cfg).status() & STATUS_DRIVER_OK == STATUS_DRIVER_OK
            &&& init.recv_vq is Split && init.recv_vq.spec_index() == 0
                && init.recv_vq.notifs_enabled()
            &&& init.send_vq is Split && init.send_vq.spec_index() == 1
                && !init.send_vq.notifs_enabled()
        },
{
    let ghost rejects = com_cfg.rejects_features();
    com_cfg.reset_dev();
    com_cfg.ack_dev();
    com_cfg.set_drv();
    assert(com_cfg.status() == status_after_start(rejects));
    let driver_features = CONSOLE_F_VERSION_1;
    let device_features = com_cfg.dev_features();
    if !console_requirements_satisfied(device_features) {
        return Err(VirtioConsoleError::FeatureRequirementsNotMet(device_features));
    }
    if device_features & driver_features != driver_features {
        return Err(VirtioConsoleError::IncompatibleFeatureSets(driver_features, device_features));
    }
    com_cfg.set_drv_features(driver_features);
    let ghost s3 = com_cfg.status();
    com_cfg.features_ok();
    proof {
        lemma_status_bit_set(s3, STATUS_FEATURES_OK);
        lemma_status_bit_set(s3 | STATUS_FEATURES_OK, STATUS_FEATURES_OK);
    }
    if !com_cfg.check_features() {
        return Err(VirtioConsoleError::FailFeatureNeg(dev_id));
    }
    let mut recv_vq = match VirtQueue::new(false, com_cfg, notif_cfg, queue_size, 0, driver_features) {
        Ok(vq) => vq,
        Err(_) => {
            proof {
                assert(false);
            }
            return Err(VirtioConsoleError::FailFeatureNeg(dev_id));
        },
    };
    recv_vq.enable_notifs();
    let mut send_vq = match VirtQueue::new(false, com_cfg, notif_cfg, queue_size, 1, driver_features) {
        Ok(vq) => vq,
        Err(_) => {
            proof {
                assert(false);
            }
            return Err(VirtioConsoleError::FailFeatureNeg(dev_id));
        },
    };
    send_vq.disable_notifs();
    let ghost s5 = com_cfg.status();
    com_cfg.drv_ok();
    proof {
        lemma_status_bit_set(s5, STATUS_DRIVER_OK);
    }
    Ok(ConsoleInit { features: driver_features, recv_vq, send_vq })
}

} // verus!
