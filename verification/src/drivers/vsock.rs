//! The virtio socket driver: its errors and device set-up.

use vstd::prelude::*;
use virtio_spec::FeatureBits;

use crate::drivers::net::virtio::status_after_start;
use crate::drivers::virtio::transport::pci::NotifCfg;
use crate::drivers::virtio::transport::{
    lemma_status_bit_set, ComCfg, CommonCfgAccess, STATUS_DRIVER_OK, STATUS_FEATURES_OK,
};
use crate::drivers::virtio::virtqueue::{queue_ready, VirtQueue};

verus! {

/// Errors of the virtio socket driver.
#[derive(Clone, Copy, Debug, PartialEq, Eq)]
pub enum VirtioVsockError {
    /// The device with this id has a missing or malformed device config.
    NoDevCfg(u16),
    /// The device with this id has a missing or malformed common config.
    NoComCfg(u16),
    /// The device with this id has a missing or malformed ISR status config.
    NoIsrCfg(u16),
    /// The device with this id has a missing or malformed notification config.
    NoNotifCfg(u16),
    /// The device with this id did not acknowledge the negotiated features.
    FailFeatureNeg(u16),
    /// These features do not meet the requirements the specification sets
    /// between features.
    FeatureRequirementsNotMet(u128),
    /// The features the driver wants (first) are not all among those the
    /// device offers (second).
    IncompatibleFeatureSets(u128, u128),
}

/// Feature bit: the device complies with Virtio 1.0 or later.
pub const VSOCK_F_VERSION_1: u128 = 1 << 32;

/// Whether a socket device offering `features` meets the requirements the
/// virtio specification sets between socket features, as
/// `virtio_spec::FeatureBits::requirements_satisfied` on
/// `virtio_spec::vsock::F` decides. virtio-spec sets no such requirement
/// for the socket's features: that method is the trait's provided one,
/// which returns `true` whatever the bits.
#[verifier::external_body]
fn vsock_requirements_satisfied(features: u128) -> (r: bool)
    ensures
        r,
{
    virtio_spec::vsock::F::from_bits_retain(virtio_spec::le128::from_ne(features))
        .requirements_satisfied()
}

/// What bringing up a socket device gives.
pub struct VsockInit<T> {
    /// The negotiated features.
    pub features: u128,
    /// The receive queue, index 0.
    pub recv_vq: VirtQueue<T>,
    /// The send queue, index 1.
    pub send_vq: VirtQueue<T>,
    /// The event queue, index 2.
    pub event_vq: VirtQueue<T>,
}

/// Brings up the socket device `dev_id`: resets it, acknowledges it, says
/// the driver can drive it, reads the features the device offers, checks
/// them against the specification's requirements and writes back VERSION_1
/// where the device offers it, has the device accept that, sets up the
/// receive, send and event queues as split queues (notifications wanted on
/// receiving and on events, not on sending) and sets DRIVER_OK. Fails with
/// `IncompatibleFeatureSets` where the device does not offer VERSION_1, and
/// with `FailFeatureNeg` where it refuses it.
pub fn init_vsock<R: CommonCfgAccess, T>(
    com_cfg: &mut ComCfg<R>,
    notif_cfg: &NotifCfg,
    dev_id: u16,
    queue_size: u16,
) -> (r: Result<VsockInit<T>, VirtioVsockError>)
    requires
        0 < queue_size <= 0x8000,
        queue_ready(*old(com_cfg), *notif_cfg, 0),
        queue_ready(*old(com_cfg), *notif_cfg, 1),
        queue_ready(*old(com_cfg), *notif_cfg, 2),
    ensures
        r is Err <==> old(com_cfg).device_features() & VSOCK_F_VERSION_1 != VSOCK_F_VERSION_1
            || old(com_cfg).rejects_features(),
        r matches Err(e) ==> e == (if old(com_cfg).device_features() & VSOCK_F_VERSION_1
            != VSOCK_F_VERSION_1 {
            VirtioVsockError::IncompatibleFeatureSets(
                VSOCK_F_VERSION_1,
                old(com_cfg).device_features(),
            )
        } else {
            VirtioVsockError::FailFeatureNeg(dev_id)
        }),
        final(com_cfg).rejects_features() == old(com_cfg).rejects_features(),
        final(com_cfg).device_features() == old(com_cfg).device_features(),
        final(com_cfg).driver_features() == (if old(com_cfg).device_features() & VSOCK_F_VERSION_1
            == VSOCK_F_VERSION_1 {
            VSOCK_F_VERSION_1
        } else {
            old(com_cfg).driver_features()
        }),
        r matches Ok(init) ==> {
            &&& init.features == VSOCK_F_VERSION_1
            &&& final(com_cfg).status() & STATUS_DRIVER_OK == STATUS_DRIVER_OK
            &&& init.recv_vq is Split && init.recv_vq.spec_index() == 0
                && init.recv_vq.notifs_enabled()
            &&& init.send_vq is Split && init.send_vq.spec_index() == 1
                && !init.send_vq.notifs_enabled()
            &&& init.event_vq is Split && init.event_vq.spec_index() == 2
                && init.event_vq.notifs_enabled()
        },
{
    let ghost rejects = com_cfg.rejects_features();
    com_cfg.reset_dev();
    com_cfg.ack_dev();
    com_cfg.set_drv();
    assert(com_cfg.status() == status_after_start(rejects));
    let negotiated = VSOCK_F_VERSION_1;
    let device_features = com_cfg.dev_features();
    if !vsock_requirements_satisfied(device_features) {
        return Err(VirtioVsockError::FeatureRequirementsNotMet(device_features));
    }
    if device_features & negotiated != negotiated {
        return Err(VirtioVsockError::IncompatibleFeatureSets(negotiated, device_features));
    }
    com_cfg.set_drv_features(negotiated);
    let ghost s3 = com_cfg.status();
    com_cfg.features_ok();
    proof {
        lemma_status_bit_set(s3, STATUS_FEATURES_OK);
        lemma_status_bit_set(s3 | STATUS_FEATURES_OK, STATUS_FEATURES_OK);
    }
    if !com_cfg.check_features() {
        return Err(VirtioVsockError::FailFeatureNeg(dev_id));
    }
    let mut recv_vq = match VirtQueue::new(false, com_cfg, notif_cfg, queue_size, 0, negotiated) {
        Ok(vq) => vq,
        Err(_) => {
            proof {
                assert(false);
            }
            return Err(VirtioVsockError::FailFeatureNeg(dev_id));
        },
    };
    recv_vq.enable_notifs();
    let mut send_vq = match VirtQueue::new(false, com_cfg, notif_cfg, queue_size, 1, negotiated) {
        Ok(vq) => vq,
        Err(_) => {
            proof {
                assert(false);
            }
            return Err(VirtioVsockError::FailFeatureNeg(dev_id));
        },
    };
    send_vq.disable_notifs();
    let mut event_vq = match VirtQueue::new(false, com_cfg, notif_cfg, queue_size, 2, negotiated) {
        Ok(vq) => vq,
        Err(_) => {
            proof {
                assert(false);
            }
            return Err(VirtioVsockError::FailFeatureNeg(dev_id));
        },
    };
    event_vq.enable_notifs();
    let ghost s5 = com_cfg.status();
    com_cfg.drv_ok();
    proof {
        lemma_status_bit_set(s5, STATUS_DRIVER_OK);
    }
    Ok(VsockInit { features: negotiated, recv_vq, send_vq, event_vq })
}

} // verus!
