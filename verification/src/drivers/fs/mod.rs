//! The virtio file system driver: its errors and device set-up.

pub mod virtio_fs;

use vstd::prelude::*;

use crate::drivers::net::virtio::status_after_start;
use crate::drivers::virtio::transport::pci::NotifCfg;
use crate::drivers::virtio::transport::{
    lemma_status_bit_set, ComCfg, CommonCfgAccess, STATUS_DRIVER_OK, STATUS_FEATURES_OK,
};
use crate::drivers::virtio::virtqueue::{queue_ready, VirtQueue};

verus! {

/// Errors of setting up the virtio file system driver.
#[derive(Clone, Copy, Debug, PartialEq, Eq)]
pub enum VirtioFsInitError {
    /// The device with this id has a missing or malformed device config.
    NoDevCfg(u16),
    /// The device with this id did not acknowledge the negotiated features.
    FailFeatureNeg(u16),
    /// The driver failed for an unknown reason.
    Unknown,
}

/// The number of virtqueues the file system driver sets up for a device
/// with `num_request_queues` request queues: one high-priority queue and
/// the request queues. Where that count wraps around to 0 in 32 bits, the
/// device is refused.
pub fn fs_queue_count(num_request_queues: u32) -> (r: Result<u32, VirtioFsInitError>)
    ensures
        num_request_queues == u32::MAX ==> r == Err::<u32, VirtioFsInitError>(
            VirtioFsInitError::Unknown,
        ),
        num_request_queues < u32::MAX ==> r == Ok::<u32, VirtioFsInitError>(
            (num_request_queues + 1) as u32,
        ),
{
    if num_request_queues == u32::MAX {
        Err(VirtioFsInitError::Unknown)
    } else {
        Ok(num_request_queues + 1)
    }
}

/// Feature bit: the device complies with Virtio 1.0 or later.
pub const FS_F_VERSION_1: u128 = 1 << 32;

/// How many virtqueues [`init_fs_queues`] sets up for a device with
/// `num_request_queues` request queues: the queue count of
/// [`fs_queue_count`], taken as a 16-bit queue index bound.
pub open spec fn fs_vq_count(num_request_queues: u32) -> int {
    ((num_request_queues + 1) as u32 as u16) as int
}

/// Brings up the file system device `dev_id` with `num_request_queues`
/// request queues: resets it, acknowledges it, says the driver can drive
/// it, negotiates VERSION_1 (it writes back what of VERSION_1 the device
/// offers), has the device accept that, sets up one high-priority queue and
/// the request queues as split queues from index 0 on, each of at most
/// `queue_size` descriptors, and sets DRIVER_OK. Fails with
/// `FailFeatureNeg` where the device does not offer VERSION_1 or refuses
/// it, and with `Unknown` where the queue count wraps around to 0.
pub fn init_fs_queues<R: CommonCfgAccess, T>(
    com_cfg: &mut ComCfg<R>,
    notif_cfg: &NotifCfg,
    dev_id: u16,
    num_request_queues: u32,
    queue_size: u16,
) -> (r: Result<Vec<VirtQueue<T>>, VirtioFsInitError>)
    requires
        0 < queue_size <= 0x8000,
        forall|i: u16|
            (i as int) < fs_vq_count(num_request_queues) ==> #[trigger] queue_ready(
                *old(com_cfg),
                *notif_cfg,
                i,
            ),
    ensures
        r is Err <==> old(com_cfg).device_features() & FS_F_VERSION_1 != FS_F_VERSION_1
            || old(com_cfg).rejects_features() || num_request_queues == u32::MAX,
        r matches Err(e) ==> e == (if old(com_cfg).device_features() & FS_F_VERSION_1
            != FS_F_VERSION_1 || old(com_cfg).rejects_features() {
            VirtioFsInitError::FailFeatureNeg(dev_id)
        } else {
            VirtioFsInitError::Unknown
        }),
        final(com_cfg).rejects_features() == old(com_cfg).rejects_features(),
        final(com_cfg).device_features() == old(com_cfg).device_features(),
        final(com_cfg).driver_features() == old(com_cfg).device_features() & FS_F_VERSION_1,
        r matches Ok(queues) ==> {
            &&& final(com_cfg).status() & STATUS_DRIVER_OK == STATUS_DRIVER_OK
            &&& queues@.len() == fs_vq_count(num_request_queues)
            &&& forall|k: int|
                0 <= k < queues@.len() ==> (#[trigger] queues@[k]) is Split
                    && queues@[k].spec_index() == k
        },
{
    let ghost rejects = com_cfg.rejects_features();
    com_cfg.reset_dev();
    com_cfg.ack_dev();
    com_cfg.set_drv();
    assert(com_cfg.status() == status_after_start(rejects));
    let device_features = com_cfg.dev_features();
    let negotiated = device_features & FS_F_VERSION_1;
    com_cfg.set_drv_features(negotiated);
    if negotiated != FS_F_VERSION_1 {
        return Err(VirtioFsInitError::FailFeatureNeg(dev_id));
    }
    let ghost s3 = com_cfg.status();
    com_cfg.features_ok();
    proof {
        lemma_status_bit_set(s3, STATUS_FEATURES_OK);
        lemma_status_bit_set(s3 | STATUS_FEATURES_OK, STATUS_FEATURES_OK);
    }
    if !com_cfg.check_features() {
        return Err(VirtioFsInitError::FailFeatureNeg(dev_id));
    }
    let vqnum = match fs_queue_count(num_request_queues) {
        Ok(n) => n,
        Err(e) => {
            return Err(e);
        },
    };
    let count = #[verifier::truncate] (vqnum as u16);
    assert(count == fs_vq_count(num_request_queues));
    let ghost start = *com_cfg;
    assert forall|i: u16| (i as int) < count implies #[trigger] queue_ready(start, *notif_cfg, i) by {
        assert(queue_ready(*old(com_cfg), *notif_cfg, i));
        assert(start.queue(i) == old(com_cfg).queue(i));
    }
    let mut queues: Vec<VirtQueue<T>> = Vec::new();
    let mut index: u16 = 0;
    while index < count
        invariant
            count == fs_vq_count(num_request_queues),
            0 < queue_size <= 0x8000,
            index <= count,
            queues@.len() == index,
            com_cfg.status() == start.status(),
            com_cfg.rejects_features() == start.rejects_features(),
            com_cfg.feature_regs() == start.feature_regs(),
            forall|i: u16| index <= i ==> #[trigger] com_cfg.queue(i) == start.queue(i),
            forall|i: u16| (i as int) < count ==> #[trigger] queue_ready(start, *notif_cfg, i),
            forall|k: int|
                0 <= k < queues@.len() ==> (#[trigger] queues@[k]) is Split
                    && queues@[k].spec_index() == k,
        decreases count - index,
    {
        assert(queue_ready(start, *notif_cfg, index));
        assert(com_cfg.queue(index) == start.queue(index));
        let vq = match VirtQueue::new(false, com_cfg, notif_cfg, queue_size, index, negotiated) {
            Ok(vq) => vq,
            Err(_) => {
                proof {
                    assert(false);
                }
                return Err(VirtioFsInitError::Unknown);
            },
        };
        queues.push(vq);
        index += 1;
    }
    let ghost s5 = com_cfg.status();
    com_cfg.drv_ok();
    proof {
        lemma_status_bit_set(s5, STATUS_DRIVER_OK);
    }
    Ok(queues)
}

} // verus!
