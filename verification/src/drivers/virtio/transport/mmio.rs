//! virtio-mmio: notifications.

use vstd::prelude::*;

verus! {

/// Where notifications for the virtqueues are written: the device's queue
/// notify register.
pub struct NotifCfg {
    queue_notify: u64,
}

impl NotifCfg {
    pub closed spec fn spec_queue_notify(&self) -> u64 {
        self.queue_notify
    }

    pub fn new(queue_notify: u64) -> (r: Self)
        ensures
            r.spec_queue_notify() == queue_notify,
    {
        NotifCfg { queue_notify }
    }

    /// All queues are notified through the same register.
    pub fn notification_location(&self) -> (r: u64)
        ensures
            r == self.spec_queue_notify(),
    {
        self.queue_notify
    }
}

/// Control structure to notify a device through its registers, held by a virtqueue.
pub struct NotifCtrl {
    /// Indicates if VIRTIO_F_NOTIFICATION_DATA has been negotiated.
    f_notif_data: bool,
    /// Where to write notifications.
    notif_addr: u64,
}

impl NotifCtrl {
    pub closed spec fn spec_notif_data(&self) -> bool {
        self.f_notif_data
    }

    pub closed spec fn spec_addr(&self) -> u64 {
        self.notif_addr
    }

    /// A controller writing to `notif_addr`, with VIRTIO_F_NOTIFICATION_DATA off.
    pub fn new(notif_addr: u64) -> (r: Self)
        ensures
            !r.spec_notif_data(),
            r.spec_addr() == notif_addr,
    {
        NotifCtrl { f_notif_data: false, notif_addr }
    }

    /// Enables VIRTIO_F_NOTIFICATION_DATA.
    pub fn enable_notif_data(&mut self)
        ensures
            final(self).spec_notif_data(),
            final(self).spec_addr() == old(self).spec_addr(),
    {
        self.f_notif_data = true;
    }

    /// The 32-bit value to write to notify the device with `data`: the whole
    /// data once VIRTIO_F_NOTIFICATION_DATA is negotiated, the queue index
    /// alone before.
    pub fn notify_dev(&self, data: u32) -> (r: u32)
        ensures
            self.spec_notif_data() ==> r == data,
            !self.spec_notif_data() ==> r == data % 0x10000,
    {
        if self.f_notif_data {
            data
        } else {
            super::notification_vqn(data) as u32
        }
    }
}

} // verus!
