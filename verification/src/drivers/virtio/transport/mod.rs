//! Virtio transports: the PCI and memory-mapped flavours.

pub mod mmio;
pub mod pci;

use vstd::prelude::*;

use self::pci::NotifCfg;

verus! {

/// How a device raises its interrupts.
#[derive(Clone, Copy, Debug, PartialEq, Eq)]
pub enum InterruptCapability {
    /// Through the ISR status byte at this address.
    IsrStatus(u64),
    /// Through the MSI-X table at this address.
    Msix(u64),
}

/// The capability structures every virtio device provides.
pub struct UniCapsColl {
    /// Address of the common configuration structure.
    pub com_cfg: u64,
    pub notif_cfg: NotifCfg,
    pub int_cap: InterruptCapability,
}

/// The notification data a driver sends about a virtqueue (Virtio
/// specification v1.1 - 4.1.5.2): the queue's index in the low 16 bits, the
/// next available offset in the following 15 bits and the wrap counter in
/// the top bit. For split queues the upper half is the next available index.
pub open spec fn spec_notification_data(vqn: u16, next: u16) -> u32 {
    (vqn + next * 0x10000) as u32
}

/// Composes the notification data for queue `vqn` whose next available
/// position is `next_off` with wrap counter `next_wrap`.
pub fn notification_data(vqn: u16, next_off: u16, next_wrap: u8) -> (r: u32)
    requires
        next_off < 0x8000,
        next_wrap <= 1,
    ensures
        r == spec_notification_data(vqn, (next_off + next_wrap * 0x8000) as u16),
{
    let next = next_off | ((next_wrap as u16) << 15);
    proof {
        let w = next_wrap as u16;
        assert(next_off | (w << 15) == next_off + w * 0x8000) by (bit_vector)
            requires
                next_off < 0x8000,
                w <= 1,
        ;
        let n = next;
        assert((vqn as u32) | ((n as u32) << 16) == vqn + n * 0x10000) by (bit_vector);
    }
    (vqn as u32) | ((next as u32) << 16)
}

/// The queue index stored in notification data.
pub fn notification_vqn(data: u32) -> (r: u16)
    ensures
        r == data % 0x10000,
{
    proof {
        assert(data & 0xffff == data % 0x10000) by (bit_vector);
    }
    (data & 0xffff) as u16
}

/// What a notification writes into the device's notification register.
#[derive(Clone, Copy, Debug, PartialEq, Eq)]
pub enum NotifWrite {
    /// The full 32-bit notification data.
    Data(u32),
    /// The 16-bit queue index alone.
    Vqn(u16),
}

/// The system noticed the device (Virtio specification v1.1 - 2.1).
pub const STATUS_ACKNOWLEDGE: u8 = 1;
/// The driver knows how to drive the device.
pub const STATUS_DRIVER: u8 = 2;
/// The driver is set up and ready to drive the device.
pub const STATUS_DRIVER_OK: u8 = 4;
/// The driver acknowledged the features it understands.
pub const STATUS_FEATURES_OK: u8 = 8;
/// The device met an error it cannot recover from without a reset.
pub const STATUS_DEVICE_NEEDS_RESET: u8 = 64;
/// The driver gave up on the device.
pub const STATUS_FAILED: u8 = 128;

/// The registers of one virtqueue in a device's common configuration.
#[derive(Clone, Copy, Debug, PartialEq, Eq)]
pub struct QueueRegs {
    /// The queue's size; 0 where the device has no such queue.
    pub size: u16,
    /// The offset of the queue's notification address.
    pub notify_off: u16,
    /// Whether the driver enabled the queue.
    pub enabled: bool,
}

/// Access to the registers of a device's common configuration that device
/// set-up works with: the device status and the registers of each virtqueue.
pub trait CommonCfgAccess: Sized {
    /// The device status.
    spec fn status_spec(&self) -> u8;

    /// The registers of virtqueue `index`.
    spec fn queue_spec(&self, index: u16) -> QueueRegs;

    /// Whether the device refuses the features the driver accepted: it then
    /// clears FEATURES_OK whenever the driver sets it.
    spec fn rejects_features_spec(&self) -> bool;

    /// The features the device offers.
    spec fn device_features_spec(&self) -> u128;

    /// The features the driver wrote back as accepted.
    spec fn driver_features_spec(&self) -> u128;

    /// Reads the device status.
    fn read_status(&self) -> (r: u8)
        ensures
            r == self.status_spec(),
    ;

    /// Writes the device status; the device answers as
    /// [`status_after_write`] says.
    fn write_status(&mut self, status: u8)
        ensures
            final(self).status_spec() == status_after_write(
                old(self).rejects_features_spec(),
                status,
            ),
            final(self).rejects_features_spec() == old(self).rejects_features_spec(),
            final(self).device_features_spec() == old(self).device_features_spec(),
            final(self).driver_features_spec() == old(self).driver_features_spec(),
            forall|i: u16| #[trigger] final(self).queue_spec(i) == old(self).queue_spec(i),
    ;

    /// Reads the features the device offers.
    fn read_device_features(&mut self) -> (r: u128)
        ensures
            r == old(self).device_features_spec(),
            final(self).status_spec() == old(self).status_spec(),
            final(self).rejects_features_spec() == old(self).rejects_features_spec(),
            final(self).device_features_spec() == old(self).device_features_spec(),
            final(self).driver_features_spec() == old(self).driver_features_spec(),
            forall|i: u16| #[trigger] final(self).queue_spec(i) == old(self).queue_spec(i),
    ;

    /// Writes the features the driver accepts.
    fn write_driver_features(&mut self, features: u128)
        ensures
            final(self).driver_features_spec() == features,
            final(self).status_spec() == old(self).status_spec(),
            final(self).rejects_features_spec() == old(self).rejects_features_spec(),
            final(self).device_features_spec() == old(self).device_features_spec(),
            forall|i: u16| #[trigger] final(self).queue_spec(i) == old(self).queue_spec(i),
    ;

    /// Reads the registers of virtqueue `index`.
    fn read_queue(&mut self, index: u16) -> (r: QueueRegs)
        ensures
            r == old(self).queue_spec(index),
            final(self).status_spec() == old(self).status_spec(),
            final(self).rejects_features_spec() == old(self).rejects_features_spec(),
            final(self).device_features_spec() == old(self).device_features_spec(),
            final(self).driver_features_spec() == old(self).driver_features_spec(),
            forall|i: u16| #[trigger] final(self).queue_spec(i) == old(self).queue_spec(i),
    ;

    /// Writes the size of virtqueue `index`, which the device has.
    fn write_queue_size(&mut self, index: u16, size: u16)
        requires
            old(self).queue_spec(index).size != 0,
        ensures
            final(self).status_spec() == old(self).status_spec(),
            final(self).rejects_features_spec() == old(self).rejects_features_spec(),
            final(self).device_features_spec() == old(self).device_features_spec(),
            final(self).driver_features_spec() == old(self).driver_features_spec(),
            final(self).queue_spec(index) == (QueueRegs { size, ..old(self).queue_spec(index) }),
            forall|i: u16| i != index ==> #[trigger] final(self).queue_spec(i) == old(
                self,
            ).queue_spec(i),
    ;

    /// Enables virtqueue `index`, which the device has.
    fn enable_queue(&mut self, index: u16)
        requires
            old(self).queue_spec(index).size != 0,
        ensures
            final(self).status_spec() == old(self).status_spec(),
            final(self).rejects_features_spec() == old(self).rejects_features_spec(),
            final(self).device_features_spec() == old(self).device_features_spec(),
            final(self).driver_features_spec() == old(self).driver_features_spec(),
            final(self).queue_spec(index) == (QueueRegs {
                enabled: true,
                ..old(self).queue_spec(index)
            }),
            forall|i: u16| i != index ==> #[trigger] final(self).queue_spec(i) == old(
                self,
            ).queue_spec(i),
    ;
}

/// The device status after the driver wrote `status`: a device that
/// refuses the driver's features clears FEATURES_OK, any other keeps what
/// was written.
pub open spec fn status_after_write(rejects_features: bool, status: u8) -> u8 {
    if rejects_features {
        status & !STATUS_FEATURES_OK
    } else {
        status
    }
}

/// Setting a status bit keeps the bits already set and sets it; a device
/// that refuses the driver's features never shows FEATURES_OK, so right
/// after `features_ok`, `check_features` holds exactly when the device
/// accepts the features.
pub proof fn lemma_status_bit_set(status: u8, bit: u8)
    ensures
        (status | bit) & bit == bit,
        (status | bit) & status == status,
        (status & !STATUS_FEATURES_OK) & STATUS_FEATURES_OK == 0,
        0u8 & !STATUS_FEATURES_OK == 0,
{
    assert((status | bit) & bit == bit && (status | bit) & status == status && (status & !8u8)
        & 8u8 == 0 && 0u8 & !8u8 == 0) by (bit_vector);
}

/// A device's common configuration, through which the driver walks the
/// device through its set-up.
pub struct ComCfg<R> {
    regs: R,
}

/// A virtqueue the device has, selected for configuration.
pub struct VqCfgHandler {
    vq_index: u16,
}

impl<R: CommonCfgAccess> ComCfg<R> {
    pub closed spec fn status(&self) -> u8 {
        self.regs.status_spec()
    }

    pub closed spec fn queue(&self, index: u16) -> QueueRegs {
        self.regs.queue_spec(index)
    }

    /// Whether the device refuses the features the driver accepted.
    pub closed spec fn rejects_features(&self) -> bool {
        self.regs.rejects_features_spec()
    }

    /// The features the device offers.
    pub closed spec fn device_features(&self) -> u128 {
        self.regs.device_features_spec()
    }

    /// The features the driver wrote back as accepted.
    pub closed spec fn driver_features(&self) -> u128 {
        self.regs.driver_features_spec()
    }

    /// The feature registers: what the device offers and what the driver
    /// accepted.
    pub open spec fn feature_regs(&self) -> (u128, u128) {
        (self.device_features(), self.driver_features())
    }

    /// Reads the features the device offers.
    pub fn dev_features(&mut self) -> (r: u128)
        ensures
            r == old(self).device_features(),
            final(self).status() == old(self).status(),
            final(self).rejects_features() == old(self).rejects_features(),
            final(self).feature_regs() == old(self).feature_regs(),
            forall|i: u16| #[trigger] final(self).queue(i) == old(self).queue(i),
    {
        self.regs.read_device_features()
    }

    /// Writes the features the driver accepts back to the device.
    pub fn set_drv_features(&mut self, features: u128)
        ensures
            final(self).driver_features() == features,
            final(self).device_features() == old(self).device_features(),
            final(self).status() == old(self).status(),
            final(self).rejects_features() == old(self).rejects_features(),
            forall|i: u16| #[trigger] final(self).queue(i) == old(self).queue(i),
    {
        self.regs.write_driver_features(features);
    }

    /// The registers, to read back what set-up wrote.
    pub fn regs(&self) -> (r: &R)
        ensures
            r.status_spec() == self.status(),
            r.rejects_features_spec() == self.rejects_features(),
            r.device_features_spec() == self.device_features(),
            r.driver_features_spec() == self.driver_features(),
            forall|i: u16| #[trigger] r.queue_spec(i) == self.queue(i),
    {
        &self.regs
    }

    pub fn new(regs: R) -> (r: Self)
        ensures
            r.status() == regs.status_spec(),
            r.rejects_features() == regs.rejects_features_spec(),
            r.device_features() == regs.device_features_spec(),
            r.driver_features() == regs.driver_features_spec(),
            forall|i: u16| #[trigger] r.queue(i) == regs.queue_spec(i),
    {
        ComCfg { regs }
    }

    /// Resets the device status to zero.
    pub fn reset_dev(&mut self)
        ensures
            final(self).status() == status_after_write(old(self).rejects_features(), 0),
            final(self).rejects_features() == old(self).rejects_features(),
            final(self).feature_regs() == old(self).feature_regs(),
            forall|i: u16| #[trigger] final(self).queue(i) == old(self).queue(i),
    {
        self.regs.write_status(0);
    }

    /// Sets the device status to FAILED: the driver may not use the device
    /// any further before a reset.
    pub fn set_failed(&mut self)
        ensures
            final(self).status() == status_after_write(old(self).rejects_features(), STATUS_FAILED),
            final(self).rejects_features() == old(self).rejects_features(),
            final(self).feature_regs() == old(self).feature_regs(),
            forall|i: u16| #[trigger] final(self).queue(i) == old(self).queue(i),
    {
        self.regs.write_status(STATUS_FAILED);
    }

    fn set_status_bit(&mut self, bit: u8)
        ensures
            final(self).status() == status_after_write(old(self).rejects_features(), old(self).status() | bit),
            final(self).rejects_features() == old(self).rejects_features(),
            final(self).feature_regs() == old(self).feature_regs(),
            forall|i: u16| #[trigger] final(self).queue(i) == old(self).queue(i),
    {
        let status = self.regs.read_status();
        self.regs.write_status(status | bit);
    }

    /// Sets the ACKNOWLEDGE bit: the system noticed the device.
    pub fn ack_dev(&mut self)
        ensures
            final(self).status() == status_after_write(
                old(self).rejects_features(),
                old(self).status() | STATUS_ACKNOWLEDGE,
            ),
            final(self).rejects_features() == old(self).rejects_features(),
            final(self).feature_regs() == old(self).feature_regs(),
            forall|i: u16| #[trigger] final(self).queue(i) == old(self).queue(i),
    {
        self.set_status_bit(STATUS_ACKNOWLEDGE);
    }

    /// Sets the DRIVER bit: the system knows how to drive the device.
    pub fn set_drv(&mut self)
        ensures
            final(self).status() == status_after_write(
                old(self).rejects_features(),
                old(self).status() | STATUS_DRIVER,
            ),
            final(self).rejects_features() == old(self).rejects_features(),
            final(self).feature_regs() == old(self).feature_regs(),
            forall|i: u16| #[trigger] final(self).queue(i) == old(self).queue(i),
    {
        self.set_status_bit(STATUS_DRIVER);
    }

    /// Sets the FEATURES_OK bit; the driver accepts no new features after it.
    pub fn features_ok(&mut self)
        ensures
            final(self).status() == status_after_write(
                old(self).rejects_features(),
                old(self).status() | STATUS_FEATURES_OK,
            ),
            final(self).rejects_features() == old(self).rejects_features(),
            final(self).feature_regs() == old(self).feature_regs(),
            forall|i: u16| #[trigger] final(self).queue(i) == old(self).queue(i),
    {
        self.set_status_bit(STATUS_FEATURES_OK);
    }

    /// Whether the FEATURES_OK bit is still set: the device clears it when
    /// it does not support the features the driver accepted.
    pub fn check_features(&self) -> (r: bool)
        ensures
            r == (self.status() & STATUS_FEATURES_OK == STATUS_FEATURES_OK),
    {
        self.regs.read_status() & STATUS_FEATURES_OK == STATUS_FEATURES_OK
    }

    /// Sets the DRIVER_OK bit: the device is live.
    pub fn drv_ok(&mut self)
        ensures
            final(self).status() == status_after_write(
                old(self).rejects_features(),
                old(self).status() | STATUS_DRIVER_OK,
            ),
            final(self).rejects_features() == old(self).rejects_features(),
            final(self).feature_regs() == old(self).feature_regs(),
            forall|i: u16| #[trigger] final(self).queue(i) == old(self).queue(i),
    {
        self.set_status_bit(STATUS_DRIVER_OK);
    }

    /// Whether the device asks to be reset.
    pub fn does_device_need_reset(&self) -> (r: bool)
        ensures
            r == (self.status() & STATUS_DEVICE_NEEDS_RESET == STATUS_DEVICE_NEEDS_RESET),
    {
        self.regs.read_status() & STATUS_DEVICE_NEEDS_RESET == STATUS_DEVICE_NEEDS_RESET
    }

    /// Selects virtqueue `index` for configuration, if the device has it.
    pub fn select_vq(&mut self, index: u16) -> (r: Option<VqCfgHandler>)
        ensures
            r is Some <==> old(self).queue(index).size != 0,
            r matches Some(h) ==> h.index() == index,
            final(self).status() == old(self).status(),
            final(self).rejects_features() == old(self).rejects_features(),
            final(self).feature_regs() == old(self).feature_regs(),
            forall|i: u16| #[trigger] final(self).queue(i) == old(self).queue(i),
    {
        if self.regs.read_queue(index).size == 0 {
            None
        } else {
            Some(VqCfgHandler { vq_index: index })
        }
    }
}

impl VqCfgHandler {
    pub closed spec fn index(&self) -> u16 {
        self.vq_index
    }

    /// Sets the size of the selected virtqueue to `max_size`, or to the
    /// device's size for it where that is smaller, and returns the size set.
    pub fn set_vq_size<R: CommonCfgAccess>(&self, com_cfg: &mut ComCfg<R>, max_size: u16) -> (r:
        u16)
        requires
            old(com_cfg).queue(self.index()).size != 0,
        ensures
            r == (if old(com_cfg).queue(self.index()).size >= max_size {
                max_size
            } else {
                old(com_cfg).queue(self.index()).size
            }),
            final(com_cfg).queue(self.index()) == (QueueRegs {
                size: r,
                ..old(com_cfg).queue(self.index())
            }),
            final(com_cfg).status() == old(com_cfg).status(),
            final(com_cfg).rejects_features() == old(com_cfg).rejects_features(),
            final(com_cfg).feature_regs() == old(com_cfg).feature_regs(),
            forall|i: u16| i != self.index() ==> #[trigger] final(com_cfg).queue(i) == old(
                com_cfg,
            ).queue(i),
    {
        let dev_queue_size = com_cfg.regs.read_queue(self.vq_index).size;
        if dev_queue_size >= max_size {
            com_cfg.regs.write_queue_size(self.vq_index, max_size);
            max_size
        } else {
            dev_queue_size
        }
    }

    /// The offset of the selected virtqueue's notification address.
    pub fn notif_off<R: CommonCfgAccess>(&self, com_cfg: &mut ComCfg<R>) -> (r: u16)
        ensures
            r == old(com_cfg).queue(self.index()).notify_off,
            final(com_cfg).status() == old(com_cfg).status(),
            final(com_cfg).rejects_features() == old(com_cfg).rejects_features(),
            final(com_cfg).feature_regs() == old(com_cfg).feature_regs(),
            forall|i: u16| #[trigger] final(com_cfg).queue(i) == old(com_cfg).queue(i),
    {
        com_cfg.regs.read_queue(self.vq_index).notify_off
    }

    /// Enables the selected virtqueue.
    pub fn enable_queue<R: CommonCfgAccess>(&self, com_cfg: &mut ComCfg<R>)
        requires
            old(com_cfg).queue(self.index()).size != 0,
        ensures
            final(com_cfg).queue(self.index()) == (QueueRegs {
                enabled: true,
                ..old(com_cfg).queue(self.index())
            }),
            final(com_cfg).status() == old(com_cfg).status(),
            final(com_cfg).rejects_features() == old(com_cfg).rejects_features(),
            final(com_cfg).feature_regs() == old(com_cfg).feature_regs(),
            forall|i: u16| i != self.index() ==> #[trigger] final(com_cfg).queue(i) == old(
                com_cfg,
            ).queue(i),
    {
        com_cfg.regs.enable_queue(self.vq_index);
    }
}

/// Common configuration registers held in memory: the device status and
/// the registers of the device's virtqueues, by index.
#[derive(Clone, Debug, PartialEq, Eq)]
pub struct CommonCfgRegisters {
    pub status: u8,
    pub queues: Vec<QueueRegs>,
    /// Whether the device refuses the features the driver accepts.
    pub rejects_features: bool,
    /// The features the device offers.
    pub device_features: u128,
    /// The features the driver accepted.
    pub driver_features: u128,
}

impl CommonCfgAccess for CommonCfgRegisters {
    open spec fn status_spec(&self) -> u8 {
        self.status
    }

    open spec fn rejects_features_spec(&self) -> bool {
        self.rejects_features
    }

    open spec fn device_features_spec(&self) -> u128 {
        self.device_features
    }

    open spec fn driver_features_spec(&self) -> u128 {
        self.driver_features
    }

    fn read_device_features(&mut self) -> (r: u128) {
        self.device_features
    }

    fn write_driver_features(&mut self, features: u128) {
        self.driver_features = features;
    }

    open spec fn queue_spec(&self, index: u16) -> QueueRegs {
        if (index as int) < self.queues@.len() {
            self.queues@[index as int]
        } else {
            QueueRegs { size: 0, notify_off: 0, enabled: false }
        }
    }

    fn read_status(&self) -> (r: u8) {
        self.status
    }

    fn write_status(&mut self, status: u8) {
        self.status = if self.rejects_features {
            status & !STATUS_FEATURES_OK
        } else {
            status
        };
    }

    fn read_queue(&mut self, index: u16) -> (r: QueueRegs) {
        if (index as usize) < self.queues.len() {
            self.queues[index as usize]
        } else {
            QueueRegs { size: 0, notify_off: 0, enabled: false }
        }
    }

    fn write_queue_size(&mut self, index: u16, size: u16) {
        let q = self.queues[index as usize];
        self.queues.set(index as usize, QueueRegs { size, ..q });
    }

    fn enable_queue(&mut self, index: u16) {
        let q = self.queues[index as usize];
        self.queues.set(index as usize, QueueRegs { enabled: true, ..q });
    }
}

} // verus!
