//! The virtio-blk driver's checks and bookkeeping.
//!
//! Requests go to the device through a virtqueue; what the library decides
//! is whether a request is valid, which queue serves a core, how many queues
//! to set up, and what the device's answer means.

use vstd::prelude::*;

use crate::drivers::virtio::transport::pci::NotifCfg;
use crate::drivers::virtio::transport::{ComCfg, CommonCfgAccess};
use crate::drivers::virtio::virtqueue::{queue_ready, VirtQueue};
use crate::errno::Errno;

verus! {

/// The unit in which the device addresses its storage.
pub const SECTOR_SIZE: usize = 512;

/// Feature bit: the device is read-only.
pub const F_RO: u64 = 1 << 5;
/// Feature bit: the device reports its optimal block size.
pub const F_BLK_SIZE: u64 = 1 << 6;
/// Feature bit: the device may cache writes and understands flush requests.
pub const F_FLUSH: u64 = 1 << 9;
/// Feature bit: the device offers several request queues.
pub const F_MQ: u64 = 1 << 12;

/// Status byte: the request succeeded.
pub const STATUS_OK: u8 = 0;
/// Status byte: the request failed.
pub const STATUS_IOERR: u8 = 1;
/// Status byte: the device does not support the request.
pub const STATUS_UNSUPP: u8 = 2;

/// What the driver knows of a block device once it is set up.
pub struct BlkDevice {
    features: u64,
    capacity: usize,
    blk_size: u32,
    read_only: bool,
}

impl BlkDevice {
    pub closed spec fn spec_features(&self) -> u64 {
        self.features
    }

    pub closed spec fn spec_capacity(&self) -> usize {
        self.capacity
    }

    /// Reads what the device reports: its negotiated features, its capacity
    /// in sectors and the block size it announces. The block size counts only
    /// where the device offers it; otherwise it is the sector size. `None`
    /// where the capacity does not fit in a `usize`.
    pub fn new(features: u64, capacity: u64, blk_size: u32) -> (r: Option<BlkDevice>)
        ensures
            r is Some <==> capacity <= usize::MAX,
            r matches Some(d) ==> {
                &&& d.spec_features() == features
                &&& d.spec_capacity() == capacity
                &&& d.block_size() == (if features & F_BLK_SIZE != 0 {
                    blk_size
                } else {
                    SECTOR_SIZE as u32
                })
                &&& d.is_read_only() == (features & F_RO != 0)
            },
    {
        if capacity > usize::MAX as u64 {
            return None;
        }
        let blk = if features & F_BLK_SIZE != 0 {
            blk_size
        } else {
            SECTOR_SIZE as u32
        };
        Some(BlkDevice { features, capacity: capacity as usize, blk_size: blk, read_only: features & F_RO != 0 })
    }

    /// The capacity of the device in sectors.
    pub fn capacity(&self) -> (r: usize)
        ensures
            r == self.spec_capacity(),
    {
        self.capacity
    }

    /// The optimal I/O size in bytes.
    #[verifier::when_used_as_spec(spec_block_size)]
    pub fn block_size(&self) -> (r: u32)
        ensures
            r == self.spec_block_size(),
    {
        self.blk_size
    }

    pub closed spec fn spec_block_size(&self) -> u32 {
        self.blk_size
    }

    /// Whether the device refuses writes.
    #[verifier::when_used_as_spec(spec_is_read_only)]
    pub fn is_read_only(&self) -> (r: bool)
        ensures
            r == self.spec_is_read_only(),
    {
        self.read_only
    }

    pub closed spec fn spec_is_read_only(&self) -> bool {
        self.read_only
    }

    /// Validates a transfer of `len` bytes from sector `sector` on: it must
    /// cover whole sectors, at least one, and stay within the capacity.
    /// Returns the length.
    pub fn checked_len(&self, sector: usize, len: usize) -> (r: Result<usize, Errno>)
        ensures
            r is Ok <==> (len > 0 && len % SECTOR_SIZE == 0 && sector + len / SECTOR_SIZE
                <= self.spec_capacity()),
            r matches Ok(l) ==> l == len,
            r matches Err(e) ==> e == Errno::Inval,
    {
        if len == 0 || len % SECTOR_SIZE != 0 {
            return Err(Errno::Inval);
        }
        let sectors = len / SECTOR_SIZE;
        match sector.checked_add(sectors) {
            None => Err(Errno::Inval),
            Some(end) => if end > self.capacity {
                Err(Errno::Inval)
            } else {
                Ok(len)
            },
        }
    }

    /// Validates a write of `len` bytes from sector `sector` on: as
    /// [`Self::checked_len`], and the device must accept writes.
    pub fn check_write(&self, sector: usize, len: usize) -> (r: Result<usize, Errno>)
        ensures
            r is Ok <==> (len > 0 && len % SECTOR_SIZE == 0 && sector + len / SECTOR_SIZE
                <= self.spec_capacity() && !self.spec_is_read_only()),
            r matches Ok(l) ==> l == len,
            r matches Err(e) ==> e == (if len > 0 && len % SECTOR_SIZE == 0 && sector + len
                / SECTOR_SIZE <= self.spec_capacity() {
                Errno::Rofs
            } else {
                Errno::Inval
            }),
    {
        let len = self.checked_len(sector, len)?;
        if self.read_only {
            return Err(Errno::Rofs);
        }
        Ok(len)
    }

    /// Whether a flush has to go to the device: only a device that offers
    /// flushing may hold writes in a volatile cache.
    pub fn needs_flush(&self) -> (r: bool)
        ensures
            r == (self.spec_features() & F_FLUSH != 0),
    {
        self.features & F_FLUSH != 0
    }
}

/// The number of cores that may ever issue a request, given how many the
/// system can bring up, which is at least the one it runs on.
pub fn possible_cores(count: u32) -> (r: usize)
    requires
        count >= 1,
    ensures
        r == count,
        r >= 1,
{
    count as usize
}

/// The number of request queues to set up: as many as the device offers,
/// at least one, one where it does not offer several, and no more than there
/// are cores that may issue requests.
pub fn queue_count(features: u64, num_queues: u16, possible_cores: usize) -> (r: usize)
    requires
        possible_cores >= 1,
    ensures
        r == blk_queue_count(features, num_queues, possible_cores as int),
        1 <= r <= u16::MAX,
{
    let offered: u16 = if features & F_MQ != 0 {
        num_queues
    } else {
        1
    };
    let offered: usize = if offered > 1 {
        offered as usize
    } else {
        1
    };
    if offered < possible_cores {
        offered
    } else {
        possible_cores
    }
}

/// The number of request queues for a device with `features` that offers
/// `num_queues` with multiqueue, on a system of `cores` cores.
pub open spec fn blk_queue_count(features: u64, num_queues: u16, cores: int) -> int {
    vstd::math::min(
        (if features & F_MQ != 0 && num_queues > 1 {
            num_queues as int
        } else {
            1
        }),
        cores,
    )
}

/// Sets up the request queues of a block device with `features` that
/// offers `num_queues` with multiqueue, on a system of `cores` cores: as
/// many split queues as [`queue_count`] says, from index 0 on, each of at
/// most `queue_size` descriptors and without notifications, since requests
/// are awaited by polling.
pub fn init_blk_queues<R: CommonCfgAccess, T>(
    com_cfg: &mut ComCfg<R>,
    notif_cfg: &NotifCfg,
    features: u64,
    num_queues: u16,
    cores: u32,
    queue_size: u16,
) -> (r: Vec<VirtQueue<T>>)
    requires
        cores >= 1,
        0 < queue_size <= 0x8000,
        forall|i: u16|
            (i as int) < blk_queue_count(features, num_queues, cores as int) ==> #[trigger] queue_ready(
                *old(com_cfg),
                *notif_cfg,
                i,
            ),
    ensures
        r@.len() == blk_queue_count(features, num_queues, cores as int),
        r@.len() >= 1,
        forall|k: int|
            0 <= k < r@.len() ==> {
                &&& (#[trigger] r@[k]) is Split
                &&& r@[k].spec_index() == k
                &&& !r@[k].notifs_enabled()
            },
        final(com_cfg).status() == old(com_cfg).status(),
        final(com_cfg).rejects_features() == old(com_cfg).rejects_features(),
            final(com_cfg).feature_regs() == old(com_cfg).feature_regs(),
{
    let count = queue_count(features, num_queues, possible_cores(cores));
    let ghost start = *com_cfg;
    let mut queues: Vec<VirtQueue<T>> = Vec::new();
    let mut index: usize = 0;
    while index < count
        invariant
            count == blk_queue_count(features, num_queues, cores as int),
            1 <= count <= u16::MAX,
            0 < queue_size <= 0x8000,
            index <= count,
            queues@.len() == index,
            com_cfg.status() == start.status(),
            com_cfg.rejects_features() == start.rejects_features(),
            com_cfg.feature_regs() == start.feature_regs(),
            forall|i: u16| index <= i ==> #[trigger] com_cfg.queue(i) == start.queue(i),
            forall|i: u16| (i as int) < count ==> #[trigger] queue_ready(start, *notif_cfg, i),
            forall|k: int|
                0 <= k < queues@.len() ==> {
                    &&& (#[trigger] queues@[k]) is Split
                    &&& queues@[k].spec_index() == k
                    &&& !queues@[k].notifs_enabled()
                },
        decreases count - index,
    {
        let i = index as u16;
        assert(queue_ready(start, *notif_cfg, i));
        assert(com_cfg.queue(i) == start.queue(i));
        let mut vq = match VirtQueue::new(false, com_cfg, notif_cfg, queue_size, i, features as u128) {
            Ok(vq) => vq,
            Err(_) => {
                proof {
                    assert(false);
                }
                return queues;
            },
        };
        vq.disable_notifs();
        queues.push(vq);
        index += 1;
    }
    queues
}

/// The request queue that serves requests issued on core `core_id`.
pub fn vq_index(core_id: u32, num_vqs: usize) -> (r: usize)
    requires
        num_vqs > 0,
    ensures
        r == core_id as int % num_vqs as int,
        r < num_vqs,
{
    core_id as usize % num_vqs
}

/// What the status byte the device wrote means: success, an unsupported
/// request, or an I/O error for a failure, an unknown status or no status.
pub open spec fn status_result(status: Option<u8>) -> Result<(), Errno> {
    match status {
        Some(s) => if s == STATUS_OK {
            Ok(())
        } else if s == STATUS_UNSUPP {
            Err(Errno::Nosys)
        } else {
            Err(Errno::Io)
        },
        None => Err(Errno::Io),
    }
}

/// What the status byte the device wrote means, if it wrote one.
pub fn check_status(status: Option<u8>) -> (r: Result<(), Errno>)
    ensures
        r == status_result(status),
{
    match status {
        None => Err(Errno::Io),
        Some(s) => if s == STATUS_OK {
            Ok(())
        } else if s == STATUS_UNSUPP {
            Err(Errno::Nosys)
        } else {
            Err(Errno::Io)
        },
    }
}

/// Completes a read into `buf`: the data the device returned, if it
/// returned any, then its status, and the data must be as long as `buf`.
/// Only then is `buf` filled.
pub fn complete_read(data: Option<&[u8]>, status: Option<u8>, buf: &mut [u8]) -> (r: Result<
    (),
    Errno,
>)
    ensures
        data is None ==> r == Err::<(), Errno>(Errno::Io),
        data is Some ==> {
            ||| status_result(status) is Err && r == status_result(status)
            ||| status_result(status) is Ok && data->0@.len() != old(buf)@.len() && r == Err::<
                (),
                Errno,
            >(Errno::Io)
            ||| status_result(status) is Ok && data->0@.len() == old(buf)@.len() && r is Ok
        },
        r is Ok ==> final(buf)@ == data->0@,
        r is Err ==> final(buf)@ == old(buf)@,
{
    let d = match data {
        None => {
            return Err(Errno::Io);
        },
        Some(d) => d,
    };
    check_status(status)?;
    if d.len() != buf.len() {
        return Err(Errno::Io);
    }
    let n = buf.len();
    let mut i: usize = 0;
    while i < n
        invariant
            n == buf@.len(),
            n == d@.len(),
            0 <= i <= n,
            forall|j: int| 0 <= j < i ==> #[trigger] buf@[j] == d@[j],
        decreases n - i,
    {
        buf[i] = d[i];
        i = i + 1;
    }
    assert(buf@ =~= d@);
    Ok(())
}

/// Errors of the virtio block driver.
#[derive(Clone, Copy, Debug, PartialEq, Eq)]
pub enum VirtioBlkError {
    /// The device with this id has a missing or malformed device config.
    NoDevCfg(u16),
}

} // verus!
