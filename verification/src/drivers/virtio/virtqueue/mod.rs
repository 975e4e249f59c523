//! Virtqueue infrastructure shared by split and packed virtqueues.

pub mod packed;
pub mod split;

use vstd::prelude::*;

use self::packed::{PackedVq, DESC_F_NEXT, DESC_F_WRITE, RING_EVENT_FLAGS_DISABLE, RING_EVENT_FLAGS_ENABLE};
use self::split::{SplitVq, VIRTQ_AVAIL_F_NO_INTERRUPT};
use crate::drivers::virtio::transport::pci::NotifCfg;
use crate::drivers::virtio::transport::{ComCfg, CommonCfgAccess, QueueRegs};
use crate::drivers::virtio::VIRTIO_F_IN_ORDER;
use crate::errno::Errno;

verus! {

/// Errors of virtqueues, independent of the virtqueue kind.
#[derive(Debug, Clone, Copy, PartialEq, Eq)]
pub enum VirtqError {
    General,
    /// Call to create a buffer token without any buffers to be inserted.
    BufferNotSpecified,
    /// The selected queue does not exist or is not known to the device.
    QueueNotExisting(u16),
    /// The queue does not have any free descriptors left.
    NoDescrAvail,
    /// A buffer is too large to be transferred as one.
    BufferToLarge,
    /// The requested queue size is not valid.
    QueueSizeNotAllowed(u16),
    /// An unsupported feature was requested from the queue (feature bits).
    FeatureNotSupported(u128),
    /// An error was encountered during the allocation of the queue structures.
    AllocationError,
    /// A sized object was partially initialized.
    IncompleteWrite,
    /// The queue does not contain any new used buffers.
    NoNewUsed,
}

/// Every virtqueue error is an I/O error to the callers of a driver.
impl From<VirtqError> for Errno {
    fn from(e: VirtqError) -> (r: Errno) {
        Errno::Io
    }
}

impl vstd::std_specs::convert::FromSpecImpl<VirtqError> for Errno {
    open spec fn obeys_from_spec() -> bool {
        true
    }

    open spec fn from_spec(v: VirtqError) -> Errno {
        Errno::Io
    }
}

/// How the descriptors of a buffer are placed in the queue.
#[derive(Debug, Clone, Copy, PartialEq, Eq)]
pub enum BufferType {
    /// As many descriptors get consumed in the descriptor table as the buffer has elements.
    Direct,
    /// One descriptor in the queue refers to a table holding all of the buffer's descriptors.
    Indirect,
}

/// An element of a buffer handed to the device, by the sizes the queue
/// works with: a sized object occupies `size` bytes; a vector holds `len`
/// initialized bytes in room for `capacity` bytes.
#[derive(Debug, Clone, Copy, PartialEq, Eq)]
pub enum BufferElem {
    Sized { size: usize },
    Vector { len: usize, capacity: usize },
}

impl BufferElem {
    /// A vector element holds no more initialized bytes than it has room for.
    pub open spec fn wf(self) -> bool {
        match self {
            BufferElem::Sized { .. } => true,
            BufferElem::Vector { len, capacity } => len <= capacity,
        }
    }

    /// A sized element of `size` bytes.
    pub fn sized(size: usize) -> (r: Self)
        ensures
            r == (BufferElem::Sized { size }),
            r.wf(),
    {
        BufferElem::Sized { size }
    }

    /// A vector element of `len` initialized bytes in room for `capacity`.
    pub fn vector(len: usize, capacity: usize) -> (r: Self)
        requires
            len <= capacity,
        ensures
            r == (BufferElem::Vector { len, capacity }),
            r.wf(),
    {
        BufferElem::Vector { len, capacity }
    }

    /// The initialized length of the element.
    pub open spec fn spec_len(self) -> int {
        match self {
            BufferElem::Sized { size } => size as int,
            BufferElem::Vector { len, .. } => len as int,
        }
    }

    /// The room the element offers.
    pub open spec fn spec_capacity(self) -> int {
        match self {
            BufferElem::Sized { size } => size as int,
            BufferElem::Vector { capacity, .. } => capacity as int,
        }
    }

    /// Returns the initialized length of the element.
    pub fn len(&self) -> (r: u32)
        requires
            self.spec_len() <= u32::MAX,
        ensures
            r == self.spec_len(),
    {
        match self {
            BufferElem::Sized { size } => *size as u32,
            BufferElem::Vector { len, .. } => *len as u32,
        }
    }

    /// Returns the room the element offers for the device to write to.
    pub fn capacity(&self) -> (r: u32)
        requires
            self.spec_capacity() <= u32::MAX,
        ensures
            r == self.spec_capacity(),
            self.wf() ==> self.spec_len() <= r,
            self matches BufferElem::Sized { .. } ==> self.spec_len() == r,
    {
        match self {
            BufferElem::Sized { size } => *size as u32,
            BufferElem::Vector { capacity, .. } => *capacity as u32,
        }
    }
}

/// Buffers ready to be sent: the elements the device reads (`send_buff`) and
/// those it writes (`recv_buff`).
pub struct AvailBufferToken {
    pub send_buff: Vec<BufferElem>,
    pub recv_buff: Vec<BufferElem>,
}

impl AvailBufferToken {
    /// A buffer token of the given elements; at least one of the two must
    /// hold an element.
    pub fn new(send_buff: Vec<BufferElem>, recv_buff: Vec<BufferElem>) -> (r: Result<
        Self,
        VirtqError,
    >)
        ensures
            send_buff@.len() == 0 && recv_buff@.len() == 0 ==> r == Err::<Self, VirtqError>(
                VirtqError::BufferNotSpecified,
            ),
            send_buff@.len() > 0 || recv_buff@.len() > 0 ==> (r matches Ok(t) && t.send_buff@
                == send_buff@ && t.recv_buff@ == recv_buff@),
    {
        if send_buff.len() == 0 && recv_buff.len() == 0 {
            return Err(VirtqError::BufferNotSpecified);
        }
        Ok(AvailBufferToken { send_buff, recv_buff })
    }

    /// The overall number of descriptors.
    pub fn num_descr(&self) -> (r: u16)
        requires
            self.send_buff@.len() + self.recv_buff@.len() <= u16::MAX,
        ensures
            r == self.send_buff@.len() + self.recv_buff@.len(),
    {
        (self.send_buff.len() + self.recv_buff.len()) as u16
    }

    /// The number of descriptors the token takes in the queue: one for an
    /// indirect buffer, one per element otherwise.
    pub fn num_consuming_descr(&self, buffer_type: BufferType) -> (r: u16)
        requires
            self.send_buff@.len() + self.recv_buff@.len() <= u16::MAX,
        ensures
            r == (match buffer_type {
                BufferType::Indirect => 1,
                BufferType::Direct => self.send_buff@.len() + self.recv_buff@.len(),
            }),
    {
        match buffer_type {
            BufferType::Indirect => 1,
            BufferType::Direct => self.num_descr(),
        }
    }
}

/// The device-writable elements of a used buffer and how many bytes the
/// device wrote into them that were not handed out yet.
pub struct UsedDeviceWritableBuffer {
    pub elems: Vec<BufferElem>,
    pub remaining_written_len: u32,
}

impl UsedDeviceWritableBuffer {
    /// Hands out the first element, a vector, with its length set to the bytes
    /// the device wrote into it; `None` when no element is left.
    pub fn pop_front_vec(&mut self) -> (r: Option<BufferElem>)
        requires
            old(self).elems@.len() > 0 ==> (old(self).elems@[0] matches BufferElem::Vector {
                capacity,
                ..
            } && capacity <= u32::MAX),
        ensures
            old(self).elems@.len() == 0 ==> r is None && *final(self) == *old(self),
            old(self).elems@.len() > 0 ==> ({
                let cap = old(self).elems@[0].spec_capacity();
                let new_len = if cap <= old(self).remaining_written_len {
                    cap
                } else {
                    old(self).remaining_written_len as int
                };
                &&& r == Some(BufferElem::Vector { len: new_len as usize, capacity: cap as usize })
                &&& r->0.wf()
                &&& final(self).remaining_written_len == old(self).remaining_written_len - new_len
                &&& final(self).elems@ == old(self).elems@.drop_first()
            }),
    {
        if self.elems.len() == 0 {
            return None;
        }
        let elem = self.elems.remove(0);
        match elem {
            BufferElem::Vector { capacity, .. } => {
                let cap = capacity as u32;
                let new_len = if cap <= self.remaining_written_len {
                    cap
                } else {
                    self.remaining_written_len
                };
                self.remaining_written_len = self.remaining_written_len - new_len;
                Some(BufferElem::Vector { len: new_len as usize, capacity })
            },
            BufferElem::Sized { .. } => {
                proof {
                    assert(false);
                }
                None
            },
        }
    }

    /// Hands out the first element, a sized one, with the number of bytes the
    /// device wrote into it.
    pub fn pop_front_raw(&mut self) -> (r: (BufferElem, usize))
        requires
            old(self).elems@.len() > 0,
            old(self).elems@[0] matches BufferElem::Sized { size } && size <= u32::MAX,
        ensures
            ({
                let cap = old(self).elems@[0].spec_capacity();
                let len = if cap <= old(self).remaining_written_len {
                    cap
                } else {
                    old(self).remaining_written_len as int
                };
                &&& r == (old(self).elems@[0], len as usize)
                &&& final(self).remaining_written_len == old(self).remaining_written_len - len
                &&& final(self).elems@ == old(self).elems@.drop_first()
            }),
    {
        let elem = self.elems.remove(0);
        let capacity = match elem {
            BufferElem::Sized { size } => size as u32,
            BufferElem::Vector { .. } => {
                proof {
                    assert(false);
                }
                0
            },
        };
        let len = if capacity <= self.remaining_written_len {
            capacity
        } else {
            self.remaining_written_len
        };
        self.remaining_written_len = self.remaining_written_len - len;
        (elem, len as usize)
    }
}

/// The pool of free descriptor ids of a virtqueue.
pub struct MemPool {
    pub pool: Vec<u16>,
    pub limit: u16,
}

impl MemPool {
    /// Returns a given id to the id pool.
    pub fn ret_id(&mut self, id: u16)
        ensures
            final(self).pool@ == old(self).pool@.push(id),
            final(self).limit == old(self).limit,
    {
        self.pool.push(id);
    }

    /// Takes an id out of the pool, the most recently returned one first.
    pub fn take_id(&mut self) -> (r: Option<u16>)
        ensures
            old(self).pool@.len() == 0 ==> r is None && final(self).pool@ == old(self).pool@,
            old(self).pool@.len() > 0 ==> r == Some(old(self).pool@.last()) && final(self).pool@
                == old(self).pool@.drop_last(),
            final(self).limit == old(self).limit,
    {
        self.pool.pop()
    }

    /// A pool holding the ids `0..size`.
    pub fn new(size: u16) -> (r: MemPool)
        ensures
            r.limit == size,
            r.pool@.len() == size,
            forall|i: int| 0 <= i < size ==> r.pool@[i] == i,
    {
        let mut pool: Vec<u16> = Vec::new();
        let mut i: u16 = 0;
        while i < size
            invariant
                0 <= i <= size,
                pool@.len() == i,
                forall|j: int| 0 <= j < i ==> pool@[j] == j,
            decreases size - i,
        {
            pool.push(i);
            i = i + 1;
        }
        MemPool { pool, limit: size }
    }

    /// Whether all ids are back in the pool.
    pub fn all_available(&self) -> (r: bool)
        ensures
            r == (self.pool@.len() == self.limit),
    {
        self.pool.len() == self.limit as usize
    }
}

/// A descriptor as far as a buffer's element determines it: where the
/// element lies, how long it is, and its flags. The queue completes it with
/// what links it to the other descriptors of the buffer.
#[derive(Debug, Clone, Copy, PartialEq, Eq)]
pub struct IncompleteDesc {
    pub addr: u64,
    pub len: u32,
    pub flags: u16,
}

/// The descriptor of element `k` of a buffer with elements `send` then
/// `recv`, the elements lying at `addrs`: the device reads a sent element's
/// initialized length and writes up to a received element's capacity; every
/// descriptor but the last goes on in another one.
pub open spec fn incomplete_desc(
    send: Seq<BufferElem>,
    recv: Seq<BufferElem>,
    addrs: Seq<u64>,
    k: int,
) -> IncompleteDesc {
    let n = send.len() + recv.len();
    let next = if k < n - 1 {
        DESC_F_NEXT
    } else {
        0u16
    };
    if k < send.len() {
        IncompleteDesc { addr: addrs[k], len: send[k].spec_len() as u32, flags: next }
    } else {
        IncompleteDesc {
            addr: addrs[k],
            len: recv[k - send.len()].spec_capacity() as u32,
            flags: DESC_F_WRITE | next,
        }
    }
}

/// The descriptors of the elements of `buffer_tkn`, which lie at `addrs`
/// (the sent elements first, then the received ones), in that order; a
/// token without elements is refused.
pub fn descriptor_iter(buffer_tkn: &AvailBufferToken, addrs: &Vec<u64>) -> (r: Result<
    Vec<IncompleteDesc>,
    VirtqError,
>)
    requires
        addrs@.len() == buffer_tkn.send_buff@.len() + buffer_tkn.recv_buff@.len(),
        forall|k: int|
            0 <= k < buffer_tkn.send_buff@.len() ==> (#[trigger] buffer_tkn.send_buff@[k]).spec_len()
                <= u32::MAX,
        forall|k: int|
            0 <= k < buffer_tkn.recv_buff@.len() ==> (
            #[trigger] buffer_tkn.recv_buff@[k]).spec_capacity() <= u32::MAX,
    ensures
        r is Err <==> addrs@.len() == 0,
        r matches Err(e) ==> e == VirtqError::BufferNotSpecified,
        r matches Ok(descs) ==> {
            &&& descs@.len() == addrs@.len()
            &&& forall|k: int|
                0 <= k < descs@.len() ==> #[trigger] descs@[k] == incomplete_desc(
                    buffer_tkn.send_buff@,
                    buffer_tkn.recv_buff@,
                    addrs@,
                    k,
                )
        },
{
    let n = addrs.len();
    if n == 0 {
        return Err(VirtqError::BufferNotSpecified);
    }
    let ghost send = buffer_tkn.send_buff@;
    let ghost recv = buffer_tkn.recv_buff@;
    let s = buffer_tkn.send_buff.len();
    let mut descs: Vec<IncompleteDesc> = Vec::new();
    let mut k: usize = 0;
    while k < n
        invariant
            n == addrs@.len(),
            n == send.len() + recv.len(),
            s == send.len(),
            send == buffer_tkn.send_buff@,
            recv == buffer_tkn.recv_buff@,
            forall|j: int| 0 <= j < send.len() ==> (#[trigger] send[j]).spec_len() <= u32::MAX,
            forall|j: int| 0 <= j < recv.len() ==> (#[trigger] recv[j]).spec_capacity() <= u32::MAX,
            k <= n,
            descs@.len() == k,
            forall|j: int| 0 <= j < k ==> #[trigger] descs@[j] == incomplete_desc(send, recv, addrs@, j),
        decreases n - k,
    {
        let next: u16 = if k < n - 1 {
            DESC_F_NEXT
        } else {
            0
        };
        let desc = if k < s {
            IncompleteDesc { addr: addrs[k], len: buffer_tkn.send_buff[k].len(), flags: next }
        } else {
            IncompleteDesc {
                addr: addrs[k],
                len: buffer_tkn.recv_buff[k - s].capacity(),
                flags: DESC_F_WRITE | next,
            }
        };
        descs.push(desc);
        k += 1;
    }
    Ok(descs)
}

/// The device has virtqueue `index`, and its notification address can be
/// computed.
pub open spec fn queue_ready<R: CommonCfgAccess>(
    com_cfg: ComCfg<R>,
    notif_cfg: NotifCfg,
    index: u16,
) -> bool {
    &&& com_cfg.queue(index).size != 0
    &&& com_cfg.queue(index).notify_off * notif_cfg.spec_multiplier() <= u32::MAX
    &&& notif_cfg.spec_base_addr() + com_cfg.queue(index).notify_off * notif_cfg.spec_multiplier()
        <= u64::MAX
}

/// A virtqueue of either kind.
pub enum VirtQueue<T> {
    Split(SplitVq<T>),
    Packed(PackedVq<T>),
}

/// Clearing or setting the no-interrupt flag of a split ring's available
/// ring.
pub proof fn lemma_no_interrupt_flag(flags: u16)
    ensures
        (flags & !VIRTQ_AVAIL_F_NO_INTERRUPT) & VIRTQ_AVAIL_F_NO_INTERRUPT == 0,
        (flags | VIRTQ_AVAIL_F_NO_INTERRUPT) & VIRTQ_AVAIL_F_NO_INTERRUPT != 0,
{
    assert((flags & !1u16) & 1u16 == 0 && (flags | 1u16) & 1u16 != 0) by (bit_vector);
}

impl<T> VirtQueue<T> {
    /// Whether the queue is well formed: a split queue's ring is.
    pub open spec fn wf(&self) -> bool {
        match self {
            VirtQueue::Split(vq) => vq.spec_ring().wf(),
            VirtQueue::Packed(_) => true,
        }
    }

    pub open spec fn spec_size(&self) -> u16 {
        match self {
            VirtQueue::Split(vq) => vq.spec_size(),
            VirtQueue::Packed(vq) => vq.spec_size(),
        }
    }

    pub open spec fn spec_index(&self) -> u16 {
        match self {
            VirtQueue::Split(vq) => vq.spec_index(),
            VirtQueue::Packed(vq) => vq.spec_index(),
        }
    }

    /// Whether the device is asked for notifications when it uses buffers.
    pub open spec fn notifs_enabled(&self) -> bool {
        match self {
            VirtQueue::Split(vq) => vq.spec_ring().avail_flags() & VIRTQ_AVAIL_F_NO_INTERRUPT == 0,
            VirtQueue::Packed(vq) => vq.spec_drv_event().raw.flags == RING_EVENT_FLAGS_ENABLE,
        }
    }

    /// Sets up virtqueue `index` of the device as a packed queue where
    /// `packed`, as a split queue otherwise, of at most `size` descriptors:
    /// it takes `size` or the device's size for it, whichever is smaller, and
    /// is enabled. A queue the device does not have is refused, and so is a
    /// packed queue for in-order use.
    pub fn new<R: CommonCfgAccess>(
        packed: bool,
        com_cfg: &mut ComCfg<R>,
        notif_cfg: &NotifCfg,
        size: u16,
        index: u16,
        features: u128,
    ) -> (r: Result<Self, VirtqError>)
        requires
            0 < size <= 0x8000,
            old(com_cfg).queue(index).notify_off * notif_cfg.spec_multiplier() <= u32::MAX,
            notif_cfg.spec_base_addr() + old(com_cfg).queue(index).notify_off
                * notif_cfg.spec_multiplier() <= u64::MAX,
        ensures
            r is Err <==> old(com_cfg).queue(index).size == 0 || (packed && features
                & VIRTIO_F_IN_ORDER != 0),
            final(com_cfg).status() == old(com_cfg).status(),
            final(com_cfg).rejects_features() == old(com_cfg).rejects_features(),
            final(com_cfg).feature_regs() == old(com_cfg).feature_regs(),
            r is Err ==> forall|i: u16| #[trigger] final(com_cfg).queue(i) == old(com_cfg).queue(i),
            r matches Ok(vq) ==> {
                let dev_size = old(com_cfg).queue(index).size;
                let vq_size = if dev_size >= size {
                    size
                } else {
                    dev_size
                };
                &&& vq.wf()
                &&& (vq is Packed <==> packed)
                &&& vq.spec_size() == vq_size
                &&& vq.spec_index() == index
                &&& final(com_cfg).queue(index) == (QueueRegs {
                    size: vq_size,
                    enabled: true,
                    ..old(com_cfg).queue(index)
                })
                &&& forall|i: u16| i != index ==> #[trigger] final(com_cfg).queue(i) == old(
                    com_cfg,
                ).queue(i)
            },
    {
        if packed {
            match PackedVq::new(com_cfg, notif_cfg, size, index, features) {
                Ok(vq) => Ok(VirtQueue::Packed(vq)),
                Err(e) => Err(e),
            }
        } else {
            match SplitVq::new(com_cfg, notif_cfg, size, index, features) {
                Ok(vq) => Ok(VirtQueue::Split(vq)),
                Err(e) => Err(e),
            }
        }
    }

    pub fn size(&self) -> (r: u16)
        ensures
            r == self.spec_size(),
    {
        match self {
            VirtQueue::Split(vq) => vq.size(),
            VirtQueue::Packed(vq) => vq.size(),
        }
    }

    /// Asks the device for notifications when it uses buffers.
    pub fn enable_notifs(&mut self)
        requires
            old(self).wf(),
        ensures
            final(self).wf(),
            final(self).notifs_enabled(),
            final(self).spec_size() == old(self).spec_size(),
            final(self).spec_index() == old(self).spec_index(),
            (*final(self) is Packed) == (*old(self) is Packed),
    {
        match self {
            VirtQueue::Split(vq) => {
                proof {
                    lemma_no_interrupt_flag(vq.spec_ring().avail_flags());
                }
                vq.enable_notifs();
            },
            VirtQueue::Packed(vq) => vq.enable_notifs(),
        }
    }

    /// Asks the device for no notifications when it uses buffers.
    pub fn disable_notifs(&mut self)
        requires
            old(self).wf(),
        ensures
            final(self).wf(),
            !final(self).notifs_enabled(),
            final(self).spec_size() == old(self).spec_size(),
            final(self).spec_index() == old(self).spec_index(),
            (*final(self) is Packed) == (*old(self) is Packed),
    {
        match self {
            VirtQueue::Split(vq) => {
                proof {
                    lemma_no_interrupt_flag(vq.spec_ring().avail_flags());
                }
                vq.disable_notifs();
            },
            VirtQueue::Packed(vq) => vq.disable_notifs(),
        }
    }
}

} // verus!
