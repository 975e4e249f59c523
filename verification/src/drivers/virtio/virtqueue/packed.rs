//! Bookkeeping of Virtio's packed virtqueue (Virtio specification v1.1 - 2.7):
//! the descriptor ring's indices, wrap counters and free capacity, and the
//! event suppression structures.

use vstd::prelude::*;

use super::{descriptor_iter, incomplete_desc, AvailBufferToken, MemPool, VirtqError};
use crate::drivers::virtio::transport::pci::{NotifCfg, NotifCtrl};
use crate::drivers::virtio::transport::{ComCfg, CommonCfgAccess, QueueRegs};
use crate::drivers::virtio::{
    VIRTIO_F_IN_ORDER, VIRTIO_F_NOTIFICATION_DATA, VIRTIO_F_RING_EVENT_IDX,
};

verus! {

/// Marks that a descriptor continues via the next one.
pub const DESC_F_NEXT: u16 = 1;
/// Marks a descriptor as device-writable.
pub const DESC_F_WRITE: u16 = 2;
/// Marks a descriptor as referring to a table of descriptors.
pub const DESC_F_INDIRECT: u16 = 4;
/// The available flag of a packed descriptor.
pub const DESC_F_AVAIL: u16 = 0x80;
/// The used flag of a packed descriptor.
pub const DESC_F_USED: u16 = 0x8000;

/// A position in the packed ring: an offset and the wrap counter it goes with.
#[derive(Clone, Copy, Debug, PartialEq, Eq, Structural)]
pub struct RingIdx {
    pub off: u16,
    pub wrap: u8,
}

/// Whether `item` lies in the range from `start` (included) to `end`
/// (excluded) of a ring that may have wrapped in between.
pub open spec fn spec_wrapping_contains(start: RingIdx, end: RingIdx, item: RingIdx) -> bool {
    if start.wrap == end.wrap {
        item.wrap == start.wrap && start.off <= item.off && item.off < end.off
    } else if item.wrap == start.wrap {
        start.off <= item.off
    } else {
        item.off < end.off
    }
}

/// The two ends of a ring range: its start lies in it whenever the range is
/// not empty (it wrapped, or its start comes before its end), and its end
/// never does.
pub proof fn lemma_wrapping_range_ends(start: RingIdx, end: RingIdx)
    ensures
        start.wrap != end.wrap || start.off < end.off ==> spec_wrapping_contains(start, end, start),
        !spec_wrapping_contains(start, end, end),
        start.wrap == end.wrap && end.off <= start.off ==> forall|item: RingIdx|
            !#[trigger] spec_wrapping_contains(start, end, item),
{
}

/// Whether `item` lies in the ring range `start..end`.
pub fn wrapping_contains(start: RingIdx, end: RingIdx, item: RingIdx) -> (r: bool)
    requires
        start.wrap != end.wrap && item.wrap != start.wrap ==> item.wrap == end.wrap,
    ensures
        r == spec_wrapping_contains(start, end, item),
{
    if start.wrap == end.wrap {
        item.wrap == start.wrap && start.off <= item.off && item.off < end.off
    } else if item.wrap == start.wrap {
        start.off <= item.off
    } else {
        item.off < end.off
    }
}

/// The wrap counter of a packed queue (Virtio specification v1.1 - 2.7.1).
#[derive(Clone, Copy, Debug, PartialEq, Eq, Structural)]
pub struct WrapCount(pub bool);

impl WrapCount {
    /// Masks all bits of a descriptor's flags but the wrap count specific ones.
    pub fn flag_mask() -> (r: u16)
        ensures
            r == DESC_F_AVAIL | DESC_F_USED,
    {
        DESC_F_AVAIL | DESC_F_USED
    }

    /// A wrap counter initialized to true.
    pub fn new() -> (r: Self)
        ensures
            r.0,
    {
        WrapCount(true)
    }

    /// Toggles the wrap counter.
    pub fn wrap(&mut self)
        ensures
            final(self).0 == !old(self).0,
    {
        self.0 = !self.0;
    }
}

/// `flags` with the avail flag set to `wc` and the used flag to its opposite.
pub open spec fn marked_avail(flags: u16, wc: bool) -> u16 {
    if wc {
        (flags | DESC_F_AVAIL) & !DESC_F_USED
    } else {
        (flags & !DESC_F_AVAIL) | DESC_F_USED
    }
}

/// Whether `flags` mark a descriptor as used for the device wrap counter `wc`:
/// both avail and used flags equal to it.
pub open spec fn marked_used(flags: u16, wc: bool) -> bool {
    if wc {
        flags & (DESC_F_AVAIL | DESC_F_USED) == (DESC_F_AVAIL | DESC_F_USED)
    } else {
        flags & (DESC_F_AVAIL | DESC_F_USED) == 0
    }
}

/// A descriptor of the packed ring.
#[derive(Clone, Copy, Debug, PartialEq, Eq)]
pub struct PackedDesc {
    pub addr: u64,
    pub len: u32,
    pub id: u16,
    pub flags: u16,
}

/// The value of a wrap counter `wc` after the ring index `index` moved on by
/// `steps` positions of a ring of `size`, no more than once around.
pub open spec fn wc_after(wc: bool, index: int, steps: int, size: int) -> bool {
    if index + steps >= size {
        !wc
    } else {
        wc
    }
}

/// Position `i` descriptors after `w` in a ring of `size`, for `i <= size`.
pub open spec fn ring_pos(w: int, i: int, size: int) -> int {
    if w + i < size {
        w + i
    } else {
        w + i - size
    }
}

/// How many descriptors after `w` the position `q` of a ring of `size` lies.
pub open spec fn ring_offset(w: int, q: int, size: int) -> int {
    if q >= w {
        q - w
    } else {
        q - w + size
    }
}

/// The descriptor `d` as written for the buffer `id` at the `j`-th position
/// from where the buffer starts: flags marked available for the wrap counter
/// the driver has there.
pub open spec fn written_desc(d: PackedDesc, id: u16, drv_wc: bool, w: int, j: int, size: int) -> PackedDesc {
    PackedDesc { id, flags: marked_avail(d.flags, wc_after(drv_wc, w, j, size)), ..d }
}

/// The descriptor ring of a packed virtqueue with the tokens of the buffers
/// in flight, kept under the id of their buffer.
pub struct DescriptorRing<T> {
    ring: Vec<PackedDesc>,
    tkn_ref_ring: Vec<Option<(T, u16)>>,
    /// Where to insert available descriptors next.
    write_index: u16,
    /// How many descriptors can be inserted.
    capacity: u16,
    /// Where to expect the next used descriptor by the device.
    poll_index: u16,
    drv_wc: WrapCount,
    dev_wc: WrapCount,
    mem_pool: MemPool,
}

impl<T> DescriptorRing<T> {
    pub closed spec fn size(&self) -> int {
        self.ring@.len() as int
    }

    pub closed spec fn write_index(&self) -> int {
        self.write_index as int
    }

    pub closed spec fn poll_index(&self) -> int {
        self.poll_index as int
    }

    pub closed spec fn capacity(&self) -> int {
        self.capacity as int
    }

    pub closed spec fn drv_wc(&self) -> bool {
        self.drv_wc.0
    }

    pub closed spec fn dev_wc(&self) -> bool {
        self.dev_wc.0
    }

    pub closed spec fn descs(&self) -> Seq<PackedDesc> {
        self.ring@
    }

    pub closed spec fn free_ids(&self) -> Seq<u16> {
        self.mem_pool.pool@
    }

    /// The token, and the number of descriptors it takes, of the buffer with `id`.
    pub closed spec fn token(&self, id: int) -> Option<(T, u16)> {
        self.tkn_ref_ring@[id]
    }

    /// The number of descriptors handed to the device and not returned yet.
    pub open spec fn in_flight(&self) -> int {
        self.size() - self.capacity()
    }

    /// The ring invariant: the write index is as far ahead of the poll index
    /// as there are descriptors in flight, and the driver's wrap counter
    /// differs from the device's exactly when that stretch crosses the end of
    /// the ring.
    pub open spec fn wf(&self) -> bool {
        &&& 0 < self.size() <= 0x8000
        &&& 0 <= self.write_index() < self.size()
        &&& 0 <= self.poll_index() < self.size()
        &&& 0 <= self.capacity() <= self.size()
        &&& self.write_index() == (if self.poll_index() + self.in_flight() < self.size() {
            self.poll_index() + self.in_flight()
        } else {
            self.poll_index() + self.in_flight() - self.size()
        })
        &&& (self.drv_wc() == self.dev_wc() <==> self.poll_index() + self.in_flight()
            < self.size())
        &&& self.inner_wf()
    }

    pub closed spec fn inner_wf(&self) -> bool {
        &&& self.tkn_ref_ring@.len() == self.ring@.len()
        &&& self.mem_pool.limit == self.ring@.len()
        &&& forall|i: int|
            0 <= i < self.mem_pool.pool@.len() ==> #[trigger] self.mem_pool.pool@[i]
                < self.ring@.len()
    }

    /// A ring of `size` zeroed descriptors with all ids free.
    pub fn new(size: u16) -> (r: Self)
        requires
            0 < size <= 0x8000,
        ensures
            r.wf(),
            r.size() == size,
            r.write_index() == 0 && r.poll_index() == 0 && r.capacity() == size,
            r.drv_wc() && r.dev_wc(),
    {
        let mut ring: Vec<PackedDesc> = Vec::new();
        let mut tkn_ref_ring: Vec<Option<(T, u16)>> = Vec::new();
        let mut i: u16 = 0;
        while i < size
            invariant
                0 <= i <= size,
                ring@.len() == i,
                tkn_ref_ring@.len() == i,
            decreases size - i,
        {
            ring.push(PackedDesc { addr: 0, len: 0, id: 0, flags: 0 });
            tkn_ref_ring.push(None);
            i = i + 1;
        }
        let mem_pool = MemPool::new(size);
        assert(forall|i: int| 0 <= i < mem_pool.pool@.len() ==> #[trigger] mem_pool.pool@[i] < size);
        DescriptorRing {
            ring,
            tkn_ref_ring,
            write_index: 0,
            capacity: size,
            poll_index: 0,
            drv_wc: WrapCount::new(),
            dev_wc: WrapCount::new(),
            mem_pool,
        }
    }

    /// Moves the write index one descriptor on, taking one from the capacity
    /// and wrapping the driver's wrap counter at the end of the ring.
    fn write_incrmt(&mut self)
        requires
            old(self).wf(),
            old(self).capacity() > 0,
        ensures
            final(self).wf(),
            final(self).capacity() == old(self).capacity() - 1,
            final(self).write_index() == (old(self).write_index() + 1) % old(self).size(),
            final(self).drv_wc() == wc_after(
                old(self).drv_wc(),
                old(self).write_index(),
                1,
                old(self).size(),
            ),
            final(self).poll_index() == old(self).poll_index(),
            final(self).dev_wc() == old(self).dev_wc(),
            final(self).ring@ == old(self).ring@,
            final(self).mem_pool.pool@ == old(self).mem_pool.pool@,
            final(self).tkn_ref_ring@ == old(self).tkn_ref_ring@,
    {
        self.capacity = self.capacity - 1;
        let modulo = self.ring.len() as u16;
        if self.write_index + 1 == modulo {
            self.drv_wc.wrap();
        }
        self.write_index = (self.write_index + 1) % modulo;
        proof {
            let n = self.size();
            if old(self).write_index() + 1 < n {
                vstd::arithmetic::div_mod::lemma_small_mod((old(self).write_index() + 1) as nat, n as nat);
            } else {
                vstd::arithmetic::div_mod::lemma_mod_self_0(n);
            }
        }
    }

    /// Moves the poll index one descriptor on, giving one back to the
    /// capacity and wrapping the device's wrap counter at the end of the ring.
    fn read_incrmt(&mut self)
        requires
            old(self).wf(),
            old(self).in_flight() > 0,
        ensures
            final(self).wf(),
            final(self).capacity() == old(self).capacity() + 1,
            final(self).poll_index() == (old(self).poll_index() + 1) % old(self).size(),
            final(self).dev_wc() == wc_after(
                old(self).dev_wc(),
                old(self).poll_index(),
                1,
                old(self).size(),
            ),
            final(self).write_index() == old(self).write_index(),
            final(self).drv_wc() == old(self).drv_wc(),
            final(self).ring@ == old(self).ring@,
            final(self).mem_pool.pool@ == old(self).mem_pool.pool@,
            final(self).tkn_ref_ring@ == old(self).tkn_ref_ring@,
    {
        let modulo = self.ring.len() as u16;
        if self.poll_index + 1 == modulo {
            self.dev_wc.wrap();
        }
        self.capacity = self.capacity + 1;
        self.poll_index = (self.poll_index + 1) % modulo;
        proof {
            let n = self.size();
            let p = old(self).poll_index();
            if p + 1 < n {
                vstd::arithmetic::div_mod::lemma_small_mod((p + 1) as nat, n as nat);
            } else {
                vstd::arithmetic::div_mod::lemma_mod_self_0(n);
            }
        }
    }

    /// The position a buffer written now will be followed by: the write
    /// index with the driver's wrap counter.
    pub fn next_idx(&self) -> (r: RingIdx)
        ensures
            r.off == self.write_index(),
            r.wrap == (if self.drv_wc() {
                1u8
            } else {
                0u8
            }),
    {
        RingIdx {
            off: self.write_index,
            wrap: if self.drv_wc.0 {
                1
            } else {
                0
            },
        }
    }

    /// Returns `flags` with the avail and used flags marking a descriptor
    /// available for the driver's current wrap counter.
    pub fn to_marked_avail(&self, flags: u16) -> (r: u16)
        ensures
            r == marked_avail(flags, self.drv_wc()),
    {
        if self.drv_wc.0 {
            (flags | DESC_F_AVAIL) & !DESC_F_USED
        } else {
            (flags & !DESC_F_AVAIL) | DESC_F_USED
        }
    }

    /// Whether `flags` mark a descriptor as used for the device's current wrap counter.
    pub fn is_marked_used(&self, flags: u16) -> (r: bool)
        ensures
            r == marked_used(flags, self.dev_wc()),
    {
        if self.dev_wc.0 {
            flags & (DESC_F_AVAIL | DESC_F_USED) == (DESC_F_AVAIL | DESC_F_USED)
        } else {
            flags & (DESC_F_AVAIL | DESC_F_USED) == 0
        }
    }

    /// Writes the descriptors `descs` of one buffer, with token `tkn`, into the
    /// ring and makes them available, the first one last. Returns where the
    /// next buffer will start.
    pub fn push(&mut self, tkn: T, descs: Vec<PackedDesc>) -> (r: Result<RingIdx, VirtqError>)
        requires
            old(self).wf(),
            descs@.len() <= u16::MAX,
        ensures
            final(self).wf(),
            final(self).size() == old(self).size(),
            final(self).poll_index() == old(self).poll_index(),
            final(self).dev_wc() == old(self).dev_wc(),
            descs@.len() > old(self).capacity() ==> r == Err::<RingIdx, VirtqError>(
                VirtqError::NoDescrAvail,
            ) && final(self).free_ids() == old(self).free_ids(),
            descs@.len() <= old(self).capacity() && old(self).free_ids().len() == 0 ==> r == Err::<
                RingIdx,
                VirtqError,
            >(VirtqError::NoDescrAvail) && final(self).free_ids() == old(self).free_ids(),
            descs@.len() == 0 && old(self).free_ids().len() > 0 ==> r == Err::<RingIdx, VirtqError>(
                VirtqError::BufferNotSpecified,
            ) && final(self).free_ids() == old(self).free_ids().drop_last(),
            r is Err ==> final(self).capacity() == old(self).capacity() && final(self).write_index()
                == old(self).write_index() && final(self).drv_wc() == old(self).drv_wc()
                && final(self).descs() == old(self).descs() && forall|id: int|
                #[trigger] final(self).token(id) == old(self).token(id),
            r is Ok <==> (0 < descs@.len() <= old(self).capacity() && old(self).free_ids().len()
                > 0),
            r is Ok ==> ({
                let n = descs@.len() as int;
                let w = old(self).write_index();
                let size = old(self).size();
                let id = old(self).free_ids().last();
                &&& final(self).capacity() == old(self).capacity() - n
                &&& final(self).write_index() == ring_pos(w, n, size)
                &&& final(self).drv_wc() == wc_after(old(self).drv_wc(), w, n, size)
                &&& final(self).free_ids() == old(self).free_ids().drop_last()
                &&& final(self).token(id as int) == Some((tkn, n as u16))
                &&& forall|other: int|
                    0 <= other < size && other != id ==> #[trigger] final(self).token(other)
                        == old(self).token(other)
                &&& final(self).descs().len() == size
                &&& forall|q: int|
                    0 <= q < size ==> #[trigger] final(self).descs()[q] == (if ring_offset(w, q, size)
                        < n {
                        written_desc(
                            descs@[ring_offset(w, q, size)],
                            id,
                            old(self).drv_wc(),
                            w,
                            ring_offset(w, q, size),
                            size,
                        )
                    } else {
                        old(self).descs()[q]
                    })
                &&& r == Ok::<RingIdx, VirtqError>(
                    RingIdx {
                        off: final(self).write_index() as u16,
                        wrap: if final(self).drv_wc() {
                            1u8
                        } else {
                            0u8
                        },
                    },
                )
            }),
    {
        let n = descs.len() as u16;
        if n > self.capacity {
            return Err(VirtqError::NoDescrAvail);
        }
        let buff_id = match self.mem_pool.take_id() {
            Some(id) => id,
            None => return Err(VirtqError::NoDescrAvail),
        };
        assert(buff_id == old(self).mem_pool.pool@.last());
        assert(buff_id < self.size());
        if n == 0 {
            proof {
                assert forall|i: int| 0 <= i < self.mem_pool.pool@.len() implies #[trigger] self.mem_pool.pool@[i] < self.ring@.len() by {
                    assert(self.mem_pool.pool@[i] == old(self).mem_pool.pool@[i]);
                }
            }
            return Err(VirtqError::BufferNotSpecified);
        }
        proof {
            assert forall|i: int| 0 <= i < self.mem_pool.pool@.len() implies #[trigger] self.mem_pool.pool@[i] < self.ring@.len() by {
                assert(self.mem_pool.pool@[i] == old(self).mem_pool.pool@[i]);
            }
        }
        let ghost w = self.write_index();
        let ghost size = self.size();
        let ghost drv0 = self.drv_wc();
        let ghost descs0 = self.descs();
        let ghost cap0 = self.capacity();
        let ghost pool1 = self.free_ids();
        let start = self.write_index;
        let mut first_flags: u16 = 0;
        let mut i: u16 = 0;
        while i < n
            invariant
                self.wf(),
                n == descs@.len(),
                0 <= i <= n,
                n <= cap0,
                self.size() == size,
                size == old(self).size(),
                0 <= w < size,
                start == w,
                buff_id < size,
                self.capacity() == cap0 - i,
                self.write_index() == ring_pos(w, i as int, size),
                self.drv_wc() == wc_after(drv0, w, i as int, size),
                self.poll_index() == old(self).poll_index(),
                self.dev_wc() == old(self).dev_wc(),
                0 <= cap0 <= size,
                self.free_ids() == pool1,
                self.tkn_ref_ring@ == old(self).tkn_ref_ring@,
                i > 0 ==> first_flags == marked_avail(descs@[0].flags, drv0),
                self.descs().len() == size,
                forall|q: int|
                    0 <= q < size ==> #[trigger] self.descs()[q] == (if ring_offset(w, q, size)
                        < i {
                        if ring_offset(w, q, size) == 0 {
                            PackedDesc { id: buff_id, ..descs@[0] }
                        } else {
                            written_desc(
                                descs@[ring_offset(w, q, size)],
                                buff_id,
                                drv0,
                                w,
                                ring_offset(w, q, size),
                                size,
                            )
                        }
                    } else {
                        descs0[q]
                    }),
            decreases n - i,
        {
            let mut d = descs[i as usize];
            d.id = buff_id;
            if i == 0 {
                first_flags = self.to_marked_avail(d.flags);
            } else {
                d.flags = self.to_marked_avail(d.flags);
            }
            let pos = self.write_index;
            self.ring.set(pos as usize, d);
            self.write_incrmt();
            proof {
                assert forall|q: int| 0 <= q < size implies #[trigger] self.descs()[q] == (if ring_offset(w, q, size)
                        < i + 1 {
                        if ring_offset(w, q, size) == 0 {
                            PackedDesc { id: buff_id, ..descs@[0] }
                        } else {
                            written_desc(
                                descs@[ring_offset(w, q, size)],
                                buff_id,
                                drv0,
                                w,
                                ring_offset(w, q, size),
                                size,
                            )
                        }
                    } else {
                        descs0[q]
                    }) by {
                    if q == pos {
                        assert(ring_offset(w, q, size) == i);
                    } else {
                        assert(ring_offset(w, q, size) != i);
                    }
                }
                if w + i + 1 < size {
                    vstd::arithmetic::div_mod::lemma_small_mod((w + i + 1) as nat, size as nat);
                } else if w + i + 1 == size {
                    vstd::arithmetic::div_mod::lemma_mod_self_0(size);
                } else {
                    vstd::arithmetic::div_mod::lemma_small_mod((w + i + 1 - size) as nat, size as nat);
                }
            }
            i = i + 1;
        }
        let mut slot: Option<(T, u16)> = Some((tkn, n));
        self.tkn_ref_ring.set_and_swap(buff_id as usize, &mut slot);
        let mut first = self.ring[start as usize];
        first.flags = first_flags;
        self.ring.set(start as usize, first);
        proof {
            assert forall|q: int| 0 <= q < size implies #[trigger] self.descs()[q] == (if ring_offset(w, q, size)
                < n {
                written_desc(
                    descs@[ring_offset(w, q, size)],
                    buff_id,
                    drv0,
                    w,
                    ring_offset(w, q, size),
                    size,
                )
            } else {
                descs0[q]
            }) by {
                if q == w {
                    assert(ring_offset(w, q, size) == 0);
                }
            }
        }
        Ok(self.next_idx())
    }

    /// Takes note of what the device wrote into descriptor `q` of the ring.
    pub fn record_device_write(&mut self, q: u16, desc: PackedDesc)
        requires
            old(self).wf(),
            q < old(self).size(),
        ensures
            final(self).wf(),
            final(self).descs() == old(self).descs().update(q as int, desc),
            final(self).size() == old(self).size(),
            final(self).write_index() == old(self).write_index(),
            final(self).poll_index() == old(self).poll_index(),
            final(self).capacity() == old(self).capacity(),
            final(self).drv_wc() == old(self).drv_wc(),
            final(self).dev_wc() == old(self).dev_wc(),
            final(self).free_ids() == old(self).free_ids(),
            forall|id: int| #[trigger] final(self).token(id) == old(self).token(id),
    {
        self.ring.set(q as usize, desc);
    }

    /// Takes the next buffer the device marked used: its token and the number
    /// of bytes the device wrote. Returns the buffer's descriptors to the
    /// ring and its id to the pool; `None` when the device has not marked the
    /// descriptor at the poll index used yet.
    pub fn poll_next(&mut self) -> (r: Option<(T, u32)>)
        requires
            old(self).wf(),
            ({
                let d = old(self).descs()[old(self).poll_index()];
                marked_used(d.flags, old(self).dev_wc()) ==> {
                    &&& d.id < old(self).size()
                    &&& old(self).token(d.id as int) matches Some(t)
                    &&& t.1 <= old(self).in_flight()
                }
            }),
        ensures
            final(self).wf(),
            final(self).size() == old(self).size(),
            final(self).write_index() == old(self).write_index(),
            final(self).drv_wc() == old(self).drv_wc(),
            final(self).descs() == old(self).descs(),
            ({
                let d = old(self).descs()[old(self).poll_index()];
                let p = old(self).poll_index();
                let size = old(self).size();
                &&& !marked_used(d.flags, old(self).dev_wc()) ==> r is None && final(self).poll_index()
                    == p && final(self).capacity() == old(self).capacity() && final(self).dev_wc()
                    == old(self).dev_wc() && final(self).free_ids() == old(self).free_ids()
                    && forall|id: int| #[trigger] final(self).token(id) == old(self).token(id)
                &&& marked_used(d.flags, old(self).dev_wc()) ==> {
                    let t = old(self).token(d.id as int)->Some_0;
                    let k = t.1 as int;
                    &&& r == Some((t.0, d.len))
                    &&& final(self).poll_index() == ring_pos(p, k, size)
                    &&& final(self).dev_wc() == wc_after(old(self).dev_wc(), p, k, size)
                    &&& final(self).capacity() == old(self).capacity() + k
                    &&& final(self).free_ids() == old(self).free_ids().push(d.id)
                    &&& final(self).token(d.id as int) is None
                    &&& forall|id: int|
                        0 <= id < size && id != d.id ==> #[trigger] final(self).token(id)
                            == old(self).token(id)
                }
            }),
    {
        let desc = self.ring[self.poll_index as usize];
        if !self.is_marked_used(desc.flags) {
            return None;
        }
        let buff_id = desc.id;
        let mut slot: Option<(T, u16)> = None;
        self.tkn_ref_ring.set_and_swap(buff_id as usize, &mut slot);
        let (tkn, k) = match slot {
            Some(t) => t,
            None => {
                proof {
                    assert(false);
                }
                return None;
            },
        };
        let write_len = desc.len;
        let ghost p = self.poll_index();
        let ghost size = self.size();
        let ghost dev0 = self.dev_wc();
        let ghost cap0 = self.capacity();
        let ghost toks = self.tkn_ref_ring@;
        let mut i: u16 = 0;
        while i < k
            invariant
                self.wf(),
                0 <= i <= k,
                k <= size - cap0,
                0 <= cap0 <= size,
                self.size() == size,
                size == old(self).size(),
                0 <= p < size,
                self.capacity() == cap0 + i,
                self.poll_index() == ring_pos(p, i as int, size),
                self.dev_wc() == wc_after(dev0, p, i as int, size),
                self.write_index() == old(self).write_index(),
                self.drv_wc() == old(self).drv_wc(),
                self.descs() == old(self).descs(),
                self.free_ids() == old(self).free_ids(),
                self.tkn_ref_ring@ == toks,
            decreases k - i,
        {
            self.read_incrmt();
            proof {
                if p + i + 1 < size {
                    vstd::arithmetic::div_mod::lemma_small_mod((p + i + 1) as nat, size as nat);
                } else if p + i + 1 == size {
                    vstd::arithmetic::div_mod::lemma_mod_self_0(size);
                } else {
                    vstd::arithmetic::div_mod::lemma_small_mod((p + i + 1 - size) as nat, size as nat);
                }
            }
            i = i + 1;
        }
        self.mem_pool.ret_id(buff_id);
        proof {
            assert forall|i: int| 0 <= i < self.mem_pool.pool@.len() implies #[trigger] self.mem_pool.pool@[i] < self.ring@.len() by {
                if i < old(self).mem_pool.pool@.len() {
                    assert(self.mem_pool.pool@[i] == old(self).mem_pool.pool@[i]);
                }
            }
        }
        Some((tkn, write_len))
    }
}

/// Event flags value: notifications enabled.
pub const RING_EVENT_FLAGS_ENABLE: u16 = 0;
/// Event flags value: notifications disabled.
pub const RING_EVENT_FLAGS_DISABLE: u16 = 1;
/// Event flags value: notification for a specific descriptor.
pub const RING_EVENT_FLAGS_DESC: u16 = 2;

/// An event suppression structure of a packed queue: `desc` holds the
/// descriptor offset in its low 15 bits and the wrap counter in the top bit,
/// the low two bits of `flags` the event flags.
#[derive(Clone, Copy, Debug, PartialEq, Eq)]
pub struct EventSuppress {
    pub desc: u16,
    pub flags: u16,
}

/// The driver event suppression structure, which the device reads and which
/// controls the used buffer notifications the device sends.
pub struct DrvNotif {
    /// Indicates if VIRTIO_F_RING_EVENT_IDX has been negotiated.
    pub f_notif_idx: bool,
    pub raw: EventSuppress,
}

impl DrvNotif {
    /// Enables notifications.
    pub fn enable_notif(&mut self)
        ensures
            final(self).raw.flags == RING_EVENT_FLAGS_ENABLE,
            final(self).raw.desc == old(self).raw.desc,
            final(self).f_notif_idx == old(self).f_notif_idx,
    {
        self.raw.flags = RING_EVENT_FLAGS_ENABLE;
    }

    /// Disables notifications.
    pub fn disable_notif(&mut self)
        ensures
            final(self).raw.flags == RING_EVENT_FLAGS_DISABLE,
            final(self).raw.desc == old(self).raw.desc,
            final(self).f_notif_idx == old(self).f_notif_idx,
    {
        self.raw.flags = RING_EVENT_FLAGS_DISABLE;
    }

    /// Asks for a notification for the descriptor at `idx`, if
    /// VIRTIO_F_RING_EVENT_IDX has been negotiated.
    pub fn enable_specific(&mut self, idx: RingIdx)
        requires
            idx.off < 0x8000,
            idx.wrap <= 1,
        ensures
            final(self).f_notif_idx == old(self).f_notif_idx,
            old(self).f_notif_idx ==> final(self).raw == (EventSuppress {
                desc: (idx.off + idx.wrap * 0x8000) as u16,
                flags: RING_EVENT_FLAGS_DESC,
            }),
            !old(self).f_notif_idx ==> final(self).raw == old(self).raw,
    {
        if self.f_notif_idx {
            self.raw.flags = RING_EVENT_FLAGS_DESC;
            self.raw.desc = idx.off | ((idx.wrap as u16) << 15);
            proof {
                let off = idx.off;
                let wrap = idx.wrap as u16;
                assert(off | (wrap << 15) == off + wrap * 0x8000) by (bit_vector)
                    requires
                        off < 0x8000,
                        wrap <= 1,
                ;
            }
        }
    }
}

/// The device event suppression structure, which the driver reads and which
/// controls the available buffer notifications the driver sends.
pub struct DevNotif {
    /// Indicates if VIRTIO_F_RING_EVENT_IDX has been negotiated.
    pub f_notif_idx: bool,
    pub raw: EventSuppress,
}

impl DevNotif {
    /// Enables the notification capability for a specific buffer.
    pub fn enable_notif_specific(&mut self)
        ensures
            final(self).f_notif_idx,
            final(self).raw == old(self).raw,
    {
        self.f_notif_idx = true;
    }

    /// Whether the device wants notifications.
    pub fn is_notif(&self) -> (r: bool)
        ensures
            r == (self.raw.flags & 3 == RING_EVENT_FLAGS_ENABLE),
    {
        self.raw.flags & 3 == RING_EVENT_FLAGS_ENABLE
    }

    /// The position the device wants a notification for, if it asks for one.
    pub fn notif_specific(&self) -> (r: Option<RingIdx>)
        ensures
            !self.f_notif_idx || self.raw.flags & 3 != RING_EVENT_FLAGS_DESC ==> r is None,
            self.f_notif_idx && self.raw.flags & 3 == RING_EVENT_FLAGS_DESC ==> r == Some(
                RingIdx { off: self.raw.desc % 0x8000, wrap: (self.raw.desc / 0x8000) as u8 },
            ),
    {
        if !self.f_notif_idx {
            return None;
        }
        if self.raw.flags & 3 != RING_EVENT_FLAGS_DESC {
            return None;
        }
        let desc = self.raw.desc;
        proof {
            assert(desc & 0x7fff == desc % 0x8000) by (bit_vector);
            assert(desc >> 15 == desc / 0x8000) by (bit_vector);
        }
        Some(RingIdx { off: desc & 0x7fff, wrap: (desc >> 15) as u8 })
    }
}

/// Whether a batch of buffers made available from `last_next` up to
/// `next_idx` must be announced to the device: when it wants notifications,
/// or asks for one at a position in that range.
pub fn should_notify_batch(dev_event: &DevNotif, last_next: RingIdx, next_idx: RingIdx) -> (r: bool)
    requires
        last_next.wrap <= 1,
        next_idx.wrap <= 1,
    ensures
        r == (dev_event.raw.flags & 3 == RING_EVENT_FLAGS_ENABLE || (dev_event.f_notif_idx
            && dev_event.raw.flags & 3 == RING_EVENT_FLAGS_DESC && spec_wrapping_contains(
            last_next,
            next_idx,
            RingIdx {
                off: dev_event.raw.desc % 0x8000,
                wrap: (dev_event.raw.desc / 0x8000) as u8,
            },
        ))),
        dev_event.f_notif_idx && dev_event.raw.flags & 3 == RING_EVENT_FLAGS_DESC && (RingIdx {
            off: dev_event.raw.desc % 0x8000,
            wrap: (dev_event.raw.desc / 0x8000) as u8,
        }) == last_next && (last_next.wrap != next_idx.wrap || last_next.off < next_idx.off) ==> r,
{
    proof {
        lemma_wrapping_range_ends(last_next, next_idx);
    }
    let notif_specific = match dev_event.notif_specific() {
        Some(idx) => {
            assert(idx.wrap <= 1) by {
                assert(dev_event.raw.desc / 0x8000 <= 1);
            }
            wrapping_contains(last_next, next_idx, idx)
        },
        None => false,
    };
    dev_event.is_notif() || notif_specific
}

/// Whether a single buffer made available must be announced to the device:
/// when it wants notifications, or asks for one at `last_next`.
pub fn should_notify(dev_event: &DevNotif, last_next: RingIdx) -> (r: bool)
    ensures
        r == (dev_event.raw.flags & 3 == RING_EVENT_FLAGS_ENABLE || (dev_event.f_notif_idx
            && dev_event.raw.flags & 3 == RING_EVENT_FLAGS_DESC && (RingIdx {
            off: dev_event.raw.desc % 0x8000,
            wrap: (dev_event.raw.desc / 0x8000) as u8,
        }) == last_next)),
{
    let notif_specific = match dev_event.notif_specific() {
        Some(idx) => idx == last_next,
        None => false,
    };
    dev_event.is_notif() || notif_specific
}

/// A packed virtqueue: its descriptor ring, the event suppression
/// structures and how the device is notified about it.
pub struct PackedVq<T> {
    descr_ring: DescriptorRing<T>,
    drv_event: DrvNotif,
    dev_event: DevNotif,
    notif_ctrl: NotifCtrl,
    size: u16,
    index: u16,
}

/// Why a packed virtqueue cannot be set up as queue `index` with at most
/// `size` descriptors, where the device offers `dev_size` for that queue
/// (0 where it has no such queue): in-order use is not supported, the
/// queue must exist, and the size must be between 1 and 0x8000.
pub open spec fn packed_vq_error(size: u16, index: u16, features: u128, dev_size: u16) -> Option<
    VirtqError,
> {
    if features & VIRTIO_F_IN_ORDER != 0 {
        Some(VirtqError::FeatureNotSupported(VIRTIO_F_IN_ORDER))
    } else if dev_size == 0 {
        Some(VirtqError::QueueNotExisting(index))
    } else if size == 0 || size > 0x8000 {
        Some(VirtqError::QueueSizeNotAllowed(size))
    } else {
        None
    }
}

impl<T> PackedVq<T> {
    pub closed spec fn ring(&self) -> DescriptorRing<T> {
        self.descr_ring
    }

    pub closed spec fn spec_size(&self) -> u16 {
        self.size
    }

    pub closed spec fn spec_index(&self) -> u16 {
        self.index
    }

    pub closed spec fn spec_notif_ctrl(&self) -> NotifCtrl {
        self.notif_ctrl
    }

    pub closed spec fn spec_drv_event(&self) -> DrvNotif {
        self.drv_event
    }

    pub closed spec fn spec_dev_event(&self) -> DevNotif {
        self.dev_event
    }

    /// Sets up virtqueue `index` of the device as a packed queue of at most
    /// `size` descriptors: the queue takes `size` or the device's size for
    /// it, whichever is smaller, gets an empty ring of that size and zeroed
    /// event suppression structures, is notified at the address its
    /// notification offset gives, and is enabled.
    pub fn new<R: CommonCfgAccess>(
        com_cfg: &mut ComCfg<R>,
        notif_cfg: &NotifCfg,
        size: u16,
        index: u16,
        features: u128,
    ) -> (r: Result<Self, VirtqError>)
        requires
            old(com_cfg).queue(index).notify_off * notif_cfg.spec_multiplier() <= u32::MAX,
            notif_cfg.spec_base_addr() + old(com_cfg).queue(index).notify_off
                * notif_cfg.spec_multiplier() <= u64::MAX,
        ensures
            r is Err <==> packed_vq_error(size, index, features, old(com_cfg).queue(index).size) is Some,
            r matches Err(e) ==> packed_vq_error(size, index, features, old(com_cfg).queue(index).size)
                == Some(e),
            final(com_cfg).rejects_features() == old(com_cfg).rejects_features(),
            final(com_cfg).feature_regs() == old(com_cfg).feature_regs(),
            r is Err ==> final(com_cfg).status() == old(com_cfg).status() && forall|i: u16| #[trigger]
                final(com_cfg).queue(i) == old(com_cfg).queue(i),
            r matches Ok(vq) ==> {
                let dev_size = old(com_cfg).queue(index).size;
                let vq_size = if dev_size >= size {
                    size
                } else {
                    dev_size
                };
                &&& vq.spec_size() == vq_size
                &&& vq.spec_index() == index
                &&& vq.ring().wf()
                &&& vq.ring().size() == vq_size
                &&& vq.ring().write_index() == 0 && vq.ring().poll_index() == 0
                &&& vq.ring().capacity() == vq_size
                &&& vq.ring().drv_wc() && vq.ring().dev_wc()
                &&& vq.spec_notif_ctrl().spec_addr() == notif_cfg.spec_base_addr() + old(
                    com_cfg,
                ).queue(index).notify_off * notif_cfg.spec_multiplier()
                &&& vq.spec_notif_ctrl().spec_notif_data() == (features
                    & VIRTIO_F_NOTIFICATION_DATA != 0)
                &&& vq.spec_drv_event().f_notif_idx == (features & VIRTIO_F_RING_EVENT_IDX != 0)
                &&& vq.spec_drv_event().raw == EventSuppress { desc: 0, flags: 0 }
                &&& !vq.spec_dev_event().f_notif_idx
                &&& vq.spec_dev_event().raw == EventSuppress { desc: 0, flags: 0 }
                &&& final(com_cfg).queue(index) == (QueueRegs {
                    size: vq_size,
                    enabled: true,
                    ..old(com_cfg).queue(index)
                })
                &&& final(com_cfg).status() == old(com_cfg).status()
                &&& forall|i: u16| i != index ==> #[trigger] final(com_cfg).queue(i) == old(
                    com_cfg,
                ).queue(i)
            },
    {
        if features & VIRTIO_F_IN_ORDER != 0 {
            return Err(VirtqError::FeatureNotSupported(VIRTIO_F_IN_ORDER));
        }
        let vq_handler = match com_cfg.select_vq(index) {
            Some(h) => h,
            None => return Err(VirtqError::QueueNotExisting(index)),
        };
        if size == 0 || size > 0x8000 {
            return Err(VirtqError::QueueSizeNotAllowed(size));
        }
        let vq_size = vq_handler.set_vq_size(com_cfg, size);
        let descr_ring = DescriptorRing::new(vq_size);
        let drv_event = DrvNotif {
            f_notif_idx: features & VIRTIO_F_RING_EVENT_IDX != 0,
            raw: EventSuppress { desc: 0, flags: 0 },
        };
        let dev_event = DevNotif { f_notif_idx: false, raw: EventSuppress { desc: 0, flags: 0 } };
        let notif_off = vq_handler.notif_off(com_cfg);
        let mut notif_ctrl = NotifCtrl::new(notif_cfg.notification_location(notif_off));
        if features & VIRTIO_F_NOTIFICATION_DATA != 0 {
            notif_ctrl.enable_notif_data();
        }
        vq_handler.enable_queue(com_cfg);
        Ok(PackedVq { descr_ring, drv_event, dev_event, notif_ctrl, size: vq_size, index })
    }

    pub fn size(&self) -> (r: u16)
        ensures
            r == self.spec_size(),
    {
        self.size
    }

    pub fn index(&self) -> (r: u16)
        ensures
            r == self.spec_index(),
    {
        self.index
    }

    /// Asks the device for notifications when it uses buffers.
    pub fn enable_notifs(&mut self)
        ensures
            final(self).spec_size() == old(self).spec_size(),
            final(self).spec_index() == old(self).spec_index(),
            final(self).spec_drv_event().raw.flags == RING_EVENT_FLAGS_ENABLE,
            final(self).spec_drv_event().raw.desc == old(self).spec_drv_event().raw.desc,
            final(self).ring() == old(self).ring(),
    {
        self.drv_event.enable_notif();
    }

    /// Asks the device for no notifications when it uses buffers.
    pub fn disable_notifs(&mut self)
        ensures
            final(self).spec_size() == old(self).spec_size(),
            final(self).spec_index() == old(self).spec_index(),
            final(self).spec_drv_event().raw.flags == RING_EVENT_FLAGS_DISABLE,
            final(self).spec_drv_event().raw.desc == old(self).spec_drv_event().raw.desc,
            final(self).ring() == old(self).ring(),
    {
        self.drv_event.disable_notif();
    }
}

/// The table of an indirect buffer: the descriptors of the elements of
/// `buffer_tkn`, which lie at `addrs`, in order; a token without elements
/// is refused.
pub fn create_indirect_ctrl(buffer_tkn: &AvailBufferToken, addrs: &Vec<u64>) -> (r: Result<
    Vec<PackedDesc>,
    VirtqError,
>)
    requires
        addrs@.len() == buffer_tkn.send_buff@.len() + buffer_tkn.recv_buff@.len(),
        forall|k: int|
            0 <= k < buffer_tkn.send_buff@.len() ==> (#[trigger] buffer_tkn.send_buff@[k]).spec_len()
                <= u32::MAX,
        forall|k: int|
            0 <= k < buffer_tkn.recv_buff@.len() ==> (
            #[trigger] buffer_tkn.recv_buff@[k]).spec_capacity() <= u32::MAX,
    ensures
        r is Err <==> addrs@.len() == 0,
        r matches Err(e) ==> e == VirtqError::BufferNotSpecified,
        r matches Ok(table) ==> {
            &&& table@.len() == addrs@.len()
            &&& forall|k: int|
                0 <= k < table@.len() ==> {
                    let d = incomplete_desc(buffer_tkn.send_buff@, buffer_tkn.recv_buff@, addrs@, k);
                    #[trigger] table@[k] == (PackedDesc { addr: d.addr, len: d.len, id: 0, flags: d.flags })
                }
        },
{
    let descs = match descriptor_iter(buffer_tkn, addrs) {
        Ok(d) => d,
        Err(e) => return Err(e),
    };
    let ghost send = buffer_tkn.send_buff@;
    let ghost recv = buffer_tkn.recv_buff@;
    let mut table: Vec<PackedDesc> = Vec::new();
    let mut k: usize = 0;
    while k < descs.len()
        invariant
            descs@.len() == addrs@.len(),
            forall|j: int| 0 <= j < descs@.len() ==> #[trigger] descs@[j] == incomplete_desc(send, recv, addrs@, j),
            k <= descs@.len(),
            table@.len() == k,
            forall|j: int|
                0 <= j < k ==> #[trigger] table@[j] == (PackedDesc {
                    addr: descs@[j].addr,
                    len: descs@[j].len,
                    id: 0,
                    flags: descs@[j].flags,
                }),
        decreases descs@.len() - k,
    {
        let d = descs[k];
        table.push(PackedDesc { addr: d.addr, len: d.len, id: 0, flags: d.flags });
        k += 1;
    }
    Ok(table)
}

} // verus!
