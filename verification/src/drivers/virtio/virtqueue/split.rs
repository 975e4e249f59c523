//! The descriptor ring of Virtio's split virtqueue (Virtio specification
//! v1.1 - 2.6): the descriptor table, the available ring the driver fills
//! and the chains of descriptors each buffer takes.
//!
//! Each buffer in flight occupies a chain of descriptors linked by their
//! `next` fields, the token of the buffer being kept under the id of the
//! chain's first descriptor. Ids of free descriptors are kept in a pool.

use vstd::prelude::*;

use super::{descriptor_iter, incomplete_desc, AvailBufferToken, MemPool, VirtqError};
use crate::drivers::virtio::transport::pci::{NotifCfg, NotifCtrl};
use crate::drivers::virtio::transport::{ComCfg, CommonCfgAccess, QueueRegs};
use crate::drivers::virtio::VIRTIO_F_NOTIFICATION_DATA;

verus! {

/// Descriptor flag: the chain goes on at the descriptor in `next`.
pub const VIRTQ_DESC_F_NEXT: u16 = 1;
/// Descriptor flag: the device writes into the buffer.
pub const VIRTQ_DESC_F_WRITE: u16 = 2;
/// Descriptor flag: the buffer holds a table of descriptors.
pub const VIRTQ_DESC_F_INDIRECT: u16 = 4;
/// Available ring flag: the driver asks not to be interrupted.
pub const VIRTQ_AVAIL_F_NO_INTERRUPT: u16 = 1;
/// Used ring flag: the device asks not to be notified.
pub const VIRTQ_USED_F_NO_NOTIFY: u16 = 1;

/// A descriptor of the split virtqueue's descriptor table.
#[derive(Clone, Copy, Debug, PartialEq, Eq)]
pub struct SplitDesc {
    pub addr: u64,
    pub len: u32,
    pub flags: u16,
    pub next: u16,
}

/// Whether a descriptor continues its chain.
pub open spec fn has_next(d: SplitDesc) -> bool {
    d.flags & VIRTQ_DESC_F_NEXT != 0
}

/// Descriptor `k` of a buffer of `n` descriptors as it is placed into the
/// table: all but the last continue the chain at `next`, the last ends it.
pub open spec fn chained(d: SplitDesc, k: int, n: int, next: u16) -> SplitDesc {
    if k < n - 1 {
        SplitDesc { flags: d.flags | VIRTQ_DESC_F_NEXT, next, ..d }
    } else {
        SplitDesc { flags: d.flags & !VIRTQ_DESC_F_NEXT, ..d }
    }
}

/// Whether the ids `c` form a chain in the table `descs` of `size`
/// descriptors: each continues at the next one, the last ends it.
pub open spec fn chain_ok(descs: Seq<SplitDesc>, c: Seq<int>, size: int) -> bool {
    &&& c.len() >= 1
    &&& forall|k: int| 0 <= k < c.len() ==> 0 <= #[trigger] c[k] < size
    &&& forall|k: int|
        0 <= k < c.len() - 1 ==> has_next(#[trigger] descs[c[k]]) && descs[c[k]].next == c[k + 1]
    &&& !has_next(descs[c.last()])
}

/// Descriptor ids as the pool holds them.
pub open spec fn ids_u16(c: Seq<int>) -> Seq<u16> {
    c.map_values(|x: int| x as u16)
}

/// The descriptor ring of a split virtqueue, with the tokens of the buffers
/// in flight.
pub struct DescrRing<T> {
    read_idx: u16,
    token_ring: Vec<Option<T>>,
    mem_pool: MemPool,
    descr_table: Vec<SplitDesc>,
    avail_ring: Vec<u16>,
    avail_idx: u16,
    avail_flags: u16,
    /// The chain of each buffer in flight, by the id of its first descriptor.
    chains: Ghost<Map<int, Seq<int>>>,
    /// For each descriptor id in a chain: the chain's first id and the
    /// position in the chain.
    pos: Ghost<Map<int, (int, int)>>,
}

impl<T> DescrRing<T> {
    pub closed spec fn size(&self) -> int {
        self.descr_table@.len() as int
    }

    pub closed spec fn read_index(&self) -> u16 {
        self.read_idx
    }

    pub closed spec fn avail_index(&self) -> u16 {
        self.avail_idx
    }

    pub closed spec fn avail_flags(&self) -> u16 {
        self.avail_flags
    }

    /// The available ring.
    pub closed spec fn avail(&self) -> Seq<u16> {
        self.avail_ring@
    }

    /// The descriptor table.
    pub closed spec fn descs(&self) -> Seq<SplitDesc> {
        self.descr_table@
    }

    /// The ids of the free descriptors; the last one is handed out next.
    pub closed spec fn free_ids(&self) -> Seq<u16> {
        self.mem_pool.pool@
    }

    /// The token of the buffer whose chain starts at `id`.
    pub closed spec fn token(&self, id: int) -> Option<T> {
        self.token_ring@[id]
    }

    /// The chain of descriptor ids of the buffer starting at `head`.
    pub closed spec fn chain(&self, head: int) -> Seq<int> {
        self.chains@[head]
    }

    /// The ring is well formed: the tables have one entry per descriptor, the
    /// free ids are distinct and in range, and each buffer in flight owns a
    /// chain of descriptors that no other buffer and no free id shares.
    pub closed spec fn wf(&self) -> bool {
        let size = self.size();
        &&& 0 < size <= 0x8000
        &&& self.token_ring@.len() == size
        &&& self.avail_ring@.len() == size
        &&& self.mem_pool.limit == size
        &&& forall|i: int|
            0 <= i < self.mem_pool.pool@.len() ==> #[trigger] self.mem_pool.pool@[i] < size
        &&& forall|i: int, j: int|
            0 <= i < j < self.mem_pool.pool@.len() ==> self.mem_pool.pool@[i]
                != self.mem_pool.pool@[j]
        &&& forall|h: int|
            0 <= h < size ==> (#[trigger] self.token_ring@[h] is Some <==> self.chains@.contains_key(h))
        &&& forall|h: int|
            #[trigger] self.chains@.contains_key(h) ==> {
                &&& 0 <= h < size
                &&& self.chains@[h][0] == h
                &&& chain_ok(self.descr_table@, self.chains@[h], size)
            }
        &&& forall|h: int, k: int|
            self.chains@.contains_key(h) && 0 <= k < self.chains@[h].len() ==> {
                &&& self.pos@.contains_key(#[trigger] self.chains@[h][k])
                &&& self.pos@[self.chains@[h][k]] == (h, k)
            }
        &&& forall|i: int|
            0 <= i < self.mem_pool.pool@.len() ==> !self.pos@.contains_key(
                #[trigger] self.mem_pool.pool@[i] as int,
            )
    }

    /// A ring of `size` descriptors, all free.
    pub fn new(size: u16) -> (r: Self)
        requires
            0 < size <= 0x8000,
        ensures
            r.wf(),
            r.size() == size,
            r.read_index() == 0,
            r.avail_index() == 0,
            r.free_ids().len() == size,
            forall|i: int| 0 <= i < size ==> #[trigger] r.free_ids()[i] == i,
            forall|id: int| 0 <= id < size ==> #[trigger] r.token(id) is None,
    {
        let mut token_ring: Vec<Option<T>> = Vec::new();
        let mut descr_table: Vec<SplitDesc> = Vec::new();
        let mut avail_ring: Vec<u16> = Vec::new();
        let mut i: u16 = 0;
        while i < size
            invariant
                0 <= i <= size,
                token_ring@.len() == i,
                descr_table@.len() == i,
                avail_ring@.len() == i,
                forall|j: int| 0 <= j < i ==> #[trigger] token_ring@[j] is None,
            decreases size - i,
        {
            token_ring.push(None);
            descr_table.push(SplitDesc { addr: 0, len: 0, flags: 0, next: 0 });
            avail_ring.push(0);
            i = i + 1;
        }
        let mem_pool = MemPool::new(size);
        let r = DescrRing {
            read_idx: 0,
            token_ring,
            mem_pool,
            descr_table,
            avail_ring,
            avail_idx: 0,
            avail_flags: 0,
            chains: Ghost(Map::empty()),
            pos: Ghost(Map::empty()),
        };
        assert forall|i: int, j: int|
            0 <= i < j < r.mem_pool.pool@.len() implies r.mem_pool.pool@[i]
            != r.mem_pool.pool@[j] by {
            assert(r.mem_pool.pool@[i] == i);
            assert(r.mem_pool.pool@[j] == j);
        }
        r
    }

    /// Places a buffer of the descriptors `descs`, with token `tkn`, into the
    /// ring and makes it available. The descriptors take free ids from the
    /// pool, the last descriptor first, and all but the last continue the
    /// chain. Returns the new index of the available ring; `NoDescrAvail`
    /// when the pool runs out, the ids taken until then staying taken.
    pub fn push(&mut self, tkn: T, descs: Vec<SplitDesc>) -> (r: Result<u16, VirtqError>)
        requires
            old(self).wf(),
            descs@.len() > 0,
        ensures
            final(self).wf(),
            final(self).size() == old(self).size(),
            final(self).read_index() == old(self).read_index(),
            final(self).avail_flags() == old(self).avail_flags(),
            ({
                let n = descs@.len() as int;
                let pool = old(self).free_ids();
                let p = pool.len() as int;
                let size = old(self).size();
                if p < n {
                    &&& r == Err::<u16, VirtqError>(VirtqError::NoDescrAvail)
                    &&& final(self).free_ids() == Seq::<u16>::empty()
                    &&& final(self).avail() == old(self).avail()
                    &&& final(self).avail_index() == old(self).avail_index()
                    &&& forall|id: int| 0 <= id < size ==> #[trigger] final(self).token(id) == old(self).token(id)
                    &&& forall|id: int|
                        #[trigger] final(self).token(id) is Some ==> final(self).chain(id) == old(
                            self,
                        ).chain(id)
                    &&& forall|q: int|
                        0 <= q < size && !pool.contains(q as u16) ==> #[trigger] final(self).descs()[q]
                            == old(self).descs()[q]
                } else {
                    let head = pool[p - n];
                    let c = pool.subrange(p - n, p);
                    &&& r == Ok::<u16, VirtqError>(final(self).avail_index())
                    &&& final(self).avail_index() == (old(self).avail_index() + 1) % 0x10000
                    &&& final(self).avail() == old(self).avail().update(
                        (old(self).avail_index() as int) % size,
                        head,
                    )
                    &&& final(self).free_ids() == pool.take(p - n)
                    &&& final(self).token(head as int) == Some(tkn)
                    &&& forall|id: int|
                        0 <= id < size && id != head ==> #[trigger] final(self).token(id) == old(
                            self,
                        ).token(id)
                    &&& final(self).chain(head as int) == c.map_values(|x: u16| x as int)
                    &&& forall|id: int|
                        #[trigger] final(self).token(id) is Some && id != head ==> final(self).chain(
                            id,
                        ) == old(self).chain(id)
                    &&& forall|k: int|
                        0 <= k < n ==> #[trigger] final(self).descs()[c[k] as int] == chained(
                            descs@[k],
                            k,
                            n,
                            if k < n - 1 {
                                c[k + 1]
                            } else {
                                0
                            },
                        )
                    &&& forall|q: int|
                        0 <= q < size && !c.contains(q as u16) ==> #[trigger] final(self).descs()[q]
                            == old(self).descs()[q]
                }
            }),
    {
        let n = descs.len();
        let ghost size = self.size();
        let ghost pool0 = self.mem_pool.pool@;
        let ghost p = pool0.len() as int;
        let ghost descs0 = self.descr_table@;
        let ghost tokens0 = self.token_ring@;
        let ghost chains0 = self.chains@;
        let ghost pos0 = self.pos@;
        let mut index: u16 = 0;
        let mut j: usize = n;
        while j > 0
            invariant
                n == descs@.len(),
                p == pool0.len(),
                0 <= j <= n,
                n - j <= p,
                self.mem_pool.pool@ == pool0.take(p - (n - j)),
                j < n ==> index == pool0[p - n + j],
                self.mem_pool.limit == size,
                self.descr_table@.len() == size,
                forall|i: int| 0 <= i < pool0.len() ==> #[trigger] pool0[i] < size,
                forall|k: int|
                    j <= k < n ==> #[trigger] self.descr_table@[pool0[p - n + k] as int] == chained(
                        descs@[k],
                        k,
                        n as int,
                        if k < n - 1 {
                            pool0[p - n + k + 1]
                        } else {
                            0
                        },
                    ),
                forall|q: int|
                    0 <= q < size && !pool0.subrange(p - (n - j), p).contains(q as u16)
                        ==> #[trigger] self.descr_table@[q] == descs0[q],
                self.token_ring@ == tokens0,
                self.chains@ == chains0,
                self.pos@ == pos0,
                self.avail_ring@ == old(self).avail_ring@,
                self.avail_idx == old(self).avail_idx,
                self.avail_flags == old(self).avail_flags,
                self.read_idx == old(self).read_idx,
                old(self).wf(),
                pool0 == old(self).mem_pool.pool@,
                descs0 == old(self).descr_table@,
                tokens0 == old(self).token_ring@,
                chains0 == old(self).chains@,
                pos0 == old(self).pos@,
                size == old(self).size(),
                forall|i: int, k: int| 0 <= i < k < pool0.len() ==> pool0[i] != pool0[k],
            decreases j,
        {
            let k = j - 1;
            let id = match self.mem_pool.take_id() {
                Some(id) => id,
                None => {
                    proof {
                        assert(self.mem_pool.pool@.len() == 0);
                        assert(self.mem_pool.pool@ == pool0.take(p - (n - j)));
                        self.lemma_push_failed(*old(self), j as int, n as int);
                    }
                    return Err(VirtqError::NoDescrAvail);
                },
            };
            proof {
                let m = p - (n - j);
                assert(m <= pool0.len());
                assert(pool0.take(m).len() == m);
                assert(m > 0);
                assert(pool0.take(m)[m - 1] == pool0[m - 1]);
                assert(id == pool0[p - n + k]);
                assert(id < size);
            }
            let d = descs[k];
            let placed = if k < n - 1 {
                SplitDesc { flags: d.flags | VIRTQ_DESC_F_NEXT, next: index, ..d }
            } else {
                SplitDesc { flags: d.flags & !VIRTQ_DESC_F_NEXT, ..d }
            };
            let ghost before = self.descr_table@;
            self.descr_table.set(id as usize, placed);
            proof {
                assert(id == pool0[p - n + k]);
                assert forall|kk: int| k <= kk < n implies #[trigger] self.descr_table@[pool0[p - n + kk] as int]
                    == chained(
                    descs@[kk],
                    kk,
                    n as int,
                    if kk < n - 1 {
                        pool0[p - n + kk + 1]
                    } else {
                        0
                    },
                ) by {
                    if kk > k {
                        assert(pool0[p - n + kk] != pool0[p - n + k]);
                    }
                }
                assert forall|q: int|
                    0 <= q < size && !pool0.subrange(p - (n - k), p).contains(q as u16)
                        implies #[trigger] self.descr_table@[q] == descs0[q] by {
                    assert(pool0.subrange(p - (n - k), p)[0] == id);
                    if q == id as int {
                        assert(pool0.subrange(p - (n - k), p).contains(q as u16));
                    }
                    if pool0.subrange(p - (n - j), p).contains(q as u16) {
                        let t = choose|t: int|
                            0 <= t < n - j && #[trigger] pool0.subrange(p - (n - j), p)[t] == q as u16;
                        assert(pool0.subrange(p - (n - k), p)[t + 1] == q as u16);
                    }
                }
                assert(pool0.take(p - (n - j)).drop_last() =~= pool0.take(p - (n - k)));
            }
            index = id;
            j = k;
        }
        proof {
            self.lemma_chain_placed(*old(self), descs@);
        }
        let ghost c = pool0.subrange(p - n as int, p).map_values(|x: u16| x as int);
        self.token_ring.set(index as usize, Some(tkn));
        let slot = self.avail_idx as usize % self.avail_ring.len();
        self.avail_ring.set(slot, index);
        self.avail_idx = self.avail_idx.wrapping_add(1);
        proof {
            self.chains@ = chains0.insert(index as int, c);
            self.pos@ = Map::new(
                |id: int| pos0.contains_key(id) || c.contains(id),
                |id: int|
                    if pos0.contains_key(id) {
                        pos0[id]
                    } else {
                        (index as int, c.index_of(id))
                    },
            );
            self.lemma_push_wf(*old(self), c, n as int);
            let cs = pool0.subrange(p - n as int, p);
            assert forall|k: int| 0 <= k < n implies #[trigger] self.descr_table@[cs[k] as int]
                == chained(
                descs@[k],
                k,
                n as int,
                if k < n - 1 {
                    cs[k + 1]
                } else {
                    0
                },
            ) by {
                assert(cs[k] == pool0[p - n + k]);
                if k < n - 1 {
                    assert(cs[k + 1] == pool0[p - n + k + 1]);
                }
            }
        }
        Ok(self.avail_idx)
    }

    /// The descriptors of buffers in flight stay as they were when only
    /// descriptors of free ids, taken from the end of `before`'s pool, were
    /// written.
    proof fn lemma_table_frame(&self, before: Self, m: int)
        requires
            before.wf(),
            0 <= m <= before.mem_pool.pool@.len(),
            self.descr_table@.len() == before.size(),
            forall|q: int|
                0 <= q < before.size() && !before.mem_pool.pool@.subrange(
                    before.mem_pool.pool@.len() - m,
                    before.mem_pool.pool@.len() as int,
                ).contains(q as u16) ==> #[trigger] self.descr_table@[q] == before.descr_table@[q],
        ensures
            forall|h: int|
                #[trigger] before.chains@.contains_key(h) ==> chain_ok(
                    self.descr_table@,
                    before.chains@[h],
                    before.size(),
                ),
    {
        let pool0 = before.mem_pool.pool@;
        let p = pool0.len() as int;
        let size = before.size();
        assert forall|h: int| #[trigger] before.chains@.contains_key(h) implies chain_ok(
            self.descr_table@,
            before.chains@[h],
            size,
        ) by {
            let c = before.chains@[h];
            assert(chain_ok(before.descr_table@, c, size));
            assert forall|k: int| 0 <= k < c.len() implies #[trigger] self.descr_table@[c[k]]
                == before.descr_table@[c[k]] by {
                let q = c[k];
                assert(0 <= q < size);
                assert(before.pos@.contains_key(before.chains@[h][k]));
                if pool0.subrange(p - m, p).contains(q as u16) {
                    let t = choose|t: int|
                        0 <= t < m && #[trigger] pool0.subrange(p - m, p)[t] == q as u16;
                    assert(pool0[p - m + t] == q as u16);
                    assert(!before.pos@.contains_key(pool0[p - m + t] as int));
                }
            }
            assert forall|k: int| 0 <= k < c.len() - 1 implies has_next(
                #[trigger] self.descr_table@[c[k]],
            ) && self.descr_table@[c[k]].next == c[k + 1] by {
                assert(self.descr_table@[c[k]] == before.descr_table@[c[k]]);
            }
            assert(self.descr_table@[c[c.len() - 1]] == before.descr_table@[c[c.len() - 1]]);
        }
    }

    /// A push that ran out of free ids leaves a well formed ring.
    proof fn lemma_push_failed(&self, before: Self, j: int, n: int)
        requires
            before.wf(),
            0 <= j <= n,
            n - j <= before.mem_pool.pool@.len(),
            self.mem_pool.pool@.len() == 0,
            self.mem_pool.pool@ == before.mem_pool.pool@.take(
                before.mem_pool.pool@.len() - (n - j),
            ),
            self.mem_pool.limit == before.size(),
            self.descr_table@.len() == before.size(),
            forall|q: int|
                0 <= q < before.size() && !before.mem_pool.pool@.subrange(
                    before.mem_pool.pool@.len() - (n - j),
                    before.mem_pool.pool@.len() as int,
                ).contains(q as u16) ==> #[trigger] self.descr_table@[q] == before.descr_table@[q],
            self.token_ring@ == before.token_ring@,
            self.chains@ == before.chains@,
            self.pos@ == before.pos@,
            self.avail_ring@ == before.avail_ring@,
        ensures
            self.wf(),
            forall|q: int|
                0 <= q < before.size() && !before.mem_pool.pool@.contains(q as u16)
                    ==> #[trigger] self.descr_table@[q] == before.descr_table@[q],
    {
        self.lemma_table_frame(before, n - j);
        let pool0 = before.mem_pool.pool@;
        let p = pool0.len() as int;
        assert forall|q: int|
            0 <= q < before.size() && !pool0.contains(q as u16) implies #[trigger] self.descr_table@[q]
            == before.descr_table@[q] by {
            if pool0.subrange(p - (n - j), p).contains(q as u16) {
                let t = choose|t: int|
                    0 <= t < n - j && #[trigger] pool0.subrange(p - (n - j), p)[t] == q as u16;
                assert(pool0[p - (n - j) + t] == q as u16);
            }
        }
    }

    /// After all descriptors of a push were placed, the ids taken from the
    /// end of `before`'s pool form a chain.
    proof fn lemma_chain_placed(&self, before: Self, descs: Seq<SplitDesc>)
        requires
            before.wf(),
            descs.len() > 0,
            descs.len() <= before.mem_pool.pool@.len(),
            self.descr_table@.len() == before.size(),
            forall|k: int|
                0 <= k < descs.len() ==> #[trigger] self.descr_table@[before.mem_pool.pool@[
                    before.mem_pool.pool@.len() - descs.len() + k] as int] == chained(
                    descs[k],
                    k,
                    descs.len() as int,
                    if k < descs.len() - 1 {
                        before.mem_pool.pool@[before.mem_pool.pool@.len() - descs.len() + k + 1]
                    } else {
                        0
                    },
                ),
        ensures
            chain_ok(
                self.descr_table@,
                before.mem_pool.pool@.subrange(
                    before.mem_pool.pool@.len() - descs.len(),
                    before.mem_pool.pool@.len() as int,
                ).map_values(|x: u16| x as int),
                before.size(),
            ),
    {
        let pool0 = before.mem_pool.pool@;
        let p = pool0.len() as int;
        let n = descs.len() as int;
        let c = pool0.subrange(p - n, p).map_values(|x: u16| x as int);
        assert forall|k: int| 0 <= k < c.len() implies 0 <= #[trigger] c[k] < before.size() by {
            assert(pool0[p - n + k] < before.size());
        }
        assert forall|k: int| 0 <= k < c.len() - 1 implies has_next(
            #[trigger] self.descr_table@[c[k]],
        ) && self.descr_table@[c[k]].next == c[k + 1] by {
            assert(self.descr_table@[pool0[p - n + k] as int] == chained(
                descs[k],
                k,
                n,
                pool0[p - n + k + 1],
            ));
            let f = descs[k].flags;
            assert((f | 1u16) & 1u16 != 0) by (bit_vector);
        }
        let last = n - 1;
        assert(self.descr_table@[pool0[p - n + last] as int] == chained(descs[last], last, n, 0));
        let f = descs[last].flags;
        assert((f & !1u16) & 1u16 == 0) by (bit_vector);
        assert(c.last() == pool0[p - n + last] as int);
    }

    /// The ring is well formed again after a push placed the chain `c` and
    /// made it available with its token.
    proof fn lemma_push_wf(&self, before: Self, c: Seq<int>, n: int)
        requires
            before.wf(),
            0 < n <= before.mem_pool.pool@.len(),
            c == before.mem_pool.pool@.subrange(
                before.mem_pool.pool@.len() - n,
                before.mem_pool.pool@.len() as int,
            ).map_values(|x: u16| x as int),
            chain_ok(self.descr_table@, c, before.size()),
            self.mem_pool.pool@ == before.mem_pool.pool@.take(before.mem_pool.pool@.len() - n),
            self.mem_pool.limit == before.size(),
            self.descr_table@.len() == before.size(),
            forall|q: int|
                0 <= q < before.size() && !before.mem_pool.pool@.subrange(
                    before.mem_pool.pool@.len() - n,
                    before.mem_pool.pool@.len() as int,
                ).contains(q as u16) ==> #[trigger] self.descr_table@[q] == before.descr_table@[q],
            self.token_ring@ == before.token_ring@.update(c[0], self.token_ring@[c[0]]),
            self.token_ring@[c[0]] is Some,
            self.avail_ring@.len() == before.size(),
            self.chains@ == before.chains@.insert(c[0], c),
            self.pos@ == Map::new(
                |id: int| before.pos@.contains_key(id) || c.contains(id),
                |id: int|
                    if before.pos@.contains_key(id) {
                        before.pos@[id]
                    } else {
                        (c[0], c.index_of(id))
                    },
            ),
        ensures
            self.wf(),
    {
        let pool0 = before.mem_pool.pool@;
        let p = pool0.len() as int;
        let size = before.size();
        let head = c[0];
        self.lemma_table_frame(before, n);
        // The ids of the new chain are distinct and were free.
        assert forall|k: int| 0 <= k < n implies #[trigger] c[k] == pool0[p - n + k] as int
            && !before.pos@.contains_key(c[k]) by {
            assert(!before.pos@.contains_key(pool0[p - n + k] as int));
        }
        assert forall|a: int, b: int| 0 <= a < b < n implies c[a] != c[b] by {
            assert(pool0[p - n + a] != pool0[p - n + b]);
            assert(pool0[p - n + a] < size && pool0[p - n + b] < size);
        }
        assert forall|k: int| 0 <= k < n implies c.index_of(#[trigger] c[k]) == k by {
            assert(c.contains(c[k]));
            let i = c.index_of(c[k]);
            assert(c[i] == c[k]);
        }
        // The head was free, so no buffer was in flight there.
        assert(!before.chains@.contains_key(head)) by {
            if before.chains@.contains_key(head) {
                assert(before.chains@[head][0] == head);
                assert(before.pos@.contains_key(before.chains@[head][0]));
            }
        }
        let pool = self.mem_pool.pool@;
        assert forall|i: int| 0 <= i < pool.len() implies #[trigger] pool[i] < size by {
            assert(pool[i] == pool0[i]);
        }
        assert forall|i: int, j: int| 0 <= i < j < pool.len() implies pool[i] != pool[j] by {
            assert(pool[i] == pool0[i] && pool[j] == pool0[j]);
        }
        assert forall|h: int|
            0 <= h < size implies (#[trigger] self.token_ring@[h] is Some
            <==> self.chains@.contains_key(h)) by {
            if h != head {
                assert(self.token_ring@[h] == before.token_ring@[h]);
                assert(before.token_ring@[h] is Some <==> before.chains@.contains_key(h));
            }
        }
        assert forall|h: int| #[trigger] self.chains@.contains_key(h) implies {
            &&& 0 <= h < size
            &&& self.chains@[h][0] == h
            &&& chain_ok(self.descr_table@, self.chains@[h], size)
        } by {
            if h != head {
                assert(before.chains@.contains_key(h));
            } else {
                assert(0 <= c[0] < size);
            }
        }
        assert forall|h: int, k: int|
            self.chains@.contains_key(h) && 0 <= k < self.chains@[h].len() implies {
            &&& self.pos@.contains_key(#[trigger] self.chains@[h][k])
            &&& self.pos@[self.chains@[h][k]] == (h, k)
        } by {
            if h != head {
                assert(before.chains@.contains_key(h));
                assert(before.pos@.contains_key(before.chains@[h][k]));
            } else {
                assert(c.contains(c[k]));
                assert(!before.pos@.contains_key(c[k]));
            }
        }
        assert forall|i: int| 0 <= i < pool.len() implies !self.pos@.contains_key(
            #[trigger] pool[i] as int,
        ) by {
            assert(pool[i] == pool0[i]);
            assert(!before.pos@.contains_key(pool0[i] as int));
            if c.contains(pool[i] as int) {
                let k = c.index_of(pool[i] as int);
                assert(c[k] == pool0[p - n + k] as int);
                assert(pool0[i] < size && pool0[p - n + k] < size);
                assert(pool0[i] == pool0[p - n + k]);
            }
        }
    }

    /// Takes the next buffer the device used, given the index `used_idx` of
    /// the used ring and, at the read position, the id `used_id` of the
    /// buffer's first descriptor and the number of bytes `used_len` the
    /// device wrote. Returns the buffer's token and that number and gives
    /// the ids of the buffer's chain back to the pool, in chain order;
    /// `NoNewUsed` when the device has not used another buffer.
    pub fn try_recv(&mut self, used_idx: u16, used_id: u32, used_len: u32) -> (r: Result<
        (T, u32),
        VirtqError,
    >)
        requires
            old(self).wf(),
            old(self).read_index() != used_idx ==> used_id < old(self).size() && old(self).token(
                used_id as int,
            ) is Some,
        ensures
            final(self).wf(),
            final(self).size() == old(self).size(),
            final(self).descs() == old(self).descs(),
            final(self).avail() == old(self).avail(),
            final(self).avail_index() == old(self).avail_index(),
            final(self).avail_flags() == old(self).avail_flags(),
            old(self).read_index() == used_idx ==> {
                &&& r == Err::<(T, u32), VirtqError>(VirtqError::NoNewUsed)
                &&& final(self).free_ids() == old(self).free_ids()
                &&& final(self).read_index() == old(self).read_index()
                &&& forall|id: int| #[trigger] final(self).token(id) == old(self).token(id)
                &&& forall|id: int|
                    #[trigger] final(self).token(id) is Some ==> final(self).chain(id) == old(
                        self,
                    ).chain(id)
            },
            old(self).read_index() != used_idx ==> {
                let h = used_id as int;
                &&& r == Ok::<(T, u32), VirtqError>((old(self).token(h)->Some_0, used_len))
                &&& final(self).token(h) is None
                &&& forall|id: int|
                    0 <= id < old(self).size() && id != h ==> #[trigger] final(self).token(id) == old(
                        self,
                    ).token(id)
                &&& forall|id: int|
                    #[trigger] final(self).token(id) is Some ==> final(self).chain(id) == old(
                        self,
                    ).chain(id)
                &&& final(self).free_ids() == old(self).free_ids() + ids_u16(old(self).chain(h))
                &&& final(self).read_index() == (old(self).read_index() + 1) % 0x10000
            },
    {
        if self.read_idx == used_idx {
            return Err(VirtqError::NoNewUsed);
        }
        let head = used_id as usize;
        let ghost size = self.size();
        let ghost h = head as int;
        let ghost c = self.chains@[h];
        let ghost old_pool = self.mem_pool.pool@;
        let ghost descs0 = self.descr_table@;
        let ghost pos0 = self.pos@;
        let ghost chains0 = self.chains@;
        assert(self.token_ring@[h] is Some);
        assert(self.chains@.contains_key(h));
        assert(chain_ok(descs0, c, size));
        let slot = self.token_ring[head].take();
        let tkn = slot.unwrap();
        let mut id: u16 = used_id as u16;
        let ghost mut k: int = 0;
        let ghost tokens1 = self.token_ring@;
        let ghost avail0 = self.avail_ring@;
        let ghost avail_idx0 = self.avail_idx;
        let ghost avail_flags0 = self.avail_flags;
        let ghost read_idx0 = self.read_idx;
        assert(old_pool + ids_u16(c.take(0)) =~= old_pool);
        loop
            invariant_except_break
                self.mem_pool.pool@ == old_pool + ids_u16(c.take(k)),
                id == c[k],
            invariant
                0 <= k < c.len(),
                chain_ok(descs0, c, size),
                self.descr_table@ == descs0,
                descs0.len() == size,
                self.mem_pool.limit == size,
                self.token_ring@ == tokens1,
                self.avail_ring@ == avail0,
                self.avail_idx == avail_idx0,
                self.avail_flags == avail_flags0,
                self.read_idx == read_idx0,
                self.chains@ == chains0,
                self.pos@ == pos0,
            ensures
                self.mem_pool.pool@ == old_pool + ids_u16(c),
            decreases c.len() - k,
        {
            self.mem_pool.ret_id(id);
            proof {
                assert(ids_u16(c.take(k + 1)) =~= ids_u16(c.take(k)).push(c[k] as u16));
            }
            let d = self.descr_table[id as usize];
            if d.flags & VIRTQ_DESC_F_NEXT != 0 {
                proof {
                    if k == c.len() - 1 {
                        assert(!has_next(descs0[c.last()]));
                    }
                    assert(has_next(descs0[c[k]]) && descs0[c[k]].next == c[k + 1]);
                }
                id = d.next;
                proof {
                    k = k + 1;
                }
            } else {
                proof {
                    if k < c.len() - 1 {
                        assert(has_next(descs0[c[k]]));
                    }
                    assert(c.take(k + 1) =~= c);
                }
                break;
            }
        }
        self.read_idx = self.read_idx.wrapping_add(1);
        proof {
            self.chains@ = chains0.remove(h);
            self.pos@ = Map::new(
                |id: int| pos0.contains_key(id) && pos0[id].0 != h,
                |id: int| pos0[id],
            );
            self.lemma_recv_wf(old_pool, c, h, chains0, pos0);
        }
        Ok((tkn, used_len))
    }

    proof fn lemma_recv_wf(
        &self,
        old_pool: Seq<u16>,
        c: Seq<int>,
        h: int,
        chains0: Map<int, Seq<int>>,
        pos0: Map<int, (int, int)>,
    )
        requires
            0 < self.size() <= 0x8000,
            self.token_ring@.len() == self.size(),
            self.avail_ring@.len() == self.size(),
            self.mem_pool.limit == self.size(),
            self.mem_pool.pool@ == old_pool + ids_u16(c),
            chains0.contains_key(h),
            chains0[h] == c,
            self.chains@ == chains0.remove(h),
            self.pos@ == Map::new(
                |id: int| pos0.contains_key(id) && pos0[id].0 != h,
                |id: int| pos0[id],
            ),
            self.token_ring@[h] is None,
            forall|i: int| 0 <= i < old_pool.len() ==> #[trigger] old_pool[i] < self.size(),
            forall|i: int, j: int| 0 <= i < j < old_pool.len() ==> old_pool[i] != old_pool[j],
            forall|g: int|
                0 <= g < self.size() && g != h ==> (#[trigger] self.token_ring@[g] is Some
                    <==> chains0.contains_key(g)),
            forall|g: int|
                #[trigger] chains0.contains_key(g) ==> {
                    &&& 0 <= g < self.size()
                    &&& chains0[g][0] == g
                    &&& chain_ok(self.descr_table@, chains0[g], self.size())
                },
            forall|g: int, k: int|
                chains0.contains_key(g) && 0 <= k < chains0[g].len() ==> {
                    &&& pos0.contains_key(#[trigger] chains0[g][k])
                    &&& pos0[chains0[g][k]] == (g, k)
                },
            forall|i: int| 0 <= i < old_pool.len() ==> !pos0.contains_key(#[trigger] old_pool[i] as int),
        ensures
            self.wf(),
    {
        let size = self.size();
        let pool = self.mem_pool.pool@;
        assert(chain_ok(self.descr_table@, c, size));
        assert forall|i: int| 0 <= i < pool.len() implies #[trigger] pool[i] < size by {
            if i >= old_pool.len() {
                let k = i - old_pool.len();
                assert(pool[i] == c[k] as u16);
                assert(0 <= c[k] < size);
            }
        }
        assert forall|i: int, j: int| 0 <= i < j < pool.len() implies pool[i] != pool[j] by {
            if j >= old_pool.len() {
                let kj = j - old_pool.len();
                assert(pool[j] == c[kj] as u16);
                assert(0 <= c[kj] < size);
                assert(pos0[c[kj]] == (h, kj));
                if i >= old_pool.len() {
                    let ki = i - old_pool.len();
                    assert(pool[i] == c[ki] as u16);
                    assert(0 <= c[ki] < size);
                    assert(pos0[c[ki]] == (h, ki));
                } else {
                    assert(!pos0.contains_key(old_pool[i] as int));
                }
            }
        }
        assert forall|g: int|
            0 <= g < size implies (#[trigger] self.token_ring@[g] is Some
            <==> self.chains@.contains_key(g)) by {
            if g != h {
                assert(self.token_ring@[g] is Some <==> chains0.contains_key(g));
            }
        }
        assert forall|g: int, k: int|
            self.chains@.contains_key(g) && 0 <= k < self.chains@[g].len() implies {
            &&& self.pos@.contains_key(#[trigger] self.chains@[g][k])
            &&& self.pos@[self.chains@[g][k]] == (g, k)
        } by {
            assert(chains0.contains_key(g) && g != h);
            assert(pos0[chains0[g][k]] == (g, k));
        }
        assert forall|i: int| 0 <= i < pool.len() implies !self.pos@.contains_key(
            #[trigger] pool[i] as int,
        ) by {
            if i >= old_pool.len() {
                let k = i - old_pool.len();
                assert(pool[i] == c[k] as u16);
                assert(0 <= c[k] < size);
                assert(pos0[c[k]] == (h, k));
            } else {
                assert(pool[i] == old_pool[i]);
            }
        }
    }

    /// Asks the device to interrupt the driver when it used a buffer.
    pub fn drv_enable_notif(&mut self)
        requires
            old(self).wf(),
        ensures
            final(self).wf(),
            final(self).avail_flags() == old(self).avail_flags() & !VIRTQ_AVAIL_F_NO_INTERRUPT,
            final(self).free_ids() == old(self).free_ids(),
            final(self).descs() == old(self).descs(),
            final(self).avail() == old(self).avail(),
            final(self).avail_index() == old(self).avail_index(),
            final(self).read_index() == old(self).read_index(),
    {
        self.avail_flags = self.avail_flags & !VIRTQ_AVAIL_F_NO_INTERRUPT;
    }

    /// Asks the device not to interrupt the driver.
    pub fn drv_disable_notif(&mut self)
        requires
            old(self).wf(),
        ensures
            final(self).wf(),
            final(self).avail_flags() == old(self).avail_flags() | VIRTQ_AVAIL_F_NO_INTERRUPT,
            final(self).free_ids() == old(self).free_ids(),
            final(self).descs() == old(self).descs(),
            final(self).avail() == old(self).avail(),
            final(self).avail_index() == old(self).avail_index(),
            final(self).read_index() == old(self).read_index(),
    {
        self.avail_flags = self.avail_flags | VIRTQ_AVAIL_F_NO_INTERRUPT;
    }

    /// Whether the device used buffers the driver has not taken yet, given
    /// the index of the used ring.
    pub fn has_used_buffers(&self, used_idx: u16) -> (r: bool)
        ensures
            r == (self.read_index() != used_idx),
    {
        self.read_idx != used_idx
    }

    /// Whether all descriptors are free.
    pub fn is_empty(&self) -> (r: bool)
        requires
            self.wf(),
        ensures
            r == (self.free_ids().len() == self.size()),
    {
        self.mem_pool.all_available()
    }
}

/// Whether the device wants to be notified of new buffers, given the flags
/// of the used ring.
pub fn dev_is_notif(used_flags: u16) -> (r: bool)
    ensures
        r == (used_flags & VIRTQ_USED_F_NO_NOTIFY == 0),
{
    used_flags & VIRTQ_USED_F_NO_NOTIFY == 0
}

/// Taking a buffer back gives the pool back the ids its push took: a push of
/// `n` descriptors takes the last `n` ids of the pool as the buffer's chain,
/// and the device's return of the buffer appends the chain's ids again, so
/// the pool is as it was before the push.
pub proof fn lemma_push_recv_restores_pool(pool: Seq<u16>, n: int)
    requires
        0 < n <= pool.len(),
    ensures
        pool.take(pool.len() - n) + ids_u16(
            pool.subrange(pool.len() - n, pool.len() as int).map_values(|x: u16| x as int),
        ) == pool,
{
    let p = pool.len() as int;
    let c = pool.subrange(p - n, p).map_values(|x: u16| x as int);
    assert forall|k: int| 0 <= k < n implies #[trigger] ids_u16(c)[k] == pool[p - n + k] by {
        assert(c[k] == pool[p - n + k] as int);
    }
    assert(pool.take(p - n) + ids_u16(c) =~= pool);
}

/// A split virtqueue: its descriptor ring and how the device is notified
/// about it.
pub struct SplitVq<T> {
    ring: DescrRing<T>,
    size: u16,
    index: u16,
    notif_ctrl: NotifCtrl,
}

impl<T> SplitVq<T> {
    pub closed spec fn spec_ring(&self) -> DescrRing<T> {
        self.ring
    }

    pub closed spec fn spec_size(&self) -> u16 {
        self.size
    }

    pub closed spec fn spec_index(&self) -> u16 {
        self.index
    }

    pub closed spec fn spec_notif_ctrl(&self) -> NotifCtrl {
        self.notif_ctrl
    }

    /// Sets up virtqueue `index` of the device as a split queue of at most
    /// `size` descriptors: a queue the device does not have is refused;
    /// otherwise the queue takes `size` or the device's size for it,
    /// whichever is smaller, gets an empty ring of that size, is notified at
    /// the address its notification offset gives, and is enabled.
    pub fn new<R: CommonCfgAccess>(
        com_cfg: &mut ComCfg<R>,
        notif_cfg: &NotifCfg,
        size: u16,
        index: u16,
        features: u128,
    ) -> (r: Result<Self, VirtqError>)
        requires
            0 < size <= 0x8000,
            old(com_cfg).queue(index).notify_off * notif_cfg.spec_multiplier() <= u32::MAX,
            notif_cfg.spec_base_addr() + old(com_cfg).queue(index).notify_off
                * notif_cfg.spec_multiplier() <= u64::MAX,
        ensures
            r is Err <==> old(com_cfg).queue(index).size == 0,
            r matches Err(e) ==> e == VirtqError::QueueNotExisting(index),
            final(com_cfg).rejects_features() == old(com_cfg).rejects_features(),
            final(com_cfg).feature_regs() == old(com_cfg).feature_regs(),
            r is Err ==> final(com_cfg).status() == old(com_cfg).status() && forall|i: u16| #[trigger]
                final(com_cfg).queue(i) == old(com_cfg).queue(i),
            r matches Ok(vq) ==> {
                let dev_size = old(com_cfg).queue(index).size;
                let vq_size = if dev_size >= size {
                    size
                } else {
                    dev_size
                };
                &&& vq.spec_size() == vq_size
                &&& vq.spec_index() == index
                &&& vq.spec_ring().wf()
                &&& vq.spec_ring().size() == vq_size
                &&& vq.spec_ring().read_index() == 0 && vq.spec_ring().avail_index() == 0
                &&& vq.spec_ring().free_ids().len() == vq_size
                &&& forall|id: int| 0 <= id < vq_size ==> #[trigger] vq.spec_ring().token(id) is None
                &&& vq.spec_notif_ctrl().spec_addr() == notif_cfg.spec_base_addr() + old(
                    com_cfg,
                ).queue(index).notify_off * notif_cfg.spec_multiplier()
                &&& vq.spec_notif_ctrl().spec_notif_data() == (features
                    & VIRTIO_F_NOTIFICATION_DATA != 0)
                &&& final(com_cfg).queue(index) == (QueueRegs {
                    size: vq_size,
                    enabled: true,
                    ..old(com_cfg).queue(index)
                })
                &&& final(com_cfg).status() == old(com_cfg).status()
                &&& forall|i: u16| i != index ==> #[trigger] final(com_cfg).queue(i) == old(
                    com_cfg,
                ).queue(i)
            },
    {
        let vq_handler = match com_cfg.select_vq(index) {
            Some(h) => h,
            None => return Err(VirtqError::QueueNotExisting(index)),
        };
        let vq_size = vq_handler.set_vq_size(com_cfg, size);
        let ring = DescrRing::new(vq_size);
        let notif_off = vq_handler.notif_off(com_cfg);
        let mut notif_ctrl = NotifCtrl::new(notif_cfg.notification_location(notif_off));
        if features & VIRTIO_F_NOTIFICATION_DATA != 0 {
            notif_ctrl.enable_notif_data();
        }
        vq_handler.enable_queue(com_cfg);
        Ok(SplitVq { ring, size: vq_size, index, notif_ctrl })
    }

    pub fn size(&self) -> (r: u16)
        ensures
            r == self.spec_size(),
    {
        self.size
    }

    pub fn index(&self) -> (r: u16)
        ensures
            r == self.spec_index(),
    {
        self.index
    }

    /// Asks the device for interrupts when it uses buffers.
    pub fn enable_notifs(&mut self)
        requires
            old(self).spec_ring().wf(),
        ensures
            final(self).spec_size() == old(self).spec_size(),
            final(self).spec_index() == old(self).spec_index(),
            final(self).spec_ring().wf(),
            final(self).spec_ring().avail_flags() == old(self).spec_ring().avail_flags()
                & !VIRTQ_AVAIL_F_NO_INTERRUPT,
    {
        self.ring.drv_enable_notif();
    }

    /// Asks the device for no interrupts when it uses buffers.
    pub fn disable_notifs(&mut self)
        requires
            old(self).spec_ring().wf(),
        ensures
            final(self).spec_size() == old(self).spec_size(),
            final(self).spec_index() == old(self).spec_index(),
            final(self).spec_ring().wf(),
            final(self).spec_ring().avail_flags() == old(self).spec_ring().avail_flags()
                | VIRTQ_AVAIL_F_NO_INTERRUPT,
    {
        self.ring.drv_disable_notif();
    }
}

/// The table of an indirect buffer: the descriptors of the elements of
/// `buffer_tkn`, which lie at `addrs`, each linked to the one after it in
/// the table; a token without elements is refused.
pub fn create_indirect_ctrl(buffer_tkn: &AvailBufferToken, addrs: &Vec<u64>) -> (r: Result<
    Vec<SplitDesc>,
    VirtqError,
>)
    requires
        addrs@.len() == buffer_tkn.send_buff@.len() + buffer_tkn.recv_buff@.len(),
        addrs@.len() <= u16::MAX,
        forall|k: int|
            0 <= k < buffer_tkn.send_buff@.len() ==> (#[trigger] buffer_tkn.send_buff@[k]).spec_len()
                <= u32::MAX,
        forall|k: int|
            0 <= k < buffer_tkn.recv_buff@.len() ==> (
            #[trigger] buffer_tkn.recv_buff@[k]).spec_capacity() <= u32::MAX,
    ensures
        r is Err <==> addrs@.len() == 0,
        r matches Err(e) ==> e == VirtqError::BufferNotSpecified,
        r matches Ok(table) ==> {
            &&& table@.len() == addrs@.len()
            &&& forall|k: int|
                0 <= k < table@.len() ==> {
                    let d = incomplete_desc(buffer_tkn.send_buff@, buffer_tkn.recv_buff@, addrs@, k);
                    #[trigger] table@[k] == (SplitDesc {
                        addr: d.addr,
                        len: d.len,
                        flags: d.flags,
                        next: (k + 1) as u16,
                    })
                }
        },
{
    let descs = match descriptor_iter(buffer_tkn, addrs) {
        Ok(d) => d,
        Err(e) => return Err(e),
    };
    let ghost send = buffer_tkn.send_buff@;
    let ghost recv = buffer_tkn.recv_buff@;
    let mut table: Vec<SplitDesc> = Vec::new();
    let mut k: usize = 0;
    while k < descs.len()
        invariant
            descs@.len() == addrs@.len(),
            addrs@.len() <= u16::MAX,
            forall|j: int| 0 <= j < descs@.len() ==> #[trigger] descs@[j] == incomplete_desc(send, recv, addrs@, j),
            k <= descs@.len(),
            table@.len() == k,
            forall|j: int|
                0 <= j < k ==> #[trigger] table@[j] == (SplitDesc {
                    addr: descs@[j].addr,
                    len: descs@[j].len,
                    flags: descs@[j].flags,
                    next: (j + 1) as u16,
                }),
        decreases descs@.len() - k,
    {
        let d = descs[k];
        table.push(SplitDesc { addr: d.addr, len: d.len, flags: d.flags, next: (k + 1) as u16 });
        k += 1;
    }
    Ok(table)
}

} // verus!
