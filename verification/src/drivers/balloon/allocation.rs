use vstd::prelude::*;

verus! {

/// Fixed size of pages as handled by the basic balloon device interface.
pub const BALLOON_PAGE_SIZE: usize = 4096;

/// Memory layout of an allocation of consecutive balloon pages.
#[derive(Clone, Copy, Debug, PartialEq, Eq)]
pub struct ChunkLayout {
    pub size: usize,
    pub align: usize,
}

/// Whether pages remain in a chunk after it was shrunk.
#[derive(Clone, Copy, Debug, PartialEq, Eq, Structural)]
pub enum ShrinkResult {
    PagesRemain,
    Deallocated,
}

/// What the allocator has to do with a chunk's memory after a shrink.
#[derive(Clone, Copy, Debug, PartialEq, Eq)]
pub enum ChunkRelease {
    /// The allocation stays as it is.
    Keep,
    /// The whole allocation at `addr` with `layout` is given back.
    Free { addr: u64, layout: ChunkLayout },
    /// The allocation at `addr` is shrunk from `old_layout` to `new_size` bytes.
    Shrink { addr: u64, old_layout: ChunkLayout, new_size: usize },
}

/// A number of pages whose layout can be described: non-zero and small enough
/// that their size in bytes stays within an `isize`.
pub open spec fn valid_num_pages(num_pages: int) -> bool {
    1 <= num_pages && num_pages * BALLOON_PAGE_SIZE <= isize::MAX
}

/// The layout of `num_pages` consecutive 4 KiB pages aligned to 4 KiB.
pub open spec fn spec_layout(num_pages: int) -> ChunkLayout {
    ChunkLayout { size: (num_pages * BALLOON_PAGE_SIZE) as usize, align: BALLOON_PAGE_SIZE }
}

/// Every element of `q` from the back matches the element of `p` from the
/// back, for as many elements as both have.
pub open spec fn suffix_match(q: Seq<u32>, p: Seq<u32>) -> bool {
    forall|i: int|
        0 <= i < q.len() && i < p.len() ==> #[trigger] q[q.len() - 1 - i] == p[p.len() - 1 - i]
}

/// The page index of a physical address.
pub open spec fn page_index_of(phys_addr: u64) -> int {
    (phys_addr / (BALLOON_PAGE_SIZE as u64)) as int
}

/// What a chunk of balloon pages consists of.
pub struct ChunkView {
    /// Address of the allocation, `None` once it has been fully deallocated.
    pub addr: Option<u64>,
    /// Physical page indices of the pages the chunk currently owns.
    pub pages: Seq<u32>,
    /// Position in `pages` from which on pages are queued for deflation.
    pub queued_start: int,
}

impl ChunkView {
    pub open spec fn wf(self) -> bool {
        &&& 0 <= self.queued_start <= self.pages.len()
        &&& self.pages.len() <= u32::MAX
        &&& self.pages.len() * BALLOON_PAGE_SIZE <= isize::MAX
        &&& (self.addr is Some <==> self.pages.len() > 0)
    }

    /// The pages of the chunk that are queued for deflation.
    pub open spec fn queued(self) -> Seq<u32> {
        self.pages.subrange(self.queued_start, self.pages.len() as int)
    }

    /// Position in `pages` from which a shrink by `g` removes the chunk's
    /// pages: the first queued page equal to the first of `g`.
    pub open spec fn shrink_from(self, g: Seq<u32>) -> int {
        self.queued_start + self.queued().index_of_first(g[0])->Some_0
    }

    /// The inputs on which a shrink by `g` finds what it expects: no more
    /// pages than are queued, and (for a non-empty chunk and non-empty `g`)
    /// the first of `g` queued, the last of `g` the last queued page, and the
    /// pages from [`Self::shrink_from`] on equal to `g`.
    pub open spec fn shrink_acceptable(self, g: Seq<u32>) -> bool {
        &&& g.len() <= self.queued().len()
        &&& (self.addr is Some && g.len() > 0) ==> {
            &&& self.queued().contains(g[0])
            &&& self.queued().last() == g.last()
            &&& forall|i: int|
                0 <= i < g.len() && self.shrink_from(g) + i < self.pages.len() ==> self.pages[
                self.shrink_from(g) + i] == #[trigger] g[i]
        }
    }

    /// The chunk after a shrink by `g`: the pages from
    /// [`Self::shrink_from`] on are gone, and so is the allocation when no
    /// page remains.
    pub open spec fn shrunk(self, g: Seq<u32>) -> ChunkView {
        if self.addr is None || g.len() == 0 {
            self
        } else {
            let first = self.shrink_from(g);
            ChunkView {
                addr: if first == 0 {
                    None
                } else {
                    self.addr
                },
                pages: self.pages.subrange(0, first),
                queued_start: self.queued_start,
            }
        }
    }

    /// What a shrink by `g` reports and asks of the allocator.
    pub open spec fn shrink_outcome(self, g: Seq<u32>) -> (ShrinkResult, ChunkRelease) {
        if self.addr is None {
            (ShrinkResult::Deallocated, ChunkRelease::Keep)
        } else if g.len() == 0 {
            (ShrinkResult::PagesRemain, ChunkRelease::Keep)
        } else {
            let first = self.shrink_from(g);
            let old_layout = spec_layout(self.pages.len() as int);
            if first == 0 {
                (
                    ShrinkResult::Deallocated,
                    ChunkRelease::Free { addr: self.addr->Some_0, layout: old_layout },
                )
            } else {
                (
                    ShrinkResult::PagesRemain,
                    ChunkRelease::Shrink {
                        addr: self.addr->Some_0,
                        old_layout,
                        new_size: (first * BALLOON_PAGE_SIZE) as usize,
                    },
                )
            }
        }
    }
}

/// A chunk of consecutive 4 KiB pages allocated for the balloon.
///
/// `page_indices` holds the physical page indices of the pages the chunk owns;
/// those from `queued_for_deflation_start` on are queued for deflation.
pub struct BalloonAllocation {
    allocation_addr: Option<u64>,
    page_indices: Vec<u32>,
    queued_for_deflation_start: usize,
}

impl View for BalloonAllocation {
    type V = ChunkView;

    closed spec fn view(&self) -> ChunkView {
        ChunkView {
            addr: self.allocation_addr,
            pages: self.page_indices@,
            queued_start: self.queued_for_deflation_start as int,
        }
    }
}

impl BalloonAllocation {
    /// Address of the allocation, `None` once it has been fully deallocated.
    pub open spec fn addr(&self) -> Option<u64> {
        self@.addr
    }

    /// Physical page indices of the pages the chunk currently owns.
    pub open spec fn pages(&self) -> Seq<u32> {
        self@.pages
    }

    /// Position in [`Self::pages`] from which on pages are queued for deflation.
    pub open spec fn queued_start(&self) -> int {
        self@.queued_start
    }

    /// The pages of the chunk that are queued for deflation.
    pub open spec fn queued(&self) -> Seq<u32> {
        self@.queued()
    }

    pub open spec fn wf(&self) -> bool {
        self@.wf()
    }

    /// The memory layout for an allocation of `num_pages` 4 KiB pages.
    pub fn layout(num_pages: usize) -> (r: ChunkLayout)
        requires
            valid_num_pages(num_pages as int),
        ensures
            r == spec_layout(num_pages as int),
    {
        ChunkLayout { size: num_pages * BALLOON_PAGE_SIZE, align: BALLOON_PAGE_SIZE }
    }

    /// The current layout of the allocation if pages are allocated.
    pub fn current_layout(&self) -> (r: Option<ChunkLayout>)
        requires
            self.wf(),
        ensures
            r == (if self.pages().len() > 0 {
                Some(spec_layout(self.pages().len() as int))
            } else {
                None
            }),
    {
        match self.num_pages_allocated() {
            Some(n) => Some(Self::layout(n)),
            None => None,
        }
    }

    /// The number of pages allocated for this chunk, pages queued for
    /// deflation included; `None` when there are none.
    pub fn num_pages_allocated(&self) -> (r: Option<usize>)
        ensures
            r == (if self.pages().len() > 0 {
                Some(self.pages().len() as usize)
            } else {
                None
            }),
    {
        let n = self.page_indices.len();
        if n == 0 {
            None
        } else {
            Some(n)
        }
    }

    /// The number of pages of this chunk that can still be queued for deflation.
    pub fn num_available_for_deflation(&self) -> (r: u32)
        requires
            self.wf(),
        ensures
            r == self.queued_start(),
    {
        self.queued_for_deflation_start as u32
    }

    pub fn is_empty(&self) -> (r: bool)
        ensures
            r == (self.addr() is None),
    {
        self.allocation_addr.is_none()
    }

    /// The physical page indices of all pages of this chunk.
    pub fn phys_page_indices(&self) -> (r: Vec<u32>)
        ensures
            r@ == self.pages(),
    {
        self.page_indices.clone()
    }

    /// Creates the chunk for a fresh allocation of `phys_addrs.len()` pages at
    /// `allocation_addr`, whose pages lie at the physical addresses
    /// `phys_addrs`; fails when the allocation failed.
    pub fn try_allocate(allocation_addr: Option<u64>, phys_addrs: &[u64]) -> (r: Result<Self, ()>)
        requires
            phys_addrs@.len() <= u32::MAX,
            valid_num_pages(phys_addrs@.len() as int),
            forall|i: int|
                0 <= i < phys_addrs@.len() ==> page_index_of(#[trigger] phys_addrs@[i]) <= u32::MAX,
        ensures
            allocation_addr is None ==> r is Err,
            allocation_addr is Some ==> (r matches Ok(c) && {
                &&& c.wf()
                &&& c.addr() == allocation_addr
                &&& c.pages().len() == phys_addrs@.len()
                &&& forall|i: int|
                    0 <= i < phys_addrs@.len() ==> #[trigger] c.pages()[i] == page_index_of(
                        phys_addrs@[i],
                    )
                &&& c.queued().len() == 0
            }),
    {
        let addr = match allocation_addr {
            Some(a) => a,
            None => return Err(()),
        };
        let mut page_indices: Vec<u32> = Vec::with_capacity(phys_addrs.len());
        let mut i: usize = 0;
        while i < phys_addrs.len()
            invariant
                0 <= i <= phys_addrs@.len(),
                page_indices@.len() == i,
                forall|j: int|
                    0 <= j < phys_addrs@.len() ==> page_index_of(#[trigger] phys_addrs@[j])
                        <= u32::MAX,
                forall|j: int|
                    0 <= j < i ==> #[trigger] page_indices@[j] == page_index_of(phys_addrs@[j]),
            decreases phys_addrs@.len() - i,
        {
            let index = phys_addrs[i] / (BALLOON_PAGE_SIZE as u64);
            assert(page_index_of(phys_addrs@[i as int]) <= u32::MAX);
            page_indices.push(index as u32);
            i = i + 1;
        }
        let num_pages = page_indices.len();
        Ok(BalloonAllocation {
            allocation_addr: Some(addr),
            page_indices,
            queued_for_deflation_start: num_pages,
        })
    }

    /// The pages of this chunk that are queued for deflation.
    pub fn pages_queued_for_deflation(&self) -> (r: &[u32])
        requires
            self.wf(),
        ensures
            r@ == self.queued(),
    {
        vstd::slice::slice_subrange(
            self.page_indices.as_slice(),
            self.queued_for_deflation_start,
            self.page_indices.len(),
        )
    }

    /// Queues the last `num_pages_to_mark` pages that are not queued yet for
    /// deflation and returns their page indices.
    pub fn mark_queued_for_deflation(&mut self, num_pages_to_mark: u32) -> (r: Vec<u32>)
        requires
            old(self).wf(),
            num_pages_to_mark <= old(self).queued_start(),
        ensures
            final(self).wf(),
            final(self).pages() == old(self).pages(),
            final(self).addr() == old(self).addr(),
            final(self).queued_start() == old(self).queued_start() - num_pages_to_mark,
            r@ == old(self).pages().subrange(
                old(self).queued_start() - num_pages_to_mark,
                old(self).queued_start(),
            ),
            final(self).queued() == r@ + old(self).queued(),
    {
        let n = num_pages_to_mark as usize;
        self.queued_for_deflation_start = self.queued_for_deflation_start - n;
        let start = self.queued_for_deflation_start;
        let r = vstd::slice::slice_to_vec(
            vstd::slice::slice_subrange(self.page_indices.as_slice(), start, start + n),
        );
        assert(self.queued() =~= r@ + old(self).queued());
        r
    }

    /// Whether the pages queued for deflation end with `page_indices`, as far
    /// as both reach.
    pub fn can_shrink_by_pages(&self, page_indices: &[u32]) -> (r: bool)
        requires
            self.wf(),
        ensures
            r == suffix_match(self.queued(), page_indices@),
    {
        let queued = self.pages_queued_for_deflation();
        let ql = queued.len();
        let pl = page_indices.len();
        let mut i: usize = 0;
        while i < ql && i < pl
            invariant
                ql == queued@.len(),
                pl == page_indices@.len(),
                queued@ == self.queued(),
                0 <= i <= ql,
                i <= pl,
                forall|k: int|
                    0 <= k < i ==> #[trigger] queued@[ql - 1 - k] == page_indices@[pl - 1 - k],
            decreases ql - i,
        {
            if queued[ql - 1 - i] != page_indices[pl - 1 - i] {
                assert(!suffix_match(self.queued(), page_indices@)) by {
                    let k = i as int;
                    assert(self.queued()[self.queued().len() - 1 - k] != page_indices@[
                        page_indices@.len() - 1 - k
                    ]);
                }
                return false;
            }
            i = i + 1;
        }
        true
    }

    /// Shrinks the chunk by the pages `pages_to_shrink`, which were queued for
    /// deflation before, and says what becomes of the chunk's allocation.
    pub fn shrink(&mut self, pages_to_shrink: &[u32]) -> (r: (ShrinkResult, ChunkRelease))
        requires
            old(self).wf(),
            old(self)@.shrink_acceptable(pages_to_shrink@),
        ensures
            final(self).wf(),
            final(self).queued_start() == old(self).queued_start(),
            final(self)@ == old(self)@.shrunk(pages_to_shrink@),
            r == old(self)@.shrink_outcome(pages_to_shrink@),
            old(self).addr() is None ==> r == (ShrinkResult::Deallocated, ChunkRelease::Keep)
                && *final(self) == *old(self),
            old(self).addr() is Some && pages_to_shrink@.len() == 0 ==> r == (
                ShrinkResult::PagesRemain,
                ChunkRelease::Keep,
            ) && *final(self) == *old(self),
            old(self).addr() is Some && pages_to_shrink@.len() > 0 ==> {
                let first = old(self)@.shrink_from(pages_to_shrink@);
                let old_layout = spec_layout(old(self).pages().len() as int);
                &&& old(self).queued_start() <= first < old(self).pages().len()
                &&& final(self).pages() == old(self).pages().subrange(0, first)
                &&& first == 0 ==> final(self).addr() is None && r == (
                    ShrinkResult::Deallocated,
                    ChunkRelease::Free { addr: old(self).addr()->Some_0, layout: old_layout },
                )
                &&& first > 0 ==> final(self).addr() == old(self).addr() && r == (
                    ShrinkResult::PagesRemain,
                    ChunkRelease::Shrink {
                        addr: old(self).addr()->Some_0,
                        old_layout,
                        new_size: (first * BALLOON_PAGE_SIZE) as usize,
                    },
                )
            },
    {
        let addr = match self.allocation_addr {
            Some(a) => a,
            None => return (ShrinkResult::Deallocated, ChunkRelease::Keep),
        };
        if pages_to_shrink.len() == 0 {
            return (ShrinkResult::PagesRemain, ChunkRelease::Keep);
        }
        let old_layout = Self::layout(self.page_indices.len());
        let ghost q = self.queued();
        proof {
            q.index_of_first_ensures(pages_to_shrink@[0]);
        }
        let queued = self.pages_queued_for_deflation();
        let target = pages_to_shrink[0];
        let mut pos: usize = 0;
        while queued[pos] != target
            invariant
                queued@ == q,
                0 <= pos < q.len(),
                q.index_of_first(target) is Some,
                pos <= q.index_of_first(target)->Some_0,
                forall|j: int| 0 <= j < q.index_of_first(target)->Some_0 ==> q[j] != target,
                q[q.index_of_first(target)->Some_0] == target,
                q.index_of_first(target)->Some_0 < q.len(),
            decreases q.len() - pos,
        {
            pos = pos + 1;
        }
        let first = self.queued_for_deflation_start + pos;
        self.page_indices.truncate(first);
        assert(self.pages() =~= old(self).pages().subrange(0, first as int));
        if first == 0 {
            self.allocation_addr = None;
            (ShrinkResult::Deallocated, ChunkRelease::Free { addr, layout: old_layout })
        } else {
            (
                ShrinkResult::PagesRemain,
                ChunkRelease::Shrink { addr, old_layout, new_size: first * BALLOON_PAGE_SIZE },
            )
        }
    }
}

} // verus!
