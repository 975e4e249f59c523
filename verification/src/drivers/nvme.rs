//! The NVMe driver's bookkeeping: which requests for I/O queue pairs it
//! admits, and the layout of each allocation its allocator hands out.

use vstd::prelude::*;

verus! {

/// Why an NVMe request fails.
#[derive(Clone, Copy, Debug, PartialEq, Eq)]
pub enum SysNvmeError {
    NamespaceDoesNotExist,
    CouldNotClearNamespace,
    MaxNumberOfQueuesReached,
    CouldNotCreateIoQueuePair,
    CouldNotDeleteIoQueuePair,
    CouldNotFindIoQueuePair,
    CouldNotAllocateBuffer,
    CouldNotDeallocateBuffer,
    CouldNotReadFromIoQueuePair,
    CouldNotWriteToIoQueuePair,
}

/// Whether a new I/O queue pair may be created for namespace
/// `namespace_id`: the namespace must be one of `namespace_ids`, and fewer
/// than `max_pairs` queue pairs may be open (`open_pairs` are).
pub fn check_create_io_queue_pair(
    namespace_ids: &Vec<u32>,
    namespace_id: u32,
    open_pairs: usize,
    max_pairs: u16,
) -> (r: Result<(), SysNvmeError>)
    ensures
        !namespace_ids@.contains(namespace_id) ==> r == Err::<(), SysNvmeError>(
            SysNvmeError::NamespaceDoesNotExist,
        ),
        namespace_ids@.contains(namespace_id) && open_pairs >= max_pairs ==> r == Err::<
            (),
            SysNvmeError,
        >(SysNvmeError::MaxNumberOfQueuesReached),
        namespace_ids@.contains(namespace_id) && open_pairs < max_pairs ==> r is Ok,
{
    let mut found = false;
    let mut i: usize = 0;
    while i < namespace_ids.len()
        invariant
            i <= namespace_ids.len(),
            found <==> exists|k: int| 0 <= k < i && namespace_ids@[k] == namespace_id,
        decreases namespace_ids.len() - i,
    {
        if namespace_ids[i] == namespace_id {
            found = true;
        }
        i += 1;
    }
    if !found {
        return Err(SysNvmeError::NamespaceDoesNotExist);
    }
    if open_pairs >= max_pairs as usize {
        return Err(SysNvmeError::MaxNumberOfQueuesReached);
    }
    Ok(())
}

/// The size and alignment of an allocation.
#[derive(Clone, Copy, Debug, PartialEq, Eq)]
pub struct AllocLayout {
    pub size: usize,
    pub align: usize,
}

/// The layouts of the allocator's allocations by address, held in a
/// `hashbrown::HashMap` with a fixed `ahash::RandomState`.
#[verifier::external_body]
pub struct Allocations {
    map: hashbrown::HashMap<usize, AllocLayout, ahash::RandomState>,
}

/// The layout of each allocation `allocations` holds, by address.
pub uninterp spec fn allocations_map(allocations: Allocations) -> Map<usize, AllocLayout>;

impl Allocations {
    /// An empty map: `HashMap::with_hasher` with `RandomState::with_seeds(0, 0, 0, 0)`.
    #[verifier::external_body]
    fn new() -> (r: Allocations)
        ensures
            allocations_map(r).dom() == Set::<usize>::empty(),
    {
        Allocations {
            map: hashbrown::HashMap::with_hasher(ahash::RandomState::with_seeds(0, 0, 0, 0)),
        }
    }

    /// `HashMap::insert`: records `layout` at `addr`, replacing an earlier
    /// layout there, which it returns.
    #[verifier::external_body]
    fn insert(&mut self, addr: usize, layout: AllocLayout) -> (r: Option<AllocLayout>)
        ensures
            allocations_map(*final(self)) == allocations_map(*old(self)).insert(addr, layout),
            r is Some <==> allocations_map(*old(self)).contains_key(addr),
            r matches Some(l) ==> l == allocations_map(*old(self))[addr],
    {
        self.map.insert(addr, layout)
    }

    /// `HashMap::remove`: forgets the layout at `addr` and returns it, if
    /// there is one.
    #[verifier::external_body]
    fn remove(&mut self, addr: usize) -> (r: Option<AllocLayout>)
        ensures
            allocations_map(*final(self)) == allocations_map(*old(self)).remove(addr),
            r is Some <==> allocations_map(*old(self)).contains_key(addr),
            r matches Some(l) ==> l == allocations_map(*old(self))[addr],
    {
        self.map.remove(&addr)
    }
}

/// Why the allocator cannot give memory back.
#[derive(Clone, Copy, Debug, PartialEq, Eq)]
pub enum NvmeAllocError {
    /// The address was not handed out by this allocator.
    UnknownAddress(usize),
}

/// The bookkeeping of the allocator through which the NVMe device gets its
/// memory: the layout each allocation was made with, by address, so that
/// it can be given back with that layout.
pub struct NvmeAllocator {
    allocations: Allocations,
}

impl NvmeAllocator {
    /// The layout of each live allocation, by address.
    pub closed spec fn spec_allocations(&self) -> Map<usize, AllocLayout> {
        allocations_map(self.allocations)
    }

    /// An allocator that has handed out nothing.
    pub fn new() -> (r: Self)
        ensures
            r.spec_allocations().dom() == Set::<usize>::empty(),
    {
        NvmeAllocator { allocations: Allocations::new() }
    }

    /// Records that memory at `addr` was allocated with `layout`.
    pub fn allocate(&mut self, addr: usize, layout: AllocLayout)
        ensures
            final(self).spec_allocations() == old(self).spec_allocations().insert(addr, layout),
    {
        self.allocations.insert(addr, layout);
    }

    /// Forgets the allocation at `addr` and returns the layout it was made
    /// with, which the memory is given back with; an address this allocator
    /// did not hand out is refused.
    pub fn deallocate(&mut self, addr: usize) -> (r: Result<AllocLayout, NvmeAllocError>)
        ensures
            old(self).spec_allocations().contains_key(addr) ==> r == Ok::<
                AllocLayout,
                NvmeAllocError,
            >(old(self).spec_allocations()[addr]),
            !old(self).spec_allocations().contains_key(addr) ==> r == Err::<
                AllocLayout,
                NvmeAllocError,
            >(NvmeAllocError::UnknownAddress(addr)),
            final(self).spec_allocations() == old(self).spec_allocations().remove(addr),
    {
        match self.allocations.remove(addr) {
            Some(layout) => Ok(layout),
            None => Err(NvmeAllocError::UnknownAddress(addr)),
        }
    }
}

/// Giving back an allocation yields the layout it was last recorded with,
/// and leaves the other allocations as they were.
pub proof fn lemma_deallocate_after_allocate(
    allocations: Map<usize, AllocLayout>,
    addr: usize,
    layout: AllocLayout,
)
    ensures
        allocations.insert(addr, layout).contains_key(addr),
        allocations.insert(addr, layout)[addr] == layout,
        allocations.insert(addr, layout).remove(addr) == allocations.remove(addr),
{
    assert(allocations.insert(addr, layout).remove(addr) =~= allocations.remove(addr));
}

} // verus!
