//! The pool: one list of free blocks for each size class.

use crate::classes::{
    bucket_of, bucket_size, index_of_bucket, law_bucket_is_first_that_fits,
    law_bucket_sizes_increase, law_bucketed_up_to_maximum, lemma_bucket_size_doubles,
    law_bucket_bounds, BUCKET_COUNT, BUCKET_MAX, BUCKET_MIN,
};
use crate::host::Host;
use crate::pages::{free_pages, unmapping_call};
use crate::session::{Allocation, Release};
use crate::syscall::Invocation;
use vstd::prelude::*;

verus! {

/// The allocation of a block of `size` bytes from free blocks: the block that
/// was returned last, or a fresh mapping where there is none.
pub open spec fn list_grant(host: Host, blocks: Seq<usize>, size: usize) -> Allocation {
    if blocks.len() > 0 {
        Allocation::Granted { addr: blocks.last(), size }
    } else {
        Allocation::fresh(host, size)
    }
}

/// The free blocks that an allocation leaves.
pub open spec fn list_rest(blocks: Seq<usize>) -> Seq<usize> {
    if blocks.len() > 0 {
        blocks.drop_last()
    } else {
        blocks
    }
}

/// The free blocks after a return: more by the block that is ready for the pool.
pub open spec fn list_reclaimed(blocks: Seq<usize>, release: Release) -> Seq<usize> {
    match release {
        Release::Reusable { block, .. } => blocks.push(block),
        _ => blocks,
    }
}

/// The unmapping of each block, in their order.
pub open spec fn list_unmapped(host: Host, blocks: Seq<usize>, size: usize) -> Seq<Invocation> {
    Seq::new(
        blocks.len(),
        |i: int| Invocation::fresh(unmapping_call(host, blocks[i], size)),
    )
}

/// A free list for managing memory allocations of a fixed size.
#[derive(Debug)]
pub struct FreeList {
    /// Free blocks awaiting reuse.
    mem: Vec<usize>,
    /// The size of each memory block.
    size: usize,
}

impl FreeList {
    /// The addresses of the free blocks, that of the last returned one last.
    pub closed spec fn blocks(&self) -> Seq<usize> {
        self.mem@
    }

    /// The size of each block.
    pub closed spec fn block_size(&self) -> usize {
        self.size
    }

    /// Creates an empty free list for blocks of the specified size.
    ///
    /// No block is allocated; that happens as blocks are needed.
    pub fn new(size: usize) -> (list: FreeList)
        ensures
            list.blocks() == Seq::<usize>::empty(),
            list.block_size() == size,
    {
        FreeList { mem: Vec::new(), size }
    }

    /// Allocates a block of the configured size.
    ///
    /// If a free block is available, it is reused; otherwise a new block is
    /// mapped. The memory is readable and writable and may contain arbitrary
    /// bytes left over from a previous owner.
    pub fn allocate(&mut self, host: &Host) -> (allocation: Allocation)
        ensures
            allocation == list_grant(*host, old(self).blocks(), old(self).block_size()),
            final(self).blocks() == list_rest(old(self).blocks()),
            final(self).block_size() == old(self).block_size(),
    {
        match self.mem.pop() {
            Some(addr) => Allocation::Granted { addr, size: self.size },
            None => Allocation::map(host, self.size),
        }
    }

    /// Starts to return a block of the list. Once the release has ended it is
    /// handed to [`FreeList::reclaim`].
    ///
    /// The block must have come out of [`FreeList::allocate`] on this list and must
    /// not have been returned since, and nobody may use it any more.
    pub fn free(&self, host: &Host, ptr: usize, size: usize) -> (release: Release)
        requires
            size == self.block_size(),
        ensures
            release == Release::of_block(*host, ptr, size),
    {
        Release::block(host, ptr, self.size)
    }

    /// Takes back the block of a release that ended with the block ready for
    /// reuse. A release may be handed in only once: each time puts its block into
    /// the list.
    pub fn reclaim(&mut self, release: &Release)
        requires
            *release matches Release::Reusable { size, .. } ==> size == old(self).block_size(),
        ensures
            final(self).blocks() == list_reclaimed(old(self).blocks(), *release),
            final(self).block_size() == old(self).block_size(),
    {
        match *release {
            Release::Reusable { block, .. } => {
                self.mem.push(block);
            },
            _ => {},
        }
    }

    /// Empties the list and gives every block back to the host.
    pub fn drop(&mut self, host: &Host) -> (unmappings: Vec<Invocation>)
        ensures
            unmappings@ == list_unmapped(*host, old(self).blocks(), old(self).block_size()),
            final(self).blocks() == Seq::<usize>::empty(),
            final(self).block_size() == old(self).block_size(),
    {
        let mut unmappings: Vec<Invocation> = Vec::new();
        let mut i: usize = 0;
        while i < self.mem.len()
            invariant
                i <= self.mem@.len(),
                self.mem@ == old(self).mem@,
                self.size == old(self).size,
                unmappings@ =~= list_unmapped(*host, self.mem@, self.size).take(i as int),
            decreases self.mem@.len() - i,
        {
            unmappings.push(free_pages(host, self.mem[i], self.size));
            i = i + 1;
        }
        self.mem.clear();
        unmappings
    }
}

/// The allocation of at least `size` bytes from a pool: from the bucket of the
/// size, or sized to the page where no bucket is large enough.
pub open spec fn pool_grant(host: Host, pool: Seq<Seq<usize>>, size: usize) -> Allocation {
    let idx = bucket_of(size as nat);
    if idx < BUCKET_COUNT {
        list_grant(host, pool[idx as int], bucket_size(idx) as usize)
    } else {
        Allocation::Sizing { request: size }
    }
}

/// The pool that an allocation leaves.
pub open spec fn pool_rest(pool: Seq<Seq<usize>>, size: usize) -> Seq<Seq<usize>> {
    let idx = bucket_of(size as nat);
    if idx < BUCKET_COUNT {
        pool.update(idx as int, list_rest(pool[idx as int]))
    } else {
        pool
    }
}

/// Whether memory of `size` bytes can have come out of a pool: it is as large as
/// the blocks of its bucket, or too large for any bucket.
pub open spec fn returnable(size: usize) -> bool {
    bucket_of(size as nat) < BUCKET_COUNT ==> size == bucket_size(bucket_of(size as nat))
}

/// The return of memory to a pool, before anything was asked.
pub open spec fn pool_release(host: Host, addr: usize, size: usize) -> Release {
    if bucket_of(size as nat) < BUCKET_COUNT {
        Release::of_block(host, addr, size)
    } else {
        Release::of_mapping(host, addr, size)
    }
}

/// The pool after a return.
pub open spec fn pool_reclaimed(pool: Seq<Seq<usize>>, release: Release) -> Seq<Seq<usize>> {
    match release {
        Release::Reusable { size, .. } if bucket_of(size as nat) < BUCKET_COUNT => {
            let idx = bucket_of(size as nat) as int;
            pool.update(idx, list_reclaimed(pool[idx], release))
        },
        _ => pool,
    }
}

/// The unmapping of each block of the first `count` buckets, in their order.
pub open spec fn pool_unmapped(host: Host, pool: Seq<Seq<usize>>, count: nat) -> Seq<Invocation>
    decreases count,
{
    if count == 0 {
        Seq::empty()
    } else {
        let idx = (count - 1) as nat;
        pool_unmapped(host, pool, idx) + list_unmapped(
            host,
            pool[idx as int],
            bucket_size(idx) as usize,
        )
    }
}

/// A pool without free blocks.
pub open spec fn empty_pool() -> Seq<Seq<usize>> {
    Seq::new(BUCKET_COUNT as nat, |i: int| Seq::<usize>::empty())
}

/// A free list that uses a bucketed strategy to manage memory allocations of
/// varying sizes.
///
/// Buckets are organized by power-of-two size, with the smallest bucket being
/// [`BUCKET_MIN`] and the largest being [`BUCKET_MAX`]. Allocations are rounded
/// up to the nearest power of two and stored in the corresponding bucket.
///
/// Returned blocks remain cached in the pool and are not given back to the host
/// during normal operation. This trades higher retained memory after peak load
/// for fewer system calls.
#[derive(Debug)]
pub struct BucketedFreeList {
    buckets: Vec<FreeList>,
}

impl View for BucketedFreeList {
    type V = Seq<Seq<usize>>;

    /// The free blocks of each bucket.
    closed spec fn view(&self) -> Seq<Seq<usize>> {
        Seq::new(self.buckets@.len(), |i: int| self.buckets@[i].blocks())
    }
}

impl BucketedFreeList {
    /// There is one bucket for each size class, with blocks of that size.
    pub closed spec fn wf(&self) -> bool {
        &&& self.buckets@.len() == BUCKET_COUNT
        &&& forall|i: int|
            0 <= i < BUCKET_COUNT ==> (#[trigger] self.buckets@[i]).block_size() == bucket_size(
                i as nat,
            )
    }

    /// A well-formed pool has a list of free blocks for each size class.
    pub proof fn law_pool_has_every_bucket(&self)
        requires
            self.wf(),
        ensures
            self@.len() == BUCKET_COUNT,
    {
    }

    /// Constructs an empty pool with one bucket per power-of-two size class.
    pub fn new() -> (pool: BucketedFreeList)
        ensures
            pool.wf(),
            pool@ == empty_pool(),
    {
        let mut buckets: Vec<FreeList> = Vec::new();
        let mut size: usize = BUCKET_MIN;
        proof {
            law_bucket_bounds();
        }
        while buckets.len() < BUCKET_COUNT
            invariant
                buckets@.len() <= BUCKET_COUNT,
                size == bucket_size(buckets@.len()),
                size <= 2 * BUCKET_MAX,
                forall|i: int|
                    0 <= i < buckets@.len() ==> (#[trigger] buckets@[i]).block_size()
                        == bucket_size(i as nat),
                forall|i: int|
                    0 <= i < buckets@.len() ==> (#[trigger] buckets@[i]).blocks() == Seq::<
                        usize,
                    >::empty(),
            decreases BUCKET_COUNT - buckets@.len(),
        {
            proof {
                let idx = buckets@.len();
                let last = (BUCKET_COUNT - 1) as nat;
                lemma_bucket_size_doubles(idx);
                law_bucket_bounds();
                if idx < last {
                    law_bucket_sizes_increase(idx, last);
                }
            }
            buckets.push(FreeList::new(size));
            size = size * 2;
        }
        let pool = BucketedFreeList { buckets };
        assert(pool@ =~= empty_pool());
        pool
    }

    /// Rounds up the requested size to the nearest power of two and determines
    /// the corresponding bucket index.
    pub fn bucket_idx(size: usize) -> (idx: usize)
        ensures
            idx == bucket_of(size as nat),
            size <= bucket_size(idx as nat),
            idx > 0 ==> bucket_size((idx - 1) as nat) < size,
            idx < BUCKET_COUNT <==> size <= BUCKET_MAX,
    {
        proof {
            law_bucket_is_first_that_fits(size as nat);
            law_bucketed_up_to_maximum(size as nat);
        }
        index_of_bucket(size)
    }

    /// The size of the blocks in the bucket for a size, if there is a bucket for
    /// it. Only memory of just that size can be returned to the bucket.
    pub fn block_size_for(&self, size: usize) -> (block_size: Option<usize>)
        requires
            self.wf(),
        ensures
            match block_size {
                Some(expected) => size <= BUCKET_MAX && expected == bucket_size(
                    bucket_of(size as nat),
                ) && (returnable(size) <==> size == expected),
                None => size > BUCKET_MAX && returnable(size),
            },
    {
        let idx: usize = Self::bucket_idx(size);
        if idx < self.buckets.len() {
            Some(self.buckets[idx].size)
        } else {
            None
        }
    }

    /// Allocates memory of at least the given size.
    ///
    /// A request above [`BUCKET_MAX`] is not pooled: it gets its own mapping,
    /// sized to the page, and goes back to the host on
    /// [`BucketedFreeList::free`]. Where whole pages cannot hold it, it is
    /// refused even if the host grants a mapping; that is given back.
    pub fn allocate(&mut self, host: &Host, size: usize) -> (allocation: Allocation)
        requires
            old(self).wf(),
        ensures
            final(self).wf(),
            allocation == pool_grant(*host, old(self)@, size),
            final(self)@ == pool_rest(old(self)@, size),
    {
        let idx: usize = Self::bucket_idx(size);
        if idx < self.buckets.len() {
            let allocation = self.buckets[idx].allocate(host);
            assert(self@ =~= pool_rest(old(self)@, size));
            allocation
        } else {
            Allocation::Sizing { request: size }
        }
    }

    /// Starts to return memory. Once the release has ended it is handed to
    /// [`BucketedFreeList::reclaim`].
    ///
    /// The memory must have come out of [`BucketedFreeList::allocate`] on this pool
    /// and must not have been returned since, and nobody may use it any more.
    pub fn free(&self, host: &Host, ptr: usize, size: usize) -> (release: Release)
        requires
            self.wf(),
            returnable(size),
        ensures
            release == pool_release(*host, ptr, size),
    {
        let idx: usize = Self::bucket_idx(size);
        if idx < self.buckets.len() {
            self.buckets[idx].free(host, ptr, size)
        } else {
            Release::mapping(host, ptr, size)
        }
    }

    /// Takes back the block of a release that ended with the block ready for
    /// reuse. A release may be handed in only once: each time puts its block into
    /// the list.
    pub fn reclaim(&mut self, release: &Release)
        requires
            old(self).wf(),
            *release matches Release::Reusable { size, .. } ==> returnable(size),
        ensures
            final(self).wf(),
            final(self)@ == pool_reclaimed(old(self)@, *release),
    {
        match *release {
            Release::Reusable { size, .. } => {
                let idx: usize = Self::bucket_idx(size);
                if idx < self.buckets.len() {
                    self.buckets[idx].reclaim(release);
                    assert(self@ =~= pool_reclaimed(old(self)@, *release));
                }
            },
            _ => {},
        }
    }

    /// Empties every bucket and gives every block back to the host.
    pub fn drop(&mut self, host: &Host) -> (unmappings: Vec<Invocation>)
        requires
            old(self).wf(),
        ensures
            final(self).wf(),
            unmappings@ == pool_unmapped(*host, old(self)@, BUCKET_COUNT as nat),
            final(self)@ == empty_pool(),
    {
        let mut unmappings: Vec<Invocation> = Vec::new();
        let mut idx: usize = 0;
        while idx < self.buckets.len()
            invariant
                old(self).wf(),
                self.wf(),
                idx <= BUCKET_COUNT,
                forall|i: int|
                    0 <= i < idx ==> (#[trigger] self.buckets@[i]).blocks() == Seq::<
                        usize,
                    >::empty(),
                forall|i: int|
                    idx <= i < BUCKET_COUNT ==> (#[trigger] self.buckets@[i]) == old(
                        self,
                    ).buckets@[i],
                unmappings@ == pool_unmapped(*host, old(self)@, idx as nat),
            decreases BUCKET_COUNT - idx,
        {
            let mut of_bucket = self.buckets[idx].drop(host);
            unmappings.append(&mut of_bucket);
            idx = idx + 1;
        }
        assert(self@ =~= empty_pool());
        unmappings
    }
}

/// Allocates memory of at least the given size from the pool.
pub fn allocate_pages_pooled(pool: &mut BucketedFreeList, host: &Host, size: usize) -> (allocation:
    Allocation)
    requires
        old(pool).wf(),
    ensures
        final(pool).wf(),
        allocation == pool_grant(*host, old(pool)@, size),
        final(pool)@ == pool_rest(old(pool)@, size),
{
    pool.allocate(host, size)
}

/// Starts to return memory that [`allocate_pages_pooled`] granted.
///
/// The pointer and size must identify a full allocation that was not returned
/// since, and nobody may use it any more.
pub fn free_pages_pooled(pool: &BucketedFreeList, host: &Host, ptr: usize, size: usize) -> (release:
    Release)
    requires
        pool.wf(),
        returnable(size),
    ensures
        release == pool_release(*host, ptr, size),
{
    pool.free(host, ptr, size)
}

} // verus!
