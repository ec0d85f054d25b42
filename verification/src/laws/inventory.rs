//! The free blocks of a pool: which come out, which go in, and that none is lost or
//! made up.

use crate::classes::{
    bucket_size, law_block_size_belongs_to_its_bucket, law_bucket_bounds,
    law_bucketed_up_to_maximum, lemma_bucket_is_unique, lemma_bucket_size_doubles,
    lemma_bucket_size_fits, BUCKET_COUNT, BUCKET_MAX, BUCKET_MIN,
};
use crate::host::Host;
use crate::laws::requests::{asks_to_unmap, law_unmapping_unmaps_the_bytes, tries};
use crate::pool::{
    empty_pool, list_grant, list_reclaimed, list_rest, list_unmapped, pool_grant, pool_reclaimed,
    pool_rest, pool_unmapped, returnable,
};
use crate::session::{Allocation, Release};
use crate::syscall::Invocation;
use vstd::prelude::*;

verus! {

/// There are twelve buckets. The first has blocks of 128 KiB, each other has blocks
/// twice as large as the one before, and the last has blocks of 256 MiB.
pub proof fn law_buckets_double(idx: nat)
    ensures
        BUCKET_COUNT == 12,
        BUCKET_MIN == 0x2_0000,
        BUCKET_MAX == 0x1000_0000,
        bucket_size(0) == 0x2_0000,
        bucket_size(idx + 1) == 2 * bucket_size(idx),
        bucket_size(11) == 0x1000_0000,
{
    law_bucket_bounds();
    lemma_bucket_size_doubles(idx);
}

/// A list of free blocks grants the block that was returned last, whole and without
/// asking the host, and keeps the others. Where it has none it stays as it is.
pub proof fn law_free_block_is_granted_at_once(host: Host, blocks: Seq<usize>, size: usize)
    ensures
        blocks.len() > 0 ==> {
            &&& list_grant(host, blocks, size) matches Allocation::Granted { addr, size: got }
                && got == size && list_rest(blocks).push(addr) == blocks
            &&& list_grant(host, blocks, size).demand(host) is None
        },
        blocks.len() == 0 ==> list_rest(blocks) == blocks,
{
    if blocks.len() > 0 {
        assert(list_rest(blocks).push(blocks.last()) =~= blocks);
    }
}

/// A request up to 256 MiB is granted a free block of the first bucket whose blocks
/// hold it, where that bucket has one: the one that was returned last, whole and
/// without asking the host. That bucket keeps its other blocks, and every other
/// bucket all of them.
pub proof fn law_free_block_serves_the_request(
    host: Host,
    pool: Seq<Seq<usize>>,
    request: usize,
    idx: int,
)
    requires
        pool.len() == 12,
        0 <= idx < 12,
        request <= bucket_size(idx as nat),
        idx > 0 ==> bucket_size((idx - 1) as nat) < request,
    ensures
        pool[idx].len() > 0 ==> {
            &&& pool_grant(host, pool, request) matches Allocation::Granted { addr, size } && size
                == bucket_size(idx as nat) && pool_rest(pool, request)[idx].push(addr) == pool[idx]
            &&& pool_grant(host, pool, request).demand(host) is None
        },
        pool[idx].len() == 0 ==> pool_rest(pool, request) == pool,
        pool_rest(pool, request).len() == 12,
        forall|other: int|
            0 <= other < 12 && other != idx ==> #[trigger] pool_rest(pool, request)[other]
                == pool[other],
{
    lemma_bucket_is_unique(request as nat, idx as nat);
    lemma_bucket_size_fits(idx as nat);
    law_free_block_is_granted_at_once(host, pool[idx], bucket_size(idx as nat) as usize);
    if pool[idx].len() == 0 {
        assert(pool_rest(pool, request) =~= pool);
    }
}

/// A request above 256 MiB takes nothing out of the pool and is not granted
/// anything before the host was asked.
pub proof fn law_oversized_request_leaves_the_pool(
    host: Host,
    pool: Seq<Seq<usize>>,
    request: usize,
)
    requires
        request > 0x1000_0000,
    ensures
        pool_rest(pool, request) == pool,
        pool_grant(host, pool, request) == (Allocation::Sizing { request }),
{
    law_bucketed_up_to_maximum(request as nat);
}

/// A return that ended with a block ready for reuse adds just that block to a list,
/// as the last returned one. A return that stands anywhere else adds nothing.
pub proof fn law_list_takes_the_block_back(blocks: Seq<usize>, release: Release)
    ensures
        match release {
            Release::Reusable { block, .. } => {
                let after = list_reclaimed(blocks, release);
                after.len() == blocks.len() + 1 && after.last() == block && after.drop_last()
                    == blocks
            },
            _ => list_reclaimed(blocks, release) == blocks,
        },
{
    if let Release::Reusable { .. } = release {
        assert(list_reclaimed(blocks, release).drop_last() =~= blocks);
    }
}

/// A return that ended with a block of a bucket's size ready for reuse adds just
/// that block to just that bucket, as the last returned one. A return that stands
/// anywhere else, or whose memory is larger than any bucket's blocks, adds nothing.
pub proof fn law_bucket_takes_the_block_back(pool: Seq<Seq<usize>>, release: Release, idx: int)
    requires
        pool.len() == 12,
        0 <= idx < 12,
    ensures
        ({
            let after = pool_reclaimed(pool, release);
            match release {
                Release::Reusable { block, size, .. } => {
                    &&& size == bucket_size(idx as nat) ==> {
                        &&& after.len() == 12
                        &&& after[idx].len() == pool[idx].len() + 1
                        &&& after[idx].last() == block
                        &&& after[idx].drop_last() == pool[idx]
                        &&& forall|other: int|
                            0 <= other < 12 && other != idx ==> #[trigger] after[other]
                                == pool[other]
                    }
                    &&& size > 0x1000_0000 ==> after == pool
                },
                _ => after == pool,
            }
        }),
{
    if let Release::Reusable { size, .. } = release {
        law_bucketed_up_to_maximum(size as nat);
        law_block_size_belongs_to_its_bucket(idx as nat);
        law_list_takes_the_block_back(pool[idx], release);
        lemma_bucket_size_fits(idx as nat);
    }
}

/// Memory can be returned exactly if its size is that of some bucket's blocks or
/// above 256 MiB.
pub proof fn law_returnable_sizes(size: usize)
    ensures
        returnable(size) <==> size > 0x1000_0000 || exists|idx: nat|
            idx < 12 && size == #[trigger] bucket_size(idx),
{
    law_bucketed_up_to_maximum(size as nat);
    if exists|idx: nat| idx < 12 && size == #[trigger] bucket_size(idx) {
        let idx = choose|idx: nat| idx < 12 && size == #[trigger] bucket_size(idx);
        law_block_size_belongs_to_its_bucket(idx);
    }
}

/// A new pool has all of its buckets and not one block.
pub proof fn law_new_pool_is_empty()
    ensures
        empty_pool().len() == 12,
        forall|idx: int| 0 <= idx < 12 ==> (#[trigger] empty_pool()[idx]).len() == 0,
{
}

/// Whether an invocation is to unmap just `size` bytes at `addr`, with all tries
/// left.
pub open spec fn unmaps(host: Host, invocation: Invocation, addr: usize, size: usize) -> bool {
    invocation matches Invocation::Pending { call, attempts } && asks_to_unmap(
        host,
        call,
        addr,
        size,
    ) && attempts == tries(host)
}

/// Dropping a list unmaps each of its blocks once, in its full size, and nothing
/// else.
pub proof fn law_dropped_list_is_unmapped(host: Host, blocks: Seq<usize>, size: usize)
    ensures
        list_unmapped(host, blocks, size).len() == blocks.len(),
        forall|i: int|
            0 <= i < blocks.len() ==> unmaps(
                host,
                #[trigger] list_unmapped(host, blocks, size)[i],
                blocks[i],
                size,
            ),
{
    assert forall|i: int| 0 <= i < blocks.len() implies unmaps(
        host,
        #[trigger] list_unmapped(host, blocks, size)[i],
        blocks[i],
        size,
    ) by {
        law_unmapping_unmaps_the_bytes(host, blocks[i], size);
    }
}

/// How many blocks the first `count` buckets have.
pub open spec fn stock(pool: Seq<Seq<usize>>, count: nat) -> nat
    decreases count,
{
    if count == 0 {
        0
    } else {
        stock(pool, (count - 1) as nat) + pool[count - 1].len()
    }
}

proof fn lemma_dropped_buckets(host: Host, pool: Seq<Seq<usize>>, count: nat)
    ensures
        pool_unmapped(host, pool, count).len() == stock(pool, count),
    decreases count,
{
    if count > 0 {
        let last = (count - 1) as nat;
        lemma_dropped_buckets(host, pool, last);
        law_dropped_list_is_unmapped(host, pool[last as int], bucket_size(last) as usize);
    }
}

proof fn lemma_dropped_block(
    host: Host,
    pool: Seq<Seq<usize>>,
    count: nat,
    idx: int,
    i: int,
)
    requires
        0 <= idx < count,
        0 <= i < pool[idx].len(),
    ensures
        stock(pool, idx as nat) + i < stock(pool, count),
        unmaps(
            host,
            pool_unmapped(host, pool, count)[stock(pool, idx as nat) + i],
            pool[idx][i],
            bucket_size(idx as nat) as usize,
        ),
    decreases count,
{
    let last = (count - 1) as nat;
    let size = bucket_size(last) as usize;
    lemma_dropped_buckets(host, pool, last);
    law_dropped_list_is_unmapped(host, pool[last as int], size);
    if idx == last {
        assert(pool_unmapped(host, pool, count)[stock(pool, last) + i] == list_unmapped(
            host,
            pool[idx],
            size,
        )[i]);
    } else {
        lemma_dropped_block(host, pool, last, idx, i);
    }
}

/// Dropping a pool unmaps each of its blocks once, in the full size of the blocks
/// of its bucket, and nothing else: there are as many unmappings as blocks, and
/// that of a block stands behind those of all blocks before it.
pub proof fn law_dropped_pool_is_unmapped(
    host: Host,
    pool: Seq<Seq<usize>>,
    idx: int,
    i: int,
)
    requires
        pool.len() == 12,
    ensures
        pool_unmapped(host, pool, 12).len() == stock(pool, 12),
        0 <= idx < 12 && 0 <= i < pool[idx].len() ==> {
            &&& stock(pool, idx as nat) + i < stock(pool, 12)
            &&& bucket_size(idx as nat) <= usize::MAX
            &&& unmaps(
                host,
                pool_unmapped(host, pool, 12)[stock(pool, idx as nat) + i],
                pool[idx][i],
                bucket_size(idx as nat) as usize,
            )
        },
{
    lemma_dropped_buckets(host, pool, 12);
    if 0 <= idx < 12 && 0 <= i < pool[idx].len() {
        lemma_bucket_size_fits(idx as nat);
        lemma_dropped_block(host, pool, 12, idx, i);
    }
}

} // verus!
