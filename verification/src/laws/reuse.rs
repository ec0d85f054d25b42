//! Allocations and returns that follow each other.

use crate::classes::{
    bucket_of, bucket_size, law_block_size_belongs_to_its_bucket, law_bucketed_up_to_maximum,
    lemma_bucket_size_fits, BUCKET_COUNT, BUCKET_MAX,
};
use crate::host::Host;
use crate::laws::allocation::{first_page_size, law_granted_memory_suits_the_request};
use crate::laws::release::{
    law_oversized_memory_is_never_pooled, law_pooled_block_is_writable, was_made_writable,
};
use crate::pool::{pool_grant, pool_reclaimed, pool_release, pool_rest, returnable};
use crate::session::{Allocation, Answer, Release};
use crate::syscall::Reply;
use vstd::prelude::*;

verus! {

/// What was returned last is reused first: the next request of the same bucket
/// gets the block that was just returned, without a call to the host, and leaves
/// the pool as it was before the return.
pub proof fn law_returned_block_is_reused_first(
    host: Host,
    pool: Seq<Seq<usize>>,
    block: usize,
    size: usize,
    replies: Seq<(Reply, i32)>,
    request: usize,
)
    requires
        pool.len() == BUCKET_COUNT,
        size <= BUCKET_MAX,
        returnable(size),
        bucket_of(request as nat) == bucket_of(size as nat),
        pool_release(host, block, size).run(host, replies) is Reusable,
    ensures
        ({
            let after = pool_reclaimed(pool, pool_release(host, block, size).run(host, replies));
            &&& pool_grant(host, after, request) == (Allocation::Granted { addr: block, size })
            &&& pool_rest(after, request) == pool
        }),
{
    law_bucketed_up_to_maximum(size as nat);
    law_pooled_block_is_writable(host, block, size, replies);
    let idx = bucket_of(size as nat);
    let after = pool_reclaimed(pool, pool_release(host, block, size).run(host, replies));
    lemma_bucket_size_fits(idx);
    assert(after[idx as int].drop_last() =~= pool[idx as int]);
    assert(pool_rest(after, request) =~= pool);
}

/// Returning a block that came out of the pool restores the pool.
pub proof fn law_return_undoes_reuse(
    host: Host,
    pool: Seq<Seq<usize>>,
    request: usize,
    replies: Seq<(Reply, i32)>,
)
    requires
        pool.len() == BUCKET_COUNT,
    ensures
        pool_grant(host, pool, request) matches Allocation::Granted { addr, size } ==> {
            let release = pool_release(host, addr, size).run(host, replies);
            &&& returnable(size)
            &&& release is Reusable ==> pool_reclaimed(pool_rest(pool, request), release) == pool
        },
{
    if let Allocation::Granted { addr, size } = pool_grant(host, pool, request) {
        let idx = bucket_of(request as nat);
        lemma_bucket_size_fits(idx);
        law_block_size_belongs_to_its_bucket(idx);
        law_pooled_block_is_writable(host, addr, size, replies);
        let rest = pool_rest(pool, request);
        let release = pool_release(host, addr, size).run(host, replies);
        if release is Reusable {
            assert(rest[idx as int].push(addr) =~= pool[idx as int]);
            assert(pool_reclaimed(rest, release) =~= pool);
        }
    }
}

/// Only the bucket of the request or of the returned block changes.
pub proof fn law_other_buckets_stay(
    pool: Seq<Seq<usize>>,
    request: usize,
    release: Release,
    idx: int,
)
    requires
        pool.len() == BUCKET_COUNT,
        0 <= idx < BUCKET_COUNT,
    ensures
        idx != bucket_of(request as nat) ==> pool_rest(pool, request)[idx] == pool[idx],
        release matches Release::Reusable { size, .. } ==> idx != bucket_of(size as nat)
            ==> pool_reclaimed(pool, release)[idx] == pool[idx],
        !(release is Reusable) ==> pool_reclaimed(pool, release) == pool,
        pool_rest(pool, request).len() == BUCKET_COUNT,
        pool_reclaimed(pool, release).len() == BUCKET_COUNT,
{
}

/// What an allocation grants can be returned in its full size. A pooled request
/// got a block of its own bucket and the block goes back into it; an oversized
/// one got more than any bucket holds, and just the granted bytes are unmapped.
pub proof fn law_granted_memory_can_be_returned(
    host: Host,
    pool: Seq<Seq<usize>>,
    request: usize,
    answers: Seq<Answer>,
    now: Seq<Seq<usize>>,
    replies: Seq<(Reply, i32)>,
)
    requires
        now.len() == BUCKET_COUNT,
        first_page_size(answers) matches Some(page_size) ==> page_size > 0,
    ensures
        pool_grant(host, pool, request).run(host, answers) matches Allocation::Granted {
            addr,
            size,
        } ==> {
            let idx = bucket_of(request as nat);
            let release = pool_release(host, addr, size).run(host, replies);
            &&& returnable(size)
            &&& request <= BUCKET_MAX ==> {
                &&& bucket_of(size as nat) == idx
                &&& size == bucket_size(idx)
                &&& pool_release(host, addr, size) == Release::of_block(host, addr, size)
                &&& release is Reusable ==> pool_reclaimed(now, release) == now.update(
                    idx as int,
                    now[idx as int].push(addr),
                )
            }
            &&& request > BUCKET_MAX ==> {
                &&& size > BUCKET_MAX
                &&& pool_release(host, addr, size) == Release::of_mapping(host, addr, size)
                &&& pool_reclaimed(now, release) == now
            }
        },
{
    law_granted_memory_suits_the_request(host, pool, request, answers);
    law_bucketed_up_to_maximum(request as nat);
    if let Allocation::Granted { addr, size } = pool_grant(host, pool, request).run(host, answers) {
        law_bucketed_up_to_maximum(size as nat);
        if request <= BUCKET_MAX {
            law_block_size_belongs_to_its_bucket(bucket_of(request as nat));
            law_pooled_block_is_writable(host, addr, size, replies);
        } else {
            law_oversized_memory_is_never_pooled(host, now, addr, size, replies);
        }
    }
}

/// Pooled memory that was granted and then returned is granted again to the next
/// request of its size class, without a call to the host, and a call made it
/// readable and writable in between.
pub proof fn law_returned_memory_is_granted_again(
    host: Host,
    pool: Seq<Seq<usize>>,
    request: usize,
    answers: Seq<Answer>,
    now: Seq<Seq<usize>>,
    replies: Seq<(Reply, i32)>,
    later: usize,
)
    requires
        now.len() == BUCKET_COUNT,
        request <= BUCKET_MAX,
        first_page_size(answers) matches Some(page_size) ==> page_size > 0,
    ensures
        pool_grant(host, pool, request).run(host, answers) matches Allocation::Granted {
            addr,
            size,
        } ==> {
            let release = pool_release(host, addr, size).run(host, replies);
            release is Reusable ==> {
                &&& was_made_writable(host, addr, size, replies)
                &&& bucket_of(later as nat) == bucket_of(request as nat) || later == size
                    ==> pool_grant(host, pool_reclaimed(now, release), later) == (
                Allocation::Granted { addr, size })
            }
        },
{
    law_granted_memory_can_be_returned(host, pool, request, answers, now, replies);
    if let Allocation::Granted { addr, size } = pool_grant(host, pool, request).run(host, answers) {
        let release = pool_release(host, addr, size).run(host, replies);
        law_pooled_block_is_writable(host, addr, size, replies);
        lemma_bucket_size_fits(bucket_of(request as nat));
        if release is Reusable && (bucket_of(later as nat) == bucket_of(request as nat) || later
            == size) {
            law_bucketed_up_to_maximum(size as nat);
            law_returned_block_is_reused_first(host, now, addr, size, replies, later);
        }
    }
}

} // verus!
