//! What a host is asked for and what comes of its replies, from the request to the
//! end.

use crate::classes::{
    bucket_of, bucket_size, law_bucketed_up_to_maximum, lemma_bucket_size_fits, BUCKET_MAX,
};
use crate::host::Host;
use crate::laws::allocation::{
    call_answers, law_mapping_follows_its_guard, law_oversized_request_maps_whole_pages,
    law_short_mapping_is_given_back,
};
use crate::laws::guard::{
    law_failed_call_is_repeated, law_first_success_counts, law_last_failure_is_reported,
};
use crate::laws::release::{
    law_block_is_lost_only_if_protection_fails, law_protection_follows_its_guard,
    law_unmapping_follows_its_guard, law_writable_block_follows_its_advice,
};
use crate::laws::requests::{
    asks_to_discard, asks_to_map, asks_to_protect, asks_to_unmap, brings_memory,
    law_advice_covers_the_bytes, law_impossible_mapping_names_the_request,
    law_mapping_maps_the_size, law_protection_covers_the_bytes, law_unmapping_unmaps_the_bytes,
    says_discarded, says_done, tries,
};
use crate::pages::{
    advising_call, impossible_mapping, mapping_call, page_size_of, protecting_call, rounded,
    unmapping_call, Advice, PagePermissions, PageSizeReply,
};
use crate::pool::{list_grant, pool_grant, pool_release};
use crate::session::{Allocation, Answer, Demand, Release};
use crate::syscall::{Invocation, Reply};
use vstd::prelude::*;

verus! {

/// Whether the first `count` replies are addresses that bring no memory.
pub open spec fn brought_nothing(host: Host, replies: Seq<(Reply, i32)>, count: int) -> bool {
    &&& count <= replies.len()
    &&& forall|i: int|
        0 <= i < count ==> (#[trigger] replies[i]).0 is Address && !brings_memory(
            host,
            replies[i].0,
        )
}

/// The address that the first `count` replies leave in a mapping call: that of the
/// last of them.
pub open spec fn address_left(replies: Seq<(Reply, i32)>, count: int) -> usize {
    if count > 0 {
        replies[count - 1].0->Address_0
    } else {
        0
    }
}

/// Whether an allocation keeps to the tries of its mapping calls: as long as none
/// brought memory and tries are left it asks for `size` bytes, at the address that
/// the last call returned; and after all tries brought nothing it is refused, with
/// the last call and its error number.
pub open spec fn tries_to_map(
    host: Host,
    size: usize,
    replies: Seq<(Reply, i32)>,
    now: Allocation,
) -> bool {
    let all = tries(host) as int;
    let count = replies.len() as int;
    &&& count < all && brought_nothing(host, replies, count) ==> {
        now.demand(host) matches Some(Demand::Call(call)) && asks_to_map(
            host,
            call,
            address_left(replies, count),
            size,
        )
    }
    &&& count >= all && brought_nothing(host, replies, all) ==> {
        now matches Allocation::Refused { failure } && asks_to_map(
            host,
            failure.call,
            address_left(replies, all),
            size,
        ) && failure.errno == replies[all - 1].1
    }
}

/// Whether an allocation stands where the replies to its mapping calls put it: it
/// keeps to its tries, and with the first that brings memory it grants `size` bytes
/// there.
pub open spec fn serves_by_mapping(
    host: Host,
    size: usize,
    replies: Seq<(Reply, i32)>,
    now: Allocation,
) -> bool {
    &&& tries_to_map(host, size, replies, now)
    &&& forall|i: int|
        0 <= i < tries(host) && i < replies.len() && brings_memory(host, (#[trigger] replies[i]).0)
            && brought_nothing(host, replies, i) ==> now == (Allocation::Granted {
            addr: replies[i].0->Address_0,
            size,
        })
}

/// A mapping call that returned an address asks for the same bytes there.
proof fn lemma_retried_mapping(host: Host, size: usize, reply: Reply)
    requires
        reply is Address,
    ensures
        asks_to_map(
            host,
            mapping_call(host, size).having_returned(reply),
            reply->Address_0,
            size,
        ),
{
    law_mapping_maps_the_size(host, size);
}

proof fn lemma_guarded_mapping_tries(
    host: Host,
    request: usize,
    size: usize,
    replies: Seq<(Reply, i32)>,
)
    ensures
        tries_to_map(
            host,
            size,
            replies,
            Allocation::by_mapping(host, request, size).run(host, call_answers(replies)),
        ),
{
    let call = mapping_call(host, size);
    let all = tries(host) as int;
    let count = replies.len() as int;
    law_mapping_maps_the_size(host, size);
    if count < all && brought_nothing(host, replies, count) {
        law_failed_call_is_repeated(call, replies);
        law_mapping_follows_its_guard(host, request, size, replies);
        if count > 0 {
            lemma_retried_mapping(host, size, replies[count - 1].0);
        }
    }
    if count >= all && brought_nothing(host, replies, all) {
        law_last_failure_is_reported(call, replies);
        law_mapping_follows_its_guard(host, request, size, replies);
        lemma_retried_mapping(host, size, replies[all - 1].0);
    }
}

proof fn lemma_guarded_mapping_serves(
    host: Host,
    request: usize,
    size: usize,
    replies: Seq<(Reply, i32)>,
)
    requires
        request <= size,
    ensures
        serves_by_mapping(
            host,
            size,
            replies,
            Allocation::by_mapping(host, request, size).run(host, call_answers(replies)),
        ),
{
    let now = Allocation::by_mapping(host, request, size).run(host, call_answers(replies));
    law_mapping_maps_the_size(host, size);
    lemma_guarded_mapping_tries(host, request, size, replies);
    law_mapping_follows_its_guard(host, request, size, replies);
    assert forall|i: int|
        0 <= i < tries(host) && i < replies.len() && brings_memory(host, (#[trigger] replies[i]).0)
            && brought_nothing(host, replies, i) implies now == (Allocation::Granted {
        addr: replies[i].0->Address_0,
        size,
    }) by {
        law_first_success_counts(mapping_call(host, size), replies, i);
    }
}

/// A list of free blocks of whatever size that has none asks the host to map a
/// block. It grants what the host maps first, and refuses only after as many tries
/// as are due brought nothing.
pub proof fn law_empty_list_maps_a_block(host: Host, size: usize, replies: Seq<(Reply, i32)>)
    ensures
        serves_by_mapping(
            host,
            size,
            replies,
            list_grant(host, Seq::empty(), size).run(host, call_answers(replies)),
        ),
{
    lemma_guarded_mapping_serves(host, size, size, replies);
}

/// A request whose bucket has no free block is served by mapping one block of that
/// bucket: the host is asked for it, what it maps first is granted, and the request
/// is refused only after as many tries as are due brought nothing.
pub proof fn law_empty_bucket_maps_a_block(
    host: Host,
    pool: Seq<Seq<usize>>,
    request: usize,
    replies: Seq<(Reply, i32)>,
)
    requires
        request <= BUCKET_MAX,
        pool[bucket_of(request as nat) as int].len() == 0,
    ensures
        bucket_size(bucket_of(request as nat)) <= usize::MAX,
        serves_by_mapping(
            host,
            bucket_size(bucket_of(request as nat)) as usize,
            replies,
            pool_grant(host, pool, request).run(host, call_answers(replies)),
        ),
{
    let idx = bucket_of(request as nat);
    law_bucketed_up_to_maximum(request as nat);
    lemma_bucket_size_fits(idx);
    let size = bucket_size(idx) as usize;
    assert(pool_grant(host, pool, request) == Allocation::by_mapping(host, size, size));
    lemma_guarded_mapping_serves(host, size, size, replies);
}

/// An oversized request asks for the size of a page and then, whatever the host
/// replied, is served by mapping the request rounded to pages, where those hold it.
pub proof fn law_oversized_request_is_served(
    host: Host,
    pool: Seq<Seq<usize>>,
    request: usize,
    reply: PageSizeReply,
    replies: Seq<(Reply, i32)>,
)
    requires
        request > BUCKET_MAX,
        page_size_of(reply) > 0,
        request <= rounded(request, page_size_of(reply)) <= usize::MAX,
    ensures
        pool_grant(host, pool, request) == (Allocation::Sizing { request }),
        pool_grant(host, pool, request).demand(host) matches Some(Demand::PageSize(_)),
        serves_by_mapping(
            host,
            rounded(request, page_size_of(reply)) as usize,
            replies,
            pool_grant(host, pool, request).run(
                host,
                seq![Answer::PageSize(reply)] + call_answers(replies),
            ),
        ),
{
    law_bucketed_up_to_maximum(request as nat);
    law_oversized_request_maps_whole_pages(host, pool, request, reply, call_answers(replies));
    lemma_guarded_mapping_serves(
        host,
        request,
        rounded(request, page_size_of(reply)) as usize,
        replies,
    );
}

/// Whether the first `count` replies are numbers that say that nothing was done.
pub open spec fn did_nothing(host: Host, replies: Seq<(Reply, i32)>, count: int) -> bool {
    &&& count <= replies.len()
    &&& forall|i: int|
        0 <= i < count ==> (#[trigger] replies[i]).0 is Status && !says_done(host, replies[i].0)
}

/// An oversized request that whole pages cannot hold is still asked of the host, as
/// its size rounded to pages, and keeps to the tries of that.
pub proof fn law_unservable_request_is_tried(
    host: Host,
    pool: Seq<Seq<usize>>,
    request: usize,
    reply: PageSizeReply,
    replies: Seq<(Reply, i32)>,
)
    requires
        request > BUCKET_MAX,
        page_size_of(reply) > 0,
        0 <= rounded(request, page_size_of(reply)) < request,
    ensures
        tries_to_map(
            host,
            rounded(request, page_size_of(reply)) as usize,
            replies,
            pool_grant(host, pool, request).run(
                host,
                seq![Answer::PageSize(reply)] + call_answers(replies),
            ),
        ),
{
    law_oversized_request_maps_whole_pages(host, pool, request, reply, call_answers(replies));
    lemma_guarded_mapping_tries(
        host,
        request,
        rounded(request, page_size_of(reply)) as usize,
        replies,
    );
}

/// What the host maps for an oversized request that whole pages cannot hold it is
/// asked to unmap. When that is done the request is refused for want of memory;
/// only after all tries to unmap failed is it refused with the last of them.
pub proof fn law_unservable_request_is_refused(
    host: Host,
    pool: Seq<Seq<usize>>,
    request: usize,
    reply: PageSizeReply,
    replies: Seq<(Reply, i32)>,
    addr: usize,
    errno: i32,
    more: Seq<(Reply, i32)>,
)
    requires
        request > BUCKET_MAX,
        page_size_of(reply) > 0,
        0 <= rounded(request, page_size_of(reply)) < request,
        replies.len() < tries(host),
        brought_nothing(host, replies, replies.len() as int),
        brings_memory(host, Reply::Address(addr)),
    ensures
        ({
            let size = rounded(request, page_size_of(reply)) as usize;
            let now = pool_grant(host, pool, request).run(
                host,
                seq![Answer::PageSize(reply)] + call_answers(
                    replies.push((Reply::Address(addr), errno)) + more,
                ),
            );
            let all = tries(host) as int;
            &&& more.len() < all && did_nothing(host, more, more.len() as int) ==> {
                now.demand(host) matches Some(Demand::Call(call)) && asks_to_unmap(
                    host,
                    call,
                    addr,
                    size,
                )
            }
            &&& forall|i: int|
                0 <= i < all && i < more.len() && says_done(host, (#[trigger] more[i]).0)
                    && did_nothing(host, more, i) ==> (now matches Allocation::Refused { failure }
                    && asks_to_map(host, failure.call, 0, request) && (
                host matches Host::Unix(unix) ==> failure.errno == unix.enomem) && (
                host matches Host::Windows(windows) ==> failure.errno
                    == windows.not_enough_memory))
            &&& more.len() >= all && did_nothing(host, more, all) ==> {
                now matches Allocation::Refused { failure } && asks_to_unmap(
                    host,
                    failure.call,
                    addr,
                    size,
                ) && failure.errno == more[all - 1].1
            }
        }),
{
    let size = rounded(request, page_size_of(reply)) as usize;
    let granted = replies.push((Reply::Address(addr), errno)) + more;
    let unmap = unmapping_call(host, addr, size);
    let all = tries(host) as int;
    law_mapping_maps_the_size(host, size);
    law_unmapping_unmaps_the_bytes(host, addr, size);
    law_impossible_mapping_names_the_request(host, request);
    law_oversized_request_maps_whole_pages(host, pool, request, reply, call_answers(granted));
    law_failed_call_is_repeated(mapping_call(host, size), replies);
    law_short_mapping_is_given_back(host, request, size, replies, addr, errno, more);
    let now = pool_grant(host, pool, request).run(
        host,
        seq![Answer::PageSize(reply)] + call_answers(granted),
    );
    if more.len() < all && did_nothing(host, more, more.len() as int) {
        law_failed_call_is_repeated(unmap, more);
    }
    assert forall|i: int|
        0 <= i < all && i < more.len() && says_done(host, (#[trigger] more[i]).0) && did_nothing(
            host,
            more,
            i,
        ) implies now == (Allocation::Refused { failure: impossible_mapping(host, request) }) by {
        law_first_success_counts(unmap, more, i);
    }
    if more.len() >= all && did_nothing(host, more, all) {
        law_last_failure_is_reported(unmap, more);
    }
}

/// The return of memory that is too large for the pool asks the host to unmap just
/// that memory, as long as no try did it and tries are left. It ends with the first
/// that did, and fails only after all tries, with the error number of the last. It
/// asks for nothing exactly when it has ended.
pub proof fn law_oversized_memory_is_unmapped(
    host: Host,
    addr: usize,
    size: usize,
    replies: Seq<(Reply, i32)>,
)
    ensures
        ({
            let now = Release::of_mapping(host, addr, size).run(host, replies);
            let all = tries(host) as int;
            let count = replies.len() as int;
            &&& size > BUCKET_MAX ==> pool_release(host, addr, size).run(host, replies) == now
            &&& now.demand() is None <==> now is Unmapped
            &&& now.demand() matches Some(call) ==> asks_to_unmap(host, call, addr, size)
            &&& count < all && did_nothing(host, replies, count) ==> now.demand() is Some
            &&& forall|i: int|
                0 <= i < all && i < count && says_done(host, (#[trigger] replies[i]).0)
                    && did_nothing(host, replies, i) ==> now == (Release::Unmapped {
                    refusal: None,
                })
            &&& count >= all && did_nothing(host, replies, all) ==> {
                now matches Release::Unmapped { refusal: Some(failure) } && asks_to_unmap(
                    host,
                    failure.call,
                    addr,
                    size,
                ) && failure.errno == replies[all - 1].1 && now.trouble() == Some(failure)
            }
        }),
{
    let call = unmapping_call(host, addr, size);
    let all = tries(host) as int;
    let count = replies.len() as int;
    law_bucketed_up_to_maximum(size as nat);
    law_unmapping_unmaps_the_bytes(host, addr, size);
    law_unmapping_follows_its_guard(host, addr, size, replies);
    lemma_unmapping_is_repeated(host, addr, size, replies);
    if count < all && did_nothing(host, replies, count) {
        law_failed_call_is_repeated(call, replies);
    }
    assert forall|i: int|
        0 <= i < all && i < count && says_done(host, (#[trigger] replies[i]).0) && did_nothing(
            host,
            replies,
            i,
        ) implies Release::of_mapping(host, addr, size).run(host, replies) == (Release::Unmapped {
        refusal: None,
    }) by {
        law_first_success_counts(call, replies, i);
    }
    if count >= all && did_nothing(host, replies, all) {
        law_last_failure_is_reported(call, replies);
    }
}

proof fn lemma_unmapping_is_repeated(
    host: Host,
    addr: usize,
    size: usize,
    replies: Seq<(Reply, i32)>,
)
    ensures
        match Invocation::fresh(unmapping_call(host, addr, size)).run(replies) {
            Invocation::Pending { call, .. } => call == unmapping_call(host, addr, size),
            _ => true,
        },
    decreases replies.len(),
{
    if replies.len() > 0 {
        lemma_unmapping_is_repeated(host, addr, size, replies.drop_last());
    }
}

/// The return of a block asks the host to make just that block readable and
/// writable, as long as no try did it and tries are left. It loses the block only
/// after all tries failed, with the error number of the last. A block of less than
/// 128 MiB is ready for the pool with the first try that did it.
pub proof fn law_returned_block_is_protected(
    host: Host,
    block: usize,
    size: usize,
    replies: Seq<(Reply, i32)>,
)
    ensures
        ({
            let now = Release::of_block(host, block, size).run(host, replies);
            let all = tries(host) as int;
            let count = replies.len() as int;
            &&& size <= BUCKET_MAX ==> pool_release(host, block, size).run(host, replies) == now
            &&& count < all && did_nothing(host, replies, count) ==> {
                now.demand() matches Some(call) && asks_to_protect(
                    host,
                    call,
                    block,
                    size,
                    PagePermissions::ReadWrite,
                )
            }
            &&& forall|i: int|
                0 <= i < all && i < count && says_done(host, (#[trigger] replies[i]).0)
                    && did_nothing(host, replies, i) && size < 0x800_0000 ==> now == (
                Release::Reusable { block, size, unadvised: None })
            &&& count >= all && did_nothing(host, replies, all) ==> {
                now matches Release::Unprotected { failure } && asks_to_protect(
                    host,
                    failure.call,
                    block,
                    size,
                    PagePermissions::ReadWrite,
                ) && failure.errno == replies[all - 1].1 && now.trouble() == Some(failure)
            }
        }),
{
    let call = protecting_call(host, block, size, PagePermissions::ReadWrite);
    let all = tries(host) as int;
    let count = replies.len() as int;
    let now = Release::of_block(host, block, size).run(host, replies);
    law_bucketed_up_to_maximum(size as nat);
    law_protection_covers_the_bytes(host, block, size, PagePermissions::ReadWrite);
    law_protection_follows_its_guard(host, block, size, replies);
    if count < all && did_nothing(host, replies, count) {
        law_failed_call_is_repeated(call, replies);
    }
    assert forall|i: int|
        0 <= i < all && i < count && says_done(host, (#[trigger] replies[i]).0) && did_nothing(
            host,
            replies,
            i,
        ) && size < 0x800_0000 implies now == (Release::Reusable {
        block,
        size,
        unadvised: None,
    }) by {
        let before = replies.take(i);
        let more = replies.skip(i + 1);
        law_failed_call_is_repeated(call, before);
        law_writable_block_follows_its_advice(
            host,
            block,
            size,
            before,
            replies[i].0,
            replies[i].1,
            more,
        );
        assert(before.push((replies[i].0, replies[i].1)) + more =~= replies);
    }
    if count >= all && did_nothing(host, replies, all) {
        law_last_failure_is_reported(call, replies);
    }
}

/// Whether the first `count` replies to advice say that it was not taken.
pub open spec fn discarded_nothing(host: Host, replies: Seq<(Reply, i32)>, count: int) -> bool {
    &&& count <= replies.len()
    &&& forall|i: int|
        0 <= i < count ==> !says_discarded(host, (#[trigger] replies[i]).0) && (host is Windows
            <==> replies[i].0 is Address)
}

/// A returned block of 128 MiB or more, once a try made it writable, asks the host
/// to discard just its physical backing, as long as no try did it and tries are
/// left. It is ready for the pool with the first that did and, with the failure,
/// after all tries failed.
pub proof fn law_large_block_is_discarded(
    host: Host,
    block: usize,
    size: usize,
    replies: Seq<(Reply, i32)>,
    reply: Reply,
    errno: i32,
    more: Seq<(Reply, i32)>,
)
    requires
        size >= 0x800_0000,
        replies.len() < tries(host),
        did_nothing(host, replies, replies.len() as int),
        says_done(host, reply),
    ensures
        ({
            let now = Release::of_block(host, block, size).run(
                host,
                replies.push((reply, errno)) + more,
            );
            let all = tries(host) as int;
            let count = more.len() as int;
            &&& count < all && discarded_nothing(host, more, count) ==> {
                now.demand() matches Some(call) && asks_to_discard(
                    host,
                    call,
                    if host is Windows && count > 0 {
                        more[count - 1].0->Address_0
                    } else {
                        block
                    },
                    size,
                )
            }
            &&& forall|i: int|
                0 <= i < all && i < count && says_discarded(host, (#[trigger] more[i]).0)
                    && discarded_nothing(host, more, i) ==> now == (Release::Reusable {
                    block,
                    size,
                    unadvised: None,
                })
            &&& count >= all && discarded_nothing(host, more, all) ==> {
                now matches Release::Reusable { block: kept, size: bytes, unadvised: Some(failure) }
                    && kept == block && bytes == size && asks_to_discard(
                    host,
                    failure.call,
                    if host is Windows {
                        more[all - 1].0->Address_0
                    } else {
                        block
                    },
                    size,
                ) && failure.errno == more[all - 1].1 && now.trouble() == Some(failure)
            }
        }),
{
    let protect = protecting_call(host, block, size, PagePermissions::ReadWrite);
    let call = advising_call(host, block, size, Advice::DontNeed);
    let all = tries(host) as int;
    let count = more.len() as int;
    let now = Release::of_block(host, block, size).run(host, replies.push((reply, errno)) + more);
    law_protection_covers_the_bytes(host, block, size, PagePermissions::ReadWrite);
    law_advice_covers_the_bytes(host, block, size);
    law_failed_call_is_repeated(protect, replies);
    law_writable_block_follows_its_advice(host, block, size, replies, reply, errno, more);
    if count < all && discarded_nothing(host, more, count) {
        law_failed_call_is_repeated(call, more);
    }
    assert forall|i: int|
        0 <= i < all && i < count && says_discarded(host, (#[trigger] more[i]).0)
            && discarded_nothing(host, more, i) implies now == (Release::Reusable {
        block,
        size,
        unadvised: None,
    }) by {
        law_first_success_counts(call, more, i);
    }
    if count >= all && discarded_nothing(host, more, all) {
        law_last_failure_is_reported(call, more);
    }
}

/// Whether an allocation that waits for a mapping or an unmapping has its call
/// still to make.
spec fn waits_for_a_call(now: Allocation) -> bool {
    match now {
        Allocation::Mapping { invocation, .. } => invocation matches Invocation::Pending { call, .. }
            && call.maps(),
        Allocation::Retracting { invocation, .. } => invocation is Pending,
        _ => true,
    }
}

proof fn lemma_allocation_waits(
    host: Host,
    pool: Seq<Seq<usize>>,
    request: usize,
    answers: Seq<Answer>,
)
    ensures
        waits_for_a_call(pool_grant(host, pool, request).run(host, answers)),
    decreases answers.len(),
{
    if answers.len() > 0 {
        lemma_allocation_waits(host, pool, request, answers.drop_last());
    }
}

/// Whatever the host answered, an allocation from a pool asks for something unless
/// its memory was granted or refused, and then for nothing more.
pub proof fn law_allocation_asks_until_it_ends(
    host: Host,
    pool: Seq<Seq<usize>>,
    request: usize,
    answers: Seq<Answer>,
)
    ensures
        ({
            let now = pool_grant(host, pool, request).run(host, answers);
            now.demand(host) is None <==> now is Granted || now is Refused
        }),
{
    lemma_allocation_waits(host, pool, request, answers);
}

/// Whatever the host replied, the return of a block asks for something unless the
/// block is ready for the pool or lost, and then for nothing more.
pub proof fn law_return_of_block_asks_until_it_ends(
    host: Host,
    block: usize,
    size: usize,
    replies: Seq<(Reply, i32)>,
)
    ensures
        ({
            let now = Release::of_block(host, block, size).run(host, replies);
            now.demand() is None <==> now is Reusable || now is Unprotected
        }),
{
    let now = Release::of_block(host, block, size).run(host, replies);
    law_block_is_lost_only_if_protection_fails(host, block, size, replies);
    assert(now.demand() is None ==> now is Reusable || now is Unprotected);
    assert(now is Reusable || now is Unprotected ==> now.demand() is None);
}

} // verus!
