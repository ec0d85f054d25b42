//! Whole runs of returns, over all replies of the host.

use crate::classes::{law_bucketed_up_to_maximum, BUCKET_MAX};
use crate::host::Host;
use crate::laws::guard::law_guard_ends;
use crate::pages::{advising_call, protecting_call, unmapping_call, Advice, PagePermissions};
use crate::pool::{pool_reclaimed, pool_release};
use crate::session::{Release, MADV_DONTNEED_THRESHOLD};
use crate::syscall::{Invocation, Reply};
use vstd::prelude::*;

verus! {

/// Whether the reply of index `i` says that the block was made readable and
/// writable: the release asked for just that, and the call did its work.
pub open spec fn made_writable(
    host: Host,
    block: usize,
    size: usize,
    replies: Seq<(Reply, i32)>,
    i: int,
) -> bool {
    let call = protecting_call(host, block, size, PagePermissions::ReadWrite);
    &&& 0 <= i < replies.len()
    &&& Release::of_block(host, block, size).run(host, replies.take(i)).demand() == Some(call)
    &&& call.succeeded(replies[i].0)
}

/// Whether some reply says that the block was made readable and writable.
pub open spec fn was_made_writable(
    host: Host,
    block: usize,
    size: usize,
    replies: Seq<(Reply, i32)>,
) -> bool {
    exists|i: int| made_writable(host, block, size, replies, i)
}

/// What holds of the return of a block, wherever it stands.
spec fn on_return(
    host: Host,
    block: usize,
    size: usize,
    replies: Seq<(Reply, i32)>,
    now: Release,
) -> bool {
    let protect = protecting_call(host, block, size, PagePermissions::ReadWrite);
    let advise = advising_call(host, block, size, Advice::DontNeed);
    match now {
        Release::Protecting { block: b, size: s, invocation } => {
            &&& b == block && s == size
            &&& invocation matches Invocation::Pending { call, attempts } && call == protect
                && 1 <= attempts && attempts + replies.len() == protect.attempts()
            &&& forall|i: int|
                0 <= i < replies.len() ==> !protect.succeeded((#[trigger] replies[i]).0)
        },
        Release::Advising { block: b, size: s, invocation } => {
            &&& b == block && s == size && size >= MADV_DONTNEED_THRESHOLD
            &&& invocation matches Invocation::Pending { call, attempts }
                && call == advise && 1 <= attempts <= advise.attempts() && attempts + replies.len()
                <= protect.attempts() + advise.attempts()
            &&& was_made_writable(host, block, size, replies)
        },
        Release::Reusable { block: b, size: s, unadvised } => {
            &&& b == block && s == size
            &&& unadvised is Some ==> size >= MADV_DONTNEED_THRESHOLD
            &&& was_made_writable(host, block, size, replies)
        },
        Release::Unprotected { .. } => {
            &&& replies.len() >= protect.attempts()
            &&& forall|i: int|
                0 <= i < protect.attempts() ==> !protect.succeeded((#[trigger] replies[i]).0)
        },
        _ => false,
    }
}

proof fn lemma_writable_stays(
    host: Host,
    block: usize,
    size: usize,
    replies: Seq<(Reply, i32)>,
)
    requires
        replies.len() > 0,
        was_made_writable(host, block, size, replies.drop_last()),
    ensures
        was_made_writable(host, block, size, replies),
{
    let shorter = replies.drop_last();
    let i = choose|i: int| made_writable(host, block, size, shorter, i);
    assert(shorter.take(i) =~= replies.take(i));
    assert(made_writable(host, block, size, replies, i));
}

proof fn lemma_block_returns(host: Host, block: usize, size: usize, replies: Seq<(Reply, i32)>)
    ensures
        on_return(
            host,
            block,
            size,
            replies,
            Release::of_block(host, block, size).run(host, replies),
        ),
    decreases replies.len(),
{
    let start = Release::of_block(host, block, size);
    let protect = protecting_call(host, block, size, PagePermissions::ReadWrite);
    if replies.len() > 0 {
        let shorter = replies.drop_last();
        let last: int = replies.len() - 1;
        lemma_block_returns(host, block, size, shorter);
        assert(replies.take(last) =~= shorter);
        let reply = replies.last().0;
        match start.run(host, shorter) {
            Release::Protecting { .. } => {
                if protect.succeeded(reply) {
                    assert(made_writable(host, block, size, replies, last));
                } else {
                    assert forall|i: int| 0 <= i < replies.len() implies !protect.succeeded(
                        (#[trigger] replies[i]).0,
                    ) by {
                        if i < last {
                            assert(replies[i] == shorter[i]);
                        }
                    }
                }
            },
            Release::Advising { .. } => {
                lemma_writable_stays(host, block, size, replies);
            },
            Release::Reusable { .. } => {
                lemma_writable_stays(host, block, size, replies);
            },
            Release::Unprotected { .. } => {
                assert forall|i: int| 0 <= i < protect.attempts() implies !protect.succeeded(
                    (#[trigger] replies[i]).0,
                ) by {
                    assert(replies[i] == shorter[i]);
                }
            },
            _ => {},
        }
    }
}

/// Every block in the pool is readable and writable: a returned block becomes
/// ready for the pool only after a call that made it so did its work. It is then
/// the block that was returned, of its size, whether or not its physical backing
/// could be discarded.
pub proof fn law_pooled_block_is_writable(
    host: Host,
    block: usize,
    size: usize,
    replies: Seq<(Reply, i32)>,
)
    ensures
        Release::of_block(host, block, size).run(host, replies) matches Release::Reusable {
            block: b,
            size: s,
            unadvised,
        } ==> {
            &&& b == block && s == size
            &&& was_made_writable(host, block, size, replies)
            &&& unadvised is Some ==> size >= MADV_DONTNEED_THRESHOLD
        },
{
    lemma_block_returns(host, block, size, replies);
}

/// A block whose return has ended is ready for the pool, unless every try to make
/// it writable failed.
pub proof fn law_block_is_lost_only_if_protection_fails(
    host: Host,
    block: usize,
    size: usize,
    replies: Seq<(Reply, i32)>,
)
    ensures
        Release::of_block(host, block, size).run(host, replies).demand() is None ==> {
            let protect = protecting_call(host, block, size, PagePermissions::ReadWrite);
            if forall|i: int|
                0 <= i < protect.attempts() ==> i < replies.len() && !protect.succeeded(
                    (#[trigger] replies[i]).0,
                ) {
                Release::of_block(host, block, size).run(host, replies) is Unprotected
            } else {
                Release::of_block(host, block, size).run(host, replies) is Reusable
            }
        },
{
    lemma_block_returns(host, block, size, replies);
    lemma_writable_block_had_success(host, block, size, replies);
}

proof fn lemma_writable_block_had_success(
    host: Host,
    block: usize,
    size: usize,
    replies: Seq<(Reply, i32)>,
)
    ensures
        ({
            let protect = protecting_call(host, block, size, PagePermissions::ReadWrite);
            was_made_writable(host, block, size, replies) ==> exists|i: int|
                0 <= i < protect.attempts() && i < replies.len() && protect.succeeded(
                    (#[trigger] replies[i]).0,
                )
        }),
{
    if was_made_writable(host, block, size, replies) {
        let protect = protecting_call(host, block, size, PagePermissions::ReadWrite);
        let i = choose|i: int| made_writable(host, block, size, replies, i);
        let before = replies.take(i);
        lemma_block_returns(host, block, size, before);
        assert(i < protect.attempts()) by {
            if let Release::Advising { invocation, .. } = Release::of_block(
                host,
                block,
                size,
            ).run(host, before) {
                // The call in question is an advising one, not a protecting one.
                assert(false);
            }
        }
        assert(protect.succeeded(replies[i].0));
    }
}

/// The return of a block asks the host to make it readable and writable and, from
/// the threshold on, to discard its physical backing; it asks for nothing else,
/// and never to unmap anything.
pub proof fn law_return_of_block_asks(
    host: Host,
    block: usize,
    size: usize,
    replies: Seq<(Reply, i32)>,
)
    ensures
        Release::of_block(host, block, size).run(host, replies).demand() matches Some(call) ==> {
            &&& call == protecting_call(host, block, size, PagePermissions::ReadWrite) || (size
                >= MADV_DONTNEED_THRESHOLD && call == advising_call(
                host,
                block,
                size,
                Advice::DontNeed,
            ))
            &&& !(call is Munmap) && !(call is VirtualFree)
        },
{
    lemma_block_returns(host, block, size, replies);
}

/// The return of a block that the guard of its protection has not made writable
/// stands where that guard stands: it goes on, or the block is lost.
pub proof fn law_protection_follows_its_guard(
    host: Host,
    block: usize,
    size: usize,
    replies: Seq<(Reply, i32)>,
)
    ensures
        ({
            let protect = protecting_call(host, block, size, PagePermissions::ReadWrite);
            let now = Release::of_block(host, block, size).run(host, replies);
            match Invocation::fresh(protect).run(replies) {
                Invocation::Pending { call, attempts } => now == (Release::Protecting {
                    block,
                    size,
                    invocation: Invocation::Pending { call, attempts },
                }),
                Invocation::Failed { failure } => now == (Release::Unprotected { failure }),
                Invocation::Succeeded { .. } => !(now is Protecting) && !(now is Unprotected),
            }
        }),
    decreases replies.len(),
{
    if replies.len() > 0 {
        law_protection_follows_its_guard(host, block, size, replies.drop_last());
    }
}

/// The return of a block that is writable and whose physical backing is being
/// discarded; that stands at `invocation`.
pub open spec fn advised(block: usize, size: usize, invocation: Invocation) -> Release {
    match invocation {
        Invocation::Succeeded { .. } => Release::Reusable { block, size, unadvised: None },
        Invocation::Failed { failure } => Release::Reusable {
            block,
            size,
            unadvised: Some(failure),
        },
        Invocation::Pending { .. } => Release::Advising { block, size, invocation },
    }
}

/// Once a block is writable it is ready for the pool, below the threshold. From
/// the threshold on it becomes so only when the guard of the advice has ended,
/// whether or not the advice was taken, and a failure is kept.
pub proof fn law_writable_block_follows_its_advice(
    host: Host,
    block: usize,
    size: usize,
    replies: Seq<(Reply, i32)>,
    reply: Reply,
    errno: i32,
    more: Seq<(Reply, i32)>,
)
    requires
        ({
            let protect = protecting_call(host, block, size, PagePermissions::ReadWrite);
            &&& Invocation::fresh(protect).run(replies) is Pending
            &&& protect.succeeded(reply)
        }),
    ensures
        Release::of_block(host, block, size).run(
            host,
            replies.push((reply, errno)) + more,
        ) == if size >= MADV_DONTNEED_THRESHOLD {
            advised(
                block,
                size,
                Invocation::fresh(advising_call(host, block, size, Advice::DontNeed)).run(more),
            )
        } else {
            Release::Reusable { block, size, unadvised: None }
        },
    decreases more.len(),
{
    let writable = replies.push((reply, errno));
    let all = writable + more;
    if more.len() == 0 {
        assert(all.drop_last() =~= replies);
        law_protection_follows_its_guard(host, block, size, replies);
        lemma_block_returns(host, block, size, replies);
    } else {
        law_writable_block_follows_its_advice(
            host,
            block,
            size,
            replies,
            reply,
            errno,
            more.drop_last(),
        );
        assert(all.drop_last() =~= writable + more.drop_last());
    }
}

/// The return of a block ends after a bounded number of calls: those that the
/// guard allows to protect it and to advise on it.
pub proof fn law_return_of_block_ends(
    host: Host,
    block: usize,
    size: usize,
    replies: Seq<(Reply, i32)>,
)
    requires
        replies.len() >= protecting_call(host, block, size, PagePermissions::ReadWrite).attempts()
            + advising_call(host, block, size, Advice::DontNeed).attempts(),
    ensures
        Release::of_block(host, block, size).run(host, replies).demand() is None,
{
    lemma_block_returns(host, block, size, replies);
}

/// Memory that is too large for the pool goes back to the host: its return asks
/// for nothing but its unmapping and never reaches the pool.
pub proof fn law_oversized_memory_is_never_pooled(
    host: Host,
    pool: Seq<Seq<usize>>,
    addr: usize,
    size: usize,
    replies: Seq<(Reply, i32)>,
)
    requires
        size > BUCKET_MAX,
    ensures
        match pool_release(host, addr, size).run(host, replies) {
            Release::Unmapping { .. } => true,
            Release::Unmapped { .. } => true,
            _ => false,
        },
        pool_release(host, addr, size).run(host, replies).demand() matches Some(call) ==> call
            == unmapping_call(host, addr, size),
        pool_reclaimed(pool, pool_release(host, addr, size).run(host, replies)) == pool,
    decreases replies.len(),
{
    law_bucketed_up_to_maximum(size as nat);
    if replies.len() > 0 {
        law_oversized_memory_is_never_pooled(host, pool, addr, size, replies.drop_last());
    }
}

/// The return of memory that the pool does not keep; its unmapping stands at
/// `invocation`.
pub open spec fn unmapped(invocation: Invocation) -> Release {
    match invocation {
        Invocation::Succeeded { .. } => Release::Unmapped { refusal: None },
        Invocation::Failed { failure } => Release::Unmapped { refusal: Some(failure) },
        Invocation::Pending { .. } => Release::Unmapping { invocation },
    }
}

/// The return of memory that the pool does not keep stands where the retry guard
/// of its unmapping stands.
pub proof fn law_unmapping_follows_its_guard(
    host: Host,
    addr: usize,
    size: usize,
    replies: Seq<(Reply, i32)>,
)
    ensures
        Release::of_mapping(host, addr, size).run(host, replies) == unmapped(
            Invocation::fresh(unmapping_call(host, addr, size)).run(replies),
        ),
    decreases replies.len(),
{
    if replies.len() > 0 {
        law_unmapping_follows_its_guard(host, addr, size, replies.drop_last());
    }
}

/// The return of memory that the pool does not keep ends within the tries that
/// the guard allows, and the host took the memory back exactly where one of them
/// did its work.
pub proof fn law_return_of_mapping_ends(
    host: Host,
    addr: usize,
    size: usize,
    replies: Seq<(Reply, i32)>,
)
    requires
        replies.len() >= unmapping_call(host, addr, size).attempts(),
    ensures
        ({
            let call = unmapping_call(host, addr, size);
            Release::of_mapping(host, addr, size).run(host, replies) matches Release::Unmapped {
                refusal,
            } && (refusal is None <==> exists|i: int|
                0 <= i < call.attempts() && call.succeeded((#[trigger] replies[i]).0))
        }),
{
    law_unmapping_follows_its_guard(host, addr, size, replies);
    law_guard_ends(unmapping_call(host, addr, size), replies);
}

} // verus!
