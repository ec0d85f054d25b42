//! The retry guard, over all replies that a call can meet.

use crate::syscall::{Failure, Invocation, Reply, SystemCall};
use vstd::prelude::*;

verus! {

/// A call after its first `count` tries, none of which did its work.
proof fn lemma_guard_goes_on(call: SystemCall, replies: Seq<(Reply, i32)>, count: int)
    requires
        0 <= count <= replies.len(),
        count < call.attempts(),
        forall|i: int| 0 <= i < count ==> !call.succeeded((#[trigger] replies[i]).0),
    ensures
        Invocation::fresh(call).run(replies.take(count)) matches Invocation::Pending {
            call: now,
            attempts,
        } && attempts == call.attempts() - count && (forall|reply: Reply|
            #[trigger] now.succeeded(reply) == call.succeeded(reply)) && (forall|reply: Reply|
            call.yields(reply) ==> #[trigger] now.having_returned(reply) == call.having_returned(
                reply,
            )) && (count == 0 ==> now == call) && (!call.maps() ==> now == call),
    decreases count,
{
    if count > 0 {
        lemma_guard_goes_on(call, replies, count - 1);
        assert(replies.take(count).drop_last() =~= replies.take(count - 1));
        assert(!call.succeeded(replies[count - 1].0));
    }
}

proof fn lemma_ended_invocation_stays(
    invocation: Invocation,
    replies: Seq<(Reply, i32)>,
    count: int,
)
    requires
        0 <= count <= replies.len(),
        !(invocation.run(replies.take(count)) is Pending),
    ensures
        invocation.run(replies) == invocation.run(replies.take(count)),
    decreases replies.len() - count,
{
    if count == replies.len() {
        assert(replies.take(count) =~= replies);
    } else {
        assert(replies.take(count + 1).drop_last() =~= replies.take(count));
        lemma_ended_invocation_stays(invocation, replies, count + 1);
    }
}

/// The first try that does its work ends the invocation with what it returned.
pub proof fn law_first_success_counts(call: SystemCall, replies: Seq<(Reply, i32)>, first: int)
    requires
        0 <= first < replies.len(),
        first < call.attempts(),
        call.succeeded(replies[first].0),
        forall|i: int| 0 <= i < first ==> !call.succeeded((#[trigger] replies[i]).0),
    ensures
        Invocation::fresh(call).run(replies) == (Invocation::Succeeded { reply: replies[first].0 }),
{
    lemma_guard_goes_on(call, replies, first);
    assert(replies.take(first + 1).drop_last() =~= replies.take(first));
    lemma_ended_invocation_stays(Invocation::fresh(call), replies, first + 1);
}

/// Where every try fails, the failure that is reported is that of the last one:
/// its error number and, for a mapping call, the address it returned.
pub proof fn law_last_failure_is_reported(call: SystemCall, replies: Seq<(Reply, i32)>)
    requires
        replies.len() >= call.attempts(),
        forall|i: int|
            0 <= i < call.attempts() ==> call.yields((#[trigger] replies[i]).0)
                && !call.succeeded(replies[i].0),
    ensures
        Invocation::fresh(call).run(replies) == (Invocation::Failed {
            failure: Failure {
                call: call.having_returned(replies[call.attempts() - 1].0),
                errno: replies[call.attempts() - 1].1,
            },
        }),
{
    let last: int = call.attempts() - 1;
    lemma_guard_goes_on(call, replies, last);
    assert(replies.take(last + 1).drop_last() =~= replies.take(last));
    assert(call.yields(replies[last].0));
    lemma_ended_invocation_stays(Invocation::fresh(call), replies, last + 1);
}

/// A call is made again, with the arguments that the guard carries, as long as
/// it fails and tries are left. A call that returns no address is repeated
/// unchanged.
pub proof fn law_failed_call_is_repeated(call: SystemCall, replies: Seq<(Reply, i32)>)
    requires
        replies.len() < call.attempts(),
        forall|i: int|
            0 <= i < replies.len() ==> call.yields((#[trigger] replies[i]).0)
                && !call.succeeded(replies[i].0),
    ensures
        Invocation::fresh(call).run(replies) == (Invocation::Pending {
            call: if replies.len() == 0 {
                call
            } else {
                call.having_returned(replies.last().0)
            },
            attempts: (call.attempts() - replies.len()) as usize,
        }),
        !call.maps() ==> Invocation::fresh(call).run(replies) == (Invocation::Pending {
            call,
            attempts: (call.attempts() - replies.len()) as usize,
        }),
{
    let count: int = replies.len() as int;
    assert(replies.take(count) =~= replies);
    lemma_guard_goes_on(call, replies, count);
    if count > 0 {
        assert(replies.take(count - 1) =~= replies.drop_last());
        lemma_guard_goes_on(call, replies, count - 1);
        assert(call.yields(replies[count - 1].0));
    }
}

/// No call is made more often than the guard allows.
pub proof fn law_attempts_are_bounded(call: SystemCall, replies: Seq<(Reply, i32)>)
    requires
        replies.len() >= call.attempts(),
    ensures
        !(Invocation::fresh(call).run(replies) is Pending),
{
    lemma_attempts_count_down(call, replies);
}

proof fn lemma_attempts_count_down(call: SystemCall, replies: Seq<(Reply, i32)>)
    ensures
        Invocation::fresh(call).run(replies) matches Invocation::Pending { attempts, .. }
            ==> 1 <= attempts && attempts + replies.len() == call.attempts(),
    decreases replies.len(),
{
    if replies.len() > 0 {
        lemma_attempts_count_down(call, replies.drop_last());
    }
}

/// A call that is still to be made succeeds on the same replies as at first.
pub(crate) proof fn lemma_pending_keeps_its_kind(call: SystemCall, replies: Seq<(Reply, i32)>)
    ensures
        Invocation::fresh(call).run(replies) matches Invocation::Pending { call: now, .. }
            ==> forall|reply: Reply| #[trigger] now.succeeded(reply) == call.succeeded(reply),
    decreases replies.len(),
{
    if replies.len() > 0 {
        lemma_pending_keeps_its_kind(call, replies.drop_last());
        if let Invocation::Pending { call: before, .. } = Invocation::fresh(call).run(
            replies.drop_last(),
        ) {
            let now = before.having_returned(replies.last().0);
            assert forall|reply: Reply| #[trigger]
                now.succeeded(reply) == call.succeeded(reply) by {
                assert(before.succeeded(reply) == call.succeeded(reply));
            }
        }
    }
}

/// Once all tries are used up, the invocation has succeeded if one of them did
/// its work and failed if none did.
pub proof fn law_guard_ends(call: SystemCall, replies: Seq<(Reply, i32)>)
    requires
        replies.len() >= call.attempts(),
    ensures
        if exists|i: int|
            0 <= i < call.attempts() && call.succeeded((#[trigger] replies[i]).0) {
            Invocation::fresh(call).run(replies) is Succeeded
        } else {
            Invocation::fresh(call).run(replies) is Failed
        },
{
    if exists|i: int| 0 <= i < call.attempts() && call.succeeded((#[trigger] replies[i]).0) {
        let i = choose|i: int|
            0 <= i < call.attempts() && call.succeeded((#[trigger] replies[i]).0);
        lemma_success_ends_guard(call, replies, i);
    } else {
        let last: int = call.attempts() - 1;
        lemma_guard_goes_on(call, replies, last);
        assert(replies.take(last + 1).drop_last() =~= replies.take(last));
        assert(!call.succeeded(replies[last].0));
        lemma_ended_invocation_stays(Invocation::fresh(call), replies, last + 1);
    }
}

proof fn lemma_success_ends_guard(call: SystemCall, replies: Seq<(Reply, i32)>, i: int)
    requires
        0 <= i < replies.len(),
        i < call.attempts(),
        call.succeeded(replies[i].0),
    ensures
        Invocation::fresh(call).run(replies) is Succeeded,
    decreases i,
{
    if exists|j: int| 0 <= j < i && call.succeeded((#[trigger] replies[j]).0) {
        let j = choose|j: int| 0 <= j < i && call.succeeded((#[trigger] replies[j]).0);
        lemma_success_ends_guard(call, replies, j);
    } else {
        law_first_success_counts(call, replies, i);
    }
}

/// The POSIX calls are tried three times, the others once.
pub proof fn law_tries_of_a_call(call: SystemCall)
    ensures
        call is Mmap || call is Munmap || call is Mprotect || call is Madvise ==> call.attempts()
            == 3,
        call is VirtualAlloc || call is VirtualFree || call is VirtualProtect ==> call.attempts()
            == 1,
{
}

/// Whether a call did its work shows in what it returned alone, not in its
/// arguments: a mapping call returns an address other than the one that stands for
/// failure, the highest on a Unix host and zero on Windows; any other call returns
/// zero on a Unix host and anything but zero on Windows.
pub proof fn law_success_of_a_call(call: SystemCall, reply: Reply)
    ensures
        call is Mmap ==> (call.succeeded(reply) <==> (reply matches Reply::Address(addr) && addr
            != usize::MAX)),
        call is VirtualAlloc ==> (call.succeeded(reply) <==> (reply matches Reply::Address(addr)
            && addr != 0)),
        call is Munmap || call is Mprotect || call is Madvise ==> (call.succeeded(reply) <==> reply
            == Reply::Status(0)),
        call is VirtualFree || call is VirtualProtect ==> (call.succeeded(reply) <==> (
        reply matches Reply::Status(status) && status != 0)),
{
}

/// Whether `later` is the call `call` with at most its address exchanged: a
/// mapping call has the address of `reply`, where that is one, and any other call
/// is the same.
pub open spec fn is_repetition(call: SystemCall, reply: Reply, later: SystemCall) -> bool {
    match (call, later) {
        (SystemCall::Mmap { .. }, SystemCall::Mmap { .. }) => {
            &&& later->Mmap_addr == (match reply {
                Reply::Address(addr) => addr,
                Reply::Status(_) => call->Mmap_addr,
            })
            &&& later->Mmap_len == call->Mmap_len
            &&& later->Mmap_prot == call->Mmap_prot
            &&& later->flags == call->flags
            &&& later->fd == call->fd
            &&& later->offset == call->offset
        },
        (SystemCall::VirtualAlloc { .. }, SystemCall::VirtualAlloc { .. }) => {
            &&& later->VirtualAlloc_addr == (match reply {
                Reply::Address(addr) => addr,
                Reply::Status(_) => call->VirtualAlloc_addr,
            })
            &&& later->VirtualAlloc_len == call->VirtualAlloc_len
            &&& later->allocation_type == call->allocation_type
            &&& later->VirtualAlloc_protect == call->VirtualAlloc_protect
        },
        _ => later == call,
    }
}

/// What a failed call is repeated as, and reported as, is the same call but for the
/// address of a mapping.
pub proof fn law_failed_call_keeps_its_arguments(call: SystemCall, reply: Reply)
    ensures
        is_repetition(call, reply, call.having_returned(reply)),
{
}

/// One try, wherever the guard stands. A call that did its work ends the
/// invocation with its reply. A call that failed is repeated with one try less,
/// or, where that was the last, reported with the error number it left.
pub proof fn law_guard_takes_one_try(call: SystemCall, attempts: usize, reply: Reply, errno: i32)
    ensures
        match (Invocation::Pending { call, attempts }).next(reply, errno) {
            Invocation::Succeeded { reply: told } => call.succeeded(reply) && told == reply,
            Invocation::Failed { failure } => {
                &&& !call.succeeded(reply) && attempts <= 1
                &&& failure.errno == errno
                &&& is_repetition(call, reply, failure.call)
            },
            Invocation::Pending { call: later, attempts: left } => {
                &&& !call.succeeded(reply) && attempts > 1
                &&& left == attempts - 1
                &&& is_repetition(call, reply, later)
            },
        },
{
}

/// An invocation that has ended stays as it is, and one that was not tried yet is
/// at its call, with all of its tries left.
pub proof fn law_invocation_starts_and_ends(
    call: SystemCall,
    ended: Invocation,
    reply: Reply,
    errno: i32,
)
    requires
        !(ended is Pending),
    ensures
        ended.next(reply, errno) == ended,
        Invocation::fresh(call) matches Invocation::Pending { call: first, attempts } && first
            == call && attempts == call.attempts(),
{
}

} // verus!
