//! Whole runs of allocations, over all answers of the host.

use crate::classes::{
    bucket_of, bucket_size, law_block_size_belongs_to_its_bucket, law_bucket_is_first_that_fits,
    law_bucketed_up_to_maximum, lemma_bucket_size_fits, BUCKET_COUNT, BUCKET_MAX,
};
use crate::host::Host;
use crate::laws::guard::lemma_pending_keeps_its_kind;
use crate::laws::rounding::law_rounding_holds_the_value;
use crate::pages::{mapping_call, page_size_of, rounded, unmapping_call, PageSizeReply};
use crate::pool::{pool_grant, returnable};
use crate::session::{Allocation, Answer, Demand};
use crate::syscall::{Invocation, Reply, SystemCall};
use vstd::prelude::*;

verus! {

/// The first answer that tells the size of a page, if one does.
pub open spec fn first_page_size(answers: Seq<Answer>) -> Option<usize>
    decreases answers.len(),
{
    if answers.len() == 0 {
        None
    } else {
        match (first_page_size(answers.drop_last()), answers.last()) {
            (Some(page_size), _) => Some(page_size),
            (None, Answer::PageSize(reply)) => Some(page_size_of(reply)),
            (None, Answer::Call { .. }) => None,
        }
    }
}

/// Whether `got` bytes are what a request of `size` bytes is granted: as many as
/// a block of its bucket has or, for an oversized request, the size in whole
/// pages of the size that was answered first.
pub open spec fn suits(size: usize, got: usize, answers: Seq<Answer>) -> bool {
    let idx = bucket_of(size as nat);
    if idx < BUCKET_COUNT {
        got == bucket_size(idx) as usize
    } else {
        first_page_size(answers) matches Some(page_size) && got == rounded(
            size,
            page_size,
        ) as usize
    }
}

/// Whether `call` asks for `size` bytes of fresh memory, readable and writable,
/// at whatever address.
pub open spec fn asks_for_mapping(host: Host, call: SystemCall, size: usize) -> bool {
    exists|addr: usize|
        call == #[trigger] mapping_call(host, size).having_returned(Reply::Address(addr))
}

proof fn lemma_fresh_mapping_asks(host: Host, size: usize)
    ensures
        asks_for_mapping(host, mapping_call(host, size), size),
{
    let call = mapping_call(host, size);
    assert(call == call.having_returned(Reply::Address(0)));
}

proof fn lemma_retried_mapping_asks(host: Host, call: SystemCall, size: usize, reply: Reply)
    requires
        asks_for_mapping(host, call, size),
    ensures
        asks_for_mapping(host, call.having_returned(reply), size),
{
    match reply {
        Reply::Address(addr) => {
            assert(call.having_returned(reply) == mapping_call(host, size).having_returned(
                Reply::Address(addr),
            ));
        },
        Reply::Status(_) => {},
    }
}

/// Whether the answer of index `i` is the host's grant of `size` fresh bytes at
/// `addr`: the allocation that started as `start` asked for a readable and
/// writable mapping of that size, and the call did its work and returned `addr`.
pub open spec fn host_granted(
    host: Host,
    start: Allocation,
    answers: Seq<Answer>,
    i: int,
    addr: usize,
    size: usize,
) -> bool {
    &&& 0 <= i < answers.len()
    &&& answers[i] matches Answer::Call { reply, .. } && reply == Reply::Address(addr)
    &&& start.run(host, answers.take(i)).demand(host) matches Some(Demand::Call(call))
        && asks_for_mapping(host, call, size) && call.succeeded(Reply::Address(addr))
}

/// Whether some answer is the host's grant of `size` fresh bytes at `addr`.
pub open spec fn was_host_granted(
    host: Host,
    start: Allocation,
    answers: Seq<Answer>,
    addr: usize,
    size: usize,
) -> bool {
    exists|i: int| host_granted(host, start, answers, i, addr, size)
}

/// What holds of an allocation of `size` bytes, wherever it stands.
spec fn on_course(
    host: Host,
    start: Allocation,
    size: usize,
    answers: Seq<Answer>,
    now: Allocation,
) -> bool {
    match now {
        Allocation::Sizing { request } => {
            &&& request == size && bucket_of(size as nat) >= BUCKET_COUNT
            &&& first_page_size(answers) is None
        },
        Allocation::Mapping { request, size: got, invocation } => {
            &&& suits(size, got, answers)
            &&& request == if bucket_of(size as nat) < BUCKET_COUNT {
                got
            } else {
                size
            }
            &&& invocation matches Invocation::Pending { call, .. } && asks_for_mapping(
                host,
                call,
                got,
            )
        },
        Allocation::Granted { addr, size: got } => {
            &&& suits(size, got, answers)
            &&& bucket_of(size as nat) >= BUCKET_COUNT ==> got >= size
            &&& start is Granted || was_host_granted(host, start, answers, addr, got)
        },
        Allocation::Retracting { .. } => true,
        Allocation::Refused { .. } => true,
    }
}

proof fn lemma_mapping_goes_on(
    host: Host,
    start: Allocation,
    size: usize,
    answers: Seq<Answer>,
    request: usize,
    got: usize,
    call: SystemCall,
    attempts: usize,
)
    requires
        answers.len() > 0,
        start.run(host, answers.drop_last()) == (Allocation::Mapping {
            request,
            size: got,
            invocation: Invocation::Pending { call, attempts },
        }),
        suits(size, got, answers),
        request == if bucket_of(size as nat) < BUCKET_COUNT {
            got
        } else {
            size
        },
        asks_for_mapping(host, call, got),
    ensures
        on_course(host, start, size, answers, start.run(host, answers)),
{
    let last: int = answers.len() - 1;
    assert(answers.take(last) =~= answers.drop_last());
    match answers.last() {
        Answer::Call { reply, .. } => {
            lemma_retried_mapping_asks(host, call, got, reply);
            match reply {
                Reply::Address(addr) => {
                    if call.succeeded(reply) {
                        assert(host_granted(host, start, answers, last, addr, got));
                    }
                },
                Reply::Status(_) => {
                    assert(!call.succeeded(reply));
                },
            }
        },
        Answer::PageSize(_) => {},
    }
}

proof fn lemma_allocation_runs(
    host: Host,
    pool: Seq<Seq<usize>>,
    size: usize,
    answers: Seq<Answer>,
)
    ensures
        on_course(
            host,
            pool_grant(host, pool, size),
            size,
            answers,
            pool_grant(host, pool, size).run(host, answers),
        ),
    decreases answers.len(),
{
    let start = pool_grant(host, pool, size);
    if answers.len() == 0 {
        if let Allocation::Mapping { size: got, .. } = start {
            lemma_fresh_mapping_asks(host, got);
        }
    } else {
        let shorter = answers.drop_last();
        lemma_allocation_runs(host, pool, size, shorter);
        match start.run(host, shorter) {
            Allocation::Sizing { request } => {
                if let Answer::PageSize(reply) = answers.last() {
                    let got = rounded(request, page_size_of(reply)) as usize;
                    lemma_fresh_mapping_asks(host, got);
                }
            },
            Allocation::Mapping { request, size: got, invocation } => {
                if let Invocation::Pending { call, attempts } = invocation {
                    lemma_mapping_goes_on(host, start, size, answers, request, got, call, attempts);
                }
            },
            Allocation::Granted { addr, size: got } => {
                if !(start is Granted) {
                    let i = choose|i: int| host_granted(host, start, shorter, i, addr, got);
                    assert(shorter.take(i) =~= answers.take(i));
                    assert(host_granted(host, start, answers, i, addr, got));
                }
            },
            Allocation::Retracting { .. } => {},
            Allocation::Refused { .. } => {},
        }
    }
}

/// An allocation grants at least what was requested: a pooled one exactly the
/// size of the blocks of its bucket, an oversized one the least number of whole
/// pages. And what it grants can be returned to the pool.
pub proof fn law_granted_memory_suits_the_request(
    host: Host,
    pool: Seq<Seq<usize>>,
    size: usize,
    answers: Seq<Answer>,
)
    requires
        first_page_size(answers) matches Some(page_size) ==> page_size > 0,
    ensures
        pool_grant(host, pool, size).run(host, answers) matches Allocation::Granted {
            size: got,
            ..
        } ==> {
            &&& got >= size
            &&& returnable(got)
            &&& size <= BUCKET_MAX ==> got == bucket_size(bucket_of(size as nat))
            &&& size > BUCKET_MAX ==> got > BUCKET_MAX && (first_page_size(answers) matches Some(
                page_size,
            ) && got == rounded(size, page_size) && got % page_size == 0 && got < size + page_size)
        },
{
    lemma_allocation_runs(host, pool, size, answers);
    law_bucketed_up_to_maximum(size as nat);
    if let Allocation::Granted { size: got, .. } = pool_grant(host, pool, size).run(host, answers) {
        let idx = bucket_of(size as nat);
        if idx < BUCKET_COUNT {
            lemma_bucket_size_fits(idx);
            law_bucket_is_first_that_fits(size as nat);
            law_block_size_belongs_to_its_bucket(idx);
        } else if let Some(page_size) = first_page_size(answers) {
            law_rounding_holds_the_value(size, page_size);
            law_bucketed_up_to_maximum(got as nat);
        }
    }
}

/// Memory that does not come out of the pool comes out of a call that asked the
/// host for a readable and writable mapping of the granted size and that
/// returned its address.
pub proof fn law_granted_memory_is_pooled_or_fresh(
    host: Host,
    pool: Seq<Seq<usize>>,
    size: usize,
    answers: Seq<Answer>,
)
    ensures
        pool_grant(host, pool, size).run(host, answers) matches Allocation::Granted {
            addr,
            size: got,
        } ==> {
            let idx = bucket_of(size as nat);
            if idx < BUCKET_COUNT && pool[idx as int].len() > 0 {
                addr == pool[idx as int].last()
            } else {
                was_host_granted(host, pool_grant(host, pool, size), answers, addr, got)
            }
        },
    decreases answers.len(),
{
    lemma_allocation_runs(host, pool, size, answers);
    if answers.len() > 0 {
        law_granted_memory_is_pooled_or_fresh(host, pool, size, answers.drop_last());
        let start = pool_grant(host, pool, size);
        if start is Granted {
            lemma_granted_stays(host, start, answers);
        }
    }
}

pub(crate) proof fn lemma_granted_stays(host: Host, start: Allocation, answers: Seq<Answer>)
    requires
        start is Granted,
    ensures
        start.run(host, answers) == start,
    decreases answers.len(),
{
    if answers.len() > 0 {
        lemma_granted_stays(host, start, answers.drop_last());
    }
}

/// The answers of a host that made calls, given what they returned and the error
/// numbers after them.
pub open spec fn call_answers(replies: Seq<(Reply, i32)>) -> Seq<Answer> {
    Seq::new(
        replies.len(),
        |i: int| Answer::Call { reply: replies[i].0, errno: replies[i].1 },
    )
}

/// A mapping stands where the retry guard of its call stands: it is granted,
/// refused or tried again just as the guard succeeds, fails or goes on. That
/// holds of a mapping that is too small for its request, too, until the guard
/// succeeds.
pub proof fn law_mapping_follows_its_guard(
    host: Host,
    request: usize,
    size: usize,
    replies: Seq<(Reply, i32)>,
)
    requires
        size >= request || !(Invocation::fresh(mapping_call(host, size)).run(
            replies,
        ) is Succeeded),
    ensures
        Allocation::by_mapping(host, request, size).run(host, call_answers(replies))
            == Allocation::at(
            host,
            request,
            size,
            Invocation::fresh(mapping_call(host, size)).run(replies),
        ),
    decreases replies.len(),
{
    if replies.len() > 0 {
        law_mapping_follows_its_guard(host, request, size, replies.drop_last());
        assert(call_answers(replies).drop_last() =~= call_answers(replies.drop_last()));
    }
}

/// A mapping that is too small for its request is given back as soon as the host
/// grants it, and the request is refused: as one for which there is no memory, or
/// with the failure to give the mapping back.
pub proof fn law_short_mapping_is_given_back(
    host: Host,
    request: usize,
    size: usize,
    replies: Seq<(Reply, i32)>,
    addr: usize,
    errno: i32,
    more: Seq<(Reply, i32)>,
)
    requires
        size < request,
        Invocation::fresh(mapping_call(host, size)).run(replies) is Pending,
        mapping_call(host, size).succeeded(Reply::Address(addr)),
    ensures
        Allocation::by_mapping(host, request, size).run(
            host,
            call_answers(replies.push((Reply::Address(addr), errno)) + more),
        ) == Allocation::retracted(
            host,
            request,
            Invocation::fresh(unmapping_call(host, addr, size)).run(more),
        ),
    decreases more.len(),
{
    let granted = replies.push((Reply::Address(addr), errno));
    let all = granted + more;
    if more.len() == 0 {
        law_mapping_follows_its_guard(host, request, size, replies);
        lemma_pending_keeps_its_kind(mapping_call(host, size), replies);
        assert(all =~= granted);
        assert(call_answers(all).drop_last() =~= call_answers(replies));
    } else {
        law_short_mapping_is_given_back(
            host,
            request,
            size,
            replies,
            addr,
            errno,
            more.drop_last(),
        );
        assert(call_answers(all).drop_last() =~= call_answers(granted + more.drop_last()));
    }
}

/// An oversized request is, once the size of a page is known, served by a mapping
/// of its size rounded to pages.
pub proof fn law_oversized_request_maps_whole_pages(
    host: Host,
    pool: Seq<Seq<usize>>,
    size: usize,
    reply: PageSizeReply,
    answers: Seq<Answer>,
)
    requires
        size > BUCKET_MAX,
        page_size_of(reply) > 0,
    ensures
        pool_grant(host, pool, size).run(host, seq![Answer::PageSize(reply)] + answers)
            == Allocation::by_mapping(
            host,
            size,
            rounded(size, page_size_of(reply)) as usize,
        ).run(host, answers),
    decreases answers.len(),
{
    law_bucketed_up_to_maximum(size as nat);
    let all = seq![Answer::PageSize(reply)] + answers;
    if answers.len() == 0 {
        assert(all.drop_last() =~= Seq::<Answer>::empty());
        reveal_with_fuel(Allocation::run, 2);
    } else {
        law_oversized_request_maps_whole_pages(host, pool, size, reply, answers.drop_last());
        assert(all.drop_last() =~= seq![Answer::PageSize(reply)] + answers.drop_last());
    }
}

} // verus!
