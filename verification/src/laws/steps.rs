//! Single steps of allocations and returns, from wherever they stand.

use crate::host::Host;
use crate::laws::requests::{
    asks_to_discard, asks_to_map, asks_to_protect, asks_to_unmap, law_advice_covers_the_bytes,
    law_impossible_mapping_names_the_request, law_mapping_maps_the_size,
    law_protection_covers_the_bytes, law_unmapping_unmaps_the_bytes, tries,
};
use crate::pages::{page_size_of, rounded, PagePermissions, PageSizeQuery, PageSizeReply};
use crate::session::{Allocation, Answer, Demand, Release};
use crate::syscall::{Invocation, Reply};
use vstd::prelude::*;

verus! {

/// An allocation asks the host for what it waits for: the size of a page, in the
/// host's way, or the call that is to be made. It asks for nothing once the
/// memory is granted or refused.
pub proof fn law_allocation_demands_what_it_waits_for(host: Host, allocation: Allocation)
    ensures
        match allocation {
            Allocation::Sizing { .. } => match host {
                Host::Unix(unix) => allocation.demand(host) == Some(
                    Demand::PageSize(PageSizeQuery::Sysconf { name: unix.sc_pagesize }),
                ),
                Host::Windows(_) => allocation.demand(host) == Some(
                    Demand::PageSize(PageSizeQuery::GetSystemInfo),
                ),
            },
            Allocation::Mapping { invocation, .. } => match invocation {
                Invocation::Pending { call, .. } => allocation.demand(host) == Some(
                    Demand::Call(call),
                ),
                _ => allocation.demand(host) is None,
            },
            Allocation::Retracting { invocation, .. } => match invocation {
                Invocation::Pending { call, .. } => allocation.demand(host) == Some(
                    Demand::Call(call),
                ),
                _ => allocation.demand(host) is None,
            },
            Allocation::Granted { .. } => allocation.demand(host) is None,
            Allocation::Refused { .. } => allocation.demand(host) is None,
        },
{
}

/// Once the size of a page is known, an allocation starts to map its request
/// rounded to pages, with all tries left.
pub proof fn law_sized_request_is_mapped(host: Host, request: usize, reply: PageSizeReply)
    ensures
        (Allocation::Sizing { request }).next(
            host,
            Answer::PageSize(reply),
        ) matches Allocation::Mapping { request: kept, size, invocation } && {
            &&& kept == request
            &&& size == rounded(request, page_size_of(reply)) as usize
            &&& invocation matches Invocation::Pending { call, attempts } && asks_to_map(
                host,
                call,
                0,
                size,
            ) && attempts == tries(host)
        },
{
    law_mapping_maps_the_size(host, rounded(request, page_size_of(reply)) as usize);
}

/// A mapping that goes on stays a mapping of the same bytes for the same request.
/// One that fails refuses the request with its failure. One that succeeds grants
/// the whole mapping where that holds the request, and else starts to unmap just
/// that mapping, with all tries left.
pub proof fn law_mapping_takes_a_reply(
    host: Host,
    request: usize,
    size: usize,
    invocation: Invocation,
    reply: Reply,
    errno: i32,
)
    ensures
        ({
            let now = (Allocation::Mapping { request, size, invocation }).next(
                host,
                Answer::Call { reply, errno },
            );
            match invocation.next(reply, errno) {
                Invocation::Pending { call, attempts } => now == (Allocation::Mapping {
                    request,
                    size,
                    invocation: Invocation::Pending { call, attempts },
                }),
                Invocation::Failed { failure } => now == (Allocation::Refused { failure }),
                Invocation::Succeeded { reply: Reply::Address(addr) } => if size >= request {
                    now == (Allocation::Granted { addr, size })
                } else {
                    now matches Allocation::Retracting { request: kept, invocation: unmapping } && {
                        &&& kept == request
                        &&& unmapping matches Invocation::Pending { call, attempts }
                            && asks_to_unmap(host, call, addr, size) && attempts == tries(host)
                    }
                },
                Invocation::Succeeded { reply: Reply::Status(status) } => now == (
                Allocation::Mapping {
                    request,
                    size,
                    invocation: Invocation::Succeeded { reply: Reply::Status(status) },
                }),
            }
        }),
{
    if let Invocation::Succeeded { reply: Reply::Address(addr) } = invocation.next(reply, errno) {
        law_unmapping_unmaps_the_bytes(host, addr, size);
    }
}

/// The unmapping of a mapping that is too small goes on or ends. When it ends the
/// request is refused: for want of memory, or with the failure to unmap.
pub proof fn law_retraction_takes_a_reply(
    host: Host,
    request: usize,
    invocation: Invocation,
    reply: Reply,
    errno: i32,
)
    ensures
        ({
            let now = (Allocation::Retracting { request, invocation }).next(
                host,
                Answer::Call { reply, errno },
            );
            match invocation.next(reply, errno) {
                Invocation::Pending { call, attempts } => now == (Allocation::Retracting {
                    request,
                    invocation: Invocation::Pending { call, attempts },
                }),
                Invocation::Failed { failure } => now == (Allocation::Refused { failure }),
                Invocation::Succeeded { .. } => now matches Allocation::Refused { failure } && {
                    &&& asks_to_map(host, failure.call, 0, request)
                    &&& host matches Host::Unix(unix) ==> failure.errno == unix.enomem
                    &&& host matches Host::Windows(windows) ==> failure.errno
                        == windows.not_enough_memory
                },
            }
        }),
{
    law_impossible_mapping_names_the_request(host, request);
}

/// An answer to something that was not asked changes nothing, and neither does any
/// answer once the memory is granted or refused.
pub proof fn law_stray_answer_changes_nothing(host: Host, allocation: Allocation, answer: Answer)
    requires
        match allocation {
            Allocation::Sizing { .. } => answer is Call,
            Allocation::Mapping { .. } => answer is PageSize,
            Allocation::Retracting { .. } => answer is PageSize,
            Allocation::Granted { .. } => true,
            Allocation::Refused { .. } => true,
        },
    ensures
        allocation.next(host, answer) == allocation,
{
}

/// The return of memory asks for the call that is to be made, whichever it is, and
/// for nothing once it has ended.
pub proof fn law_release_demands_what_it_waits_for(
    block: usize,
    size: usize,
    invocation: Invocation,
    ended: Release,
)
    requires
        ended is Reusable || ended is Unprotected || ended is Unmapped,
    ensures
        ({
            let waits_for = match invocation {
                Invocation::Pending { call, .. } => Some(call),
                _ => None,
            };
            &&& (Release::Protecting { block, size, invocation }).demand() == waits_for
            &&& (Release::Advising { block, size, invocation }).demand() == waits_for
            &&& (Release::Unmapping { invocation }).demand() == waits_for
        }),
        ended.demand() is None,
{
}

/// The return of a block starts by asking to make just that block readable and
/// writable; the return of other memory starts by asking to unmap just that
/// memory. Both have all tries left.
pub proof fn law_release_starts(host: Host, addr: usize, size: usize)
    ensures
        Release::of_block(host, addr, size) matches Release::Protecting {
            block: kept,
            size: bytes,
            invocation,
        } && {
            &&& kept == addr && bytes == size
            &&& invocation matches Invocation::Pending { call, attempts } && asks_to_protect(
                host,
                call,
                addr,
                size,
                PagePermissions::ReadWrite,
            ) && attempts == tries(host)
        },
        Release::of_mapping(host, addr, size) matches Release::Unmapping { invocation } && {
            &&& invocation matches Invocation::Pending { call, attempts } && asks_to_unmap(
                host,
                call,
                addr,
                size,
            ) && attempts == tries(host)
        },
{
    law_protection_covers_the_bytes(host, addr, size, PagePermissions::ReadWrite);
    law_unmapping_unmaps_the_bytes(host, addr, size);
}

/// The protection of a block goes on, or fails and loses the block. When it
/// succeeds, a block of less than 128 MiB is ready for the pool at once, and a
/// larger one asks to discard just its own physical backing, with all tries left.
pub proof fn law_protection_takes_a_reply(
    host: Host,
    block: usize,
    size: usize,
    invocation: Invocation,
    reply: Reply,
    errno: i32,
)
    ensures
        ({
            let now = (Release::Protecting { block, size, invocation }).next(host, reply, errno);
            match invocation.next(reply, errno) {
                Invocation::Pending { call, attempts } => now == (Release::Protecting {
                    block,
                    size,
                    invocation: Invocation::Pending { call, attempts },
                }),
                Invocation::Failed { failure } => now == (Release::Unprotected { failure }),
                Invocation::Succeeded { .. } => if size < 0x800_0000 {
                    now == (Release::Reusable { block, size, unadvised: None })
                } else {
                    now matches Release::Advising {
                        block: kept,
                        size: bytes,
                        invocation: advice,
                    } && {
                        &&& kept == block && bytes == size
                        &&& advice matches Invocation::Pending { call, attempts }
                            && asks_to_discard(host, call, block, size) && attempts == tries(host)
                    }
                },
            }
        }),
{
    law_advice_covers_the_bytes(host, block, size);
}

/// The advice on a block goes on or ends. When it ends the block is ready for the
/// pool, with the failure where the advice was not taken.
pub proof fn law_advice_takes_a_reply(
    host: Host,
    block: usize,
    size: usize,
    invocation: Invocation,
    reply: Reply,
    errno: i32,
)
    ensures
        ({
            let now = (Release::Advising { block, size, invocation }).next(host, reply, errno);
            match invocation.next(reply, errno) {
                Invocation::Pending { call, attempts } => now == (Release::Advising {
                    block,
                    size,
                    invocation: Invocation::Pending { call, attempts },
                }),
                Invocation::Failed { failure } => now == (Release::Reusable {
                    block,
                    size,
                    unadvised: Some(failure),
                }),
                Invocation::Succeeded { .. } => now == (Release::Reusable {
                    block,
                    size,
                    unadvised: None,
                }),
            }
        }),
{
}

/// The unmapping of returned memory goes on or ends, with the failure where the
/// host did not take the memory back.
pub proof fn law_unmapping_takes_a_reply(
    host: Host,
    invocation: Invocation,
    reply: Reply,
    errno: i32,
)
    ensures
        ({
            let now = (Release::Unmapping { invocation }).next(host, reply, errno);
            match invocation.next(reply, errno) {
                Invocation::Pending { call, attempts } => now == (Release::Unmapping {
                    invocation: Invocation::Pending { call, attempts },
                }),
                Invocation::Failed { failure } => now == (Release::Unmapped {
                    refusal: Some(failure),
                }),
                Invocation::Succeeded { .. } => now == (Release::Unmapped { refusal: None }),
            }
        }),
{
}

/// A return that has ended stays as it is. What it has to report is the failure
/// that it ended with, whichever that was, and nothing where it met none or has
/// not ended.
pub proof fn law_release_reports_its_failure(
    host: Host,
    release: Release,
    reply: Reply,
    errno: i32,
)
    ensures
        match release {
            Release::Reusable { unadvised, .. } => release.trouble() == unadvised,
            Release::Unprotected { failure } => release.trouble() == Some(failure),
            Release::Unmapped { refusal } => release.trouble() == refusal,
            Release::Protecting { .. } => release.trouble() is None,
            Release::Advising { .. } => release.trouble() is None,
            Release::Unmapping { .. } => release.trouble() is None,
        },
        release is Reusable || release is Unprotected || release is Unmapped ==> release.next(
            host,
            reply,
            errno,
        ) == release,
{
}

} // verus!
