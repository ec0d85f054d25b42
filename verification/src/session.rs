//! Allocations and releases in progress: what has to be asked of the host next,
//! and what follows from each answer.

use crate::host::Host;
use crate::pages::{
    advising_call, allocate_pages, free_pages, get_system_page_size, impossible_mapping, madvise,
    mapping_call, page_size_of, page_size_query, protect_pages, protecting_call, refuse_pages,
    round_to_page_size, rounded, sizing_query, unmapping_call, Advice, PagePermissions,
    PageSizeQuery, PageSizeReply,
};
use crate::syscall::{EbpfError, Failure, Invocation, Reply, SystemCall};
use vstd::prelude::*;

verus! {

/// The threshold for discarding physical backing from returned memory.
///
/// Allocations at or above 128 MiB are uncommon, so their resident pages are
/// dropped when they are returned to the pool.
pub const MADV_DONTNEED_THRESHOLD: usize = 1024 * 1024 * 128;

/// What an allocation asks of the host.
#[derive(Clone, Copy, Debug, PartialEq, Eq)]
pub enum Demand {
    PageSize(PageSizeQuery),
    Call(SystemCall),
}

/// What the host answers to an allocation.
#[derive(Clone, Copy, Debug, PartialEq, Eq)]
pub enum Answer {
    PageSize(PageSizeReply),
    Call { reply: Reply, errno: i32 },
}

/// An allocation in progress.
#[derive(Clone, Copy, Debug, PartialEq, Eq)]
pub enum Allocation {
    /// `request` bytes are to be rounded to pages, whose size is not known yet.
    Sizing { request: usize },
    /// `size` bytes are being mapped for a request of `request` bytes.
    Mapping { request: usize, size: usize, invocation: Invocation },
    /// A mapping that is too small for `request` bytes is being given back.
    Retracting { request: usize, invocation: Invocation },
    /// `size` bytes at `addr` belong to the caller.
    Granted { addr: usize, size: usize },
    /// There is no memory to give.
    Refused { failure: Failure },
}

impl Allocation {
    /// The allocation of at least `request` bytes whose mapping of `size` bytes
    /// stands at `invocation`. A mapping that is too small is given back.
    pub open spec fn at(
        host: Host,
        request: usize,
        size: usize,
        invocation: Invocation,
    ) -> Allocation {
        match invocation {
            Invocation::Succeeded { reply: Reply::Address(addr) } => if size >= request {
                Allocation::Granted { addr, size }
            } else {
                Allocation::Retracting {
                    request,
                    invocation: Invocation::fresh(unmapping_call(host, addr, size)),
                }
            },
            Invocation::Failed { failure } => Allocation::Refused { failure },
            _ => Allocation::Mapping { request, size, invocation },
        }
    }

    /// The allocation of at least `request` bytes whose mapping, too small for
    /// them, is given back; that stands at `invocation`.
    pub open spec fn retracted(host: Host, request: usize, invocation: Invocation) -> Allocation {
        match invocation {
            Invocation::Succeeded { .. } => Allocation::Refused {
                failure: impossible_mapping(host, request),
            },
            Invocation::Failed { failure } => Allocation::Refused { failure },
            _ => Allocation::Retracting { request, invocation },
        }
    }

    /// The allocation of at least `request` bytes by a mapping of `size` bytes,
    /// before it was asked for.
    pub open spec fn by_mapping(host: Host, request: usize, size: usize) -> Allocation {
        Allocation::Mapping {
            request,
            size,
            invocation: Invocation::fresh(mapping_call(host, size)),
        }
    }

    /// The allocation of exactly `size` bytes, before anything was asked.
    pub open spec fn fresh(host: Host, size: usize) -> Allocation {
        Allocation::by_mapping(host, size, size)
    }

    /// What is asked of the host next.
    pub open spec fn demand(self, host: Host) -> Option<Demand> {
        match self {
            Allocation::Sizing { .. } => Some(Demand::PageSize(sizing_query(host))),
            Allocation::Mapping { invocation: Invocation::Pending { call, .. }, .. } => Some(
                Demand::Call(call),
            ),
            Allocation::Retracting { invocation: Invocation::Pending { call, .. }, .. } => Some(
                Demand::Call(call),
            ),
            _ => None,
        }
    }

    /// Where the allocation stands after an answer. An answer to something that
    /// was not asked changes nothing.
    pub open spec fn next(self, host: Host, answer: Answer) -> Allocation {
        match (self, answer) {
            (
                Allocation::Sizing { request },
                Answer::PageSize(reply),
            ) => Allocation::by_mapping(
                host,
                request,
                rounded(request, page_size_of(reply)) as usize,
            ),
            (
                Allocation::Mapping { request, size, invocation },
                Answer::Call { reply, errno },
            ) => Allocation::at(host, request, size, invocation.next(reply, errno)),
            (
                Allocation::Retracting { request, invocation },
                Answer::Call { reply, errno },
            ) => Allocation::retracted(host, request, invocation.next(reply, errno)),
            _ => self,
        }
    }

    /// Where the allocation stands after answers, in their order.
    pub open spec fn run(self, host: Host, answers: Seq<Answer>) -> Allocation
        decreases answers.len(),
    {
        if answers.len() == 0 {
            self
        } else {
            self.run(host, answers.drop_last()).next(host, answers.last())
        }
    }

    /// Starts to map exactly `size` bytes.
    pub(crate) fn map(host: &Host, size: usize) -> (allocation: Allocation)
        ensures
            allocation == Allocation::fresh(*host, size),
    {
        Allocation::Mapping { request: size, size, invocation: allocate_pages(host, size) }
    }

    /// What has to be asked of the host next, if anything has.
    pub fn pending(&self, host: &Host) -> (demand: Option<Demand>)
        ensures
            demand == self.demand(*host),
    {
        match *self {
            Allocation::Sizing { .. } => Some(Demand::PageSize(page_size_query(host))),
            Allocation::Mapping { invocation, .. } => match invocation.pending() {
                Some(call) => Some(Demand::Call(call)),
                None => None,
            },
            Allocation::Retracting { invocation, .. } => match invocation.pending() {
                Some(call) => Some(Demand::Call(call)),
                None => None,
            },
            _ => None,
        }
    }

    /// Takes in what the host answered.
    pub fn resume(self, host: &Host, answer: Answer) -> (allocation: Allocation)
        requires
            self is Sizing ==> match answer {
                Answer::PageSize(reply) => page_size_of(reply) > 0,
                Answer::Call { .. } => true,
            },
        ensures
            allocation == self.next(*host, answer),
    {
        match (self, answer) {
            (Allocation::Sizing { request }, Answer::PageSize(reply)) => {
                let size: usize = round_to_page_size(request, get_system_page_size(reply));
                Allocation::Mapping { request, size, invocation: allocate_pages(host, size) }
            },
            (Allocation::Mapping { request, size, invocation }, Answer::Call { reply, errno }) => {
                let invocation = invocation.resume(reply, errno);
                match invocation {
                    Invocation::Succeeded { reply: Reply::Address(addr) } => if size >= request {
                        Allocation::Granted { addr, size }
                    } else {
                        Allocation::Retracting {
                            request,
                            invocation: free_pages(host, addr, size),
                        }
                    },
                    Invocation::Failed { failure } => Allocation::Refused { failure },
                    _ => Allocation::Mapping { request, size, invocation },
                }
            },
            (Allocation::Retracting { request, invocation }, Answer::Call { reply, errno }) => {
                let invocation = invocation.resume(reply, errno);
                match invocation {
                    Invocation::Succeeded { .. } => Allocation::Refused {
                        failure: refuse_pages(host, request),
                    },
                    Invocation::Failed { failure } => Allocation::Refused { failure },
                    _ => Allocation::Retracting { request, invocation },
                }
            },
            _ => self,
        }
    }

    /// How the allocation ended, if it did: with the address of the memory and
    /// its size, or with the error that the host reported.
    pub fn outcome(&self) -> (result: Option<Result<(usize, usize), EbpfError>>)
        ensures
            match *self {
                Allocation::Granted { addr, size } => result == Some(
                    Ok::<(usize, usize), EbpfError>((addr, size)),
                ),
                Allocation::Refused { failure } => result matches Some(Err(error))
                    && failure.is_told_by(error),
                _ => result is None,
            },
    {
        match *self {
            Allocation::Granted { addr, size } => Some(Ok((addr, size))),
            Allocation::Refused { failure } => Some(Err(failure.to_error())),
            _ => None,
        }
    }
}

/// The return of memory in progress.
#[derive(Clone, Copy, Debug, PartialEq, Eq)]
pub enum Release {
    /// A block of the pool is being made readable and writable again.
    Protecting { block: usize, size: usize, invocation: Invocation },
    /// The physical backing of a block of the pool is being discarded.
    Advising { block: usize, size: usize, invocation: Invocation },
    /// Memory that the pool does not keep is being given back to the host.
    Unmapping { invocation: Invocation },
    /// The block is ready for the pool. `unadvised` is why its physical backing
    /// could not be discarded, where that failed.
    Reusable { block: usize, size: usize, unadvised: Option<Failure> },
    /// The block could not be made writable and is lost to the pool.
    Unprotected { failure: Failure },
    /// The host was asked to take the memory back. `refusal` is why it did not,
    /// where that failed.
    Unmapped { refusal: Option<Failure> },
}

impl Release {
    /// The return of a block of the pool, before anything was asked.
    pub open spec fn of_block(host: Host, block: usize, size: usize) -> Release {
        Release::Protecting {
            block,
            size,
            invocation: Invocation::fresh(
                protecting_call(host, block, size, PagePermissions::ReadWrite),
            ),
        }
    }

    /// The return of memory that the pool does not keep, before anything was asked.
    pub open spec fn of_mapping(host: Host, addr: usize, size: usize) -> Release {
        Release::Unmapping { invocation: Invocation::fresh(unmapping_call(host, addr, size)) }
    }

    /// The return of a block that is writable again.
    pub open spec fn of_writable(host: Host, block: usize, size: usize) -> Release {
        if size >= MADV_DONTNEED_THRESHOLD {
            Release::Advising {
                block,
                size,
                invocation: Invocation::fresh(advising_call(host, block, size, Advice::DontNeed)),
            }
        } else {
            Release::Reusable { block, size, unadvised: None }
        }
    }

    /// The call that is made next.
    pub open spec fn demand(self) -> Option<SystemCall> {
        match self {
            Release::Protecting { invocation: Invocation::Pending { call, .. }, .. } => Some(call),
            Release::Advising { invocation: Invocation::Pending { call, .. }, .. } => Some(call),
            Release::Unmapping { invocation: Invocation::Pending { call, .. } } => Some(call),
            _ => None,
        }
    }

    /// Where the return stands after its call returned `reply` and left `errno`.
    pub open spec fn next(self, host: Host, reply: Reply, errno: i32) -> Release {
        match self {
            Release::Protecting { block, size, invocation } => match invocation.next(reply, errno) {
                Invocation::Succeeded { .. } => Release::of_writable(host, block, size),
                Invocation::Failed { failure } => Release::Unprotected { failure },
                pending => Release::Protecting { block, size, invocation: pending },
            },
            Release::Advising { block, size, invocation } => match invocation.next(reply, errno) {
                Invocation::Succeeded { .. } => Release::Reusable { block, size, unadvised: None },
                Invocation::Failed { failure } => Release::Reusable {
                    block,
                    size,
                    unadvised: Some(failure),
                },
                pending => Release::Advising { block, size, invocation: pending },
            },
            Release::Unmapping { invocation } => match invocation.next(reply, errno) {
                Invocation::Succeeded { .. } => Release::Unmapped { refusal: None },
                Invocation::Failed { failure } => Release::Unmapped { refusal: Some(failure) },
                pending => Release::Unmapping { invocation: pending },
            },
            _ => self,
        }
    }

    /// Where the return stands after replies and error numbers, in their order.
    pub open spec fn run(self, host: Host, replies: Seq<(Reply, i32)>) -> Release
        decreases replies.len(),
    {
        if replies.len() == 0 {
            self
        } else {
            self.run(host, replies.drop_last()).next(host, replies.last().0, replies.last().1)
        }
    }

    /// What went wrong on the way.
    pub open spec fn trouble(self) -> Option<Failure> {
        match self {
            Release::Reusable { unadvised, .. } => unadvised,
            Release::Unprotected { failure } => Some(failure),
            Release::Unmapped { refusal } => refusal,
            _ => None,
        }
    }

    /// Starts to return a block of the pool.
    pub(crate) fn block(host: &Host, block: usize, size: usize) -> (release: Release)
        ensures
            release == Release::of_block(*host, block, size),
    {
        Release::Protecting {
            block,
            size,
            invocation: protect_pages(host, block, size, PagePermissions::ReadWrite),
        }
    }

    /// Starts to give memory back to the host.
    pub(crate) fn mapping(host: &Host, addr: usize, size: usize) -> (release: Release)
        ensures
            release == Release::of_mapping(*host, addr, size),
    {
        Release::Unmapping { invocation: free_pages(host, addr, size) }
    }

    /// The call that has to be made next, if any has.
    pub fn pending(&self) -> (call: Option<SystemCall>)
        ensures
            call == self.demand(),
    {
        match *self {
            Release::Protecting { invocation, .. } => invocation.pending(),
            Release::Advising { invocation, .. } => invocation.pending(),
            Release::Unmapping { invocation } => invocation.pending(),
            _ => None,
        }
    }

    /// Takes in what the pending call returned, and the error number after it.
    /// A return that has ended stays as it is.
    pub fn resume(self, host: &Host, reply: Reply, errno: i32) -> (release: Release)
        ensures
            release == self.next(*host, reply, errno),
    {
        match self {
            Release::Protecting { block, size, invocation } => {
                let invocation = invocation.resume(reply, errno);
                match invocation {
                    Invocation::Succeeded { .. } => if size >= MADV_DONTNEED_THRESHOLD {
                        Release::Advising {
                            block,
                            size,
                            invocation: madvise(host, block, size, Advice::DontNeed),
                        }
                    } else {
                        Release::Reusable { block, size, unadvised: None }
                    },
                    Invocation::Failed { failure } => Release::Unprotected { failure },
                    _ => Release::Protecting { block, size, invocation },
                }
            },
            Release::Advising { block, size, invocation } => {
                let invocation = invocation.resume(reply, errno);
                match invocation {
                    Invocation::Succeeded { .. } => Release::Reusable {
                        block,
                        size,
                        unadvised: None,
                    },
                    Invocation::Failed { failure } => Release::Reusable {
                        block,
                        size,
                        unadvised: Some(failure),
                    },
                    _ => Release::Advising { block, size, invocation },
                }
            },
            Release::Unmapping { invocation } => {
                let invocation = invocation.resume(reply, errno);
                match invocation {
                    Invocation::Succeeded { .. } => Release::Unmapped { refusal: None },
                    Invocation::Failed { failure } => Release::Unmapped { refusal: Some(failure) },
                    _ => Release::Unmapping { invocation },
                }
            },
            _ => self,
        }
    }

    /// The error to report, where something went wrong on the way.
    pub fn report(&self) -> (error: Option<EbpfError>)
        ensures
            match self.trouble() {
                Some(failure) => error matches Some(told) && failure.is_told_by(told),
                None => error is None,
            },
    {
        let trouble = match *self {
            Release::Reusable { unadvised, .. } => unadvised,
            Release::Unprotected { failure } => Some(failure),
            Release::Unmapped { refusal } => refusal,
            _ => None,
        };
        match trouble {
            Some(failure) => Some(failure.to_error()),
            None => None,
        }
    }
}

} // verus!
