//! Requests for whole pages: mapping, unmapping, protecting and advising.

use crate::host::Host;
use crate::syscall::{Failure, Invocation, SystemCall};
use vstd::arithmetic::div_mod::{lemma_fundamental_div_mod, lemma_mod_multiples_basic};
use vstd::prelude::*;

verus! {

/// What may be done with the memory of a page.
#[derive(Copy, Clone, Debug, PartialEq, Eq)]
pub enum PagePermissions {
    Read,
    ReadWrite,
    ReadExecute,
}

/// What is known about the coming use of a page.
#[derive(Clone, Copy, Debug, PartialEq, Eq)]
pub enum Advice {
    DontNeed,
}

/// The call that asks for the size of a page.
#[derive(Clone, Copy, Debug, PartialEq, Eq)]
pub enum PageSizeQuery {
    Sysconf { name: i32 },
    GetSystemInfo,
}

/// What the call for the size of a page returned.
#[derive(Clone, Copy, Debug, PartialEq, Eq)]
pub enum PageSizeReply {
    Sysconf(i64),
    SystemInfo(u32),
}

/// The call by which a host is asked for the size of its pages.
pub open spec fn sizing_query(host: Host) -> PageSizeQuery {
    match host {
        Host::Unix(unix) => PageSizeQuery::Sysconf { name: unix.sc_pagesize },
        Host::Windows(_) => PageSizeQuery::GetSystemInfo,
    }
}

/// Asks a host for the size of its pages.
pub fn page_size_query(host: &Host) -> (query: PageSizeQuery)
    ensures
        query == sizing_query(*host),
{
    match *host {
        Host::Unix(unix) => PageSizeQuery::Sysconf { name: unix.sc_pagesize },
        Host::Windows(_) => PageSizeQuery::GetSystemInfo,
    }
}

/// The size of a page that a reply tells: its number, wrapped into the range of
/// sizes.
pub open spec fn page_size_of(reply: PageSizeReply) -> usize {
    match reply {
        PageSizeReply::Sysconf(value) => value as usize,
        PageSizeReply::SystemInfo(value) => value as usize,
    }
}

/// The size of a page, from what the call for it returned. That the number is
/// positive and stays the same is up to the host.
pub fn get_system_page_size(reply: PageSizeReply) -> (page_size: usize)
    ensures
        page_size == page_size_of(reply),
{
    match reply {
        PageSizeReply::Sysconf(value) => value as usize,
        PageSizeReply::SystemInfo(value) => value as usize,
    }
}

/// The least multiple of `page_size` that is not below `value`; close to the
/// highest number, where the sum of the two does not fit, the greatest multiple
/// of `page_size` below the highest number.
pub open spec fn rounded(value: usize, page_size: usize) -> int {
    if value + page_size <= usize::MAX {
        (value + page_size - 1) / (page_size as int) * page_size
    } else {
        (usize::MAX - 1) / (page_size as int) * page_size
    }
}

/// Rounds a number of bytes to whole pages.
pub fn round_to_page_size(value: usize, page_size: usize) -> (size: usize)
    requires
        page_size > 0,
    ensures
        size == rounded(value, page_size),
        size % page_size == 0,
        value + page_size <= usize::MAX ==> value <= size < value + page_size,
        value + page_size > usize::MAX ==> size < usize::MAX <= size + page_size,
{
    let last: usize = value.saturating_add(page_size).saturating_sub(1);
    let pages: usize = last / page_size;
    proof {
        let p: int = page_size as int;
        lemma_fundamental_div_mod(last as int, p);
        lemma_mod_multiples_basic(pages as int, p);
        assert(p * (last as int / p) == (last as int / p) * p) by (nonlinear_arith);
        assert(pages as int * p <= last);
    }
    pages * page_size
}

/// The call that maps fresh pages, readable and writable.
pub open spec fn mapping_call(host: Host, size_in_bytes: usize) -> SystemCall {
    match host {
        Host::Unix(unix) => SystemCall::Mmap {
            addr: 0,
            len: size_in_bytes,
            prot: unix.prot_read | unix.prot_write,
            flags: unix.map_anonymous | unix.map_private,
            fd: (-1) as i32,
            offset: 0,
        },
        Host::Windows(windows) => SystemCall::VirtualAlloc {
            addr: 0,
            len: size_in_bytes,
            allocation_type: windows.mem_reserve | windows.mem_commit,
            protect: windows.page_readwrite,
        },
    }
}

/// The call that gives pages back to the host.
pub open spec fn unmapping_call(host: Host, raw: usize, size_in_bytes: usize) -> SystemCall {
    match host {
        Host::Unix(_) => SystemCall::Munmap { addr: raw, len: size_in_bytes },
        Host::Windows(windows) => SystemCall::VirtualFree {
            addr: raw,
            len: size_in_bytes,
            free_type: windows.mem_release,
        },
    }
}

/// The call that sets what may be done with the memory of pages.
pub open spec fn protecting_call(
    host: Host,
    raw: usize,
    size_in_bytes: usize,
    permissions: PagePermissions,
) -> SystemCall {
    match host {
        Host::Unix(unix) => SystemCall::Mprotect {
            addr: raw,
            len: size_in_bytes,
            prot: match permissions {
                PagePermissions::Read => unix.prot_read,
                PagePermissions::ReadWrite => unix.prot_read | unix.prot_write,
                PagePermissions::ReadExecute => unix.prot_read | unix.prot_exec,
            },
        },
        Host::Windows(windows) => SystemCall::VirtualProtect {
            addr: raw,
            len: size_in_bytes,
            protect: match permissions {
                PagePermissions::Read => windows.page_readonly,
                PagePermissions::ReadWrite => windows.page_readwrite,
                PagePermissions::ReadExecute => windows.page_execute_read,
            },
            old_protect: windows.old_protection,
        },
    }
}

/// The call that tells the host what is known about the coming use of pages.
pub open spec fn advising_call(
    host: Host,
    raw: usize,
    size_in_bytes: usize,
    advice: Advice,
) -> SystemCall {
    match host {
        Host::Unix(unix) => SystemCall::Madvise {
            addr: raw,
            len: size_in_bytes,
            advice: match advice {
                Advice::DontNeed => unix.madv_dontneed,
            },
        },
        Host::Windows(windows) => SystemCall::VirtualAlloc {
            addr: raw,
            len: size_in_bytes,
            allocation_type: match advice {
                Advice::DontNeed => windows.mem_reset,
            },
            protect: windows.page_readwrite,
        },
    }
}

/// Forms the call that maps fresh pages.
fn mapping(host: &Host, size_in_bytes: usize) -> (call: SystemCall)
    ensures
        call == mapping_call(*host, size_in_bytes),
{
    match *host {
        Host::Unix(unix) => SystemCall::Mmap {
            addr: 0,
            len: size_in_bytes,
            prot: unix.prot_read | unix.prot_write,
            flags: unix.map_anonymous | unix.map_private,
            fd: -1,
            offset: 0,
        },
        Host::Windows(windows) => SystemCall::VirtualAlloc {
            addr: 0,
            len: size_in_bytes,
            allocation_type: windows.mem_reserve | windows.mem_commit,
            protect: windows.page_readwrite,
        },
    }
}

/// Asks for fresh pages, readable and writable. The reply of the invocation,
/// where it succeeds, is their address.
pub fn allocate_pages(host: &Host, size_in_bytes: usize) -> (invocation: Invocation)
    ensures
        invocation == Invocation::fresh(mapping_call(*host, size_in_bytes)),
{
    Invocation::new(mapping(host, size_in_bytes))
}

/// The failure of a mapping that whole pages cannot make large enough.
pub open spec fn impossible_mapping(host: Host, size_in_bytes: usize) -> Failure {
    Failure { call: mapping_call(host, size_in_bytes), errno: host.out_of_memory() }
}

/// Reports a mapping that whole pages cannot make large enough: as one for which
/// there is no memory.
pub(crate) fn refuse_pages(host: &Host, size_in_bytes: usize) -> (failure: Failure)
    ensures
        failure == impossible_mapping(*host, size_in_bytes),
{
    let errno: i32 = match *host {
        Host::Unix(unix) => unix.enomem,
        Host::Windows(windows) => windows.not_enough_memory,
    };
    Failure { call: mapping(host, size_in_bytes), errno }
}

/// Gives pages back to the host.
pub fn free_pages(host: &Host, raw: usize, size_in_bytes: usize) -> (invocation: Invocation)
    ensures
        invocation == Invocation::fresh(unmapping_call(*host, raw, size_in_bytes)),
{
    let call = match *host {
        Host::Unix(_) => SystemCall::Munmap { addr: raw, len: size_in_bytes },
        Host::Windows(windows) => SystemCall::VirtualFree {
            addr: raw,
            len: size_in_bytes,
            free_type: windows.mem_release,
        },
    };
    Invocation::new(call)
}

/// Sets what may be done with the memory of pages.
pub fn protect_pages(
    host: &Host,
    raw: usize,
    size_in_bytes: usize,
    permissions: PagePermissions,
) -> (invocation: Invocation)
    ensures
        invocation == Invocation::fresh(protecting_call(*host, raw, size_in_bytes, permissions)),
{
    let call = match *host {
        Host::Unix(unix) => {
            let prot: i32 = match permissions {
                PagePermissions::Read => unix.prot_read,
                PagePermissions::ReadWrite => unix.prot_read | unix.prot_write,
                PagePermissions::ReadExecute => unix.prot_read | unix.prot_exec,
            };
            SystemCall::Mprotect { addr: raw, len: size_in_bytes, prot }
        },
        Host::Windows(windows) => {
            let protect: u32 = match permissions {
                PagePermissions::Read => windows.page_readonly,
                PagePermissions::ReadWrite => windows.page_readwrite,
                PagePermissions::ReadExecute => windows.page_execute_read,
            };
            SystemCall::VirtualProtect {
                addr: raw,
                len: size_in_bytes,
                protect,
                old_protect: windows.old_protection,
            }
        },
    };
    Invocation::new(call)
}

/// Tells the host what is known about the coming use of pages.
pub fn madvise(host: &Host, raw: usize, size_in_bytes: usize, advice: Advice) -> (invocation:
    Invocation)
    ensures
        invocation == Invocation::fresh(advising_call(*host, raw, size_in_bytes, advice)),
{
    let call = match *host {
        Host::Unix(unix) => {
            let advice: i32 = match advice {
                Advice::DontNeed => unix.madv_dontneed,
            };
            SystemCall::Madvise { addr: raw, len: size_in_bytes, advice }
        },
        Host::Windows(windows) => {
            let allocation_type: u32 = match advice {
                Advice::DontNeed => windows.mem_reset,
            };
            SystemCall::VirtualAlloc {
                addr: raw,
                len: size_in_bytes,
                allocation_type,
                protect: windows.page_readwrite,
            }
        },
    };
    Invocation::new(call)
}

} // verus!
