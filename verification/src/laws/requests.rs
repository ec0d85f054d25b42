//! What the requests for pages ask of the host, argument by argument.

use crate::host::{Host, UnixHost};
use crate::pages::{
    advising_call, impossible_mapping, mapping_call, page_size_of, protecting_call, sizing_query,
    unmapping_call, Advice, PagePermissions, PageSizeQuery, PageSizeReply,
};
use crate::syscall::{Reply, SystemCall};
use vstd::prelude::*;

verus! {

/// Whether `bits` has just the bits of `a` and those of `b`.
pub open spec fn joins(bits: i32, a: i32, b: i32) -> bool {
    forall|mask: i32|
        #![trigger bits & mask]
        bits & mask == 0 <==> (a & mask == 0 && b & mask == 0)
}

/// Whether `bits` has just the bits of `a` and those of `b`.
pub open spec fn joins_unsigned(bits: u32, a: u32, b: u32) -> bool {
    forall|mask: u32|
        #![trigger bits & mask]
        bits & mask == 0 <==> (a & mask == 0 && b & mask == 0)
}

proof fn lemma_or_joins(a: i32, b: i32)
    ensures
        joins(a | b, a, b),
{
    assert forall|mask: i32|
        #![trigger (a | b) & mask]
        (a | b) & mask == 0 <==> (a & mask == 0 && b & mask == 0) by {
        assert((a | b) & mask == 0 <==> (a & mask == 0 && b & mask == 0)) by (bit_vector);
    }
}

proof fn lemma_or_joins_unsigned(a: u32, b: u32)
    ensures
        joins_unsigned(a | b, a, b),
{
    assert forall|mask: u32|
        #![trigger (a | b) & mask]
        (a | b) & mask == 0 <==> (a & mask == 0 && b & mask == 0) by {
        assert((a | b) & mask == 0 <==> (a & mask == 0 && b & mask == 0)) by (bit_vector);
    }
}

/// Whether a call asks the host to map `size` fresh bytes, readable and writable,
/// belonging to no file and to nobody else, and proposes `addr` for them.
pub open spec fn asks_to_map(host: Host, call: SystemCall, addr: usize, size: usize) -> bool {
    match (host, call) {
        (
            Host::Unix(unix),
            SystemCall::Mmap { addr: proposed, len, prot, flags, fd, offset },
        ) => {
            &&& proposed == addr && len == size
            &&& joins(prot, unix.prot_read, unix.prot_write)
            &&& joins(flags, unix.map_anonymous, unix.map_private)
            &&& fd == -1 && offset == 0
        },
        (
            Host::Windows(windows),
            SystemCall::VirtualAlloc { addr: proposed, len, allocation_type, protect },
        ) => {
            &&& proposed == addr && len == size
            &&& joins_unsigned(allocation_type, windows.mem_reserve, windows.mem_commit)
            &&& protect == windows.page_readwrite
        },
        _ => false,
    }
}

/// Whether a call asks the host to take back just `size` bytes at `addr`.
pub open spec fn asks_to_unmap(host: Host, call: SystemCall, addr: usize, size: usize) -> bool {
    match (host, call) {
        (Host::Unix(_), SystemCall::Munmap { addr: from, len }) => from == addr && len == size,
        (Host::Windows(windows), SystemCall::VirtualFree { addr: from, len, free_type }) => {
            from == addr && len == size && free_type == windows.mem_release
        },
        _ => false,
    }
}

/// Whether a call asks the host to allow just `permissions` on just `size` bytes
/// at `addr`.
pub open spec fn asks_to_protect(
    host: Host,
    call: SystemCall,
    addr: usize,
    size: usize,
    permissions: PagePermissions,
) -> bool {
    match (host, call) {
        (Host::Unix(unix), SystemCall::Mprotect { addr: from, len, prot }) => {
            &&& from == addr && len == size
            &&& permissions is Read ==> prot == unix.prot_read
            &&& permissions is ReadWrite ==> joins(prot, unix.prot_read, unix.prot_write)
            &&& permissions is ReadExecute ==> joins(prot, unix.prot_read, unix.prot_exec)
        },
        (
            Host::Windows(windows),
            SystemCall::VirtualProtect { addr: from, len, protect, old_protect },
        ) => {
            &&& from == addr && len == size && old_protect == windows.old_protection
            &&& permissions is Read ==> protect == windows.page_readonly
            &&& permissions is ReadWrite ==> protect == windows.page_readwrite
            &&& permissions is ReadExecute ==> protect == windows.page_execute_read
        },
        _ => false,
    }
}

/// Whether a call tells the host that just `size` bytes at `addr` are not needed.
pub open spec fn asks_to_discard(host: Host, call: SystemCall, addr: usize, size: usize) -> bool {
    match (host, call) {
        (Host::Unix(unix), SystemCall::Madvise { addr: from, len, advice }) => {
            from == addr && len == size && advice == unix.madv_dontneed
        },
        (
            Host::Windows(windows),
            SystemCall::VirtualAlloc { addr: from, len, allocation_type, protect },
        ) => {
            &&& from == addr && len == size
            &&& allocation_type == windows.mem_reset
            &&& protect == windows.page_readwrite
        },
        _ => false,
    }
}

/// How often a host is asked before a failure counts.
pub open spec fn tries(host: Host) -> nat {
    match host {
        Host::Unix(_) => 3,
        Host::Windows(_) => 1,
    }
}

/// Whether a host's reply to a mapping call brings memory.
pub open spec fn brings_memory(host: Host, reply: Reply) -> bool {
    match (host, reply) {
        (Host::Unix(_), Reply::Address(addr)) => addr != usize::MAX,
        (Host::Windows(_), Reply::Address(addr)) => addr != 0,
        (_, Reply::Status(_)) => false,
    }
}

/// Whether a host's reply to a call that unmaps or protects says that it is done.
pub open spec fn says_done(host: Host, reply: Reply) -> bool {
    match (host, reply) {
        (Host::Unix(_), Reply::Status(status)) => status == 0,
        (Host::Windows(_), Reply::Status(status)) => status != 0,
        (_, Reply::Address(_)) => false,
    }
}

/// Whether a host's reply to advice says that it took the advice.
pub open spec fn says_discarded(host: Host, reply: Reply) -> bool {
    match (host, reply) {
        (Host::Unix(_), Reply::Status(status)) => status == 0,
        (Host::Windows(_), Reply::Address(addr)) => addr != 0,
        _ => false,
    }
}

/// The request for pages asks the host to map exactly the requested bytes,
/// readable and writable, wherever the host likes. Different sizes make different
/// requests. It is tried as often as the host calls for, and succeeds where the
/// host brings memory.
pub proof fn law_mapping_maps_the_size(host: Host, size: usize)
    ensures
        asks_to_map(host, mapping_call(host, size), 0, size),
        forall|other: usize| #[trigger]
            mapping_call(host, other) == mapping_call(host, size) ==> other == size,
        mapping_call(host, size).attempts() == tries(host),
        forall|reply: Reply| #[trigger]
            mapping_call(host, size).succeeded(reply) <==> brings_memory(host, reply),
{
    match host {
        Host::Unix(unix) => {
            lemma_or_joins(unix.prot_read, unix.prot_write);
            lemma_or_joins(unix.map_anonymous, unix.map_private);
        },
        Host::Windows(windows) => {
            lemma_or_joins_unsigned(windows.mem_reserve, windows.mem_commit);
        },
    }
}

/// Giving pages back unmaps exactly the bytes that are given.
pub proof fn law_unmapping_unmaps_the_bytes(host: Host, raw: usize, size: usize)
    ensures
        asks_to_unmap(host, unmapping_call(host, raw, size), raw, size),
        forall|other: usize, bytes: usize| #[trigger]
            unmapping_call(host, other, bytes) == unmapping_call(host, raw, size) ==> other == raw
                && bytes == size,
        unmapping_call(host, raw, size).attempts() == tries(host),
        forall|reply: Reply| #[trigger]
            unmapping_call(host, raw, size).succeeded(reply) <==> says_done(host, reply),
{
}

/// Protecting pages covers exactly the bytes that are given and allows exactly
/// what is asked for.
pub proof fn law_protection_covers_the_bytes(
    host: Host,
    raw: usize,
    size: usize,
    permissions: PagePermissions,
)
    ensures
        asks_to_protect(
            host,
            protecting_call(host, raw, size, permissions),
            raw,
            size,
            permissions,
        ),
        protecting_call(host, raw, size, permissions).attempts() == tries(host),
        forall|reply: Reply| #[trigger]
            protecting_call(host, raw, size, permissions).succeeded(reply) <==> says_done(
                host,
                reply,
            ),
{
    if let Host::Unix(unix) = host {
        lemma_or_joins(unix.prot_read, unix.prot_write);
        lemma_or_joins(unix.prot_read, unix.prot_exec);
    }
}

/// Where the three protections of a host are separate bits, every page is made
/// readable, it is made writable if and only if that is asked for, and likewise
/// executable; so no page is ever both.
pub proof fn law_permissions_are_exact(
    unix: UnixHost,
    raw: usize,
    size: usize,
    permissions: PagePermissions,
)
    requires
        unix.prot_read != 0 && unix.prot_write != 0 && unix.prot_exec != 0,
        unix.prot_read & unix.prot_write == 0,
        unix.prot_read & unix.prot_exec == 0,
        unix.prot_write & unix.prot_exec == 0,
    ensures
        protecting_call(Host::Unix(unix), raw, size, permissions) matches SystemCall::Mprotect {
            addr,
            len,
            prot,
        } && {
            &&& addr == raw && len == size
            &&& prot & unix.prot_read == unix.prot_read
            &&& prot & unix.prot_write == if permissions is ReadWrite {
                unix.prot_write
            } else {
                0
            }
            &&& prot & unix.prot_exec == if permissions is ReadExecute {
                unix.prot_exec
            } else {
                0
            }
        },
{
    let r = unix.prot_read;
    let w = unix.prot_write;
    let x = unix.prot_exec;
    assert(r & r == r) by (bit_vector);
    assert((r | w) & r == r && (r | w) & w == w) by (bit_vector);
    assert((r | x) & r == r && (r | x) & x == x) by (bit_vector);
    assert((r | w) & x == 0) by (bit_vector)
        requires
            r & x == 0,
            w & x == 0,
    ;
    assert((r | x) & w == 0) by (bit_vector)
        requires
            r & w == 0,
            w & x == 0,
    ;
}

/// Advice covers exactly the bytes that are given.
pub proof fn law_advice_covers_the_bytes(host: Host, raw: usize, size: usize)
    ensures
        asks_to_discard(host, advising_call(host, raw, size, Advice::DontNeed), raw, size),
        advising_call(host, raw, size, Advice::DontNeed).attempts() == tries(host),
        forall|reply: Reply| #[trigger]
            advising_call(host, raw, size, Advice::DontNeed).succeeded(reply) <==> says_discarded(
                host,
                reply,
            ),
{
}

/// A mapping that cannot be made large enough is reported as the mapping of just
/// the requested bytes, with the number by which the host says that it has no
/// memory.
pub proof fn law_impossible_mapping_names_the_request(host: Host, size: usize)
    ensures
        asks_to_map(host, impossible_mapping(host, size).call, 0, size),
        host matches Host::Unix(unix) ==> impossible_mapping(host, size).errno == unix.enomem,
        host matches Host::Windows(windows) ==> impossible_mapping(host, size).errno
            == windows.not_enough_memory,
{
    law_mapping_maps_the_size(host, size);
}

/// A host is asked for the size of its pages in its own way, and the size is the
/// number that it replies, wrapped into the range of sizes.
pub proof fn law_page_size_is_the_reply(host: Host, value: i64, number: u32)
    ensures
        host matches Host::Unix(unix) ==> sizing_query(host) == (PageSizeQuery::Sysconf {
            name: unix.sc_pagesize,
        }),
        host is Windows ==> sizing_query(host) is GetSystemInfo,
        page_size_of(PageSizeReply::Sysconf(value)) as int == value as int % (usize::MAX + 1),
        page_size_of(PageSizeReply::SystemInfo(number)) == number,
{
    let wide: u64 = value as u64;
    assert(value < 0 ==> wide == value + 0x1_0000_0000_0000_0000) by (bit_vector)
        requires
            wide == value as u64,
    ;
    assert(usize::BITS == 64 ==> value as usize == wide) by (bit_vector)
        requires
            wide == value as u64,
    ;
    assert(usize::BITS == 32 ==> value as usize == wide % 0x1_0000_0000) by (bit_vector)
        requires
            wide == value as u64,
    ;
    if usize::BITS == 64 {
        assert(usize::MAX + 1 == 0x1_0000_0000_0000_0000);
        lemma_wrapped(value as int, 0x1_0000_0000_0000_0000);
    } else {
        assert(usize::MAX + 1 == 0x1_0000_0000);
        lemma_wrapped(value as int, 0x1_0000_0000);
    }
}

/// The numbers of a range that 64 bits hold wrap around alike before and after
/// their sign is taken for a bit.
proof fn lemma_wrapped(value: int, range: int)
    requires
        range == 0x1_0000_0000 || range == 0x1_0000_0000_0000_0000,
        -0x8000_0000_0000_0000 <= value < 0x8000_0000_0000_0000,
    ensures
        (value + 0x1_0000_0000_0000_0000) % range == value % range,
        value >= 0 && range == 0x1_0000_0000_0000_0000 ==> value % range == value,
        value < 0 && range == 0x1_0000_0000_0000_0000 ==> value % range == value + range,
{
    if range == 0x1_0000_0000 {
        assert((value + 0x1_0000_0000_0000_0000) % 0x1_0000_0000 == value % 0x1_0000_0000);
    } else {
        assert((value + 0x1_0000_0000_0000_0000) % 0x1_0000_0000_0000_0000 == value
            % 0x1_0000_0000_0000_0000);
    }
}

} // verus!
