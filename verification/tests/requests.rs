use memory_management::text::{address_text, decimal_text, signed_text};
use memory_management::{
    allocate_pages, free_pages, get_system_page_size, madvise, page_size_query, protect_pages,
    round_to_page_size, Advice, EbpfError, Failure, Host, Invocation, PagePermissions,
    PageSizeQuery, PageSizeReply, Reply, SystemCall, UnixHost, WindowsHost, RETRY_COUNT,
};

fn unix() -> Host {
    Host::Unix(UnixHost::native())
}

fn windows() -> Host {
    Host::Windows(WindowsHost {
        mem_commit: 0x1000,
        mem_reserve: 0x2000,
        mem_reset: 0x80000,
        mem_release: 0x8000,
        page_readonly: 0x02,
        page_readwrite: 0x04,
        page_execute_read: 0x20,
        not_enough_memory: 8,
        old_protection: 0xabc0,
    })
}

#[test]
fn native_constants_are_those_of_the_system() {
    let host = UnixHost::native();
    assert_eq!(host.prot_read, libc::PROT_READ);
    assert_eq!(host.prot_write, libc::PROT_WRITE);
    assert_eq!(host.prot_exec, libc::PROT_EXEC);
    assert_eq!(host.map_anonymous, libc::MAP_ANONYMOUS);
    assert_eq!(host.map_private, libc::MAP_PRIVATE);
    assert_eq!(host.madv_dontneed, libc::MADV_DONTNEED);
    assert_eq!(host.sc_pagesize, libc::_SC_PAGESIZE);
    assert_eq!(host.enomem, libc::ENOMEM);
    assert_eq!((host.prot_read, host.prot_write, host.prot_exec), (1, 2, 4));
    assert_eq!((host.map_private, host.madv_dontneed, host.enomem), (2, 4, 12));
}

#[test]
fn failed_mapping_is_told_by_the_highest_address() {
    let call = allocate_pages(&unix(), 4096).pending().unwrap();
    assert!(!call.has_succeeded(Reply::Address(libc::MAP_FAILED as usize)));
    assert!(call.has_succeeded(Reply::Address(libc::MAP_FAILED as usize - 1)));
    assert!(call.has_succeeded(Reply::Address(0)));
    assert!(!call.has_succeeded(Reply::Status(0)));
}

#[test]
fn rounding_reaches_the_next_page() {
    assert_eq!(round_to_page_size(0, 4096), 0);
    assert_eq!(round_to_page_size(1, 4096), 4096);
    assert_eq!(round_to_page_size(4095, 4096), 4096);
    assert_eq!(round_to_page_size(4096, 4096), 4096);
    assert_eq!(round_to_page_size(4097, 4096), 8192);
    assert_eq!(round_to_page_size(10, 3), 12);
    assert_eq!(round_to_page_size(7, 1), 7);
}

#[test]
fn rounding_saturates_near_the_top() {
    assert_eq!(round_to_page_size(usize::MAX, 4096), usize::MAX - 4095);
    assert_eq!(round_to_page_size(usize::MAX - 4096, 4096), usize::MAX - 4095);
    assert_eq!(round_to_page_size(usize::MAX, 1), usize::MAX - 1);
    assert_eq!(round_to_page_size(1, usize::MAX), 0);
}

#[test]
fn rounding_is_idempotent() {
    for value in [0, 1, 4095, 4096, 70_000] {
        let once = round_to_page_size(value, 4096);
        assert_eq!(round_to_page_size(once, 4096), once);
    }
}

#[test]
fn page_size_comes_from_the_reply() {
    assert_eq!(
        page_size_query(&unix()),
        PageSizeQuery::Sysconf { name: libc::_SC_PAGESIZE }
    );
    assert_eq!(page_size_query(&windows()), PageSizeQuery::GetSystemInfo);
    assert_eq!(get_system_page_size(PageSizeReply::Sysconf(4096)), 4096);
    assert_eq!(get_system_page_size(PageSizeReply::Sysconf(-1)), usize::MAX);
    assert_eq!(get_system_page_size(PageSizeReply::SystemInfo(65536)), 65536);
}

#[test]
fn mapping_requests() {
    assert_eq!(
        allocate_pages(&unix(), 8192).pending(),
        Some(SystemCall::Mmap {
            addr: 0,
            len: 8192,
            prot: libc::PROT_READ | libc::PROT_WRITE,
            flags: libc::MAP_ANONYMOUS | libc::MAP_PRIVATE,
            fd: -1,
            offset: 0,
        })
    );
    assert_eq!(
        allocate_pages(&windows(), 8192).pending(),
        Some(SystemCall::VirtualAlloc {
            addr: 0,
            len: 8192,
            allocation_type: 0x3000,
            protect: 0x04,
        })
    );
}

#[test]
fn unmapping_requests() {
    assert_eq!(
        free_pages(&unix(), 0x4000, 8192).pending(),
        Some(SystemCall::Munmap { addr: 0x4000, len: 8192 })
    );
    assert_eq!(
        free_pages(&windows(), 0x4000, 8192).pending(),
        Some(SystemCall::VirtualFree { addr: 0x4000, len: 8192, free_type: 0x8000 })
    );
}

#[test]
fn protecting_requests() {
    for (permissions, prot, protect) in [
        (PagePermissions::Read, libc::PROT_READ, 0x02),
        (PagePermissions::ReadWrite, libc::PROT_READ | libc::PROT_WRITE, 0x04),
        (PagePermissions::ReadExecute, libc::PROT_READ | libc::PROT_EXEC, 0x20),
    ] {
        assert_eq!(
            protect_pages(&unix(), 0x4000, 8192, permissions).pending(),
            Some(SystemCall::Mprotect { addr: 0x4000, len: 8192, prot })
        );
        assert_eq!(
            protect_pages(&windows(), 0x4000, 8192, permissions).pending(),
            Some(SystemCall::VirtualProtect {
                addr: 0x4000,
                len: 8192,
                protect,
                old_protect: 0xabc0,
            })
        );
    }
}

#[test]
fn advising_requests() {
    assert_eq!(
        madvise(&unix(), 0x4000, 8192, Advice::DontNeed).pending(),
        Some(SystemCall::Madvise { addr: 0x4000, len: 8192, advice: libc::MADV_DONTNEED })
    );
    assert_eq!(
        madvise(&windows(), 0x4000, 8192, Advice::DontNeed).pending(),
        Some(SystemCall::VirtualAlloc {
            addr: 0x4000,
            len: 8192,
            allocation_type: 0x80000,
            protect: 0x04,
        })
    );
}

#[test]
fn success_ends_an_invocation() {
    let started = free_pages(&unix(), 0x4000, 8192);
    assert_eq!(started.outcome(), None);
    let ended = started.resume(Reply::Status(0), 0);
    assert_eq!(ended, Invocation::Succeeded { reply: Reply::Status(0) });
    assert_eq!(ended.outcome(), Some(Ok(Reply::Status(0))));
    assert_eq!(ended.pending(), None);
    assert_eq!(ended.resume(Reply::Status(-1), 22), ended);
}

#[test]
fn second_try_counts() {
    let started = protect_pages(&unix(), 0x4000, 8192, PagePermissions::Read);
    let retried = started.resume(Reply::Status(-1), 12);
    assert_eq!(retried.pending(), started.pending());
    let ended = retried.resume(Reply::Status(0), 0);
    assert_eq!(ended.outcome(), Some(Ok(Reply::Status(0))));
}

#[test]
fn last_failure_is_reported() {
    let mut invocation = free_pages(&unix(), 0xbeef000, 8192);
    for errno in 1..RETRY_COUNT as i32 + 1 {
        assert!(invocation.pending().is_some());
        invocation = invocation.resume(Reply::Status(-1), errno);
    }
    assert_eq!(invocation.pending(), None);
    assert_eq!(
        invocation.outcome(),
        Some(Err(EbpfError::LibcInvocationFailed(
            "munmap",
            vec![format!("0xbeef000"), format!("8192")],
            RETRY_COUNT as i32,
        )))
    );
}

#[test]
fn failed_mapping_passes_its_address_on() {
    let started = allocate_pages(&unix(), 8192);
    let retried = started.resume(Reply::Address(usize::MAX), 12);
    assert!(matches!(
        retried.pending(),
        Some(SystemCall::Mmap { addr: usize::MAX, len: 8192, fd: -1, offset: 0, .. })
    ));
    let ended = retried.resume(Reply::Address(0x9000), 0);
    assert_eq!(ended.outcome(), Some(Ok(Reply::Address(0x9000))));
}

#[test]
fn windows_calls_are_tried_once() {
    let refused = allocate_pages(&windows(), 8192).resume(Reply::Address(0), 8);
    assert_eq!(
        refused.outcome(),
        Some(Err(EbpfError::LibcInvocationFailed(
            "VirtualAlloc",
            vec![format!("0x0"), format!("8192"), format!("12288"), format!("4")],
            8,
        )))
    );
    let refused = free_pages(&windows(), 0x4000, 8192).resume(Reply::Status(0), 487);
    assert_eq!(
        refused.outcome(),
        Some(Err(EbpfError::LibcInvocationFailed(
            "VirtualFree",
            vec![format!("0x4000"), format!("8192"), format!("32768")],
            487,
        )))
    );
    let refused = protect_pages(&windows(), 0x4000, 8192, PagePermissions::ReadExecute)
        .resume(Reply::Status(0), 5);
    assert_eq!(
        refused.outcome(),
        Some(Err(EbpfError::LibcInvocationFailed(
            "VirtualProtect",
            vec![format!("0x4000"), format!("8192"), format!("32"), format!("0xabc0")],
            5,
        )))
    );
    let freed = free_pages(&windows(), 0x4000, 8192).resume(Reply::Status(1), 0);
    assert_eq!(freed.outcome(), Some(Ok(Reply::Status(1))));
}

#[test]
fn failures_name_their_calls() {
    let failure = Failure {
        call: SystemCall::Mprotect { addr: 16, len: 1, prot: -5 },
        errno: -2,
    };
    assert_eq!(
        failure.to_error(),
        EbpfError::LibcInvocationFailed(
            "mprotect",
            vec![format!("0x10"), format!("1"), format!("-5")],
            -2,
        )
    );
    assert_eq!(failure.call.function_name(), "mprotect");
    assert_eq!(failure.call.arguments().len(), 3);
}

#[test]
fn numbers_read_as_usual() {
    for n in [0, 9, 10, 15, 16, 255, 12_345, u64::MAX] {
        assert_eq!(decimal_text(n), format!("{:?}", n));
    }
    for i in [0, 1, -1, -10, i64::MIN, i64::MAX] {
        assert_eq!(signed_text(i), format!("{:?}", i));
    }
    for a in [0, 1, 15, 16, 0xdead_beef, usize::MAX] {
        assert_eq!(address_text(a), format!("{:#x}", a));
    }
}
