use memory_management::{
    allocate_pages_pooled, free_pages_pooled, get_system_page_size, protect_pages, Allocation,
    Answer, BucketedFreeList, Demand, EbpfError, FreeList, Host, Invocation, PagePermissions,
    PageSizeQuery, PageSizeReply, Release, Reply, SystemCall, UnixHost, WindowsHost, BUCKET_COUNT,
    BUCKET_MAX, BUCKET_MIN, MADV_DONTNEED_THRESHOLD,
};

/// A host that maps memory at rising addresses and keeps a record of the calls.
struct Machine {
    host: Host,
    page_size: i64,
    next: usize,
    failures: usize,
    calls: Vec<SystemCall>,
}

impl Machine {
    fn new() -> Machine {
        Machine {
            host: Host::Unix(UnixHost::native()),
            page_size: 4096,
            next: 0x7000_0000,
            failures: 0,
            calls: Vec::new(),
        }
    }

    fn serve(&mut self, call: SystemCall) -> (Reply, i32) {
        self.calls.push(call);
        let fails = self.failures > 0;
        if fails {
            self.failures -= 1;
        }
        match call {
            SystemCall::Mmap { len, .. } => {
                if fails {
                    return (Reply::Address(usize::MAX), 12);
                }
                let addr = self.next;
                self.next = self.next.wrapping_add(len);
                (Reply::Address(addr), 0)
            }
            _ => {
                if fails {
                    (Reply::Status(-1), 22)
                } else {
                    (Reply::Status(0), 0)
                }
            }
        }
    }

    fn finish(&mut self, mut allocation: Allocation) -> Result<(usize, usize), EbpfError> {
        loop {
            match allocation.pending(&self.host) {
                Some(Demand::PageSize(query)) => {
                    assert_eq!(query, PageSizeQuery::Sysconf { name: libc::_SC_PAGESIZE });
                    let reply = PageSizeReply::Sysconf(self.page_size);
                    allocation = allocation.resume(&self.host, Answer::PageSize(reply));
                }
                Some(Demand::Call(call)) => {
                    let (reply, errno) = self.serve(call);
                    allocation = allocation.resume(&self.host, Answer::Call { reply, errno });
                }
                None => return allocation.outcome().expect("the allocation has ended"),
            }
        }
    }

    fn settle(&mut self, mut release: Release) -> Release {
        while let Some(call) = release.pending() {
            let (reply, errno) = self.serve(call);
            release = release.resume(&self.host, reply, errno);
        }
        release
    }

    fn obtain(
        &mut self,
        pool: &mut BucketedFreeList,
        size: usize,
    ) -> Result<(usize, usize), EbpfError> {
        let allocation = allocate_pages_pooled(pool, &self.host, size);
        self.finish(allocation)
    }

    fn give_back(&mut self, pool: &mut BucketedFreeList, ptr: usize, size: usize) -> Release {
        let release = free_pages_pooled(pool, &self.host, ptr, size);
        let release = self.settle(release);
        pool.reclaim(&release);
        release
    }
}

#[test]
fn oversized_request_gets_its_own_mapping() {
    let mut machine = Machine::new();
    let mut pool = BucketedFreeList::new();
    let size = BUCKET_MAX.saturating_add(1);
    let (ptr, allocated) = machine.obtain(&mut pool, size).expect("mmap");
    assert!(ptr != 0);
    assert!(allocated >= size);
    assert_eq!(allocated % get_system_page_size(PageSizeReply::Sysconf(machine.page_size)), 0);
    assert_eq!(allocated, BUCKET_MAX + 4096);
    let release = machine.give_back(&mut pool, ptr, allocated);
    assert_eq!(release, Release::Unmapped { refusal: None });
    assert_eq!(machine.calls.len(), 2);
    assert_eq!(machine.calls[1], SystemCall::Munmap { addr: ptr, len: allocated });
}

#[test]
fn bucketed_request_rounds_to_the_bucket() {
    let mut machine = Machine::new();
    let mut pool = BucketedFreeList::new();
    let (ptr, allocated) = machine
        .obtain(&mut pool, BUCKET_MIN.saturating_add(1))
        .expect("mmap");
    assert_eq!(allocated, BUCKET_MIN.saturating_mul(2));
    machine.give_back(&mut pool, ptr, allocated);
}

#[test]
fn bucket_indices_at_the_bounds() {
    assert_eq!(BucketedFreeList::bucket_idx(0), 0);
    assert_eq!(BucketedFreeList::bucket_idx(1), 0);
    assert_eq!(BucketedFreeList::bucket_idx(BUCKET_MIN), 0);
    assert_eq!(BucketedFreeList::bucket_idx(BUCKET_MIN + 1), 1);
    assert_eq!(BucketedFreeList::bucket_idx(2 * BUCKET_MIN), 1);
    assert_eq!(BucketedFreeList::bucket_idx(2 * BUCKET_MIN + 1), 2);
    assert_eq!(BucketedFreeList::bucket_idx(BUCKET_MAX), BUCKET_COUNT - 1);
    assert_eq!(BucketedFreeList::bucket_idx(BUCKET_MAX + 1), BUCKET_COUNT);
    assert_eq!(BucketedFreeList::bucket_idx(usize::MAX), usize::BITS as usize - 17);
}

#[test]
fn buckets_span_the_bounds() {
    assert!(BUCKET_MIN.is_power_of_two());
    assert!(BUCKET_MAX.is_power_of_two());
    assert_eq!(BUCKET_MAX, BUCKET_MIN * (1 << (BUCKET_COUNT - 1)));
    let pool = BucketedFreeList::new();
    assert_eq!(pool.block_size_for(0), Some(BUCKET_MIN));
    assert_eq!(pool.block_size_for(BUCKET_MIN + 1), Some(2 * BUCKET_MIN));
    assert_eq!(pool.block_size_for(BUCKET_MAX), Some(BUCKET_MAX));
    assert_eq!(pool.block_size_for(BUCKET_MAX + 1), None);
}

#[test]
fn last_returned_block_is_reused_first() {
    let mut machine = Machine::new();
    let mut pool = BucketedFreeList::new();
    let (a, size) = machine.obtain(&mut pool, BUCKET_MIN).expect("mmap");
    let (b, _) = machine.obtain(&mut pool, 1).expect("mmap");
    assert_ne!(a, b);
    assert_eq!(
        machine.give_back(&mut pool, a, size),
        Release::Reusable { block: a, size, unadvised: None }
    );
    machine.give_back(&mut pool, b, size);
    let calls = machine.calls.len();
    assert_eq!(machine.obtain(&mut pool, 2).expect("reuse"), (b, BUCKET_MIN));
    assert_eq!(machine.obtain(&mut pool, 3).expect("reuse"), (a, BUCKET_MIN));
    assert_eq!(machine.calls.len(), calls);
    let (c, _) = machine.obtain(&mut pool, 4).expect("mmap");
    assert_eq!(machine.calls.len(), calls + 1);
    assert!(c != a && c != b);
}

#[test]
fn buckets_do_not_share_blocks() {
    let mut machine = Machine::new();
    let mut pool = BucketedFreeList::new();
    let (a, size) = machine.obtain(&mut pool, BUCKET_MIN).expect("mmap");
    machine.give_back(&mut pool, a, size);
    let (b, larger) = machine.obtain(&mut pool, BUCKET_MIN + 1).expect("mmap");
    assert_eq!(larger, 2 * BUCKET_MIN);
    assert_ne!(a, b);
    assert_eq!(machine.obtain(&mut pool, BUCKET_MIN).expect("reuse"), (a, size));
}

#[test]
fn returned_block_is_made_writable() {
    let mut machine = Machine::new();
    let mut pool = BucketedFreeList::new();
    let (a, size) = machine.obtain(&mut pool, BUCKET_MIN).expect("mmap");
    machine.calls.clear();
    machine.give_back(&mut pool, a, size);
    assert_eq!(
        machine.calls,
        vec![SystemCall::Mprotect {
            addr: a,
            len: size,
            prot: libc::PROT_READ | libc::PROT_WRITE,
        }]
    );
}

#[test]
fn large_block_drops_its_backing() {
    let mut machine = Machine::new();
    let mut pool = BucketedFreeList::new();
    let (a, size) = machine.obtain(&mut pool, MADV_DONTNEED_THRESHOLD).expect("mmap");
    assert_eq!(size, MADV_DONTNEED_THRESHOLD);
    machine.calls.clear();
    machine.give_back(&mut pool, a, size);
    assert_eq!(machine.calls.len(), 2);
    assert_eq!(
        machine.calls[1],
        SystemCall::Madvise { addr: a, len: size, advice: libc::MADV_DONTNEED }
    );
    let (b, size) = machine.obtain(&mut pool, MADV_DONTNEED_THRESHOLD / 2).expect("mmap");
    machine.calls.clear();
    machine.give_back(&mut pool, b, size);
    assert_eq!(machine.calls.len(), 1);
}

#[test]
fn failed_advice_still_pools_the_block() {
    let mut machine = Machine::new();
    let mut pool = BucketedFreeList::new();
    let (a, size) = machine.obtain(&mut pool, BUCKET_MAX).expect("mmap");
    let mut release = free_pages_pooled(&pool, &machine.host, a, size);
    release = release.resume(&machine.host, Reply::Status(0), 0);
    machine.failures = 3;
    release = machine.settle(release);
    assert!(matches!(release, Release::Reusable { unadvised: Some(_), .. }));
    assert_eq!(
        release.report(),
        Some(EbpfError::LibcInvocationFailed(
            "madvise",
            vec![format!("{:#x}", a), format!("{}", size), format!("{}", libc::MADV_DONTNEED)],
            22,
        ))
    );
    pool.reclaim(&release);
    assert_eq!(machine.obtain(&mut pool, BUCKET_MAX).expect("reuse"), (a, size));
}

#[test]
fn failed_protection_loses_the_block() {
    let mut machine = Machine::new();
    let mut pool = BucketedFreeList::new();
    let (a, size) = machine.obtain(&mut pool, BUCKET_MIN).expect("mmap");
    machine.calls.clear();
    machine.failures = 3;
    let release = machine.give_back(&mut pool, a, size);
    assert!(matches!(release, Release::Unprotected { .. }));
    assert_eq!(machine.calls.len(), 3);
    assert!(matches!(
        release.report(),
        Some(EbpfError::LibcInvocationFailed("mprotect", _, 22))
    ));
    let (b, _) = machine.obtain(&mut pool, BUCKET_MIN).expect("mmap");
    assert_ne!(a, b);
}

#[test]
fn protection_is_retried() {
    let mut machine = Machine::new();
    let mut pool = BucketedFreeList::new();
    let (a, size) = machine.obtain(&mut pool, BUCKET_MIN).expect("mmap");
    machine.failures = 2;
    let release = machine.give_back(&mut pool, a, size);
    assert_eq!(release, Release::Reusable { block: a, size, unadvised: None });
    assert_eq!(release.report(), None);
}

#[test]
fn oversized_memory_that_stays_mapped_is_reported() {
    let mut machine = Machine::new();
    let mut pool = BucketedFreeList::new();
    let (a, size) = machine.obtain(&mut pool, BUCKET_MAX + 4097).expect("mmap");
    assert_eq!(size, BUCKET_MAX + 8192);
    machine.failures = 3;
    let release = machine.give_back(&mut pool, a, size);
    assert!(matches!(release, Release::Unmapped { refusal: Some(_) }));
    assert!(matches!(
        release.report(),
        Some(EbpfError::LibcInvocationFailed("munmap", _, 22))
    ));
}

#[test]
fn exhausted_host_refuses() {
    let mut machine = Machine::new();
    let mut pool = BucketedFreeList::new();
    machine.failures = 3;
    let error = machine.obtain(&mut pool, 1).unwrap_err();
    assert_eq!(error, mmap_error(usize::MAX, BUCKET_MIN, 12));
    assert!(machine.obtain(&mut pool, 1).is_ok());
}

fn mmap_error(addr: usize, len: usize, errno: i32) -> EbpfError {
    EbpfError::LibcInvocationFailed(
        "mmap",
        vec![
            format!("{:#x}", addr),
            format!("{}", len),
            format!("{}", libc::PROT_READ | libc::PROT_WRITE),
            format!("{}", libc::MAP_ANONYMOUS | libc::MAP_PRIVATE),
            format!("-1"),
            format!("0"),
        ],
        errno,
    )
}

#[test]
fn request_beyond_whole_pages_fails_as_the_host_does() {
    let largest = usize::MAX - 4095;
    for size in [largest, largest + 1, usize::MAX] {
        let mut machine = Machine::new();
        let mut pool = BucketedFreeList::new();
        machine.failures = 3;
        assert_eq!(
            machine.obtain(&mut pool, size).unwrap_err(),
            mmap_error(usize::MAX, largest, 12)
        );
        assert_eq!(machine.calls.len(), 3);
    }
}

#[test]
fn short_mapping_is_given_back() {
    let largest = usize::MAX - 4095;
    for size in [largest + 1, usize::MAX] {
        let mut machine = Machine::new();
        let mut pool = BucketedFreeList::new();
        let addr = machine.next;
        assert_eq!(
            machine.obtain(&mut pool, size).unwrap_err(),
            mmap_error(0, size, libc::ENOMEM)
        );
        assert_eq!(machine.calls.len(), 2);
        assert!(matches!(machine.calls[0], SystemCall::Mmap { len, .. } if len == largest));
        assert_eq!(machine.calls[1], SystemCall::Munmap { addr, len: largest });
    }
    let mut machine = Machine::new();
    let mut pool = BucketedFreeList::new();
    let (_, size) = machine.obtain(&mut pool, largest).expect("mmap");
    assert_eq!(size, largest);
}

#[test]
fn short_mapping_that_stays_is_reported() {
    let host = Host::Unix(UnixHost::native());
    let mut pool = BucketedFreeList::new();
    let mut allocation = pool.allocate(&host, usize::MAX);
    let mut answers = vec![
        Answer::PageSize(PageSizeReply::Sysconf(4096)),
        Answer::Call { reply: Reply::Address(0x9000), errno: 0 },
    ];
    for errno in [1, 2, 3] {
        answers.push(Answer::Call { reply: Reply::Status(-1), errno });
    }
    for answer in answers {
        assert_eq!(allocation.outcome(), None);
        allocation = allocation.resume(&host, answer);
    }
    assert_eq!(
        allocation.outcome(),
        Some(Err(EbpfError::LibcInvocationFailed(
            "munmap",
            vec![format!("0x9000"), format!("{}", usize::MAX - 4095)],
            3,
        )))
    );
}

#[test]
fn failed_page_size_query_maps_nothing() {
    let mut machine = Machine::new();
    machine.page_size = -1;
    machine.failures = 3;
    let mut pool = BucketedFreeList::new();
    assert_eq!(
        machine.obtain(&mut pool, BUCKET_MAX + 1).unwrap_err(),
        mmap_error(usize::MAX, 0, 12)
    );
    assert!(machine.obtain(&mut pool, BUCKET_MAX).is_ok());
}

#[test]
fn windows_gives_short_mappings_back() {
    let host = Host::Windows(WindowsHost {
        mem_commit: 0x1000,
        mem_reserve: 0x2000,
        mem_reset: 0x80000,
        mem_release: 0x8000,
        page_readonly: 0x02,
        page_readwrite: 0x04,
        page_execute_read: 0x20,
        not_enough_memory: 8,
        old_protection: 0xabc0,
    });
    let mut pool = BucketedFreeList::new();
    let allocation = pool.allocate(&host, usize::MAX);
    assert_eq!(
        allocation.pending(&host),
        Some(Demand::PageSize(PageSizeQuery::GetSystemInfo))
    );
    let allocation =
        allocation.resume(&host, Answer::PageSize(PageSizeReply::SystemInfo(4096)));
    let allocation =
        allocation.resume(&host, Answer::Call { reply: Reply::Address(0x9000), errno: 0 });
    assert_eq!(
        allocation.pending(&host),
        Some(Demand::Call(SystemCall::VirtualFree {
            addr: 0x9000,
            len: usize::MAX - 4095,
            free_type: 0x8000,
        }))
    );
    let allocation =
        allocation.resume(&host, Answer::Call { reply: Reply::Status(1), errno: 0 });
    assert!(matches!(
        allocation.outcome(),
        Some(Err(EbpfError::LibcInvocationFailed("VirtualAlloc", _, 8)))
    ));
}

#[test]
fn reused_block_is_writable_whatever_its_owner_set() {
    let mut machine = Machine::new();
    let mut pool = BucketedFreeList::new();
    let writable = libc::PROT_READ | libc::PROT_WRITE;
    let (a, size) = machine.obtain(&mut pool, BUCKET_MIN).expect("mmap");
    for permissions in [PagePermissions::Read, PagePermissions::ReadExecute] {
        let call = protect_pages(&machine.host, a, size, permissions).pending().unwrap();
        machine.serve(call);
        machine.give_back(&mut pool, a, size);
        assert_eq!(machine.obtain(&mut pool, BUCKET_MIN).expect("reuse"), (a, size));
        let last = machine.calls.last().unwrap();
        assert_eq!(*last, SystemCall::Mprotect { addr: a, len: size, prot: writable });
    }
}

#[test]
fn granted_size_is_accepted_on_return() {
    let mut machine = Machine::new();
    let mut pool = BucketedFreeList::new();
    for request in [0, 1, BUCKET_MIN, BUCKET_MIN + 1, BUCKET_MAX, BUCKET_MAX + 1] {
        let (ptr, size) = machine.obtain(&mut pool, request).expect("mmap");
        match pool.block_size_for(size) {
            Some(expected) => assert_eq!(size, expected),
            None => assert!(request > BUCKET_MAX),
        }
        machine.give_back(&mut pool, ptr, size);
        if request <= BUCKET_MAX {
            assert_eq!(machine.obtain(&mut pool, size).expect("reuse"), (ptr, size));
        }
    }
}

#[test]
fn unasked_answers_change_nothing() {
    let host = Host::Unix(UnixHost::native());
    let mut pool = BucketedFreeList::new();
    let sizing = pool.allocate(&host, BUCKET_MAX + 1);
    assert_eq!(sizing, Allocation::Sizing { request: BUCKET_MAX + 1 });
    assert_eq!(sizing.outcome(), None);
    let answer = Answer::Call { reply: Reply::Address(4096), errno: 0 };
    assert_eq!(sizing.resume(&host, answer), sizing);
    let mapping = pool.allocate(&host, 1);
    let answer = Answer::PageSize(PageSizeReply::Sysconf(4096));
    assert_eq!(mapping.resume(&host, answer), mapping);
}

#[test]
fn free_list_hands_out_blocks_of_its_size() {
    let mut machine = Machine::new();
    let mut list = FreeList::new(8192);
    let allocation = list.allocate(&machine.host);
    let (a, size) = machine.finish(allocation).expect("mmap");
    assert_eq!(size, 8192);
    let release = list.free(&machine.host, a, size);
    let release = machine.settle(release);
    list.reclaim(&release);
    assert_eq!(list.allocate(&machine.host), Allocation::Granted { addr: a, size: 8192 });
}

#[test]
fn dropped_free_list_unmaps_every_block() {
    let host = Host::Unix(UnixHost::native());
    let mut list = FreeList::new(8192);
    for block in [0x1000, 0x5000, 0x3000] {
        list.reclaim(&Release::Reusable { block, size: 8192, unadvised: None });
    }
    let unmappings = list.drop(&host);
    let calls: Vec<Option<SystemCall>> = unmappings.iter().map(Invocation::pending).collect();
    assert_eq!(
        calls,
        vec![
            Some(SystemCall::Munmap { addr: 0x1000, len: 8192 }),
            Some(SystemCall::Munmap { addr: 0x5000, len: 8192 }),
            Some(SystemCall::Munmap { addr: 0x3000, len: 8192 }),
        ]
    );
    assert!(list.drop(&host).is_empty());
}

#[test]
fn dropped_pool_unmaps_every_block() {
    let host = Host::Unix(UnixHost::native());
    let mut pool = BucketedFreeList::new();
    pool.reclaim(&Release::Reusable { block: 0x9000, size: BUCKET_MAX, unadvised: None });
    pool.reclaim(&Release::Reusable { block: 0x1000, size: BUCKET_MIN, unadvised: None });
    let unmappings = pool.drop(&host);
    let calls: Vec<Option<SystemCall>> = unmappings.iter().map(Invocation::pending).collect();
    assert_eq!(
        calls,
        vec![
            Some(SystemCall::Munmap { addr: 0x1000, len: BUCKET_MIN }),
            Some(SystemCall::Munmap { addr: 0x9000, len: BUCKET_MAX }),
        ]
    );
    assert!(pool.drop(&host).is_empty());
}

#[test]
fn memory_has_one_owner_in_a_long_run() {
    let mut machine = Machine::new();
    let mut pool = BucketedFreeList::new();
    let mut held: Vec<(usize, usize)> = Vec::new();
    for round in 0..400usize {
        if round % 3 == 2 {
            let (ptr, size) = held.remove(round % held.len());
            machine.give_back(&mut pool, ptr, size);
        } else {
            let request = (round * 7919 + 1) % (3 * BUCKET_MIN);
            let (ptr, size) = machine.obtain(&mut pool, request).expect("mmap");
            assert!(size >= request);
            assert!(held.iter().all(|other| ptr + size <= other.0 || other.0 + other.1 <= ptr));
            held.push((ptr, size));
        }
    }
}
