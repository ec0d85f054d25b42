//! Who owns which memory, however allocations and returns follow each other.

use crate::classes::{
    bucket_of, bucket_size, law_block_size_belongs_to_its_bucket, law_bucketed_up_to_maximum,
    lemma_bucket_size_fits, BUCKET_COUNT, BUCKET_MAX,
};
use crate::host::Host;
use crate::laws::allocation::{
    first_page_size, law_granted_memory_is_pooled_or_fresh, law_granted_memory_suits_the_request,
    lemma_granted_stays, was_host_granted,
};
use crate::laws::release::{
    law_oversized_memory_is_never_pooled, law_pooled_block_is_writable, was_made_writable,
};
use crate::pages::PagePermissions;
use crate::pool::{
    empty_pool, pool_grant, pool_reclaimed, pool_release, pool_rest, returnable,
};
use crate::session::{Allocation, Answer, Release};
use crate::syscall::Reply;
use vstd::prelude::*;

verus! {

/// Whether `n` bytes at `a` and `m` bytes at `b` have no byte in common.
pub open spec fn apart(a: usize, n: usize, b: usize, m: usize) -> bool {
    a + n <= b || b + m <= a
}

/// The free blocks of a pool and the memory that callers hold; and, of all that
/// was granted and is mapped, how many bytes it has and what may be done with it.
/// What is mapped but neither free nor held was lost on its return.
pub struct Ledger {
    pub pool: Seq<Seq<usize>>,
    pub held: Set<usize>,
    pub extents: Map<usize, usize>,
    pub permissions: Map<usize, PagePermissions>,
}

/// A change of ownership or of permissions.
pub enum Transfer {
    /// A caller requests `request` bytes, and the host gives `answers`.
    Allocate { host: Host, request: usize, answers: Seq<Answer> },
    /// A caller sets what may be done with memory that it holds.
    Permit { addr: usize, permissions: PagePermissions },
    /// A caller returns `size` bytes, and the host gives `replies`.
    Return { host: Host, addr: usize, size: usize, replies: Seq<(Reply, i32)> },
}

impl Ledger {
    /// A new pool, before anything was mapped.
    pub open spec fn new() -> Ledger {
        Ledger {
            pool: empty_pool(),
            held: Set::empty(),
            extents: Map::empty(),
            permissions: Map::empty(),
        }
    }

    /// Whether the block is that of index `i` in bucket `b`.
    pub open spec fn pooled_at(self, addr: usize, b: int, i: int) -> bool {
        0 <= b < self.pool.len() && 0 <= i < self.pool[b].len() && self.pool[b][i] == addr
    }

    /// Whether `size` bytes at `addr` have no byte in common with what is mapped.
    pub open spec fn is_vacant(self, addr: usize, size: usize) -> bool {
        &&& !self.extents.dom().contains(addr)
        &&& forall|other: usize| #[trigger]
            self.extents.dom().contains(other) ==> apart(addr, size, other, self.extents[other])
    }

    /// Nothing has two owners, and everything is as its owner expects:
    /// - the pool holds no block twice and none that a caller holds;
    /// - every block in the pool is mapped, has as many bytes as the blocks of its
    ///   bucket are to have, and is readable and writable;
    /// - what a caller holds is mapped, and the pool can take it back;
    /// - no two mappings have a byte in common.
    pub open spec fn sound(self) -> bool {
        &&& self.pool.len() == BUCKET_COUNT
        &&& forall|addr: usize, b: int, i: int, c: int, j: int|
            #[trigger] self.pooled_at(addr, b, i) && #[trigger] self.pooled_at(addr, c, j) ==> b
                == c && i == j
        &&& forall|addr: usize, b: int, i: int| #[trigger]
            self.pooled_at(addr, b, i) ==> {
                &&& !self.held.contains(addr)
                &&& self.extents.dom().contains(addr)
                &&& self.extents[addr] == bucket_size(b as nat)
                &&& self.permissions.dom().contains(addr)
                &&& self.permissions[addr] == PagePermissions::ReadWrite
            }
        &&& forall|addr: usize| #[trigger]
            self.held.contains(addr) ==> {
                &&& self.extents.dom().contains(addr)
                &&& returnable(self.extents[addr])
            }
        &&& forall|a: usize, b: usize|
            #[trigger] self.extents.dom().contains(a) && #[trigger] self.extents.dom().contains(b)
                && a != b ==> apart(a, self.extents[a], b, self.extents[b])
    }

    /// Whether a transfer keeps to the rules: pages have a size, the host maps
    /// only memory that is not mapped yet, and callers change and return only
    /// what they hold, a return in its full size and up to its end.
    pub open spec fn allows(self, transfer: Transfer) -> bool {
        match transfer {
            Transfer::Allocate { host, request, answers } => {
                let start = pool_grant(host, self.pool, request);
                &&& first_page_size(answers) matches Some(page_size) ==> page_size > 0
                &&& !(start is Granted) ==> (start.run(host, answers) matches Allocation::Granted {
                    addr,
                    size,
                } ==> self.is_vacant(addr, size))
            },
            Transfer::Permit { addr, .. } => self.held.contains(addr),
            Transfer::Return { host, addr, size, replies } => {
                &&& self.held.contains(addr)
                &&& self.extents[addr] == size
                &&& pool_release(host, addr, size).run(host, replies).demand() is None
            },
        }
    }

    /// The ledger after a transfer. Memory is readable and writable after a call
    /// that mapped it so, or that made it so, did its work.
    pub open spec fn after(self, transfer: Transfer) -> Ledger {
        match transfer {
            Transfer::Allocate { host, request, answers } => {
                let start = pool_grant(host, self.pool, request);
                let pool = pool_rest(self.pool, request);
                match start.run(host, answers) {
                    Allocation::Granted { addr, size } => Ledger {
                        pool,
                        held: self.held.insert(addr),
                        extents: if start is Granted {
                            self.extents
                        } else {
                            self.extents.insert(addr, size)
                        },
                        permissions: if was_host_granted(host, start, answers, addr, size) {
                            self.permissions.insert(addr, PagePermissions::ReadWrite)
                        } else {
                            self.permissions
                        },
                    },
                    _ => Ledger { pool, ..self },
                }
            },
            Transfer::Permit { addr, permissions } => Ledger {
                permissions: self.permissions.insert(addr, permissions),
                ..self
            },
            Transfer::Return { host, addr, size, replies } => {
                let end = pool_release(host, addr, size).run(host, replies);
                Ledger {
                    pool: pool_reclaimed(self.pool, end),
                    held: self.held.remove(addr),
                    extents: if end == (Release::Unmapped { refusal: None }) {
                        self.extents.remove(addr)
                    } else {
                        self.extents
                    },
                    permissions: if size <= BUCKET_MAX && was_made_writable(
                        host,
                        addr,
                        size,
                        replies,
                    ) {
                        self.permissions.insert(addr, PagePermissions::ReadWrite)
                    } else {
                        self.permissions
                    },
                }
            },
        }
    }

    /// Whether transfers keep to the rules, one after the other.
    pub open spec fn allows_all(self, transfers: Seq<Transfer>) -> bool
        decreases transfers.len(),
    {
        transfers.len() > 0 ==> self.allows_all(transfers.drop_last()) && self.after_all(
            transfers.drop_last(),
        ).allows(transfers.last())
    }

    /// The ledger after transfers, one after the other.
    pub open spec fn after_all(self, transfers: Seq<Transfer>) -> Ledger
        decreases transfers.len(),
    {
        if transfers.len() == 0 {
            self
        } else {
            self.after_all(transfers.drop_last()).after(transfers.last())
        }
    }
}

/// An allocation that keeps to the rules leaves nothing with two owners. What it
/// grants, out of the pool or not, has at least the requested bytes, all of them
/// readable and writable; nobody held it, the pool holds it no longer, and it has
/// no byte in common with any other mapping.
pub proof fn law_granted_memory_has_one_owner(
    ledger: Ledger,
    host: Host,
    request: usize,
    answers: Seq<Answer>,
)
    requires
        ledger.sound(),
        ledger.allows(Transfer::Allocate { host, request, answers }),
    ensures
        ({
            let after = ledger.after(Transfer::Allocate { host, request, answers });
            &&& after.sound()
            &&& pool_grant(host, ledger.pool, request).run(host, answers)
                matches Allocation::Granted { addr, size } ==> {
                &&& size >= request
                &&& !ledger.held.contains(addr) && after.held.contains(addr)
                &&& after.extents.dom().contains(addr) && after.extents[addr] == size
                &&& after.permissions.dom().contains(addr) && after.permissions[addr]
                    == PagePermissions::ReadWrite
                &&& forall|b: int, i: int| !(#[trigger] after.pooled_at(addr, b, i))
                &&& forall|other: usize| #[trigger]
                    after.extents.dom().contains(other) && other != addr ==> apart(
                        addr,
                        size,
                        other,
                        after.extents[other],
                    )
            }
        }),
{
    let start = pool_grant(host, ledger.pool, request);
    let after = ledger.after(Transfer::Allocate { host, request, answers });
    let k = bucket_of(request as nat) as int;
    law_granted_memory_suits_the_request(host, ledger.pool, request, answers);
    law_granted_memory_is_pooled_or_fresh(host, ledger.pool, request, answers);
    if start is Granted {
        lemma_granted_stays(host, start, answers);
        let top: int = ledger.pool[k].len() - 1;
        let given = ledger.pool[k].last();
        assert(ledger.pooled_at(given, k, top));
        assert forall|addr: usize, b: int, i: int| #[trigger]
            after.pooled_at(addr, b, i) implies ledger.pooled_at(addr, b, i) && addr != given by {
            assert(ledger.pooled_at(addr, b, i));
        }
        lemma_bucket_size_fits(k as nat);
        law_block_size_belongs_to_its_bucket(k as nat);
    } else {
        assert(after.pool =~= ledger.pool);
        assert forall|addr: usize, b: int, i: int| #[trigger]
            after.pooled_at(addr, b, i) implies ledger.pooled_at(addr, b, i) by {
        }
    }
}

/// A return that keeps to the rules leaves nothing with two owners. The pool can
/// take what was held: its size is that of its bucket, or too large for any.
pub proof fn law_returned_memory_has_one_owner(
    ledger: Ledger,
    host: Host,
    addr: usize,
    size: usize,
    replies: Seq<(Reply, i32)>,
)
    requires
        ledger.sound(),
        ledger.allows(Transfer::Return { host, addr, size, replies }),
    ensures
        returnable(size),
        ledger.after(Transfer::Return { host, addr, size, replies }).sound(),
        !ledger.after(Transfer::Return { host, addr, size, replies }).held.contains(addr),
{
    let end = pool_release(host, addr, size).run(host, replies);
    let after = ledger.after(Transfer::Return { host, addr, size, replies });
    let k = bucket_of(size as nat) as int;
    assert(ledger.held.contains(addr));
    law_bucketed_up_to_maximum(size as nat);
    if size > BUCKET_MAX {
        law_oversized_memory_is_never_pooled(host, ledger.pool, addr, size, replies);
    } else {
        law_pooled_block_is_writable(host, addr, size, replies);
    }
    if end is Reusable {
        let top: int = ledger.pool[k].len() as int;
        assert forall|a: usize, b: int, i: int| #[trigger]
            after.pooled_at(a, b, i) implies (ledger.pooled_at(a, b, i) && a != addr) || (a == addr
            && b == k && i == top) by {
            if !(b == k && i == top) {
                assert(ledger.pooled_at(a, b, i));
            }
        }
    } else {
        assert forall|a: usize, b: int, i: int| #[trigger]
            after.pooled_at(a, b, i) implies ledger.pooled_at(a, b, i) && a != addr by {
            assert(ledger.pooled_at(a, b, i));
        }
    }
}

/// A transfer that keeps to the rules leaves nothing with two owners.
pub proof fn law_transfer_keeps_single_ownership(ledger: Ledger, transfer: Transfer)
    requires
        ledger.sound(),
        ledger.allows(transfer),
    ensures
        ledger.after(transfer).sound(),
{
    match transfer {
        Transfer::Allocate { host, request, answers } => {
            law_granted_memory_has_one_owner(ledger, host, request, answers);
        },
        Transfer::Permit { addr, .. } => {
            let after = ledger.after(transfer);
            assert forall|a: usize, b: int, i: int| #[trigger]
                after.pooled_at(a, b, i) implies ledger.pooled_at(a, b, i) && a != addr by {
                assert(ledger.pooled_at(a, b, i));
            }
        },
        Transfer::Return { host, addr, size, replies } => {
            law_returned_memory_has_one_owner(ledger, host, addr, size, replies);
        },
    }
}

/// However allocations, changes of permissions and returns follow each other on a
/// new pool, as long as they keep to the rules nothing ever has two owners, no two
/// mappings overlap, and every block in the pool is readable and writable.
pub proof fn law_memory_has_one_owner(transfers: Seq<Transfer>)
    requires
        Ledger::new().allows_all(transfers),
    ensures
        Ledger::new().after_all(transfers).sound(),
    decreases transfers.len(),
{
    if transfers.len() > 0 {
        law_memory_has_one_owner(transfers.drop_last());
        law_transfer_keeps_single_ownership(
            Ledger::new().after_all(transfers.drop_last()),
            transfers.last(),
        );
    }
}

} // verus!
