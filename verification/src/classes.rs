//! The size classes of the pool: powers of two from 128 KiB to 256 MiB.

use vstd::arithmetic::div_mod::{lemma_basic_div, lemma_fundamental_div_mod, lemma_mod_bound};
use vstd::arithmetic::power2::{
    lemma2_to64, lemma2_to64_rest, lemma_pow2_adds, lemma_pow2_pos, lemma_pow2_strictly_increases,
    lemma_pow2_unfold, pow2,
};
use vstd::bits::lemma_u64_shr_is_div;
use vstd::prelude::*;
use vstd::std_specs::bits::axiom_u64_leading_zeros;

verus! {

/// Minimum allocation size for a bucket.
pub const BUCKET_MIN: usize = 1024 * 128;

/// Maximum allocation size for a bucket.
pub const BUCKET_MAX: usize = 1024 * 1024 * 256;

/// Number of buckets in the pool.
pub const BUCKET_COUNT: usize = 12;

/// The exponent of [`BUCKET_MIN`] as a power of two.
pub const BUCKET_MIN_BITS: u32 = 17;

/// The size of the blocks in the bucket of index `idx`.
pub open spec fn bucket_size(idx: nat) -> nat {
    BUCKET_MIN as nat * pow2(idx)
}

/// The index of the bucket for a request of `size` bytes: how often the size has
/// to be halved, rounding up, until it is at most the size of the first bucket.
/// Indices from [`BUCKET_COUNT`] on have no bucket.
pub open spec fn bucket_of(size: nat) -> nat
    decreases size,
{
    if size <= BUCKET_MIN {
        0
    } else {
        1 + bucket_of((size + 1) / 2)
    }
}

/// The bucket of a request is the first whose blocks are large enough.
pub proof fn law_bucket_is_first_that_fits(size: nat)
    ensures
        size <= bucket_size(bucket_of(size)),
        forall|idx: nat| idx < bucket_of(size) ==> #[trigger] bucket_size(idx) < size,
    decreases size,
{
    let k = bucket_of(size);
    if size <= BUCKET_MIN {
        law_bucket_bounds();
    } else {
        let half: nat = (size + 1) / 2;
        law_bucket_is_first_that_fits(half);
        lemma_bucket_size_doubles((k - 1) as nat);
        assert forall|idx: nat| idx < k implies #[trigger] bucket_size(idx) < size by {
            if idx == 0 {
                law_bucket_bounds();
            } else {
                lemma_bucket_size_doubles((idx - 1) as nat);
                assert(bucket_size((idx - 1) as nat) < half);
            }
        }
    }
}

pub(crate) proof fn lemma_bucket_size_doubles(idx: nat)
    ensures
        bucket_size(idx + 1) == 2 * bucket_size(idx),
        bucket_size(idx) >= BUCKET_MIN,
{
    lemma_pow2_unfold(idx + 1);
    lemma_pow2_pos(idx);
}

/// The smallest bucket has blocks of the minimum size, the largest blocks of the
/// maximum size, and both sizes are powers of two.
pub proof fn law_bucket_bounds()
    ensures
        bucket_size(0) == BUCKET_MIN,
        bucket_size((BUCKET_COUNT - 1) as nat) == BUCKET_MAX,
        BUCKET_MIN == pow2(BUCKET_MIN_BITS as nat),
        BUCKET_MAX == pow2((BUCKET_MIN_BITS + BUCKET_COUNT - 1) as nat),
{
    lemma2_to64();
}

/// Buckets of a higher index hold larger blocks.
pub proof fn law_bucket_sizes_increase(low: nat, high: nat)
    requires
        low < high,
    ensures
        bucket_size(low) < bucket_size(high),
{
    lemma_pow2_strictly_increases(low, high);
}

/// Every bucket's size is at most the maximum.
pub(crate) proof fn lemma_bucket_size_fits(idx: nat)
    requires
        idx < BUCKET_COUNT,
    ensures
        bucket_size(idx) <= BUCKET_MAX,
{
    law_bucket_bounds();
    let last = (BUCKET_COUNT - 1) as nat;
    if idx < last {
        law_bucket_sizes_increase(idx, last);
    }
}

/// A request belongs to exactly one bucket: the first whose blocks hold it.
pub(crate) proof fn lemma_bucket_is_unique(size: nat, idx: nat)
    requires
        size <= bucket_size(idx),
        idx > 0 ==> bucket_size((idx - 1) as nat) < size,
    ensures
        idx == bucket_of(size),
{
    law_bucket_is_first_that_fits(size);
    let k = bucket_of(size);
    if idx < k {
        assert(bucket_size(idx) < size);
    } else if k < idx {
        if k < idx - 1 {
            law_bucket_sizes_increase(k, (idx - 1) as nat);
        }
    }
}

/// A request has a bucket if and only if it is not above the maximum.
pub proof fn law_bucketed_up_to_maximum(size: nat)
    ensures
        bucket_of(size) < BUCKET_COUNT <==> size <= BUCKET_MAX,
{
    law_bucket_is_first_that_fits(size);
    law_bucket_bounds();
    let k = bucket_of(size);
    let last: nat = (BUCKET_COUNT - 1) as nat;
    if k < last {
        law_bucket_sizes_increase(k, last);
    } else if k > last {
        assert(bucket_size(last) < size);
    }
}

/// The size of a bucket's blocks belongs to that bucket.
pub proof fn law_block_size_belongs_to_its_bucket(idx: nat)
    ensures
        bucket_of(bucket_size(idx)) == idx,
{
    if idx > 0 {
        law_bucket_sizes_increase((idx - 1) as nat, idx);
    }
    lemma_bucket_is_unique(bucket_size(idx), idx);
}

/// Requests round up to the nearest power of two: a bucket's size is one, and no
/// power of two that is at least the minimum holds the request in less.
pub proof fn law_request_rounds_to_nearest_power_of_two(size: nat, exponent: nat)
    requires
        size <= pow2(exponent),
        BUCKET_MIN <= pow2(exponent),
    ensures
        bucket_size(bucket_of(size)) == pow2(BUCKET_MIN_BITS as nat + bucket_of(size)),
        size <= bucket_size(bucket_of(size)) <= pow2(exponent),
{
    let k = bucket_of(size);
    law_bucket_is_first_that_fits(size);
    lemma2_to64();
    lemma_pow2_adds(17, k);
    if exponent < 17 {
        lemma_pow2_strictly_increases(exponent, 17);
    }
    let idx = (exponent - 17) as nat;
    lemma_pow2_adds(17, idx);
    assert(bucket_size(idx) == pow2(exponent));
    if idx < k {
        assert(bucket_size(idx) < size);
    } else if k < idx {
        law_bucket_sizes_increase(k, idx);
    }
}

/// The number of bits of `x`.
fn bit_length(x: u64) -> (bits: u32)
    requires
        x > 0,
    ensures
        1 <= bits <= 64,
        pow2((bits - 1) as nat) <= x < pow2(bits as nat),
{
    let zeros: u32 = x.leading_zeros();
    proof {
        axiom_u64_leading_zeros(x);
        let bits = (64 - zeros) as nat;
        let high: u64 = (bits - 1) as u64;
        lemma_pow2_pos((bits - 1) as nat);
        lemma_pow2_pos(bits);
        assert(x >> high != 0) by {
            assert((x >> high) & 1u64 != 0);
            let y: u64 = x >> high;
            assert(y & 1u64 != 0 ==> y != 0) by (bit_vector);
        }
        lemma_u64_shr_is_div(x, high);
        assert(x as nat / pow2((bits - 1) as nat) != 0);
        lemma_fundamental_div_mod(
            x as int,
            pow2((bits - 1) as nat) as int,
        );
        assert(x >= pow2((bits - 1) as nat)) by {
            if x < pow2((bits - 1) as nat) {
                lemma_basic_div(
                    x as int,
                    pow2((bits - 1) as nat) as int,
                );
            }
        }
        if bits < 64 {
            lemma_u64_shr_is_div(x, bits as u64);
            assert(x as nat / pow2(bits) == 0);
            lemma_fundamental_div_mod(x as int, pow2(bits) as int);
            lemma_mod_bound(x as int, pow2(bits) as int);
        } else {
            lemma2_to64_rest();
        }
    }
    64 - zeros
}

/// Rounds a requested size up to the nearest power of two and returns the index
/// of the bucket for it.
pub(crate) fn index_of_bucket(size: usize) -> (idx: usize)
    ensures
        idx == bucket_of(size as nat),
        idx < 64,
{
    let at_least: usize = if size < BUCKET_MIN {
        BUCKET_MIN
    } else {
        size
    };
    let bits: u32 = bit_length((at_least - 1) as u64);
    proof {
        lemma2_to64();
        if bits < 17 {
            if bits < 16 {
                lemma_pow2_strictly_increases(bits as nat, 16);
            }
        }
        assert(bits >= 17);
        let idx = (bits - 17) as nat;
        lemma_pow2_adds(17, idx);
        assert(bucket_size(idx) == pow2(bits as nat));
        if idx > 0 {
            lemma_pow2_adds(17, (idx - 1) as nat);
            lemma_pow2_strictly_increases(16, (bits - 1) as nat);
            if bits - 1 > 17 {
                lemma_pow2_strictly_increases(17, (bits - 1) as nat);
            }
        }
        lemma_bucket_is_unique(size as nat, idx);
    }
    (bits - BUCKET_MIN_BITS) as usize
}

} // verus!
