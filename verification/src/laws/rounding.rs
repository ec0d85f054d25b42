//! Rounding to whole pages.

use crate::pages::rounded;
use vstd::arithmetic::div_mod::{lemma_fundamental_div_mod, lemma_mod_multiples_basic};
use vstd::prelude::*;

verus! {

/// Whether whole pages can hold `value` bytes without reaching the highest number.
pub open spec fn can_round(value: usize, page_size: usize) -> bool {
    page_size > 0 && value <= (usize::MAX - 1) / (page_size as int) * page_size
}

/// The number whose whole pages `rounded` counts.
spec fn dividend(value: usize, page_size: usize) -> int {
    if value + page_size <= usize::MAX {
        value + page_size - 1
    } else {
        usize::MAX - 1
    }
}

/// Rounding takes whole pages out of the dividend and leaves less than one.
proof fn lemma_rounded(value: usize, page_size: usize)
    requires
        page_size > 0,
    ensures
        rounded(value, page_size) == dividend(value, page_size) / (page_size as int) * page_size,
        0 <= rounded(value, page_size) <= dividend(value, page_size),
        dividend(value, page_size) < rounded(value, page_size) + page_size,
        rounded(value, page_size) % (page_size as int) == 0,
{
    let p: int = page_size as int;
    let q: int = dividend(value, page_size) / p;
    lemma_fundamental_div_mod(dividend(value, page_size), p);
    lemma_mod_multiples_basic(q, p);
    assert(p * q == q * p) by (nonlinear_arith);
    assert(q * p >= 0) by (nonlinear_arith)
        requires
            p > 0,
            q * p > -p,
    ;
}

/// Rounding yields at least the value if and only if whole pages can hold it. It
/// then yields less than a page more; else it falls short.
pub proof fn law_rounding_holds_the_value(value: usize, page_size: usize)
    requires
        page_size > 0,
    ensures
        0 <= rounded(value, page_size) < usize::MAX,
        rounded(value, page_size) % (page_size as int) == 0,
        rounded(value, page_size) < value + page_size,
        value <= rounded(value, page_size) <==> can_round(value, page_size),
{
    lemma_rounded(value, page_size);
    lemma_rounded(usize::MAX, page_size);
}

/// Rounding yields whole pages: less than a page above the value, or, where the sum
/// of the value and a page does not fit, less than a page below the highest number.
pub proof fn law_rounding_is_within_a_page(value: usize, page_size: usize)
    requires
        page_size > 0,
    ensures
        rounded(value, page_size) % (page_size as int) == 0,
        value + page_size <= usize::MAX ==> value <= rounded(value, page_size) < value + page_size,
        value + page_size > usize::MAX ==> rounded(value, page_size) < usize::MAX <= rounded(
            value,
            page_size,
        ) + page_size,
{
    lemma_rounded(value, page_size);
}

/// Rounding yields the least number of whole pages that holds the value.
pub proof fn law_rounding_is_least(value: usize, page_size: usize, pages: nat)
    requires
        can_round(value, page_size),
        value <= pages * page_size,
    ensures
        value <= rounded(value, page_size) <= pages * page_size,
        rounded(value, page_size) % (page_size as int) == 0,
{
    let p: int = page_size as int;
    let q: int = dividend(value, page_size) / p;
    lemma_rounded(value, page_size);
    law_rounding_holds_the_value(value, page_size);
    assert(q * p <= pages * p) by (nonlinear_arith)
        requires
            p > 0,
            q * p < pages * p + p,
    ;
}

/// Whole pages round to themselves.
pub proof fn law_rounding_is_idempotent(value: usize, page_size: usize)
    requires
        page_size > 0,
    ensures
        rounded(rounded(value, page_size) as usize, page_size) == rounded(value, page_size),
{
    let p: int = page_size as int;
    lemma_rounded(value, page_size);
    let once: usize = rounded(value, page_size) as usize;
    lemma_rounded(once, page_size);
    let q: int = dividend(value, page_size) / p;
    let r: int = dividend(once, page_size) / p;
    assert(q == r) by (nonlinear_arith)
        requires
            p > 0,
            q * p - p < r * p < q * p + p,
    ;
}

} // verus!
