//! Amounts as mathematical integers: what fits in an `i128`, division that
//! rounds toward zero, shares in basis points, and sums.

use vstd::prelude::*;

use crate::types::{VouchRecord, BPS_DENOMINATOR};

verus! {

/// Whether the integer can be held in an `i128`.
pub open spec fn fits(x: int) -> bool {
    i128::MIN <= x <= i128::MAX
}

/// The quotient of `a` by a positive `d`, rounded toward zero.
pub open spec fn trunc_div(a: int, d: int) -> int {
    if a >= 0 {
        a / d
    } else {
        -((-a) / d)
    }
}

/// The share of `amount` that `bps` basis points are, rounded toward zero.
pub open spec fn bps_share(amount: int, bps: int) -> int {
    trunc_div(amount * bps, BPS_DENOMINATOR as int)
}

/// The sum of a sequence of amounts.
pub open spec fn sum(amounts: Seq<i128>) -> int
    decreases amounts.len(),
{
    if amounts.len() == 0 {
        0
    } else {
        sum(amounts.drop_last()) + amounts.last()
    }
}

/// The sum of the stakes of a sequence of vouches.
pub open spec fn total_stake(vouches: Seq<VouchRecord>) -> int
    decreases vouches.len(),
{
    if vouches.len() == 0 {
        0
    } else {
        total_stake(vouches.drop_last()) + vouches.last().stake
    }
}

/// Whether the stakes can be added up from left to right in an `i128`.
pub open spec fn stakes_fit(vouches: Seq<VouchRecord>) -> bool {
    forall|n: int| 0 <= n <= vouches.len() ==> fits(#[trigger] total_stake(vouches.take(n)))
}

/// `bps` basis points of `amount`, or `None` where the product overflows.
pub fn checked_bps_share(amount: i128, bps: i128) -> (share: Option<i128>)
    ensures
        share matches Some(x) ==> fits(amount * bps) && x == bps_share(amount as int, bps as int),
        share is None ==> !fits(amount * bps),
{
    match amount.checked_mul(bps) {
        Some(product) => Some(product / BPS_DENOMINATOR),
        None => None,
    }
}

/// The sum of the stakes, or `None` where adding them up overflows.
pub fn checked_total_stake(vouches: &Vec<VouchRecord>) -> (total: Option<i128>)
    ensures
        total matches Some(x) ==> stakes_fit(vouches@) && x == total_stake(vouches@),
        total is None ==> !stakes_fit(vouches@),
{
    let mut total: i128 = 0;
    let mut i: usize = 0;
    while i < vouches.len()
        invariant
            i <= vouches.len(),
            total == total_stake(vouches@.take(i as int)),
            forall|n: int| 0 <= n <= i ==> fits(#[trigger] total_stake(vouches@.take(n))),
        decreases vouches.len() - i,
    {
        assert(vouches@.take(i + 1).drop_last() =~= vouches@.take(i as int));
        match total.checked_add(vouches[i].stake) {
            Some(next) => {
                total = next;
            },
            None => {
                assert(!fits(total_stake(vouches@.take(i + 1))));
                return None;
            },
        }
        i += 1;
    }
    assert(vouches@.take(i as int) =~= vouches@);
    Some(total)
}

} // verus!
