//! Laws of amounts, in the words that the other laws use: sums as folds, and
//! rounding toward zero as a pair of bounds.

use vstd::prelude::*;

use crate::arith::{bps_share, fits, stakes_fit, sum, total_stake, trunc_div};
use crate::types::VouchRecord;

verus! {

/// Whether the integer is one of an `i128`.
pub open spec fn is_i128(x: int) -> bool {
    -0x8000_0000_0000_0000_0000_0000_0000_0000 <= x
        <= 0x7fff_ffff_ffff_ffff_ffff_ffff_ffff_ffff
}

/// Whether `x` is `p` parts of `d` each, rounded toward zero: `x` whole parts
/// fit into `p`, and one more, away from zero, does not.
pub open spec fn rounds_to(x: int, p: int, d: int) -> bool {
    if p >= 0 {
        d * x <= p < d * x + d
    } else {
        d * x - d < p <= d * x
    }
}

/// The numbers, added up.
pub open spec fn added(numbers: Seq<int>) -> int {
    numbers.fold_left(0, |total: int, x: int| total + x)
}

/// Whether the numbers can be added up from left to right in an `i128`.
pub open spec fn adds_up(numbers: Seq<int>) -> bool {
    forall|n: int| 0 <= n <= numbers.len() ==> is_i128(#[trigger] added(numbers.take(n)))
}

/// The amounts, as integers.
pub open spec fn as_ints(amounts: Seq<i128>) -> Seq<int> {
    Seq::new(amounts.len(), |i: int| amounts[i] as int)
}

/// The stakes of the vouches, as integers.
pub open spec fn stakes(vouches: Seq<VouchRecord>) -> Seq<int> {
    Seq::new(vouches.len(), |i: int| vouches[i].stake as int)
}

/// Adding one more number adds it.
pub proof fn lemma_added_push(numbers: Seq<int>, x: int)
    ensures
        added(numbers.push(x)) == added(numbers) + x,
{
    assert(numbers.push(x).drop_last() =~= numbers);
}

/// A number is held in an `i128` exactly if it is between the least and the
/// greatest one.
pub proof fn law_fits(x: int)
    ensures
        fits(x) <==> is_i128(x),
{
}

/// The quotient of any number by a positive one is rounded toward zero, and is
/// the only number that is.
pub proof fn law_division_rounds_toward_zero(p: int, d: int)
    requires
        d > 0,
    ensures
        rounds_to(trunc_div(p, d), p, d),
        forall|x: int| #[trigger] rounds_to(x, p, d) ==> x == trunc_div(p, d),
{
    let m = if p >= 0 {
        p
    } else {
        -p
    };
    let q = m / d;
    vstd::arithmetic::div_mod::lemma_fundamental_div_mod(m, d);
    assert(0 <= m % d < d) by {
        vstd::arithmetic::div_mod::lemma_mod_bound(m, d);
    }
    assert(d * q <= m < d * q + d);
    assert(d * (-q) == -(d * q)) by (nonlinear_arith);
    assert forall|x: int| #[trigger] rounds_to(x, p, d) implies x == trunc_div(p, d) by {
        let y = if p >= 0 {
            x
        } else {
            -x
        };
        assert(d * (-x) == -(d * x)) by (nonlinear_arith);
        assert(d * y <= m < d * y + d);
        assert(y == q) by (nonlinear_arith)
            requires
                d > 0,
                d * y <= m < d * y + d,
                d * q <= m < d * q + d,
        ;
    }
}

/// A share in basis points is the product in parts of 10000, rounded toward
/// zero.
pub proof fn law_share_in_basis_points(amount: int, bps: int)
    ensures
        rounds_to(bps_share(amount, bps), amount * bps, 10_000),
        forall|x: int| #[trigger]
            rounds_to(x, amount * bps, 10_000) ==> x == bps_share(amount, bps),
{
    law_division_rounds_toward_zero(amount * bps, 10_000);
}

/// The sum of amounts is the amounts added up.
pub proof fn law_sum_adds_up(amounts: Seq<i128>)
    ensures
        sum(amounts) == added(as_ints(amounts)),
    decreases amounts.len(),
{
    if amounts.len() > 0 {
        let rest = amounts.drop_last();
        law_sum_adds_up(rest);
        lemma_added_push(as_ints(rest), amounts.last() as int);
        assert(as_ints(amounts) =~= as_ints(rest).push(amounts.last() as int));
    }
}

/// The total stake is the stakes added up.
pub proof fn law_total_stake_adds_up(vouches: Seq<VouchRecord>)
    ensures
        total_stake(vouches) == added(stakes(vouches)),
        stakes_fit(vouches) <==> adds_up(stakes(vouches)),
{
    lemma_total_stake(vouches);
    assert forall|n: int| 0 <= n <= vouches.len() implies #[trigger] total_stake(vouches.take(n))
        == added(stakes(vouches).take(n)) by {
        lemma_total_stake(vouches.take(n));
        assert(stakes(vouches.take(n)) =~= stakes(vouches).take(n));
    }
    if stakes_fit(vouches) {
        assert forall|n: int| 0 <= n <= stakes(vouches).len() implies is_i128(
            #[trigger] added(stakes(vouches).take(n)),
        ) by {
            assert(fits(total_stake(vouches.take(n))));
        }
    }
    if adds_up(stakes(vouches)) {
        assert forall|n: int| 0 <= n <= vouches.len() implies fits(
            #[trigger] total_stake(vouches.take(n)),
        ) by {
            assert(is_i128(added(stakes(vouches).take(n))));
        }
    }
}

proof fn lemma_total_stake(vouches: Seq<VouchRecord>)
    ensures
        total_stake(vouches) == added(stakes(vouches)),
    decreases vouches.len(),
{
    if vouches.len() > 0 {
        let rest = vouches.drop_last();
        lemma_total_stake(rest);
        lemma_added_push(stakes(rest), vouches.last().stake as int);
        assert(stakes(vouches) =~= stakes(rest).push(vouches.last().stake as int));
    }
}

} // verus!
