//! Laws of loan pools, told from what is stored and what is asked for: which
//! pools come about, why the others do not, and what a pool leaves behind.

use vstd::prelude::*;

use crate::arith::{fits, sum};
use crate::contract::QuorumCreditContract;
use crate::env::{Env, EnvView};
use crate::errors::{ContractError, Trap};
use crate::host::{host_items, read_amounts, readable};
use crate::laws::amounts::{
    added, adds_up, as_ints, is_i128, law_division_rounds_toward_zero, law_share_in_basis_points,
    law_sum_adds_up, law_total_stake_adds_up, rounds_to, stakes,
};
use crate::laws::pool::{is_last_for, law_pool_loans, pool_loan_id};
use crate::laws::settling::{owes, stored_vouches};
use crate::pool::{lemma_pool_loans_frame, PoolStop};
use crate::types::{Address, EffectView, EventView, LoanPoolView, LoanView};

verus! {

/// The stakes behind a borrower, added up and multiplied by the ratio, in
/// percent, up to which they can be lent on.
pub open spec fn backing(env: EnvView, borrower: Address) -> int {
    added(stakes(stored_vouches(env, borrower))) * env.config->0.max_loan_to_stake_ratio
}

/// Whether the backing can be computed in an `i128`.
pub open spec fn backing_is_computable(env: EnvView, borrower: Address) -> bool {
    adds_up(stakes(stored_vouches(env, borrower))) && is_i128(backing(env, borrower))
}

/// Whether an amount is within a backing in percent, which is rounded toward
/// zero.
pub open spec fn is_backed(amount: i128, backing: int) -> bool {
    if backing >= 0 {
        100 * amount <= backing
    } else {
        100 * (amount - 1) < backing
    }
}

/// Whether a loan may be made: it is not below the minimum, the borrower owes
/// nothing, and the stakes back it.
pub open spec fn may_borrow(env: EnvView, borrower: Address, amount: i128) -> bool {
    &&& amount >= env.config->0.min_loan_amount
    &&& !owes(env, borrower)
    &&& backing_is_computable(env, borrower)
    &&& is_backed(amount, backing(env, borrower))
}

/// Whether a loan is refused for this reason: it is the first that holds of
/// being below the minimum, owing already, a backing that cannot be computed,
/// and a backing that is too small.
pub open spec fn is_refused(
    env: EnvView,
    borrower: Address,
    amount: i128,
    reason: PoolStop,
) -> bool {
    let least = env.config->0.min_loan_amount;
    ||| reason == PoolStop::Trap(Trap::AmountBelowMinimum) && amount < least
    ||| reason == PoolStop::Error(ContractError::PoolBorrowerActiveLoan) && amount >= least && owes(
        env,
        borrower,
    )
    ||| reason == PoolStop::Trap(Trap::Overflow) && amount >= least && !owes(env, borrower)
        && !backing_is_computable(env, borrower)
    ||| reason == PoolStop::Trap(Trap::AboveCollateralRatio) && amount >= least && !owes(
        env,
        borrower,
    ) && backing_is_computable(env, borrower) && !is_backed(amount, backing(env, borrower))
}

/// A loan of a pool is accepted exactly if it may be made, and refused exactly
/// for the first reason against it. Where the stakes add up, the amount is too
/// large exactly if a hundred times the amount is more than the stakes times
/// the configured ratio, up to the rounding of a negative product.
pub proof fn law_pool_loan_is_accepted(env: EnvView, borrower: Address, amount: i128)
    ensures
        env.pool_item_stop(borrower, amount) is None <==> may_borrow(env, borrower, amount),
        forall|reason: PoolStop|
            env.pool_item_stop(borrower, amount) == Some(reason) <==> #[trigger] is_refused(
                env,
                borrower,
                amount,
                reason,
            ),
{
    let vouches = stored_vouches(env, borrower);
    assert(vouches =~= env.vouches_for(borrower));
    law_total_stake_adds_up(vouches);
    law_division_rounds_toward_zero(backing(env, borrower), 100);
}

/// Whether the first `n` loans may be made, and their amounts added up.
pub open spec fn all_may_borrow(
    env: EnvView,
    borrowers: Seq<Address>,
    amounts: Seq<i128>,
    n: int,
) -> bool {
    &&& forall|i: int|
        #![trigger amounts[i]]
        0 <= i < n ==> may_borrow(env, borrowers[i], amounts[i])
    &&& adds_up(as_ints(amounts.take(n)))
}

/// Whether the loan at index `k` is the first that is refused, and why: for a
/// reason of its own, or because its amount cannot be added to those before.
pub open spec fn is_first_refused(
    env: EnvView,
    borrowers: Seq<Address>,
    amounts: Seq<i128>,
    k: int,
    reason: PoolStop,
) -> bool {
    &&& all_may_borrow(env, borrowers, amounts, k)
    &&& is_refused(env, borrowers[k], amounts[k], reason) || (may_borrow(
        env,
        borrowers[k],
        amounts[k],
    ) && !is_i128(added(as_ints(amounts.take(k + 1)))) && reason == PoolStop::Trap(Trap::Overflow))
}

/// One amount more can be added up exactly if the amounts before it can, and
/// the new sum is one of an `i128`.
proof fn lemma_adds_up_step(amounts: Seq<i128>, n: int)
    requires
        0 <= n < amounts.len(),
    ensures
        adds_up(as_ints(amounts.take(n + 1))) <==> adds_up(as_ints(amounts.take(n))) && is_i128(
            added(as_ints(amounts.take(n + 1))),
        ),
{
    let less = as_ints(amounts.take(n));
    let more = as_ints(amounts.take(n + 1));
    assert forall|m: int| 0 <= m <= n implies #[trigger] less.take(m) == more.take(m) by {
        assert(less.take(m) =~= more.take(m));
    }
    assert(more.take(n + 1) =~= more);
    if adds_up(more) {
        assert forall|m: int| 0 <= m <= less.len() implies is_i128(
            #[trigger] added(less.take(m)),
        ) by {
            assert(is_i128(added(more.take(m))));
        }
        assert(is_i128(added(more.take(n + 1))));
    }
    if adds_up(less) && is_i128(added(more)) {
        assert forall|m: int| 0 <= m <= more.len() implies is_i128(
            #[trigger] added(more.take(m)),
        ) by {
            if m <= n {
                assert(is_i128(added(less.take(m))));
            }
        }
    }
}

/// Going through the first `n` loans finds nothing exactly if all of them may
/// be made.
proof fn lemma_scan(env: EnvView, borrowers: Seq<Address>, amounts: Seq<i128>, n: nat)
    requires
        n <= amounts.len(),
    ensures
        env.pool_scan(borrowers, amounts, n) is None <==> all_may_borrow(
            env,
            borrowers,
            amounts,
            n as int,
        ),
    decreases n,
{
    if n == 0 {
        assert(as_ints(amounts.take(0)) =~= Seq::empty());
        assert forall|m: int| 0 <= m <= as_ints(amounts.take(0)).len() implies is_i128(
            #[trigger] added(as_ints(amounts.take(0)).take(m)),
        ) by {
            assert(as_ints(amounts.take(0)).take(m) =~= Seq::empty());
        }
    } else {
        let i = n - 1;
        lemma_scan(env, borrowers, amounts, i as nat);
        law_pool_loan_is_accepted(env, borrowers[i], amounts[i]);
        law_sum_adds_up(amounts.take(n as int));
        lemma_adds_up_step(amounts, i);
        if all_may_borrow(env, borrowers, amounts, n as int) {
            assert(may_borrow(env, borrowers[i], amounts[i]));
            assert(all_may_borrow(env, borrowers, amounts, i));
        }
    }
}

/// Going through the loans finds the first that is refused.
proof fn lemma_scan_refused(
    env: EnvView,
    borrowers: Seq<Address>,
    amounts: Seq<i128>,
    k: int,
    reason: PoolStop,
    n: nat,
)
    requires
        0 <= k < n <= amounts.len(),
        is_first_refused(env, borrowers, amounts, k, reason),
    ensures
        env.pool_scan(borrowers, amounts, n) == Some(reason),
    decreases n,
{
    if k < n - 1 {
        lemma_scan_refused(env, borrowers, amounts, k, reason, (n - 1) as nat);
    } else {
        lemma_scan(env, borrowers, amounts, k as nat);
        law_pool_loan_is_accepted(env, borrowers[k], amounts[k]);
        law_sum_adds_up(amounts.take(n as int));
        assert(env.pool_item_stop(borrowers[k], amounts[k]) == Some(reason) <==> is_refused(
            env,
            borrowers[k],
            amounts[k],
            reason,
        ));
    }
}

/// How many ids a counter has given out.
pub open spec fn given_out(counter: Option<u64>) -> int {
    match counter {
        Some(id) => id as int,
        None => 0,
    }
}

/// Whether the loans that are made now have a deadline.
pub open spec fn deadline_is_computable(env: EnvView) -> bool {
    env.timestamp + env.config->0.loan_duration <= 0xffff_ffff_ffff_ffff
}

/// Whether there are ids for a pool's loans, and their yields can be computed.
pub open spec fn loans_are_computable(env: EnvView, amounts: Seq<i128>) -> bool {
    &&& given_out(env.loan_counter) + amounts.len() <= 0xffff_ffff_ffff_ffff
    &&& forall|i: int|
        0 <= i < amounts.len() ==> is_i128(#[trigger] amounts[i] * env.config->0.yield_bps)
}

/// Whether a pool may be made: there are as many amounts as borrowers and at
/// least one, a configuration, a deadline, each loan may be made, the balance
/// covers them together, and there are ids and yields for all.
pub open spec fn may_pool(env: EnvView, borrowers: Seq<Address>, amounts: Seq<i128>) -> bool {
    &&& borrowers.len() == amounts.len()
    &&& amounts.len() > 0
    &&& env.config is Some
    &&& deadline_is_computable(env)
    &&& all_may_borrow(env, borrowers, amounts, amounts.len() as int)
    &&& added(as_ints(amounts)) <= env.contract_balance
    &&& given_out(env.loan_pool_counter) < 0xffff_ffff_ffff_ffff
    &&& loans_are_computable(env, amounts)
}

/// Whether a pool is refused for this reason, which is the first of these: the
/// numbers of borrowers and amounts differ, there are none, there is no
/// configuration, there is no deadline, what stands against the first loan that
/// is refused, the balance does not cover the loans, there is no pool id, and
/// the loans' ids or yields cannot be computed.
pub open spec fn is_pool_refused(
    env: EnvView,
    borrowers: Seq<Address>,
    amounts: Seq<i128>,
    reason: PoolStop,
) -> bool {
    let n = amounts.len();
    let passed = is_ready(env, borrowers, n) && all_may_borrow(env, borrowers, amounts, n as int);
    let covered = passed && added(as_ints(amounts)) <= env.contract_balance;
    let counted = covered && given_out(env.loan_pool_counter) < 0xffff_ffff_ffff_ffff;
    ||| is_request_refused(env, borrowers, n, reason)
    ||| is_ready(env, borrowers, n) && exists|k: int|
        0 <= k < n && #[trigger] is_first_refused(env, borrowers, amounts, k, reason)
    ||| reason == PoolStop::Error(ContractError::PoolInsufficientFunds) && passed && !covered
    ||| reason == PoolStop::Trap(Trap::PoolIdOverflow) && covered && !counted
    ||| reason == PoolStop::Trap(Trap::Overflow) && counted && !loans_are_computable(env, amounts)
}

/// Whether the loans of a request for `n` of them are looked at.
pub open spec fn is_ready(env: EnvView, borrowers: Seq<Address>, n: nat) -> bool {
    borrowers.len() == n && n > 0 && env.config is Some && deadline_is_computable(env)
}

/// Whether a request for `n` loans is refused for this reason before they are
/// looked at.
pub open spec fn is_request_refused(
    env: EnvView,
    borrowers: Seq<Address>,
    n: nat,
    reason: PoolStop,
) -> bool {
    let shaped = borrowers.len() == n && n > 0;
    ||| reason == PoolStop::Error(ContractError::PoolLengthMismatch) && borrowers.len() != n
    ||| reason == PoolStop::Error(ContractError::PoolEmpty) && borrowers.len() == n && n == 0
    ||| reason == PoolStop::Trap(Trap::NotInitialized) && shaped && env.config is None
    ||| reason == PoolStop::Trap(Trap::Overflow) && shaped && env.config is Some
        && !deadline_is_computable(env)
}

/// Going through the loans finds exactly the reason of the first refused one.
proof fn lemma_scan_reason(
    env: EnvView,
    borrowers: Seq<Address>,
    amounts: Seq<i128>,
    reason: PoolStop,
)
    ensures
        env.pool_scan(borrowers, amounts, amounts.len()) == Some(reason) <==> exists|k: int|
            0 <= k < amounts.len() && #[trigger] is_first_refused(
                env,
                borrowers,
                amounts,
                k,
                reason,
            ),
{
    let n = amounts.len();
    lemma_scan(env, borrowers, amounts, n);
    if exists|k: int|
        0 <= k < n && #[trigger] is_first_refused(env, borrowers, amounts, k, reason) {
        let k = choose|k: int|
            0 <= k < n && #[trigger] is_first_refused(env, borrowers, amounts, k, reason);
        lemma_scan_refused(env, borrowers, amounts, k, reason, n);
    }
    if env.pool_scan(borrowers, amounts, n) == Some(reason) {
        let (k, first) = lemma_first_refused(env, borrowers, amounts, n as int);
        lemma_scan_refused(env, borrowers, amounts, k, first, n);
        assert(is_first_refused(env, borrowers, amounts, k, reason));
    }
}

/// What stands against a pool, and when nothing does.
proof fn lemma_pool_stop(env: EnvView, borrowers: Seq<Address>, amounts: Seq<i128>)
    ensures
        env.pool_stop(borrowers, amounts) is None <==> may_pool(env, borrowers, amounts),
        forall|reason: PoolStop|
            env.pool_stop(borrowers, amounts) == Some(reason) <==> #[trigger] is_pool_refused(
                env,
                borrowers,
                amounts,
                reason,
            ),
{
    let n = amounts.len();
    law_sum_adds_up(amounts);
    if borrowers.len() == n {
        lemma_scan(env, borrowers, amounts, n);
        if !loans_are_computable(env, amounts) && given_out(env.loan_counter) + n
            <= 0xffff_ffff_ffff_ffff {
            let i = choose|i: int|
                0 <= i < n && !is_i128(#[trigger] amounts[i] * env.config->0.yield_bps);
            assert(!fits(amounts[i] * env.config->0.yield_bps));
        }
    }
    assert forall|reason: PoolStop|
        env.pool_stop(borrowers, amounts) == Some(reason) <==> #[trigger] is_pool_refused(
            env,
            borrowers,
            amounts,
            reason,
        ) by {
        lemma_scan_reason(env, borrowers, amounts, reason);
    }
}

/// A request for a pool either may be made or is refused, and it is refused for
/// one reason only.
pub proof fn law_pool_is_made_or_refused(
    env: EnvView,
    borrowers: Seq<Address>,
    amounts: Seq<i128>,
    reason: PoolStop,
    other: PoolStop,
)
    ensures
        may_pool(env, borrowers, amounts) <==> !exists|some: PoolStop| #[trigger]
            is_pool_refused(env, borrowers, amounts, some),
        is_pool_refused(env, borrowers, amounts, reason) && is_pool_refused(
            env,
            borrowers,
            amounts,
            other,
        ) ==> reason == other,
{
    lemma_pool_stop(env, borrowers, amounts);
    let stop = env.pool_stop(borrowers, amounts);
    if stop is Some {
        assert(is_pool_refused(env, borrowers, amounts, stop->0));
    }
}

/// Told whether making a pool aborts, the answer is the trap for which the pool
/// is refused, and that it does not where it is refused with an error or may be
/// made.
pub proof fn law_pool_is_possible(
    env: &Env,
    borrowers: &Vec<Address>,
    amounts: &Vec<i128>,
    trap: Option<Trap>,
    some: Trap,
)
    requires
        call_ensures(
            QuorumCreditContract::create_loan_pool_trap,
            (env, borrowers, amounts),
            trap,
        ),
    ensures
        trap == Some(some) <==> is_pool_refused(
            env@,
            borrowers@,
            amounts@,
            PoolStop::Trap(some),
        ),
        may_pool(env@, borrowers@, amounts@) ==> trap is None,
{
    lemma_pool_stop(env@, borrowers@, amounts@);
}

/// Of a pool against which nothing else stands, and whose borrowers' stakes are
/// not negative, it is told that the loans are above the ratio exactly if for
/// one of them a hundred times the amount is more than the borrower's stakes,
/// added up, times the configured ratio.
pub proof fn law_collateral_ratio(
    env: &Env,
    borrowers: &Vec<Address>,
    amounts: &Vec<i128>,
    trap: Option<Trap>,
)
    requires
        is_ready(env@, borrowers@, amounts@.len()),
        adds_up(as_ints(amounts@)),
        forall|i: int|
            0 <= i < amounts@.len() ==> {
                &&& #[trigger] amounts@[i] >= env@.config->0.min_loan_amount
                &&& !owes(env@, borrowers@[i])
                &&& backing_is_computable(env@, borrowers@[i])
                &&& backing(env@, borrowers@[i]) >= 0
            },
        call_ensures(
            QuorumCreditContract::create_loan_pool_trap,
            (env, borrowers, amounts),
            trap,
        ),
    ensures
        trap == Some(Trap::AboveCollateralRatio) <==> exists|i: int|
            0 <= i < amounts@.len() && 100 * #[trigger] amounts@[i] > added(
                stakes(stored_vouches(env@, borrowers@[i])),
            ) * env@.config->0.max_loan_to_stake_ratio,
{
    let n = amounts@.len() as int;
    lemma_pool_stop(env@, borrowers@, amounts@);
    assert(amounts@.take(n) =~= amounts@);
    if all_may_borrow(env@, borrowers@, amounts@, n) {
        assert forall|i: int| 0 <= i < n implies 100 * #[trigger] amounts@[i] <= backing(
            env@,
            borrowers@[i],
        ) by {
            assert(may_borrow(env@, borrowers@[i], amounts@[i]));
        }
        lemma_scan(env@, borrowers@, amounts@, n as nat);
    } else {
        let (k, reason) = lemma_first_refused(env@, borrowers@, amounts@, n);
        assert(is_pool_refused(env@, borrowers@, amounts@, reason));
        lemma_prefix_adds_up(amounts@, k + 1);
        assert(amounts@[k] >= env@.config->0.min_loan_amount);
        assert(reason == PoolStop::Trap(Trap::AboveCollateralRatio));
    }
}

/// Where amounts can be added up, so can the first of them.
proof fn lemma_prefix_adds_up(amounts: Seq<i128>, n: int)
    requires
        0 <= n <= amounts.len(),
        adds_up(as_ints(amounts)),
    ensures
        is_i128(added(as_ints(amounts.take(n)))),
{
    assert(as_ints(amounts.take(n)) =~= as_ints(amounts).take(n));
    assert(is_i128(added(as_ints(amounts).take(n))));
}

/// A pool that is refused with an error is answered with that error, and changes
/// nothing.
pub proof fn law_pool_is_refused(
    env: &mut Env,
    borrowers: Vec<Address>,
    amounts: Vec<i128>,
    result: Result<u64, ContractError>,
    error: ContractError,
)
    requires
        borrowers.len() <= 0xffff_ffff,
        is_pool_refused(old(env)@, borrowers@, amounts@, PoolStop::Error(error)),
        call_ensures(QuorumCreditContract::create_loan_pool, (env, borrowers, amounts), result),
    ensures
        call_requires(QuorumCreditContract::create_loan_pool, (env, borrowers, amounts)),
        result == Err::<u64, ContractError>(error),
        final(env)@ == old(env)@,
{
    lemma_pool_stop(old(env)@, borrowers@, amounts@);
}

/// Where not all of the first loans may be made, there is a first that is
/// refused.
proof fn lemma_first_refused(
    env: EnvView,
    borrowers: Seq<Address>,
    amounts: Seq<i128>,
    n: int,
) -> (refused: (int, PoolStop))
    requires
        0 <= n <= amounts.len(),
        !all_may_borrow(env, borrowers, amounts, n),
    ensures
        0 <= refused.0 < n,
        is_first_refused(env, borrowers, amounts, refused.0, refused.1),
    decreases n,
{
    lemma_scan(env, borrowers, amounts, n as nat);
    let k = n - 1;
    lemma_scan(env, borrowers, amounts, k as nat);
    if !all_may_borrow(env, borrowers, amounts, k) {
        lemma_first_refused(env, borrowers, amounts, k)
    } else {
        law_pool_loan_is_accepted(env, borrowers[k], amounts[k]);
        law_sum_adds_up(amounts.take(n));
        let stop = env.pool_item_stop(borrowers[k], amounts[k]);
        if stop is Some {
            assert(is_refused(env, borrowers[k], amounts[k], stop->0));
            (k, stop->0)
        } else {
            lemma_adds_up_step(amounts, k);
            (k, PoolStop::Trap(Trap::Overflow))
        }
    }
}

/// Whether these are the yields of the loans, rounded toward zero.
pub open spec fn are_yields(yields: Seq<int>, amounts: Seq<i128>, yield_bps: i128) -> bool {
    &&& yields.len() == amounts.len()
    &&& forall|i: int|
        0 <= i < yields.len() ==> rounds_to(#[trigger] yields[i], amounts[i] * yield_bps, 10_000)
}

/// What the first `n` loans of a pool ask for.
proof fn lemma_pool_loans_outbox(
    env: EnvView,
    pool_id: u64,
    borrowers: Seq<Address>,
    amounts: Seq<i128>,
    n: nat,
)
    requires
        env.last_loan_id() + n <= u64::MAX,
        n <= borrowers.len(),
        n <= amounts.len(),
    ensures
        ({
            let outbox = env.with_pool_loans(pool_id, borrowers, amounts, n).outbox;
            let start = env.outbox.len() as int;
            &&& outbox.len() == start + 2 * n
            &&& forall|i: int| 0 <= i < start ==> #[trigger] outbox[i] == env.outbox[i]
            &&& forall|i: int|
                #![trigger amounts[i]]
                0 <= i < n ==> {
                    &&& outbox[start + 2 * i] == (EffectView::Transfer {
                        token: env.config->0.token,
                        to: borrowers[i],
                        amount: amounts[i],
                    })
                    &&& outbox[start + 2 * i + 1] == EffectView::Publish(
                        EventView::PoolLoan {
                            pool_id,
                            borrower: borrowers[i],
                            amount: amounts[i],
                            deadline: (env.timestamp + env.config->0.loan_duration) as u64,
                        },
                    )
                }
        }),
    decreases n,
{
    if n > 0 {
        lemma_pool_loans_outbox(env, pool_id, borrowers, amounts, (n - 1) as nat);
        lemma_pool_loans_frame(env, pool_id, borrowers, amounts, (n - 1) as nat);
    }
}

/// Whether the surroundings afterwards are those before with a pool made, of
/// loans with these yields. It has the next pool id, and its loans the next loan
/// ids, in order. It is stored as it was asked for, with the time and the sum of
/// the amounts. Each loan is stored as made now, unpaid, with its yield, in the
/// primary token, for the purpose of a pool, and due after the configured
/// duration; the last loan to a borrower is noted as the active and the latest
/// one. For each loan, in order, its amount is paid out in the primary token and
/// the loan is announced, and at the end the pool is. Nothing else is different.
pub open spec fn is_pooled(
    before: EnvView,
    after: EnvView,
    borrowers: Seq<Address>,
    amounts: Seq<i128>,
    yields: Seq<int>,
) -> bool {
    let n = amounts.len() as int;
    let pool_id = (given_out(before.loan_pool_counter) + 1) as u64;
    let last_id = given_out(before.loan_counter);
    let total = added(as_ints(amounts)) as i128;
    let deadline = (before.timestamp + before.config->0.loan_duration) as u64;
    let token = before.config->0.token;
    let start = before.outbox.len() as int;
    &&& after == (EnvView {
        loan_counter: Some((last_id + n) as u64),
        loan_pool_counter: Some(pool_id),
        loans: after.loans,
        active_loans: after.active_loans,
        latest_loans: after.latest_loans,
        loan_pools: before.loan_pools.insert(
            pool_id,
            LoanPoolView {
                pool_id,
                borrowers,
                amounts,
                created_at: before.timestamp,
                total_disbursed: total,
            },
        ),
        outbox: after.outbox,
        ..before
    })
    &&& forall|i: int|
        #![trigger amounts[i]]
        0 <= i < n ==> {
            let id = (last_id + 1 + i) as u64;
            &&& after.loans.contains_key(id)
            &&& after.loans[id] == (LoanView {
                id,
                borrower: borrowers[i],
                co_borrowers: seq![],
                amount: amounts[i],
                amount_repaid: 0,
                total_yield: yields[i] as i128,
                repaid: false,
                defaulted: false,
                created_at: before.timestamp,
                disbursement_timestamp: before.timestamp,
                repayment_timestamp: None,
                deadline,
                loan_purpose: seq!['p', 'o', 'o', 'l'],
                token_address: token,
            })
        }
    &&& forall|id: u64|
        id <= last_id || id > last_id + n ==> {
            &&& #[trigger] after.loans.contains_key(id) == before.loans.contains_key(id)
            &&& before.loans.contains_key(id) ==> after.loans[id] == before.loans[id]
        }
    &&& forall|i: int| #[trigger]
        is_last_for(borrowers, i, n) ==> {
            let id = (last_id + 1 + i) as u64;
            &&& after.active_loans.contains_key(borrowers[i])
            &&& after.active_loans[borrowers[i]] == id
            &&& after.latest_loans.contains_key(borrowers[i])
            &&& after.latest_loans[borrowers[i]] == id
        }
    &&& forall|x: Address|
        !borrowers.contains(x) ==> {
            &&& #[trigger] after.active_loans.contains_key(x)
                == before.active_loans.contains_key(x)
            &&& before.active_loans.contains_key(x) ==> after.active_loans[x]
                == before.active_loans[x]
            &&& after.latest_loans.contains_key(x) == before.latest_loans.contains_key(x)
            &&& before.latest_loans.contains_key(x) ==> after.latest_loans[x]
                == before.latest_loans[x]
        }
    &&& after.outbox.len() == start + 2 * n + 1
    &&& forall|i: int| 0 <= i < start ==> #[trigger] after.outbox[i] == before.outbox[i]
    &&& forall|i: int|
        #![trigger amounts[i]]
        0 <= i < n ==> {
            &&& after.outbox[start + 2 * i] == (EffectView::Transfer {
                token,
                to: borrowers[i],
                amount: amounts[i],
            })
            &&& after.outbox[start + 2 * i + 1] == EffectView::Publish(
                EventView::PoolLoan {
                    pool_id,
                    borrower: borrowers[i],
                    amount: amounts[i],
                    deadline,
                },
            )
        }
    &&& after.outbox[start + 2 * n] == EffectView::Publish(
        EventView::PoolCreated { pool_id, loans: n as u32, total_amount: total },
    )
}

/// Making a pool that nothing stands against makes it.
proof fn lemma_pooled(
    env: EnvView,
    borrowers: Seq<Address>,
    amounts: Seq<i128>,
    yields: Seq<int>,
)
    requires
        may_pool(env, borrowers, amounts),
        are_yields(yields, amounts, env.config->0.yield_bps),
    ensures
        env.pool_stop(borrowers, amounts) is None,
        env.next_pool_id() == given_out(env.loan_pool_counter) + 1,
        is_pooled(env, env.with_pool(borrowers, amounts), borrowers, amounts, yields),
{
    lemma_pool_stop(env, borrowers, amounts);
    law_pool_loans(env, borrowers, amounts);
    law_sum_adds_up(amounts);
    let n = amounts.len();
    let after = env.with_pool(borrowers, amounts);
    let pool_id = (given_out(env.loan_pool_counter) + 1) as u64;
    let last_id = given_out(env.loan_counter);
    let start = env.outbox.len() as int;
    let deadline = (env.timestamp + env.config->0.loan_duration) as u64;
    let token = env.config->0.token;
    let base = EnvView { loan_pool_counter: Some(pool_id), ..env };
    let lent = base.with_pool_loans(pool_id, borrowers, amounts, n);
    lemma_pool_loans_frame(base, pool_id, borrowers, amounts, n);
    lemma_pool_loans_outbox(base, pool_id, borrowers, amounts, n);
    assert(after.outbox.len() == lent.outbox.len() + 1);
    assert(lent.loan_counter is Some);
    reveal_strlit("pool");
    assert("pool"@ =~= seq!['p', 'o', 'o', 'l']);
    assert forall|i: int| #![trigger amounts[i]] 0 <= i < n implies {
        let id = (last_id + 1 + i) as u64;
        &&& after.loans.contains_key(id)
        &&& after.loans[id] == (LoanView {
            id,
            borrower: borrowers[i],
            co_borrowers: seq![],
            amount: amounts[i],
            amount_repaid: 0,
            total_yield: yields[i] as i128,
            repaid: false,
            defaulted: false,
            created_at: env.timestamp,
            disbursement_timestamp: env.timestamp,
            repayment_timestamp: None,
            deadline,
            loan_purpose: seq!['p', 'o', 'o', 'l'],
            token_address: token,
        })
    } by {
        assert(after.loans.contains_key(pool_loan_id(env, i)));
        law_share_in_basis_points(amounts[i] as int, env.config->0.yield_bps as int);
        assert(rounds_to(yields[i], amounts[i] * env.config->0.yield_bps, 10_000));
    }
    assert forall|i: int| #[trigger] is_last_for(borrowers, i, n as int) implies {
        let id = (last_id + 1 + i) as u64;
        &&& after.active_loans.contains_key(borrowers[i])
        &&& after.active_loans[borrowers[i]] == id
        &&& after.latest_loans.contains_key(borrowers[i])
        &&& after.latest_loans[borrowers[i]] == id
    } by {
        assert(pool_loan_id(env, i) == (last_id + 1 + i) as u64);
    }
}

/// A pool that may be made is made, and its id is returned: one more than the
/// last.
pub proof fn law_pool_result(
    env: &mut Env,
    borrowers: Vec<Address>,
    amounts: Vec<i128>,
    result: Result<u64, ContractError>,
    yields: Seq<int>,
)
    requires
        borrowers.len() <= 0xffff_ffff,
        may_pool(old(env)@, borrowers@, amounts@),
        are_yields(yields, amounts@, old(env)@.config->0.yield_bps),
        call_ensures(QuorumCreditContract::create_loan_pool, (env, borrowers, amounts), result),
    ensures
        call_requires(QuorumCreditContract::create_loan_pool, (env, borrowers, amounts)),
        result matches Ok(id) && id == given_out(old(env)@.loan_pool_counter) + 1,
        is_pooled(old(env)@, final(env)@, borrowers@, amounts@, yields),
{
    lemma_pooled(old(env)@, borrowers@, amounts@, yields);
}

/// Whether these are the amounts up to the first item that is none.
pub open spec fn is_readable_start(amounts: Seq<i128>, items: Seq<Option<i128>>) -> bool {
    &&& amounts.len() <= items.len()
    &&& forall|i: int| 0 <= i < amounts.len() ==> items[i] == Some(#[trigger] amounts[i])
    &&& amounts.len() < items.len() ==> items[amounts.len() as int] is None
}

/// Only one sequence of amounts is the readable start of the items.
proof fn lemma_readable_start(items: Seq<Option<i128>>)
    ensures
        is_readable_start(readable(items), items),
        forall|amounts: Seq<i128>| #[trigger]
            is_readable_start(amounts, items) ==> amounts == readable(items),
    decreases items.len(),
{
    if items.len() > 0 {
        lemma_readable_start(items.drop_last());
    }
    let start = readable(items);
    assert forall|amounts: Seq<i128>| #[trigger] is_readable_start(amounts, items) implies amounts
        == start by {
        if amounts.len() < start.len() {
            assert(items[amounts.len() as int] == Some(start[amounts.len() as int]));
        } else if start.len() < amounts.len() {
            assert(items[start.len() as int] == Some(amounts[start.len() as int]));
        }
        assert forall|i: int| 0 <= i < amounts.len() && i < start.len() implies amounts[i]
            == start[i] by {
            assert(items[i] == Some(amounts[i]));
            assert(items[i] == Some(start[i]));
        }
        assert(amounts =~= start);
    }
}

/// What is read of a host vector is its start up to the first item that is no
/// amount.
pub proof fn law_read_amounts(amounts: &soroban_sdk::Vec<i128>, read: Vec<i128>)
    requires
        call_ensures(read_amounts, (amounts,), read),
    ensures
        call_requires(read_amounts, (amounts,)),
        is_readable_start(read@, host_items(*amounts)),
{
    lemma_readable_start(host_items(*amounts));
}

/// Whether a pool of a host vector is refused for this reason. One of amounts is
/// refused as the amounts are. One with an item that is no amount is refused as
/// any request for so many loans is, then for the first of the readable loans
/// that is refused, and otherwise for that item.
pub open spec fn is_host_pool_refused(
    env: EnvView,
    borrowers: Seq<Address>,
    items: Seq<Option<i128>>,
    amounts: Seq<i128>,
    reason: PoolStop,
) -> bool {
    let m = amounts.len();
    let n = items.len();
    if m == n {
        is_pool_refused(env, borrowers, amounts, reason)
    } else {
        ||| is_request_refused(env, borrowers, n, reason)
        ||| is_ready(env, borrowers, n) && exists|k: int|
            0 <= k < m && #[trigger] is_first_refused(env, borrowers, amounts, k, reason)
        ||| reason == PoolStop::Trap(Trap::UnreadableAmount) && is_ready(env, borrowers, n)
            && all_may_borrow(env, borrowers, amounts, m as int)
    }
}

/// A pool of a host vector that is refused is answered with the reason, as an
/// error or as the trap that aborts, and changes nothing.
pub proof fn law_host_pool_is_refused(
    env: &mut Env,
    borrowers: Vec<Address>,
    host_amounts: &soroban_sdk::Vec<i128>,
    result: Result<Result<u64, ContractError>, Trap>,
    amounts: Seq<i128>,
    reason: PoolStop,
)
    requires
        is_readable_start(amounts, host_items(*host_amounts)),
        is_host_pool_refused(
            old(env)@,
            borrowers@,
            host_items(*host_amounts),
            amounts,
            reason,
        ),
        call_ensures(
            QuorumCreditContract::create_loan_pool_from_host,
            (env, borrowers, host_amounts),
            result,
        ),
    ensures
        call_requires(
            QuorumCreditContract::create_loan_pool_from_host,
            (env, borrowers, host_amounts),
        ),
        final(env)@ == old(env)@,
        match reason {
            PoolStop::Error(error) => result == Ok::<Result<u64, ContractError>, Trap>(Err(error)),
            PoolStop::Trap(trap) => result == Err::<Result<u64, ContractError>, Trap>(trap),
        },
{
    let items = host_items(*host_amounts);
    lemma_readable_start(items);
    lemma_pool_stop(old(env)@, borrowers@, amounts);
    lemma_scan(old(env)@, borrowers@, amounts, amounts.len());
    lemma_scan_reason(old(env)@, borrowers@, amounts, reason);
    assert(old(env)@.host_pool_stop(borrowers@, items) == Some(reason));
}

/// A pool of a host vector of amounts that may be made is made, and its id is
/// returned.
pub proof fn law_host_pool_result(
    env: &mut Env,
    borrowers: Vec<Address>,
    host_amounts: &soroban_sdk::Vec<i128>,
    result: Result<Result<u64, ContractError>, Trap>,
    amounts: Seq<i128>,
    yields: Seq<int>,
)
    requires
        is_readable_start(amounts, host_items(*host_amounts)),
        amounts.len() == host_items(*host_amounts).len(),
        may_pool(old(env)@, borrowers@, amounts),
        are_yields(yields, amounts, old(env)@.config->0.yield_bps),
        call_ensures(
            QuorumCreditContract::create_loan_pool_from_host,
            (env, borrowers, host_amounts),
            result,
        ),
    ensures
        result matches Ok(made) && made matches Ok(id) && id == given_out(
            old(env)@.loan_pool_counter,
        ) + 1,
        is_pooled(old(env)@, final(env)@, borrowers@, amounts, yields),
{
    lemma_readable_start(host_items(*host_amounts));
    lemma_pooled(old(env)@, borrowers@, amounts, yields);
}

} // verus!
