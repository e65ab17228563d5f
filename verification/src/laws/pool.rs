//! Laws of loan pools.

use vstd::prelude::*;

use crate::arith::{fits, sum};
use crate::env::EnvView;
use crate::errors::ContractError;
use crate::host::readable;
use crate::laws::settlement::{paid_in, payment};
use crate::pool::{lemma_pool_loans_frame, PoolStop};
use crate::types::Address;

verus! {

/// The id that the loan at index `i` of the next pool gets.
pub open spec fn pool_loan_id(env: EnvView, i: int) -> u64 {
    (env.last_loan_id() + 1 + i) as u64
}

/// Whether the loan at index `i` is the last of the first `n` loans that goes
/// to its borrower.
pub open spec fn is_last_for(borrowers: Seq<Address>, i: int, n: int) -> bool {
    0 <= i < n && forall|j: int| i < j < n ==> borrowers[j] != #[trigger] borrowers[i]
}

/// What one loan of a pool pays out.
proof fn lemma_pool_loan_paid(env: EnvView, pool_id: u64, borrower: Address, amount: i128)
    ensures
        paid_in(
            env.with_pool_loan(pool_id, borrower, amount).outbox,
            env.config->0.token,
        ) == paid_in(env.outbox, env.config->0.token) + amount,
{
    let after = env.with_pool_loan(pool_id, borrower, amount).outbox;
    let token = env.config->0.token;
    assert(after.drop_last().drop_last() =~= env.outbox);
    assert(after.len() == env.outbox.len() + 2);
    assert(paid_in(after, token) == paid_in(after.drop_last(), token) + payment(
        after.last(),
        token,
    ));
}

/// The first `n` loans of a pool, all together.
proof fn lemma_pool_loans(
    env: EnvView,
    pool_id: u64,
    borrowers: Seq<Address>,
    amounts: Seq<i128>,
    n: nat,
)
    requires
        env.last_loan_id() + n <= u64::MAX,
        n <= borrowers.len(),
        n <= amounts.len(),
    ensures
        ({
            let after = env.with_pool_loans(pool_id, borrowers, amounts, n);
            &&& forall|i: int|
                0 <= i < n ==> {
                    &&& after.loans.contains_key(#[trigger] pool_loan_id(env, i))
                    &&& after.loans[pool_loan_id(env, i)] == env.pool_loan(
                        pool_loan_id(env, i),
                        borrowers[i],
                        amounts[i],
                    )
                }
            &&& forall|id: u64|
                !(env.last_loan_id() < id <= env.last_loan_id() + n) ==> {
                    &&& #[trigger] after.loans.contains_key(id) == env.loans.contains_key(id)
                    &&& env.loans.contains_key(id) ==> after.loans[id] == env.loans[id]
                }
            &&& forall|i: int| #[trigger]
                is_last_for(borrowers, i, n as int) ==> {
                    &&& after.active_loans.contains_key(borrowers[i])
                    &&& after.active_loans[borrowers[i]] == pool_loan_id(env, i)
                    &&& after.latest_loans.contains_key(borrowers[i])
                    &&& after.latest_loans[borrowers[i]] == pool_loan_id(env, i)
                }
            &&& forall|x: Address|
                (forall|i: int| 0 <= i < n ==> borrowers[i] != x) ==> {
                    &&& #[trigger] after.active_loans.contains_key(x)
                        == env.active_loans.contains_key(x)
                    &&& env.active_loans.contains_key(x) ==> after.active_loans[x]
                        == env.active_loans[x]
                    &&& after.latest_loans.contains_key(x) == env.latest_loans.contains_key(x)
                    &&& env.latest_loans.contains_key(x) ==> after.latest_loans[x]
                        == env.latest_loans[x]
                }
            &&& paid_in(after.outbox, env.config->0.token) == paid_in(
                env.outbox,
                env.config->0.token,
            ) + sum(amounts.take(n as int))
        }),
    decreases n,
{
    if n > 0 {
        let m = (n - 1) as nat;
        lemma_pool_loans(env, pool_id, borrowers, amounts, m);
        lemma_pool_loans_frame(env, pool_id, borrowers, amounts, m);
        let middle = env.with_pool_loans(pool_id, borrowers, amounts, m);
        let after = env.with_pool_loans(pool_id, borrowers, amounts, n);
        lemma_pool_loan_paid(middle, pool_id, borrowers[m as int], amounts[m as int]);
        assert(amounts.take(n as int).drop_last() =~= amounts.take(m as int));
        assert forall|i: int| #[trigger] is_last_for(borrowers, i, n as int) implies {
            &&& after.active_loans.contains_key(borrowers[i])
            &&& after.active_loans[borrowers[i]] == pool_loan_id(env, i)
            &&& after.latest_loans.contains_key(borrowers[i])
            &&& after.latest_loans[borrowers[i]] == pool_loan_id(env, i)
        } by {
            if i < m {
                assert(is_last_for(borrowers, i, m as int));
                assert(borrowers[m as int] != borrowers[i]);
            }
        }
    }
}

/// Every loan of a pool keeps the limits: it is not below the minimum, not above
/// what the borrower's stakes allow, goes to a borrower without an active loan,
/// and all of them together do not exceed the contract's balance.
pub proof fn law_pool_keeps_limits(env: EnvView, borrowers: Seq<Address>, amounts: Seq<i128>)
    requires
        env.pool_stop(borrowers, amounts) is None,
    ensures
        borrowers.len() == amounts.len(),
        borrowers.len() > 0,
        forall|i: int|
            0 <= i < borrowers.len() ==> {
                &&& #[trigger] amounts[i] >= env.config->0.min_loan_amount
                &&& amounts[i] <= env.max_loan(borrowers[i])
                &&& !env.has_active_loan(borrowers[i])
            },
        fits(sum(amounts)),
        sum(amounts) <= env.contract_balance,
{
    let n = borrowers.len();
    assert(amounts.take(n as int) =~= amounts);
    assert forall|i: int| 0 <= i < n implies {
        &&& #[trigger] amounts[i] >= env.config->0.min_loan_amount
        &&& amounts[i] <= env.max_loan(borrowers[i])
        &&& !env.has_active_loan(borrowers[i])
    } by {
        lemma_scan_passed(env, borrowers, amounts, i, n);
    }
}

/// Where nothing stands against the first `n` loans, nothing stands against
/// each of them.
proof fn lemma_scan_passed(
    env: EnvView,
    borrowers: Seq<Address>,
    amounts: Seq<i128>,
    i: int,
    n: nat,
)
    requires
        env.pool_scan(borrowers, amounts, n) is None,
        0 <= i < n,
    ensures
        env.pool_item_stop(borrowers[i], amounts[i]) is None,
    decreases n,
{
    if i < n - 1 {
        lemma_scan_passed(env, borrowers, amounts, i, (n - 1) as nat);
    }
}

/// A pool disburses exactly the sum of its amounts, which is the total that its
/// record gives.
pub proof fn law_pool_disburses_its_total(
    env: EnvView,
    borrowers: Seq<Address>,
    amounts: Seq<i128>,
)
    requires
        env.pool_stop(borrowers, amounts) is None,
    ensures
        ({
            let token = env.config->0.token;
            let after = env.with_pool(borrowers, amounts);
            &&& paid_in(after.outbox, token) - paid_in(env.outbox, token) == sum(amounts)
            &&& after.loan_pools[env.next_pool_id()].total_disbursed == sum(amounts)
        }),
{
    law_pool_keeps_limits(env, borrowers, amounts);
    let pool_id = env.next_pool_id();
    let base = EnvView { loan_pool_counter: Some(pool_id), ..env };
    let n = borrowers.len();
    lemma_pool_loans(base, pool_id, borrowers, amounts, n);
    assert(amounts.take(n as int) =~= amounts);
    let lent = base.with_pool_loans(pool_id, borrowers, amounts, n);
    let after = env.with_pool(borrowers, amounts);
    assert(after.outbox.drop_last() =~= lent.outbox);
}

/// A pool makes its loans in order under consecutive new ids. Each record says
/// what was lent to whom, when, at what yield and until when; the last loan to
/// a borrower is the borrower's active and latest one. No loan with another id,
/// and no other borrower's notes, change.
pub proof fn law_pool_loans(env: EnvView, borrowers: Seq<Address>, amounts: Seq<i128>)
    requires
        env.pool_stop(borrowers, amounts) is None,
    ensures
        ({
            let after = env.with_pool(borrowers, amounts);
            let n = borrowers.len() as int;
            &&& after.last_loan_id() == env.last_loan_id() + n
            &&& forall|i: int|
                0 <= i < n ==> {
                    &&& after.loans.contains_key(#[trigger] pool_loan_id(env, i))
                    &&& after.loans[pool_loan_id(env, i)] == env.pool_loan(
                        pool_loan_id(env, i),
                        borrowers[i],
                        amounts[i],
                    )
                }
            &&& forall|id: u64|
                !(env.last_loan_id() < id <= env.last_loan_id() + n) ==> {
                    &&& #[trigger] after.loans.contains_key(id) == env.loans.contains_key(id)
                    &&& env.loans.contains_key(id) ==> after.loans[id] == env.loans[id]
                }
            &&& forall|i: int| #[trigger]
                is_last_for(borrowers, i, n) ==> {
                    &&& after.active_loans.contains_key(borrowers[i])
                    &&& after.active_loans[borrowers[i]] == pool_loan_id(env, i)
                    &&& after.latest_loans.contains_key(borrowers[i])
                    &&& after.latest_loans[borrowers[i]] == pool_loan_id(env, i)
                }
            &&& forall|x: Address|
                !borrowers.contains(x) ==> {
                    &&& #[trigger] after.active_loans.contains_key(x)
                        == env.active_loans.contains_key(x)
                    &&& env.active_loans.contains_key(x) ==> after.active_loans[x]
                        == env.active_loans[x]
                    &&& after.latest_loans.contains_key(x) == env.latest_loans.contains_key(x)
                    &&& env.latest_loans.contains_key(x) ==> after.latest_loans[x]
                        == env.latest_loans[x]
                }
        }),
{
    let pool_id = env.next_pool_id();
    let base = EnvView { loan_pool_counter: Some(pool_id), ..env };
    let n = borrowers.len();
    lemma_pool_loans(base, pool_id, borrowers, amounts, n);
    lemma_pool_loans_frame(base, pool_id, borrowers, amounts, n);
    let after = env.with_pool(borrowers, amounts);
    assert(base.last_loan_id() == env.last_loan_id());
    assert forall|id: u64| !(env.last_loan_id() < id <= env.last_loan_id() + n) implies {
        &&& #[trigger] after.loans.contains_key(id) == env.loans.contains_key(id)
        &&& env.loans.contains_key(id) ==> after.loans[id] == env.loans[id]
    } by {
        assert(base.with_pool_loans(pool_id, borrowers, amounts, n).loans.contains_key(id)
            == env.loans.contains_key(id));
    }
    assert forall|i: int| 0 <= i < n implies {
        &&& after.loans.contains_key(#[trigger] pool_loan_id(env, i))
        &&& after.loans[pool_loan_id(env, i)] == env.pool_loan(
            pool_loan_id(env, i),
            borrowers[i],
            amounts[i],
        )
    } by {
        assert(pool_loan_id(env, i) == pool_loan_id(base, i));
    }
    assert forall|i: int| #[trigger] is_last_for(borrowers, i, n as int) implies {
        &&& after.active_loans.contains_key(borrowers[i])
        &&& after.active_loans[borrowers[i]] == pool_loan_id(env, i)
        &&& after.latest_loans.contains_key(borrowers[i])
        &&& after.latest_loans[borrowers[i]] == pool_loan_id(env, i)
    } by {
        assert(pool_loan_id(env, i) == pool_loan_id(base, i));
    }
    assert forall|x: Address| !borrowers.contains(x) implies {
        &&& #[trigger] after.active_loans.contains_key(x) == env.active_loans.contains_key(x)
        &&& env.active_loans.contains_key(x) ==> after.active_loans[x] == env.active_loans[x]
        &&& after.latest_loans.contains_key(x) == env.latest_loans.contains_key(x)
        &&& env.latest_loans.contains_key(x) ==> after.latest_loans[x] == env.latest_loans[x]
    } by {
        assert forall|i: int| 0 <= i < n implies borrowers[i] != x by {}
    }
}

/// A pool is stored as it was asked for, under the next pool id, and is counted;
/// the earlier pools stay, and so does everything that is not a loan.
pub proof fn law_pool_is_recorded(env: EnvView, borrowers: Seq<Address>, amounts: Seq<i128>)
    requires
        env.pool_stop(borrowers, amounts) is None,
    ensures
        ({
            let after = env.with_pool(borrowers, amounts);
            &&& after.last_pool_id() == env.last_pool_id() + 1
            &&& after.loan_pools == env.loan_pools.insert(
                env.next_pool_id(),
                env.new_pool(borrowers, amounts),
            )
            &&& after.vouches == env.vouches
            &&& after.slash_treasury == env.slash_treasury
            &&& after.default_counts == env.default_counts
            &&& after.config == env.config
            &&& after.deployer == env.deployer
            &&& after.paused == env.paused
            &&& after.reputation_nft == env.reputation_nft
            &&& after.referral_bonus() == env.referral_bonus()
        }),
{
    let pool_id = env.next_pool_id();
    let base = EnvView { loan_pool_counter: Some(pool_id), ..env };
    lemma_pool_loans_frame(base, pool_id, borrowers, amounts, borrowers.len());
}

/// Whoever got a loan from a pool has an active loan, and is refused another
/// one from a pool until it is settled.
pub proof fn law_pool_borrowers_are_refused_another(
    env: EnvView,
    borrowers: Seq<Address>,
    amounts: Seq<i128>,
    i: int,
    amount: i128,
)
    requires
        env.pool_stop(borrowers, amounts) is None,
        0 <= i < borrowers.len(),
        amount >= env.config->0.min_loan_amount,
    ensures
        ({
            let after = env.with_pool(borrowers, amounts);
            &&& after.has_active_loan(borrowers[i])
            &&& after.pool_item_stop(borrowers[i], amount) == Some(
                PoolStop::Error(ContractError::PoolBorrowerActiveLoan),
            )
        }),
{
    law_pool_loans(env, borrowers, amounts);
    law_pool_is_recorded(env, borrowers, amounts);
    let last = lemma_last_for(borrowers, i, borrowers.len() as int);
    let after = env.with_pool(borrowers, amounts);
    assert(is_last_for(borrowers, last, borrowers.len() as int));
    assert(after.loans.contains_key(pool_loan_id(env, last)));
}

/// Every borrower of a pool has a last loan in it.
pub proof fn lemma_last_for(borrowers: Seq<Address>, i: int, n: int) -> (last: int)
    requires
        0 <= i < n <= borrowers.len(),
    ensures
        is_last_for(borrowers, last, n),
        borrowers[last] == borrowers[i],
    decreases n - i,
{
    if forall|j: int| i < j < n ==> borrowers[j] != borrowers[i] {
        i
    } else {
        let j = choose|j: int| i < j < n && borrowers[j] == borrowers[i];
        lemma_last_for(borrowers, j, n)
    }
}

/// A host vector in which every item is an amount makes the same pool, or fails
/// in the same way, as the amounts themselves.
pub proof fn law_host_amounts_are_amounts(
    env: EnvView,
    borrowers: Seq<Address>,
    amounts: Seq<i128>,
)
    ensures
        ({
            let items = amounts.map_values(|amount: i128| Some(amount));
            &&& readable(items) == amounts
            &&& env.host_pool_stop(borrowers, items) == env.pool_stop(borrowers, amounts)
        }),
{
    lemma_all_readable(amounts);
}

proof fn lemma_all_readable(amounts: Seq<i128>)
    ensures
        readable(amounts.map_values(|amount: i128| Some(amount))) == amounts,
    decreases amounts.len(),
{
    let items = amounts.map_values(|amount: i128| Some(amount));
    if amounts.len() > 0 {
        assert(items.drop_last() =~= amounts.drop_last().map_values(|amount: i128| Some(amount)));
        lemma_all_readable(amounts.drop_last());
        assert(readable(items) =~= amounts);
    } else {
        assert(readable(items) =~= amounts);
    }
}

} // verus!
