//! Loan pools: a batch of small loans, disbursed together or not at all.

use vstd::prelude::*;

use crate::arith::{bps_share, checked_total_stake, fits, stakes_fit, sum, total_stake, trunc_div};
use crate::contract::QuorumCreditContract;
use crate::env::{Env, EnvView};
use crate::errors::{ContractError, Trap};
use crate::helpers::{config, has_active_loan, next_loan_id};
use crate::types::{
    pool_purpose, Address, Effect, EffectView, Event, EventView, LoanPoolRecord, LoanPoolView,
    LoanRecord, LoanView, BPS_DENOMINATOR,
};

verus! {

/// Why no pool comes about.
#[derive(Clone, Copy, PartialEq, Eq, Debug, Structural)]
pub enum PoolStop {
    /// The request is answered with an error.
    Error(ContractError),
    /// The invocation is aborted.
    Trap(Trap),
}

impl EnvView {
    /// The largest loan that the borrower's stakes allow.
    pub open spec fn max_loan(self, borrower: Address) -> int {
        trunc_div(
            total_stake(self.vouches_for(borrower)) * self.config->0.max_loan_to_stake_ratio,
            100,
        )
    }

    /// What stands against lending the amount to the borrower, if anything.
    pub open spec fn pool_item_stop(self, borrower: Address, amount: i128) -> Option<PoolStop> {
        let vouches = self.vouches_for(borrower);
        if amount < self.config->0.min_loan_amount {
            Some(PoolStop::Trap(Trap::AmountBelowMinimum))
        } else if self.has_active_loan(borrower) {
            Some(PoolStop::Error(ContractError::PoolBorrowerActiveLoan))
        } else if !stakes_fit(vouches) || !fits(
            total_stake(vouches) * self.config->0.max_loan_to_stake_ratio,
        ) {
            Some(PoolStop::Trap(Trap::Overflow))
        } else if amount > self.max_loan(borrower) {
            Some(PoolStop::Trap(Trap::AboveCollateralRatio))
        } else {
            None
        }
    }

    /// The first thing that stands against the first `n` loans, if anything.
    pub open spec fn pool_scan(
        self,
        borrowers: Seq<Address>,
        amounts: Seq<i128>,
        n: nat,
    ) -> Option<PoolStop>
        decreases n,
    {
        if n == 0 {
            None
        } else {
            let i = n - 1;
            let earlier = self.pool_scan(borrowers, amounts, i as nat);
            if earlier is Some {
                earlier
            } else if self.pool_item_stop(borrowers[i], amounts[i]) is Some {
                self.pool_item_stop(borrowers[i], amounts[i])
            } else if !fits(sum(amounts.take(n as int))) {
                Some(PoolStop::Trap(Trap::Overflow))
            } else {
                None
            }
        }
    }

    /// What stands against a pool before its items are looked at, if anything.
    pub open spec fn pool_shape_stop(self, borrowers: nat, amounts: nat) -> Option<PoolStop> {
        if borrowers != amounts {
            Some(PoolStop::Error(ContractError::PoolLengthMismatch))
        } else if borrowers == 0 {
            Some(PoolStop::Error(ContractError::PoolEmpty))
        } else if self.config is None {
            Some(PoolStop::Trap(Trap::NotInitialized))
        } else if self.timestamp + self.config->0.loan_duration > u64::MAX {
            Some(PoolStop::Trap(Trap::Overflow))
        } else {
            None
        }
    }

    /// What stands against paying out a pool whose items are in order, if
    /// anything.
    pub open spec fn pool_payout_stop(self, amounts: Seq<i128>) -> Option<PoolStop> {
        if self.contract_balance < sum(amounts) {
            Some(PoolStop::Error(ContractError::PoolInsufficientFunds))
        } else if self.last_pool_id() == u64::MAX {
            Some(PoolStop::Trap(Trap::PoolIdOverflow))
        } else if self.last_loan_id() + amounts.len() > u64::MAX {
            Some(PoolStop::Trap(Trap::Overflow))
        } else if exists|i: int|
            0 <= i < amounts.len() && !fits(#[trigger] amounts[i] * self.config->0.yield_bps) {
            Some(PoolStop::Trap(Trap::Overflow))
        } else {
            None
        }
    }

    /// Why `create_loan_pool` makes no pool, if it makes none.
    pub open spec fn pool_stop(self, borrowers: Seq<Address>, amounts: Seq<i128>) -> Option<
        PoolStop,
    > {
        if self.pool_shape_stop(borrowers.len(), amounts.len()) is Some {
            self.pool_shape_stop(borrowers.len(), amounts.len())
        } else if self.pool_scan(borrowers, amounts, borrowers.len()) is Some {
            self.pool_scan(borrowers, amounts, borrowers.len())
        } else {
            self.pool_payout_stop(amounts)
        }
    }

    /// When a loan that is made now falls due.
    pub open spec fn new_deadline(self) -> u64 {
        (self.timestamp + self.config->0.loan_duration) as u64
    }

    /// The record of a loan that a pool makes now.
    pub open spec fn pool_loan(self, id: u64, borrower: Address, amount: i128) -> LoanView {
        LoanView {
            id,
            borrower,
            co_borrowers: Seq::empty(),
            amount,
            amount_repaid: 0,
            total_yield: bps_share(amount as int, self.config->0.yield_bps as int) as i128,
            repaid: false,
            defaulted: false,
            created_at: self.timestamp,
            disbursement_timestamp: self.timestamp,
            repayment_timestamp: None,
            deadline: self.new_deadline(),
            loan_purpose: pool_purpose(),
            token_address: self.config->0.token,
        }
    }

    /// The surroundings once a pool has made one loan: it has the next id, is
    /// the borrower's active and latest one, is paid out and announced.
    pub open spec fn with_pool_loan(self, pool_id: u64, borrower: Address, amount: i128) -> EnvView {
        let id = (self.last_loan_id() + 1) as u64;
        EnvView {
            loan_counter: Some(id),
            loans: self.loans.insert(id, self.pool_loan(id, borrower, amount)),
            active_loans: self.active_loans.insert(borrower, id),
            latest_loans: self.latest_loans.insert(borrower, id),
            ..self
        }.asking(
            seq![
                EffectView::Transfer { token: self.config->0.token, to: borrower, amount },
                EffectView::Publish(
                    EventView::PoolLoan { pool_id, borrower, amount, deadline: self.new_deadline() },
                ),
            ],
        )
    }

    /// The surroundings once a pool has made its first `n` loans.
    pub open spec fn with_pool_loans(
        self,
        pool_id: u64,
        borrowers: Seq<Address>,
        amounts: Seq<i128>,
        n: nat,
    ) -> EnvView
        decreases n,
    {
        if n == 0 {
            self
        } else {
            self.with_pool_loans(pool_id, borrowers, amounts, (n - 1) as nat).with_pool_loan(
                pool_id,
                borrowers[n - 1],
                amounts[n - 1],
            )
        }
    }

    /// The id of the pool that is made next.
    pub open spec fn next_pool_id(self) -> u64 {
        (self.last_pool_id() + 1) as u64
    }

    /// The record of a pool that is made now.
    pub open spec fn new_pool(self, borrowers: Seq<Address>, amounts: Seq<i128>) -> LoanPoolView {
        LoanPoolView {
            pool_id: self.next_pool_id(),
            borrowers,
            amounts,
            created_at: self.timestamp,
            total_disbursed: sum(amounts) as i128,
        }
    }

    /// The surroundings after `create_loan_pool`: the next pool id is taken,
    /// the loans are made in order, and the pool is stored and announced.
    pub open spec fn with_pool(self, borrowers: Seq<Address>, amounts: Seq<i128>) -> EnvView {
        let pool_id = self.next_pool_id();
        let lent = EnvView { loan_pool_counter: Some(pool_id), ..self }.with_pool_loans(
            pool_id,
            borrowers,
            amounts,
            borrowers.len(),
        );
        EnvView {
            loan_pools: lent.loan_pools.insert(pool_id, self.new_pool(borrowers, amounts)),
            ..lent
        }.asking(
            seq![
                EffectView::Publish(
                    EventView::PoolCreated {
                        pool_id,
                        loans: borrowers.len() as u32,
                        total_amount: sum(amounts) as i128,
                    },
                ),
            ],
        )
    }
}

/// Making loans changes neither the configuration nor the time, and takes one
/// loan id each.
pub proof fn lemma_pool_loans_frame(
    env: EnvView,
    pool_id: u64,
    borrowers: Seq<Address>,
    amounts: Seq<i128>,
    n: nat,
)
    requires
        env.last_loan_id() + n <= u64::MAX,
    ensures
        ({
            let after = env.with_pool_loans(pool_id, borrowers, amounts, n);
            &&& after.last_loan_id() == env.last_loan_id() + n
            &&& after == (EnvView {
                loan_counter: after.loan_counter,
                loans: after.loans,
                active_loans: after.active_loans,
                latest_loans: after.latest_loans,
                outbox: after.outbox,
                ..env
            })
        }),
    decreases n,
{
    if n > 0 {
        lemma_pool_loans_frame(env, pool_id, borrowers, amounts, (n - 1) as nat);
    }
}

/// What stands against lending the amount to the borrower, if anything.
fn pool_item_stop(env: &Env, borrower: Address, amount: i128) -> (stop: Option<PoolStop>)
    requires
        env@.config is Some,
    ensures
        stop == env@.pool_item_stop(borrower, amount),
{
    let cfg = config(env);
    if amount < cfg.min_loan_amount {
        return Some(PoolStop::Trap(Trap::AmountBelowMinimum));
    }
    if has_active_loan(env, borrower) {
        return Some(PoolStop::Error(ContractError::PoolBorrowerActiveLoan));
    }
    let vouches = env.vouches_for(borrower);
    let total_stake: i128 = match checked_total_stake(&vouches) {
        Some(total) => total,
        None => return Some(PoolStop::Trap(Trap::Overflow)),
    };
    let max_allowed: i128 = match total_stake.checked_mul(cfg.max_loan_to_stake_ratio as i128) {
        Some(product) => product / 100,
        None => return Some(PoolStop::Trap(Trap::Overflow)),
    };
    if amount > max_allowed {
        return Some(PoolStop::Trap(Trap::AboveCollateralRatio));
    }
    None
}

/// Looks at the first `n` loans. Returns their total, or the first thing that
/// stands against them.
pub(crate) fn pool_scan(env: &Env, borrowers: &Vec<Address>, amounts: &Vec<i128>, n: usize) -> (
result: Result<i128, PoolStop>)
    requires
        env@.config is Some,
        n <= borrowers.len(),
        n <= amounts.len(),
    ensures
        match env@.pool_scan(borrowers@, amounts@, n as nat) {
            Some(stop) => result == Err::<i128, PoolStop>(stop),
            None => result matches Ok(total) && total == sum(amounts@.take(n as int)),
        },
{
    let mut total: i128 = 0;
    let mut i: usize = 0;
    while i < n
        invariant
            i <= n <= borrowers.len(),
            n <= amounts.len(),
            env@.config is Some,
            env@.pool_scan(borrowers@, amounts@, i as nat) is None,
            total == sum(amounts@.take(i as int)),
        decreases n - i,
    {
        assert(amounts@.take(i + 1).drop_last() =~= amounts@.take(i as int));
        let ghost next = env@.pool_scan(borrowers@, amounts@, (i + 1) as nat);
        match pool_item_stop(env, borrowers[i], amounts[i]) {
            Some(stop) => {
                proof {
                    assert(next == Some(stop));
                    lemma_pool_scan_stays(env@, borrowers@, amounts@, (i + 1) as nat, n as nat);
                }
                return Err(stop);
            },
            None => {},
        }
        match total.checked_add(amounts[i]) {
            Some(sum) => {
                total = sum;
            },
            None => {
                proof {
                    assert(next == Some(PoolStop::Trap(Trap::Overflow)));
                    lemma_pool_scan_stays(env@, borrowers@, amounts@, (i + 1) as nat, n as nat);
                }
                return Err(PoolStop::Trap(Trap::Overflow));
            },
        }
        i += 1;
    }
    Ok(total)
}

/// What stands against the first loans stands against more loans too.
proof fn lemma_pool_scan_stays(
    env: EnvView,
    borrowers: Seq<Address>,
    amounts: Seq<i128>,
    m: nat,
    n: nat,
)
    requires
        m <= n,
        env.pool_scan(borrowers, amounts, m) is Some,
    ensures
        env.pool_scan(borrowers, amounts, n) == env.pool_scan(borrowers, amounts, m),
    decreases n,
{
    if m < n {
        lemma_pool_scan_stays(env, borrowers, amounts, m, (n - 1) as nat);
    }
}

/// What stands against a pool before its items are looked at, if anything.
pub(crate) fn pool_shape_stop(env: &Env, borrowers: usize, amounts: usize) -> (stop: Option<
    PoolStop,
>)
    ensures
        stop == env@.pool_shape_stop(borrowers as nat, amounts as nat),
{
    if borrowers != amounts {
        return Some(PoolStop::Error(ContractError::PoolLengthMismatch));
    }
    if borrowers == 0 {
        return Some(PoolStop::Error(ContractError::PoolEmpty));
    }
    if env.config.is_none() {
        return Some(PoolStop::Trap(Trap::NotInitialized));
    }
    if env.timestamp.checked_add(config(env).loan_duration).is_none() {
        return Some(PoolStop::Trap(Trap::Overflow));
    }
    None
}

/// What stands against paying out a pool whose items are in order, if anything.
fn pool_payout_stop(env: &Env, amounts: &Vec<i128>, total: i128) -> (stop: Option<PoolStop>)
    requires
        env@.config is Some,
        total == sum(amounts@),
    ensures
        stop == env@.pool_payout_stop(amounts@),
{
    if env.contract_balance < total {
        return Some(PoolStop::Error(ContractError::PoolInsufficientFunds));
    }
    if env.loan_pool_counter.unwrap_or(0) == u64::MAX {
        return Some(PoolStop::Trap(Trap::PoolIdOverflow));
    }
    if amounts.len() as u64 > u64::MAX - env.loan_counter.unwrap_or(0) {
        return Some(PoolStop::Trap(Trap::Overflow));
    }
    let yield_bps: i128 = config(env).yield_bps;
    let mut i: usize = 0;
    while i < amounts.len()
        invariant
            i <= amounts.len(),
            forall|j: int| 0 <= j < i ==> fits(#[trigger] amounts@[j] * yield_bps),
            env@.config is Some,
            yield_bps == env@.config->0.yield_bps,
            env@.contract_balance >= sum(amounts@),
            env@.last_pool_id() < u64::MAX,
            env@.last_loan_id() + amounts.len() <= u64::MAX,
        decreases amounts.len() - i,
    {
        if amounts[i].checked_mul(yield_bps).is_none() {
            assert(!fits(amounts@[i as int] * yield_bps));
            return Some(PoolStop::Trap(Trap::Overflow));
        }
        i += 1;
    }
    None
}

/// Makes one loan of a pool.
fn lend(env: &mut Env, pool_id: u64, borrower: Address, amount: i128)
    requires
        old(env)@.config is Some,
        old(env)@.timestamp + old(env)@.config->0.loan_duration <= u64::MAX,
        old(env)@.last_loan_id() < u64::MAX,
        fits(amount * old(env)@.config->0.yield_bps),
    ensures
        final(env)@ == old(env)@.with_pool_loan(pool_id, borrower, amount),
{
    let ghost before = env@;
    let now: u64 = env.timestamp;
    let deadline: u64 = now + config(env).loan_duration;
    let token: Address = config(env).token;
    let total_yield: i128 = amount * config(env).yield_bps / BPS_DENOMINATOR;
    let id: u64 = next_loan_id(env);
    let co_borrowers: Vec<Address> = Vec::new();
    let loan = LoanRecord {
        id,
        borrower,
        co_borrowers,
        amount,
        amount_repaid: 0,
        total_yield,
        repaid: false,
        defaulted: false,
        created_at: now,
        disbursement_timestamp: now,
        repayment_timestamp: None,
        deadline,
        loan_purpose: "pool".to_string(),
        token_address: token,
    };
    assert(loan@ =~= before.pool_loan(id, borrower, amount));
    env.set_loan(loan);
    env.set_active_loan(borrower, id);
    env.set_latest_loan(borrower, id);
    env.ask(Effect::Transfer { token, to: borrower, amount });
    env.ask(Effect::Publish(Event::PoolLoan { pool_id, borrower, amount, deadline }));
    assert(env@ =~= before.with_pool_loan(pool_id, borrower, amount));
}

/// Makes a pool that nothing stands against.
fn disburse(env: &mut Env, borrowers: Vec<Address>, amounts: Vec<i128>, total_amount: i128) -> (
pool_id: u64)
    requires
        old(env)@.pool_stop(borrowers@, amounts@) is None,
        borrowers.len() <= u32::MAX,
        total_amount == sum(amounts@),
    ensures
        pool_id == old(env)@.next_pool_id(),
        final(env)@ == old(env)@.with_pool(borrowers@, amounts@),
{
    let ghost before = env@;
    let pool_id: u64 = env.loan_pool_counter.unwrap_or(0) + 1;
    env.loan_pool_counter = Some(pool_id);
    let ghost base = env@;
    let mut i: usize = 0;
    while i < borrowers.len()
        invariant
            i <= borrowers.len(),
            borrowers.len() == amounts.len(),
            base == (EnvView { loan_pool_counter: Some(pool_id), ..before }),
            before.pool_stop(borrowers@, amounts@) is None,
            env@ == base.with_pool_loans(pool_id, borrowers@, amounts@, i as nat),
        decreases borrowers.len() - i,
    {
        proof {
            lemma_pool_loans_frame(base, pool_id, borrowers@, amounts@, i as nat);
            assert(fits(amounts@[i as int] * before.config->0.yield_bps));
        }
        lend(env, pool_id, borrowers[i], amounts[i]);
        i += 1;
    }
    proof {
        lemma_pool_loans_frame(base, pool_id, borrowers@, amounts@, i as nat);
    }
    let loans: u32 = borrowers.len() as u32;
    let created_at: u64 = env.timestamp;
    env.set_loan_pool(
        LoanPoolRecord { pool_id, borrowers, amounts, created_at, total_disbursed: total_amount },
    );
    env.ask(Effect::Publish(Event::PoolCreated { pool_id, loans, total_amount }));
    assert(env@ =~= before.with_pool(borrowers@, amounts@));
    pool_id
}

impl QuorumCreditContract {
    /// Why `create_loan_pool` aborts, if it does.
    pub fn create_loan_pool_trap(env: &Env, borrowers: &Vec<Address>, amounts: &Vec<i128>) -> (trap:
        Option<Trap>)
        ensures
            trap == match env@.pool_stop(borrowers@, amounts@) {
                Some(PoolStop::Trap(trap)) => Some(trap),
                _ => None,
            },
    {
        match pool_check(env, borrowers, amounts) {
            Err(PoolStop::Trap(trap)) => Some(trap),
            _ => None,
        }
    }

    /// Disburses a batch of small loans to several borrowers at once, after
    /// admin approval. Returns the pool's id.
    ///
    /// Lengths of the host's vectors are `u32` values.
    pub fn create_loan_pool(env: &mut Env, borrowers: Vec<Address>, amounts: Vec<i128>) -> (result:
        Result<u64, ContractError>)
        requires
            borrowers.len() <= u32::MAX,
            !(old(env)@.pool_stop(borrowers@, amounts@) matches Some(PoolStop::Trap(_))),
        ensures
            match old(env)@.pool_stop(borrowers@, amounts@) {
                Some(PoolStop::Error(error)) => {
                    &&& result == Err::<u64, ContractError>(error)
                    &&& final(env)@ == old(env)@
                },
                _ => {
                    &&& result == Ok::<u64, ContractError>(old(env)@.next_pool_id())
                    &&& final(env)@ == old(env)@.with_pool(borrowers@, amounts@)
                },
            },
    {
        match pool_check(env, &borrowers, &amounts) {
            Ok(total_amount) => Ok(disburse(env, borrowers, amounts, total_amount)),
            Err(PoolStop::Error(error)) => Err(error),
            Err(PoolStop::Trap(_)) => vstd::pervasive::unreached(),
        }
    }
}

/// Looks at a whole pool. Returns its total, or the first thing that stands
/// against it.
fn pool_check(env: &Env, borrowers: &Vec<Address>, amounts: &Vec<i128>) -> (result: Result<
    i128,
    PoolStop,
>)
    ensures
        match env@.pool_stop(borrowers@, amounts@) {
            Some(stop) => result == Err::<i128, PoolStop>(stop),
            None => result matches Ok(total) && total == sum(amounts@),
        },
{
    match pool_shape_stop(env, borrowers.len(), amounts.len()) {
        Some(stop) => return Err(stop),
        None => {},
    }
    match pool_scan(env, borrowers, amounts, borrowers.len()) {
        Ok(total) => {
            assert(amounts@.take(amounts.len() as int) =~= amounts@);
            match pool_payout_stop(env, amounts, total) {
                Some(stop) => Err(stop),
                None => Ok(total),
            }
        },
        Err(stop) => Err(stop),
    }
}

} // verus!
