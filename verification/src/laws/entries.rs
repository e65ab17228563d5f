//! Laws of the small entry points and helpers: what a call of each returns and
//! leaves behind, told from what is stored.

use vstd::prelude::*;

use crate::arith::{checked_bps_share, checked_total_stake};
use crate::contract::QuorumCreditContract;
use crate::env::{Env, EnvView};
use crate::errors::ContractError;
use crate::helpers::{
    add_slash_balance, config, get_active_loan_record, has_active_loan, next_loan_id,
    require_allowed_token, require_not_paused, require_positive_amount,
};
use crate::laws::amounts::{
    added, adds_up, is_i128, law_share_in_basis_points, law_total_stake_adds_up, rounds_to, stakes,
};
use crate::laws::settling::{is_noted, noted, owes};
use crate::types::{
    Address, Config, ConfigView, Defaults, LoanPoolRecord, LoanRecord, LoanStatus, VouchRecord,
};

verus! {

/// Not being paused is required, and refused exactly to a contract that was told
/// to pause; and that is what the contract tells of itself.
pub proof fn law_require_not_paused(
    env: &Env,
    result: Result<(), ContractError>,
    paused: bool,
)
    requires
        call_ensures(require_not_paused, (env,), result),
        call_ensures(QuorumCreditContract::get_paused, (env,), paused),
    ensures
        call_requires(require_not_paused, (env,)),
        call_requires(QuorumCreditContract::get_paused, (env,)),
        paused <==> env.paused == Some(true),
        result is Ok <==> !paused,
        paused ==> result == Err::<(), ContractError>(ContractError::ContractPaused),
{
}

/// A positive amount is required: an amount passes exactly if it is 1 or more.
pub proof fn law_require_positive_amount(amount: i128, result: Result<(), ContractError>)
    requires
        call_ensures(require_positive_amount, (amount,), result),
    ensures
        call_requires(require_positive_amount, (amount,)),
        result is Ok <==> 1 <= amount,
        result is Err ==> result == Err::<(), ContractError>(ContractError::InsufficientFunds),
{
}

/// The configuration that is looked up is the stored one.
pub proof fn law_config(env: &Env, found: &Config)
    requires
        env.config is Some,
        call_ensures(config, (env,), found),
    ensures
        call_requires(config, (env,)),
        found@ == env.config->0@,
{
}

/// A borrower's active loan is found exactly if a loan is noted for the
/// borrower, and is the stored one; the borrower has one exactly while it is
/// neither repaid nor defaulted.
pub proof fn law_active_loan_is_found(
    env: &Env,
    borrower: Address,
    result: Result<LoanRecord, ContractError>,
    active: bool,
)
    requires
        call_ensures(get_active_loan_record, (env, borrower), result),
        call_ensures(has_active_loan, (env, borrower), active),
    ensures
        call_requires(get_active_loan_record, (env, borrower)),
        call_requires(has_active_loan, (env, borrower)),
        result is Ok <==> is_noted(env@, borrower),
        result is Ok ==> result->Ok_0@ == noted(env@, borrower),
        result is Err ==> result->Err_0 == ContractError::NoActiveLoan,
        active <==> owes(env@, borrower),
{
}

/// A loan's status tells whether it is defaulted, or else repaid, or neither.
pub proof fn law_status(loan: &LoanRecord, status: LoanStatus)
    requires
        call_ensures(LoanRecord::status, (loan,), status),
    ensures
        call_requires(LoanRecord::status, (loan,)),
        status == LoanStatus::Defaulted <==> loan.defaulted,
        status == LoanStatus::Repaid <==> loan.repaid && !loan.defaulted,
        status == LoanStatus::Active <==> !loan.repaid && !loan.defaulted,
{
}

/// A token is allowed exactly if it is the primary one or one of those listed,
/// and is then handed back.
pub proof fn law_allowed_token(env: &Env, token: Address, result: Result<Address, ContractError>)
    requires
        env@.config is Some,
        call_ensures(require_allowed_token, (env, token), result),
    ensures
        call_requires(require_allowed_token, (env, token)),
        result is Ok <==> token == env@.config->0.token || exists|i: int|
            0 <= i < env@.config->0.allowed_tokens.len()
                && #[trigger] env@.config->0.allowed_tokens[i] == token,
        result is Ok ==> result->Ok_0 == token,
        result is Err ==> result->Err_0 == ContractError::InvalidToken,
{
}

/// Loan ids are taken from 1 up, one after the other, and taking one changes
/// only the counter.
pub proof fn law_loan_ids(env: &mut Env, id: u64)
    requires
        old(env)@.loan_counter != Some(0xffff_ffff_ffff_ffffu64),
        call_ensures(next_loan_id, (env,), id),
    ensures
        call_requires(next_loan_id, (env,)),
        old(env)@.loan_counter is None ==> id == 1,
        old(env)@.loan_counter matches Some(last) ==> id == last + 1,
        final(env)@ == (EnvView { loan_counter: Some(id), ..old(env)@ }),
{
}

/// Slashed funds are added to the treasury, which starts at nothing, and what it
/// then holds reads back.
pub proof fn law_slash_balance(env: &mut Env, after: &Env, amount: i128, before: i128, read: i128)
    requires
        call_ensures(QuorumCreditContract::get_slash_treasury_balance, (&*old(env),), before),
        is_i128(before + amount),
        call_ensures(add_slash_balance, (env, amount), ()),
        after@ == final(env)@,
        call_ensures(QuorumCreditContract::get_slash_treasury_balance, (after,), read),
    ensures
        call_requires(add_slash_balance, (env, amount)),
        old(env)@.slash_treasury is None ==> before == 0,
        old(env)@.slash_treasury matches Some(held) ==> before == held,
        read == before + amount,
        final(env)@ == (EnvView { slash_treasury: Some(read), ..old(env)@ }),
{
}

/// A referral bonus of at most one whole can be set, which changes nothing else,
/// and reads back; before, it is the default.
pub proof fn law_referral_bonus(env: &mut Env, after: &Env, bonus_bps: u32, before: u32, read: u32)
    requires
        bonus_bps <= 10_000,
        call_ensures(QuorumCreditContract::get_referral_bonus_bps, (&*old(env),), before),
        call_ensures(QuorumCreditContract::set_referral_bonus_bps, (env, bonus_bps), ()),
        after@ == final(env)@,
        call_ensures(QuorumCreditContract::get_referral_bonus_bps, (after,), read),
    ensures
        call_requires(QuorumCreditContract::set_referral_bonus_bps, (env, bonus_bps)),
        old(env)@.referral_bonus_bps is None ==> before == old(env)@.defaults.referral_bonus_bps,
        old(env)@.referral_bonus_bps matches Some(set) ==> before == set,
        read == bonus_bps,
        final(env)@ == (EnvView { referral_bonus_bps: Some(bonus_bps), ..old(env)@ }),
{
}

/// How many vouchers a loan may have can be set to any number but zero, which
/// changes nothing else, and reads back.
pub proof fn law_max_vouchers(env: &mut Env, after: &Env, max: u32, before: u32, read: u32)
    requires
        old(env)@.config is Some,
        max > 0,
        call_ensures(QuorumCreditContract::get_max_vouchers_per_loan, (&*old(env),), before),
        call_ensures(QuorumCreditContract::set_max_vouchers_per_loan, (env, max), ()),
        after@ == final(env)@,
        call_ensures(QuorumCreditContract::get_max_vouchers_per_loan, (after,), read),
    ensures
        call_requires(QuorumCreditContract::get_max_vouchers_per_loan, (&*old(env),)),
        call_requires(QuorumCreditContract::set_max_vouchers_per_loan, (env, max)),
        before == old(env)@.config->0.max_vouchers,
        read == max,
        final(env)@ == (EnvView {
            config: Some(ConfigView { max_vouchers: max, ..old(env)@.config->0 }),
            ..old(env)@
        }),
{
}

/// A contract tells that it is set up exactly if a configuration is stored, and
/// then tells the configured token and its balance.
pub proof fn law_told_of_setup(env: &Env, initialized: bool, token: Address, balance: i128)
    requires
        call_ensures(QuorumCreditContract::is_initialized, (env,), initialized),
        call_ensures(QuorumCreditContract::get_token, (env,), token),
        call_ensures(QuorumCreditContract::get_contract_balance, (env,), balance),
    ensures
        call_requires(QuorumCreditContract::is_initialized, (env,)),
        initialized <==> env.config is Some,
        initialized ==> {
            &&& call_requires(QuorumCreditContract::get_token, (env,))
            &&& call_requires(QuorumCreditContract::get_contract_balance, (env,))
            &&& token == env.config->0.token
            &&& balance == env.contract_balance
        },
{
}

/// A contract tells the vouches, the pools and the number of pools that are
/// stored.
pub proof fn law_told_of_records(
    env: &Env,
    borrower: Address,
    vouches: Option<Vec<VouchRecord>>,
    pool_id: u64,
    pool: Option<LoanPoolRecord>,
    count: u64,
)
    requires
        call_ensures(QuorumCreditContract::get_vouches, (env, borrower), vouches),
        call_ensures(QuorumCreditContract::get_loan_pool, (env, pool_id), pool),
        call_ensures(QuorumCreditContract::get_loan_pool_count, (env,), count),
    ensures
        call_requires(QuorumCreditContract::get_vouches, (env, borrower)),
        call_requires(QuorumCreditContract::get_loan_pool, (env, pool_id)),
        call_requires(QuorumCreditContract::get_loan_pool_count, (env,)),
        vouches is Some <==> env@.vouches.contains_key(borrower),
        vouches matches Some(told) ==> told@ == env@.vouches[borrower],
        pool is Some <==> env@.loan_pools.contains_key(pool_id),
        pool matches Some(told) ==> told@ == env@.loan_pools[pool_id],
        env@.loan_pool_counter is None ==> count == 0,
        env@.loan_pool_counter matches Some(last) ==> count == last,
{
}

/// A borrower's reputation is what the reputation contract reports, and 0 where
/// there is none.
pub proof fn law_reputation(env: &Env, reported: u32, reputation: u32)
    requires
        call_ensures(QuorumCreditContract::get_reputation, (env, reported), reputation),
    ensures
        call_requires(QuorumCreditContract::get_reputation, (env, reported)),
        env@.reputation_nft is Some ==> reputation == reported,
        env@.reputation_nft is None ==> reputation == 0,
{
}

/// New surroundings have nothing stored and nothing asked for.
pub proof fn law_new_surroundings(defaults: Defaults, timestamp: u64, balance: i128, env: Env)
    requires
        call_ensures(Env::new, (defaults, timestamp, balance), env),
    ensures
        call_requires(Env::new, (defaults, timestamp, balance)),
        env@ == (EnvView {
            defaults,
            timestamp,
            contract_balance: balance,
            config: None,
            deployer: None,
            paused: None,
            slash_treasury: None,
            reputation_nft: None,
            referral_bonus_bps: None,
            loan_counter: None,
            loan_pool_counter: None,
            loans: map![],
            active_loans: map![],
            latest_loans: map![],
            vouches: map![],
            default_counts: map![],
            loan_pools: map![],
            outbox: seq![],
        }),
{
}

/// A share in basis points is the product in parts of 10000, rounded toward
/// zero, and there is none exactly if the product leaves the `i128`s.
pub proof fn law_checked_share(amount: i128, bps: i128, share: Option<i128>)
    requires
        call_ensures(checked_bps_share, (amount, bps), share),
    ensures
        call_requires(checked_bps_share, (amount, bps)),
        share is Some <==> is_i128(amount * bps),
        share matches Some(x) ==> rounds_to(x as int, amount * bps, 10_000),
{
    law_share_in_basis_points(amount as int, bps as int);
}

/// The total of stakes is the stakes added up, and there is none exactly if they
/// cannot be added up in an `i128`.
pub proof fn law_checked_total(vouches: &Vec<VouchRecord>, total: Option<i128>)
    requires
        call_ensures(checked_total_stake, (vouches,), total),
    ensures
        call_requires(checked_total_stake, (vouches,)),
        total is Some <==> adds_up(stakes(vouches@)),
        total matches Some(x) ==> x == added(stakes(vouches@)),
{
    law_total_stake_adds_up(vouches@);
}

} // verus!
