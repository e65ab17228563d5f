//! Checks and look-ups that the entry points share, and the protocol's health.

use vstd::prelude::*;

use crate::arith::{fits, trunc_div};
use crate::env::{Env, EnvView};
use crate::errors::{ContractError, Trap};
use crate::types::{
    Address, Config, LoanRecord, LoanStatus, BPS_DENOMINATOR, EXCELLENT_RESERVE,
    HALF_RESERVE_WEIGHT_BPS, HEALTH_THRESHOLD_BPS, INITIALIZATION_WEIGHT_BPS,
    MAX_DYNAMIC_SLASH_BPS, MIN_DYNAMIC_SLASH_BPS, MIN_RESERVE, UNPAUSED_WEIGHT_BPS,
};

verus! {

/// Returns `Err(ContractPaused)` exactly if the contract is paused.
pub fn require_not_paused(env: &Env) -> (result: Result<(), ContractError>)
    ensures
        result == if env@.is_paused() {
            Err::<(), ContractError>(ContractError::ContractPaused)
        } else {
            Ok(())
        },
{
    match env.paused {
        Some(true) => Err(ContractError::ContractPaused),
        _ => Ok(()),
    }
}

/// Returns `Err(InsufficientFunds)` exactly if `amount` is not strictly
/// positive. Amounts are in stroops, of which 10,000,000 make one XLM.
pub fn require_positive_amount(amount: i128) -> (result: Result<(), ContractError>)
    ensures
        result == if amount <= 0 {
            Err::<(), ContractError>(ContractError::InsufficientFunds)
        } else {
            Ok(())
        },
{
    if amount <= 0 {
        return Err(ContractError::InsufficientFunds);
    }
    Ok(())
}

/// The configuration.
pub fn config(env: &Env) -> (config: &Config)
    requires
        env@.config is Some,
    ensures
        Some(config@) == env@.config,
{
    env.config.as_ref().unwrap()
}

/// Whether the borrower has a loan that is neither repaid nor defaulted.
pub fn has_active_loan(env: &Env, borrower: Address) -> (active: bool)
    ensures
        active == env@.has_active_loan(borrower),
{
    match get_active_loan_record(env, borrower) {
        Ok(loan) => loan.status() == LoanStatus::Active,
        Err(_) => false,
    }
}

/// The borrower's active loan record, or `Err(NoActiveLoan)` exactly if there
/// is none.
pub fn get_active_loan_record(env: &Env, borrower: Address) -> (result: Result<
    LoanRecord,
    ContractError,
>)
    ensures
        match env@.active_loan(borrower) {
            Some(loan) => result matches Ok(record) && record@ == loan,
            None => result matches Err(e) && e == ContractError::NoActiveLoan,
        },
{
    match env.active_loans.get(&borrower) {
        Some(id) => match env.loans.get(id) {
            Some(loan) => Ok(loan.clone()),
            None => Err(ContractError::NoActiveLoan),
        },
        None => Err(ContractError::NoActiveLoan),
    }
}

/// Accepts the primary token and the tokens that the configuration lists, and
/// returns `Err(InvalidToken)` for every other address.
pub fn require_allowed_token(env: &Env, addr: Address) -> (result: Result<Address, ContractError>)
    requires
        env@.config is Some,
    ensures
        result == if addr == env@.config->0.token || env@.config->0.allowed_tokens.contains(addr) {
            Ok::<Address, ContractError>(addr)
        } else {
            Err(ContractError::InvalidToken)
        },
{
    let cfg = config(env);
    if addr == cfg.token {
        return Ok(addr);
    }
    let mut i: usize = 0;
    while i < cfg.allowed_tokens.len()
        invariant
            i <= cfg.allowed_tokens.len(),
            forall|j: int| 0 <= j < i ==> cfg.allowed_tokens@[j] != addr,
            addr != cfg.token,
            env@.config == Some(cfg@),
        decreases cfg.allowed_tokens.len() - i,
    {
        if cfg.allowed_tokens[i] == addr {
            return Ok(addr);
        }
        i += 1;
    }
    Err(ContractError::InvalidToken)
}

/// Takes the next loan id: the first is 1, and each is one more than the last.
pub fn next_loan_id(env: &mut Env) -> (id: u64)
    requires
        old(env)@.last_loan_id() < u64::MAX,
    ensures
        id == old(env)@.last_loan_id() + 1,
        final(env)@ == (EnvView { loan_counter: Some(id), ..old(env)@ }),
{
    let id: u64 = env.loan_counter.unwrap_or(0) + 1;
    env.loan_counter = Some(id);
    id
}

/// Adds slashed funds to the treasury.
pub fn add_slash_balance(env: &mut Env, amount: i128)
    requires
        fits(old(env)@.treasury() + amount),
    ensures
        final(env)@ == (EnvView {
            slash_treasury: Some((old(env)@.treasury() + amount) as i128),
            ..old(env)@
        }),
{
    let balance: i128 = env.slash_treasury.unwrap_or(0);
    env.slash_treasury = Some(balance + amount);
}

/// What the reserve contributes to the health score: half its weight at the
/// minimum reserve, its full weight at the excellent one, and in proportion
/// below the first and between the two.
pub open spec fn reserve_score(balance: int) -> int {
    if balance >= EXCELLENT_RESERVE {
        2 * HALF_RESERVE_WEIGHT_BPS
    } else if balance >= MIN_RESERVE {
        HALF_RESERVE_WEIGHT_BPS + (balance - MIN_RESERVE) * HALF_RESERVE_WEIGHT_BPS / (
        EXCELLENT_RESERVE - MIN_RESERVE)
    } else if balance > 0 {
        balance * HALF_RESERVE_WEIGHT_BPS / MIN_RESERVE as int
    } else {
        0
    }
}

/// The protocol's health in basis points: the weights of being initialized
/// and of not being paused, and the score of the reserve.
pub open spec fn health_score(env: EnvView) -> int {
    (if env.config is Some {
        INITIALIZATION_WEIGHT_BPS + reserve_score(env.contract_balance as int)
    } else {
        0
    }) + (if env.is_paused() {
        0
    } else {
        UNPAUSED_WEIGHT_BPS as int
    })
}

/// The slash penalty for a configured penalty `slash_bps` at a health score.
///
/// From the health threshold up it falls in proportion from the configured
/// penalty to the least one; below the threshold it rises in proportion from
/// the configured penalty to the greatest one, which holds at score 0.
pub open spec fn penalty_at(slash_bps: int, score: int) -> int {
    if score >= HEALTH_THRESHOLD_BPS {
        slash_bps - trunc_div(
            (slash_bps - MIN_DYNAMIC_SLASH_BPS) * surplus_bps(score),
            BPS_DENOMINATOR as int,
        )
    } else {
        slash_bps + trunc_div(
            (MAX_DYNAMIC_SLASH_BPS - slash_bps) * shortfall_bps(score),
            BPS_DENOMINATOR as int,
        )
    }
}

/// How far above the threshold the score is, as a share of the way to full
/// health.
pub open spec fn surplus_bps(score: int) -> int {
    (score - HEALTH_THRESHOLD_BPS) * BPS_DENOMINATOR / (BPS_DENOMINATOR - HEALTH_THRESHOLD_BPS)
}

/// How far below the threshold the score is, as a share of the way to none.
pub open spec fn shortfall_bps(score: int) -> int {
    BPS_DENOMINATOR - score * BPS_DENOMINATOR / HEALTH_THRESHOLD_BPS as int
}

/// Whether every step of computing `penalty_at` fits in an `i128`.
pub open spec fn penalty_fits(slash_bps: int, score: int) -> bool {
    &&& fits(penalty_at(slash_bps, score))
    &&& if score >= HEALTH_THRESHOLD_BPS {
        &&& fits(slash_bps - MIN_DYNAMIC_SLASH_BPS)
        &&& fits((slash_bps - MIN_DYNAMIC_SLASH_BPS) * surplus_bps(score))
    } else {
        &&& fits(MAX_DYNAMIC_SLASH_BPS - slash_bps)
        &&& fits((MAX_DYNAMIC_SLASH_BPS - slash_bps) * shortfall_bps(score))
    }
}

/// The penalty that slashing operations are to apply.
pub open spec fn dynamic_slash_bps(env: EnvView) -> int {
    let cfg = env.config->0;
    if cfg.dynamic_slash_threshold {
        penalty_at(cfg.slash_bps as int, health_score(env))
    } else {
        cfg.slash_bps as int
    }
}

/// Why `calculate_dynamic_slash_threshold` aborts, if it does.
pub open spec fn dynamic_slash_trap(env: EnvView) -> Option<Trap> {
    if env.config is None {
        Some(Trap::NotInitialized)
    } else if env.config->0.dynamic_slash_threshold && !penalty_fits(
        env.config->0.slash_bps as int,
        health_score(env),
    ) {
        Some(Trap::Overflow)
    } else {
        None
    }
}

/// What the reserve contributes to the health score.
fn score_reserve(balance: i128) -> (score: i128)
    ensures
        score == reserve_score(balance as int),
        0 <= score <= 2 * HALF_RESERVE_WEIGHT_BPS,
{
    if balance >= EXCELLENT_RESERVE {
        2 * HALF_RESERVE_WEIGHT_BPS
    } else if balance >= MIN_RESERVE {
        HALF_RESERVE_WEIGHT_BPS + (balance - MIN_RESERVE) * HALF_RESERVE_WEIGHT_BPS / (
        EXCELLENT_RESERVE - MIN_RESERVE)
    } else if balance > 0 {
        balance * HALF_RESERVE_WEIGHT_BPS / MIN_RESERVE
    } else {
        0
    }
}

/// The protocol's health in basis points, from 0 to 10000: initialization
/// counts 30%, not being paused 30%, and the solvency of the reserve 40%.
pub fn calculate_protocol_health_score(env: &Env) -> (score: i128)
    ensures
        score == health_score(env@),
        0 <= score <= BPS_DENOMINATOR,
{
    let mut score: i128 = 0;
    if env.config.is_some() {
        score += INITIALIZATION_WEIGHT_BPS;
    }
    let paused: bool = env.paused.unwrap_or(false);
    if !paused {
        score += UNPAUSED_WEIGHT_BPS;
    }
    if env.config.is_some() {
        score += score_reserve(env.contract_balance);
    }
    score
}

/// Computes the penalty at a health score, or `None` where a step overflows.
fn checked_penalty(slash_bps: i128, score: i128) -> (penalty: Option<i128>)
    requires
        0 <= score <= BPS_DENOMINATOR,
    ensures
        penalty matches Some(x) ==> penalty_fits(slash_bps as int, score as int) && x == penalty_at(
            slash_bps as int,
            score as int,
        ),
        penalty is None ==> !penalty_fits(slash_bps as int, score as int),
{
    if score >= HEALTH_THRESHOLD_BPS {
        let factor: i128 = (score - HEALTH_THRESHOLD_BPS) * BPS_DENOMINATOR / (BPS_DENOMINATOR
            - HEALTH_THRESHOLD_BPS);
        let spread: i128 = match slash_bps.checked_sub(MIN_DYNAMIC_SLASH_BPS) {
            Some(spread) => spread,
            None => return None,
        };
        match spread.checked_mul(factor) {
            Some(product) => slash_bps.checked_sub(product / BPS_DENOMINATOR),
            None => None,
        }
    } else {
        let factor: i128 = BPS_DENOMINATOR - score * BPS_DENOMINATOR / HEALTH_THRESHOLD_BPS;
        let spread: i128 = match MAX_DYNAMIC_SLASH_BPS.checked_sub(slash_bps) {
            Some(spread) => spread,
            None => return None,
        };
        match spread.checked_mul(factor) {
            Some(product) => slash_bps.checked_add(product / BPS_DENOMINATOR),
            None => None,
        }
    }
}

/// Why `calculate_dynamic_slash_threshold` aborts, if it does.
pub fn calculate_dynamic_slash_threshold_trap(env: &Env) -> (trap: Option<Trap>)
    ensures
        trap == dynamic_slash_trap(env@),
{
    if env.config.is_none() {
        return Some(Trap::NotInitialized);
    }
    let cfg = config(env);
    if !cfg.dynamic_slash_threshold {
        return None;
    }
    let score: i128 = calculate_protocol_health_score(env);
    match checked_penalty(cfg.slash_bps, score) {
        Some(_) => None,
        None => Some(Trap::Overflow),
    }
}

/// The slash penalty, in basis points, that slashing operations are to apply:
/// the configured one, unless the dynamic threshold is enabled. Then a healthy
/// protocol (80% health and more) slashes less, down to 25%, and an unhealthy
/// one more, up to 75%.
pub fn calculate_dynamic_slash_threshold(env: &Env) -> (bps: i128)
    requires
        dynamic_slash_trap(env@) is None,
    ensures
        bps == dynamic_slash_bps(env@),
{
    let cfg = config(env);
    if !cfg.dynamic_slash_threshold {
        return cfg.slash_bps;
    }
    let score: i128 = calculate_protocol_health_score(env);
    checked_penalty(cfg.slash_bps, score).unwrap()
}

} // verus!
