//! Laws of what the contract keeps: what the views show of the records, and
//! what is read of the surroundings.

use vstd::prelude::*;

use crate::env::{Env, EnvView};
use crate::types::{
    Address, Config, Defaults, Effect, EffectView, Event, EventView, LoanPoolRecord, LoanRecord,
    LoanStatus, LoanView, VouchRecord, MAX_REFERRAL_BONUS_BPS,
};

verus! {

/// The view of a configuration shows each of its parameters.
pub proof fn law_configuration_is_shown(config: Config)
    ensures
        config@.admins == config.admins@,
        config@.admin_threshold == config.admin_threshold,
        config@.token == config.token,
        config@.allowed_tokens == config.allowed_tokens@,
        config@.yield_bps == config.yield_bps,
        config@.slash_bps == config.slash_bps,
        config@.max_vouchers == config.max_vouchers,
        config@.min_loan_amount == config.min_loan_amount,
        config@.loan_duration == config.loan_duration,
        config@.max_loan_to_stake_ratio == config.max_loan_to_stake_ratio,
        config@.grace_period == config.grace_period,
        config@.dynamic_slash_threshold == config.dynamic_slash_threshold,
{
}

/// The view of a loan shows each of its fields.
pub proof fn law_loan_is_shown(loan: LoanRecord)
    ensures
        loan@.id == loan.id,
        loan@.borrower == loan.borrower,
        loan@.co_borrowers == loan.co_borrowers@,
        loan@.amount == loan.amount,
        loan@.amount_repaid == loan.amount_repaid,
        loan@.total_yield == loan.total_yield,
        loan@.repaid == loan.repaid,
        loan@.defaulted == loan.defaulted,
        loan@.created_at == loan.created_at,
        loan@.disbursement_timestamp == loan.disbursement_timestamp,
        loan@.repayment_timestamp == loan.repayment_timestamp,
        loan@.deadline == loan.deadline,
        loan@.loan_purpose == loan.loan_purpose@,
        loan@.token_address == loan.token_address,
{
}

/// The view of a loan pool shows each of its fields.
pub proof fn law_loan_pool_is_shown(pool: LoanPoolRecord)
    ensures
        pool@.pool_id == pool.pool_id,
        pool@.borrowers == pool.borrowers@,
        pool@.amounts == pool.amounts@,
        pool@.created_at == pool.created_at,
        pool@.total_disbursed == pool.total_disbursed,
{
}

/// The view of an event shows what it announces.
pub proof fn law_event_is_shown(event: Event)
    ensures
        event matches Event::Initialized { deployer, admins, admin_threshold, token } ==> event@
            == (EventView::Initialized { deployer, admins: admins@, admin_threshold, token }),
        event matches Event::LoanSlashed { borrower, amount, total_slashed } ==> event@ == (
        EventView::LoanSlashed { borrower, amount, total_slashed }),
        event matches Event::PoolLoan { pool_id, borrower, amount, deadline } ==> event@ == (
        EventView::PoolLoan { pool_id, borrower, amount, deadline }),
        event matches Event::PoolCreated { pool_id, loans, total_amount } ==> event@ == (
        EventView::PoolCreated { pool_id, loans, total_amount }),
{
}

/// The view of an effect shows what it asks for.
pub proof fn law_effect_is_shown(effect: Effect)
    ensures
        effect matches Effect::Transfer { token, to, amount } ==> effect@ == (
        EffectView::Transfer { token, to, amount }),
        effect matches Effect::Burn { nft, holder } ==> effect@ == (EffectView::Burn {
            nft,
            holder,
        }),
        effect matches Effect::Publish(event) ==> effect@ == EffectView::Publish(event@),
{
}

/// The view of the surroundings shows everything that is stored, each record by
/// its view.
pub proof fn law_surroundings_are_shown(env: Env)
    ensures
        env@.defaults == env.defaults,
        env@.timestamp == env.timestamp,
        env@.contract_balance == env.contract_balance,
        env.config is None ==> env@.config is None,
        env.config is Some ==> env@.config == Some(env.config->0@),
        env@.deployer == env.deployer,
        env@.paused == env.paused,
        env@.slash_treasury == env.slash_treasury,
        env@.reputation_nft == env.reputation_nft,
        env@.referral_bonus_bps == env.referral_bonus_bps,
        env@.loan_counter == env.loan_counter,
        env@.loan_pool_counter == env.loan_pool_counter,
        forall|id: u64| #[trigger]
            env@.loans.contains_key(id) <==> env.loans@.contains_key(id),
        forall|id: u64| #[trigger]
            env.loans@.contains_key(id) ==> env@.loans[id] == env.loans@[id]@,
        env@.active_loans == env.active_loans@,
        env@.latest_loans == env.latest_loans@,
        forall|x: Address| #[trigger]
            env@.vouches.contains_key(x) <==> env.vouches@.contains_key(x),
        forall|x: Address| #[trigger]
            env.vouches@.contains_key(x) ==> env@.vouches[x] == env.vouches@[x]@,
        env@.default_counts == env.default_counts@,
        forall|id: u64| #[trigger]
            env@.loan_pools.contains_key(id) <==> env.loan_pools@.contains_key(id),
        forall|id: u64| #[trigger]
            env.loan_pools@.contains_key(id) ==> env@.loan_pools[id] == env.loan_pools@[id]@,
        env@.outbox.len() == env.outbox@.len(),
        forall|i: int|
            0 <= i < env.outbox@.len() ==> #[trigger] env@.outbox[i] == env.outbox@[i]@,
{
}

/// A loan is in exactly one state: defaulted wherever it is marked so, repaid
/// where it is only marked so, and active where it is marked neither way. It is
/// open exactly while it is active.
pub proof fn law_loan_status(loan: LoanView)
    ensures
        loan.status() == LoanStatus::Defaulted <==> loan.defaulted,
        loan.status() == LoanStatus::Repaid <==> loan.repaid && !loan.defaulted,
        loan.status() == LoanStatus::Active <==> !loan.repaid && !loan.defaulted,
        loan.is_open() <==> !loan.repaid && !loan.defaulted,
{
}

/// The contract is paused exactly if it was told to be: neither a contract that
/// was never told, nor one that was told to run, is.
pub proof fn law_paused(env: EnvView)
    ensures
        env.is_paused() <==> env.paused == Some(true),
        env.paused is None ==> !env.is_paused(),
        env.paused == Some(false) ==> !env.is_paused(),
{
}

/// A borrower's active loan is the stored loan of the id that is noted for the
/// borrower, and there is none without the note or the loan. It counts as active
/// exactly if it is neither repaid nor defaulted.
pub proof fn law_active_loan(env: EnvView, borrower: Address, loan: LoanView)
    ensures
        ({
            let kept = exists|id: u64|
                env.active_loans.contains_key(borrower) && env.active_loans[borrower] == id
                    && #[trigger] env.loans.contains_key(id) && env.loans[id] == loan;
            &&& env.active_loan(borrower) == Some(loan) <==> kept
            &&& kept ==> (env.has_active_loan(borrower) <==> !loan.repaid && !loan.defaulted)
        }),
        env.active_loan(borrower) is None ==> !env.has_active_loan(borrower),
        env.active_loan(borrower) is None <==> !env.active_loans.contains_key(borrower)
            || !env.loans.contains_key(env.active_loans[borrower]),
{
    if env.active_loan(borrower) == Some(loan) {
        assert(env.loans.contains_key(env.active_loans[borrower]));
    }
}

/// A borrower's vouches are those that are stored, or none.
pub proof fn law_vouches(env: EnvView, borrower: Address, vouches: Seq<VouchRecord>)
    ensures
        env.vouches.contains_key(borrower) ==> env.vouches_for(borrower) == env.vouches[borrower],
        !env.vouches.contains_key(borrower) ==> env.vouches_for(borrower).len() == 0,
        (EnvView { vouches: env.vouches.insert(borrower, vouches), ..env }).vouches_for(borrower)
            == vouches,
        (EnvView { vouches: env.vouches.remove(borrower), ..env }).vouches_for(borrower).len() == 0,
{
}

/// What is counted starts at nothing, and is then what was stored: the treasury,
/// the ids of the last loan and the last pool, and a borrower's defaults. The
/// referral bonus starts at its default.
pub proof fn law_counts_start_at_nothing(env: EnvView, borrower: Address)
    ensures
        env.slash_treasury is None ==> env.treasury() == 0,
        env.slash_treasury matches Some(held) ==> env.treasury() == held,
        env.loan_counter is None ==> env.last_loan_id() == 0,
        env.loan_counter matches Some(id) ==> env.last_loan_id() == id,
        env.loan_pool_counter is None ==> env.last_pool_id() == 0,
        env.loan_pool_counter matches Some(id) ==> env.last_pool_id() == id,
        !env.default_counts.contains_key(borrower) ==> env.defaults_of(borrower) == 0,
        env.default_counts.contains_key(borrower) ==> env.defaults_of(borrower)
            == env.default_counts[borrower],
        env.referral_bonus_bps is None ==> env.referral_bonus() == env.defaults.referral_bonus_bps,
        env.referral_bonus_bps matches Some(bps) ==> env.referral_bonus() == bps,
{
}

/// A referral bonus may be set exactly if it is at most one whole.
pub proof fn law_referral_bonus_limit(bonus_bps: u32)
    ensures
        bonus_bps <= MAX_REFERRAL_BONUS_BPS <==> bonus_bps <= 10_000,
{
}

/// Asking for effects adds them after those that were asked for, and changes
/// nothing else.
pub proof fn law_effects_are_asked_for_in_order(env: EnvView, effects: Seq<EffectView>)
    ensures
        ({
            let after = env.asking(effects);
            &&& after == (EnvView { outbox: after.outbox, ..env })
            &&& after.outbox.len() == env.outbox.len() + effects.len()
            &&& forall|i: int|
                0 <= i < env.outbox.len() ==> #[trigger] after.outbox[i] == env.outbox[i]
            &&& forall|i: int|
                0 <= i < effects.len() ==> after.outbox[env.outbox.len() + i]
                    == #[trigger] effects[i]
        }),
{
}

/// A contract starts with nothing stored and nothing asked for, at the time,
/// with the balance and the parameters that it is deployed with.
pub proof fn law_start(defaults: Defaults, timestamp: u64, balance: i128)
    ensures
        ({
            let env = EnvView::fresh(defaults, timestamp, balance);
            &&& env.defaults == defaults
            &&& env.timestamp == timestamp
            &&& env.contract_balance == balance
            &&& env.config is None
            &&& env.deployer is None
            &&& env.paused is None
            &&& env.slash_treasury is None
            &&& env.reputation_nft is None
            &&& env.referral_bonus_bps is None
            &&& env.loan_counter is None
            &&& env.loan_pool_counter is None
            &&& forall|id: u64| !#[trigger] env.loans.contains_key(id)
            &&& forall|x: Address| !#[trigger] env.active_loans.contains_key(x)
            &&& forall|x: Address| !#[trigger] env.latest_loans.contains_key(x)
            &&& forall|x: Address| !#[trigger] env.vouches.contains_key(x)
            &&& forall|x: Address| !#[trigger] env.default_counts.contains_key(x)
            &&& forall|id: u64| !#[trigger] env.loan_pools.contains_key(id)
            &&& env.outbox.len() == 0
        }),
{
}

} // verus!
