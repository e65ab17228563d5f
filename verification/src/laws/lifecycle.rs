//! Laws of the contract's life: what holds from its setup on, whatever it does.

use vstd::prelude::*;

use crate::arith::sum;
use crate::contract::{initialize_error, QuorumCreditContract};
use crate::env::{Env, EnvView};
use crate::errors::ContractError;
use crate::laws::pool::{
    is_last_for, law_pool_is_recorded, law_pool_keeps_limits, law_pool_loans, lemma_last_for,
    pool_loan_id,
};
use crate::types::{Address, ConfigView, Defaults, EffectView, EventView};

verus! {

/// Whether the stored records fit together.
pub open spec fn consistent(env: EnvView) -> bool {
    // Loans are stored under their ids, which were all taken from the counter.
    &&& forall|id: u64| #[trigger]
        env.loans.contains_key(id) ==> env.loans[id].id == id && id <= env.last_loan_id()
    // An active loan is an open loan of its borrower.
    &&& forall|x: Address| #[trigger]
        env.active_loans.contains_key(x) ==> {
            &&& env.loans.contains_key(env.active_loans[x])
            &&& env.loans[env.active_loans[x]].borrower == x
            &&& env.loans[env.active_loans[x]].is_open()
        }
    // A latest loan is a loan of its borrower.
    &&& forall|x: Address| #[trigger]
        env.latest_loans.contains_key(x) ==> {
            &&& env.loans.contains_key(env.latest_loans[x])
            &&& env.loans[env.latest_loans[x]].borrower == x
        }
    // Pools are stored under their ids, which were all taken from the counter,
    // and give the total of their amounts.
    &&& forall|id: u64| #[trigger]
        env.loan_pools.contains_key(id) ==> {
            &&& env.loan_pools[id].pool_id == id
            &&& id <= env.last_pool_id()
            &&& env.loan_pools[id].borrowers.len() == env.loan_pools[id].amounts.len()
            &&& env.loan_pools[id].total_disbursed == sum(env.loan_pools[id].amounts)
        }
}

/// A contract for which nothing is stored is consistent.
pub proof fn law_fresh_is_consistent(defaults: Defaults, timestamp: u64, contract_balance: i128)
    ensures
        consistent(EnvView::fresh(defaults, timestamp, contract_balance)),
{
}

/// Setting the contract up and changing its parameters keep it consistent.
pub proof fn law_setup_keeps_consistency(
    env: EnvView,
    deployer: Address,
    admins: Seq<Address>,
    admin_threshold: u32,
    token: Address,
    config: ConfigView,
    bonus_bps: u32,
)
    requires
        consistent(env),
    ensures
        consistent(env.initialized(deployer, admins, admin_threshold, token)),
        consistent((EnvView { config: Some(config), ..env })),
        consistent((EnvView { referral_bonus_bps: Some(bonus_bps), ..env })),
{
}

/// Settling a loan, whichever way, keeps the contract consistent.
pub proof fn law_settlement_keeps_consistency(env: EnvView, borrower: Address)
    requires
        consistent(env),
        env.unsettled_loan_trap(borrower) is None,
    ensures
        consistent(env.slashed(borrower)),
        consistent(env.penalized(borrower)),
        consistent(env.claimed(borrower)),
{
    let loan = env.active_loan(borrower)->0;
    let after = env.closed(borrower);
    assert(loan.id == env.active_loans[borrower]);
    assert forall|x: Address| #[trigger] after.active_loans.contains_key(x) implies {
        &&& after.loans.contains_key(after.active_loans[x])
        &&& after.loans[after.active_loans[x]].borrower == x
        &&& after.loans[after.active_loans[x]].is_open()
    } by {
        assert(env.active_loans.contains_key(x));
        assert(env.active_loans[x] != loan.id);
    }
    assert(consistent(after));
}

/// Withdrawing slashed funds keeps the contract consistent.
pub proof fn law_withdrawal_keeps_consistency(env: EnvView, recipient: Address)
    requires
        consistent(env),
    ensures
        consistent(env.withdrawn(recipient)),
{
}

/// Making a pool keeps the contract consistent.
pub proof fn law_pool_keeps_consistency(
    env: EnvView,
    borrowers: Seq<Address>,
    amounts: Seq<i128>,
)
    requires
        consistent(env),
        env.pool_stop(borrowers, amounts) is None,
    ensures
        consistent(env.with_pool(borrowers, amounts)),
{
    law_pool_keeps_limits(env, borrowers, amounts);
    law_pool_loans(env, borrowers, amounts);
    law_pool_is_recorded(env, borrowers, amounts);
    let after = env.with_pool(borrowers, amounts);
    let n = borrowers.len() as int;
    assert forall|id: u64| #[trigger] after.loans.contains_key(id) implies after.loans[id].id == id
        && id <= after.last_loan_id() by {
        if env.last_loan_id() < id <= env.last_loan_id() + n {
            let i = id - env.last_loan_id() - 1;
            assert(pool_loan_id(env, i) == id);
        } else {
            assert(env.loans.contains_key(id));
        }
    }
    assert forall|x: Address| #[trigger] after.active_loans.contains_key(x) implies {
        &&& after.loans.contains_key(after.active_loans[x])
        &&& after.loans[after.active_loans[x]].borrower == x
        &&& after.loans[after.active_loans[x]].is_open()
    } by {
        if borrowers.contains(x) {
            let i = choose|i: int| 0 <= i < n && borrowers[i] == x;
            let last = lemma_last_for(borrowers, i, n);
            assert(is_last_for(borrowers, last, n));
            assert(after.loans.contains_key(pool_loan_id(env, last)));
        } else {
            assert(env.active_loans.contains_key(x));
            assert(env.loans.contains_key(env.active_loans[x]));
            assert(after.loans.contains_key(env.active_loans[x]));
        }
    }
    assert forall|x: Address| #[trigger] after.latest_loans.contains_key(x) implies {
        &&& after.loans.contains_key(after.latest_loans[x])
        &&& after.loans[after.latest_loans[x]].borrower == x
    } by {
        if borrowers.contains(x) {
            let i = choose|i: int| 0 <= i < n && borrowers[i] == x;
            let last = lemma_last_for(borrowers, i, n);
            assert(is_last_for(borrowers, last, n));
            assert(after.loans.contains_key(pool_loan_id(env, last)));
        } else {
            assert(after.active_loans.contains_key(x) == env.active_loans.contains_key(x));
            assert(env.latest_loans.contains_key(x));
            assert(env.loans.contains_key(env.latest_loans[x]));
            assert(after.loans.contains_key(env.latest_loans[x]));
        }
    }
    assert forall|id: u64| #[trigger] after.loan_pools.contains_key(id) implies {
        &&& after.loan_pools[id].pool_id == id
        &&& id <= after.last_pool_id()
        &&& after.loan_pools[id].borrowers.len() == after.loan_pools[id].amounts.len()
        &&& after.loan_pools[id].total_disbursed == sum(after.loan_pools[id].amounts)
    } by {
        if id != env.next_pool_id() {
            assert(env.loan_pools.contains_key(id));
        }
    }
}

/// In a consistent contract a pool overwrites nothing: neither its own id nor
/// the ids of its loans are in use.
pub proof fn law_pool_ids_are_new(env: EnvView, borrowers: Seq<Address>, amounts: Seq<i128>, i: int)
    requires
        consistent(env),
        env.pool_stop(borrowers, amounts) is None,
        0 <= i < borrowers.len(),
    ensures
        !env.loans.contains_key(pool_loan_id(env, i)),
        !env.loan_pools.contains_key(env.next_pool_id()),
{
    law_pool_keeps_limits(env, borrowers, amounts);
}

/// In a consistent contract a note of an active loan is all that it takes to
/// have one.
pub proof fn law_active_notes_are_active_loans(env: EnvView, borrower: Address)
    requires
        consistent(env),
    ensures
        env.has_active_loan(borrower) == env.active_loans.contains_key(borrower),
        env.unsettled_loan_trap(borrower) is None == env.active_loans.contains_key(borrower),
{
}

/// Setting a contract up is refused exactly if it is set up already, or else the
/// check of the admins failed, or else the check of the token failed; it is
/// answered with the error of the first of these, and then changes nothing.
pub proof fn law_initialize_is_refused(
    env: &mut Env,
    deployer: Address,
    admins: Vec<Address>,
    admin_threshold: u32,
    token: Address,
    admin_check: Result<(), ContractError>,
    token_check: Result<(), ContractError>,
    result: Result<(), ContractError>,
)
    requires
        call_ensures(
            QuorumCreditContract::initialize,
            (env, deployer, admins, admin_threshold, token, admin_check, token_check),
            result,
        ),
    ensures
        call_requires(
            QuorumCreditContract::initialize,
            (env, deployer, admins, admin_threshold, token, admin_check, token_check),
        ),
        result is Ok <==> old(env)@.config is None && admin_check is Ok && token_check is Ok,
        result is Err ==> final(env)@ == old(env)@,
        old(env)@.config is Some ==> result == Err::<(), ContractError>(
            ContractError::AlreadyInitialized,
        ),
        old(env)@.config is None && admin_check is Err ==> result == admin_check,
        old(env)@.config is None && admin_check is Ok && token_check is Err ==> result
            == token_check,
{
}

/// Setting a contract up stores its deployer and a configuration, of the
/// admins, the threshold and the token that it is told, of the parameters that
/// it was deployed with, and with no further tokens, no grace period and no
/// dynamic threshold. It announces the deployer, the admins, the threshold and
/// the token. Nothing else changes.
pub proof fn law_initialize_result(
    env: &mut Env,
    deployer: Address,
    admins: Vec<Address>,
    admin_threshold: u32,
    token: Address,
    admin_check: Result<(), ContractError>,
    token_check: Result<(), ContractError>,
    result: Result<(), ContractError>,
)
    requires
        call_ensures(
            QuorumCreditContract::initialize,
            (env, deployer, admins, admin_threshold, token, admin_check, token_check),
            result,
        ),
        result is Ok,
    ensures
        final(env)@ == (EnvView {
            deployer: Some(deployer),
            config: Some(
                ConfigView {
                    admins: admins@,
                    admin_threshold,
                    token,
                    allowed_tokens: seq![],
                    yield_bps: old(env)@.defaults.yield_bps,
                    slash_bps: old(env)@.defaults.slash_bps,
                    max_vouchers: old(env)@.defaults.max_vouchers,
                    min_loan_amount: old(env)@.defaults.min_loan_amount,
                    loan_duration: old(env)@.defaults.loan_duration,
                    max_loan_to_stake_ratio: old(env)@.defaults.max_loan_to_stake_ratio,
                    grace_period: 0,
                    dynamic_slash_threshold: false,
                },
            ),
            outbox: old(env)@.outbox.push(
                EffectView::Publish(
                    EventView::Initialized { deployer, admins: admins@, admin_threshold, token },
                ),
            ),
            ..old(env)@
        }),
{
}

/// A contract is set up once: after that every request to do so is refused.
pub proof fn law_initialized_once(
    env: EnvView,
    deployer: Address,
    admins: Seq<Address>,
    admin_threshold: u32,
    token: Address,
    admin_check: Result<(), ContractError>,
    token_check: Result<(), ContractError>,
)
    ensures
        initialize_error(
            env.initialized(deployer, admins, admin_threshold, token),
            admin_check,
            token_check,
        ) == Some(ContractError::AlreadyInitialized),
{
}

/// Neither settling loans nor withdrawing slashed funds touches the
/// configuration, so a contract that was set up stays so. That a pool does not
/// either is part of how pools are recorded.
pub proof fn law_configuration_stays(env: EnvView, borrower: Address, recipient: Address)
    ensures
        env.slashed(borrower).config == env.config,
        env.penalized(borrower).config == env.config,
        env.claimed(borrower).config == env.config,
        env.withdrawn(recipient).config == env.config,
{
}

/// A referral bonus reads back as it was set, also after loans were settled and
/// slashed funds were withdrawn.
pub proof fn law_referral_bonus_reads_back(
    env: EnvView,
    bonus_bps: u32,
    borrower: Address,
    recipient: Address,
)
    ensures
        ({
            let set = EnvView { referral_bonus_bps: Some(bonus_bps), ..env };
            &&& set.referral_bonus() == bonus_bps
            &&& set.slashed(borrower).referral_bonus() == bonus_bps
            &&& set.penalized(borrower).referral_bonus() == bonus_bps
            &&& set.claimed(borrower).referral_bonus() == bonus_bps
            &&& set.withdrawn(recipient).referral_bonus() == bonus_bps
        }),
{
}

} // verus!
