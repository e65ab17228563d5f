//! The contract: how it is set up, its parameters, and what it tells of itself.

use vstd::prelude::*;

use crate::env::{Env, EnvView};
use crate::errors::ContractError;
use crate::helpers::config;
use crate::types::{
    Address, Config, ConfigView, Effect, EffectView, Event, EventView, LoanPoolRecord, VouchRecord,
    MAX_REFERRAL_BONUS_BPS,
};

verus! {

/// The contract. Each entry point takes the surroundings of its invocation.
pub struct QuorumCreditContract;

impl EnvView {
    /// The configuration that a contract starts with.
    pub open spec fn first_config(
        self,
        admins: Seq<Address>,
        admin_threshold: u32,
        token: Address,
    ) -> ConfigView {
        ConfigView {
            admins,
            admin_threshold,
            token,
            allowed_tokens: Seq::empty(),
            yield_bps: self.defaults.yield_bps,
            slash_bps: self.defaults.slash_bps,
            max_vouchers: self.defaults.max_vouchers,
            min_loan_amount: self.defaults.min_loan_amount,
            loan_duration: self.defaults.loan_duration,
            max_loan_to_stake_ratio: self.defaults.max_loan_to_stake_ratio,
            grace_period: 0,
            dynamic_slash_threshold: false,
        }
    }

    /// The surroundings once the contract is initialized: the deployer and the
    /// first configuration are stored, and that is announced.
    pub open spec fn initialized(
        self,
        deployer: Address,
        admins: Seq<Address>,
        admin_threshold: u32,
        token: Address,
    ) -> EnvView {
        EnvView {
            deployer: Some(deployer),
            config: Some(self.first_config(admins, admin_threshold, token)),
            ..self
        }.asking(
            seq![
                EffectView::Publish(
                    EventView::Initialized { deployer, admins, admin_threshold, token },
                ),
            ],
        )
    }
}

/// Why `initialize` is refused, if it is: the contract is initialized already,
/// or the check of the admins failed, or else the check of the token.
pub open spec fn initialize_error(
    env: EnvView,
    admin_check: Result<(), ContractError>,
    token_check: Result<(), ContractError>,
) -> Option<ContractError> {
    if env.config is Some {
        Some(ContractError::AlreadyInitialized)
    } else if admin_check is Err {
        Some(admin_check->Err_0)
    } else if token_check is Err {
        Some(token_check->Err_0)
    } else {
        None
    }
}

impl QuorumCreditContract {
    /// Sets the contract up, once, after the deployer's authorization.
    ///
    /// `admin_check` is what the check of the admins and their threshold came
    /// to, and `token_check` whether the token implements the token interface.
    pub fn initialize(
        env: &mut Env,
        deployer: Address,
        admins: Vec<Address>,
        admin_threshold: u32,
        token: Address,
        admin_check: Result<(), ContractError>,
        token_check: Result<(), ContractError>,
    ) -> (result: Result<(), ContractError>)
        ensures
            match initialize_error(old(env)@, admin_check, token_check) {
                Some(error) => {
                    &&& result == Err::<(), ContractError>(error)
                    &&& final(env)@ == old(env)@
                },
                None => {
                    &&& result == Ok::<(), ContractError>(())
                    &&& final(env)@ == old(env)@.initialized(
                        deployer,
                        admins@,
                        admin_threshold,
                        token,
                    )
                },
            },
    {
        if env.config.is_some() {
            return Err(ContractError::AlreadyInitialized);
        }
        admin_check?;
        token_check?;
        let ghost before = env@;
        let announced = admins.clone();
        assert(announced@ =~= admins@);
        let defaults = env.defaults;
        let allowed_tokens: Vec<Address> = Vec::new();
        let config = Config {
            admins,
            admin_threshold,
            token,
            allowed_tokens,
            yield_bps: defaults.yield_bps,
            slash_bps: defaults.slash_bps,
            max_vouchers: defaults.max_vouchers,
            min_loan_amount: defaults.min_loan_amount,
            loan_duration: defaults.loan_duration,
            max_loan_to_stake_ratio: defaults.max_loan_to_stake_ratio,
            grace_period: 0,
            dynamic_slash_threshold: false,
        };
        assert(config@ =~= before.first_config(admins@, admin_threshold, token));
        env.deployer = Some(deployer);
        env.config = Some(config);
        env.ask(
            Effect::Publish(
                Event::Initialized { deployer, admins: announced, admin_threshold, token },
            ),
        );
        Ok(())
    }

    /// Sets the referral bonus, after admin approval. It is at most one whole.
    pub fn set_referral_bonus_bps(env: &mut Env, bonus_bps: u32)
        requires
            bonus_bps <= MAX_REFERRAL_BONUS_BPS,
        ensures
            final(env)@ == (EnvView { referral_bonus_bps: Some(bonus_bps), ..old(env)@ }),
    {
        env.referral_bonus_bps = Some(bonus_bps);
    }

    /// The referral bonus.
    pub fn get_referral_bonus_bps(env: &Env) -> (bonus_bps: u32)
        ensures
            bonus_bps == env@.referral_bonus(),
    {
        env.referral_bonus_bps.unwrap_or(env.defaults.referral_bonus_bps)
    }

    /// Sets how many vouchers a loan may have, after admin approval. It is not
    /// zero.
    pub fn set_max_vouchers_per_loan(env: &mut Env, max: u32)
        requires
            old(env)@.config is Some,
            max > 0,
        ensures
            final(env)@ == (EnvView {
                config: Some(ConfigView { max_vouchers: max, ..old(env)@.config->0 }),
                ..old(env)@
            }),
    {
        let mut cfg = env.config.take().unwrap();
        cfg.max_vouchers = max;
        env.config = Some(cfg);
    }

    /// How many vouchers a loan may have.
    pub fn get_max_vouchers_per_loan(env: &Env) -> (max: u32)
        requires
            env@.config is Some,
        ensures
            max == env@.config->0.max_vouchers,
    {
        config(env).max_vouchers
    }

    /// Whether the contract is set up.
    pub fn is_initialized(env: &Env) -> (initialized: bool)
        ensures
            initialized == (env@.config is Some),
    {
        env.config.is_some()
    }

    /// The primary token.
    pub fn get_token(env: &Env) -> (token: Address)
        requires
            env@.config is Some,
        ensures
            token == env@.config->0.token,
    {
        config(env).token
    }

    /// Whether the contract is paused.
    pub fn get_paused(env: &Env) -> (paused: bool)
        ensures
            paused == env@.is_paused(),
    {
        env.paused.unwrap_or(false)
    }

    /// The slashed funds that have not been withdrawn.
    pub fn get_slash_treasury_balance(env: &Env) -> (balance: i128)
        ensures
            balance == env@.treasury(),
    {
        env.slash_treasury.unwrap_or(0)
    }

    /// What the contract holds of the primary token.
    pub fn get_contract_balance(env: &Env) -> (balance: i128)
        requires
            env@.config is Some,
        ensures
            balance == env@.contract_balance,
    {
        env.contract_balance
    }

    /// The vouches for a borrower, where any are stored.
    pub fn get_vouches(env: &Env, borrower: Address) -> (vouches: Option<Vec<VouchRecord>>)
        ensures
            vouches is Some == env@.vouches.contains_key(borrower),
            vouches matches Some(stored) ==> stored@ == env@.vouches[borrower],
    {
        match env.vouches.get(&borrower) {
            Some(stored) => {
                let vouches = stored.clone();
                assert(vouches@ =~= stored@);
                Some(vouches)
            },
            None => None,
        }
    }

    /// A loan pool, where one has the id.
    pub fn get_loan_pool(env: &Env, pool_id: u64) -> (pool: Option<LoanPoolRecord>)
        ensures
            pool is Some == env@.loan_pools.contains_key(pool_id),
            pool matches Some(record) ==> record@ == env@.loan_pools[pool_id],
    {
        match env.loan_pools.get(&pool_id) {
            Some(pool) => Some(pool.clone()),
            None => None,
        }
    }

    /// How many loan pools were made.
    pub fn get_loan_pool_count(env: &Env) -> (count: u64)
        ensures
            count == env@.last_pool_id(),
    {
        env.loan_pool_counter.unwrap_or(0)
    }

    /// A borrower's reputation: the balance that the reputation contract
    /// reports for the borrower, or 0 where there is no such contract.
    pub fn get_reputation(env: &Env, reported: u32) -> (reputation: u32)
        ensures
            reputation == if env@.reputation_nft is Some {
                reported
            } else {
                0
            },
    {
        match env.reputation_nft {
            Some(_) => reported,
            None => 0,
        }
    }
}

} // verus!
