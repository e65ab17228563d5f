use quorum_credit::contract::QuorumCreditContract;
use quorum_credit::env::Env;
use quorum_credit::errors::ContractError;
use quorum_credit::helpers::{
    config, require_allowed_token, require_not_paused, require_positive_amount,
};
use quorum_credit::types::{Defaults, Effect, Event, LoanPoolRecord, VouchRecord};

const DEPLOYER: u64 = 1;
const ADMIN: u64 = 2;
const TOKEN: u64 = 3;

fn defaults() -> Defaults {
    Defaults {
        yield_bps: 200,
        slash_bps: 5_000,
        max_vouchers: 100,
        min_loan_amount: 1_000,
        loan_duration: 600,
        max_loan_to_stake_ratio: 150,
        referral_bonus_bps: 100,
    }
}

fn initialized() -> Env {
    let mut env = Env::new(defaults(), 1_000, 0);
    let result = QuorumCreditContract::initialize(
        &mut env,
        DEPLOYER,
        vec![ADMIN, 9],
        2,
        TOKEN,
        Ok(()),
        Ok(()),
    );
    assert_eq!(result, Ok(()));
    env
}

#[test]
fn initialize_stores_deployer_and_configuration() {
    let mut env = initialized();
    assert!(QuorumCreditContract::is_initialized(&env));
    assert_eq!(env.deployer, Some(DEPLOYER));
    assert_eq!(QuorumCreditContract::get_token(&env), TOKEN);
    assert_eq!(QuorumCreditContract::get_max_vouchers_per_loan(&env), 100);
    let cfg = config(&env);
    assert_eq!(cfg.admins, vec![ADMIN, 9]);
    assert_eq!(cfg.admin_threshold, 2);
    assert!(cfg.allowed_tokens.is_empty());
    assert_eq!(cfg.yield_bps, 200);
    assert_eq!(cfg.slash_bps, 5_000);
    assert_eq!(cfg.min_loan_amount, 1_000);
    assert_eq!(cfg.loan_duration, 600);
    assert_eq!(cfg.max_loan_to_stake_ratio, 150);
    assert_eq!(cfg.grace_period, 0);
    assert!(!cfg.dynamic_slash_threshold);
    assert_eq!(env.outbox.len(), 1);
    match env.outbox.remove(0) {
        Effect::Publish(Event::Initialized { deployer, admins, admin_threshold, token }) => {
            assert_eq!(deployer, DEPLOYER);
            assert_eq!(admins, vec![ADMIN, 9]);
            assert_eq!(admin_threshold, 2);
            assert_eq!(token, TOKEN);
        }
        other => panic!("unexpected effect {:?}", other),
    }
}

#[test]
fn initialize_is_refused_the_second_time() {
    let mut env = initialized();
    let result = QuorumCreditContract::initialize(
        &mut env,
        7,
        vec![7],
        1,
        8,
        Err(ContractError::Rejected(1)),
        Ok(()),
    );
    assert_eq!(result, Err(ContractError::AlreadyInitialized));
    assert_eq!(env.deployer, Some(DEPLOYER));
    assert_eq!(QuorumCreditContract::get_token(&env), TOKEN);
    assert_eq!(env.outbox.len(), 1);
}

#[test]
fn initialize_passes_on_the_first_failed_check() {
    let mut env = Env::new(defaults(), 0, 0);
    let result = QuorumCreditContract::initialize(
        &mut env,
        DEPLOYER,
        vec![],
        0,
        TOKEN,
        Err(ContractError::Rejected(21)),
        Err(ContractError::InvalidToken),
    );
    assert_eq!(result, Err(ContractError::Rejected(21)));
    let result = QuorumCreditContract::initialize(
        &mut env,
        DEPLOYER,
        vec![ADMIN],
        1,
        TOKEN,
        Ok(()),
        Err(ContractError::InvalidToken),
    );
    assert_eq!(result, Err(ContractError::InvalidToken));
    assert!(!QuorumCreditContract::is_initialized(&env));
    assert!(env.deployer.is_none());
    assert!(env.outbox.is_empty());
}

#[test]
fn referral_bonus_defaults_and_reads_back() {
    let mut env = Env::new(defaults(), 0, 0);
    assert_eq!(QuorumCreditContract::get_referral_bonus_bps(&env), 100);
    QuorumCreditContract::set_referral_bonus_bps(&mut env, 10_000);
    assert_eq!(QuorumCreditContract::get_referral_bonus_bps(&env), 10_000);
    QuorumCreditContract::set_referral_bonus_bps(&mut env, 0);
    assert_eq!(QuorumCreditContract::get_referral_bonus_bps(&env), 0);
}

#[test]
fn max_vouchers_reads_back_and_nothing_else_changes() {
    let mut env = initialized();
    QuorumCreditContract::set_max_vouchers_per_loan(&mut env, 1);
    assert_eq!(QuorumCreditContract::get_max_vouchers_per_loan(&env), 1);
    let cfg = config(&env);
    assert_eq!(cfg.admins, vec![ADMIN, 9]);
    assert_eq!(cfg.token, TOKEN);
    assert_eq!(cfg.slash_bps, 5_000);
}

#[test]
fn pause_is_off_unless_stored() {
    let mut env = Env::new(defaults(), 0, 0);
    assert!(!QuorumCreditContract::get_paused(&env));
    assert_eq!(require_not_paused(&env), Ok(()));
    env.paused = Some(false);
    assert_eq!(require_not_paused(&env), Ok(()));
    env.paused = Some(true);
    assert!(QuorumCreditContract::get_paused(&env));
    assert_eq!(require_not_paused(&env), Err(ContractError::ContractPaused));
}

#[test]
fn only_positive_amounts_pass() {
    assert_eq!(require_positive_amount(1), Ok(()));
    assert_eq!(require_positive_amount(i128::MAX), Ok(()));
    assert_eq!(require_positive_amount(0), Err(ContractError::InsufficientFunds));
    assert_eq!(require_positive_amount(-1), Err(ContractError::InsufficientFunds));
    assert_eq!(require_positive_amount(i128::MIN), Err(ContractError::InsufficientFunds));
}

#[test]
fn allowed_tokens_are_the_primary_one_and_those_listed() {
    let mut env = initialized();
    assert_eq!(require_allowed_token(&env, TOKEN), Ok(TOKEN));
    assert_eq!(require_allowed_token(&env, 40), Err(ContractError::InvalidToken));
    env.config.as_mut().unwrap().allowed_tokens = vec![50, 40];
    assert_eq!(require_allowed_token(&env, 40), Ok(40));
    assert_eq!(require_allowed_token(&env, 50), Ok(50));
    assert_eq!(require_allowed_token(&env, 60), Err(ContractError::InvalidToken));
}

#[test]
fn views_of_an_empty_contract() {
    let env = Env::new(defaults(), 0, 0);
    assert!(!QuorumCreditContract::is_initialized(&env));
    assert_eq!(QuorumCreditContract::get_slash_treasury_balance(&env), 0);
    assert_eq!(QuorumCreditContract::get_vouches(&env, 5), None);
    assert!(QuorumCreditContract::get_loan_pool(&env, 1).is_none());
    assert_eq!(QuorumCreditContract::get_loan_pool_count(&env), 0);
}

#[test]
fn views_read_what_is_stored() {
    let mut env = initialized();
    env.contract_balance = 77;
    env.slash_treasury = Some(12);
    env.loan_pool_counter = Some(4);
    env.vouches.insert(5, vec![VouchRecord { voucher: 6, stake: 10 }]);
    env.loan_pools.insert(
        4,
        LoanPoolRecord {
            pool_id: 4,
            borrowers: vec![5],
            amounts: vec![8],
            created_at: 2,
            total_disbursed: 8,
        },
    );
    assert_eq!(QuorumCreditContract::get_contract_balance(&env), 77);
    assert_eq!(QuorumCreditContract::get_slash_treasury_balance(&env), 12);
    assert_eq!(QuorumCreditContract::get_loan_pool_count(&env), 4);
    assert_eq!(
        QuorumCreditContract::get_vouches(&env, 5),
        Some(vec![VouchRecord { voucher: 6, stake: 10 }])
    );
    let pool = QuorumCreditContract::get_loan_pool(&env, 4).unwrap();
    assert_eq!(pool.pool_id, 4);
    assert_eq!(pool.borrowers, vec![5]);
    assert_eq!(pool.amounts, vec![8]);
    assert_eq!(pool.created_at, 2);
    assert_eq!(pool.total_disbursed, 8);
}

#[test]
fn reputation_is_zero_without_a_reputation_contract() {
    let mut env = initialized();
    assert_eq!(QuorumCreditContract::get_reputation(&env, 9), 0);
    env.reputation_nft = Some(30);
    assert_eq!(QuorumCreditContract::get_reputation(&env, 9), 9);
    assert_eq!(QuorumCreditContract::get_reputation(&env, 0), 0);
}
