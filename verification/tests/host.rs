use quorum_credit::contract::QuorumCreditContract;
use quorum_credit::env::Env;
use quorum_credit::errors::{ContractError, Trap};
use quorum_credit::host::read_amounts;
use quorum_credit::types::{Defaults, VouchRecord};
use soroban_sdk::{IntoVal, TryFromVal, Val};

fn staked() -> Env {
    let defaults = Defaults {
        yield_bps: 250,
        slash_bps: 5_000,
        max_vouchers: 100,
        min_loan_amount: 1_000,
        loan_duration: 600,
        max_loan_to_stake_ratio: 150,
        referral_bonus_bps: 100,
    };
    let mut env = Env::new(defaults, 5_000, 20_000);
    let result =
        QuorumCreditContract::initialize(&mut env, 1, vec![2], 1, 3, Ok(()), Ok(()));
    assert_eq!(result, Ok(()));
    env.outbox.clear();
    env.vouches.insert(10, vec![VouchRecord { voucher: 20, stake: 4_000 }]);
    env.vouches.insert(11, vec![VouchRecord { voucher: 20, stake: 2_000 }]);
    env
}

/// A host vector whose item at index 1 is a boolean.
fn mixed(host: &soroban_sdk::Env) -> soroban_sdk::Vec<i128> {
    let items: [Val; 3] = [1_500i128.into_val(host), true.into_val(host), 7i128.into_val(host)];
    let raw: Val = soroban_sdk::Vec::<Val>::from_array(host, items).to_val();
    soroban_sdk::Vec::<i128>::try_from_val(host, &raw).unwrap()
}

#[test]
fn amounts_are_read_in_order() {
    let host = soroban_sdk::Env::default();
    let amounts = soroban_sdk::Vec::from_array(&host, [5i128, -6, i128::MAX, i128::MIN, 0]);
    assert_eq!(read_amounts(&amounts), vec![5, -6, i128::MAX, i128::MIN, 0]);
    let none: soroban_sdk::Vec<i128> = soroban_sdk::Vec::new(&host);
    assert_eq!(read_amounts(&none), Vec::<i128>::new());
}

#[test]
fn reading_ends_before_the_first_item_that_is_no_amount() {
    let host = soroban_sdk::Env::default();
    assert_eq!(read_amounts(&mixed(&host)), vec![1_500]);
}

#[test]
fn pool_of_a_host_vector() {
    let host = soroban_sdk::Env::default();
    let amounts = soroban_sdk::Vec::from_array(&host, [6_000i128, 1_000]);
    let mut env = staked();
    let result = QuorumCreditContract::create_loan_pool_from_host(&mut env, vec![10, 11], &amounts);
    assert_eq!(result, Ok(Ok(1)));
    let pool = QuorumCreditContract::get_loan_pool(&env, 1).unwrap();
    assert_eq!(pool.amounts, vec![6_000, 1_000]);
    assert_eq!(pool.total_disbursed, 7_000);
    assert_eq!(env.loans[&2].amount, 1_000);
}

#[test]
fn pool_of_a_host_vector_is_refused_or_trapped() {
    let host = soroban_sdk::Env::default();
    let one = soroban_sdk::Vec::from_array(&host, [1_000i128]);
    let none: soroban_sdk::Vec<i128> = soroban_sdk::Vec::new(&host);
    let mut env = staked();
    let result = QuorumCreditContract::create_loan_pool_from_host(&mut env, vec![10, 11], &one);
    assert_eq!(result, Ok(Err(ContractError::PoolLengthMismatch)));
    let result = QuorumCreditContract::create_loan_pool_from_host(&mut env, vec![], &none);
    assert_eq!(result, Ok(Err(ContractError::PoolEmpty)));
    env.contract_balance = 999;
    let result = QuorumCreditContract::create_loan_pool_from_host(&mut env, vec![10], &one);
    assert_eq!(result, Ok(Err(ContractError::PoolInsufficientFunds)));
    env.config.as_mut().unwrap().min_loan_amount = 1_001;
    let result = QuorumCreditContract::create_loan_pool_from_host(&mut env, vec![10], &one);
    assert_eq!(result, Err(Trap::AmountBelowMinimum));
    env.config = None;
    let result = QuorumCreditContract::create_loan_pool_from_host(&mut env, vec![10], &one);
    assert_eq!(result, Err(Trap::NotInitialized));
    assert!(env.outbox.is_empty() && env.loans.is_empty());
}

#[test]
fn an_item_that_is_no_amount_aborts_once_it_is_reached() {
    let host = soroban_sdk::Env::default();
    let amounts = mixed(&host);
    let mut env = staked();
    let result =
        QuorumCreditContract::create_loan_pool_from_host(&mut env, vec![10, 11, 12], &amounts);
    assert_eq!(result, Err(Trap::UnreadableAmount));
    let result = QuorumCreditContract::create_loan_pool_from_host(&mut env, vec![10, 11], &amounts);
    assert_eq!(result, Ok(Err(ContractError::PoolLengthMismatch)));
    let one = soroban_sdk::Vec::from_array(&host, [1_000i128]);
    let result = QuorumCreditContract::create_loan_pool_from_host(&mut env, vec![10], &one);
    assert_eq!(result, Ok(Ok(1)));
    let result =
        QuorumCreditContract::create_loan_pool_from_host(&mut env, vec![10, 11, 12], &amounts);
    assert_eq!(result, Ok(Err(ContractError::PoolBorrowerActiveLoan)));
}
