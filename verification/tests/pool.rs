use quorum_credit::contract::QuorumCreditContract;
use quorum_credit::env::Env;
use quorum_credit::errors::{ContractError, Trap};
use quorum_credit::helpers::has_active_loan;
use quorum_credit::types::{Defaults, Effect, Event, LoanStatus, VouchRecord};

const TOKEN: u64 = 3;

/// A contract in which borrowers 10, 11 and 12 have stakes of 4000, 2000 and
/// 1000, and may borrow one and a half times as much.
fn staked() -> Env {
    let defaults = Defaults {
        yield_bps: 250,
        slash_bps: 5_000,
        max_vouchers: 100,
        min_loan_amount: 1_000,
        loan_duration: 600,
        max_loan_to_stake_ratio: 150,
        referral_bonus_bps: 100,
    };
    let mut env = Env::new(defaults, 5_000, 20_000);
    let result =
        QuorumCreditContract::initialize(&mut env, 1, vec![2], 1, TOKEN, Ok(()), Ok(()));
    assert_eq!(result, Ok(()));
    env.outbox.clear();
    env.vouches.insert(
        10,
        vec![
            VouchRecord { voucher: 20, stake: 1_500 },
            VouchRecord { voucher: 21, stake: 2_500 },
        ],
    );
    env.vouches.insert(11, vec![VouchRecord { voucher: 20, stake: 2_000 }]);
    env.vouches.insert(12, vec![VouchRecord { voucher: 22, stake: 1_000 }]);
    env
}

fn trap(env: &Env, borrowers: &[u64], amounts: &[i128]) -> Option<Trap> {
    QuorumCreditContract::create_loan_pool_trap(env, &borrowers.to_vec(), &amounts.to_vec())
}

fn create(env: &mut Env, borrowers: &[u64], amounts: &[i128]) -> Result<u64, ContractError> {
    assert_eq!(trap(env, borrowers, amounts), None);
    QuorumCreditContract::create_loan_pool(env, borrowers.to_vec(), amounts.to_vec())
}

fn untouched(env: &Env) -> bool {
    env.outbox.is_empty()
        && env.loans.is_empty()
        && env.loan_pools.is_empty()
        && env.loan_pool_counter.is_none()
        && env.loan_counter.is_none()
}

#[test]
fn pool_lends_to_every_borrower() {
    let mut env = staked();
    assert_eq!(create(&mut env, &[10, 11], &[6_000, 1_000]), Ok(1));
    assert_eq!(env.loan_counter, Some(2));
    let first = &env.loans[&1];
    assert_eq!(first.id, 1);
    assert_eq!(first.borrower, 10);
    assert!(first.co_borrowers.is_empty());
    assert_eq!(first.amount, 6_000);
    assert_eq!(first.amount_repaid, 0);
    assert_eq!(first.total_yield, 150);
    assert_eq!(first.status(), LoanStatus::Active);
    assert_eq!(first.created_at, 5_000);
    assert_eq!(first.disbursement_timestamp, 5_000);
    assert_eq!(first.repayment_timestamp, None);
    assert_eq!(first.deadline, 5_600);
    assert_eq!(first.loan_purpose, "pool");
    assert_eq!(first.token_address, TOKEN);
    let second = &env.loans[&2];
    assert_eq!(second.borrower, 11);
    assert_eq!(second.amount, 1_000);
    assert_eq!(second.total_yield, 25);
    assert_eq!(env.active_loans.get(&10), Some(&1));
    assert_eq!(env.active_loans.get(&11), Some(&2));
    assert_eq!(env.latest_loans.get(&10), Some(&1));
    assert_eq!(env.latest_loans.get(&11), Some(&2));
    assert!(has_active_loan(&env, 10) && has_active_loan(&env, 11));
    assert!(!has_active_loan(&env, 12));
}

#[test]
fn pool_pays_and_announces_in_order() {
    let mut env = staked();
    assert_eq!(create(&mut env, &[10, 11], &[6_000, 1_000]), Ok(1));
    assert_eq!(env.outbox.len(), 5);
    assert!(matches!(env.outbox[0], Effect::Transfer { token: TOKEN, to: 10, amount: 6_000 }));
    assert!(matches!(
        env.outbox[1],
        Effect::Publish(Event::PoolLoan {
            pool_id: 1,
            borrower: 10,
            amount: 6_000,
            deadline: 5_600
        })
    ));
    assert!(matches!(env.outbox[2], Effect::Transfer { token: TOKEN, to: 11, amount: 1_000 }));
    assert!(matches!(
        env.outbox[3],
        Effect::Publish(Event::PoolLoan {
            pool_id: 1,
            borrower: 11,
            amount: 1_000,
            deadline: 5_600
        })
    ));
    assert!(matches!(
        env.outbox[4],
        Effect::Publish(Event::PoolCreated { pool_id: 1, loans: 2, total_amount: 7_000 })
    ));
}

#[test]
fn pool_is_recorded_and_counted() {
    let mut env = staked();
    assert_eq!(create(&mut env, &[10, 11], &[6_000, 1_000]), Ok(1));
    assert_eq!(create(&mut env, &[12], &[1_500]), Ok(2));
    assert_eq!(QuorumCreditContract::get_loan_pool_count(&env), 2);
    let pool = QuorumCreditContract::get_loan_pool(&env, 1).unwrap();
    assert_eq!(pool.pool_id, 1);
    assert_eq!(pool.borrowers, vec![10, 11]);
    assert_eq!(pool.amounts, vec![6_000, 1_000]);
    assert_eq!(pool.created_at, 5_000);
    assert_eq!(pool.total_disbursed, 7_000);
    let pool = QuorumCreditContract::get_loan_pool(&env, 2).unwrap();
    assert_eq!(pool.borrowers, vec![12]);
    assert_eq!(pool.total_disbursed, 1_500);
    assert!(QuorumCreditContract::get_loan_pool(&env, 3).is_none());
    assert_eq!(env.loans[&3].borrower, 12);
}

#[test]
fn pool_twice_to_one_borrower_leaves_the_later_loan_active() {
    let mut env = staked();
    assert_eq!(create(&mut env, &[10, 10], &[1_000, 2_000]), Ok(1));
    assert_eq!(env.active_loans.get(&10), Some(&2));
    assert_eq!(env.latest_loans.get(&10), Some(&2));
    assert_eq!(env.loans[&1].amount, 1_000);
    assert_eq!(env.loans[&2].amount, 2_000);
    assert_eq!(env.outbox.len(), 5);
}

#[test]
fn pool_errors_leave_everything_as_it_was() {
    let mut env = staked();
    assert_eq!(create(&mut env, &[10], &[]), Err(ContractError::PoolLengthMismatch));
    assert_eq!(create(&mut env, &[], &[1_000]), Err(ContractError::PoolLengthMismatch));
    assert_eq!(create(&mut env, &[], &[]), Err(ContractError::PoolEmpty));
    env.contract_balance = 6_999;
    assert_eq!(
        create(&mut env, &[10, 11], &[6_000, 1_000]),
        Err(ContractError::PoolInsufficientFunds)
    );
    assert!(untouched(&env));
    env.contract_balance = 7_000;
    assert_eq!(create(&mut env, &[10, 11], &[6_000, 1_000]), Ok(1));
}

#[test]
fn pool_refuses_a_borrower_with_an_active_loan() {
    let mut env = staked();
    assert_eq!(create(&mut env, &[10], &[1_000]), Ok(1));
    let sent = env.outbox.len();
    assert_eq!(
        create(&mut env, &[11, 10], &[1_000, 1_000]),
        Err(ContractError::PoolBorrowerActiveLoan)
    );
    assert_eq!(env.outbox.len(), sent);
    assert!(!has_active_loan(&env, 11));
    // The refusal comes before what is wrong with later loans.
    assert_eq!(
        create(&mut env, &[10, 11], &[1_000, 1]),
        Err(ContractError::PoolBorrowerActiveLoan)
    );
    QuorumCreditContract::slash(&mut env, 10);
    env.vouches.insert(10, vec![VouchRecord { voucher: 20, stake: 1_000 }]);
    assert_eq!(create(&mut env, &[10], &[1_500]), Ok(2));
}

#[test]
fn pool_traps_on_items() {
    let env = staked();
    assert_eq!(trap(&env, &[10], &[999]), Some(Trap::AmountBelowMinimum));
    assert_eq!(trap(&env, &[10], &[6_001]), Some(Trap::AboveCollateralRatio));
    assert_eq!(trap(&env, &[99], &[1_000]), Some(Trap::AboveCollateralRatio));
    assert_eq!(trap(&env, &[10, 11], &[6_001, 1]), Some(Trap::AboveCollateralRatio));
    assert_eq!(trap(&env, &[10, 11], &[6_000, 1]), Some(Trap::AmountBelowMinimum));
    assert_eq!(trap(&env, &[10], &[6_000]), None);
}

#[test]
fn pool_traps_on_surroundings() {
    let mut env = staked();
    env.timestamp = u64::MAX - 599;
    assert_eq!(trap(&env, &[10], &[1_000]), Some(Trap::Overflow));
    env.timestamp = u64::MAX - 600;
    assert_eq!(trap(&env, &[10], &[1_000]), None);
    env.loan_pool_counter = Some(u64::MAX);
    assert_eq!(trap(&env, &[10], &[1_000]), Some(Trap::PoolIdOverflow));
    env.loan_pool_counter = Some(u64::MAX - 1);
    assert_eq!(trap(&env, &[10], &[1_000]), None);
    env.loan_counter = Some(u64::MAX);
    assert_eq!(trap(&env, &[10], &[1_000]), Some(Trap::Overflow));
    env.loan_counter = Some(u64::MAX - 1);
    assert_eq!(trap(&env, &[10], &[1_000]), None);
    assert_eq!(trap(&env, &[10, 11], &[1_000, 1_000]), Some(Trap::Overflow));
    env.config = None;
    assert_eq!(trap(&env, &[10], &[1_000]), Some(Trap::NotInitialized));
    assert_eq!(trap(&env, &[], &[]), None);
}

#[test]
fn pool_traps_on_overflowing_sums() {
    let mut env = staked();
    env.vouches.insert(
        13,
        vec![
            VouchRecord { voucher: 20, stake: i128::MAX },
            VouchRecord { voucher: 21, stake: 1 },
        ],
    );
    assert_eq!(trap(&env, &[13], &[1_000]), Some(Trap::Overflow));
    env.vouches.insert(13, vec![VouchRecord { voucher: 20, stake: i128::MAX / 150 + 1 }]);
    assert_eq!(trap(&env, &[13], &[1_000]), Some(Trap::Overflow));
    env.vouches.insert(13, vec![VouchRecord { voucher: 20, stake: i128::MAX / 150 }]);
    assert_eq!(trap(&env, &[13], &[1_000]), None);
    env.config.as_mut().unwrap().yield_bps = i128::MAX;
    assert_eq!(trap(&env, &[13], &[1_000]), Some(Trap::Overflow));
}
