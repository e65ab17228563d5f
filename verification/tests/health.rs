use quorum_credit::contract::QuorumCreditContract;
use quorum_credit::env::Env;
use quorum_credit::errors::Trap;
use quorum_credit::helpers::{
    calculate_dynamic_slash_threshold, calculate_dynamic_slash_threshold_trap,
    calculate_protocol_health_score,
};
use quorum_credit::types::Defaults;

fn env_with(balance: i128, slash_bps: i128) -> Env {
    let defaults = Defaults {
        yield_bps: 200,
        slash_bps,
        max_vouchers: 100,
        min_loan_amount: 1_000,
        loan_duration: 600,
        max_loan_to_stake_ratio: 150,
        referral_bonus_bps: 100,
    };
    let mut env = Env::new(defaults, 0, balance);
    let result =
        QuorumCreditContract::initialize(&mut env, 1, vec![2], 1, 3, Ok(()), Ok(()));
    assert_eq!(result, Ok(()));
    env.config.as_mut().unwrap().dynamic_slash_threshold = true;
    env
}

fn score(balance: i128) -> i128 {
    calculate_protocol_health_score(&env_with(balance, 5_000))
}

fn penalty(balance: i128) -> i128 {
    let env = env_with(balance, 5_000);
    assert_eq!(calculate_dynamic_slash_threshold_trap(&env), None);
    calculate_dynamic_slash_threshold(&env)
}

#[test]
fn reserve_counts_up_to_forty_percent() {
    assert_eq!(score(-5), 6_000);
    assert_eq!(score(0), 6_000);
    assert_eq!(score(49_999), 6_000);
    assert_eq!(score(50_000), 6_001);
    assert_eq!(score(50_000_000), 7_000);
    assert_eq!(score(99_999_999), 7_999);
    assert_eq!(score(100_000_000), 8_000);
    assert_eq!(score(550_000_000), 9_000);
    assert_eq!(score(999_999_999), 9_999);
    assert_eq!(score(1_000_000_000), 10_000);
    assert_eq!(score(i128::MAX), 10_000);
}

#[test]
fn reserve_score_never_falls_as_the_balance_grows() {
    let mut last: i128 = 0;
    let mut balance: i128 = -10_000_000;
    while balance <= 1_100_000_000 {
        let now = score(balance);
        assert!(last <= now && now <= 10_000);
        last = now;
        balance += 7_654_321;
    }
    assert_eq!(last, 10_000);
}

#[test]
fn pausing_costs_thirty_percent() {
    let mut env = env_with(1_000_000_000, 5_000);
    env.paused = Some(true);
    assert_eq!(calculate_protocol_health_score(&env), 7_000);
    env.paused = Some(false);
    assert_eq!(calculate_protocol_health_score(&env), 10_000);
}

#[test]
fn without_configuration_only_not_being_paused_counts() {
    let mut env = env_with(1_000_000_000, 5_000);
    env.config = None;
    assert_eq!(calculate_protocol_health_score(&env), 3_000);
    env.paused = Some(true);
    assert_eq!(calculate_protocol_health_score(&env), 0);
    assert_eq!(calculate_dynamic_slash_threshold_trap(&env), Some(Trap::NotInitialized));
}

#[test]
fn penalty_follows_health() {
    assert_eq!(penalty(1_000_000_000), 2_500);
    assert_eq!(penalty(550_000_000), 3_750);
    assert_eq!(penalty(100_000_000), 5_000);
    assert_eq!(penalty(50_000_000), 5_312);
    assert_eq!(penalty(0), 5_625);
}

#[test]
fn penalty_of_a_paused_contract_without_reserve() {
    let mut env = env_with(0, 5_000);
    env.paused = Some(true);
    assert_eq!(calculate_protocol_health_score(&env), 3_000);
    assert_eq!(calculate_dynamic_slash_threshold(&env), 6_562);
}

#[test]
fn static_penalty_while_the_dynamic_threshold_is_disabled() {
    let mut env = env_with(1_000_000_000, 4_321);
    env.config.as_mut().unwrap().dynamic_slash_threshold = false;
    assert_eq!(calculate_dynamic_slash_threshold_trap(&env), None);
    assert_eq!(calculate_dynamic_slash_threshold(&env), 4_321);
}

#[test]
fn penalty_from_a_configured_one_below_the_least() {
    let env = env_with(550_000_000, 999);
    assert_eq!(calculate_dynamic_slash_threshold(&env), 1_749);
}

#[test]
fn penalty_that_overflows_is_a_trap() {
    let env = env_with(1_000_000_000, i128::MAX);
    assert_eq!(calculate_dynamic_slash_threshold_trap(&env), Some(Trap::Overflow));
    let env = env_with(1_000_000_000, i128::MIN);
    assert_eq!(calculate_dynamic_slash_threshold_trap(&env), Some(Trap::Overflow));
    let env = env_with(0, i128::MIN);
    assert_eq!(calculate_dynamic_slash_threshold_trap(&env), Some(Trap::Overflow));
}
