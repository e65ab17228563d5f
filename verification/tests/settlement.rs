use quorum_credit::contract::QuorumCreditContract;
use quorum_credit::env::Env;
use quorum_credit::errors::{ContractError, Trap};
use quorum_credit::helpers::{get_active_loan_record, has_active_loan};
use quorum_credit::types::{Defaults, Effect, Event, LoanRecord, LoanStatus, VouchRecord};

const BORROWER: u64 = 10;
const OTHER: u64 = 11;
const LOAN_TOKEN: u64 = 4;

fn loan(id: u64, borrower: u64) -> LoanRecord {
    LoanRecord {
        id,
        borrower,
        co_borrowers: vec![70, 71],
        amount: 900,
        amount_repaid: 10,
        total_yield: 18,
        repaid: false,
        defaulted: false,
        created_at: 100,
        disbursement_timestamp: 100,
        repayment_timestamp: None,
        deadline: 700,
        loan_purpose: "seed".to_string(),
        token_address: LOAN_TOKEN,
    }
}

/// A contract with a 30% penalty, in which two borrowers have an open loan.
fn lending(now: u64) -> Env {
    let defaults = Defaults {
        yield_bps: 200,
        slash_bps: 3_000,
        max_vouchers: 100,
        min_loan_amount: 1_000,
        loan_duration: 600,
        max_loan_to_stake_ratio: 150,
        referral_bonus_bps: 100,
    };
    let mut env = Env::new(defaults, now, 0);
    let result =
        QuorumCreditContract::initialize(&mut env, 1, vec![2], 1, 3, Ok(()), Ok(()));
    assert_eq!(result, Ok(()));
    env.outbox.clear();
    env.loan_counter = Some(2);
    env.loans.insert(1, loan(1, BORROWER));
    env.loans.insert(2, loan(2, OTHER));
    env.active_loans.insert(BORROWER, 1);
    env.active_loans.insert(OTHER, 2);
    env.vouches.insert(
        BORROWER,
        vec![
            VouchRecord { voucher: 20, stake: 1_001 },
            VouchRecord { voucher: 21, stake: 0 },
            VouchRecord { voucher: 22, stake: 10 },
        ],
    );
    env.vouches.insert(OTHER, vec![VouchRecord { voucher: 20, stake: 5 }]);
    env.default_counts.insert(BORROWER, 4);
    env.slash_treasury = Some(50);
    env
}

fn transfer(effect: &Effect) -> (u64, u64, i128) {
    match effect {
        Effect::Transfer { token, to, amount } => (*token, *to, *amount),
        other => panic!("unexpected effect {:?}", other),
    }
}

#[test]
fn slash_divides_stakes_and_closes_the_loan() {
    let mut env = lending(100);
    env.reputation_nft = Some(33);
    assert_eq!(QuorumCreditContract::slash_trap(&env, BORROWER), None);
    QuorumCreditContract::slash(&mut env, BORROWER);
    // 30% of 1001 is 300 and of 10 is 3; nothing is paid for an empty stake.
    assert_eq!(env.outbox.len(), 4);
    assert_eq!(transfer(&env.outbox[0]), (LOAN_TOKEN, 20, 701));
    assert_eq!(transfer(&env.outbox[1]), (LOAN_TOKEN, 22, 7));
    assert!(matches!(env.outbox[2], Effect::Burn { nft: 33, holder: BORROWER }));
    assert!(matches!(
        env.outbox[3],
        Effect::Publish(Event::LoanSlashed { borrower: BORROWER, amount: 900, total_slashed: 303 })
    ));
    assert_eq!(QuorumCreditContract::get_slash_treasury_balance(&env), 353);
    assert_eq!(env.default_counts[&BORROWER], 5);
    assert!(!has_active_loan(&env, BORROWER));
    assert_eq!(QuorumCreditContract::get_vouches(&env, BORROWER), None);
    let record = &env.loans[&1];
    assert_eq!(record.status(), LoanStatus::Defaulted);
    assert!(record.defaulted && !record.repaid);
    assert_eq!(record.co_borrowers, vec![70, 71]);
    assert_eq!(record.amount_repaid, 10);
    assert_eq!(record.loan_purpose, "seed");
}

#[test]
fn slash_conserves_what_was_staked() {
    let mut env = lending(100);
    QuorumCreditContract::slash(&mut env, BORROWER);
    let mut paid: i128 = 0;
    for effect in env.outbox.iter() {
        if let Effect::Transfer { amount, .. } = effect {
            paid += amount;
        }
    }
    assert_eq!(paid + env.slash_treasury.unwrap() - 50, 1_011);
}

#[test]
fn slash_leaves_other_borrowers_alone() {
    let mut env = lending(100);
    QuorumCreditContract::slash(&mut env, BORROWER);
    assert!(has_active_loan(&env, OTHER));
    assert_eq!(env.active_loans.get(&OTHER), Some(&2));
    assert_eq!(env.vouches[&OTHER].len(), 1);
    assert!(env.default_counts.get(&OTHER).is_none());
    assert!(!env.loans[&2].defaulted);
}

#[test]
fn a_loan_is_slashed_once() {
    let mut env = lending(800);
    QuorumCreditContract::slash(&mut env, BORROWER);
    assert_eq!(QuorumCreditContract::slash_trap(&env, BORROWER), Some(Trap::NoActiveLoan));
    assert_eq!(QuorumCreditContract::auto_slash_trap(&env, BORROWER), Some(Trap::NoActiveLoan));
    assert_eq!(
        QuorumCreditContract::claim_expired_loan_trap(&env, BORROWER),
        Some(Trap::NoActiveLoan)
    );
}

#[test]
fn slash_without_vouches_takes_nothing() {
    let mut env = lending(100);
    env.vouches.remove(&BORROWER);
    env.default_counts.clear();
    env.slash_treasury = None;
    QuorumCreditContract::slash(&mut env, BORROWER);
    assert_eq!(env.outbox.len(), 1);
    assert!(matches!(
        env.outbox[0],
        Effect::Publish(Event::LoanSlashed { total_slashed: 0, .. })
    ));
    assert_eq!(env.slash_treasury, Some(0));
    assert_eq!(env.default_counts[&BORROWER], 1);
}

#[test]
fn whole_penalty_pays_nothing_back() {
    let mut env = lending(100);
    env.config.as_mut().unwrap().slash_bps = 10_000;
    QuorumCreditContract::slash(&mut env, BORROWER);
    assert_eq!(env.outbox.len(), 1);
    assert_eq!(env.slash_treasury, Some(50 + 1_011));
}

#[test]
fn slash_traps() {
    let mut env = lending(100);
    env.paused = Some(true);
    assert_eq!(QuorumCreditContract::slash_trap(&env, BORROWER), Some(Trap::Paused));
    env.paused = None;
    assert_eq!(QuorumCreditContract::slash_trap(&env, 99), Some(Trap::NoActiveLoan));
    env.loans.get_mut(&1).unwrap().repaid = true;
    assert_eq!(QuorumCreditContract::slash_trap(&env, BORROWER), Some(Trap::LoanSettled));
    env.loans.get_mut(&1).unwrap().repaid = false;
    env.config = None;
    assert_eq!(QuorumCreditContract::slash_trap(&env, BORROWER), Some(Trap::NotInitialized));
}

#[test]
fn slash_overflows_are_traps() {
    let mut env = lending(100);
    env.vouches.insert(BORROWER, vec![VouchRecord { voucher: 20, stake: i128::MAX }]);
    assert_eq!(QuorumCreditContract::slash_trap(&env, BORROWER), Some(Trap::Overflow));

    let mut env = lending(100);
    env.slash_treasury = Some(i128::MAX);
    assert_eq!(QuorumCreditContract::slash_trap(&env, BORROWER), Some(Trap::Overflow));

    let mut env = lending(100);
    env.default_counts.insert(BORROWER, u32::MAX);
    assert_eq!(QuorumCreditContract::slash_trap(&env, BORROWER), Some(Trap::Overflow));

    let mut env = lending(100);
    env.config.as_mut().unwrap().slash_bps = -1;
    env.vouches.insert(BORROWER, vec![VouchRecord { voucher: 20, stake: i128::MAX }]);
    assert_eq!(QuorumCreditContract::slash_trap(&env, BORROWER), Some(Trap::Overflow));
}

#[test]
fn a_settled_record_that_is_still_noted_cannot_be_settled_again() {
    let mut env = lending(800);
    env.loans.get_mut(&1).unwrap().defaulted = true;
    assert!(!has_active_loan(&env, BORROWER));
    assert!(get_active_loan_record(&env, BORROWER).is_ok());
    assert_eq!(QuorumCreditContract::auto_slash_trap(&env, BORROWER), Some(Trap::LoanSettled));
    assert_eq!(
        QuorumCreditContract::claim_expired_loan_trap(&env, BORROWER),
        Some(Trap::LoanSettled)
    );
}

#[test]
fn active_loan_record_needs_note_and_record() {
    let mut env = lending(100);
    assert_eq!(get_active_loan_record(&env, BORROWER).unwrap().id, 1);
    assert_eq!(get_active_loan_record(&env, 99).err(), Some(ContractError::NoActiveLoan));
    env.loans.remove(&1);
    assert_eq!(get_active_loan_record(&env, BORROWER).err(), Some(ContractError::NoActiveLoan));
    assert!(!has_active_loan(&env, BORROWER));
}

#[test]
fn auto_slash_only_after_the_deadline() {
    let env = lending(699);
    assert_eq!(
        QuorumCreditContract::auto_slash_trap(&env, BORROWER),
        Some(Trap::DeadlineNotPassed)
    );
    let env = lending(700);
    assert_eq!(
        QuorumCreditContract::auto_slash_trap(&env, BORROWER),
        Some(Trap::DeadlineNotPassed)
    );
    let env = lending(701);
    assert_eq!(QuorumCreditContract::auto_slash_trap(&env, BORROWER), None);
}

#[test]
fn auto_slash_is_the_standard_penalty_without_the_announcement() {
    let mut env = lending(701);
    env.reputation_nft = Some(33);
    env.paused = Some(true);
    assert_eq!(QuorumCreditContract::auto_slash_trap(&env, BORROWER), None);
    QuorumCreditContract::auto_slash(&mut env, BORROWER);
    assert_eq!(env.outbox.len(), 3);
    assert_eq!(transfer(&env.outbox[0]), (LOAN_TOKEN, 20, 701));
    assert_eq!(transfer(&env.outbox[1]), (LOAN_TOKEN, 22, 7));
    assert!(matches!(env.outbox[2], Effect::Burn { nft: 33, holder: BORROWER }));
    assert_eq!(env.slash_treasury, Some(353));
    assert_eq!(env.default_counts[&BORROWER], 5);
    assert!(env.loans[&1].defaulted);
    assert!(env.active_loans.get(&BORROWER).is_none());
    assert!(env.vouches.get(&BORROWER).is_none());
}

#[test]
fn auto_slash_needs_a_configuration() {
    let mut env = lending(701);
    env.config = None;
    assert_eq!(
        QuorumCreditContract::auto_slash_trap(&env, BORROWER),
        Some(Trap::NotInitialized)
    );
}

#[test]
fn claim_gives_every_stake_back() {
    let mut env = lending(700);
    env.reputation_nft = Some(33);
    assert_eq!(QuorumCreditContract::claim_expired_loan_trap(&env, BORROWER), None);
    QuorumCreditContract::claim_expired_loan(&mut env, BORROWER);
    assert_eq!(env.outbox.len(), 3);
    assert_eq!(transfer(&env.outbox[0]), (LOAN_TOKEN, 20, 1_001));
    assert_eq!(transfer(&env.outbox[1]), (LOAN_TOKEN, 21, 0));
    assert_eq!(transfer(&env.outbox[2]), (LOAN_TOKEN, 22, 10));
    assert_eq!(env.slash_treasury, Some(50));
    assert_eq!(env.default_counts[&BORROWER], 4);
    assert!(env.loans[&1].defaulted);
    assert!(env.active_loans.get(&BORROWER).is_none());
    assert!(env.vouches.get(&BORROWER).is_none());
    assert!(has_active_loan(&env, OTHER));
}

#[test]
fn claim_needs_an_expired_loan() {
    let env = lending(699);
    assert_eq!(
        QuorumCreditContract::claim_expired_loan_trap(&env, BORROWER),
        Some(Trap::NotExpired)
    );
    assert_eq!(
        QuorumCreditContract::claim_expired_loan_trap(&env, 99),
        Some(Trap::NoActiveLoan)
    );
}

#[test]
fn treasury_is_withdrawn_once() {
    let mut env = lending(100);
    QuorumCreditContract::slash(&mut env, BORROWER);
    env.outbox.clear();
    assert_eq!(QuorumCreditContract::slash_treasury_trap(&env), None);
    QuorumCreditContract::slash_treasury(&mut env, 88);
    assert_eq!(env.outbox.len(), 1);
    assert_eq!(transfer(&env.outbox[0]), (3, 88, 353));
    assert_eq!(QuorumCreditContract::get_slash_treasury_balance(&env), 0);
    assert_eq!(QuorumCreditContract::slash_treasury_trap(&env), Some(Trap::NoSlashedFunds));
}

#[test]
fn treasury_traps() {
    let mut env = lending(100);
    env.slash_treasury = None;
    assert_eq!(QuorumCreditContract::slash_treasury_trap(&env), Some(Trap::NoSlashedFunds));
    env.slash_treasury = Some(-1);
    assert_eq!(QuorumCreditContract::slash_treasury_trap(&env), Some(Trap::NoSlashedFunds));
    env.slash_treasury = Some(1);
    env.config = None;
    assert_eq!(QuorumCreditContract::slash_treasury_trap(&env), Some(Trap::NotInitialized));
}
