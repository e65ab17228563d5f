//! How a loan that was not repaid is settled: by slashing its vouchers, or by
//! giving them their stakes back; and what becomes of the slashed funds.

use vstd::prelude::*;

use crate::arith::{bps_share, checked_bps_share, fits};
use crate::contract::QuorumCreditContract;
use crate::env::{Env, EnvView};
use crate::errors::Trap;
use crate::helpers::{add_slash_balance, config, get_active_loan_record, require_not_paused};
use crate::types::{
    Address, Effect, EffectView, Event, EventView, LoanRecord, LoanView, VouchRecord,
    BPS_DENOMINATOR,
};

verus! {

/// The part of a stake that is slashed.
pub open spec fn slashed_part(vouch: VouchRecord, slash_bps: i128) -> int {
    bps_share(vouch.stake as int, slash_bps as int)
}

/// The part of a stake that is given back.
pub open spec fn returned_part(vouch: VouchRecord, slash_bps: i128) -> int {
    vouch.stake - slashed_part(vouch, slash_bps)
}

/// What is slashed of all the stakes together.
pub open spec fn total_slashed(vouches: Seq<VouchRecord>, slash_bps: i128) -> int
    decreases vouches.len(),
{
    if vouches.len() == 0 {
        0
    } else {
        total_slashed(vouches.drop_last(), slash_bps) + slashed_part(vouches.last(), slash_bps)
    }
}

/// Whether one stake can be divided in `i128` arithmetic.
pub open spec fn part_fits(vouch: VouchRecord, slash_bps: i128) -> bool {
    fits(vouch.stake * slash_bps) && fits(returned_part(vouch, slash_bps))
}

/// Whether all stakes can be divided, and what is slashed of them added up
/// from left to right, in `i128` arithmetic.
pub open spec fn slash_fits(vouches: Seq<VouchRecord>, slash_bps: i128) -> bool {
    &&& forall|i: int| 0 <= i < vouches.len() ==> part_fits(#[trigger] vouches[i], slash_bps)
    &&& forall|n: int|
        0 <= n <= vouches.len() ==> fits(#[trigger] total_slashed(vouches.take(n), slash_bps))
}

/// The payments that give each voucher what is left of the stake, where
/// anything is left, in the order of the vouches.
pub open spec fn refunds(token: Address, vouches: Seq<VouchRecord>, slash_bps: i128) -> Seq<
    EffectView,
>
    decreases vouches.len(),
{
    if vouches.len() == 0 {
        Seq::empty()
    } else {
        let earlier = refunds(token, vouches.drop_last(), slash_bps);
        let last = vouches.last();
        if returned_part(last, slash_bps) > 0 {
            earlier.push(
                EffectView::Transfer {
                    token,
                    to: last.voucher,
                    amount: returned_part(last, slash_bps) as i128,
                },
            )
        } else {
            earlier
        }
    }
}

/// The payments that give each voucher the whole stake back, in the order of
/// the vouches.
pub open spec fn full_refunds(token: Address, vouches: Seq<VouchRecord>) -> Seq<EffectView> {
    vouches.map_values(
        |vouch: VouchRecord|
            EffectView::Transfer { token, to: vouch.voucher, amount: vouch.stake },
    )
}

/// The loan, defaulted.
pub open spec fn defaulted(loan: LoanView) -> LoanView {
    LoanView { defaulted: true, ..loan }
}

impl EnvView {
    /// Why the borrower's loan cannot be settled, if it cannot.
    pub open spec fn unsettled_loan_trap(self, borrower: Address) -> Option<Trap> {
        match self.active_loan(borrower) {
            None => Some(Trap::NoActiveLoan),
            Some(loan) => if loan.is_open() {
                None
            } else {
                Some(Trap::LoanSettled)
            },
        }
    }

    /// What slashing takes from the borrower's vouchers together.
    pub open spec fn slash_total(self, borrower: Address) -> int {
        total_slashed(self.vouches_for(borrower), self.config->0.slash_bps)
    }

    /// Why the borrower's vouchers cannot be slashed, if they cannot, where the
    /// borrower has an open loan.
    pub open spec fn penalty_trap(self, borrower: Address) -> Option<Trap> {
        if self.config is None {
            Some(Trap::NotInitialized)
        } else if !slash_fits(self.vouches_for(borrower), self.config->0.slash_bps) || !fits(
            self.treasury() + self.slash_total(borrower),
        ) || self.defaults_of(borrower) == u32::MAX {
            Some(Trap::Overflow)
        } else {
            None
        }
    }

    /// Why `slash` aborts, if it does.
    pub open spec fn slash_trap(self, borrower: Address) -> Option<Trap> {
        if self.is_paused() {
            Some(Trap::Paused)
        } else if self.unsettled_loan_trap(borrower) is Some {
            self.unsettled_loan_trap(borrower)
        } else {
            self.penalty_trap(borrower)
        }
    }

    /// Why `auto_slash` aborts, if it does.
    pub open spec fn auto_slash_trap(self, borrower: Address) -> Option<Trap> {
        if self.unsettled_loan_trap(borrower) is Some {
            self.unsettled_loan_trap(borrower)
        } else if self.timestamp <= self.active_loan(borrower)->0.deadline {
            Some(Trap::DeadlineNotPassed)
        } else {
            self.penalty_trap(borrower)
        }
    }

    /// Why `claim_expired_loan` aborts, if it does.
    pub open spec fn claim_trap(self, borrower: Address) -> Option<Trap> {
        if self.unsettled_loan_trap(borrower) is Some {
            self.unsettled_loan_trap(borrower)
        } else if self.timestamp < self.active_loan(borrower)->0.deadline {
            Some(Trap::NotExpired)
        } else {
            None
        }
    }

    /// Why `slash_treasury` aborts, if it does.
    pub open spec fn withdrawal_trap(self) -> Option<Trap> {
        if self.treasury() <= 0 {
            Some(Trap::NoSlashedFunds)
        } else if self.config is None {
            Some(Trap::NotInitialized)
        } else {
            None
        }
    }

    /// The surroundings once the borrower's loan is stored as defaulted, and
    /// the active loan and the vouches are forgotten.
    pub open spec fn closed(self, borrower: Address) -> EnvView {
        let loan = self.active_loan(borrower)->0;
        EnvView {
            loans: self.loans.insert(loan.id, defaulted(loan)),
            active_loans: self.active_loans.remove(borrower),
            vouches: self.vouches.remove(borrower),
            ..self
        }
    }

    /// The request to burn the borrower's reputation, where there is a
    /// reputation contract.
    pub open spec fn burning(self, borrower: Address) -> Seq<EffectView> {
        match self.reputation_nft {
            Some(nft) => seq![EffectView::Burn { nft, holder: borrower }],
            None => Seq::empty(),
        }
    }

    /// The surroundings once the standard penalty is applied: the loan is
    /// closed, the vouchers have what is left of their stakes, the treasury has
    /// the rest, the default is counted, and the reputation is burned.
    pub open spec fn penalized(self, borrower: Address) -> EnvView {
        let loan = self.active_loan(borrower)->0;
        let slash_bps = self.config->0.slash_bps;
        EnvView {
            slash_treasury: Some((self.treasury() + self.slash_total(borrower)) as i128),
            default_counts: self.default_counts.insert(
                borrower,
                (self.defaults_of(borrower) + 1) as u32,
            ),
            ..self.closed(borrower).asking(
                refunds(loan.token_address, self.vouches_for(borrower), slash_bps),
            ).asking(self.burning(borrower))
        }
    }

    /// The surroundings after `slash`: the standard penalty, announced.
    pub open spec fn slashed(self, borrower: Address) -> EnvView {
        self.penalized(borrower).asking(
            seq![
                EffectView::Publish(
                    EventView::LoanSlashed {
                        borrower,
                        amount: self.active_loan(borrower)->0.amount,
                        total_slashed: self.slash_total(borrower) as i128,
                    },
                ),
            ],
        )
    }

    /// The surroundings after `claim_expired_loan`: the loan is closed, and the
    /// vouchers have their stakes.
    pub open spec fn claimed(self, borrower: Address) -> EnvView {
        self.closed(borrower).asking(
            full_refunds(
                self.active_loan(borrower)->0.token_address,
                self.vouches_for(borrower),
            ),
        )
    }

    /// The surroundings after `slash_treasury`: the treasury is empty, and the
    /// recipient has what it held.
    pub open spec fn withdrawn(self, recipient: Address) -> EnvView {
        EnvView { slash_treasury: Some(0), ..self }.asking(
            seq![
                EffectView::Transfer {
                    token: self.config->0.token,
                    to: recipient,
                    amount: self.treasury(),
                },
            ],
        )
    }
}

/// What is slashed of all the stakes together, or `None` where the arithmetic
/// overflows.
fn checked_total_slashed(vouches: &Vec<VouchRecord>, slash_bps: i128) -> (total: Option<i128>)
    ensures
        total matches Some(x) ==> slash_fits(vouches@, slash_bps) && x == total_slashed(
            vouches@,
            slash_bps,
        ),
        total is None ==> !slash_fits(vouches@, slash_bps),
{
    let mut total: i128 = 0;
    let mut i: usize = 0;
    while i < vouches.len()
        invariant
            i <= vouches.len(),
            total == total_slashed(vouches@.take(i as int), slash_bps),
            forall|j: int| 0 <= j < i ==> part_fits(#[trigger] vouches@[j], slash_bps),
            forall|n: int|
                0 <= n <= i ==> fits(#[trigger] total_slashed(vouches@.take(n), slash_bps)),
        decreases vouches.len() - i,
    {
        assert(vouches@.take(i + 1).drop_last() =~= vouches@.take(i as int));
        let stake: i128 = vouches[i].stake;
        let slashed: i128 = match checked_bps_share(stake, slash_bps) {
            Some(slashed) => slashed,
            None => {
                assert(!part_fits(vouches@[i as int], slash_bps));
                return None;
            },
        };
        if stake.checked_sub(slashed).is_none() {
            assert(!part_fits(vouches@[i as int], slash_bps));
            return None;
        }
        match total.checked_add(slashed) {
            Some(next) => {
                total = next;
            },
            None => {
                assert(!fits(total_slashed(vouches@.take(i + 1), slash_bps)));
                return None;
            },
        }
        i += 1;
    }
    assert(vouches@.take(i as int) =~= vouches@);
    Some(total)
}

/// Why the borrower's vouchers cannot be slashed, if they cannot.
fn penalty_trap(env: &Env, borrower: Address) -> (trap: Option<Trap>)
    ensures
        trap == env@.penalty_trap(borrower),
{
    if env.config.is_none() {
        return Some(Trap::NotInitialized);
    }
    let cfg = config(env);
    let vouches = env.vouches_for(borrower);
    let total: i128 = match checked_total_slashed(&vouches, cfg.slash_bps) {
        Some(total) => total,
        None => return Some(Trap::Overflow),
    };
    if env.slash_treasury.unwrap_or(0).checked_add(total).is_none() {
        return Some(Trap::Overflow);
    }
    if env.defaults_of(borrower) == u32::MAX {
        return Some(Trap::Overflow);
    }
    None
}

/// Why the borrower's loan cannot be settled, if it cannot.
fn unsettled_loan_trap(env: &Env, borrower: Address) -> (trap: Option<Trap>)
    ensures
        trap == env@.unsettled_loan_trap(borrower),
{
    match get_active_loan_record(env, borrower) {
        Ok(loan) => if loan.repaid || loan.defaulted {
            Some(Trap::LoanSettled)
        } else {
            None
        },
        Err(_) => Some(Trap::NoActiveLoan),
    }
}

/// Stores the loan as defaulted and forgets the borrower's active loan and
/// vouches.
fn close_loan(env: &mut Env, borrower: Address, loan: LoanRecord)
    requires
        old(env)@.active_loan(borrower) == Some(loan@),
    ensures
        final(env)@ == old(env)@.closed(borrower),
{
    let mut loan = loan;
    loan.defaulted = true;
    env.set_loan(loan);
    env.close_borrower(borrower);
}

/// Pays every voucher what is left of the stake, and returns what was slashed.
fn pay_refunds(env: &mut Env, token: Address, vouches: &Vec<VouchRecord>, slash_bps: i128) -> (
total: i128)
    requires
        slash_fits(vouches@, slash_bps),
    ensures
        total == total_slashed(vouches@, slash_bps),
        final(env)@ == old(env)@.asking(refunds(token, vouches@, slash_bps)),
{
    let ghost before = env@;
    let mut total: i128 = 0;
    let mut i: usize = 0;
    assert(env@ =~= before.asking(refunds(token, vouches@.take(0), slash_bps)));
    while i < vouches.len()
        invariant
            i <= vouches.len(),
            slash_fits(vouches@, slash_bps),
            total == total_slashed(vouches@.take(i as int), slash_bps),
            env@ == before.asking(refunds(token, vouches@.take(i as int), slash_bps)),
        decreases vouches.len() - i,
    {
        let ghost previous = env@;
        let v = vouches[i];
        assert(vouches@.take(i + 1).drop_last() =~= vouches@.take(i as int));
        assert(part_fits(vouches@[i as int], slash_bps));
        assert(fits(total_slashed(vouches@.take(i + 1), slash_bps)));
        let slash_amount: i128 = v.stake * slash_bps / BPS_DENOMINATOR;
        let returned: i128 = v.stake - slash_amount;
        if returned > 0 {
            env.ask(Effect::Transfer { token, to: v.voucher, amount: returned });
        }
        total += slash_amount;
        i += 1;
        assert(env@ =~= before.asking(refunds(token, vouches@.take(i as int), slash_bps)));
    }
    assert(vouches@.take(i as int) =~= vouches@);
    total
}

/// Applies the standard penalty. Returns the loan's amount and what was
/// slashed.
fn penalize(env: &mut Env, borrower: Address) -> (amounts: (i128, i128))
    requires
        old(env)@.unsettled_loan_trap(borrower) is None,
        old(env)@.penalty_trap(borrower) is None,
    ensures
        amounts.0 == old(env)@.active_loan(borrower)->0.amount,
        amounts.1 == old(env)@.slash_total(borrower),
        final(env)@ == old(env)@.penalized(borrower),
{
    let ghost before = env@;
    let loan = get_active_loan_record(env, borrower).unwrap();
    let amount: i128 = loan.amount;
    let token: Address = loan.token_address;
    let slash_bps: i128 = config(env).slash_bps;
    let vouches = env.vouches_for(borrower);
    close_loan(env, borrower, loan);
    let total: i128 = pay_refunds(env, token, &vouches, slash_bps);
    add_slash_balance(env, total);
    let count: u32 = env.defaults_of(borrower);
    env.default_counts.insert(borrower, count + 1);
    if let Some(nft) = env.reputation_nft {
        env.ask(Effect::Burn { nft, holder: borrower });
    }
    assert(env@ =~= before.penalized(borrower));
    (amount, total)
}

impl QuorumCreditContract {
    /// Why `slash` aborts, if it does.
    pub fn slash_trap(env: &Env, borrower: Address) -> (trap: Option<Trap>)
        ensures
            trap == env@.slash_trap(borrower),
    {
        if require_not_paused(env).is_err() {
            return Some(Trap::Paused);
        }
        let trap = unsettled_loan_trap(env, borrower);
        if trap.is_some() {
            return trap;
        }
        penalty_trap(env, borrower)
    }

    /// Marks a loan defaulted, after admin approval: the configured share of
    /// each voucher's stake is slashed.
    pub fn slash(env: &mut Env, borrower: Address)
        requires
            old(env)@.slash_trap(borrower) is None,
        ensures
            final(env)@ == old(env)@.slashed(borrower),
    {
        let (amount, total_slashed) = penalize(env, borrower);
        env.ask(Effect::Publish(Event::LoanSlashed { borrower, amount, total_slashed }));
    }

    /// Why `auto_slash` aborts, if it does.
    pub fn auto_slash_trap(env: &Env, borrower: Address) -> (trap: Option<Trap>)
        ensures
            trap == env@.auto_slash_trap(borrower),
    {
        match get_active_loan_record(env, borrower) {
            Ok(loan) => if loan.repaid || loan.defaulted {
                Some(Trap::LoanSettled)
            } else if env.timestamp <= loan.deadline {
                Some(Trap::DeadlineNotPassed)
            } else {
                penalty_trap(env, borrower)
            },
            Err(_) => Some(Trap::NoActiveLoan),
        }
    }

    /// Applies the standard slash penalty after the loan's deadline has passed.
    /// Anyone may call it.
    pub fn auto_slash(env: &mut Env, borrower: Address)
        requires
            old(env)@.auto_slash_trap(borrower) is None,
        ensures
            final(env)@ == old(env)@.penalized(borrower),
    {
        penalize(env, borrower);
    }

    /// Why `claim_expired_loan` aborts, if it does.
    pub fn claim_expired_loan_trap(env: &Env, borrower: Address) -> (trap: Option<Trap>)
        ensures
            trap == env@.claim_trap(borrower),
    {
        match get_active_loan_record(env, borrower) {
            Ok(loan) => if loan.repaid || loan.defaulted {
                Some(Trap::LoanSettled)
            } else if env.timestamp < loan.deadline {
                Some(Trap::NotExpired)
            } else {
                None
            },
            Err(_) => Some(Trap::NoActiveLoan),
        }
    }

    /// Gives the vouchers their stakes back once a loan has expired without
    /// repayment or slash.
    pub fn claim_expired_loan(env: &mut Env, borrower: Address)
        requires
            old(env)@.claim_trap(borrower) is None,
        ensures
            final(env)@ == old(env)@.claimed(borrower),
    {
        let ghost before = env@;
        let loan = get_active_loan_record(env, borrower).unwrap();
        let vouches = env.vouches_for(borrower);
        let token: Address = loan.token_address;
        let ghost payments = full_refunds(token, vouches@);
        let mut i: usize = 0;
        assert(env@ =~= before.asking(payments.take(0)));
        while i < vouches.len()
            invariant
                i <= vouches.len(),
                payments == full_refunds(token, vouches@),
                env@ == before.asking(payments.take(i as int)),
            decreases vouches.len() - i,
        {
            let v = vouches[i];
            env.ask(Effect::Transfer { token, to: v.voucher, amount: v.stake });
            i += 1;
            assert(env@ =~= before.asking(payments.take(i as int)));
        }
        assert(payments.take(i as int) =~= payments);
        close_loan(env, borrower, loan);
        assert(env@ =~= before.claimed(borrower));
    }

    /// Why `slash_treasury` aborts, if it does.
    pub fn slash_treasury_trap(env: &Env) -> (trap: Option<Trap>)
        ensures
            trap == env@.withdrawal_trap(),
    {
        if env.slash_treasury.unwrap_or(0) <= 0 {
            Some(Trap::NoSlashedFunds)
        } else if env.config.is_none() {
            Some(Trap::NotInitialized)
        } else {
            None
        }
    }

    /// Pays the accumulated slashed funds to a recipient, after admin approval.
    pub fn slash_treasury(env: &mut Env, recipient: Address)
        requires
            old(env)@.withdrawal_trap() is None,
        ensures
            final(env)@ == old(env)@.withdrawn(recipient),
    {
        let amount: i128 = env.slash_treasury.unwrap_or(0);
        env.slash_treasury = Some(0);
        let token: Address = config(env).token;
        env.ask(Effect::Transfer { token, to: recipient, amount });
    }
}

} // verus!
