//! Laws of settlement: slashing, claiming, and the treasury of slashed funds.

use vstd::prelude::*;

use crate::arith::total_stake;
use crate::env::EnvView;
use crate::errors::Trap;
use crate::settlement::{
    defaulted, full_refunds, refunds, returned_part, slashed_part, total_slashed,
};
use crate::types::{Address, EffectView, VouchRecord, BPS_DENOMINATOR};

verus! {


/// What the effects pay out in a token, all together.
pub open spec fn paid_in(effects: Seq<EffectView>, token: Address) -> int
    decreases effects.len(),
{
    if effects.len() == 0 {
        0
    } else {
        paid_in(effects.drop_last(), token) + payment(effects.last(), token)
    }
}

/// What one effect pays out in a token.
pub open spec fn payment(effect: EffectView, token: Address) -> int {
    match effect {
        EffectView::Transfer { token: paid, to, amount } => if paid == token {
            amount as int
        } else {
            0
        },
        _ => 0,
    }
}

/// Whether no stake is negative.
pub open spec fn no_debts(vouches: Seq<VouchRecord>) -> bool {
    forall|i: int| 0 <= i < vouches.len() ==> (#[trigger] vouches[i]).stake >= 0
}

/// Whether the penalty is a share of the whole: between nothing and all.
pub open spec fn is_share(bps: i128) -> bool {
    0 <= bps <= BPS_DENOMINATOR
}

proof fn lemma_paid_in_concat(a: Seq<EffectView>, b: Seq<EffectView>, token: Address)
    ensures
        paid_in(a + b, token) == paid_in(a, token) + paid_in(b, token),
    decreases b.len(),
{
    if b.len() == 0 {
        assert(a + b =~= a);
    } else {
        assert((a + b).drop_last() =~= a + b.drop_last());
        lemma_paid_in_concat(a, b.drop_last(), token);
    }
}

proof fn lemma_paid_in_push(a: Seq<EffectView>, effect: EffectView, token: Address)
    ensures
        paid_in(a.push(effect), token) == paid_in(a, token) + payment(effect, token),
{
    assert(a.push(effect).drop_last() =~= a);
}

/// A share of a stake is between nothing and the stake.
proof fn lemma_part_of_stake(vouch: VouchRecord, slash_bps: i128)
    requires
        vouch.stake >= 0,
        is_share(slash_bps),
    ensures
        0 <= slashed_part(vouch, slash_bps) <= vouch.stake,
{
    let stake = vouch.stake as int;
    let bps = slash_bps as int;
    assert(0 <= stake * bps <= stake * 10_000) by (nonlinear_arith)
        requires
            0 <= stake,
            0 <= bps <= 10_000,
    ;
}

proof fn lemma_refunds_paid(token: Address, vouches: Seq<VouchRecord>, slash_bps: i128)
    requires
        no_debts(vouches),
        is_share(slash_bps),
    ensures
        paid_in(refunds(token, vouches, slash_bps), token) + total_slashed(vouches, slash_bps)
            == total_stake(vouches),
        0 <= total_slashed(vouches, slash_bps) <= total_stake(vouches),
    decreases vouches.len(),
{
    if vouches.len() > 0 {
        let rest = vouches.drop_last();
        let last = vouches.last();
        assert(no_debts(rest)) by {
            assert forall|i: int| 0 <= i < rest.len() implies (#[trigger] rest[i]).stake >= 0 by {
                assert(rest[i] == vouches[i]);
            }
        }
        assert(vouches[vouches.len() - 1] == last);
        lemma_refunds_paid(token, rest, slash_bps);
        lemma_part_of_stake(last, slash_bps);
        let earlier = refunds(token, rest, slash_bps);
        if returned_part(last, slash_bps) > 0 {
            lemma_paid_in_push(
                earlier,
                EffectView::Transfer {
                    token,
                    to: last.voucher,
                    amount: returned_part(last, slash_bps) as i128,
                },
                token,
            );
        }
    }
}

proof fn lemma_full_refunds_paid(token: Address, vouches: Seq<VouchRecord>)
    ensures
        paid_in(full_refunds(token, vouches), token) == total_stake(vouches),
    decreases vouches.len(),
{
    let payments = full_refunds(token, vouches);
    if vouches.len() > 0 {
        assert(payments.drop_last() =~= full_refunds(token, vouches.drop_last()));
        lemma_full_refunds_paid(token, vouches.drop_last());
    }
}

/// Slashing neither makes nor loses funds: what the vouchers get back and what
/// the treasury gains are together what was staked.
///
/// It is stated for stakes that are not negative and a penalty between nothing
/// and the whole stake: a penalty above that takes more than was staked, and
/// nothing is paid back for it.
pub proof fn law_slash_conserves_stakes(env: EnvView, borrower: Address)
    requires
        env.unsettled_loan_trap(borrower) is None,
        env.penalty_trap(borrower) is None,
        no_debts(env.vouches_for(borrower)),
        is_share(env.config->0.slash_bps),
    ensures
        ({
            let token = env.active_loan(borrower)->0.token_address;
            let after = env.penalized(borrower);
            &&& (paid_in(after.outbox, token) - paid_in(env.outbox, token)) + (after.treasury()
                - env.treasury()) == total_stake(env.vouches_for(borrower))
            &&& after.treasury() >= env.treasury()
            &&& paid_in(after.outbox, token) >= paid_in(env.outbox, token)
            &&& paid_in(env.slashed(borrower).outbox, token) == paid_in(after.outbox, token)
            &&& env.slashed(borrower).treasury() == after.treasury()
        }),
{
    let token = env.active_loan(borrower)->0.token_address;
    let vouches = env.vouches_for(borrower);
    let bps = env.config->0.slash_bps;
    let back = refunds(token, vouches, bps);
    let after = env.penalized(borrower);
    lemma_refunds_paid(token, vouches, bps);
    lemma_paid_in_concat(env.outbox, back, token);
    lemma_paid_in_concat(env.outbox + back, env.burning(borrower), token);
    assert(paid_in(env.burning(borrower), token) == 0) by {
        reveal_with_fuel(paid_in, 2);
    }
    let announced = env.slashed(borrower).outbox;
    assert(announced.drop_last() =~= after.outbox);
}

/// Claiming an expired loan gives back exactly what was staked, and neither
/// the treasury nor the count of defaults changes.
pub proof fn law_claim_returns_all_stakes(env: EnvView, borrower: Address)
    requires
        env.claim_trap(borrower) is None,
    ensures
        ({
            let token = env.active_loan(borrower)->0.token_address;
            let after = env.claimed(borrower);
            &&& paid_in(after.outbox, token) - paid_in(env.outbox, token) == total_stake(
                env.vouches_for(borrower),
            )
            &&& after.treasury() == env.treasury()
            &&& after.default_counts == env.default_counts
        }),
{
    let token = env.active_loan(borrower)->0.token_address;
    let vouches = env.vouches_for(borrower);
    lemma_full_refunds_paid(token, vouches);
    lemma_paid_in_concat(env.outbox, full_refunds(token, vouches), token);
}

/// Whether the loan that was the borrower's active one before is settled after:
/// its record is defaulted, the borrower has neither an active loan nor vouches,
/// and every further attempt to settle it aborts for want of an active loan.
pub open spec fn is_settled(before: EnvView, after: EnvView, borrower: Address) -> bool {
    let loan = before.active_loan(borrower)->0;
    &&& after.loans.contains_key(loan.id)
    &&& after.loans[loan.id] == defaulted(loan)
    &&& !after.has_active_loan(borrower)
    &&& after.vouches_for(borrower) == Seq::<VouchRecord>::empty()
    &&& after.auto_slash_trap(borrower) == Some(Trap::NoActiveLoan)
    &&& after.claim_trap(borrower) == Some(Trap::NoActiveLoan)
    &&& after.slash_trap(borrower) == if after.is_paused() {
        Some(Trap::Paused)
    } else {
        Some(Trap::NoActiveLoan)
    }
}

/// A loan is settled once: after a slash, whoever asked for it, and after a
/// claim, it is settled, and cannot be settled again.
pub proof fn law_loan_settled_once(env: EnvView, borrower: Address)
    requires
        env.unsettled_loan_trap(borrower) is None,
    ensures
        is_settled(env, env.slashed(borrower), borrower),
        is_settled(env, env.penalized(borrower), borrower),
        is_settled(env, env.claimed(borrower), borrower),
{
}

/// Whether nothing changed but what belongs to one borrower and one loan, the
/// treasury and the effects asked for.
pub open spec fn is_local(before: EnvView, after: EnvView, borrower: Address, id: u64) -> bool {
    &&& after == (EnvView {
        loans: after.loans,
        active_loans: after.active_loans,
        vouches: after.vouches,
        default_counts: after.default_counts,
        slash_treasury: after.slash_treasury,
        outbox: after.outbox,
        ..before
    })
    &&& after.loans.remove(id) == before.loans.remove(id)
    &&& after.active_loans.remove(borrower) == before.active_loans.remove(borrower)
    &&& after.vouches.remove(borrower) == before.vouches.remove(borrower)
    &&& after.default_counts.remove(borrower) == before.default_counts.remove(borrower)
}

/// Settling a borrower's loan changes no other borrower's active loan, vouches
/// or count of defaults, no other loan record, no pool, and no parameter.
pub proof fn law_settlement_is_local(env: EnvView, borrower: Address)
    requires
        env.unsettled_loan_trap(borrower) is None,
    ensures
        is_local(env, env.slashed(borrower), borrower, env.active_loan(borrower)->0.id),
        is_local(env, env.penalized(borrower), borrower, env.active_loan(borrower)->0.id),
        is_local(env, env.claimed(borrower), borrower, env.active_loan(borrower)->0.id),
{
    let id = env.active_loan(borrower)->0.id;
    let after = env.penalized(borrower);
    assert(after.loans.remove(id) =~= env.loans.remove(id));
    assert(after.active_loans.remove(borrower) =~= env.active_loans.remove(borrower));
    assert(after.vouches.remove(borrower) =~= env.vouches.remove(borrower));
    assert(after.default_counts.remove(borrower) =~= env.default_counts.remove(borrower));
}

/// Anyone's slash after the deadline does what the admins' slash does: both
/// store the same and pay the same, and the admins' slash is announced besides.
/// Each counts one default of the borrower.
pub proof fn law_auto_slash_is_the_standard_penalty(env: EnvView, borrower: Address)
    requires
        env.slash_trap(borrower) is None,
        env.auto_slash_trap(borrower) is None,
    ensures
        env.slashed(borrower) == (EnvView {
            outbox: env.slashed(borrower).outbox,
            ..env.penalized(borrower)
        }),
        env.slashed(borrower).outbox.len() == env.penalized(borrower).outbox.len() + 1,
        env.slashed(borrower).outbox.drop_last() == env.penalized(borrower).outbox,
        env.slashed(borrower).outbox.last() is Publish,
        env.penalized(borrower).defaults_of(borrower) == env.defaults_of(borrower) + 1,
{
    assert(env.slashed(borrower).outbox.drop_last() =~= env.penalized(borrower).outbox);
}

/// At the deadline itself a loan can be claimed and not yet slashed by anyone;
/// after it, both are open.
pub proof fn law_claim_opens_no_later_than_auto_slash(env: EnvView, borrower: Address)
    requires
        env.unsettled_loan_trap(borrower) is None,
        env.penalty_trap(borrower) is None,
    ensures
        env.claim_trap(borrower) is None <==> env.timestamp >= env.active_loan(
            borrower,
        )->0.deadline,
        env.auto_slash_trap(borrower) is None <==> env.timestamp > env.active_loan(
            borrower,
        )->0.deadline,
{
}

/// A withdrawal pays out exactly what the treasury held and leaves it empty, so
/// that a second one aborts.
pub proof fn law_treasury_withdrawn_once(env: EnvView, recipient: Address)
    requires
        env.withdrawal_trap() is None,
    ensures
        ({
            let token = env.config->0.token;
            let after = env.withdrawn(recipient);
            &&& paid_in(after.outbox, token) - paid_in(env.outbox, token) == env.treasury()
            &&& after.treasury() == 0
            &&& after.withdrawal_trap() == Some(Trap::NoSlashedFunds)
        }),
{
    let token = env.config->0.token;
    let after = env.withdrawn(recipient);
    assert(after.outbox.drop_last() =~= env.outbox);
}

/// What a slash takes can be withdrawn: after a slash that took anything, from
/// a treasury that was not in debt, a withdrawal pays out what the treasury
/// held before and what the slash took.
pub proof fn law_slashed_funds_can_be_withdrawn(env: EnvView, borrower: Address)
    requires
        env.slash_trap(borrower) is None,
        env.treasury() >= 0,
        env.slash_total(borrower) > 0,
    ensures
        env.slashed(borrower).withdrawal_trap() is None,
        env.slashed(borrower).treasury() == env.treasury() + env.slash_total(borrower),
{
}

} // verus!
