//! Laws of settlement, told from what is stored: when a loan can be settled, and
//! what then becomes of the loan, the stakes and the treasury.

use vstd::prelude::*;

use crate::arith::fits;
use crate::contract::QuorumCreditContract;
use crate::env::{Env, EnvView};
use crate::errors::Trap;
use crate::laws::amounts::{
    added, adds_up, is_i128, law_share_in_basis_points, lemma_added_push, rounds_to,
};
use crate::settlement::{
    part_fits, refunds, returned_part, slash_fits, slashed_part, total_slashed,
};
use crate::types::{Address, EffectView, EventView, LoanView, VouchRecord};

verus! {

/// Whether a loan record is noted as the borrower's active one.
pub open spec fn is_noted(env: EnvView, borrower: Address) -> bool {
    env.active_loans.contains_key(borrower) && env.loans.contains_key(env.active_loans[borrower])
}

/// The record that is noted as the borrower's active one.
pub open spec fn noted(env: EnvView, borrower: Address) -> LoanView {
    env.loans[env.active_loans[borrower]]
}

/// Whether the borrower owes: the noted loan is neither repaid nor defaulted.
pub open spec fn owes(env: EnvView, borrower: Address) -> bool {
    is_noted(env, borrower) && !noted(env, borrower).repaid && !noted(env, borrower).defaulted
}

/// The vouches stored for the borrower: none, where none are stored.
pub open spec fn stored_vouches(env: EnvView, borrower: Address) -> Seq<VouchRecord> {
    if env.vouches.contains_key(borrower) {
        env.vouches[borrower]
    } else {
        Seq::empty()
    }
}

/// Whether part by part this is what a penalty of `bps` takes of the stakes.
pub open spec fn are_parts(parts: Seq<int>, vouches: Seq<VouchRecord>, bps: i128) -> bool {
    &&& parts.len() == vouches.len()
    &&& forall|i: int|
        0 <= i < parts.len() ==> rounds_to(#[trigger] parts[i], vouches[i].stake * bps, 10_000)
}

/// What the treasury holds: nothing, where nothing is stored.
pub open spec fn held(env: EnvView) -> int {
    match env.slash_treasury {
        Some(amount) => amount as int,
        None => 0,
    }
}

/// How many defaults are stored for the borrower: none, where nothing is.
pub open spec fn defaults_stored(env: EnvView, borrower: Address) -> int {
    if env.default_counts.contains_key(borrower) {
        env.default_counts[borrower] as int
    } else {
        0
    }
}

/// Whether a penalty of `bps` that takes these parts stays within the machine's
/// integers: every product, every rest, every sum, the treasury and the count.
pub open spec fn is_computable(
    env: EnvView,
    borrower: Address,
    vouches: Seq<VouchRecord>,
    parts: Seq<int>,
    bps: i128,
) -> bool {
    &&& forall|i: int|
        #![trigger vouches[i]]
        0 <= i < vouches.len() ==> is_i128(vouches[i].stake * bps) && is_i128(
            vouches[i].stake - parts[i],
        )
    &&& adds_up(parts)
    &&& is_i128(held(env) + added(parts))
    &&& defaults_stored(env, borrower) < 0xffff_ffff
}

/// What each voucher is owed after a penalty that takes these parts.
pub open spec fn owed(vouches: Seq<VouchRecord>, parts: Seq<int>) -> Seq<(Address, int)> {
    Seq::new(vouches.len(), |i: int| (vouches[i].voucher, vouches[i].stake - parts[i]))
}

/// Payments in a token of what is owed, where it is more than nothing.
pub open spec fn payments(token: Address, owed: Seq<(Address, int)>) -> Seq<EffectView> {
    owed.filter(|entry: (Address, int)| entry.1 > 0).map_values(
        |entry: (Address, int)|
            EffectView::Transfer { token, to: entry.0, amount: entry.1 as i128 },
    )
}

/// The part that a penalty between nothing and one whole takes of a stake is its
/// share, rounded down, and never more than the stake.
pub proof fn law_slashed_part(vouch: VouchRecord, bps: i128)
    requires
        vouch.stake >= 0,
        0 <= bps <= 10_000,
    ensures
        ({
            let part = slashed_part(vouch, bps);
            &&& 10_000 * part <= vouch.stake * bps < 10_000 * (part + 1)
            &&& 0 <= part <= vouch.stake
            &&& returned_part(vouch, bps) == vouch.stake - part
        }),
{
    law_share_in_basis_points(vouch.stake as int, bps as int);
    assert(0 <= vouch.stake * bps <= 10_000 * vouch.stake) by (nonlinear_arith)
        requires
            vouch.stake >= 0,
            0 <= bps <= 10_000,
    ;
}

/// The parts are what the penalty is computed to take.
proof fn lemma_parts(parts: Seq<int>, vouches: Seq<VouchRecord>, bps: i128)
    requires
        are_parts(parts, vouches, bps),
    ensures
        forall|i: int|
            0 <= i < parts.len() ==> #[trigger] parts[i] == slashed_part(vouches[i], bps),
        total_slashed(vouches, bps) == added(parts),
    decreases parts.len(),
{
    assert forall|i: int| 0 <= i < parts.len() implies #[trigger] parts[i] == slashed_part(
        vouches[i],
        bps,
    ) by {
        law_share_in_basis_points(vouches[i].stake as int, bps as int);
        assert(rounds_to(parts[i], vouches[i].stake * bps, 10_000));
    }
    if parts.len() > 0 {
        let rest = parts.drop_last();
        assert forall|i: int| 0 <= i < rest.len() implies rounds_to(
            #[trigger] rest[i],
            vouches.drop_last()[i].stake * bps,
            10_000,
        ) by {
            assert(rest[i] == parts[i]);
        }
        lemma_parts(rest, vouches.drop_last(), bps);
        lemma_added_push(rest, parts.last());
        assert(rest.push(parts.last()) =~= parts);
        assert(parts[parts.len() - 1] == slashed_part(vouches.last(), bps));
    }
}

/// The first parts add up to what the penalty takes of the first stakes.
proof fn lemma_parts_prefix(parts: Seq<int>, vouches: Seq<VouchRecord>, bps: i128, n: int)
    requires
        are_parts(parts, vouches, bps),
        0 <= n <= parts.len(),
    ensures
        total_slashed(vouches.take(n), bps) == added(parts.take(n)),
{
    assert forall|i: int| 0 <= i < n implies rounds_to(
        #[trigger] parts.take(n)[i],
        vouches.take(n)[i].stake * bps,
        10_000,
    ) by {
        assert(parts.take(n)[i] == parts[i]);
    }
    lemma_parts(parts.take(n), vouches.take(n), bps);
}

/// Dividing the stakes stays within `i128` exactly if every product, every rest
/// and every sum of the parts does.
proof fn lemma_slash_fits(parts: Seq<int>, vouches: Seq<VouchRecord>, bps: i128)
    requires
        are_parts(parts, vouches, bps),
    ensures
        slash_fits(vouches, bps) <==> adds_up(parts) && forall|i: int|
            #![trigger vouches[i]]
            0 <= i < vouches.len() ==> is_i128(vouches[i].stake * bps) && is_i128(
                vouches[i].stake - parts[i],
            ),
{
    lemma_parts(parts, vouches, bps);
    if slash_fits(vouches, bps) {
        assert forall|n: int| 0 <= n <= parts.len() implies is_i128(
            #[trigger] added(parts.take(n)),
        ) by {
            lemma_parts_prefix(parts, vouches, bps, n);
        }
        assert forall|i: int| #![trigger vouches[i]] 0 <= i < vouches.len() implies is_i128(
            vouches[i].stake * bps,
        ) && is_i128(vouches[i].stake - parts[i]) by {
            assert(part_fits(vouches[i], bps));
            assert(parts[i] == slashed_part(vouches[i], bps));
        }
    } else if adds_up(parts) && forall|i: int|
        #![trigger vouches[i]]
        0 <= i < vouches.len() ==> is_i128(vouches[i].stake * bps) && is_i128(
            vouches[i].stake - parts[i],
        ) {
        assert forall|n: int| 0 <= n <= vouches.len() implies fits(
            #[trigger] total_slashed(vouches.take(n), bps),
        ) by {
            lemma_parts_prefix(parts, vouches, bps, n);
            assert(is_i128(added(parts.take(n))));
        }
        assert forall|i: int| 0 <= i < vouches.len() implies part_fits(
            #[trigger] vouches[i],
            bps,
        ) by {
            assert(parts[i] == slashed_part(vouches[i], bps));
        }
        assert(slash_fits(vouches, bps));
    }
}

/// The payments back to the vouchers are those of what they are owed.
proof fn lemma_refunds(token: Address, vouches: Seq<VouchRecord>, parts: Seq<int>, bps: i128)
    requires
        are_parts(parts, vouches, bps),
    ensures
        refunds(token, vouches, bps) == payments(token, owed(vouches, parts)),
    decreases parts.len(),
{
    reveal(Seq::filter);
    lemma_parts(parts, vouches, bps);
    let entries = owed(vouches, parts);
    if parts.len() > 0 {
        let rest = parts.drop_last();
        let fewer = vouches.drop_last();
        assert forall|i: int| 0 <= i < rest.len() implies rounds_to(
            #[trigger] rest[i],
            fewer[i].stake * bps,
            10_000,
        ) by {
            assert(rest[i] == parts[i]);
        }
        lemma_refunds(token, fewer, rest, bps);
        assert(entries.drop_last() =~= owed(fewer, rest));
        assert(parts[parts.len() - 1] == slashed_part(vouches.last(), bps));
        assert(refunds(token, vouches, bps) =~= payments(token, entries));
    } else {
        assert(refunds(token, vouches, bps) =~= payments(token, entries));
    }
}

/// What a penalty that takes these parts asks for: the payments back to the
/// vouchers in the loan's token, and then, where there is a reputation contract,
/// that the borrower's reputation is burned.
pub open spec fn penalty_effects(
    env: EnvView,
    borrower: Address,
    vouches: Seq<VouchRecord>,
    parts: Seq<int>,
) -> Seq<EffectView> {
    let burn = match env.reputation_nft {
        Some(nft) => seq![EffectView::Burn { nft, holder: borrower }],
        None => seq![],
    };
    payments(noted(env, borrower).token_address, owed(vouches, parts)) + burn
}

/// Told whether an admin's slash aborts, the answer is the first reason of these,
/// and that it does not where there is none: the contract is paused, no loan is
/// noted, the noted loan is repaid or defaulted, there is no configuration, or
/// the penalty leaves the machine's integers. The time is not among them.
pub proof fn law_slash_is_possible(
    env: &Env,
    borrower: Address,
    trap: Option<Trap>,
    vouches: Seq<VouchRecord>,
    parts: Seq<int>,
)
    requires
        call_ensures(QuorumCreditContract::slash_trap, (env, borrower), trap),
        vouches == stored_vouches(env@, borrower),
        env@.config is Some ==> are_parts(parts, vouches, env@.config->0.slash_bps),
    ensures
        ({
            let runs = env@.paused != Some(true);
            let noted = is_noted(env@, borrower);
            let owes = owes(env@, borrower);
            let set_up = env@.config is Some;
            let computable = is_computable(
                env@,
                borrower,
                vouches,
                parts,
                env@.config->0.slash_bps,
            );
            &&& trap is None <==> runs && owes && set_up && computable
            &&& trap == Some(Trap::Paused) <==> !runs
            &&& trap == Some(Trap::NoActiveLoan) <==> runs && !noted
            &&& trap == Some(Trap::LoanSettled) <==> runs && noted && !owes
            &&& trap == Some(Trap::NotInitialized) <==> runs && owes && !set_up
            &&& trap == Some(Trap::Overflow) <==> runs && owes && set_up && !computable
        }),
{
    if env@.config is Some {
        lemma_slash_fits(parts, vouches, env@.config->0.slash_bps);
        lemma_parts(parts, vouches, env@.config->0.slash_bps);
    }
    assert(vouches =~= env@.vouches_for(borrower));
}

/// Told whether anyone's slash aborts, the answer is the first reason of these,
/// and that it does not where there is none: no loan is noted, the noted loan is
/// repaid or defaulted, its deadline has not passed, there is no configuration,
/// or the penalty leaves the machine's integers. Being paused is not among them.
pub proof fn law_auto_slash_is_possible(
    env: &Env,
    borrower: Address,
    trap: Option<Trap>,
    vouches: Seq<VouchRecord>,
    parts: Seq<int>,
)
    requires
        call_ensures(QuorumCreditContract::auto_slash_trap, (env, borrower), trap),
        vouches == stored_vouches(env@, borrower),
        env@.config is Some ==> are_parts(parts, vouches, env@.config->0.slash_bps),
    ensures
        ({
            let noted = is_noted(env@, borrower);
            let owes = owes(env@, borrower);
            let overdue = env@.timestamp > self::noted(env@, borrower).deadline;
            let set_up = env@.config is Some;
            let computable = is_computable(
                env@,
                borrower,
                vouches,
                parts,
                env@.config->0.slash_bps,
            );
            &&& trap is None <==> owes && overdue && set_up && computable
            &&& trap == Some(Trap::NoActiveLoan) <==> !noted
            &&& trap == Some(Trap::LoanSettled) <==> noted && !owes
            &&& trap == Some(Trap::DeadlineNotPassed) <==> owes && !overdue
            &&& trap == Some(Trap::NotInitialized) <==> owes && overdue && !set_up
            &&& trap == Some(Trap::Overflow) <==> owes && overdue && set_up && !computable
        }),
{
    if env@.config is Some {
        lemma_slash_fits(parts, vouches, env@.config->0.slash_bps);
        lemma_parts(parts, vouches, env@.config->0.slash_bps);
    }
    assert(vouches =~= env@.vouches_for(borrower));
}

/// Time neither opens nor closes the way to an admin's slash: at two times, with
/// all else equal, it aborts for the same reason or does not. And where anyone's
/// slash does not abort and the contract is not paused, an admin's does not
/// either.
pub proof fn law_slash_has_no_time(
    env: &Env,
    later: &Env,
    borrower: Address,
    trap: Option<Trap>,
    trap_later: Option<Trap>,
    auto_trap: Option<Trap>,
)
    requires
        later@ == (EnvView { timestamp: later@.timestamp, ..env@ }),
        call_ensures(QuorumCreditContract::slash_trap, (env, borrower), trap),
        call_ensures(QuorumCreditContract::slash_trap, (later, borrower), trap_later),
        call_ensures(QuorumCreditContract::auto_slash_trap, (later, borrower), auto_trap),
    ensures
        trap == trap_later,
        auto_trap is None && env@.paused != Some(true) ==> trap is None,
{
}

/// Told whether a claim aborts, the answer is the first reason of these, and
/// that it does not where there is none: no loan is noted, the noted loan is
/// repaid or defaulted, or its deadline is still to come.
pub proof fn law_claim_is_possible(env: &Env, borrower: Address, trap: Option<Trap>)
    requires
        call_ensures(QuorumCreditContract::claim_expired_loan_trap, (env, borrower), trap),
    ensures
        ({
            let noted = is_noted(env@, borrower);
            let owes = owes(env@, borrower);
            let expired = env@.timestamp >= self::noted(env@, borrower).deadline;
            &&& trap is None <==> owes && expired
            &&& trap == Some(Trap::NoActiveLoan) <==> !noted
            &&& trap == Some(Trap::LoanSettled) <==> noted && !owes
            &&& trap == Some(Trap::NotExpired) <==> owes && !expired
        }),
{
}

/// Told whether a withdrawal aborts, the answer is that the treasury holds
/// nothing, or else that there is no configuration, and that it does not where
/// it holds something and there is one.
pub proof fn law_withdrawal_is_possible(env: &Env, trap: Option<Trap>)
    requires
        call_ensures(QuorumCreditContract::slash_treasury_trap, (env,), trap),
    ensures
        trap is None <==> held(env@) > 0 && env@.config is Some,
        trap == Some(Trap::NoSlashedFunds) <==> held(env@) <= 0,
        trap == Some(Trap::NotInitialized) <==> held(env@) > 0 && env@.config is None,
{
}

/// What the penalty does, in both ways to slash.
proof fn lemma_penalized(
    env: EnvView,
    borrower: Address,
    vouches: Seq<VouchRecord>,
    parts: Seq<int>,
)
    requires
        owes(env, borrower),
        env.config is Some,
        vouches == stored_vouches(env, borrower),
        are_parts(parts, vouches, env.config->0.slash_bps),
        is_computable(env, borrower, vouches, parts, env.config->0.slash_bps),
    ensures
        env.unsettled_loan_trap(borrower) is None,
        env.penalty_trap(borrower) is None,
        env.slash_total(borrower) == added(parts),
        ({
            let loan = noted(env, borrower);
            env.penalized(borrower) == (EnvView {
                loans: env.loans.insert(loan.id, LoanView { defaulted: true, ..loan }),
                active_loans: env.active_loans.remove(borrower),
                vouches: env.vouches.remove(borrower),
                slash_treasury: Some((held(env) + added(parts)) as i128),
                default_counts: env.default_counts.insert(
                    borrower,
                    (defaults_stored(env, borrower) + 1) as u32,
                ),
                outbox: env.outbox + penalty_effects(env, borrower, vouches, parts),
                ..env
            })
        }),
{
    let bps = env.config->0.slash_bps;
    let loan = noted(env, borrower);
    assert(vouches =~= env.vouches_for(borrower));
    lemma_parts(parts, vouches, bps);
    lemma_slash_fits(parts, vouches, bps);
    lemma_refunds(loan.token_address, vouches, parts, bps);
}

/// What an admin's slash does, which is possible while the contract is not
/// paused. Of each stake the part that the penalty takes, rounded toward zero,
/// goes to the treasury, and each voucher is paid what is left, where it is more
/// than nothing, in the loan's token and in the order of the vouches. The loan
/// is stored as defaulted and otherwise as it was; the note of it and the
/// vouches are gone; the borrower has one default more; the borrower's
/// reputation is burned, where there is a reputation contract; and the slash is
/// announced. Nothing else changes.
pub proof fn law_slash_result(
    env: &mut Env,
    borrower: Address,
    vouches: Seq<VouchRecord>,
    parts: Seq<int>,
)
    requires
        old(env)@.paused != Some(true),
        owes(old(env)@, borrower),
        old(env)@.config is Some,
        vouches == stored_vouches(old(env)@, borrower),
        are_parts(parts, vouches, old(env)@.config->0.slash_bps),
        is_computable(old(env)@, borrower, vouches, parts, old(env)@.config->0.slash_bps),
        call_ensures(QuorumCreditContract::slash, (env, borrower), ()),
    ensures
        call_requires(QuorumCreditContract::slash, (env, borrower)),
        ({
            let before = old(env)@;
            let loan = noted(before, borrower);
            let effects = penalty_effects(before, borrower, vouches, parts);
            final(env)@ == (EnvView {
                loans: before.loans.insert(loan.id, LoanView { defaulted: true, ..loan }),
                active_loans: before.active_loans.remove(borrower),
                vouches: before.vouches.remove(borrower),
                slash_treasury: Some((held(before) + added(parts)) as i128),
                default_counts: before.default_counts.insert(
                    borrower,
                    (defaults_stored(before, borrower) + 1) as u32,
                ),
                outbox: (before.outbox + effects).push(
                    EffectView::Publish(
                        EventView::LoanSlashed {
                            borrower,
                            amount: loan.amount,
                            total_slashed: added(parts) as i128,
                        },
                    ),
                ),
                ..before
            })
        }),
{
    lemma_penalized(old(env)@, borrower, vouches, parts);
}

/// What anyone's slash does, which is possible once the loan's deadline has
/// passed, whether or not the contract is paused: the same as an admin's slash,
/// but that it is not announced.
pub proof fn law_auto_slash_result(
    env: &mut Env,
    borrower: Address,
    vouches: Seq<VouchRecord>,
    parts: Seq<int>,
)
    requires
        owes(old(env)@, borrower),
        old(env)@.timestamp > noted(old(env)@, borrower).deadline,
        old(env)@.config is Some,
        vouches == stored_vouches(old(env)@, borrower),
        are_parts(parts, vouches, old(env)@.config->0.slash_bps),
        is_computable(old(env)@, borrower, vouches, parts, old(env)@.config->0.slash_bps),
        call_ensures(QuorumCreditContract::auto_slash, (env, borrower), ()),
    ensures
        call_requires(QuorumCreditContract::auto_slash, (env, borrower)),
        ({
            let before = old(env)@;
            let loan = noted(before, borrower);
            final(env)@ == (EnvView {
                loans: before.loans.insert(loan.id, LoanView { defaulted: true, ..loan }),
                active_loans: before.active_loans.remove(borrower),
                vouches: before.vouches.remove(borrower),
                slash_treasury: Some((held(before) + added(parts)) as i128),
                default_counts: before.default_counts.insert(
                    borrower,
                    (defaults_stored(before, borrower) + 1) as u32,
                ),
                outbox: before.outbox + penalty_effects(before, borrower, vouches, parts),
                ..before
            })
        }),
{
    lemma_penalized(old(env)@, borrower, vouches, parts);
}

/// What a claim does. The payment at each index gives the voucher at that index
/// the whole stake, in the loan's token; the loan is stored as defaulted and
/// otherwise as it was; the note of it and the vouches are gone. Nothing else
/// changes.
pub proof fn law_claim_result(env: &mut Env, borrower: Address, vouches: Seq<VouchRecord>)
    requires
        owes(old(env)@, borrower),
        old(env)@.timestamp >= noted(old(env)@, borrower).deadline,
        vouches == stored_vouches(old(env)@, borrower),
        call_ensures(QuorumCreditContract::claim_expired_loan, (env, borrower), ()),
    ensures
        call_requires(QuorumCreditContract::claim_expired_loan, (env, borrower)),
        ({
            let before = old(env)@;
            let after = final(env)@;
            let loan = noted(before, borrower);
            let start = before.outbox.len() as int;
            &&& after == (EnvView {
                loans: before.loans.insert(loan.id, LoanView { defaulted: true, ..loan }),
                active_loans: before.active_loans.remove(borrower),
                vouches: before.vouches.remove(borrower),
                outbox: after.outbox,
                ..before
            })
            &&& after.outbox.len() == start + vouches.len()
            &&& after.outbox.take(start) == before.outbox
            &&& forall|i: int|
                #![trigger vouches[i]]
                0 <= i < vouches.len() ==> after.outbox[start + i] == (EffectView::Transfer {
                    token: loan.token_address,
                    to: vouches[i].voucher,
                    amount: vouches[i].stake,
                })
        }),
{
    assert(vouches =~= old(env)@.vouches_for(borrower));
    assert(final(env)@.outbox.take(old(env)@.outbox.len() as int) =~= old(env)@.outbox);
}

/// What a withdrawal does: the recipient is paid all that the treasury holds, in
/// the primary token, and the treasury then holds nothing. Nothing else changes.
pub proof fn law_withdrawal_result(env: &mut Env, recipient: Address)
    requires
        held(old(env)@) > 0,
        old(env)@.config is Some,
        call_ensures(QuorumCreditContract::slash_treasury, (env, recipient), ()),
    ensures
        call_requires(QuorumCreditContract::slash_treasury, (env, recipient)),
        final(env)@ == (EnvView {
            slash_treasury: Some(0),
            outbox: old(env)@.outbox.push(
                EffectView::Transfer {
                    token: old(env)@.config->0.token,
                    to: recipient,
                    amount: held(old(env)@) as i128,
                },
            ),
            ..old(env)@
        }),
{
}

/// What the effects pay to an address in a token, all together.
pub open spec fn paid_to(effects: Seq<EffectView>, token: Address, to: Address) -> int {
    added(Seq::new(effects.len(), |i: int| paid_by(effects[i], token, to)))
}

/// What one effect pays to an address in a token.
pub open spec fn paid_by(effect: EffectView, token: Address, to: Address) -> int {
    if effect is Transfer && effect->token == token && effect->to == to {
        effect->amount as int
    } else {
        0
    }
}

/// The stakes of one voucher, and nothing for the others.
pub open spec fn stakes_of(vouches: Seq<VouchRecord>, voucher: Address) -> Seq<int> {
    Seq::new(
        vouches.len(),
        |i: int|
            if vouches[i].voucher == voucher {
                vouches[i].stake as int
            } else {
                0
            },
    )
}

/// The numbers of two sequences add up to the two sums, added.
proof fn lemma_added_concat(a: Seq<int>, b: Seq<int>)
    ensures
        added(a + b) == added(a) + added(b),
    decreases b.len(),
{
    if b.len() == 0 {
        assert(a + b =~= a);
    } else {
        lemma_added_concat(a, b.drop_last());
        lemma_added_push(a + b.drop_last(), b.last());
        lemma_added_push(b.drop_last(), b.last());
        assert(a + b =~= (a + b.drop_last()).push(b.last()));
        assert(b =~= b.drop_last().push(b.last()));
    }
}

/// A claim pays every address, in the loan's token, exactly the sum of the
/// stakes that the address has behind the borrower.
pub proof fn law_claim_pays_each_voucher(
    env: &mut Env,
    borrower: Address,
    vouches: Seq<VouchRecord>,
    x: Address,
)
    requires
        owes(old(env)@, borrower),
        old(env)@.timestamp >= noted(old(env)@, borrower).deadline,
        vouches == stored_vouches(old(env)@, borrower),
        call_ensures(QuorumCreditContract::claim_expired_loan, (env, borrower), ()),
    ensures
        ({
            let token = noted(old(env)@, borrower).token_address;
            paid_to(final(env)@.outbox, token, x) == paid_to(old(env)@.outbox, token, x) + added(
                stakes_of(vouches, x),
            )
        }),
{
    law_claim_result(env, borrower, vouches);
    let token = noted(old(env)@, borrower).token_address;
    let before = old(env)@.outbox;
    let after = final(env)@.outbox;
    let start = before.len() as int;
    let paid = after.skip(start);
    assert(after =~= before + paid);
    lemma_paid_to_concat(before, paid, token, x);
    let amounts = Seq::new(paid.len(), |i: int| paid_by(paid[i], token, x));
    assert forall|i: int| 0 <= i < paid.len() implies #[trigger] amounts[i] == stakes_of(
        vouches,
        x,
    )[i] by {
        assert(vouches[i] == vouches[i]);
        assert(paid[i] == after[start + i]);
    }
    assert(amounts =~= stakes_of(vouches, x));
}

/// What is left for one voucher of the stakes, and nothing for the others.
pub open spec fn left_for(owed: Seq<(Address, int)>, voucher: Address) -> Seq<int> {
    Seq::new(
        owed.len(),
        |i: int|
            if owed[i].0 == voucher && owed[i].1 > 0 {
                owed[i].1
            } else {
                0
            },
    )
}

/// The payments of what is owed pay each address what is left for it.
proof fn lemma_payments(token: Address, owed: Seq<(Address, int)>, x: Address)
    requires
        forall|i: int| 0 <= i < owed.len() ==> is_i128(#[trigger] owed[i].1),
    ensures
        paid_to(payments(token, owed), token, x) == added(left_for(owed, x)),
    decreases owed.len(),
{
    reveal(Seq::filter);
    let paid = payments(token, owed);
    let all = Seq::new(paid.len(), |i: int| paid_by(paid[i], token, x));
    if owed.len() == 0 {
        assert(all =~= Seq::empty());
        assert(left_for(owed, x) =~= Seq::empty());
    } else {
        let rest = owed.drop_last();
        let last = owed.last();
        let earlier = payments(token, rest);
        let before = Seq::new(earlier.len(), |i: int| paid_by(earlier[i], token, x));
        assert forall|i: int| 0 <= i < rest.len() implies is_i128(#[trigger] rest[i].1) by {
            assert(rest[i] == owed[i]);
        }
        lemma_payments(token, rest, x);
        let amount = left_for(owed, x).last();
        lemma_added_push(left_for(rest, x), amount);
        assert(left_for(owed, x) =~= left_for(rest, x).push(amount));
        assert(is_i128(owed[owed.len() - 1].1));
        if last.1 > 0 {
            lemma_added_push(before, amount);
            assert(paid =~= earlier.push(
                EffectView::Transfer { token, to: last.0, amount: last.1 as i128 },
            ));
            assert(all =~= before.push(amount));
        } else {
            assert(paid =~= earlier);
            assert(all =~= before);
        }
    }
}

/// A penalty pays every address what it leaves of the address's stakes.
proof fn lemma_penalty_pays(
    env: EnvView,
    borrower: Address,
    vouches: Seq<VouchRecord>,
    parts: Seq<int>,
    x: Address,
)
    requires
        are_parts(parts, vouches, env.config->0.slash_bps),
        is_computable(env, borrower, vouches, parts, env.config->0.slash_bps),
    ensures
        ({
            let token = noted(env, borrower).token_address;
            let outbox = env.outbox + penalty_effects(env, borrower, vouches, parts);
            paid_to(outbox, token, x) == paid_to(env.outbox, token, x) + added(
                left_for(owed(vouches, parts), x),
            )
        }),
{
    let token = noted(env, borrower).token_address;
    let payments = payments(token, owed(vouches, parts));
    let effects = penalty_effects(env, borrower, vouches, parts);
    assert forall|i: int| 0 <= i < owed(vouches, parts).len() implies is_i128(
        #[trigger] owed(vouches, parts)[i].1,
    ) by {
        assert(is_i128(vouches[i].stake - parts[i]));
    }
    lemma_payments(token, owed(vouches, parts), x);
    let burn = effects.skip(payments.len() as int);
    assert(effects =~= payments + burn);
    lemma_paid_to_concat(env.outbox, effects, token, x);
    lemma_paid_to_concat(payments, burn, token, x);
    lemma_pays_nothing(burn, token, x);
}

/// An admin's slash pays every address, in the loan's token, exactly the sum of
/// what the penalty leaves of the stakes that the address has behind the
/// borrower.
pub proof fn law_slash_pays_each_voucher(
    env: &mut Env,
    borrower: Address,
    vouches: Seq<VouchRecord>,
    parts: Seq<int>,
    x: Address,
)
    requires
        old(env)@.paused != Some(true),
        owes(old(env)@, borrower),
        old(env)@.config is Some,
        vouches == stored_vouches(old(env)@, borrower),
        are_parts(parts, vouches, old(env)@.config->0.slash_bps),
        is_computable(old(env)@, borrower, vouches, parts, old(env)@.config->0.slash_bps),
        call_ensures(QuorumCreditContract::slash, (env, borrower), ()),
    ensures
        ({
            let token = noted(old(env)@, borrower).token_address;
            paid_to(final(env)@.outbox, token, x) == paid_to(old(env)@.outbox, token, x) + added(
                left_for(owed(vouches, parts), x),
            )
        }),
{
    law_slash_result(env, borrower, vouches, parts);
    lemma_penalty_pays(old(env)@, borrower, vouches, parts, x);
    let token = noted(old(env)@, borrower).token_address;
    let penalized = final(env)@.outbox.drop_last();
    let announced = seq![final(env)@.outbox.last()];
    assert(final(env)@.outbox =~= penalized + announced);
    assert(penalized =~= old(env)@.outbox + penalty_effects(old(env)@, borrower, vouches, parts));
    lemma_paid_to_concat(penalized, announced, token, x);
    lemma_pays_nothing(announced, token, x);
}

/// And so does anyone's slash.
pub proof fn law_auto_slash_pays_each_voucher(
    env: &mut Env,
    borrower: Address,
    vouches: Seq<VouchRecord>,
    parts: Seq<int>,
    x: Address,
)
    requires
        owes(old(env)@, borrower),
        old(env)@.timestamp > noted(old(env)@, borrower).deadline,
        old(env)@.config is Some,
        vouches == stored_vouches(old(env)@, borrower),
        are_parts(parts, vouches, old(env)@.config->0.slash_bps),
        is_computable(old(env)@, borrower, vouches, parts, old(env)@.config->0.slash_bps),
        call_ensures(QuorumCreditContract::auto_slash, (env, borrower), ()),
    ensures
        ({
            let token = noted(old(env)@, borrower).token_address;
            paid_to(final(env)@.outbox, token, x) == paid_to(old(env)@.outbox, token, x) + added(
                left_for(owed(vouches, parts), x),
            )
        }),
{
    law_auto_slash_result(env, borrower, vouches, parts);
    lemma_penalty_pays(old(env)@, borrower, vouches, parts, x);
}

/// Effects in a row pay what they pay together.
proof fn lemma_paid_to_concat(a: Seq<EffectView>, b: Seq<EffectView>, token: Address, x: Address)
    ensures
        paid_to(a + b, token, x) == paid_to(a, token, x) + paid_to(b, token, x),
{
    let of_a = Seq::new(a.len(), |i: int| paid_by(a[i], token, x));
    let of_b = Seq::new(b.len(), |i: int| paid_by(b[i], token, x));
    let of_both = Seq::new((a + b).len(), |i: int| paid_by((a + b)[i], token, x));
    assert(of_both =~= of_a + of_b);
    lemma_added_concat(of_a, of_b);
}

/// Effects that pay nothing, at most one.
proof fn lemma_pays_nothing(effects: Seq<EffectView>, token: Address, x: Address)
    requires
        effects.len() <= 1,
        effects.len() == 1 ==> !(effects[0] is Transfer),
    ensures
        paid_to(effects, token, x) == 0,
{
    let of = Seq::new(effects.len(), |i: int| paid_by(effects[i], token, x));
    if effects.len() == 1 {
        lemma_added_push(Seq::empty(), 0);
        assert(of =~= Seq::<int>::empty().push(0));
    } else {
        assert(of =~= Seq::empty());
    }
}

} // verus!
