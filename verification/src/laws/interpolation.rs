//! Laws of the health score and of the dynamic penalty, told from what is
//! stored and from the penalty that is configured.

use vstd::prelude::*;

use crate::arith::trunc_div;
use crate::env::{Env, EnvView};
use crate::errors::Trap;
use crate::helpers::{
    calculate_dynamic_slash_threshold, calculate_dynamic_slash_threshold_trap,
    calculate_protocol_health_score, health_score, penalty_at, penalty_fits, reserve_score,
};
use crate::laws::amounts::{is_i128, law_division_rounds_toward_zero, rounds_to};
use crate::laws::health::{law_dynamic_slash_threshold, law_health_score_range};

verus! {

/// Whether `part` is what a reserve counts: nothing where there is none, 2000
/// at 100 million stroops, 4000 from a billion stroops on, and on the straight
/// lines between these, rounded toward zero.
pub open spec fn is_reserve_part(part: int, balance: int) -> bool {
    if balance <= 0 {
        part == 0
    } else if balance <= 100_000_000 {
        rounds_to(part, 2_000 * balance, 100_000_000)
    } else if balance <= 1_000_000_000 {
        rounds_to(part - 2_000, 2_000 * (balance - 100_000_000), 900_000_000)
    } else {
        part == 4_000
    }
}

/// The reserve counts what lies on the lines, and only one number does.
pub proof fn law_reserve_is_interpolated(balance: int)
    ensures
        is_reserve_part(reserve_score(balance), balance),
        forall|part: int| #[trigger]
            is_reserve_part(part, balance) ==> part == reserve_score(balance),
{
    law_division_rounds_toward_zero(2_000 * balance, 100_000_000);
    law_division_rounds_toward_zero(2_000 * (balance - 100_000_000), 900_000_000);
}

/// Whether `score` is the protocol's health: 3000 and the part of the reserve
/// where there is a configuration, and 3000 more unless the contract was told
/// to pause.
pub open spec fn is_health(score: int, env: EnvView) -> bool {
    let unpaused: int = if env.paused == Some(true) {
        0
    } else {
        3_000
    };
    if env.config is Some {
        is_reserve_part(score - 3_000 - unpaused, env.contract_balance as int)
    } else {
        score == unpaused
    }
}

/// Only one score is the protocol's health.
proof fn lemma_health(env: EnvView)
    ensures
        is_health(health_score(env), env),
        forall|score: int| #[trigger] is_health(score, env) ==> score == health_score(env),
{
    law_reserve_is_interpolated(env.contract_balance as int);
    assert forall|score: int| #[trigger] is_health(score, env) implies score == health_score(
        env,
    ) by {
        let unpaused: int = if env.paused == Some(true) {
            0
        } else {
            3_000
        };
        if env.config is Some {
            assert(is_reserve_part(score - 3_000 - unpaused, env.contract_balance as int));
        }
    }
}

/// The health score is the sum of its parts.
pub proof fn law_health_score_parts(env: &Env, score: i128)
    requires
        call_ensures(calculate_protocol_health_score, (env,), score),
    ensures
        call_requires(calculate_protocol_health_score, (env,)),
        is_health(score as int, env@),
{
    lemma_health(env@);
}

/// Whether `share` is how far a score lies below the threshold, in basis points
/// of the way from the threshold to 0, rounded up.
pub open spec fn is_shortfall(share: int, score: int) -> bool {
    4 * (share - 1) < 5 * (8_000 - score) <= 4 * share
}

/// Whether `penalty` lies, for a configured penalty `b`, where the score says.
/// From 8000 up the penalty falls on the straight line from `b`, at 8000, to
/// 2500, at 10000. Below 8000 it rises from `b` toward 7500, at 0, by the share
/// that the score lacks.
pub open spec fn is_penalty(penalty: int, b: int, score: int) -> bool {
    if score >= 8_000 {
        rounds_to(b - penalty, (b - 2_500) * (score - 8_000), 2_000)
    } else {
        forall|share: int| #[trigger]
            is_shortfall(share, score) ==> rounds_to(penalty - b, (7_500 - b) * share, 10_000)
    }
}

/// The penalty is interpolated, for every configured penalty and every score.
pub proof fn law_penalty_is_interpolated(b: int, score: int)
    ensures
        is_penalty(penalty_at(b, score), b, score),
        forall|penalty: int| #[trigger]
            is_penalty(penalty, b, score) ==> penalty == penalty_at(b, score),
{
    if score >= 8_000 {
        let p = (b - 2_500) * (score - 8_000);
        law_division_rounds_toward_zero(p, 2_000);
        law_division_rounds_toward_zero(5 * p, 10_000);
        assert((b - 2_500) * (5 * (score - 8_000)) == 5 * p) by (nonlinear_arith)
            requires
                p == (b - 2_500) * (score - 8_000),
        ;
        assert(penalty_at(b, score) == b - trunc_div(5 * p, 10_000));
    } else {
        let f = 10_000 - score * 10_000 / 8_000int;
        assert(is_shortfall(f, score));
        law_division_rounds_toward_zero((7_500 - b) * f, 10_000);
    }
}

/// For a configured penalty between 2500 and 7500, the penalty is the linear
/// interpolation up to the error of its roundings: below the threshold that of
/// two divisions, from the threshold up that of one.
pub proof fn law_penalty_is_linear(b: int, score: int)
    requires
        2_500 <= b <= 7_500,
        0 <= score <= 10_000,
    ensures
        score < 8_000 ==> -8_000 < 8_000 * (penalty_at(b, score) - b) - (7_500 - b) * (8_000
            - score) <= 3_000,
        score >= 8_000 ==> 0 <= (b - 2_500) * (score - 8_000) - 2_000 * (b - penalty_at(b, score))
            < 2_000,
{
    law_penalty_is_interpolated(b, score);
    let d = penalty_at(b, score) - b;
    if score < 8_000 {
        let f = 10_000 - score * 10_000 / 8_000int;
        assert(is_shortfall(f, score));
        assert(rounds_to(d, (7_500 - b) * f, 10_000));
        let s = 7_500 - b;
        let g = 8_000 - score;
        assert(0 <= s * f && 5 * (s * g) <= 4 * (s * f) <= 5 * (s * g) + 3 * s)
            by (nonlinear_arith)
            requires
                0 <= s,
                0 < g,
                4 * (f - 1) < 5 * g <= 4 * f,
        ;
    } else {
        let s = b - 2_500;
        let g = score - 8_000;
        assert(0 <= s * g) by (nonlinear_arith)
            requires
                0 <= s,
                0 <= g,
        ;
    }
}

/// Whether a penalty can be computed from a configured penalty `b` within
/// `i128`: the span to the far end, its product with the share, and the result.
pub open spec fn penalty_is_computable(b: int, score: int, penalty: int, share: int) -> bool {
    if score >= 8_000 {
        is_i128(b - 2_500) && is_i128((b - 2_500) * (5 * (score - 8_000))) && is_i128(penalty)
    } else {
        is_i128(7_500 - b) && is_i128((7_500 - b) * share) && is_i128(penalty)
    }
}

/// Whether the dynamic penalty can be computed is told by the score, the penalty
/// and the share.
proof fn lemma_penalty_fits(env: EnvView, score: int, penalty: int, share: int)
    requires
        env.config is Some,
        is_health(score, env),
        is_penalty(penalty, env.config->0.slash_bps as int, score),
        is_shortfall(share, score),
    ensures
        score == health_score(env),
        penalty == penalty_at(env.config->0.slash_bps as int, score),
        penalty_fits(env.config->0.slash_bps as int, score) <==> penalty_is_computable(
            env.config->0.slash_bps as int,
            score,
            penalty,
            share,
        ),
{
    let b = env.config->0.slash_bps as int;
    lemma_health(env);
    law_penalty_is_interpolated(b, score);
    if score < 8_000 {
        assert(share == 10_000 - score * 10_000 / 8_000int);
    }
}

/// Told whether asking for the penalty aborts, the answer is that there is no
/// configuration, or that the dynamic penalty, where it is enabled, leaves the
/// `i128`s, and otherwise that it does not.
pub proof fn law_dynamic_slash_is_possible(
    env: &Env,
    trap: Option<Trap>,
    score: int,
    penalty: int,
    share: int,
)
    requires
        call_ensures(calculate_dynamic_slash_threshold_trap, (env,), trap),
        is_health(score, env@),
        env@.config is Some ==> is_penalty(penalty, env@.config->0.slash_bps as int, score),
        is_shortfall(share, score),
    ensures
        ({
            let set_up = env@.config is Some;
            let cfg = env@.config->0;
            let computable = !cfg.dynamic_slash_threshold || penalty_is_computable(
                cfg.slash_bps as int,
                score,
                penalty,
                share,
            );
            &&& trap == Some(Trap::NotInitialized) <==> !set_up
            &&& trap == Some(Trap::Overflow) <==> set_up && !computable
            &&& trap is None <==> set_up && computable
        }),
{
    if env@.config is Some {
        lemma_penalty_fits(env@, score, penalty, share);
    }
}

/// Without the dynamic threshold, slashing is told to take the configured
/// penalty; with it, the one interpolated at the protocol's health.
pub proof fn law_dynamic_slash_result(
    env: &Env,
    bps: i128,
    score: int,
    penalty: int,
    share: int,
)
    requires
        env@.config is Some,
        is_health(score, env@),
        is_penalty(penalty, env@.config->0.slash_bps as int, score),
        is_shortfall(share, score),
        env@.config->0.dynamic_slash_threshold ==> penalty_is_computable(
            env@.config->0.slash_bps as int,
            score,
            penalty,
            share,
        ),
        call_ensures(calculate_dynamic_slash_threshold, (env,), bps),
    ensures
        call_requires(calculate_dynamic_slash_threshold, (env,)),
        bps == if env@.config->0.dynamic_slash_threshold {
            penalty
        } else {
            env@.config->0.slash_bps as int
        },
{
    lemma_penalty_fits(env@, score, penalty, share);
}

/// With the dynamic threshold and a configured penalty between 2500 and 7500,
/// what slashing is told to take is the linear interpolation at the protocol's
/// health, up to the error of its roundings, and asking does not abort.
pub proof fn law_dynamic_slash_is_linear(env: &Env, trap: Option<Trap>, bps: i128, score: i128)
    requires
        call_ensures(calculate_dynamic_slash_threshold_trap, (env,), trap),
        call_ensures(calculate_dynamic_slash_threshold, (env,), bps),
        call_ensures(calculate_protocol_health_score, (env,), score),
        env@.config is Some,
        env@.config->0.dynamic_slash_threshold,
        2_500 <= env@.config->0.slash_bps <= 7_500,
    ensures
        ({
            let b = env@.config->0.slash_bps;
            &&& trap is None
            &&& score < 8_000 ==> -8_000 < 8_000 * (bps - b) - (7_500 - b) * (8_000 - score)
                <= 3_000
            &&& score >= 8_000 ==> 0 <= (b - 2_500) * (score - 8_000) - 2_000 * (b - bps) < 2_000
        }),
{
    law_health_score_range(env@);
    law_dynamic_slash_threshold(env@);
    law_penalty_is_linear(env@.config->0.slash_bps as int, score as int);
}

} // verus!
