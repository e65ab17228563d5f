//! Laws of the protocol's health and of the slash penalty that follows it.

use vstd::prelude::*;

use crate::arith::trunc_div;
use crate::env::EnvView;
use crate::helpers::{
    dynamic_slash_bps, dynamic_slash_trap, health_score, penalty_at, penalty_fits, reserve_score,
    shortfall_bps, surplus_bps,
};
use crate::types::{
    BPS_DENOMINATOR, EXCELLENT_RESERVE, HALF_RESERVE_WEIGHT_BPS, HEALTH_THRESHOLD_BPS,
    INITIALIZATION_WEIGHT_BPS, MAX_DYNAMIC_SLASH_BPS, MIN_DYNAMIC_SLASH_BPS, UNPAUSED_WEIGHT_BPS,
};

verus! {

/// The reserve contributes between nothing and its weight, and a larger reserve
/// never contributes less.
pub proof fn law_reserve_score(less: int, more: int)
    requires
        less <= more,
    ensures
        0 <= reserve_score(less) <= reserve_score(more) <= 2 * HALF_RESERVE_WEIGHT_BPS,
{
}

/// The health score is between 0 and one whole, and the whole is reached
/// exactly by a contract that is initialized, not paused, and has an excellent
/// reserve.
pub proof fn law_health_score_range(env: EnvView)
    ensures
        0 <= health_score(env) <= BPS_DENOMINATOR,
        health_score(env) == BPS_DENOMINATOR <==> env.config is Some && !env.is_paused()
            && env.contract_balance >= EXCELLENT_RESERVE,
{
    law_reserve_score(env.contract_balance as int, env.contract_balance as int);
}

/// A larger balance never makes the protocol less healthy.
pub proof fn law_health_score_grows_with_balance(env: EnvView, more: i128)
    requires
        env.contract_balance <= more,
    ensures
        health_score(env) <= health_score(EnvView { contract_balance: more, ..env }),
{
    law_reserve_score(env.contract_balance as int, more as int);
}

/// Pausing costs exactly its weight, and a contract that is not initialized
/// lacks the weights of initialization and of the reserve.
pub proof fn law_health_score_weights(env: EnvView)
    ensures
        health_score(EnvView { paused: Some(false), ..env }) == health_score(
            EnvView { paused: Some(true), ..env },
        ) + UNPAUSED_WEIGHT_BPS,
        env.config is Some ==> health_score(env) == health_score(EnvView { config: None, ..env })
            + INITIALIZATION_WEIGHT_BPS + reserve_score(env.contract_balance as int),
{
}

/// At the health threshold the penalty is the configured one, at full health
/// the least one, and without any health the greatest one.
pub proof fn law_penalty_endpoints(slash_bps: int)
    ensures
        penalty_at(slash_bps, HEALTH_THRESHOLD_BPS as int) == slash_bps,
        penalty_at(slash_bps, BPS_DENOMINATOR as int) == MIN_DYNAMIC_SLASH_BPS,
        penalty_at(slash_bps, 0) == MAX_DYNAMIC_SLASH_BPS,
{
    assert((slash_bps - MIN_DYNAMIC_SLASH_BPS) * surplus_bps(HEALTH_THRESHOLD_BPS as int) == 0)
        by (nonlinear_arith)
        requires
            surplus_bps(HEALTH_THRESHOLD_BPS as int) == 0,
    ;
    assert(surplus_bps(BPS_DENOMINATOR as int) == BPS_DENOMINATOR);
    assert(shortfall_bps(0) == BPS_DENOMINATOR);
}

/// `x` times a share is between nothing and `x`, in the rounding of the
/// penalties, and grows with the share.
proof fn lemma_share(x: int, less: int, more: int)
    requires
        0 <= x,
        0 <= less <= more <= BPS_DENOMINATOR,
    ensures
        0 <= trunc_div(x * less, BPS_DENOMINATOR as int) <= trunc_div(
            x * more,
            BPS_DENOMINATOR as int,
        ) <= x,
        0 <= x * less <= x * more <= x * BPS_DENOMINATOR,
{
    assert(0 <= x * less <= x * more <= x * 10_000) by (nonlinear_arith)
        requires
            0 <= x,
            0 <= less <= more <= 10_000,
    ;
}

/// For a configured penalty between the least and the greatest one: a healthy
/// protocol slashes between the least and the configured penalty, an unhealthy
/// one between the configured and the greatest penalty, and no step of
/// computing it overflows.
pub proof fn law_penalty_range(slash_bps: int, score: int)
    requires
        MIN_DYNAMIC_SLASH_BPS <= slash_bps <= MAX_DYNAMIC_SLASH_BPS,
        0 <= score <= BPS_DENOMINATOR,
    ensures
        score >= HEALTH_THRESHOLD_BPS ==> MIN_DYNAMIC_SLASH_BPS <= penalty_at(slash_bps, score)
            <= slash_bps,
        score < HEALTH_THRESHOLD_BPS ==> slash_bps <= penalty_at(slash_bps, score)
            <= MAX_DYNAMIC_SLASH_BPS,
        penalty_fits(slash_bps, score),
{
    if score >= HEALTH_THRESHOLD_BPS {
        lemma_share(slash_bps - MIN_DYNAMIC_SLASH_BPS, surplus_bps(score), surplus_bps(score));
    } else {
        lemma_share(MAX_DYNAMIC_SLASH_BPS - slash_bps, shortfall_bps(score), shortfall_bps(score));
    }
}

/// For a configured penalty between the least and the greatest one, a healthier
/// protocol never slashes more.
pub proof fn law_penalty_falls_with_health(slash_bps: int, less: int, more: int)
    requires
        MIN_DYNAMIC_SLASH_BPS <= slash_bps <= MAX_DYNAMIC_SLASH_BPS,
        0 <= less <= more <= BPS_DENOMINATOR,
    ensures
        penalty_at(slash_bps, more) <= penalty_at(slash_bps, less),
{
    law_penalty_range(slash_bps, less);
    law_penalty_range(slash_bps, more);
    if less >= HEALTH_THRESHOLD_BPS {
        lemma_share(slash_bps - MIN_DYNAMIC_SLASH_BPS, surplus_bps(less), surplus_bps(more));
    } else if more < HEALTH_THRESHOLD_BPS {
        lemma_share(MAX_DYNAMIC_SLASH_BPS - slash_bps, shortfall_bps(more), shortfall_bps(less));
    }
}

/// The penalty to apply is the configured one while the dynamic threshold is
/// disabled. While it is enabled, and the configured penalty is between the
/// least and the greatest one, computing the penalty never aborts, a healthy
/// protocol has one between the least and the configured penalty, and an
/// unhealthy one between the configured and the greatest.
pub proof fn law_dynamic_slash_threshold(env: EnvView)
    requires
        env.config is Some,
    ensures
        ({
            let cfg = env.config->0;
            let bps = dynamic_slash_bps(env);
            &&& !cfg.dynamic_slash_threshold ==> bps == cfg.slash_bps && dynamic_slash_trap(
                env,
            ) is None
            &&& cfg.dynamic_slash_threshold && MIN_DYNAMIC_SLASH_BPS <= cfg.slash_bps
                <= MAX_DYNAMIC_SLASH_BPS ==> {
                &&& dynamic_slash_trap(env) is None
                &&& health_score(env) >= HEALTH_THRESHOLD_BPS ==> MIN_DYNAMIC_SLASH_BPS <= bps
                    <= cfg.slash_bps
                &&& health_score(env) < HEALTH_THRESHOLD_BPS ==> cfg.slash_bps <= bps
                    <= MAX_DYNAMIC_SLASH_BPS
            }
        }),
{
    let cfg = env.config->0;
    law_health_score_range(env);
    if MIN_DYNAMIC_SLASH_BPS <= cfg.slash_bps <= MAX_DYNAMIC_SLASH_BPS {
        law_penalty_range(cfg.slash_bps as int, health_score(env));
    }
}

} // verus!
