//! What a block earns.
use vstd::prelude::*;

use crate::types::{GasCost, Value};

verus! {

/// The scale of the share of the inflation that is paid.
pub const A_SCALE: u128 = 120_000_000;

/// How much a token of fees adds to the share, at that scale.
pub const FEE_AVG_NUM: u128 = 10_512;

/// The numerator of what a block adds to the supply at most.
pub const INFLATION_NUMERATOR: u128 = 62_500;

/// The denominator of what a block adds to the supply at most.
pub const INFLATION_DENOMINATOR: u128 = 657;

/// The stake that should take part.
pub const STAKE_TARGET: u128 = 3_000_000_000;

/// The numerator of the share of leaders.
pub const LEADER_REWARD_SHARE_NUMERATOR: u128 = 4;

/// The denominator of the share of leaders.
pub const LEADER_REWARD_SHARE_DENOMINATOR: u128 = 10;

/// The numerator of the share of the providers of the Blend network.
pub const BLEND_REWARD_SHARE_NUMERATOR: u128 = 6;

/// The denominator of the share of the providers of the Blend network.
pub const BLEND_REWARD_SHARE_DENOMINATOR: u128 = 10;

/// The share of the inflation that is paid, at the scale [`A_SCALE`]: it grows with the fees
/// and shrinks with the stake.
pub open spec fn inflation_share(sum_fees: int, total_stake: Value) -> int {
    let share = 3_000_000_000 + 10_512 * sum_fees - total_stake;
    if share < 0 {
        0
    } else if share > 120_000_000 {
        120_000_000
    } else {
        share
    }
}

/// What a block earns, times 657 times [`A_SCALE`]: the share of the inflation, and for the
/// rest the fees that were burned.
pub open spec fn scaled_reward(share: int, burned: GasCost) -> int {
    62_500 * share + 657 * (120_000_000 - share) * burned
}

/// What the providers of the Blend network get of a block.
pub open spec fn blend_reward(sum_fees: int, total_stake: Value, burned: GasCost) -> int {
    scaled_reward(inflation_share(sum_fees, total_stake), burned) * 6 / 788_400_000_000
}

/// What the leader gets of a block, the tips aside.
pub open spec fn leader_reward(sum_fees: int, total_stake: Value, burned: GasCost) -> int {
    scaled_reward(inflation_share(sum_fees, total_stake), burned) * 4 / 788_400_000_000
}

/// Neither reward is more than six tenths of the fees that were burned, and 58 tokens.
pub proof fn lemma_rewards(sum_fees: int, total_stake: Value, burned: GasCost)
    ensures
        0 <= scaled_reward(inflation_share(sum_fees, total_stake), burned) <= 78_840_000_000 * (
        burned + 96),
        0 <= leader_reward(sum_fees, total_stake, burned) <= blend_reward(
            sum_fees,
            total_stake,
            burned,
        ),
        10 * blend_reward(sum_fees, total_stake, burned) <= 6 * (burned + 96),
{
    let share = inflation_share(sum_fees, total_stake);
    let rest = 657 * (120_000_000 - share);
    assert(0 <= rest * burned <= 78_840_000_000 * burned) by (nonlinear_arith)
        requires
            0 <= rest <= 78_840_000_000,
            burned >= 0,
    ;
    let reward = scaled_reward(share, burned);
    assert(reward == 62_500 * share + rest * burned);
    assert(0 <= share <= 120_000_000);
    assert(rest * burned <= 78_840_000_000 * burned);
    assert(62_500 * share <= 78_840_000_000 * 96);
    assert(reward <= 78_840_000_000 * (burned + 96));
    assert(10 * (reward * 6 / 788_400_000_000) <= 6 * (burned + 96)) by (nonlinear_arith)
        requires
            0 <= reward <= 78_840_000_000 * (burned + 96),
    ;
    assert(reward * 4 / 788_400_000_000 <= reward * 6 / 788_400_000_000);
}

/// What a block pays in all is no more than the fees that it burns, and 96 tokens.
pub proof fn block_pays_fees_and_inflation(sum_fees: int, total_stake: Value, burned: GasCost)
    ensures
        leader_reward(sum_fees, total_stake, burned) + blend_reward(sum_fees, total_stake, burned)
            <= burned + 96,
{
    lemma_rewards(sum_fees, total_stake, burned);
}

/// When the share of the inflation is full, a block earns the same whatever it burns.
pub proof fn full_inflation_ignores_fees(
    sum_fees: int,
    total_stake: Value,
    burned: GasCost,
    other: GasCost,
)
    requires
        3_000_000_000 + 10_512 * sum_fees - total_stake >= 120_000_000,
    ensures
        blend_reward(sum_fees, total_stake, burned) == blend_reward(sum_fees, total_stake, other),
        leader_reward(sum_fees, total_stake, burned) == leader_reward(sum_fees, total_stake, other),
{
    assert(657 * 0 * burned == 0 && 657 * 0 * other == 0) by (nonlinear_arith);
}

/// When nothing of the inflation is paid, what a block earns is what it burns: four tenths
/// for the leader and six tenths for the providers.
pub proof fn without_inflation_fees_are_paid_out(
    sum_fees: int,
    total_stake: Value,
    burned: GasCost,
)
    requires
        3_000_000_000 + 10_512 * sum_fees <= total_stake,
    ensures
        blend_reward(sum_fees, total_stake, burned) == burned * 6 / 10,
        leader_reward(sum_fees, total_stake, burned) == burned * 4 / 10,
{
    let scale = 78_840_000_000int;
    let reward = scaled_reward(0, burned);
    assert(reward == scale * burned);
    vstd::arithmetic::div_mod::lemma_div_multiples_vanish_quotient(scale, burned * 6, 10);
    vstd::arithmetic::div_mod::lemma_div_multiples_vanish_quotient(scale, burned * 4, 10);
    assert(reward * 6 == scale * (burned * 6));
    assert(reward * 4 == scale * (burned * 4));
}

/// The share of the inflation is what the stake lacks to its target, which the fees raise, as
/// far as that lies between nothing and all of the inflation: it is never more than what lacks
/// unless it is nothing, and never less unless it is all.
pub proof fn inflation_makes_up_for_stake(sum_fees: int, total_stake: Value)
    ensures
        0 <= inflation_share(sum_fees, total_stake) <= 120_000_000,
        inflation_share(sum_fees, total_stake) > 0 ==> inflation_share(sum_fees, total_stake)
            <= 3_000_000_000 + 10_512 * sum_fees - total_stake,
        inflation_share(sum_fees, total_stake) < 120_000_000 ==> inflation_share(
            sum_fees,
            total_stake,
        ) >= 3_000_000_000 + 10_512 * sum_fees - total_stake,
{
}

/// As the stake grows, the share of the inflation does not, and it shrinks by no more than the
/// stake grows. It shrinks by just as much as long as it is neither nothing nor all.
pub proof fn inflation_shrinks_with_the_stake(sum_fees: int, total_stake: Value, more: Value)
    requires
        total_stake <= more,
    ensures
        inflation_share(sum_fees, more) <= inflation_share(sum_fees, total_stake)
            <= inflation_share(sum_fees, more) + (more - total_stake),
        0 < inflation_share(sum_fees, more) && inflation_share(sum_fees, total_stake) < 120_000_000
            ==> inflation_share(sum_fees, total_stake) == inflation_share(sum_fees, more) + (more
            - total_stake),
{
}

/// As the fees grow, the share of the inflation does not shrink, and each token of fees is worth
/// as much as 10512 tokens of stake.
pub proof fn inflation_grows_with_the_fees(sum_fees: int, more: int, total_stake: Value)
    requires
        sum_fees <= more,
    ensures
        inflation_share(sum_fees, total_stake) <= inflation_share(more, total_stake)
            <= inflation_share(sum_fees, total_stake) + 10_512 * (more - sum_fees),
        0 < inflation_share(sum_fees, total_stake) && inflation_share(more, total_stake)
            < 120_000_000 ==> inflation_share(more, total_stake) == inflation_share(
            sum_fees,
            total_stake,
        ) + 10_512 * (more - sum_fees),
{
}

/// What a block earns is a mean of 62500 / 657 tokens, the inflation of a block, and of what it
/// burns, weighed by `share`, what the stake lacks to its target. The leader gets four tenths of
/// it and the providers get six, each rounded down to whole tokens.
pub proof fn rewards_are_tenths_of_inflation_and_fees(
    sum_fees: int,
    total_stake: Value,
    burned: GasCost,
    share: int,
)
    requires
        0 <= share <= 120_000_000,
        share > 0 ==> share <= 3_000_000_000 + 10_512 * sum_fees - total_stake,
        share < 120_000_000 ==> share >= 3_000_000_000 + 10_512 * sum_fees - total_stake,
    ensures
        ({
            let earned = 62_500 * share + 657 * (120_000_000 - share) * burned;
            let leader = leader_reward(sum_fees, total_stake, burned);
            let blend = blend_reward(sum_fees, total_stake, burned);
            &&& 657 * 120_000_000 * 10 * leader <= 4 * earned < 657 * 120_000_000 * 10 * (leader
                + 1)
            &&& 657 * 120_000_000 * 10 * blend <= 6 * earned < 657 * 120_000_000 * 10 * (blend + 1)
        }),
{
    assert(share == inflation_share(sum_fees, total_stake));
    let earned = scaled_reward(share, burned);
    let leader = earned * 4 / 788_400_000_000;
    let blend = earned * 6 / 788_400_000_000;
    assert(788_400_000_000 * leader <= 4 * earned < 788_400_000_000 * (leader + 1));
    assert(788_400_000_000 * blend <= 6 * earned < 788_400_000_000 * (blend + 1));
    assert(657 * 120_000_000 * 10 == 788_400_000_000int) by (nonlinear_arith);
}

/// Of two blocks with the same stake and the same fees of the last blocks, the one that burns
/// more does not earn less.
pub proof fn rewards_grow_with_what_is_burned(
    sum_fees: int,
    total_stake: Value,
    burned: GasCost,
    more: GasCost,
)
    requires
        burned <= more,
    ensures
        leader_reward(sum_fees, total_stake, burned) <= leader_reward(sum_fees, total_stake, more),
        blend_reward(sum_fees, total_stake, burned) <= blend_reward(sum_fees, total_stake, more),
{
    let rest = 657 * (120_000_000 - inflation_share(sum_fees, total_stake));
    assert(rest * burned <= rest * more) by (nonlinear_arith)
        requires
            0 <= rest,
            burned <= more,
    ;
}

/// Computes what the leader and the providers get of a block that burned `burned`, when the
/// fees of the last blocks sum up to `sum_fees`.
pub fn block_rewards(sum_fees: u128, total_stake: Value, burned: GasCost) -> (r: (Value, Value))
    requires
        sum_fees <= 120 * u64::MAX,
    ensures
        r.0 == leader_reward(sum_fees as int, total_stake, burned),
        r.1 == blend_reward(sum_fees as int, total_stake, burned),
{
    let grown: u128 = STAKE_TARGET + FEE_AVG_NUM * sum_fees;
    let left: u128 = if grown < total_stake as u128 {
        0
    } else {
        grown - total_stake as u128
    };
    let a_numerator: u128 = if left < A_SCALE {
        left
    } else {
        A_SCALE
    };
    assert(a_numerator == inflation_share(sum_fees as int, total_stake));
    proof {
        lemma_rewards(sum_fees as int, total_stake, burned);
        let rest = 657 * (120_000_000 - a_numerator);
        assert(0 <= rest * burned <= 78_840_000_000 * u64::MAX) by (nonlinear_arith)
            requires
                0 <= rest <= 78_840_000_000,
                0 <= burned <= u64::MAX,
        ;
    }
    let reward_numerator: u128 = INFLATION_NUMERATOR * a_numerator + INFLATION_DENOMINATOR * (
    A_SCALE - a_numerator) * (burned as u128);
    let reward_denominator: u128 = INFLATION_DENOMINATOR * A_SCALE;
    let blend: u64 = (reward_numerator * BLEND_REWARD_SHARE_NUMERATOR / (reward_denominator
        * BLEND_REWARD_SHARE_DENOMINATOR)) as u64;
    let leader: u64 = (reward_numerator * LEADER_REWARD_SHARE_NUMERATOR / (reward_denominator
        * LEADER_REWARD_SHARE_DENOMINATOR)) as u64;
    (leader, blend)
}

} // verus!
