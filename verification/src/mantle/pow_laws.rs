//! Laws of the rewards for proofs of work.
use vstd::prelude::*;

use crate::mantle::pow;
use crate::mantle::pow::{ClaimPoWConstants, PowReward, PowState};
use crate::types::{Epoch, Slot};

verus! {

/// The reward per claim is the share of the pool at the rate, rounded down to whole tokens, and
/// no more than can be counted.
pub proof fn rewards_are_a_share_of_the_pool<C: ClaimPoWConstants>(pool: PowReward)
    requires
        0 < C::RATE_DEN * C::TARGET_CLAIM_PER_BLOCK * C::EXPECTED_BLOCKS_PER_EPOCH <= u64::MAX,
    ensures
        ({
            let reward = pow::epoch_pow_reward::<C>(pool);
            let scale = C::RATE_DEN * C::TARGET_CLAIM_PER_BLOCK * C::EXPECTED_BLOCKS_PER_EPOCH;
            &&& 0 <= reward <= u64::MAX
            &&& scale * reward <= pool * C::RATE_NUM
            &&& reward < u64::MAX ==> pool * C::RATE_NUM < scale * (reward + 1)
        }),
{
    let scale = pow::denominator_of::<C>();
    let all = pool * C::RATE_NUM;
    let share = all / scale;
    assert(all >= 0) by (nonlinear_arith)
        requires
            all == pool * C::RATE_NUM,
            pool >= 0,
            C::RATE_NUM >= 0,
    ;
    assert(scale * share <= all < scale * (share + 1) && share >= 0) by (nonlinear_arith)
        requires
            scale > 0,
            all >= 0,
            share == all / scale,
    ;
    let reward = pow::epoch_pow_reward::<C>(pool);
    assert(scale * reward <= scale * share) by (nonlinear_arith)
        requires
            reward <= share,
            scale > 0,
    ;
}

/// A greater pool pays for no less of a reward.
pub proof fn rewards_grow_with_the_pool<C: ClaimPoWConstants>(pool: PowReward, more: PowReward)
    requires
        pool <= more,
        0 < C::RATE_DEN * C::TARGET_CLAIM_PER_BLOCK * C::EXPECTED_BLOCKS_PER_EPOCH <= u64::MAX,
    ensures
        pow::epoch_pow_reward::<C>(pool) <= pow::epoch_pow_reward::<C>(more),
{
    let d = pow::denominator_of::<C>();
    assert(pool * C::RATE_NUM <= more * C::RATE_NUM) by (nonlinear_arith)
        requires
            0 <= pool <= more,
            C::RATE_NUM >= 0,
    ;
    vstd::arithmetic::div_mod::lemma_div_is_ordered(pool * C::RATE_NUM, more * C::RATE_NUM, d);
}

/// What is collected adds up, as far as it can be counted.
pub proof fn collected_rewards_add_up(a: u64, b: u64)
    ensures
        pow::saturating_sum(a, b) <= a + b,
        pow::saturating_sum(a, b) == a + b || pow::saturating_sum(a, b) == u64::MAX,
        pow::saturating_sum(a, b) >= a,
        pow::saturating_sum(a, b) >= b,
{
}

/// What is kept is what is no older than the window, as it was.
pub proof fn old_slots_are_forgotten(
    slots: Map<[u8; 32], Slot>,
    current: Slot,
    window: Slot,
    key: [u8; 32],
)
    ensures
        pow::recent(slots, current, window).dom().contains(key) <==> slots.dom().contains(key)
            && slots[key] + window >= current,
        pow::recent(slots, current, window).dom().contains(key) ==> pow::recent(
            slots,
            current,
            window,
        )[key] == slots[key],
{
}

/// What is forgotten later would be forgotten then in any case.
pub proof fn forgetting_can_wait(
    slots: Map<[u8; 32], Slot>,
    current: Slot,
    later: Slot,
    window: Slot,
)
    requires
        current <= later,
    ensures
        pow::recent(pow::recent(slots, current, window), later, window) == pow::recent(
            slots,
            later,
            window,
        ),
{
    assert(pow::recent(pow::recent(slots, current, window), later, window) =~= pow::recent(
        slots,
        later,
        window,
    ));
}

/// What was collected is added to the pool and collected anew. The reward per claim is the share
/// of the pool that results, at the rate.
pub proof fn refills_fix_the_reward<C: ClaimPoWConstants>(before: &PowState, after: &PowState)
    requires
        pow::is_refilled::<C>(before, after),
        before.pool() + before.refill() <= u64::MAX,
        0 < C::RATE_DEN * C::TARGET_CLAIM_PER_BLOCK * C::EXPECTED_BLOCKS_PER_EPOCH <= u64::MAX,
    ensures
        after.pool() == before.pool() + before.refill(),
        after.refill() == 0,
        ({
            let scale = C::RATE_DEN * C::TARGET_CLAIM_PER_BLOCK * C::EXPECTED_BLOCKS_PER_EPOCH;
            let all = (before.pool() + before.refill()) * C::RATE_NUM;
            &&& scale * after.claim_reward() <= all
            &&& after.claim_reward() < u64::MAX ==> all < scale * (after.claim_reward() + 1)
        }),
        after.difficulty() == before.difficulty(),
        after.used() == before.used(),
        after.seen() == before.seen(),
{
    rewards_are_a_share_of_the_pool::<C>(after.pool());
}

/// When the epoch advances, what was collected is in the pool, and nothing can be claimed. At
/// no other time anything changes.
pub proof fn epochs_refill_the_pool(
    before: &PowState,
    previous_epoch: Epoch,
    next_epoch: Epoch,
    after: &PowState,
)
    requires
        pow::is_header_state(before, previous_epoch, next_epoch, after),
    ensures
        next_epoch <= previous_epoch ==> *after == *before,
        next_epoch > previous_epoch ==> {
            &&& before.pool() + before.refill() <= u64::MAX ==> after.pool() == before.pool()
                + before.refill()
            &&& before.pool() + before.refill() > u64::MAX ==> after.pool() == u64::MAX
            &&& after.refill() == 0
            &&& after.claim_reward() == 0
        },
        after.difficulty() == before.difficulty(),
        after.used() == before.used(),
        after.seen() == before.seen(),
{
}

} // verus!
