//! Rewards for proofs of work.
use vstd::prelude::*;

use crate::collections::trie_map::TrieMap;
use crate::types::{Epoch, Fr, Slot, Value};

verus! {

/// A reward for a proof of work.
pub type PowReward = u64;

/// The value that a puzzle ticket must be below.
pub type PowTarget = Fr;

/// Marks a proof of work as used.
pub type PowNullifier = [u8; 32];

/// What the pool holds at genesis.
pub const POW_REWARD_POOL_GENESIS: PowReward = 1_000_000_000;

/// The reward per claim at genesis.
pub const POW_EPOCH_REWARD_POOL_GENESIS: PowReward = 1_000_000;

/// How much of the pool is paid out per epoch: the rate is `RATE_NUM` over the
/// [`ClaimPoWConstants::denominator`].
pub trait ClaimPoWConstants {
    /// The numerator of the rate.
    const RATE_NUM: u64 = 0;

    /// The scale of the denominator of the rate.
    const RATE_DEN: u64 = 1;

    /// The number of claims that a block should hold.
    const TARGET_CLAIM_PER_BLOCK: u64 = 1;

    /// The number of blocks that an epoch should have.
    const EXPECTED_BLOCKS_PER_EPOCH: u64 = 1;

    /// The denominator of the rate.
    fn denominator() -> (r: u64)
        requires
            0 < Self::RATE_DEN * Self::TARGET_CLAIM_PER_BLOCK * Self::EXPECTED_BLOCKS_PER_EPOCH
                <= u64::MAX,
        ensures
            r == Self::RATE_DEN * Self::TARGET_CLAIM_PER_BLOCK * Self::EXPECTED_BLOCKS_PER_EPOCH,
    {
        proof {
            let first = Self::RATE_DEN * Self::TARGET_CLAIM_PER_BLOCK;
            let last = Self::EXPECTED_BLOCKS_PER_EPOCH as int;
            assert(0 <= first <= first * last) by (nonlinear_arith)
                requires
                    0 < first * last,
                    last >= 0,
            ;
        }
        Self::RATE_DEN * Self::TARGET_CLAIM_PER_BLOCK * Self::EXPECTED_BLOCKS_PER_EPOCH
    }
}

/// The rate of a network in which rewards cannot be claimed: nothing is ever paid out.
pub struct ClaimPoWDisabledConstants;

impl ClaimPoWConstants for ClaimPoWDisabledConstants {
    const RATE_NUM: u64 = 0;

    const RATE_DEN: u64 = 1;

    const TARGET_CLAIM_PER_BLOCK: u64 = 1;

    const EXPECTED_BLOCKS_PER_EPOCH: u64 = 1;
}

/// The denominator of the rate.
pub open spec fn denominator_of<C: ClaimPoWConstants>() -> int {
    C::RATE_DEN * C::TARGET_CLAIM_PER_BLOCK * C::EXPECTED_BLOCKS_PER_EPOCH
}

/// The reward per claim that `pool` pays for: its share at the rate, rounded down, or
/// the greatest reward when that is more.
pub open spec fn epoch_pow_reward<C: ClaimPoWConstants>(pool: PowReward) -> int {
    let share = pool * C::RATE_NUM / denominator_of::<C>();
    if share <= u64::MAX {
        share
    } else {
        u64::MAX as int
    }
}

/// Computes the reward per claim that `pow_reward_pool` pays for.
pub fn compute_epoch_pow_reward<C: ClaimPoWConstants>(pow_reward_pool: PowReward) -> (r: PowReward)
    requires
        0 < denominator_of::<C>() <= u64::MAX,
    ensures
        r == epoch_pow_reward::<C>(pow_reward_pool),
{
    let denominator: u64 = C::denominator();
    proof {
        assert(pow_reward_pool * C::RATE_NUM <= u64::MAX * u64::MAX) by (nonlinear_arith)
            requires
                pow_reward_pool <= u64::MAX,
                C::RATE_NUM <= u64::MAX,
        ;
    }
    let reward: u128 = pow_reward_pool as u128 * C::RATE_NUM as u128 / denominator as u128;
    if reward <= u64::MAX as u128 {
        reward as u64
    } else {
        u64::MAX
    }
}

/// The sum of `a` and `b`, or the greatest value when that is more.
pub open spec fn saturating_sum(a: u64, b: u64) -> u64 {
    if a + b <= u64::MAX {
        (a + b) as u64
    } else {
        u64::MAX
    }
}

/// The entries of `slots` that are not older than `window` slots at `current`.
pub open spec fn recent(slots: Map<[u8; 32], Slot>, current: Slot, window: Slot) -> Map<
    [u8; 32],
    Slot,
> {
    Map::new(
        |key: [u8; 32]| slots.dom().contains(key) && slots[key] >= current - window,
        |key: [u8; 32]| slots[key],
    )
}

/// Drops the entries of `slots` that are older than `window` slots at `current`.
fn prune(slots: &TrieMap<Slot>, current: Slot, window: Slot) -> (r: TrieMap<Slot>)
    ensures
        r@ == recent(slots@, current, window),
{
    let cutoff: u64 = current.saturating_sub(window);
    let keys: Vec<[u8; 32]> = slots.keys();
    let mut kept: TrieMap<Slot> = TrieMap::new();
    let mut i: usize = 0;
    while i < keys.len()
        invariant
            0 <= i <= keys@.len(),
            keys@.to_set() == slots@.dom(),
            cutoff == (if current >= window { current - window } else { 0 }),
            forall|key: [u8; 32]| #[trigger]
                kept@.dom().contains(key) ==> slots@.dom().contains(key) && slots@[key] >= cutoff
                    && kept@[key] == slots@[key],
            forall|j: int|
                0 <= j < i && slots@[#[trigger] keys@[j]] >= cutoff ==> kept@.dom().contains(
                    keys@[j],
                ),
        decreases keys@.len() - i,
    {
        let key: [u8; 32] = keys[i];
        assert(keys@.to_set().contains(keys@[i as int]));
        if let Some(slot) = slots.get(&key) {
            if *slot >= cutoff {
                kept.insert_mut(key, *slot);
            }
        }
        i += 1;
    }
    proof {
        let expected = recent(slots@, current, window);
        assert forall|key: [u8; 32]| expected.dom().contains(key) implies kept@.dom().contains(
            key,
        ) by {
            assert(keys@.to_set().contains(key));
            let j = choose|j: int| 0 <= j < keys@.len() && keys@[j] == key;
            assert(slots@[keys@[j]] >= cutoff);
        }
        assert(kept@ =~= expected);
    }
    kept
}

/// The state of the rewards for proofs of work.
pub struct PowState {
    /// What rewards are paid from. At each epoch boundary it gets what was collected for
    /// it during the epoch; claims drain it.
    reward_pool: PowReward,
    /// The reward per claim, fixed for the epoch.
    epoch_reward: PowReward,
    /// The value that a puzzle ticket must be below.
    reward_difficulty: PowTarget,
    /// What was collected during the epoch.
    refill_rewards: PowReward,
    /// The proofs of work that were used, and the slots that they were claimed for.
    nullifiers: TrieMap<Slot>,
    /// The slots of blocks that were seen lately.
    block_slots: TrieMap<Slot>,
}

impl PowState {
    pub closed spec fn pool(&self) -> PowReward {
        self.reward_pool
    }

    pub closed spec fn claim_reward(&self) -> PowReward {
        self.epoch_reward
    }

    pub closed spec fn difficulty(&self) -> PowTarget {
        self.reward_difficulty
    }

    pub closed spec fn refill(&self) -> PowReward {
        self.refill_rewards
    }

    pub closed spec fn used(&self) -> Map<PowNullifier, Slot> {
        self.nullifiers@
    }

    pub closed spec fn seen(&self) -> Map<[u8; 32], Slot> {
        self.block_slots@
    }

    /// Makes the state at genesis, with the given difficulty.
    pub fn new(reward_difficulty: PowTarget) -> (r: Self)
        ensures
            r.pool() == POW_REWARD_POOL_GENESIS,
            r.claim_reward() == POW_EPOCH_REWARD_POOL_GENESIS,
            r.difficulty() == reward_difficulty,
            r.refill() == 0,
            r.used() == Map::<PowNullifier, Slot>::empty(),
            r.seen() == Map::<[u8; 32], Slot>::empty(),
    {
        PowState {
            reward_pool: POW_REWARD_POOL_GENESIS,
            epoch_reward: POW_EPOCH_REWARD_POOL_GENESIS,
            reward_difficulty,
            refill_rewards: 0,
            nullifiers: TrieMap::new(),
            block_slots: TrieMap::new(),
        }
    }

    /// Makes a state of its parts.
    pub fn from_parts(
        reward_pool: PowReward,
        epoch_reward: PowReward,
        reward_difficulty: PowTarget,
        refill_rewards: PowReward,
        nullifiers: TrieMap<Slot>,
        block_slots: TrieMap<Slot>,
    ) -> (r: Self)
        ensures
            r.pool() == reward_pool,
            r.claim_reward() == epoch_reward,
            r.difficulty() == reward_difficulty,
            r.refill() == refill_rewards,
            r.used() == nullifiers@,
            r.seen() == block_slots@,
    {
        PowState {
            reward_pool,
            epoch_reward,
            reward_difficulty,
            refill_rewards,
            nullifiers,
            block_slots,
        }
    }

    /// What rewards are paid from.
    pub fn reward_pool(&self) -> (r: Value)
        ensures
            r == self.pool(),
    {
        self.reward_pool
    }

    /// The reward per claim.
    pub fn epoch_reward(&self) -> (r: Value)
        ensures
            r == self.claim_reward(),
    {
        self.epoch_reward
    }

    /// What was collected during the epoch.
    pub fn refill_rewards(&self) -> (r: Value)
        ensures
            r == self.refill(),
    {
        self.refill_rewards
    }

    /// The proofs of work that were used, and the slots that they were claimed for.
    pub fn nullifiers(&self) -> (r: &TrieMap<Slot>)
        ensures
            r@ == self.used(),
    {
        &self.nullifiers
    }

    /// The value that a puzzle ticket must be below.
    pub fn reward_difficulty(&self) -> (r: PowTarget)
        ensures
            r == self.difficulty(),
    {
        self.reward_difficulty
    }

    /// The slots of blocks that were seen lately.
    pub fn block_slots(&self) -> (r: &TrieMap<Slot>)
        ensures
            r@ == self.seen(),
    {
        &self.block_slots
    }

    /// Takes over what a claim has left: the pool, and the proofs of work that were used.
    pub fn update_from_claim_execution_result(
        &mut self,
        reward_pool: PowReward,
        nullifiers: &TrieMap<Slot>,
    )
        ensures
            final(self).pool() == reward_pool,
            final(self).used() == nullifiers@,
            final(self).claim_reward() == old(self).claim_reward(),
            final(self).difficulty() == old(self).difficulty(),
            final(self).refill() == old(self).refill(),
            final(self).seen() == old(self).seen(),
    {
        self.nullifiers = nullifiers.clone();
        self.reward_pool = reward_pool;
    }

    /// Moves what was collected into the pool, and fixes the reward per claim that the
    /// pool pays for.
    pub fn add_rewards_to_pool<C: ClaimPoWConstants>(&mut self)
        requires
            0 < denominator_of::<C>() <= u64::MAX,
        ensures
            is_refilled::<C>(old(self), final(self)),
    {
        self.reward_pool = self.reward_pool.saturating_add(self.refill_rewards);
        self.refill_rewards = 0;
        self.epoch_reward = compute_epoch_pow_reward::<C>(self.reward_pool);
    }

    /// Collects `reward` for the pool.
    pub fn add_reward_refill_rewards(&mut self, reward: PowReward)
        ensures
            final(self).refill() == saturating_sum(old(self).refill(), reward),
            final(self).pool() == old(self).pool(),
            final(self).claim_reward() == old(self).claim_reward(),
            final(self).difficulty() == old(self).difficulty(),
            final(self).used() == old(self).used(),
            final(self).seen() == old(self).seen(),
    {
        self.refill_rewards = self.refill_rewards.saturating_add(reward);
    }

    /// Takes over the difficulty that follows the last block.
    pub fn update_difficulty(&mut self, difficulty: PowTarget)
        ensures
            final(self).difficulty() == difficulty,
            final(self).pool() == old(self).pool(),
            final(self).claim_reward() == old(self).claim_reward(),
            final(self).refill() == old(self).refill(),
            final(self).used() == old(self).used(),
            final(self).seen() == old(self).seen(),
    {
        self.reward_difficulty = difficulty;
    }

    /// Records the slot of a block.
    pub fn add_seen_block_slots(&mut self, block_hash: [u8; 32], slot: Slot)
        ensures
            final(self).seen() == old(self).seen().insert(block_hash, slot),
            final(self).pool() == old(self).pool(),
            final(self).claim_reward() == old(self).claim_reward(),
            final(self).difficulty() == old(self).difficulty(),
            final(self).refill() == old(self).refill(),
            final(self).used() == old(self).used(),
    {
        self.block_slots.insert_mut(block_hash, slot);
    }

    /// Forgets blocks that are older than `window` slots.
    pub fn prune_seen_block_slots(&mut self, current: Slot, window: Slot)
        ensures
            final(self).seen() == recent(old(self).seen(), current, window),
            final(self).pool() == old(self).pool(),
            final(self).claim_reward() == old(self).claim_reward(),
            final(self).difficulty() == old(self).difficulty(),
            final(self).refill() == old(self).refill(),
            final(self).used() == old(self).used(),
    {
        self.block_slots = prune(&self.block_slots, current, window);
    }

    /// Forgets proofs of work that were claimed for slots older than `window`.
    pub fn prune_nullifiers_by_slots(&mut self, current: Slot, window: Slot)
        ensures
            final(self).used() == recent(old(self).used(), current, window),
            final(self).pool() == old(self).pool(),
            final(self).claim_reward() == old(self).claim_reward(),
            final(self).difficulty() == old(self).difficulty(),
            final(self).refill() == old(self).refill(),
            final(self).seen() == old(self).seen(),
    {
        self.nullifiers = prune(&self.nullifiers, current, window);
    }

    /// The state after a header: when the epoch advances, what was collected goes into the
    /// pool. Rewards cannot be claimed yet, so the reward per claim is zero from then on.
    pub fn try_apply_header(&self, previous_epoch: Epoch, next_epoch: Epoch) -> (r: Self)
        ensures
            is_header_state(self, previous_epoch, next_epoch, &r),
    {
        let mut next: Self = self.clone();
        if previous_epoch < next_epoch {
            proof {
                lemma_disabled();
            }
            next.add_rewards_to_pool::<ClaimPoWDisabledConstants>();
        }
        next
    }
}

/// Whether `after` is `before` with what was collected moved into the pool.
pub open spec fn is_refilled<C: ClaimPoWConstants>(before: &PowState, after: &PowState) -> bool {
    &&& after.pool() == saturating_sum(before.pool(), before.refill())
    &&& after.refill() == 0
    &&& after.claim_reward() == epoch_pow_reward::<C>(after.pool())
    &&& after.difficulty() == before.difficulty()
    &&& after.used() == before.used()
    &&& after.seen() == before.seen()
}

/// Whether `after` is the state `before` after a header.
pub open spec fn is_header_state(
    before: &PowState,
    previous_epoch: Epoch,
    next_epoch: Epoch,
    after: &PowState,
) -> bool {
    &&& previous_epoch >= next_epoch ==> *after == *before
    &&& previous_epoch < next_epoch ==> {
        &&& after.pool() == saturating_sum(before.pool(), before.refill())
        &&& after.refill() == 0
        &&& after.claim_reward() == 0
    }
    &&& after.difficulty() == before.difficulty()
    &&& after.used() == before.used()
    &&& after.seen() == before.seen()
}

/// A network in which rewards cannot be claimed pays nothing.
pub proof fn lemma_disabled()
    ensures
        denominator_of::<ClaimPoWDisabledConstants>() == 1,
        forall|pool: PowReward|
            #[trigger] epoch_pow_reward::<ClaimPoWDisabledConstants>(pool) == 0,
{
    assert(1u64 * 1u64 * 1u64 == 1) by (nonlinear_arith);
    assert forall|pool: PowReward| #[trigger]
        epoch_pow_reward::<ClaimPoWDisabledConstants>(pool) == 0 by {
        assert(pool * 0 == 0) by (nonlinear_arith);
    }
}

/// All the claims that an epoch should have, at the reward that the pool pays for, do not
/// cost more than the pool holds, when the rate is one at most.
pub proof fn expected_claims_do_not_exceed_the_pool<C: ClaimPoWConstants>(pool: PowReward)
    requires
        0 < denominator_of::<C>() <= u64::MAX,
        C::RATE_NUM <= C::RATE_DEN,
    ensures
        epoch_pow_reward::<C>(pool) * (C::TARGET_CLAIM_PER_BLOCK * C::EXPECTED_BLOCKS_PER_EPOCH)
            <= pool,
{
    let d = denominator_of::<C>();
    let claims = C::TARGET_CLAIM_PER_BLOCK * C::EXPECTED_BLOCKS_PER_EPOCH;
    let rate = C::RATE_NUM as int;
    let scale = C::RATE_DEN as int;
    let share = pool * rate / d;
    assert(d == scale * claims) by (nonlinear_arith)
        requires
            d == C::RATE_DEN * C::TARGET_CLAIM_PER_BLOCK * C::EXPECTED_BLOCKS_PER_EPOCH,
            scale == C::RATE_DEN,
            claims == C::TARGET_CLAIM_PER_BLOCK * C::EXPECTED_BLOCKS_PER_EPOCH,
    ;
    vstd::arithmetic::div_mod::lemma_fundamental_div_mod(pool * rate, d);
    vstd::arithmetic::div_mod::lemma_mod_bound(pool * rate, d);
    assert(share * d <= pool * rate) by (nonlinear_arith)
        requires
            pool * rate == d * share + (pool * rate) % d,
            (pool * rate) % d >= 0,
    ;
    assert(pool * rate <= pool * scale) by (nonlinear_arith)
        requires
            rate <= scale,
            pool >= 0,
    ;
    assert(scale > 0 && claims > 0) by (nonlinear_arith)
        requires
            scale * claims > 0,
            scale >= 0,
    ;
    assert(share * claims <= pool) by (nonlinear_arith)
        requires
            share * d <= pool * scale,
            d == scale * claims,
            scale > 0,
    ;
    assert(share >= 0) by (nonlinear_arith)
        requires
            share == pool * rate / d,
            pool >= 0,
            rate >= 0,
            d > 0,
    ;
    let paid = epoch_pow_reward::<C>(pool);
    assert(paid * claims <= share * claims) by (nonlinear_arith)
        requires
            paid <= share,
            claims > 0,
    ;
}

impl Clone for PowState {
    fn clone(&self) -> (r: Self)
        ensures
            r == *self,
    {
        PowState {
            reward_pool: self.reward_pool,
            epoch_reward: self.epoch_reward,
            reward_difficulty: self.reward_difficulty,
            refill_rewards: self.refill_rewards,
            nullifiers: self.nullifiers.clone(),
            block_slots: self.block_slots.clone(),
        }
    }
}

} // verus!
