use ledger::collections::trie_map::TrieMap;
use ledger::mantle::pow::{
    compute_epoch_pow_reward, ClaimPoWConstants, ClaimPoWDisabledConstants, PowState,
    POW_EPOCH_REWARD_POOL_GENESIS, POW_REWARD_POOL_GENESIS,
};
use ledger::types::Slot;

const DIFFICULTY: [u8; 32] = [9; 32];
const SLOT_WINDOW: Slot = 100;
const BLOCK_A: [u8; 32] = [1; 32];
const BLOCK_B: [u8; 32] = [2; 32];
const NULLIFIER: [u8; 32] = [3; 32];

/// A payout rate of 1/100.
struct TestConstants;

impl ClaimPoWConstants for TestConstants {
    const RATE_NUM: u64 = 1;
    const RATE_DEN: u64 = 1;
    const TARGET_CLAIM_PER_BLOCK: u64 = 10;
    const EXPECTED_BLOCKS_PER_EPOCH: u64 = 10;
}

/// A payout rate of 2/4.
struct HighRateConstants;

impl ClaimPoWConstants for HighRateConstants {
    const RATE_NUM: u64 = 2;
    const RATE_DEN: u64 = 1;
    const TARGET_CLAIM_PER_BLOCK: u64 = 1;
    const EXPECTED_BLOCKS_PER_EPOCH: u64 = 4;
}

/// Pays out twice what the pool holds.
struct ExcessiveConstants;

impl ClaimPoWConstants for ExcessiveConstants {
    const RATE_NUM: u64 = 2;
}

fn new_state() -> PowState {
    PowState::new(DIFFICULTY)
}

fn assert_same(a: &PowState, b: &PowState) {
    assert_eq!(a.reward_pool(), b.reward_pool());
    assert_eq!(a.epoch_reward(), b.epoch_reward());
    assert_eq!(a.reward_difficulty(), b.reward_difficulty());
    assert_eq!(a.nullifiers().count(), b.nullifiers().count());
    assert_eq!(a.block_slots().count(), b.block_slots().count());
    // What is still pending shows when it is moved into the pool.
    let mut a: PowState = a.clone();
    let mut b: PowState = b.clone();
    a.add_rewards_to_pool::<TestConstants>();
    b.add_rewards_to_pool::<TestConstants>();
    assert_eq!(a.reward_pool(), b.reward_pool());
}

#[test]
fn new_state_starts_with_genesis_values() {
    let state = new_state();
    assert_eq!(state.reward_pool(), POW_REWARD_POOL_GENESIS);
    assert_eq!(state.epoch_reward(), POW_EPOCH_REWARD_POOL_GENESIS);
    assert_eq!(state.reward_difficulty(), DIFFICULTY);
    assert_eq!(state.nullifiers().count(), 0);
    assert_eq!(state.block_slots().count(), 0);
}

#[test]
fn compute_epoch_pow_reward_applies_rate() {
    assert_eq!(compute_epoch_pow_reward::<TestConstants>(1_000), 10);
    assert_eq!(compute_epoch_pow_reward::<TestConstants>(0), 0);
    assert_eq!(compute_epoch_pow_reward::<TestConstants>(150), 1);
    assert_eq!(compute_epoch_pow_reward::<TestConstants>(99), 0);
}

#[test]
fn compute_epoch_pow_reward_disabled_is_always_zero() {
    assert_eq!(compute_epoch_pow_reward::<ClaimPoWDisabledConstants>(u64::MAX), 0);
}

#[test]
fn compute_epoch_pow_reward_does_not_overflow_on_full_pool() {
    assert_eq!(compute_epoch_pow_reward::<HighRateConstants>(u64::MAX), u64::MAX / 2);
}

#[test]
fn compute_epoch_pow_reward_saturates() {
    assert_eq!(compute_epoch_pow_reward::<ExcessiveConstants>(21), 42);
    assert_eq!(compute_epoch_pow_reward::<ExcessiveConstants>(u64::MAX), u64::MAX);
}

#[test]
fn expected_claims_do_not_exceed_the_pool() {
    for pool in [0, 99, 1_000, 123_456_789, u64::MAX] {
        let reward = compute_epoch_pow_reward::<TestConstants>(pool);
        assert!(u128::from(reward) * 100 <= u128::from(pool));
    }
}

#[test]
fn add_rewards_to_pool_moves_refill_and_computes_reward() {
    let mut state = new_state();
    state.add_reward_refill_rewards(1_000);
    state.add_rewards_to_pool::<TestConstants>();

    assert_eq!(state.reward_pool(), POW_REWARD_POOL_GENESIS + 1_000);
    assert_eq!(state.epoch_reward(), (POW_REWARD_POOL_GENESIS + 1_000) / 100);
}

#[test]
fn add_rewards_to_pool_accumulates_across_multiple_refills() {
    let mut state = new_state();
    state.add_reward_refill_rewards(400);
    state.add_reward_refill_rewards(600);
    state.add_rewards_to_pool::<TestConstants>();

    assert_eq!(state.reward_pool(), POW_REWARD_POOL_GENESIS + 1_000);
}

#[test]
fn add_rewards_to_pool_is_noop_on_pool_when_no_refill_is_pending() {
    let mut state = new_state();
    state.add_reward_refill_rewards(1_000);
    state.add_rewards_to_pool::<TestConstants>();
    state.add_rewards_to_pool::<TestConstants>();

    assert_eq!(state.reward_pool(), POW_REWARD_POOL_GENESIS + 1_000);
    assert_eq!(state.epoch_reward(), (POW_REWARD_POOL_GENESIS + 1_000) / 100);
}

#[test]
fn add_rewards_to_pool_recomputes_reward_from_new_pool_each_time() {
    let mut state = new_state();
    state.add_reward_refill_rewards(1_000);
    state.add_rewards_to_pool::<TestConstants>();
    assert_eq!(state.epoch_reward(), (POW_REWARD_POOL_GENESIS + 1_000) / 100);

    state.add_reward_refill_rewards(9_000);
    state.add_rewards_to_pool::<TestConstants>();

    assert_eq!(state.reward_pool(), POW_REWARD_POOL_GENESIS + 10_000);
    assert_eq!(state.epoch_reward(), (POW_REWARD_POOL_GENESIS + 10_000) / 100);
}

#[test]
fn refill_rewards_saturate_instead_of_overflowing() {
    let mut state = new_state();
    state.add_reward_refill_rewards(u64::MAX);
    state.add_reward_refill_rewards(1);
    state.add_rewards_to_pool::<TestConstants>();

    assert_eq!(state.reward_pool(), u64::MAX);
}

#[test]
fn reward_pool_saturates_instead_of_overflowing() {
    let mut state = new_state();
    state.add_reward_refill_rewards(u64::MAX);
    state.add_rewards_to_pool::<TestConstants>();
    state.add_reward_refill_rewards(u64::MAX);
    state.add_rewards_to_pool::<TestConstants>();

    assert_eq!(state.reward_pool(), u64::MAX);
}

#[test]
fn try_apply_header_is_noop_when_epoch_does_not_advance() {
    let mut state = new_state();
    state.add_reward_refill_rewards(500);

    let unchanged = state.try_apply_header(3, 3);

    assert_same(&unchanged, &state);
    assert_eq!(unchanged.reward_pool(), POW_REWARD_POOL_GENESIS);
}

#[test]
fn try_apply_header_is_noop_when_epoch_goes_backwards() {
    let mut state = new_state();
    state.add_reward_refill_rewards(500);

    let unchanged = state.try_apply_header(5, 1);

    assert_same(&unchanged, &state);
}

#[test]
fn try_apply_header_does_not_mutate_the_receiver() {
    let mut state = new_state();
    state.add_reward_refill_rewards(500);
    let original = state.clone();

    drop(state.try_apply_header(0, 1));

    assert_same(&state, &original);
}

#[test]
fn try_apply_header_moves_pending_refill_into_pool_on_advance() {
    let mut state = new_state();
    state.add_reward_refill_rewards(500);

    let new_state = state.try_apply_header(0, 1);

    assert_eq!(new_state.reward_pool(), POW_REWARD_POOL_GENESIS + 500);
}

#[test]
fn try_apply_header_leaves_reward_claiming_disabled() {
    let mut state = new_state();
    state.add_reward_refill_rewards(1_000_000);

    let new_state = state.try_apply_header(0, 1);

    assert_eq!(new_state.reward_pool(), POW_REWARD_POOL_GENESIS + 1_000_000);
    assert_eq!(new_state.epoch_reward(), 0);
}

#[test]
fn try_apply_header_across_multiple_epoch_jump_applies_once() {
    let mut state = new_state();
    state.add_reward_refill_rewards(500);

    let new_state = state.try_apply_header(0, 5);

    assert_eq!(new_state.reward_pool(), POW_REWARD_POOL_GENESIS + 500);
}

#[test]
fn try_apply_header_preserves_pending_refill_across_noop_transitions() {
    let mut state = new_state();
    state.add_reward_refill_rewards(200);
    let mut state = state.try_apply_header(2, 2);

    state.add_reward_refill_rewards(300);
    let new_state = state.try_apply_header(2, 3);

    assert_eq!(new_state.reward_pool(), POW_REWARD_POOL_GENESIS + 500);
}

#[test]
fn seen_block_slots_are_pruned_once_they_age_out_of_the_window() {
    let mut state = new_state();

    state.add_seen_block_slots(BLOCK_A, 5);
    state.add_seen_block_slots(BLOCK_B, 5 + SLOT_WINDOW);
    state.prune_seen_block_slots(5 + SLOT_WINDOW, SLOT_WINDOW);
    assert_eq!(state.block_slots().lookup(&BLOCK_A), Some(&5));
    assert_eq!(state.block_slots().lookup(&BLOCK_B), Some(&(5 + SLOT_WINDOW)));

    state.prune_seen_block_slots(5 + SLOT_WINDOW + 1, SLOT_WINDOW);
    assert!(state.block_slots().lookup(&BLOCK_A).is_none());
    assert!(state.block_slots().lookup(&BLOCK_B).is_some());
}

#[test]
fn nullifiers_are_pruned_once_they_age_out_of_the_window() {
    let old_nullifier = [4; 32];
    let recent_nullifier = [5; 32];
    let nullifiers =
        TrieMap::empty().with(old_nullifier, 5).with(recent_nullifier, 5 + SLOT_WINDOW);
    let mut state = new_state();
    state.update_from_claim_execution_result(state.reward_pool(), &nullifiers);

    state.prune_nullifiers_by_slots(5 + SLOT_WINDOW, SLOT_WINDOW);
    assert!(state.nullifiers().lookup(&old_nullifier).is_some());
    assert!(state.nullifiers().lookup(&recent_nullifier).is_some());

    state.prune_nullifiers_by_slots(5 + SLOT_WINDOW + 1, SLOT_WINDOW);
    assert!(state.nullifiers().lookup(&old_nullifier).is_none());
    assert!(state.nullifiers().lookup(&recent_nullifier).is_some());
}

#[test]
fn update_from_claim_execution_result_replaces_pool_and_nullifiers() {
    let mut state = new_state();
    state.add_reward_refill_rewards(1_000);
    state.add_rewards_to_pool::<TestConstants>();
    let epoch_reward = (POW_REWARD_POOL_GENESIS + 1_000) / 100;
    assert_eq!(state.reward_pool(), POW_REWARD_POOL_GENESIS + 1_000);
    assert_eq!(state.epoch_reward(), epoch_reward);

    state.update_from_claim_execution_result(990, &TrieMap::empty().with(NULLIFIER, 7));

    assert_eq!(state.reward_pool(), 990);
    assert_eq!(state.nullifiers().count(), 1);
    assert_eq!(state.nullifiers().lookup(&NULLIFIER), Some(&7));
    assert_eq!(state.epoch_reward(), epoch_reward);
}

fn claim(state: &mut PowState, reward_pool: u64) {
    state.update_from_claim_execution_result(reward_pool, &TrieMap::empty().with(NULLIFIER, 7));
}

#[test]
fn epoch_reward_tapers_as_claims_drain_the_pool() {
    let mut state = new_state();
    state.add_reward_refill_rewards(1_000);
    state.add_rewards_to_pool::<TestConstants>();
    assert_eq!(state.epoch_reward(), (POW_REWARD_POOL_GENESIS + 1_000) / 100);

    claim(&mut state, 990);
    state.add_rewards_to_pool::<TestConstants>();
    assert_eq!(state.epoch_reward(), 9);

    claim(&mut state, 99);
    state.add_rewards_to_pool::<TestConstants>();
    assert_eq!(state.epoch_reward(), 0);
}

#[test]
fn claim_execution_result_does_not_clobber_pending_refill() {
    let mut state = new_state();
    state.add_reward_refill_rewards(1_000);
    state.add_rewards_to_pool::<TestConstants>();

    state.add_reward_refill_rewards(500);
    claim(&mut state, 990);

    state.add_rewards_to_pool::<TestConstants>();
    assert_eq!(state.reward_pool(), 1_490);
    assert_eq!(state.epoch_reward(), 14);
}

#[test]
fn try_apply_header_carries_nullifiers_forward() {
    let mut state = new_state();
    claim(&mut state, 0);

    let new_state = state.try_apply_header(0, 1);

    assert!(new_state.nullifiers().lookup(&NULLIFIER).is_some());
}

#[test]
fn difficulty_is_replaced() {
    let mut state = new_state();
    state.update_difficulty([8; 32]);
    assert_eq!(state.reward_difficulty(), [8; 32]);
    assert_eq!(state.reward_pool(), POW_REWARD_POOL_GENESIS);
}

#[test]
fn states_are_made_of_their_parts() {
    let used = TrieMap::empty().with(NULLIFIER, 5);
    let seen = TrieMap::empty().with(BLOCK_A, 6).with(BLOCK_B, 7);
    let state = PowState::from_parts(1, 2, DIFFICULTY, 3, used, seen);
    assert_eq!(state.reward_pool(), 1);
    assert_eq!(state.epoch_reward(), 2);
    assert_eq!(state.reward_difficulty(), DIFFICULTY);
    assert_eq!(state.refill_rewards(), 3);
    assert_eq!(state.nullifiers().listed(), vec![NULLIFIER]);
    let mut blocks = state.block_slots().listed();
    blocks.sort();
    assert_eq!(blocks, vec![BLOCK_A, BLOCK_B]);
    assert_eq!(state.block_slots().lookup(&BLOCK_B), Some(&7));
}
