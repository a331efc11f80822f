use ledger::collections::tree_map::TreeMap;
use ledger::collections::trie_map::TrieMap;
use ledger::cryptarchia::epoch::{Declarations, EpochState};
use ledger::mantle::sdp::rewards::blend::current_epoch::{core_nodes, CoreNetwork};
use ledger::mantle::sdp::rewards::blend::target_epoch::{ProofOutcome, TargetEpochState};
use ledger::mantle::sdp::rewards::blend::{Rewards, RewardsParameters};
use ledger::mantle::sdp::rewards::Error;
use ledger::merkle::blake2b::Blake2bMerkleHasher;
use ledger::merkle::hasher::NodeHash;
use ledger::merkle::tree::{LeafExtractor, MerkleTree};
use ledger::types::{Declaration, Epoch, Fr, ProviderId, ServiceType, Utxo, Value};

struct NoteLeaf;

impl LeafExtractor<Utxo> for NoteLeaf {
    type Hasher = Blake2bMerkleHasher;

    fn leaf_of(key: [u8; 32], _item: Utxo) -> NodeHash {
        key
    }

    fn leaf(key: &[u8; 32], _item: &Utxo) -> NodeHash {
        *key
    }
}

type State = EpochState<NoteLeaf>;

const ZERO: Fr = [0; 32];
const ONE: Fr = [1; 32];
const CORE: CoreNetwork = CoreNetwork { zk_root: [77; 32], core_quota: 648_000 };

fn params(rounds_per_epoch: u64, minimum_network_size: u64) -> RewardsParameters {
    RewardsParameters {
        rounds_per_epoch,
        num_blend_layers: 3,
        data_replication_factor: 0,
        minimum_network_size,
        activity_threshold_sensitivity: 1,
    }
}

fn provider(byte: u8) -> ProviderId {
    [byte; 32]
}

fn zk_id(provider: ProviderId) -> [u8; 32] {
    [provider[0] + 100; 32]
}

fn declaration(provider_id: ProviderId) -> Declaration {
    Declaration {
        service_type: ServiceType::BlendNetwork,
        provider_id,
        locked_note_id: provider_id,
        zk_id: zk_id(provider_id),
        created: 0,
        active: 0,
        withdraw_at: None,
        nonce: 0,
    }
}

fn epoch_state(providers: &[ProviderId], epoch: Epoch, nonce: Fr) -> State {
    let mut declarations = TreeMap::empty();
    for provider in providers {
        declarations = declarations.with(*provider, declaration(*provider));
    }
    EpochState {
        epoch,
        nonce,
        utxos: MerkleTree::new(),
        total_stake: 0,
        lottery_0: ZERO,
        lottery_1: ZERO,
        active_declarations: Declarations { blend_network: Some(declarations) },
    }
}

fn same_snapshot(epoch: Epoch, state: &State) -> State {
    EpochState { epoch, nonce: [epoch as u8; 32], ..state.clone() }
}

fn target(rewards: &Rewards) -> &TargetEpochState {
    match rewards {
        Rewards::WithTargetEpoch { target_epoch_state, .. } => target_epoch_state,
        Rewards::WithoutTargetEpoch { .. } => panic!("there should be a target epoch"),
    }
}

fn has_target(rewards: &Rewards) -> bool {
    matches!(rewards, Rewards::WithTargetEpoch { .. })
}

fn paid(rewards: &TrieMap<Value>, provider: ProviderId) -> Option<Value> {
    rewards.lookup(&zk_id(provider)).copied()
}

#[test]
fn test_blend_no_reward_calculated_after_epoch0() {
    let params = params(864_000, 1);
    let epoch0 = epoch_state(&[provider(1), provider(2)], 0, ZERO);

    let tracker = Rewards::new(&params, &epoch0);
    assert!(!has_target(&tracker));

    let epoch1 = same_snapshot(1, &epoch0);
    let (tracker, rewards) = tracker.update_epoch(&epoch0, &epoch1, &params, CORE);
    assert!(has_target(&tracker));
    assert_eq!(rewards.count(), 0);
}

#[test]
fn test_rewards_with_no_activity_proofs() {
    let params = params(864_000, 1);
    let epoch0 = epoch_state(&[provider(1), provider(2)], 0, ZERO);
    let epoch1 = same_snapshot(1, &epoch0);
    let (tracker, _) =
        Rewards::new(&params, &epoch0).update_epoch(&epoch0, &epoch1, &params, CORE);

    let epoch2 = same_snapshot(2, &epoch1);
    let (_, rewards) = tracker.update_epoch(&epoch1, &epoch2, &params, CORE);
    assert_eq!(rewards.count(), 0);
}

#[test]
fn test_rewards_calculation() {
    let providers = [provider(1), provider(2), provider(3), provider(4)];
    let params = params(864_000, 1);
    let epoch0 = epoch_state(&providers, 0, ZERO);
    let epoch1 = same_snapshot(1, &epoch0);
    let (tracker, _) = Rewards::new(&params, &epoch0)
        .add_income(1000)
        .update_epoch(&epoch0, &epoch1, &params, CORE);

    let tracker = tracker.update_active(providers[0], 0, ProofOutcome::Distance(9)).ok().unwrap();
    let tracker = tracker.update_active(providers[1], 0, ProofOutcome::Distance(4)).ok().unwrap();
    let tracker = tracker.update_active(providers[2], 0, ProofOutcome::Distance(9)).ok().unwrap();

    let epoch2 = same_snapshot(2, &epoch1);
    let (_, rewards) = tracker.update_epoch(&epoch1, &epoch2, &params, CORE);

    assert_eq!(rewards.count(), 3);
    let first = paid(&rewards, providers[0]).unwrap();
    assert_eq!(first, 250);
    assert_eq!(paid(&rewards, providers[1]), Some(first * 2));
    assert_eq!(paid(&rewards, providers[2]), Some(first));
    assert_eq!(paid(&rewards, providers[3]), None);
}

#[test]
fn test_blend_duplicate_active_messages() {
    let params = params(864_000, 1);
    let epoch0 = epoch_state(&[provider(1)], 0, ZERO);
    let epoch1 = same_snapshot(1, &epoch0);
    let (tracker, _) =
        Rewards::new(&params, &epoch0).update_epoch(&epoch0, &epoch1, &params, CORE);

    let tracker = tracker.update_active(provider(1), 0, ProofOutcome::Distance(9)).ok().unwrap();
    let error = tracker.update_active(provider(1), 0, ProofOutcome::Distance(8)).err().unwrap();
    assert_eq!(error, Error::DuplicateActiveMessage { epoch: 0, provider_id: provider(1) });
}

#[test]
fn test_blend_invalid_epoch() {
    let params = params(864_000, 1);
    let epoch0 = epoch_state(&[provider(1)], 0, ZERO);
    let epoch1 = same_snapshot(1, &epoch0);
    let (tracker, _) =
        Rewards::new(&params, &epoch0).update_epoch(&epoch0, &epoch1, &params, CORE);

    let error = tracker.update_active(provider(1), 99, ProofOutcome::Distance(9)).err().unwrap();
    assert_eq!(error, Error::InvalidEpoch { expected: 0, got: 99 });

    let epoch2 = same_snapshot(2, &epoch1);
    let (_, rewards) = tracker.update_epoch(&epoch1, &epoch2, &params, CORE);
    assert_eq!(rewards.count(), 0);
}

#[test]
fn test_blend_active_message_from_unknown_provider() {
    let params = params(864_000, 1);
    let epoch0 = epoch_state(&[provider(1)], 0, ZERO);
    let epoch1 = same_snapshot(1, &epoch0);
    let (tracker, _) =
        Rewards::new(&params, &epoch0).update_epoch(&epoch0, &epoch1, &params, CORE);

    let error = tracker.update_active(provider(2), 0, ProofOutcome::Distance(9)).err().unwrap();
    assert!(matches!(error, Error::UnknownProvider(_)));
}

#[test]
fn test_blend_network_too_small() {
    let params = params(864_000, 2);
    let epoch0 = epoch_state(&[provider(1)], 0, ZERO);
    let epoch1 = same_snapshot(1, &epoch0);
    let (tracker, _) =
        Rewards::new(&params, &epoch0).update_epoch(&epoch0, &epoch1, &params, CORE);
    assert!(!has_target(&tracker));

    let error = tracker.update_active(provider(1), 0, ProofOutcome::Distance(9)).err().unwrap();
    assert_eq!(error, Error::TargetEpochNotSet);

    let epoch2 = same_snapshot(2, &epoch1);
    let (_, rewards) = tracker.update_epoch(&epoch1, &epoch2, &params, CORE);
    assert_eq!(rewards.count(), 0);
}

#[test]
fn test_blend_network_shrinking() {
    let params = params(864_000, 2);
    let epoch0 = epoch_state(&[provider(1), provider(2)], 0, ZERO);
    let tracker = Rewards::new(&params, &epoch0).add_income(1000);

    let epoch1 = epoch_state(&[provider(1)], 1, ONE);
    let (tracker, rewards) = tracker.update_epoch(&epoch0, &epoch1, &params, CORE);
    assert_eq!(rewards.count(), 0);
    assert!(has_target(&tracker));

    let tracker = tracker.update_active(provider(1), 0, ProofOutcome::Distance(9)).ok().unwrap();
    let tracker = tracker.add_income(500);

    let epoch2 = same_snapshot(2, &epoch1);
    let (tracker, rewards) = tracker.update_epoch(&epoch1, &epoch2, &params, CORE);
    assert!(!has_target(&tracker));
    assert_eq!(rewards.count(), 1);
    assert_eq!(paid(&rewards, provider(1)), Some(1000));
}

#[test]
fn test_blend_network_growing() {
    let params = params(864_000, 2);
    let epoch0 = epoch_state(&[provider(1)], 0, ZERO);
    let tracker = Rewards::new(&params, &epoch0);

    let epoch1 = epoch_state(&[provider(1), provider(2)], 1, ONE);
    let (tracker, rewards) = tracker.update_epoch(&epoch0, &epoch1, &params, CORE);
    assert_eq!(rewards.count(), 0);
    assert!(!has_target(&tracker));

    let tracker = tracker.add_income(1000);

    let epoch2 = same_snapshot(2, &epoch1);
    let (tracker, rewards) = tracker.update_epoch(&epoch1, &epoch2, &params, CORE);
    assert!(has_target(&tracker));
    assert_eq!(rewards.count(), 0);

    let tracker = tracker.update_active(provider(1), 1, ProofOutcome::Distance(9)).ok().unwrap();

    let epoch3 = same_snapshot(3, &epoch2);
    let (_, rewards) = tracker.update_epoch(&epoch2, &epoch3, &params, CORE);
    assert_eq!(rewards.count(), 1);
    assert_eq!(paid(&rewards, provider(1)), Some(1000));
}

#[test]
fn test_blend_multi_epoch_jump() {
    let params = params(864_000, 1);
    let epoch0 = epoch_state(&[provider(1)], 0, ZERO);
    let epoch1 = same_snapshot(1, &epoch0);
    let (tracker, _) = Rewards::new(&params, &epoch0)
        .add_income(1000)
        .update_epoch(&epoch0, &epoch1, &params, CORE);
    let tracker = tracker.update_active(provider(1), 0, ProofOutcome::Distance(9)).ok().unwrap();

    let epoch3 = same_snapshot(3, &epoch1);
    let (tracker, rewards) = tracker.update_epoch(&epoch1, &epoch3, &params, CORE);

    assert_eq!(rewards.count(), 1);
    assert_eq!(paid(&rewards, provider(1)), Some(1000));
    assert!(!has_target(&tracker));

    let error = tracker.update_active(provider(1), 1, ProofOutcome::Distance(9)).err().unwrap();
    assert_eq!(error, Error::TargetEpochNotSet);
}

#[test]
fn test_blend_proof_distance_larger_than_activity_threshold() {
    let params = params(10, 1);
    let epoch0 = epoch_state(&[provider(1)], 0, [99; 32]);
    let epoch1 = same_snapshot(1, &epoch0);
    let (tracker, _) =
        Rewards::new(&params, &epoch0).update_epoch(&epoch0, &epoch1, &params, CORE);

    let error = tracker.update_active(provider(1), 0, ProofOutcome::TooFar).err().unwrap();
    assert_eq!(error, Error::HammingDistanceTooLarge);

    let epoch2 = same_snapshot(2, &epoch1);
    let (_, rewards) = tracker.update_epoch(&epoch1, &epoch2, &params, CORE);
    assert_eq!(rewards.count(), 0);
}

#[test]
fn test_blend_invalid_proofs() {
    let params = params(1000, 1);
    let epoch0 = epoch_state(&[provider(1)], 0, ZERO);
    let epoch1 = same_snapshot(1, &epoch0);
    let (tracker, _) =
        Rewards::new(&params, &epoch0).update_epoch(&epoch0, &epoch1, &params, CORE);

    let error = tracker.update_active(provider(1), 0, ProofOutcome::Invalid).err().unwrap();
    assert_eq!(error, Error::InvalidProof);

    let epoch2 = same_snapshot(2, &epoch1);
    let (_, rewards) = tracker.update_epoch(&epoch1, &epoch2, &params, CORE);
    assert_eq!(rewards.count(), 0);
}

/// A verifier that accepts proofs unless the nonce of the epoch is zero.
fn verify_unless_zero_nonce(target: &TargetEpochState) -> ProofOutcome {
    if target.proof_inputs.leader.pol_epoch_nonce == ZERO {
        ProofOutcome::Invalid
    } else {
        ProofOutcome::Distance(9)
    }
}

#[test]
fn test_blend_proof_verifier_after_epoch_update() {
    let params = params(1000, 1);
    let epoch0 = epoch_state(&[provider(1)], 0, ZERO);
    let epoch1 = same_snapshot(1, &epoch0);
    let (tracker, _) =
        Rewards::new(&params, &epoch0).update_epoch(&epoch0, &epoch1, &params, CORE);

    let outcome = verify_unless_zero_nonce(target(&tracker));
    let error = tracker.update_active(provider(1), 0, outcome).err().unwrap();
    assert_eq!(error, Error::InvalidProof);

    let epoch2 = same_snapshot(2, &epoch1);
    let (tracker, _) = tracker.update_epoch(&epoch1, &epoch2, &params, CORE);

    let outcome = verify_unless_zero_nonce(target(&tracker));
    assert!(tracker.update_active(provider(1), 1, outcome).is_ok());
}

#[test]
fn target_epoch_holds_what_proofs_are_verified_against() {
    let params = RewardsParameters { data_replication_factor: 4, ..params(1000, 1) };
    let epoch0 = epoch_state(&[provider(2), provider(1), provider(3)], 0, [5; 32]);
    let epoch1 = same_snapshot(1, &epoch0);
    let (order, count) = core_nodes(&epoch0, &epoch1, &params).unwrap();
    assert_eq!(count, 3);
    let keys: Vec<[u8; 32]> = order.iter().map(|(_, key)| *key).collect();
    assert_eq!(keys, vec![zk_id(provider(1)), zk_id(provider(2)), zk_id(provider(3))]);

    let (tracker, _) = Rewards::new(&params, &epoch0)
        .add_income(70)
        .update_epoch(&epoch0, &epoch1, &params, CORE);
    let target = target(&tracker);
    assert_eq!(target.epoch(), 0);
    assert_eq!(target.epoch_income(), 70);
    assert_eq!(target.num_providers(), 3);
    assert_eq!(target.selection_inputs(&provider(2)), Some((1, 3)));
    assert_eq!(target.selection_inputs(&provider(9)), None);
    assert_eq!(target.proof_inputs.zk_root, CORE.zk_root);
    assert_eq!(target.proof_inputs.core_quota, CORE.core_quota);
    assert_eq!(target.proof_inputs.leader.pol_epoch_nonce, [5; 32]);
    assert_eq!(target.proof_inputs.leader.message_quota, 15);
    assert_eq!(target.token_evaluation.num_core_nodes, 3);
}

#[test]
fn keys_are_ordered_as_little_endian_numbers() {
    let mut low = [0; 32];
    low[0] = 200;
    let mut high = [0; 32];
    high[31] = 1;
    let declarations = TreeMap::empty()
        .with([1; 32], Declaration { zk_id: high, ..declaration(provider(1)) })
        .with([2; 32], Declaration { zk_id: low, ..declaration(provider(2)) });
    let mut epoch0 = epoch_state(&[], 0, ZERO);
    epoch0.active_declarations = Declarations { blend_network: Some(declarations) };
    let epoch1 = same_snapshot(1, &epoch0);
    let (order, _) = core_nodes(&epoch0, &epoch1, &params(10, 1)).unwrap();
    assert_eq!(order, vec![(provider(2), low), (provider(1), high)]);
}

#[test]
fn no_network_means_no_target_epoch() {
    let params = params(10, 1);
    let mut epoch0 = epoch_state(&[], 0, ZERO);
    epoch0.active_declarations = Declarations::empty();
    let epoch1 = same_snapshot(1, &epoch0);
    assert!(core_nodes(&epoch0, &epoch1, &params).is_none());
    let (tracker, _) =
        Rewards::new(&params, &epoch0).update_epoch(&epoch0, &epoch1, &params, CORE);
    assert!(!has_target(&tracker));
}

#[test]
fn payout_does_not_exceed_the_income() {
    let params = params(864_000, 1);
    let providers: Vec<ProviderId> = (1..=7).map(provider).collect();
    let epoch0 = epoch_state(&providers, 0, ZERO);
    let epoch1 = same_snapshot(1, &epoch0);
    for income in [0, 1, 8, 9, 1000, u64::MAX] {
        let (mut tracker, _) = Rewards::new(&params, &epoch0)
            .add_income(income)
            .update_epoch(&epoch0, &epoch1, &params, CORE);
        for (i, id) in providers.iter().enumerate() {
            let outcome = ProofOutcome::Distance(3 + (i as u64) / 2);
            tracker = tracker.update_active(*id, 0, outcome).ok().unwrap();
        }
        let epoch2 = same_snapshot(2, &epoch1);
        let (_, rewards) = tracker.update_epoch(&epoch1, &epoch2, &params, CORE);
        let total: u128 =
            providers.iter().map(|id| u128::from(paid(&rewards, *id).unwrap())).sum();
        assert!(total <= u128::from(income));
        // Nine shares: seven providers, two of which have the least distance.
        assert_eq!(paid(&rewards, providers[6]), Some(income / 9));
        assert_eq!(paid(&rewards, providers[0]), Some(income / 9 * 2));
    }
}
