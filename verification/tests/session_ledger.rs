use ledger::collections::trie_map::TrieMap;
use ledger::config::EpochConfig;
use ledger::mantle::leader;
use ledger::mantle::locked_notes;
use ledger::mantle::locked_notes::{LockedNotes, MinStake};
use ledger::merkle::blake2b::{blake2b, Blake2bMerkleHasher};
use ledger::merkle::hasher::NodeHash;
use ledger::merkle::tree::{LeafExtractor, MerkleTree};
use ledger::session::config::Config;
use ledger::session::cryptarchia;
use ledger::session::cryptarchia::LedgerTx;
use ledger::session::error::LedgerError;
use ledger::session::leader::LeaderState;
use ledger::session::leader_proof::{LeaderProof, LeaderPublic};
use ledger::session::ledger::{Block, Ledger, LedgerState, TxInput};
use ledger::session::mantle;
use ledger::session::mantle::Op;
use ledger::session::membership::{ServiceParameters, ServiceParams};
use ledger::types::{Fr, HeaderId, Note, NoteId, ServiceType, Slot, Utxo, Value};

struct NoteLeaf;

impl LeafExtractor<Utxo> for NoteLeaf {
    type Hasher = Blake2bMerkleHasher;

    fn leaf_of(key: [u8; 32], _item: Utxo) -> NodeHash {
        key
    }

    fn leaf(key: &[u8; 32], _item: &Utxo) -> NodeHash {
        *key
    }
}

type State = cryptarchia::LedgerState<NoteLeaf>;

const ZERO: Fr = [0; 32];

struct DummyProof {
    public: LeaderPublic,
}

impl LeaderProof for DummyProof {
    fn accepts(&self, public_inputs: LeaderPublic) -> bool {
        self.public == public_inputs
    }

    fn contribution(&self) -> Fr {
        ZERO
    }

    fn verify(&self, public_inputs: &LeaderPublic) -> bool {
        self.public == *public_inputs
    }

    fn entropy(&self) -> Fr {
        ZERO
    }
}

fn utxo_of(byte: u8, value: Value) -> Utxo {
    Utxo {
        id: blake2b(&[byte]),
        op_id: [byte; 32],
        output_index: 0,
        note: Note { value, pk: [7; 32] },
    }
}

fn utxo(byte: u8) -> Utxo {
    utxo_of(byte, 10_000)
}

fn config() -> Config {
    let params = ServiceParameters {
        lock_period: 10,
        inactivity_period: 20,
        retention_period: 100,
        timestamp: 0,
        session_duration: 10,
    };
    Config {
        epoch_config: EpochConfig {
            base_period_length: 1,
            epoch_stake_distribution_stabilization: 4,
            epoch_period_nonce_buffer: 3,
            epoch_period_nonce_stabilization: 3,
        },
        service_params: ServiceParams {
            blend_network: Some(params),
            data_availability: Some(params),
        },
        min_stake: MinStake { threshold: 1, timestamp: 0 },
    }
}

fn ledger(utxos: &[Utxo]) -> (Ledger<NoteLeaf>, HeaderId) {
    (Ledger::new([0; 32], LedgerState::from_utxos(&utxos.to_vec()), config()), [0; 32])
}

fn generate_proof(state: &State, utxo: &Utxo, slot: Slot) -> DummyProof {
    let latest = state.latest_commitments();
    let aged = state.aged_commitments();
    DummyProof {
        public: LeaderPublic {
            aged_root: if aged.contains(&utxo.id) { aged.root() } else { ZERO },
            latest_root: if latest.contains(&utxo.id) { latest.root() } else { ZERO },
            epoch_nonce: state.epoch_state().nonce,
            slot,
            total_stake: state.epoch_state().total_stake,
        },
    }
}

fn next_nonce(state: &State, slot: Slot) -> Fr {
    blake2b(&state.nonce_inputs(&ZERO, slot).concat())
}

fn block(state: &State, slot: Slot, txs: Vec<TxInput>) -> Block {
    Block {
        slot,
        voucher: ZERO,
        txs,
        nonce: next_nonce(state, slot),
        outcomes: TrieMap::empty(),
    }
}

fn update_ledger(
    ledger: &mut Ledger<NoteLeaf>,
    parent: HeaderId,
    slot: Slot,
    utxo: Utxo,
) -> Result<HeaderId, LedgerError> {
    let before = ledger.state(&parent).unwrap().cryptarchia_ledger.clone();
    let moved = before.clone().update_epoch_state(slot, &config().epoch_config)?;
    let id = blake2b(&[parent, blake2b(&slot.to_be_bytes()), utxo.id].concat());
    let proof = generate_proof(&moved, &utxo, slot);
    *ledger = ledger.try_update(id, parent, &proof, block(&before, slot, Vec::new()))?;
    Ok(id)
}

fn apply_and_add_utxo(
    ledger: &mut Ledger<NoteLeaf>,
    parent: HeaderId,
    slot: Slot,
    utxo_proof: Utxo,
    utxo_add: Utxo,
) -> HeaderId {
    let id = update_ledger(ledger, parent, slot, utxo_proof).ok().unwrap();
    let mut state = ledger.state(&id).unwrap().clone();
    state.cryptarchia_ledger.utxos =
        state.cryptarchia_ledger.utxos.insert(utxo_add.id, utxo_add).0;
    *ledger = Ledger { states: ledger.states.clone().with(id, state), config: config() };
    id
}

fn at<'l>(ledger: &'l Ledger<NoteLeaf>, id: &HeaderId) -> &'l State {
    &ledger.state(id).unwrap().cryptarchia_ledger
}

#[test]
fn mod_test_ledger_state_allow_leadership_utxo_reuse() {
    let utxo = utxo(1);
    let (mut ledger, genesis) = ledger(&[utxo]);
    let h = update_ledger(&mut ledger, genesis, 1, utxo).ok().unwrap();
    assert!(update_ledger(&mut ledger, h, 2, utxo).is_ok());
}

#[test]
fn mod_test_ledger_state_uncommited_utxo() {
    let (mut ledger, genesis) = ledger(&[utxo(2)]);
    assert!(matches!(
        update_ledger(&mut ledger, genesis, 1, utxo(1)),
        Err(LedgerError::InvalidProof)
    ));
}

#[test]
fn mod_test_epoch_transition() {
    let utxos = [utxo(1), utxo(2), utxo(3), utxo(4)];
    let (mut ledger, genesis) = ledger(&utxos);

    let h_1 = update_ledger(&mut ledger, genesis, 1, utxos[0]).ok().unwrap();
    assert_eq!(at(&ledger, &h_1).epoch_state().epoch, 0);
    let h_2 = update_ledger(&mut ledger, h_1, 6, utxos[1]).ok().unwrap();
    let h_3 = apply_and_add_utxo(&mut ledger, h_2, 9, utxos[2], utxo(5));

    let h_4 = update_ledger(&mut ledger, h_3, 20, utxos[3]).ok().unwrap();
    assert_eq!(at(&ledger, &h_4).epoch_state().nonce, at(&ledger, &h_3).nonce);
    assert_eq!(
        at(&ledger, &h_4).aged_commitments().root(),
        at(&ledger, &h_3).latest_commitments().root()
    );

    update_ledger(&mut ledger, h_3, 10, utxos[3]).ok().unwrap();
    let h_5 = apply_and_add_utxo(&mut ledger, h_3, 10, utxos[3], utxo(6));
    assert_eq!(at(&ledger, &h_5).epoch_state().nonce, at(&ledger, &h_2).nonce);

    let h_6 = update_ledger(&mut ledger, h_5, 20, utxos[3]).ok().unwrap();
    assert_eq!(
        at(&ledger, &h_6).aged_commitments().root(),
        at(&ledger, &h_3).latest_commitments().root()
    );
}

#[test]
fn mod_test_new_utxos_becoming_eligible_after_stake_distribution_stabilizes() {
    let utxo_1 = utxo(1);
    let utxo = utxo(2);
    let (mut ledger, genesis) = ledger(&[utxo]);
    let h_0_1 = apply_and_add_utxo(&mut ledger, genesis, 1, utxo, utxo_1);
    assert!(matches!(
        update_ledger(&mut ledger, h_0_1, 2, utxo_1),
        Err(LedgerError::InvalidProof)
    ));
    for i in 10..20 {
        assert!(matches!(
            update_ledger(&mut ledger, h_0_1, i, utxo_1),
            Err(LedgerError::InvalidProof)
        ));
    }
    assert!(update_ledger(&mut ledger, h_0_1, 20, utxo_1).is_ok());
}

#[test]
fn mod_test_update_epoch_state_with_outdated_slot_error() {
    let config = config().epoch_config;
    let state = State::from_utxos(&vec![utxo(1)]);
    let state = state.update_epoch_state(10, &config).ok().unwrap();
    let error = state.update_epoch_state(1, &config).err();
    assert_eq!(error, Some(LedgerError::InvalidSlot { parent: 10, block: 1 }));
}

#[test]
fn mod_test_invalid_aged_root_rejected() {
    let utxo = utxo(1);
    let state = State::from_utxos(&vec![utxo]);
    let mut proof = generate_proof(&state, &utxo, 1);
    proof.public.aged_root = ZERO;
    let error = state.try_apply_header(1, &proof, &config().epoch_config, [1; 32]).err();
    assert_eq!(error, Some(LedgerError::InvalidProof));
}

#[test]
fn mod_test_invalid_latest_root_rejected() {
    let utxo = utxo(1);
    let state = State::from_utxos(&vec![utxo]);
    let mut proof = generate_proof(&state, &utxo, 1);
    proof.public.latest_root = [1; 32];
    let error = state.try_apply_header(1, &proof, &config().epoch_config, [1; 32]).err();
    assert_eq!(error, Some(LedgerError::InvalidProof));
}

fn tx(inputs: &[Utxo], outputs: &[Utxo]) -> LedgerTx {
    LedgerTx { inputs: inputs.iter().map(|utxo| utxo.id).collect(), outputs: outputs.to_vec() }
}

fn apply_tx(state: &State, tx: &LedgerTx) -> Result<(State, i128), LedgerError> {
    state.clone().try_apply_tx(&LockedNotes::new(), tx, true)
}

#[test]
fn mod_test_tx_processing_valid_transaction() {
    let input = utxo_of(1, 11_000);
    let outputs = [utxo_of(2, 4_000), utxo_of(3, 3_000)];
    let state = State::from_utxos(&vec![input]);
    let (state, balance) = apply_tx(&state, &tx(&[input], &outputs)).ok().unwrap();
    assert_eq!(balance, 4_000);
    assert!(!state.latest_commitments().contains(&input.id));
    assert!(state.latest_commitments().contains(&outputs[0].id));
    assert!(state.latest_commitments().contains(&outputs[1].id));

    let (state, balance) = apply_tx(&state, &tx(&outputs, &[])).ok().unwrap();
    assert_eq!(balance, 7_000);
    assert!(!state.latest_commitments().contains(&outputs[0].id));
    assert!(!state.latest_commitments().contains(&outputs[1].id));
}

#[test]
fn mod_test_tx_processing_invalid_input() {
    let state = State::from_utxos(&vec![utxo_of(1, 1_000)]);
    for missing in [utxo_of(2, 1_000), utxo_of(3, 1_000), utxo_of(4, 999)] {
        let error = apply_tx(&state, &tx(&[missing], &[])).err();
        assert_eq!(error, Some(LedgerError::InvalidNote(missing.id)));
    }
}

#[test]
fn mod_test_tx_processing_insufficient_balance() {
    let input = utxo_of(1, 1);
    let outputs = [utxo_of(2, 1), utxo_of(3, 1)];
    let state = State::from_utxos(&vec![input]);
    assert_eq!(apply_tx(&state, &tx(&[input], &outputs)).ok().unwrap().1, -1);
    assert_eq!(apply_tx(&state, &tx(&[input], &outputs[..1])).ok().unwrap().1, 0);
}

#[test]
fn mod_test_tx_processing_no_outputs() {
    let input = utxo_of(1, 10_000);
    let state = State::from_utxos(&vec![input]);
    let (state, balance) = apply_tx(&state, &tx(&[input], &[])).ok().unwrap();
    assert_eq!(balance, 10_000);
    assert!(!state.latest_commitments().contains(&input.id));
}

#[test]
fn test_output_not_zero() {
    let input = utxo_of(1, 10_000);
    let state = State::from_utxos(&vec![input]);
    let error = apply_tx(&state, &tx(&[input], &[utxo_of(2, 0)])).err();
    assert_eq!(error, Some(LedgerError::ZeroValueNote));
}

#[test]
fn notes_are_spent_once() {
    let input = utxo_of(1, 10_000);
    let state = State::from_utxos(&vec![input]);
    let error = apply_tx(&state, &tx(&[input, input], &[])).err();
    assert_eq!(error, Some(LedgerError::InvalidNote(input.id)));
}

#[test]
fn locked_notes_are_not_spent() {
    let input = utxo_of(1, 10_000);
    let state = State::from_utxos(&vec![input]);
    let locked = LockedNotes::new()
        .lock(
            state.latest_commitments(),
            &config().min_stake,
            ServiceType::BlendNetwork,
            &input.id,
        )
        .ok()
        .unwrap();
    let error = state.try_apply_tx(&locked, &tx(&[input], &[]), true).err();
    assert_eq!(error, Some(LedgerError::LockedNote(input.id)));
}

#[test]
fn unsigned_transactions_are_rejected() {
    let input = utxo_of(1, 10_000);
    let state = State::from_utxos(&vec![input]);
    let (_, balance, keys) = state.spend(&LockedNotes::new(), &vec![input.id]).ok().unwrap();
    assert_eq!(balance, 10_000);
    assert_eq!(keys, vec![input.note.pk]);
    let error = state.try_apply_tx(&LockedNotes::new(), &tx(&[input], &[]), false).err();
    assert_eq!(error, Some(LedgerError::InvalidProof));
}

#[test]
fn session_genesis_takes_no_inputs() {
    let outputs = [utxo(1)];
    let error = State::from_genesis_tx(&tx(&[utxo(2)], &outputs), [3; 32]).err();
    assert_eq!(error, Some(LedgerError::InputInGenesis(utxo(2).id)));
    let state = State::from_genesis_tx(&tx(&[], &outputs), [3; 32]).ok().unwrap();
    assert_eq!(state.nonce, [3; 32]);
    assert_eq!(state.epoch_state().total_stake, 10_000);
    assert_eq!(state.next_epoch_state().epoch, 1);
}

#[test]
fn lib_test_ledger_creation() {
    let utxo = utxo(1);
    let (ledger, genesis) = ledger(&[utxo]);
    let state = ledger.state(&genesis).unwrap();
    assert!(state.latest_commitments().contains(&utxo.id));
    assert_eq!(state.slot(), 0);
}

fn tx_input(inputs: &[Utxo], outputs: &[Utxo], gas_cost: u64) -> TxInput {
    TxInput {
        tx_hash: [9; 32],
        ledger_tx: tx(inputs, outputs),
        proof_valid: true,
        ops: Vec::new(),
        gas_cost,
    }
}

#[test]
fn lib_test_ledger_try_update_with_transaction() {
    let utxo = utxo(1);
    let (ledger, genesis) = ledger(&[utxo]);
    let fees = 780;
    let output = utxo_of(2, utxo.note.value - fees);
    let before = at(&ledger, &genesis).clone();
    let proof = generate_proof(&before, &utxo, 1);
    let new_id = [1; 32];
    let block = block(&before, 1, vec![tx_input(&[utxo], &[output], fees)]);
    let new_ledger = ledger.try_update(new_id, genesis, &proof, block).ok().unwrap();

    let new_state = new_ledger.state(&new_id).unwrap();
    assert!(!new_state.latest_commitments().contains(&utxo.id));
    assert!(new_state.latest_commitments().contains(&output.id));
    assert_eq!(new_state.block_number, 1);
}

#[test]
fn transactions_pay_their_gas_exactly() {
    let utxo = utxo(1);
    let (ledger, genesis) = ledger(&[utxo]);
    let before = at(&ledger, &genesis).clone();
    let proof = generate_proof(&before, &utxo, 1);
    for (output, error) in [
        (utxo_of(2, 9_300), LedgerError::InsufficientBalance),
        (utxo_of(2, 9_100), LedgerError::UnbalancedTransaction),
    ] {
        let block = block(&before, 1, vec![tx_input(&[utxo], &[output], 780)]);
        assert_eq!(ledger.try_update([1; 32], genesis, &proof, block).err(), Some(error));
    }
}

#[test]
fn transactions_after_a_failure_are_not_reached() {
    let utxo = utxo(1);
    let state = LedgerState::<NoteLeaf>::from_utxos(&vec![utxo]);
    let rewards_root = state.mantle_ledger.leaders.claimable_vouchers_root;
    let claim = |nullifier: u8| {
        (Op::LeaderClaim { voucher_nullifier: [nullifier; 32], rewards_root }, None)
    };
    let unpaid = tx_input(&[utxo], &[utxo_of(2, 9_300)], 780);
    let mut claims = tx_input(&[], &[], 0);
    claims.ops = vec![claim(1), claim(2), claim(3)];
    let error = state
        .clone()
        .try_apply_contents(&config(), vec![unpaid, claims], &TrieMap::empty())
        .err();
    assert_eq!(error, Some(LedgerError::InsufficientBalance));

    // One claim more than there are vouchers is worth nothing.
    let mut once = tx_input(&[], &[], 0);
    once.ops = vec![claim(1)];
    let state = state.try_apply_contents(&config(), vec![once], &TrieMap::empty()).ok().unwrap();
    assert_eq!(state.mantle_ledger.leaders.claimable_rewards, 0);
    let mut again = tx_input(&[], &[], 0);
    again.ops = vec![claim(1)];
    let mut other = tx_input(&[], &[], 0);
    other.ops = vec![claim(2)];
    let error =
        state.try_apply_contents(&config(), vec![again, other], &TrieMap::empty()).err();
    assert_eq!(
        error,
        Some(LedgerError::Mantle(mantle::Error::Leader(leader::Error::DuplicatedVoucherNullifier)))
    );
}

#[test]
fn orphans_are_rejected_and_states_are_pruned() {
    let utxo = utxo(1);
    let (mut ledger, genesis) = ledger(&[utxo]);
    let before = at(&ledger, &genesis).clone();
    let proof = generate_proof(&before, &utxo, 1);
    let error = ledger.try_update([1; 32], [5; 32], &proof, block(&before, 1, Vec::new())).err();
    assert_eq!(error, Some(LedgerError::ParentNotFound([5; 32])));
    assert!(ledger.prune_state_at(&genesis));
    assert!(!ledger.prune_state_at(&genesis));
    assert!(ledger.state(&genesis).is_none());
}

type Leaders = LeaderState<Blake2bMerkleHasher>;

#[test]
fn test_reward_amounts() {
    let mut state = Leaders::new();
    for voucher in 0..3 {
        state = state.try_apply_header(1, [voucher; 32]).ok().unwrap();
    }
    let mut state = state.try_apply_header(2, [3; 32]).ok().unwrap();
    state.claimable_rewards = 300;
    for (nullifier, left) in [(0, 200), (1, 100), (2, 0)] {
        let (next, balance) =
            state.claim([nullifier; 32], state.claimable_vouchers_root).ok().unwrap();
        assert_eq!(balance, 100);
        assert_eq!(next.claimable_rewards, left);
        state = next;
    }
}

#[test]
fn leader_test_epoch_transition() {
    let blocks = [(1, 0), (2, 1), (2, 1), (3, 3)];

    let mut state = Leaders::new();
    for (i, (epoch, claimable)) in blocks.iter().enumerate() {
        state = state.try_apply_header(*epoch, [i as u8; 32]).ok().unwrap();
        assert_eq!(state.epoch, *epoch);
        assert_eq!(state.n_claimable_vouchers, *claimable);
    }
    assert_eq!(
        state.clone().try_apply_header(2, [4; 32]).err(),
        Some(leader::Error::InvalidEpoch { current: 3, incoming: 2 })
    );
    let state = state.try_apply_header(4, [5; 32]).ok().unwrap();
    assert_eq!(state.epoch, 4);
    assert_eq!(state.n_claimable_vouchers, 4);

    let mut state = leader::LeaderState::<Blake2bMerkleHasher>::new();
    for (i, (epoch, count)) in blocks.iter().enumerate() {
        state = state.try_apply_header(*epoch, [i as u8; 32]).ok().unwrap();
        assert_eq!(state.epoch(), *epoch);
        assert_eq!(state.vouchers_snapshot.count, *count);
    }
    assert_eq!(
        state.clone().try_apply_header(2, [4; 32]).err(),
        Some(leader::Error::InvalidEpoch { current: 3, incoming: 2 })
    );
    let state = state.try_apply_header(4, [5; 32]).ok().unwrap();
    assert_eq!(state.epoch(), 4);
    assert_eq!(state.vouchers_snapshot.count, 4);
}

#[test]
fn test_cannot_claim_reward_twice() {
    let state = Leaders::new();
    let root = state.claimable_vouchers_root;
    let (state, balance) = state.claim(ZERO, root).ok().unwrap();
    assert_eq!(balance, 0);
    assert_eq!(
        state.claim(ZERO, root).err(),
        Some(leader::Error::DuplicatedVoucherNullifier)
    );
    assert_eq!(state.claim([1; 32], [9; 32]).err(), Some(leader::Error::VoucherNotFound));
}

#[test]
fn pending_rewards_can_be_claimed_in_the_next_epoch() {
    let state = leader::LeaderState::<Blake2bMerkleHasher>::new();
    let state = state.try_apply_header(1, [1; 32]).ok().unwrap().add_pending_rewards(70);
    assert_eq!(state.claimable_rewards(), 0);
    let state = state.try_apply_header(2, [2; 32]).ok().unwrap();
    assert_eq!(state.claimable_rewards(), 70);
    assert_eq!(state.pending_rewards, 0);
    assert_eq!(state.reward_amount(), 70);
    assert_eq!(
        *state.vouchers_snapshot_root(),
        leader::LeaderState::<Blake2bMerkleHasher>::new()
            .try_apply_header(1, [1; 32])
            .ok()
            .unwrap()
            .vouchers()
            .frontier_root()
    );
}

fn lock_setup() -> (MerkleTree<Utxo, NoteLeaf>, NoteId, MinStake) {
    let utxo = utxo(1);
    let state = State::from_utxos(&vec![utxo]);
    (state.latest_commitments().clone(), utxo.id, MinStake { threshold: 1, timestamp: 0 })
}

#[test]
fn test_lock_success() {
    let (tree, id, stake) = lock_setup();
    let locked = LockedNotes::new()
        .lock(&tree, &stake, ServiceType::BlendNetwork, &id)
        .ok()
        .unwrap();
    assert!(locked.contains(&id));
    let services = locked.services(&id).unwrap();
    assert!(services.contains(ServiceType::BlendNetwork));
    assert!(!services.contains(ServiceType::DataAvailability));

    let both = locked.lock(&tree, &stake, ServiceType::DataAvailability, &id).ok().unwrap();
    assert!(both.contains(&id));
    let services = both.services(&id).unwrap();
    assert!(services.contains(ServiceType::BlendNetwork));
    assert!(services.contains(ServiceType::DataAvailability));
}

#[test]
fn test_lock_fail_already_used() {
    let (tree, id, stake) = lock_setup();
    let locked = LockedNotes::new()
        .lock(&tree, &stake, ServiceType::DataAvailability, &id)
        .ok()
        .unwrap();
    assert_eq!(
        locked.lock(&tree, &stake, ServiceType::DataAvailability, &id).err(),
        Some(locked_notes::Error::NoteAlreadyUsedForService {
            note_id: id,
            service_type: ServiceType::DataAvailability
        })
    );
}

#[test]
fn lock_fail_insufficient() {
    let (tree, id, _) = lock_setup();
    let stake = MinStake { threshold: 999_999, timestamp: 0 };
    assert_eq!(
        LockedNotes::new().lock(&tree, &stake, ServiceType::BlendNetwork, &id).err(),
        Some(locked_notes::Error::NoteInsufficientValue { note_id: id, value: 10_000 })
    );
}

#[test]
fn test_lock_fail_does_not_exist() {
    let (tree, _, stake) = lock_setup();
    let id = utxo(2).id;
    assert_eq!(
        LockedNotes::new().lock(&tree, &stake, ServiceType::BlendNetwork, &id).err(),
        Some(locked_notes::Error::NoteDoesNotExist(id))
    );
}

#[test]
fn test_unlock_one_of_two_services() {
    let (tree, id, stake) = lock_setup();
    let both = LockedNotes::new()
        .lock(&tree, &stake, ServiceType::BlendNetwork, &id)
        .ok()
        .unwrap()
        .lock(&tree, &stake, ServiceType::DataAvailability, &id)
        .ok()
        .unwrap();
    let one = both.unlock(ServiceType::BlendNetwork, &id).ok().unwrap();
    assert!(one.contains(&id));
    assert!(!one.is_locked_for_service(&id, &ServiceType::BlendNetwork));
    assert!(one.is_locked_for_service(&id, &ServiceType::DataAvailability));
}

#[test]
fn test_unlock_last_service_removes_note() {
    let (tree, id, stake) = lock_setup();
    let locked = LockedNotes::new()
        .lock(&tree, &stake, ServiceType::BlendNetwork, &id)
        .ok()
        .unwrap();
    let unlocked = locked.unlock(ServiceType::BlendNetwork, &id).ok().unwrap();
    assert!(!unlocked.contains(&id));
    assert_eq!(unlocked.services(&id), None);
}

#[test]
fn test_unlock_note_not_locked() {
    let id = utxo(1).id;
    assert_eq!(
        LockedNotes::new().unlock(ServiceType::BlendNetwork, &id).err(),
        Some(locked_notes::Error::NoteNotLocked(id))
    );
}

#[test]
fn test_unlock_fail_if_not_locked_for_specific_service() {
    let (tree, id, stake) = lock_setup();
    let locked = LockedNotes::new()
        .lock(&tree, &stake, ServiceType::BlendNetwork, &id)
        .ok()
        .unwrap();
    assert_eq!(
        locked.unlock(ServiceType::DataAvailability, &id).err(),
        Some(locked_notes::Error::NoteNotLockedForService {
            note_id: id,
            service_type: ServiceType::DataAvailability
        })
    );
}

#[test]
fn ledgers_start_with_the_first_sessions() {
    let made = LedgerTx { inputs: Vec::new(), outputs: vec![utxo(1)] };
    let channel = [3; 32];
    let post = || Op::ChannelInscribe { channel, parent: ZERO, id: [4; 32], signer: [5; 32] };
    let state =
        LedgerState::<NoteLeaf>::from_genesis_tx(&made, ZERO, vec![post()], &config(), [8; 32])
            .ok()
            .unwrap();
    assert_eq!(state.block_number, 0);
    assert_eq!(state.slot(), 0);
    assert_eq!(state.epoch_state().nonce, [8; 32]);
    assert_eq!(state.mantle_ledger.channels.channels.lookup(&channel).unwrap().tip, [4; 32]);
    let leaders = &state.mantle_ledger.leaders;
    assert_eq!(leaders.epoch, 0);
    assert_eq!(leaders.claimable_vouchers_root, ZERO);
    assert_eq!(leaders.n_claimable_vouchers, 0);
    assert_eq!(leaders.nfs.count(), 0);
    assert_eq!(leaders.claimable_rewards, 0);
    assert_eq!(leaders.vouchers.len(), 0);
    for service in [ServiceType::BlendNetwork, ServiceType::DataAvailability] {
        let active = state.active_sessions().get(&service);
        assert_eq!((active.session_number, active.declarations.count()), (0, 0));
        let forming = state.mantle_ledger.sdp.forming_sessions.get(&service);
        assert_eq!((forming.session_number, forming.declarations.count()), (1, 0));
    }

    let mut ledger = Ledger::new([0; 32], state, config());
    let first = update_ledger(&mut ledger, [0; 32], 1, utxo(1)).ok().unwrap();
    let second = update_ledger(&mut ledger, first, 2, utxo(1)).ok().unwrap();
    assert_eq!(ledger.state(&second).unwrap().block_number, 2);
    assert_eq!(ledger.state(&second).unwrap().mantle_ledger.leaders.vouchers.len(), 2);

    let spent = LedgerTx { inputs: vec![[9; 32]], outputs: Vec::new() };
    let error = LedgerState::<NoteLeaf>::from_genesis_tx(&spent, ZERO, Vec::new(), &config(), ZERO);
    assert_eq!(error.err(), Some(LedgerError::InputInGenesis([9; 32])));
    let claim = Op::LeaderClaim { voucher_nullifier: [1; 32], rewards_root: [2; 32] };
    let error = LedgerState::<NoteLeaf>::from_genesis_tx(&made, ZERO, vec![claim], &config(), ZERO);
    assert_eq!(
        error.err(),
        Some(LedgerError::Mantle(mantle::Error::Leader(leader::Error::VoucherNotFound)))
    );
    let unknown = vec![post(), Op::Native];
    let error = LedgerState::<NoteLeaf>::from_genesis_tx(&made, ZERO, unknown, &config(), ZERO);
    assert_eq!(error.err(), Some(LedgerError::Mantle(mantle::Error::UnsupportedOp)));
}
