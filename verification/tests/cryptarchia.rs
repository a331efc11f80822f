use ledger::config::{Config, EpochConfig};
use ledger::cryptarchia;
use ledger::cryptarchia::epoch::{Declarations, EpochState};
use ledger::cryptarchia::market::{update_execution_prices, update_storage_market};
use ledger::cryptarchia::{
    genesis_stake, nonce_inputs, total_value, GasPrices, StakeOutcome, StakePlan,
    TransferExecution, WINDOW_SIZE,
};
use ledger::error::LedgerError;
use ledger::leader_proof::{LeaderProof, LeaderPublic};
use ledger::ledger::{BlockInputs, HeaderInputs, Ledger, LedgerState, EXECUTION_GAS_LIMIT};
use ledger::mantle;
use ledger::mantle::locked_notes::MinStake;
use ledger::mantle::sdp::rewards::blend::current_epoch::CoreNetwork;
use ledger::mantle::sdp::rewards::blend::target_epoch::ProofOutcome;
use ledger::mantle::sdp::rewards::blend::RewardsParameters;
use ledger::mantle::sdp::{
    ActiveExecution, RewardOrigin, SdpExecution, SdpLedger, ServiceParameters, ServiceParams, ServiceRewardsParameters,
};
use ledger::merkle::blake2b::{blake2b, Blake2bMerkleHasher};
use ledger::merkle::hasher::NodeHash;
use ledger::merkle::tree::{LeafExtractor, MerkleTree};
use ledger::types::{
    Declaration, DeclarationId, Fr, HeaderId, Note, OpFailure, ServiceType, Slot, Utxo, Value,
};

#[derive(Debug)]
struct NoteLeaf;

impl LeafExtractor<Utxo> for NoteLeaf {
    type Hasher = Blake2bMerkleHasher;

    fn leaf_of(key: [u8; 32], _item: Utxo) -> NodeHash {
        key
    }

    fn leaf(key: &[u8; 32], _item: &Utxo) -> NodeHash {
        *key
    }
}

type UtxoTree = MerkleTree<Utxo, NoteLeaf>;
type State = cryptarchia::LedgerState<NoteLeaf>;

const ZERO: Fr = [0; 32];
const CORE: CoreNetwork = CoreNetwork { zk_root: [77; 32], core_quota: 30 };
const PRICES: GasPrices = GasPrices { execution_base_gas_price: 1, storage_gas_price: 1 };

struct DummyProof {
    public: LeaderPublic,
    voucher_cm: [u8; 32],
}

impl LeaderProof for DummyProof {
    fn accepts(&self, public_inputs: LeaderPublic) -> bool {
        self.public == public_inputs
    }

    fn contribution(&self) -> Fr {
        ZERO
    }

    fn voucher(&self) -> [u8; 32] {
        self.voucher_cm
    }

    fn verify(&self, public_inputs: &LeaderPublic) -> bool {
        self.public == *public_inputs
    }

    fn entropy(&self) -> Fr {
        ZERO
    }

    fn voucher_cm(&self) -> [u8; 32] {
        self.voucher_cm
    }
}

fn utxo(byte: u8) -> Utxo {
    utxo_of(byte, 10_000)
}

fn utxo_of(byte: u8, value: Value) -> Utxo {
    Utxo {
        id: blake2b(&[byte]),
        op_id: [byte; 32],
        output_index: 0,
        note: Note { value, pk: [7; 32] },
    }
}

fn config() -> Config {
    Config {
        epoch_config: EpochConfig {
            base_period_length: 10,
            epoch_stake_distribution_stabilization: 3,
            epoch_period_nonce_buffer: 3,
            epoch_period_nonce_stabilization: 4,
        },
        sdp_config: mantle::sdp::Config {
            service_params: ServiceParams {
                blend_network: Some(ServiceParameters { inactivity_period: 2, epoch: 0 }),
            },
            service_rewards_params: ServiceRewardsParameters {
                blend: RewardsParameters {
                    rounds_per_epoch: 100,
                    num_blend_layers: 3,
                    data_replication_factor: 0,
                    minimum_network_size: 1,
                    activity_threshold_sensitivity: 1,
                },
            },
            min_stake: MinStake { threshold: 1, timestamp: 0 },
        },
        faucet_pk: None,
    }
}

fn lottery(total_stake: Value) -> (Fr, Fr) {
    let bytes = total_stake.to_le_bytes();
    (blake2b(&bytes), blake2b(&[bytes, bytes].concat()))
}

/// Infers the stake: six blocks are expected in the sixty slots that count.
fn infer(total_stake: Value, block_density: u64) -> Value {
    (total_stake * block_density / 6).max(1)
}

fn infer_all(plan: Option<StakePlan>) -> StakeOutcome {
    let total_stake = match plan {
        Some(plan) => {
            let mut stake = infer(plan.total_stake, plan.block_density);
            let mut left = plan.after(stake);
            while let Some(plan) = left {
                stake = infer(plan.total_stake, plan.block_density);
                left = plan.after(stake);
            }
            stake
        }
        None => 0,
    };
    let (lottery_0, lottery_1) = lottery(total_stake);
    StakeOutcome { total_stake, lottery_0, lottery_1 }
}

fn stake_for(state: &State, slot: Slot) -> StakeOutcome {
    if slot > state.slot() {
        infer_all(state.stake_plan(slot, &config()))
    } else {
        infer_all(None)
    }
}

fn next_nonce(nonce: &Fr, slot: Slot) -> Fr {
    blake2b(&nonce_inputs(nonce, &ZERO, slot).concat())
}

fn genesis_state(utxos: &[Utxo]) -> State {
    let outputs = utxos.to_vec();
    let stake = genesis_stake(&outputs, None);
    State::from_utxos(&outputs, &config(), ZERO, lottery(stake), PRICES)
}

fn ledger(utxos: &[Utxo]) -> (Ledger<NoteLeaf>, HeaderId) {
    let config = config();
    let cryptarchia_ledger = genesis_state(utxos);
    let mantle_ledger = mantle::LedgerState::new(&config, cryptarchia_ledger.epoch_state());
    let state = LedgerState { block_number: 0, cryptarchia_ledger, mantle_ledger };
    (Ledger::new([0; 32], state, config), [0; 32])
}

fn generate_proof(state: &State, utxo: &Utxo, slot: Slot) -> DummyProof {
    let latest = state.latest_utxos();
    let aged = state.aged_utxos();
    DummyProof {
        public: LeaderPublic {
            aged_root: if aged.contains(&utxo.id) { aged.root() } else { ZERO },
            latest_root: if latest.contains(&utxo.id) { latest.root() } else { ZERO },
            epoch_nonce: state.epoch_state().nonce,
            slot,
            lottery_0: state.epoch_state().lottery_0,
            lottery_1: state.epoch_state().lottery_1,
        },
        voucher_cm: ZERO,
    }
}

fn update_ledger(
    ledger: &mut Ledger<NoteLeaf>,
    parent: HeaderId,
    slot: Slot,
    utxo: Utxo,
) -> Result<HeaderId, LedgerError> {
    let state = ledger.state(&parent).unwrap().cryptarchia_ledger.clone();
    let nonce = next_nonce(&state.nonce, slot);
    let stake = stake_for(&state, slot);
    let state = state.update_epoch_state(slot, &SdpLedger::new(0), ledger.config(), stake)?;
    let proof = generate_proof(&state, &utxo, slot);
    let id = blake2b(&[parent, blake2b(&slot.to_le_bytes()), utxo.id].concat());
    let header = HeaderInputs { stake, nonce, core: CORE };
    let (_, effect) = ledger.state(&parent).unwrap().clone().try_apply_header(
        slot,
        &proof,
        ledger.config(),
        header,
    )?;
    let reward_origins = effect
        .reward_notes()
        .iter()
        .enumerate()
        .map(|(i, note)| RewardOrigin {
            pk: note.pk,
            id: blake2b(&[id, note.pk].concat()),
            op_id: id,
            output_index: i as u64,
        })
        .collect();
    let inputs = BlockInputs {
        header,
        reward_origins,
        txs: Vec::new(),
    };
    let (_, state, _) = ledger.prepare_update(id, parent, slot, &proof, inputs)?;
    ledger.commit_update(id, state);
    Ok(id)
}

fn apply_and_add_utxo(
    ledger: &mut Ledger<NoteLeaf>,
    parent: HeaderId,
    slot: Slot,
    utxo_proof: Utxo,
    utxo_add: Utxo,
) -> HeaderId {
    let id = update_ledger(ledger, parent, slot, utxo_proof).ok().unwrap();
    let mut state = ledger.state(&id).unwrap().clone();
    state.cryptarchia_ledger.utxos =
        state.cryptarchia_ledger.utxos.insert(utxo_add.id, utxo_add).0;
    ledger.commit_update(id, state);
    id
}

fn apply_and_add_utxo_and_declaration(
    ledger: &mut Ledger<NoteLeaf>,
    parent: HeaderId,
    slot: Slot,
    utxo_proof: Utxo,
    utxo_add: Utxo,
    sdp_utxo: Utxo,
) -> (HeaderId, DeclarationId) {
    let id = apply_and_add_utxo(ledger, parent, slot, utxo_proof, utxo_add);
    let mut state = ledger.state(&id).unwrap().clone();
    let sdp = &state.mantle_ledger.sdp;
    let epoch = sdp.epoch;
    let declaration_id = blake2b(&sdp_utxo.id);
    let execution = SdpExecution {
        locked_notes: sdp
            .locked_notes()
            .clone()
            .lock(
                state.cryptarchia_ledger.latest_utxos(),
                &config().sdp_config.min_stake,
                ServiceType::BlendNetwork,
                &sdp_utxo.id,
            )
            .ok()
            .unwrap(),
        declarations: sdp
            .get_declarations_by_service(ServiceType::BlendNetwork)
            .unwrap()
            .clone()
            .with(
                declaration_id,
                Declaration {
                    service_type: ServiceType::BlendNetwork,
                    provider_id: sdp_utxo.id,
                    locked_note_id: sdp_utxo.id,
                    zk_id: sdp_utxo.id,
                    created: epoch,
                    active: epoch + 2,
                    withdraw_at: None,
                    nonce: 0,
                },
            ),
        events: Vec::new(),
    };
    state.mantle_ledger = state
        .mantle_ledger
        .try_apply_sdp_declaration(ServiceType::BlendNetwork, Ok(execution))
        .ok()
        .unwrap()
        .0;
    ledger.commit_update(id, state);
    (id, declaration_id)
}

fn at<'l>(ledger: &'l Ledger<NoteLeaf>, id: &HeaderId) -> &'l State {
    &ledger.state(id).unwrap().cryptarchia_ledger
}

fn declaration_in_snapshot(
    ledger: &Ledger<NoteLeaf>,
    id: &HeaderId,
    declaration_id: &DeclarationId,
) -> bool {
    in_declarations(&at(ledger, id).epoch_state().active_declarations, declaration_id)
}

fn in_declarations(declarations: &Declarations, declaration_id: &DeclarationId) -> bool {
    declarations
        .for_service(&ServiceType::BlendNetwork)
        .is_some_and(|entries| entries.lookup(declaration_id).is_some())
}

fn assert_sdp_snapshot(
    ledger: &Ledger<NoteLeaf>,
    id: &HeaderId,
    snapshot: &HeaderId,
    declarations: &[DeclarationId],
) {
    let epoch = at(ledger, id).epoch_state().epoch;
    let expected = ledger
        .state(snapshot)
        .unwrap()
        .mantle_ledger
        .sdp
        .active_declarations(epoch, &config().sdp_config.service_params);
    for declaration in declarations {
        assert_eq!(
            declaration_in_snapshot(ledger, id, declaration),
            in_declarations(&expected, declaration)
        );
    }
}

fn is_declared(ledger: &Ledger<NoteLeaf>, id: &HeaderId, declaration: &DeclarationId) -> bool {
    ledger.state(id).unwrap().mantle_ledger.sdp.get_declaration(declaration).is_some()
}

#[test]
fn storage_price_held_when_effective_target_is_zero() {
    assert_eq!(update_storage_market(1000, 0, 0), (1000, 0));
    assert_eq!(update_storage_market(1000, 0, 800).0, 875);
}

#[test]
fn test_ledger_state_allow_leadership_utxo_reuse() {
    let utxo = utxo(1);
    let (mut ledger, genesis) = ledger(&[utxo]);

    let h = update_ledger(&mut ledger, genesis, 1, utxo).ok().unwrap();
    assert!(update_ledger(&mut ledger, h, 2, utxo).is_ok());
}

#[test]
fn test_ledger_state_uncommited_utxo() {
    let (mut ledger, genesis) = ledger(&[utxo(2)]);
    assert!(matches!(
        update_ledger(&mut ledger, genesis, 1, utxo(1)),
        Err(LedgerError::InvalidProof)
    ));
}

#[test]
fn test_epoch_transition() {
    let leaders = [utxo(1), utxo(2), utxo(3), utxo(4)];
    let sdp_1 = utxo(5);
    let sdp_2 = utxo(6);
    let genesis_utxos = [leaders[0], leaders[1], leaders[2], leaders[3], sdp_1, sdp_2];
    assert_eq!(config().epoch_config.epoch_length(), 100);
    let (mut ledger, genesis) = ledger(&genesis_utxos);
    assert_eq!(at(&ledger, &genesis).block_density.period_range(), (0, 59));

    let h_1 = update_ledger(&mut ledger, genesis, 10, leaders[0]).ok().unwrap();
    assert_eq!(at(&ledger, &h_1).epoch_state().epoch, 0);

    let h_2 = update_ledger(&mut ledger, h_1, 60, leaders[1]).ok().unwrap();
    let (h_3, declare_1) = apply_and_add_utxo_and_declaration(
        &mut ledger,
        h_2,
        90,
        leaders[2],
        utxo(7),
        sdp_1,
    );
    assert!(is_declared(&ledger, &h_3, &declare_1));

    // From epoch 0 to epoch 2.
    let h_4 = update_ledger(&mut ledger, h_3, 222, leaders[3]).ok().unwrap();
    assert_eq!(at(&ledger, &h_4).epoch_state().nonce, at(&ledger, &h_3).nonce);
    assert_eq!(
        at(&ledger, &h_4).epoch_state().utxo_merkle_root(),
        at(&ledger, &h_3).latest_utxos().root()
    );
    assert_sdp_snapshot(&ledger, &h_4, &h_3, &[declare_1]);
    assert!(declaration_in_snapshot(&ledger, &h_4, &declare_1));
    assert_eq!(at(&ledger, &h_4).block_density.period_range(), (200, 259));

    // From epoch 0 to epoch 1.
    let (h_5, declare_2) = apply_and_add_utxo_and_declaration(
        &mut ledger,
        h_3,
        100,
        leaders[3],
        utxo(8),
        sdp_2,
    );
    assert!(is_declared(&ledger, &h_5, &declare_2));
    assert_eq!(at(&ledger, &h_5).epoch_state().nonce, at(&ledger, &h_1).nonce);
    assert_eq!(
        at(&ledger, &h_5).epoch_state().utxo_merkle_root(),
        at(&ledger, &genesis).latest_utxos().root()
    );
    assert_sdp_snapshot(&ledger, &h_5, &genesis, &[declare_1, declare_2]);
    assert!(!declaration_in_snapshot(&ledger, &h_5, &declare_1));
    assert!(!declaration_in_snapshot(&ledger, &h_5, &declare_2));
    assert_eq!(at(&ledger, &h_5).block_density.period_range(), (100, 159));

    // From epoch 1 to epoch 2.
    let h_6 = update_ledger(&mut ledger, h_5, 200, leaders[3]).ok().unwrap();
    assert_eq!(at(&ledger, &h_6).epoch_state().nonce, at(&ledger, &h_5).nonce);
    assert_eq!(
        at(&ledger, &h_6).epoch_state().utxo_merkle_root(),
        at(&ledger, &h_3).latest_utxos().root()
    );
    assert_sdp_snapshot(&ledger, &h_6, &h_3, &[declare_1, declare_2]);
    assert!(declaration_in_snapshot(&ledger, &h_6, &declare_1));
    assert!(!declaration_in_snapshot(&ledger, &h_6, &declare_2));
    assert_eq!(at(&ledger, &h_6).block_density.period_range(), (200, 259));
}

#[test]
fn epoch_state_snapshot_excludes_inactive_declaration() {
    let leader = utxo(1);
    let sdp_utxo = utxo(2);
    let (mut ledger, genesis) = ledger(&[leader, sdp_utxo]);
    let (first, declaration) = apply_and_add_utxo_and_declaration(
        &mut ledger,
        genesis,
        1,
        leader,
        utxo(3),
        sdp_utxo,
    );

    let mut head = first;
    for epoch in 1..=5 {
        head = update_ledger(&mut ledger, head, epoch * 100, leader).ok().unwrap();
    }
    assert_eq!(at(&ledger, &head).epoch_state().epoch, 5);
    assert!(is_declared(&ledger, &head, &declaration));
    assert!(!declaration_in_snapshot(&ledger, &head, &declaration));

    let head = update_ledger(&mut ledger, first, 500, leader).ok().unwrap();
    assert_eq!(at(&ledger, &head).epoch_state().epoch, 5);
    assert!(is_declared(&ledger, &head, &declaration));
    assert!(!declaration_in_snapshot(&ledger, &head, &declaration));
}

#[test]
fn test_new_utxos_becoming_eligible_after_stake_distribution_stabilizes() {
    let utxo_1 = utxo(1);
    let utxo = utxo(2);
    let (mut ledger, genesis) = ledger(&[utxo]);

    let h_0_1 = apply_and_add_utxo(&mut ledger, genesis, 1, utxo, utxo_1);
    assert!(matches!(
        update_ledger(&mut ledger, h_0_1, 2, utxo_1),
        Err(LedgerError::InvalidProof)
    ));

    for i in 100..200 {
        assert!(matches!(
            update_ledger(&mut ledger, h_0_1, i, utxo_1),
            Err(LedgerError::InvalidProof)
        ));
    }

    let h_1_1 = update_ledger(&mut ledger, h_0_1, 100, utxo).ok().unwrap();
    assert!(update_ledger(&mut ledger, h_1_1, 200, utxo_1).is_ok());
}

#[test]
fn test_total_stake_inference_chain_across_epoch_transitions() {
    let utxo = utxo(1);
    let (mut ledger, genesis) = ledger(&[utxo]);
    let ts_genesis = at(&ledger, &genesis).epoch_state().total_stake;
    assert_eq!(ts_genesis, 10_000);

    let h1 = update_ledger(&mut ledger, genesis, 1, utxo).ok().unwrap();
    let h2 = update_ledger(&mut ledger, h1, 2, utxo).ok().unwrap();
    let h3 = update_ledger(&mut ledger, h2, 3, utxo).ok().unwrap();
    assert_eq!(at(&ledger, &h3).block_density.current_block_density(), 3);
    let h4 = update_ledger(&mut ledger, h3, 60, utxo).ok().unwrap();
    assert_eq!(at(&ledger, &h4).block_density.current_block_density(), 3);

    let h5 = update_ledger(&mut ledger, h4, 100, utxo).ok().unwrap();
    let ts1 = infer(ts_genesis, 3);
    assert_eq!(at(&ledger, &h5).epoch_state().epoch, 1);
    assert_eq!(at(&ledger, &h5).epoch_state().total_stake, ts1);

    let h6 = update_ledger(&mut ledger, h5, 101, utxo).ok().unwrap();
    assert_eq!(at(&ledger, &h6).block_density.current_block_density(), 2);

    let h7 = update_ledger(&mut ledger, h6, 200, utxo).ok().unwrap();
    let ts2 = infer(ts1, 2);
    assert_eq!(at(&ledger, &h7).epoch_state().epoch, 2);
    assert_eq!(at(&ledger, &h7).epoch_state().total_stake, ts2);
}

#[test]
fn test_update_epoch_state_with_outdated_slot_error() {
    let config = config();
    let state = genesis_state(&[utxo(1)]);
    let stake = stake_for(&state, 10);
    let state = state.update_epoch_state(10, &SdpLedger::new(0), &config, stake).ok().unwrap();

    let error = state.update_epoch_state(1, &SdpLedger::new(0), &config, stake).err();
    assert!(matches!(error, Some(LedgerError::InvalidSlot { parent: 10, block: 1 })));
}

fn apply(state: State, slot: Slot, proof: &DummyProof) -> Result<State, LedgerError> {
    let stake = stake_for(&state, slot);
    let nonce = next_nonce(&state.nonce, slot);
    state.try_apply_header(slot, proof, &SdpLedger::new(0), &config(), stake, nonce)
}

#[test]
fn test_invalid_aged_root_rejected() {
    let utxo = utxo(1);
    let state = genesis_state(&[utxo]);
    let mut proof = generate_proof(&state, &utxo, 1);
    proof.public.aged_root = ZERO;
    assert!(matches!(apply(state, 1, &proof).err(), Some(LedgerError::InvalidProof)));
}

#[test]
fn test_invalid_latest_root_rejected() {
    let utxo = utxo(1);
    let state = genesis_state(&[utxo]);
    let mut proof = generate_proof(&state, &utxo, 1);
    proof.public.latest_root = [1; 32];
    assert!(matches!(apply(state, 1, &proof).err(), Some(LedgerError::InvalidProof)));
}

/// Spends the inputs and makes the outputs.
fn transfer(
    state: &State,
    inputs: &[Utxo],
    outputs: &[Utxo],
) -> Result<TransferExecution<NoteLeaf>, OpFailure> {
    let mut utxos: UtxoTree = state.latest_utxos().clone();
    let mut balance: i128 = 0;
    for input in inputs {
        let (tree, spent) = utxos.remove(&input.id).map_err(|_| OpFailure { code: 1 })?;
        utxos = tree;
        balance += i128::from(spent.note.value);
    }
    for output in outputs {
        utxos = utxos.insert(output.id, *output).0;
        balance -= i128::from(output.note.value);
    }
    Ok(TransferExecution { utxos, balance, events: Vec::new() })
}

fn apply_transfer(
    state: &State,
    inputs: &[Utxo],
    outputs: &[Utxo],
) -> Result<(State, i128), LedgerError> {
    let outcome = transfer(state, inputs, outputs);
    let (state, balance, events) = state.clone().try_apply_transfer(outcome)?;
    assert!(events.is_empty());
    Ok((state, balance))
}

#[test]
fn test_invalid_double_spend_transfer() {
    let input = utxo_of(1, 100);
    let state = genesis_state(&[input]);
    assert!(apply_transfer(&state, &[input, input], &[utxo_of(2, 200)]).is_err());
}

#[test]
fn test_tx_processing_valid_transaction() {
    let input = utxo_of(1, 11_000);
    let output_1 = utxo_of(2, 4_000);
    let output_2 = utxo_of(3, 3_000);
    let state = genesis_state(&[input]);

    let (state, balance) = apply_transfer(&state, &[input], &[output_1, output_2]).ok().unwrap();
    assert_eq!(balance, 4_000);
    assert!(!state.latest_utxos().contains(&input.id));
    assert!(state.latest_utxos().contains(&output_1.id));
    assert!(state.latest_utxos().contains(&output_2.id));

    let (state, balance) = apply_transfer(&state, &[output_1, output_2], &[]).ok().unwrap();
    assert_eq!(balance, 7_000);
    assert!(!state.latest_utxos().contains(&output_1.id));
    assert!(!state.latest_utxos().contains(&output_2.id));
}

#[test]
fn test_tx_processing_invalid_input() {
    let state = genesis_state(&[utxo_of(1, 1_000)]);
    for missing in [utxo_of(2, 1_000), utxo_of(3, 1_000), utxo_of(4, 999)] {
        assert!(matches!(
            apply_transfer(&state, &[missing], &[]).err(),
            Some(LedgerError::Mantle(_))
        ));
    }
}

#[test]
fn test_tx_processing_insufficient_balance() {
    let input = utxo_of(1, 1);
    let state = genesis_state(&[input]);
    let outputs = [utxo_of(2, 1), utxo_of(3, 1)];
    assert_eq!(apply_transfer(&state, &[input], &outputs).ok().unwrap().1, -1);
    assert_eq!(apply_transfer(&state, &[input], &outputs[..1]).ok().unwrap().1, 0);
}

#[test]
fn test_tx_processing_no_outputs() {
    let input = utxo_of(1, 10_000);
    let state = genesis_state(&[input]);
    let (state, balance) = apply_transfer(&state, &[input], &[]).ok().unwrap();
    assert_eq!(balance, 10_000);
    assert!(!state.latest_utxos().contains(&input.id));
}

fn epoch_state_at(state: &State, slot: Slot) -> EpochState<NoteLeaf> {
    state
        .epoch_state_for_slot(slot, &SdpLedger::new(0), &config(), stake_for(state, slot))
        .ok()
        .unwrap()
}

#[test]
fn test_epoch_state_for_slot_with_empty_epochs() {
    let state = genesis_state(&[utxo(1)]);
    assert_eq!(state.epoch_state().epoch, 0);
    assert_eq!(state.next_epoch_state().epoch, 1);
    let initial_total_stake = state.epoch_state().total_stake;

    let epoch_0 = epoch_state_at(&state, 99);
    assert_eq!(epoch_0.epoch, 0);
    assert_eq!(epoch_0.total_stake, initial_total_stake);

    let epoch_1 = epoch_state_at(&state, 101);
    assert_eq!(epoch_1.epoch, 1);
    assert_eq!(epoch_1.total_stake, 1);

    let epoch_2 = epoch_state_at(&state, 201);
    assert_eq!(epoch_2.epoch, 2);
    assert_eq!(epoch_2.total_stake, 1);
    assert_eq!(epoch_2.nonce, state.nonce);
    assert_eq!(epoch_2.utxo_merkle_root(), state.latest_utxos().root());
}

#[test]
fn test_try_apply_header_with_proof_from_jumped_epoch() {
    let config = config();
    let utxo = utxo(1);
    let genesis = genesis_state(&[utxo]);
    assert_eq!(config.epoch_config.epoch(1), 0);
    let proof = generate_proof(&genesis, &utxo, 1);
    let state_1 = apply(genesis, 1, &proof).ok().unwrap();

    let slot = 201;
    assert_eq!(config.epoch_config.epoch(slot), 2);
    let synthesized = state_1
        .clone()
        .update_epoch_state(slot, &SdpLedger::new(0), &config, stake_for(&state_1, slot))
        .ok()
        .unwrap();
    assert_eq!(synthesized.slot(), slot);

    let proof = generate_proof(&synthesized, &utxo, slot);
    assert_eq!(proof.public, synthesized.leader_public(slot));
    let state_2 = apply(state_1.clone(), slot, &proof).ok().unwrap();
    assert_eq!(state_2.slot(), slot);
    assert_ne!(state_2.nonce, state_1.nonce);
    assert_eq!(state_2.epoch_state().epoch, 2);
}

#[test]
fn execution_price_rises_under_sustained_maximum_load() {
    let mut state = genesis_state(&[utxo(1)]);
    let genesis_price = *state.execution_base_fee();
    for _ in 0..10_000 {
        state = state.update_execution_market(EXECUTION_GAS_LIMIT);
    }
    assert!(*state.execution_base_fee() > genesis_price);
}

#[test]
fn execution_price_recovers_when_demand_returns_after_quiet_blocks() {
    let mut state = genesis_state(&[utxo(1)]);
    for _ in 0..100 {
        state = state.update_execution_market(0);
    }
    let quiet_price = *state.execution_base_fee();
    for _ in 0..10_000 {
        state = state.update_execution_market(EXECUTION_GAS_LIMIT);
    }
    assert!(*state.execution_base_fee() > quiet_price);
}

#[test]
fn storage_price_rises_under_sustained_heavy_usage() {
    let mut price = 1;
    let mut ema = 0;
    for _ in 0..1_000 {
        (price, ema) = update_storage_market(price, 1_000_000, ema);
    }
    assert!(price > 1);
}

#[test]
fn storage_price_recovers_when_usage_returns_after_quiet_epochs() {
    let mut price = 1;
    let mut ema = 0;
    for _ in 0..4 {
        (price, ema) = update_storage_market(price, 1_000_000, ema);
    }
    for _ in 0..4 {
        (price, ema) = update_storage_market(price, 0, ema);
    }
    let quiet_price = price;
    for _ in 0..1_000 {
        (price, ema) = update_storage_market(price, 1_000_000, ema);
    }
    assert!(price > quiet_price);
}

#[test]
fn test_storage_market_update() {
    assert_eq!((438, 340), update_storage_market(500, 0, 681));
    assert_eq!((128, 450), update_storage_market(113, 600, 300));
    assert_eq!((99, 500), update_storage_market(113, 200, 800));
    assert_eq!((249, 550), update_storage_market(221, 900, 200));
    assert_eq!((194, 500), update_storage_market(221, 100, 900));
    assert_eq!((389, 165), update_storage_market(345, 250, 80));
    assert_eq!((302, 400), update_storage_market(345, 50, 750));
    assert_eq!((582, 160), update_storage_market(517, 220, 100));
    assert_eq!((453, 485), update_storage_market(517, 120, 850));
    assert_eq!((1124, 650), update_storage_market(999, 1000, 300));
    assert_eq!((875, 650), update_storage_market(999, 300, 1000));
}

#[test]
fn test_execution_market_update() {
    let cases = [
        (10_000, 1_596_730, 1_700_000, 10_009, 1_607_057),
        (10_000, 1_596_730, 1_400_000, 9_985, 1_577_057),
        (20_000, 1_000_000, 2_500_000, 19_301, 1_150_000),
        (15_000, 2_000_000, 500_000, 15_298, 1_850_000),
        (30_000, 1_800_000, 1_000_000, 30_290, 1_720_000),
    ];
    let mut state = genesis_state(&[]);
    for (fee, average, gas, new_fee, new_average) in cases {
        state.execution_base_fee = fee;
        state.average_execution_gas = average;
        state = state.update_execution_market(gas);
        assert_eq!(state.execution_base_fee, new_fee);
        assert_eq!(state.average_execution_gas, new_average);
        assert_eq!(update_execution_prices(average, fee, gas), (new_average, new_fee));
    }
}

#[test]
fn test_accumulated_storage_gas_drives_next_epoch_price() {
    let config = config();
    let mut state = genesis_state(&[utxo(1)]);
    state.storage_gas_price = 113;
    state.storage_gas_ema = 300;
    let state = state.add_storage_gas_consumed(600).ok().unwrap();

    assert_eq!(config.epoch_config.epoch(101), 1);
    let stake = stake_for(&state, 101);
    let rotated = state.update_epoch_state(101, &SdpLedger::new(0), &config, stake).ok().unwrap();
    assert_eq!(rotated.storage_gas_price, 128);
    assert_eq!(rotated.storage_gas_ema, 450);
    assert_eq!(rotated.storage_gas_consumed_in_epoch, 0);
}

#[test]
fn storage_gas_overflow_is_reported() {
    let state = genesis_state(&[]).add_storage_gas_consumed(u64::MAX).ok().unwrap();
    assert!(matches!(
        state.add_storage_gas_consumed(1).err(),
        Some(LedgerError::GasOverflow)
    ));
}

#[test]
fn stake_is_inferred_from_the_blocks_of_the_epoch() {
    let utxo = utxo(1);
    let genesis = genesis_state(&[utxo]);
    let proof = generate_proof(&genesis, &utxo, 1);
    let state = apply(genesis, 1, &proof).ok().unwrap();
    assert!(state.stake_plan(99, &config()).is_none());
    let plan = |empty_epochs| {
        Some(StakePlan { total_stake: 10_000, block_density: 1, empty_epochs })
    };
    assert_eq!(state.stake_plan(100, &config()), plan(0));
    assert_eq!(state.stake_plan(399, &config()), plan(2));
}

#[test]
fn skipped_epochs_do_not_raise_the_storage_price() {
    let mut state = genesis_state(&[utxo(1)]);
    state.storage_gas_price = 1000;
    state.storage_gas_ema = 800;
    let stake = stake_for(&state, 350);
    let next = state.update_epoch_state(350, &SdpLedger::new(0), &config(), stake).ok().unwrap();
    let mut expected = (1000, 800);
    for _ in 0..3 {
        expected = update_storage_market(expected.0, 0, expected.1);
    }
    assert_eq!((next.storage_gas_price, next.storage_gas_ema), expected);
    assert!(next.storage_gas_price <= 1000);
}

#[test]
fn fees_are_summed_over_the_window() {
    let mut state = genesis_state(&[]);
    assert_eq!(state.get_summed_fees(), 0);
    state.update_fee_window(0, u64::MAX);
    state.update_fee_window(WINDOW_SIZE - 1, 5);
    assert_eq!(state.get_fee_from_index(0), u64::MAX);
    assert_eq!(state.get_fee_from_index(1), 0);
    assert_eq!(state.get_summed_fees(), u128::from(u64::MAX) + 5);
}

#[test]
fn faucet_notes_do_not_count_as_stake() {
    let outputs = vec![utxo_of(1, 10), utxo_of(2, 20), Utxo {
        note: Note { value: 500, pk: [9; 32] },
        ..utxo(3)
    }];
    assert_eq!(total_value(&outputs, None), 530);
    assert_eq!(total_value(&outputs, Some([9; 32])), 30);
    assert_eq!(genesis_stake(&outputs, Some([9; 32])), 30);
    assert_eq!(genesis_stake(&vec![], None), 1);
}

#[test]
fn genesis_takes_no_inputs() {
    let config = config();
    let outputs = vec![utxo(1)];
    let inputs = vec![[4; 32], [5; 32]];
    let error =
        State::from_genesis_tx(&inputs, &outputs, &config, [3; 32], lottery(10_000), PRICES).err();
    assert!(matches!(error, Some(LedgerError::InputInGenesis(id)) if id == [4; 32]));

    let state =
        State::from_genesis_tx(&vec![], &outputs, &config, [3; 32], lottery(10_000), PRICES)
            .ok()
            .unwrap();
    assert_eq!(state.nonce, [3; 32]);
    assert_eq!(state.epoch_state().total_stake, 10_000);
    assert!(state.latest_utxos().contains(&outputs[0].id));
    assert_eq!(*state.storage_gas_price(), 1);
}

#[test]
fn nonce_inputs_hold_the_slot_as_a_little_endian_number() {
    let inputs = nonce_inputs(&[1; 32], &[2; 32], 0x0102_0304);
    assert_eq!(inputs[1], [1; 32]);
    assert_eq!(inputs[2], [2; 32]);
    let mut slot = [0; 32];
    slot[..4].copy_from_slice(&[4, 3, 2, 1]);
    assert_eq!(inputs[3], slot);
}

#[test]
fn snapshots_are_taken_within_the_epoch_before() {
    let config = config().epoch_config;
    assert_eq!(config.stake_distribution_snapshot(2), 100);
    assert_eq!(config.nonce_snapshot(2), 160);
    assert_eq!(config.total_stake_inference_period(), 60);
    assert_eq!(config.epoch(250), 2);
}

fn apply_and_add_utxo_and_activity(
    ledger: &mut Ledger<NoteLeaf>,
    parent: HeaderId,
    slot: Slot,
    target_epoch: u32,
    utxo_proof: Utxo,
    utxo_add: Utxo,
    declaration_id: DeclarationId,
) -> HeaderId {
    let id = apply_and_add_utxo(ledger, parent, slot, utxo_proof, utxo_add);
    let mut state = ledger.state(&id).unwrap().clone();
    let sdp = &state.mantle_ledger.sdp;
    let before = *sdp.get_declaration(&declaration_id).unwrap();
    let execution = ActiveExecution {
        declarations: sdp
            .get_declarations_by_id(&declaration_id)
            .unwrap()
            .clone()
            .with(declaration_id, Declaration { active: sdp.epoch, nonce: 1, ..before }),
        events: Vec::new(),
    };
    state.mantle_ledger = state
        .mantle_ledger
        .try_apply_sdp_active(
            &declaration_id,
            &config(),
            Ok(execution),
            target_epoch,
            ProofOutcome::Distance(3),
        )
        .ok()
        .unwrap()
        .0;
    ledger.commit_update(id, state);
    id
}

#[test]
fn snapshot_includes_decl_when_active_refresh_lags_finalization() {
    let leader = utxo(1);
    let sdp_utxo = utxo(2);
    let (mut ledger, genesis) = ledger(&[leader, sdp_utxo]);

    let h_1 = update_ledger(&mut ledger, genesis, 100, leader).ok().unwrap();
    let h_2 = update_ledger(&mut ledger, h_1, 200, leader).ok().unwrap();
    let (h_3, declaration) = apply_and_add_utxo_and_declaration(
        &mut ledger,
        h_2,
        300,
        leader,
        utxo(3),
        sdp_utxo,
    );
    let h_4 = update_ledger(&mut ledger, h_3, 400, leader).ok().unwrap();
    let h_5 = update_ledger(&mut ledger, h_4, 500, leader).ok().unwrap();
    let h_6 = apply_and_add_utxo_and_activity(
        &mut ledger,
        h_5,
        600,
        5,
        leader,
        utxo(4),
        declaration,
    );

    let active_at = |ledger: &Ledger<NoteLeaf>, id: &HeaderId| {
        at(ledger, id)
            .epoch_state()
            .active_declarations
            .for_service(&ServiceType::BlendNetwork)
            .and_then(|entries| entries.lookup(&declaration))
            .map(|entry| entry.active)
    };
    let h_7 = update_ledger(&mut ledger, h_6, 700, leader).ok().unwrap();
    assert_eq!(at(&ledger, &h_7).epoch_state().epoch, 7);
    assert_eq!(active_at(&ledger, &h_7), Some(5));

    let h_8 = update_ledger(&mut ledger, h_7, 800, leader).ok().unwrap();
    assert_eq!(at(&ledger, &h_8).epoch_state().epoch, 8);
    assert_eq!(active_at(&ledger, &h_8), Some(6));
}

#[test]
fn stake_is_inferred_for_each_empty_epoch() {
    let plan = StakePlan { total_stake: 600, block_density: 9, empty_epochs: 2 };
    let second = plan.after(900).unwrap();
    assert_eq!(second, StakePlan { total_stake: 900, block_density: 0, empty_epochs: 1 });
    let third = second.after(50).unwrap();
    assert_eq!(third, StakePlan { total_stake: 50, block_density: 0, empty_epochs: 0 });
    assert_eq!(third.after(1), None);
}
