use ledger::collections::trie_set::TrieSet;
use ledger::config::{Config, EpochConfig};
use ledger::cryptarchia::epoch::UtxoTree;
use ledger::cryptarchia::{GasPrices, StakeOutcome, TransferExecution};
use ledger::error::LedgerError;
use ledger::leader_proof::{LeaderProof, LeaderPublic};
use ledger::ledger::contexts::{OpContext, OpRequest};
use ledger::ledger::contents::{settle_tx, BlockTotals, TxGas, TxRun};
use ledger::ledger::ops::{ChannelUtxoExecution, LeaderClaimExecution, OpOutcome, OpStep};
use ledger::ledger::rewards::block_rewards;
use ledger::ledger::{
    BlockInputs, Event, HeaderInputs, Ledger, LedgerState, EXECUTION_GAS_LIMIT,
};
use ledger::mantle;
use ledger::mantle::channel::{ChannelState, Channels};
use ledger::mantle::helpers::{MantleOperationVerificationHelper, VerificationError};
use ledger::mantle::leader;
use ledger::mantle::leader::LeaderState;
use ledger::mantle::locked_notes::{LockedNotes, MinStake};
use ledger::mantle::sdp;
use ledger::mantle::sdp::rewards::blend::current_epoch::{CoreNetwork, CurrentEpochState};
use ledger::mantle::sdp::rewards::blend::target_epoch::ProofOutcome;
use ledger::mantle::sdp::rewards::blend::{Rewards, RewardsParameters};
use ledger::mantle::sdp::{
    ActiveExecution, Declarations, PendingHeaderEffect, RewardOrigin, SdpExecution,
    ServiceParameters, ServiceParams, ServiceRewardsParameters,
};
use ledger::mantle::ChannelExecution;
use ledger::merkle::blake2b::{blake2b, Blake2bMerkleHasher};
use ledger::merkle::dynamic::MerkleNode;
use ledger::merkle::hasher::{MerkleHasher, NodeHash};
use ledger::merkle::tree::LeafExtractor;
use ledger::types::{
    Declaration, Fr, HeaderEvent, HeaderId, Note, NoteId, OpFailure, ServiceType, TxEvent, Utxo, Value,
};

struct NoteLeaf;

impl LeafExtractor<Utxo> for NoteLeaf {
    type Hasher = Blake2bMerkleHasher;

    fn leaf_of(key: [u8; 32], _item: Utxo) -> NodeHash {
        key
    }

    fn leaf(key: &[u8; 32], _item: &Utxo) -> NodeHash {
        *key
    }
}

type State = LedgerState<NoteLeaf>;
type Step = OpStep<NoteLeaf>;

const ZERO: Fr = [0; 32];
const FAILURE: OpFailure = OpFailure { code: 3 };
const HEADER: HeaderInputs = HeaderInputs {
    stake: StakeOutcome { total_stake: 1, lottery_0: ZERO, lottery_1: ZERO },
    nonce: [8; 32],
    core: CoreNetwork { zk_root: ZERO, core_quota: 0 },
};

struct DummyProof {
    public: LeaderPublic,
}

impl LeaderProof for DummyProof {
    fn accepts(&self, public_inputs: LeaderPublic) -> bool {
        self.public == public_inputs
    }

    fn contribution(&self) -> Fr {
        ZERO
    }

    fn voucher(&self) -> [u8; 32] {
        [4; 32]
    }

    fn verify(&self, public_inputs: &LeaderPublic) -> bool {
        self.public == *public_inputs
    }

    fn entropy(&self) -> Fr {
        ZERO
    }

    fn voucher_cm(&self) -> [u8; 32] {
        [4; 32]
    }
}

fn utxo_of(byte: u8, value: Value) -> Utxo {
    Utxo {
        id: blake2b(&[byte]),
        op_id: [byte; 32],
        output_index: 0,
        note: Note { value, pk: [7; 32] },
    }
}

fn utxo() -> Utxo {
    utxo_of(1, 10_000)
}

fn config() -> Config {
    Config {
        epoch_config: EpochConfig {
            base_period_length: 10,
            epoch_stake_distribution_stabilization: 3,
            epoch_period_nonce_buffer: 3,
            epoch_period_nonce_stabilization: 4,
        },
        sdp_config: mantle::sdp::Config {
            service_params: ServiceParams {
                blend_network: Some(ServiceParameters { inactivity_period: 2, epoch: 0 }),
            },
            service_rewards_params: ServiceRewardsParameters {
                blend: RewardsParameters {
                    rounds_per_epoch: 100,
                    num_blend_layers: 3,
                    data_replication_factor: 0,
                    minimum_network_size: 1,
                    activity_threshold_sensitivity: 1,
                },
            },
            min_stake: MinStake { threshold: 1, timestamp: 0 },
        },
        faucet_pk: None,
    }
}

fn prices(execution: u64, storage: u64) -> GasPrices {
    GasPrices { execution_base_gas_price: execution, storage_gas_price: storage }
}

fn state_of(utxos: &[Utxo]) -> State {
    State::from_utxos(&utxos.to_vec(), &config(), (ZERO, ZERO), prices(1, 1))
}

fn create_test_ledger() -> (Ledger<NoteLeaf>, HeaderId, Utxo) {
    (Ledger::new([0; 32], state_of(&[utxo()]), config()), [0; 32], utxo())
}

fn no_gas() -> TxGas {
    TxGas {
        total_gas_cost: Some(0),
        execution_gas: Some(0),
        storage_gas_cost: Some(0),
        storage_gas: Some(0),
    }
}

fn transfer(state: &State, inputs: &[NoteId], outputs: &[Utxo]) -> Step {
    let mut utxos = state.latest_utxos().clone();
    let mut balance: i128 = 0;
    for id in inputs {
        match utxos.remove(id) {
            Ok((tree, spent)) => {
                utxos = tree;
                balance += i128::from(spent.note.value);
            }
            Err(_) => return OpStep::Verified(OpOutcome::Transfer(Err(FAILURE))),
        }
    }
    for output in outputs {
        utxos = utxos.insert(output.id, *output).0;
        balance -= i128::from(output.note.value);
    }
    OpStep::Verified(OpOutcome::Transfer(Ok(TransferExecution {
        utxos,
        balance,
        events: Vec::new(),
    })))
}

fn channel(keys: &[[u8; 32]]) -> ChannelState {
    ChannelState { accredited_keys: keys.to_vec(), transfer_threshold: 1 }
}

fn inscribe(channels: &Channels, id: [u8; 32], signer: [u8; 32]) -> Step {
    OpStep::Verified(OpOutcome::ChannelInscribe(Ok(ChannelExecution {
        channels: channels.clone().with(id, channel(&[signer])),
        events: Vec::new(),
    })))
}

fn event(byte: u8) -> TxEvent {
    TxEvent { tx_hash: [byte; 32], op_id: [byte; 32], payload: vec![byte] }
}

fn apply(state: State, steps: Vec<Step>) -> Result<(State, i128, Vec<TxEvent>), LedgerError> {
    state.try_apply_tx(&config(), steps)
}

#[test]
fn genesis_seeds_epoch_state_sdp_from_mantle() {
    let config = config();
    let declaration = Declaration {
        service_type: ServiceType::BlendNetwork,
        provider_id: [1; 32],
        locked_note_id: utxo().id,
        zk_id: [2; 32],
        created: 0,
        active: 2,
        withdraw_at: None,
        nonce: 0,
    };
    let execution = SdpExecution {
        locked_notes: LockedNotes::new(),
        declarations: Declarations::empty().with([6; 32], declaration),
        events: vec![event(2)],
    };
    let inscription = ChannelExecution { channels: Channels::new(), events: vec![event(1)] };
    let (state, events) = State::from_genesis_tx(
        &vec![],
        &vec![utxo()],
        Ok(inscription),
        vec![(ServiceType::BlendNetwork, Ok(execution))],
        &config,
        ZERO,
        (ZERO, ZERO),
        prices(1, 1),
    )
    .ok()
    .unwrap();
    assert_eq!(events, vec![event(1), event(2)]);
    let blend = config.sdp_config.service_rewards_params.blend;
    let service = state.mantle_ledger.sdp.blend_network.as_ref().unwrap();
    match &service.rewards {
        Rewards::WithoutTargetEpoch { current_epoch_state, .. } => assert_eq!(
            *current_epoch_state,
            CurrentEpochState::new(state.epoch_state(), &blend)
        ),
        Rewards::WithTargetEpoch { .. } => panic!("no epoch has ended"),
    }
    for epoch_state in [state.epoch_state(), state.next_epoch_state()] {
        let expected = state
            .mantle_ledger
            .sdp
            .active_declarations(epoch_state.epoch, &config.sdp_config.service_params);
        let entries = epoch_state.active_declarations.blend_network.as_ref().unwrap();
        assert_eq!(entries.count(), expected.blend_network.unwrap().count());
        assert_eq!(entries.lookup(&[6; 32]), Some(&declaration));
    }
}

#[test]
fn test_ledger_creation() {
    let (ledger, genesis_id, utxo) = create_test_ledger();
    let state = ledger.state(&genesis_id).unwrap();
    assert!(state.latest_utxos().contains(&utxo.id));
    assert_eq!(state.slot(), 0);
}

#[test]
fn test_ledger_try_update_with_transaction() {
    let (mut ledger, genesis_id, utxo) = create_test_ledger();
    let fees = 2_925;
    let output = utxo_of(2, utxo.note.value - fees);
    let genesis = ledger.state(&genesis_id).unwrap().clone();
    let tx = TxRun {
        steps: vec![transfer(&genesis, &[utxo.id], &[output])],
        gas: TxGas {
            total_gas_cost: Some(fees),
            execution_gas: Some(2_705),
            storage_gas_cost: Some(220),
            storage_gas: Some(220),
        },
    };
    let proof = DummyProof { public: genesis.cryptarchia_ledger.leader_public(1) };
    let new_id = [1; 32];
    let inputs = BlockInputs { header: HEADER, reward_origins: Vec::new(), txs: vec![tx] };
    let (id, state, events) =
        ledger.prepare_update(new_id, genesis_id, 1, &proof, inputs).ok().unwrap();
    assert_eq!(id, new_id);
    assert!(events.is_empty());
    ledger.commit_update(new_id, state);

    let new_state = ledger.state(&new_id).unwrap();
    assert!(!new_state.latest_utxos().contains(&utxo.id));
    assert!(new_state.latest_utxos().contains(&output.id));
    assert_eq!(new_state.block_number, 1);
    assert_eq!(new_state.cryptarchia_ledger.nonce, HEADER.nonce);
    assert_eq!(new_state.mantle_ledger.vouchers().len(), 1);
}

#[test]
fn lib_test_channel_inscribe_operation() {
    let state = state_of(&[utxo()]);
    let step = inscribe(state.mantle_ledger.channels(), [2; 32], [50; 32]);
    let (state, _, events) = apply(state, vec![step]).ok().unwrap();
    assert!(state.mantle_ledger.channels().channel_state(&[2; 32]).is_some());
    assert!(events.is_empty());
}

#[test]
fn test_channel_config_operation() {
    let state = state_of(&[utxo()]);
    let channels = state.mantle_ledger.channels().clone().with([3; 32], channel(&[[50; 32]]));
    let step = OpStep::Verified(OpOutcome::ChannelConfig(Ok(ChannelExecution {
        channels,
        events: Vec::new(),
    })));
    let (state, _, events) = apply(state, vec![step]).ok().unwrap();
    let channel = state.mantle_ledger.channels().channel_state(&[3; 32]).unwrap();
    assert_eq!(channel.accredited_keys, vec![[50; 32]]);
    assert!(events.is_empty());
}

/// Moves a note into a channel: it is consumed and made again under another identifier.
fn deposit(state: &State, input: &NoteId, made: Utxo) -> Step {
    let outcome = match state.latest_utxos().remove(input) {
        Ok((utxos, _)) => Ok(ChannelUtxoExecution {
            channels: state.mantle_ledger.channels().clone(),
            utxos: utxos.insert(made.id, made).0,
            events: vec![event(5)],
        }),
        Err(_) => Err(FAILURE),
    };
    OpStep::Verified(OpOutcome::ChannelDeposit(outcome))
}

fn withdraw(state: &State) -> Step {
    OpStep::Verified(OpOutcome::ChannelWithdraw(Ok(ChannelExecution {
        channels: state.mantle_ledger.channels().clone(),
        events: Vec::new(),
    })))
}

#[test]
fn test_channel_deposit_operation() {
    let state = state_of(&[utxo()]);
    let step = inscribe(state.mantle_ledger.channels(), [4; 32], [50; 32]);
    let (state, _, _) = apply(state, vec![step]).ok().unwrap();

    let made = utxo_of(9, 10_000);
    let step = deposit(&state, &utxo().id, made);
    let (state, balance, events) = apply(state, vec![step]).ok().unwrap();
    assert!(!state.latest_utxos().contains(&utxo().id));
    assert!(state.latest_utxos().contains(&made.id));
    assert!(state.mantle_ledger.channels().channel_state(&[4; 32]).is_some());
    assert_eq!(balance, 0);
    assert_eq!(events, vec![event(5)]);
}

#[test]
fn test_channel_withdraw_operation() {
    let state = state_of(&[utxo()]);
    let made = utxo_of(9, 10_000);
    let step = deposit(&state, &utxo().id, made);
    let (state, _, _) = apply(state, vec![step]).ok().unwrap();

    let step = withdraw(&state);
    let (state, balance, events) = apply(state, vec![step]).ok().unwrap();
    assert_eq!(balance, 0);
    assert!(state.latest_utxos().contains(&made.id));
    assert!(events.is_empty());
}

#[test]
fn test_channel_deposit_is_not_replayable_after_withdraw() {
    let state = state_of(&[utxo()]);
    let made = utxo_of(9, 10_000);
    let step = deposit(&state, &utxo().id, made);
    let (state, _, _) = apply(state, vec![step]).ok().unwrap();
    let step = withdraw(&state);
    let (state, _, _) = apply(state, vec![step]).ok().unwrap();
    assert!(!state.latest_utxos().contains(&utxo().id));

    let step = deposit(&state, &utxo().id, made);
    let error = apply(state, vec![step]).err().unwrap();
    assert_eq!(error, LedgerError::Mantle(mantle::Error::Channel(FAILURE)));
}

#[test]
fn test_channel_withdraw_invalid_helper_backed_proof_fails_on_apply() {
    let state = state_of(&[utxo()]);
    let made = utxo_of(9, 10_000);
    let step = deposit(&state, &utxo().id, made);
    let (state, _, _) = apply(state, vec![step]).ok().unwrap();

    let reason = VerificationError::Operation(FAILURE);
    let error = apply(state.clone(), vec![OpStep::Rejected(reason)]).err().unwrap();
    assert_eq!(error, LedgerError::VerificationError(reason));
    assert!(state.latest_utxos().contains(&made.id));
}

#[test]
fn lib_test_invalid_parent_error() {
    let state = state_of(&[utxo()]);
    let step = inscribe(state.mantle_ledger.channels(), [5; 32], [50; 32]);
    let reason = VerificationError::Operation(OpFailure { code: 9 });
    let error = apply(state, vec![step, OpStep::Rejected(reason)]).err().unwrap();
    assert_eq!(error, LedgerError::VerificationError(reason));
}

#[test]
fn lib_test_unauthorized_signer_error() {
    let state = state_of(&[utxo()]);
    let step = inscribe(state.mantle_ledger.channels(), [6; 32], [50; 32]);
    let (state, _, _) = apply(state, vec![step]).ok().unwrap();
    let config = config();
    let helper = MantleOperationVerificationHelper::new(
        &state.mantle_ledger,
        &state.cryptarchia_ledger,
        &config,
    );
    assert_eq!(helper.get_key_from_channel_at_index(&[6; 32], &0), Ok([50; 32]));
    let reason = helper.get_key_from_channel_at_index(&[6; 32], &1).unwrap_err();
    assert_eq!(reason, VerificationError::KeyNotFound { channel_id: [6; 32], key_index: 1 });
    let error = apply(state.clone(), vec![OpStep::Rejected(reason)]).err().unwrap();
    assert_eq!(error, LedgerError::VerificationError(reason));
}

#[test]
fn lib_test_multiple_operations_in_transaction() {
    let state = state_of(&[utxo()]);
    let channels = Channels::new().with([10; 32], channel(&[[1; 32]]));
    let both = channels.clone().with([20; 32], channel(&[[2; 32]]));
    let configured = both.clone().with([10; 32], channel(&[[3; 32], [4; 32]]));
    let execution = |channels| ChannelExecution { channels, events: Vec::new() };
    let (state, _, _) = apply(
        state,
        vec![
            OpStep::Verified(OpOutcome::ChannelInscribe(Ok(execution(channels)))),
            OpStep::Verified(OpOutcome::ChannelInscribe(Ok(execution(both)))),
            OpStep::Verified(OpOutcome::ChannelConfig(Ok(execution(configured.clone())))),
            OpStep::Verified(OpOutcome::ChannelInscribe(Ok(execution(configured)))),
        ],
    )
    .ok()
    .unwrap();
    let channels = state.mantle_ledger.channels();
    assert_eq!(
        channels.channel_state(&[10; 32]).unwrap().accredited_keys,
        vec![[3; 32], [4; 32]]
    );
    assert_eq!(channels.channel_state(&[20; 32]).unwrap().accredited_keys, vec![[2; 32]]);
}

/// A transaction that uses 2705 execution gas and 220 storage gas, at a storage price of one.
fn tx(state: &State, paid: Value, output: Utxo) -> TxRun<NoteLeaf> {
    let price = state.get_gas_prices().execution_base_gas_price;
    let output =
        Utxo { note: Note { value: utxo().note.value - paid, ..output.note }, ..output };
    TxRun {
        steps: vec![transfer(state, &[utxo().id], &[output])],
        gas: TxGas {
            total_gas_cost: Some(2_705 * price + 220),
            execution_gas: Some(2_705),
            storage_gas_cost: Some(220),
            storage_gas: Some(220),
        },
    }
}

#[test]
fn test_fee_rejection() {
    let mut state = state_of(&[utxo()]);
    let run = tx(&state, 2_925, utxo_of(2, 0));
    assert!(state.clone().try_apply_contents(&config(), vec![run]).is_ok());

    state.cryptarchia_ledger.execution_base_fee = 10;
    let run = tx(&state, 2_925, utxo_of(2, 0));
    let error = state.try_apply_contents(&config(), vec![run]).err().unwrap();
    assert_eq!(error, LedgerError::InsufficientBalance);
}

#[test]
fn test_priority_fees_go_to_leader() {
    let state = state_of(&[utxo()]);
    let run = tx(&state, 2_925, utxo_of(2, 0));
    let (plain, events) = state.clone().try_apply_contents(&config(), vec![run]).ok().unwrap();
    assert!(events.is_empty());

    let run = tx(&state, 3_925, utxo_of(2, 0));
    let (tipped, events) = state.try_apply_contents(&config(), vec![run]).ok().unwrap();
    assert!(events.is_empty());
    assert_eq!(
        plain.mantle_ledger.leaders.pending_rewards + 1000,
        tipped.mantle_ledger.leaders.pending_rewards
    );
}

#[test]
fn test_apply_contents_accumulates_storage_gas() {
    let state = state_of(&[utxo()]);
    let run = tx(&state, 10_000, utxo_of(2, 0));
    let (applied, _) = state.try_apply_contents(&config(), vec![run]).ok().unwrap();
    assert_eq!(applied.cryptarchia_ledger.storage_gas_consumed_in_epoch, 220);
}

fn claim(
    leaders: &LeaderState<Blake2bMerkleHasher>,
    nullifier: [u8; 32],
) -> Result<LeaderClaimExecution<NoteLeaf>, leader::Error> {
    if leaders.nullifiers().has(&nullifier) {
        return Err(leader::Error::DuplicatedVoucherNullifier);
    }
    let reward = leaders.reward_amount();
    let note = utxo_of(nullifier[0], reward);
    Ok(LeaderClaimExecution {
        nullifiers: leaders.nullifiers_cloned().with(nullifier),
        claimable_rewards: leaders.claimable_rewards() - reward,
        utxos: UtxoTree::new().insert(note.id, note).0,
        events: Vec::new(),
    })
}

#[test]
fn test_leader_claim_operation() {
    let mut leaders = LeaderState::new();
    for voucher in 0..3 {
        leaders = leaders.try_apply_header(1, [voucher; 32]).ok().unwrap();
    }
    let mut leaders = leaders.try_apply_header(2, [3; 32]).ok().unwrap();
    leaders.update_rewards(300);

    for nullifier in 0..3 {
        assert_eq!(leaders.reward_amount(), 100);
        let execution = claim(&leaders, [nullifier; 32]).ok().unwrap();
        leaders.update_nullifiers(execution.nullifiers);
        leaders.update_rewards(execution.claimable_rewards);
        assert_eq!(execution.utxos.size(), 1);
        assert_eq!(execution.utxos.iter()[0].1.note.value, 100);
    }
    assert_eq!(leaders.claimable_rewards(), 0);
}

#[test]
fn test_duplicate_leader_claim_is_rejected() {
    let leaders = LeaderState::new().try_apply_header(1, [0; 32]).ok().unwrap();
    let mut leaders = leaders.try_apply_header(2, [1; 32]).ok().unwrap();
    leaders.update_rewards(100);

    let execution = claim(&leaders, [0; 32]).ok().unwrap();
    leaders.update_nullifiers(execution.nullifiers);
    leaders.update_rewards(execution.claimable_rewards);
    assert_eq!(execution.utxos.iter()[0].1.note.value, 100);

    assert_eq!(claim(&leaders, [0; 32]).err(), Some(leader::Error::DuplicatedVoucherNullifier));
}

#[test]
fn claims_are_applied_with_their_outputs() {
    let mut state = state_of(&[utxo()]);
    state.mantle_ledger.leaders.update_rewards(70);
    let reward = utxo_of(3, 70);
    let step = OpStep::Verified(OpOutcome::LeaderClaim(Ok(LeaderClaimExecution {
        nullifiers: TrieSet::empty().with([1; 32]),
        claimable_rewards: 0,
        utxos: state.latest_utxos().insert(reward.id, reward).0,
        events: vec![event(1)],
    })));
    let (state, _, events) = apply(state, vec![step]).ok().unwrap();
    assert!(state.latest_utxos().contains(&reward.id));
    assert!(state.mantle_ledger.leaders.nullifiers().has(&[1; 32]));
    assert_eq!(state.mantle_ledger.leaders.claimable_rewards(), 0);
    assert_eq!(events, vec![event(1)]);

    let step = OpStep::Verified(OpOutcome::LeaderClaim(Err(FAILURE)));
    let error = apply(state, vec![step]).err().unwrap();
    assert_eq!(error, LedgerError::Mantle(mantle::Error::LeaderClaim(FAILURE)));
}

#[test]
fn balances_are_added_up_or_overflow() {
    let state = state_of(&[]);
    let step = |balance: i128| {
        OpStep::Verified(OpOutcome::Transfer(Ok(TransferExecution::<NoteLeaf> {
            utxos: UtxoTree::new(),
            balance,
            events: Vec::new(),
        })))
    };
    let (_, balance, _) = apply(state.clone(), vec![step(5), step(-7)]).ok().unwrap();
    assert_eq!(balance, -2);
    let error = apply(state, vec![step(i128::MAX), step(1)]).err().unwrap();
    assert_eq!(error, LedgerError::BalanceOverflow);
}

#[test]
fn failed_transfers_are_reported() {
    let state = state_of(&[]);
    let step = transfer(&state, &[[1; 32]], &[]);
    let error = apply(state, vec![step]).err().unwrap();
    assert_eq!(error, LedgerError::Mantle(mantle::Error::Transfer(FAILURE)));
}

const NOTHING: BlockTotals =
    BlockTotals { execution_gas: 0, storage_gas: 0, fee_burned: 0, fee_tip: 0 };

#[test]
fn fees_are_burned_or_tipped() {
    let gas = TxGas {
        total_gas_cost: Some(2_705 * 2 + 220),
        execution_gas: Some(2_705),
        storage_gas_cost: Some(220),
        storage_gas: Some(44),
    };
    let totals = settle_tx(NOTHING, 6_000, gas, prices(2, 5)).ok().unwrap();
    assert_eq!(
        totals,
        BlockTotals { execution_gas: 2_705, storage_gas: 44, fee_burned: 5_630, fee_tip: 370 }
    );
    assert_eq!(
        settle_tx(NOTHING, 5_629, gas, prices(2, 5)),
        Err(LedgerError::InsufficientBalance)
    );
}

#[test]
fn gas_that_cannot_be_represented_is_rejected() {
    for gas in [
        TxGas { total_gas_cost: None, ..no_gas() },
        TxGas { execution_gas: None, ..no_gas() },
        TxGas { storage_gas_cost: None, ..no_gas() },
        TxGas { storage_gas: None, ..no_gas() },
    ] {
        assert_eq!(settle_tx(NOTHING, 0, gas, prices(1, 1)), Err(LedgerError::GasOverflow));
    }
}

#[test]
fn blocks_stay_within_the_gas_limit() {
    let gas = TxGas { execution_gas: Some(EXECUTION_GAS_LIMIT), ..no_gas() };
    let full = settle_tx(NOTHING, 0, gas, prices(0, 0)).ok().unwrap();
    assert_eq!(full.execution_gas, EXECUTION_GAS_LIMIT);
    let gas = TxGas { execution_gas: Some(1), ..no_gas() };
    assert_eq!(
        settle_tx(full, 0, gas, prices(0, 0)),
        Err(LedgerError::TooMuchExecutionGas {
            gas: EXECUTION_GAS_LIMIT + 1,
            limit: EXECUTION_GAS_LIMIT
        })
    );
}

#[test]
fn blocks_pay_inflation_or_fees() {
    // The stake is low: all of the inflation is paid, whatever was burned.
    assert_eq!(block_rewards(0, 1, 0), (38, 57));
    assert_eq!(block_rewards(1_000, 1, 1_000), (38, 57));
    // The stake is high: fees are paid out.
    assert_eq!(block_rewards(1_000, u64::MAX, 1_000), (400, 600));
    // In between, half of each.
    assert_eq!(block_rewards(0, 2_940_000_000, 1_000), (219, 328));
}

#[test]
fn late_blocks_and_orphans_are_rejected() {
    let (mut ledger, genesis_id, _) = create_test_ledger();
    let inputs = || BlockInputs { header: HEADER, reward_origins: Vec::new(), txs: Vec::new() };
    let genesis = ledger.state(&genesis_id).unwrap().clone();
    let proof = DummyProof { public: genesis.cryptarchia_ledger.leader_public(5) };
    let error = ledger.prepare_update([1; 32], [9; 32], 5, &proof, inputs()).err().unwrap();
    assert_eq!(error, LedgerError::ParentNotFound([9; 32]));

    let error = ledger.prepare_update([1; 32], genesis_id, 4, &proof, inputs()).err().unwrap();
    assert_eq!(error, LedgerError::InvalidProof);

    let (id, state, _) =
        ledger.prepare_update([1; 32], genesis_id, 5, &proof, inputs()).ok().unwrap();
    ledger.commit_update(id, state);
    let error = ledger.prepare_update([2; 32], [1; 32], 5, &proof, inputs()).err().unwrap();
    assert_eq!(error, LedgerError::InvalidSlot { parent: 5, block: 5 });
}

#[test]
fn pruning_undoes_a_commit() {
    let (mut ledger, genesis_id, _) = create_test_ledger();
    let state = ledger.state(&genesis_id).unwrap().clone();
    ledger.commit_update([1; 32], state);
    assert!(ledger.state(&[1; 32]).is_some());
    assert!(ledger.prune_state_at(&[1; 32]));
    assert!(!ledger.prune_state_at(&[1; 32]));
    assert!(ledger.state(&[1; 32]).is_none());
    assert!(ledger.state(&genesis_id).is_some());
}

/// A state at the end of epoch 1, in which one provider has proven its activity in epoch 0.
fn state_with_activity(income: Value) -> State {
    let config = config();
    let zk_id = [2; 32];
    let declaration = Declaration {
        service_type: ServiceType::BlendNetwork,
        provider_id: [1; 32],
        locked_note_id: utxo().id,
        zk_id,
        created: 0,
        active: 2,
        withdraw_at: None,
        nonce: 0,
    };
    let execution = SdpExecution {
        locked_notes: LockedNotes::new(),
        declarations: Declarations::empty().with([6; 32], declaration),
        events: Vec::new(),
    };
    let (mut state, _) = State::from_genesis_tx(
        &vec![],
        &vec![utxo()],
        Ok(ChannelExecution { channels: Channels::new(), events: Vec::new() }),
        vec![(ServiceType::BlendNetwork, Ok(execution))],
        &config,
        ZERO,
        (ZERO, ZERO),
        prices(1, 1),
    )
    .ok()
    .unwrap();
    state.mantle_ledger.sdp.add_blend_income(income);
    let (mut state, _) = apply_header(state, 100);
    let declarations =
        state.mantle_ledger.sdp.get_declarations_by_id(&[6; 32]).unwrap().clone();
    state.mantle_ledger = state
        .mantle_ledger
        .try_apply_sdp_active(
            &[6; 32],
            &config,
            Ok(ActiveExecution { declarations, events: Vec::new() }),
            0,
            ProofOutcome::Distance(4),
        )
        .ok()
        .unwrap()
        .0;
    state
}

fn proof_for(state: &State, slot: u64) -> DummyProof {
    let moved = state
        .cryptarchia_ledger
        .clone()
        .update_epoch_state(slot, &state.mantle_ledger.sdp, &config(), HEADER.stake)
        .ok()
        .unwrap();
    DummyProof { public: moved.leader_public(slot) }
}

fn apply_header(state: State, slot: u64) -> (State, PendingHeaderEffect) {
    let proof = proof_for(&state, slot);
    state.try_apply_header(slot, &proof, &config(), HEADER).ok().unwrap()
}

#[test]
fn rewards_enter_the_tree_and_are_reported() {
    let state = state_with_activity(1_000);
    let (next, effect) = apply_header(state.clone(), 200);
    assert_eq!(effect.reward_notes(), vec![Note { value: 1_000, pk: [2; 32] }]);
    let origin = RewardOrigin { pk: [2; 32], id: [9; 32], op_id: [8; 32], output_index: 0 };
    let reward = Utxo {
        id: [9; 32],
        op_id: [8; 32],
        output_index: 0,
        note: Note { value: 1_000, pk: [2; 32] },
    };
    let (paid, events) = next.distribute_rewards(effect, &vec![origin]);
    assert_eq!(paid.latest_utxos().get(&[9; 32]), Some(reward));
    assert_eq!(events.len(), 1);

    let proof = proof_for(&state, 200);
    let ledger = Ledger::new([0; 32], state, config());
    let inputs =
        BlockInputs { header: HEADER, reward_origins: vec![origin], txs: Vec::new() };
    let (_, after, events) =
        ledger.prepare_update([1; 32], [0; 32], 200, &proof, inputs).ok().unwrap();
    assert!(after.latest_utxos().contains(&[9; 32]));
    assert_eq!(
        events,
        vec![Event::Header(HeaderEvent::SdpRewardDistributed {
            service_type: ServiceType::BlendNetwork,
            utxo: reward
        })]
    );

    // In the epoch after, nothing is due any more.
    let (_, effect) = apply_header(after, 300);
    assert!(effect.reward_notes().is_empty());
}

#[test]
fn lookups_report_what_is_missing() {
    let state = state_of(&[utxo()]);
    let config = config();
    let helper = MantleOperationVerificationHelper::new(
        &state.mantle_ledger,
        &state.cryptarchia_ledger,
        &config,
    );
    assert!(helper.get_utxos().contains(&utxo().id));
    assert_eq!(helper.get_epoch(), 0);
    assert_eq!(helper.get_block_slot(), 0);
    assert_eq!(*helper.get_min_stake(), config.sdp_config.min_stake);
    assert_eq!(helper.get_nullifiers().count(), 0);
    assert!(helper.get_channels().channel_state(&[1; 32]).is_none());
    assert!(!helper.get_locked_notes().contains(&utxo().id));
    assert_eq!(
        *helper.get_claimable_vouchers_root(),
        state.mantle_ledger.leaders.vouchers_snapshot.root
    );
    assert!(helper.get_declarations_by_service(ServiceType::BlendNetwork).is_ok());
    assert_eq!(
        helper.get_declarations_by_service(ServiceType::DataAvailability).err(),
        Some(VerificationError::ServiceNotFound(ServiceType::DataAvailability))
    );
    assert_eq!(
        helper.get_declarations_by_id(&[1; 32]).err(),
        Some(VerificationError::DeclarationNotFound([1; 32]))
    );
    assert_eq!(
        helper.get_channel_transfer_threshold(&[1; 32]),
        Err(VerificationError::ChannelNotFound { channel_id: [1; 32] })
    );
}

#[test]
fn operations_work_on_the_state() {
    let config = config();
    let mut state = state_of(&[utxo()]);
    state.mantle_ledger.leaders.update_rewards(70);
    let context = |request| state.op_context(&config, request);
    let tx_hash = [66; 32];
    assert!(matches!(
        context(OpRequest::ChannelInscribe),
        Ok(OpContext::Channel { block_slot: 0, .. })
    ));
    assert!(matches!(context(OpRequest::ChannelConfig), Ok(OpContext::Channel { .. })));
    match context(OpRequest::ChannelWithdraw { tx_hash }) {
        Ok(OpContext::ChannelWithdraw { tx_hash: given, .. }) => assert_eq!(given, tx_hash),
        _ => panic!("the operation should work on channels"),
    }
    for request in [OpRequest::ChannelDeposit { tx_hash }, OpRequest::ChannelTransfer { tx_hash }] {
        match context(request) {
            Ok(OpContext::ChannelUtxos { utxos, tx_hash: given, .. }) => {
                assert!(utxos.contains(&utxo().id));
                assert_eq!(given, tx_hash);
            }
            _ => panic!("the operation should work on channels and outputs"),
        }
    }
    match context(OpRequest::Transfer) {
        Ok(OpContext::Transfer { utxos }) => assert!(utxos.contains(&utxo().id)),
        _ => panic!("the operation should work on outputs"),
    }
    match context(OpRequest::LeaderClaim { tx_hash }) {
        Ok(OpContext::LeaderClaim { reward_amount, claimable_rewards, tx_hash: given, .. }) => {
            assert_eq!((reward_amount, claimable_rewards), (0, 70));
            assert_eq!(given, tx_hash);
        }
        _ => panic!("the operation should work on rewards"),
    }
    let blend = OpRequest::SdpDeclare { service_type: ServiceType::BlendNetwork };
    match context(blend) {
        Ok(OpContext::SdpDeclare { epoch, declarations, min_stake, .. }) => {
            assert_eq!((epoch, declarations.count()), (0, 0));
            assert_eq!(min_stake, config.sdp_config.min_stake);
        }
        _ => panic!("the operation should work on declarations"),
    }
    let sdp_error = |error| Some(LedgerError::Mantle(mantle::Error::Sdp(error)));
    assert_eq!(
        context(OpRequest::SdpDeclare { service_type: ServiceType::DataAvailability }).err(),
        sdp_error(sdp::Error::ServiceNotFound(ServiceType::DataAvailability))
    );
    for request in [
        OpRequest::SdpActive { declaration_id: [6; 32] },
        OpRequest::SdpWithdraw { declaration_id: [6; 32] },
    ] {
        assert_eq!(
            context(request).err(),
            sdp_error(sdp::Error::DeclarationNotFound([6; 32]))
        );
        assert!(state_with_activity(0).op_context(&config, request).is_ok());
    }
}

#[test]
fn transactions_are_built_for_the_next_block() {
    let mut state = state_of(&[utxo()]);
    state.cryptarchia_ledger.execution_base_fee = 17;
    let channels = state.mantle_ledger.channels().clone().with([3; 32], channel(&[[50; 32]]));
    state.mantle_ledger.channels = channels;
    let context = state.tx_context();
    let known = context.channels.channel_state(&[3; 32]).unwrap();
    assert_eq!(known.accredited_keys, channel(&[[50; 32]]).accredited_keys);
    assert!(context.channels.channel_state(&[4; 32]).is_none());
    assert_eq!(context.gas_prices, prices(17, 1));
    assert_eq!(context.leader_reward_amount, 0);
}

#[test]
fn headers_out_of_range_are_recognised() {
    let state = state_of(&[utxo()]);
    assert!(state.accepts_header(1, &config()));
    assert!(state.accepts_header(100, &config()));
    assert!(!state.accepts_header(u64::MAX, &config()));

    let mut long = config();
    long.epoch_config.base_period_length = u64::MAX / 10;
    assert!(long.epoch_config.is_well_formed());
    assert!(!state.accepts_header(1, &long));
    long.epoch_config.base_period_length = u64::MAX / 9;
    assert!(!long.epoch_config.is_well_formed());
    let mut empty = config();
    empty.epoch_config.epoch_period_nonce_buffer = 0;
    assert!(!empty.epoch_config.is_well_formed());

    let epochs = config().epoch_config;
    let last = u64::from(u32::MAX) - 1;
    assert!(epochs.reaches_after(last * 100 + 99));
    assert!(!epochs.reaches_after((last + 1) * 100));

    let mut replicated = config();
    replicated.sdp_config.service_rewards_params.blend.num_blend_layers = 1 << 32;
    replicated.sdp_config.service_rewards_params.blend.data_replication_factor = (1 << 32) - 1;
    assert!(!replicated.sdp_config.service_rewards_params.blend.has_quota());
    assert!(!state.accepts_header(1, &replicated));
    replicated.sdp_config.service_rewards_params.blend.data_replication_factor -= 1;
    assert!(replicated.sdp_config.service_rewards_params.blend.has_quota());

    let mut counted = state_of(&[utxo()]);
    counted.block_number = u64::MAX;
    assert!(!counted.accepts_header(1, &config()));

    let mut earned = state_of(&[utxo()]);
    earned.mantle_ledger.leaders.claimable_rewards = u64::MAX;
    earned.mantle_ledger.leaders.pending_rewards = 1;
    assert!(earned.accepts_header(1, &config()));
    assert!(!earned.accepts_header(100, &config()));
}

#[test]
fn blocks_are_closed_when_rewards_can_be_counted() {
    let totals = BlockTotals { execution_gas: 5, storage_gas: 6, fee_burned: 700, fee_tip: 8 };
    let (leader, blend) = block_rewards(700, 10_000, 700);
    let state = state_of(&[utxo()]);
    assert!(state.can_reward(totals));
    let closed = state.close_block(totals).unwrap();
    assert_eq!(closed.mantle_ledger.leaders.pending_rewards, leader + 8);
    assert_eq!(
        closed.mantle_ledger.sdp.blend_network.as_ref().unwrap().rewards.epoch_income(),
        blend
    );
    assert_eq!(closed.cryptarchia_ledger.storage_gas_consumed_in_epoch, 6);
    assert_eq!(closed.cryptarchia_ledger.get_fee_from_index(0), 700);

    let mut rich = state_of(&[utxo()]);
    rich.mantle_ledger.leaders.pending_rewards = u64::MAX - leader - 8;
    assert!(rich.can_reward(totals));
    rich.mantle_ledger.leaders.pending_rewards += 1;
    assert!(!rich.can_reward(totals));

    let tipped = BlockTotals { fee_tip: u64::MAX, ..totals };
    assert!(leader > 0);
    assert!(rich.can_reward(tipped));
    assert_eq!(rich.close_block(tipped).err(), Some(LedgerError::GasOverflow));
}

#[test]
fn paths_of_aged_outputs_lead_to_their_root() {
    let state = State::from_utxos(
        &vec![utxo(), utxo_of(2, 5), utxo_of(3, 6)],
        &config(),
        ([5; 32], [6; 32]),
        prices(1, 1),
    );
    let epoch_state = state.epoch_state();
    assert_eq!(epoch_state.lottery_values(), ([5; 32], [6; 32]));
    let path = epoch_state.utxo_merkle_path(&utxo_of(2, 5)).unwrap();
    let mut node = utxo_of(2, 5).id;
    for sibling in &path {
        node = match sibling {
            MerkleNode::Left(hash) => Blake2bMerkleHasher::compress(hash, &node),
            MerkleNode::Right(hash) => Blake2bMerkleHasher::compress(&node, hash),
        };
    }
    assert_eq!(node, epoch_state.utxo_merkle_root());
    assert!(epoch_state.utxo_merkle_path(&utxo_of(4, 7)).is_none());
}
