use ledger::cryptarchia::epoch::{Declarations, EpochState};
use ledger::mantle::locked_notes;
use ledger::mantle::locked_notes::{LockedNotes, MinStake};
use ledger::mantle::sdp::rewards;
use ledger::mantle::sdp::rewards::blend::current_epoch::CoreNetwork;
use ledger::mantle::sdp::rewards::blend::target_epoch::ProofOutcome;
use ledger::mantle::sdp::rewards::blend::RewardsParameters;
use ledger::mantle::sdp::{
    is_active, ActiveExecution, Config, Error, RewardOrigin, SdpExecution, SdpLedger, ServiceParameters,
    ServiceParams, ServiceRewardsParameters,
};
use ledger::merkle::blake2b::Blake2bMerkleHasher;
use ledger::merkle::hasher::NodeHash;
use ledger::merkle::tree::{LeafExtractor, MerkleTree};
use ledger::types::{
    Declaration, DeclarationId, Epoch, HeaderEvent, Note, NoteId, OpFailure, ProviderId,
    ServiceType, Utxo, Value, ZkPublicKey,
};

struct NoteLeaf;

impl LeafExtractor<Utxo> for NoteLeaf {
    type Hasher = Blake2bMerkleHasher;

    fn leaf_of(key: [u8; 32], _item: Utxo) -> NodeHash {
        key
    }

    fn leaf(key: &[u8; 32], _item: &Utxo) -> NodeHash {
        *key
    }
}

type UtxoTree = MerkleTree<Utxo, NoteLeaf>;
type State = EpochState<NoteLeaf>;

const SNAPSHOT_FINALIZATION_DELAY: Epoch = 2;
const CORE: CoreNetwork = CoreNetwork { zk_root: [77; 32], core_quota: 30 };
const PROVIDER: ProviderId = [31; 32];
const ZK_ID: ZkPublicKey = [32; 32];
const FAILURE: OpFailure = OpFailure { code: 3 };

fn setup(inactivity_period: u32) -> Config {
    Config {
        service_params: ServiceParams {
            blend_network: Some(ServiceParameters { inactivity_period, epoch: 0 }),
        },
        service_rewards_params: ServiceRewardsParameters {
            blend: RewardsParameters {
                rounds_per_epoch: 10,
                num_blend_layers: 3,
                data_replication_factor: 0,
                minimum_network_size: 1,
                activity_threshold_sensitivity: 1,
            },
        },
        min_stake: MinStake { threshold: 1, timestamp: 0 },
    }
}

fn utxo(byte: u8, value: Value) -> Utxo {
    Utxo {
        id: [byte; 32],
        op_id: [byte; 32],
        output_index: 0,
        note: Note { value, pk: [byte; 32] },
    }
}

fn utxo_tree(utxos: &[Utxo]) -> UtxoTree {
    let mut tree = UtxoTree::new();
    for utxo in utxos {
        tree = tree.insert(utxo.id, *utxo).0;
    }
    tree
}

fn epoch_state(epoch: Epoch, active_declarations: Declarations) -> State {
    EpochState {
        epoch,
        nonce: [0; 32],
        utxos: UtxoTree::new(),
        total_stake: 100,
        lottery_0: [0; 32],
        lottery_1: [0; 32],
        active_declarations,
    }
}

fn first_epoch_state() -> State {
    epoch_state(0, Declarations::empty())
}

fn first_ledger(config: &Config) -> SdpLedger {
    SdpLedger::new(0)
        .with_blend_service(&config.service_rewards_params.blend, &first_epoch_state())
}

fn next_epoch_state(epoch: Epoch, ledger: &SdpLedger, config: &Config) -> State {
    epoch_state(epoch, ledger.active_declarations(epoch, &config.service_params))
}

/// Moves on to the next epoch.
fn advance(ledger: SdpLedger, config: &Config, last: State) -> (SdpLedger, State, Vec<HeaderEvent>) {
    let next = next_epoch_state(last.epoch + 1, &ledger, config);
    let (ledger, effect) = ledger.try_apply_header(config, &last, &next, CORE).ok().unwrap();
    (ledger, next, effect.events)
}

fn in_snapshot(id: &DeclarationId, epoch: Epoch, ledger: &SdpLedger, config: &Config) -> bool {
    ledger
        .active_declarations(epoch, &config.service_params)
        .for_service(&ServiceType::BlendNetwork)
        .is_some_and(|declarations| declarations.lookup(id).is_some())
}

/// What the execution of a declaration leaves.
fn declare(ledger: &SdpLedger, config: &Config, id: DeclarationId, note: &Utxo) -> SdpExecution {
    let declarations =
        ledger.get_declarations_by_service(ServiceType::BlendNetwork).unwrap().clone();
    SdpExecution {
        locked_notes: ledger
            .locked_notes()
            .clone()
            .lock(&utxo_tree(&[*note]), &config.min_stake, ServiceType::BlendNetwork, &note.id)
            .ok()
            .unwrap(),
        declarations: declarations.with(
            id,
            Declaration {
                service_type: ServiceType::BlendNetwork,
                provider_id: PROVIDER,
                locked_note_id: note.id,
                zk_id: ZK_ID,
                created: ledger.epoch,
                active: ledger.epoch + SNAPSHOT_FINALIZATION_DELAY,
                withdraw_at: None,
                nonce: 0,
            },
        ),
        events: Vec::new(),
    }
}

fn with_declaration(ledger: SdpLedger, config: &Config, id: DeclarationId, note: &Utxo) -> SdpLedger {
    let execution = declare(&ledger, config, id, note);
    ledger.try_apply_sdp_declaration(ServiceType::BlendNetwork, Ok(execution)).ok().unwrap().0
}

/// What the execution of an activity message leaves.
fn activity(ledger: &SdpLedger, id: &DeclarationId) -> ActiveExecution {
    let declarations =
        ledger.get_declarations_by_service(ServiceType::BlendNetwork).unwrap().clone();
    let before = *ledger.get_declaration(id).unwrap();
    ActiveExecution {
        declarations: declarations
            .with(*id, Declaration { active: ledger.epoch, nonce: before.nonce + 1, ..before }),
        events: Vec::new(),
    }
}

/// What the execution of a withdrawal leaves.
fn withdrawal(ledger: &SdpLedger, id: &DeclarationId) -> SdpExecution {
    let declarations =
        ledger.get_declarations_by_service(ServiceType::BlendNetwork).unwrap().clone();
    let before = *ledger.get_declaration(id).unwrap();
    SdpExecution {
        locked_notes: ledger.locked_notes().clone(),
        declarations: declarations.with(
            *id,
            Declaration {
                withdraw_at: Some(ledger.epoch + SNAPSHOT_FINALIZATION_DELAY),
                nonce: before.nonce + 1,
                ..before
            },
        ),
        events: Vec::new(),
    }
}

fn withdrawn(ledger: SdpLedger, config: &Config, id: &DeclarationId) -> SdpLedger {
    let execution = withdrawal(&ledger, id);
    ledger.apply_withdrawn_msg(id, config, Ok(execution)).ok().unwrap().0
}

#[test]
fn active_declarations_filters_out_inactive() {
    let config = setup(2);
    let (mut ledger, mut last, _) = advance(first_ledger(&config), &config, first_epoch_state());
    let id = [1; 32];
    ledger = with_declaration(ledger, &config, id, &utxo(1, 10));

    for _ in 2..=6 {
        (ledger, last, _) = advance(ledger, &config, last);
    }
    assert_eq!(last.epoch, 6);

    assert!(ledger.get_declaration(&id).is_some());
    assert!(!in_snapshot(&id, 6, &ledger, &config));
    assert!(in_snapshot(&id, 5, &ledger, &config));
}

#[test]
fn active_declarations_includes_genesis_at_epochs_0_and_1() {
    let config = setup(2);
    let id = [1; 32];
    let ledger = with_declaration(first_ledger(&config), &config, id, &utxo(1, 10));

    assert_eq!(ledger.get_declaration(&id).unwrap().active, SNAPSHOT_FINALIZATION_DELAY);
    for epoch in [0, 1] {
        assert!(in_snapshot(&id, epoch, &ledger, &config));
    }
}

#[test]
fn active_declarations_filters_out_withdrawn_at_effective_epoch() {
    let config = setup(100);
    let (mut ledger, _, _) = advance(first_ledger(&config), &config, first_epoch_state());
    let id = [1; 32];
    ledger = with_declaration(ledger, &config, id, &utxo(1, 10));
    ledger = withdrawn(ledger, &config, &id);

    let withdraw_at = ledger.get_declaration(&id).unwrap().withdraw_at.unwrap();
    assert_eq!(withdraw_at, 3);
    assert!(ledger.get_declaration(&id).is_some());
    for epoch in 0..withdraw_at {
        assert!(in_snapshot(&id, epoch, &ledger, &config));
    }
    for epoch in withdraw_at..=withdraw_at + 2 {
        assert!(!in_snapshot(&id, epoch, &ledger, &config));
    }
}

#[test]
fn active_message_refreshes_declaration() {
    let config = setup(2);
    let (ledger, epoch1, _) = advance(first_ledger(&config), &config, first_epoch_state());
    let id = [1; 32];
    let ledger = with_declaration(ledger, &config, id, &utxo(1, 10));
    assert!(ledger
        .get_declarations_by_service(ServiceType::BlendNetwork)
        .unwrap()
        .lookup(&id)
        .is_some());

    let (ledger, epoch2, _) = advance(ledger, &config, epoch1);
    let (ledger, epoch3, _) = advance(ledger, &config, epoch2);
    let (ledger, epoch4, _) = advance(ledger, &config, epoch3);
    assert_eq!(ledger.get_declaration(&id).unwrap().active, 3);

    let execution = activity(&ledger, &id);
    let (ledger, _) = ledger
        .apply_active_msg(&id, &config, Ok(execution), 3, ProofOutcome::Distance(5))
        .ok()
        .unwrap();
    assert_eq!(ledger.get_declaration(&id).unwrap().active, 4);

    let (ledger, epoch5, _) = advance(ledger, &config, epoch4);
    let (ledger, epoch6, _) = advance(ledger, &config, epoch5);
    let (ledger, _, _) = advance(ledger, &config, epoch6);
    assert_eq!(ledger.get_declaration(&id).unwrap().active, 4);
    assert!(!in_snapshot(&id, 7, &ledger, &config));
    assert!(in_snapshot(&id, 6, &ledger, &config));
}

#[test]
fn rewards_distributed_to_active_provider() {
    let config = setup(2);
    let (ledger, epoch1, _) = advance(first_ledger(&config), &config, first_epoch_state());
    let id = [1; 32];
    let ledger = with_declaration(ledger, &config, id, &utxo(1, 10));
    let (ledger, epoch2, _) = advance(ledger, &config, epoch1);
    let (mut ledger, epoch3, _) = advance(ledger, &config, epoch2);

    let income: Value = 1000;
    ledger.add_blend_income(income);
    let (ledger, epoch4, _) = advance(ledger, &config, epoch3);

    let execution = activity(&ledger, &id);
    let (ledger, _) = ledger
        .apply_active_msg(&id, &config, Ok(execution), 3, ProofOutcome::Distance(5))
        .ok()
        .unwrap();

    let epoch5 = next_epoch_state(5, &ledger, &config);
    let (_, effect) = ledger.try_apply_header(&config, &epoch4, &epoch5, CORE).ok().unwrap();
    assert_eq!(effect.rewards.count(), 1);
    assert_eq!(effect.rewards.lookup(&ZK_ID), Some(&income));

    assert_eq!(effect.reward_notes(), vec![Note { value: income, pk: ZK_ID }]);
    let origin = RewardOrigin { pk: ZK_ID, id: [9; 32], op_id: [8; 32], output_index: 3 };
    let effect = effect.distributed(&vec![origin]);
    let reward = Utxo {
        id: [9; 32],
        op_id: [8; 32],
        output_index: 3,
        note: Note { value: income, pk: ZK_ID },
    };
    assert_eq!(effect.reward_utxos, vec![reward]);
    assert_eq!(
        effect.events,
        vec![HeaderEvent::SdpRewardDistributed {
            service_type: ServiceType::BlendNetwork,
            utxo: reward
        }]
    );
}

#[test]
fn accepts_reused_ids_after_withdrawn_epoch() {
    let config = setup(20);
    let id_a = [1; 32];
    let mut ledger = with_declaration(first_ledger(&config), &config, id_a, &utxo(1, 10));
    ledger = withdrawn(ledger, &config, &id_a);
    let withdraw_epoch = ledger.get_declaration(&id_a).unwrap().withdraw_at.unwrap();

    let mut last = first_epoch_state();
    for _ in 1..=withdraw_epoch {
        (ledger, last, _) = advance(ledger, &config, last);
    }
    assert_eq!(last.epoch, withdraw_epoch);
    assert!(ledger.get_declaration(&id_a).is_none());

    let id_b = [2; 32];
    let ledger = with_declaration(ledger, &config, id_b, &utxo(2, 10));
    let declaration = ledger.get_declaration(&id_b).unwrap();
    assert_eq!(declaration.provider_id, PROVIDER);
    assert_eq!(declaration.zk_id, ZK_ID);
}

fn count_unlock_events(events: &[HeaderEvent], note: NoteId, id: DeclarationId) -> usize {
    let expected = HeaderEvent::SdpNoteUnlocked {
        note_id: note,
        service_type: ServiceType::BlendNetwork,
        declaration_id: id,
    };
    events.iter().filter(|event| **event == expected).count()
}

#[test]
fn test_withdraw_provider() {
    let config = setup(20);
    let note = utxo(1, 10);
    let id = [1; 32];
    let mut ledger = with_declaration(first_ledger(&config), &config, id, &note);
    assert!(ledger.get_declaration(&id).is_some());

    ledger = withdrawn(ledger, &config, &id);
    let withdraw_epoch = ledger.get_declaration(&id).unwrap().withdraw_at.unwrap();

    let mut last = first_epoch_state();
    for _ in 1..withdraw_epoch {
        let events;
        (ledger, last, events) = advance(ledger, &config, last);
        assert_eq!(count_unlock_events(&events, note.id, id), 0);
    }
    assert!(ledger.get_declaration(&id).is_some());
    assert!(ledger.locked_notes().is_locked_for_service(&note.id, &ServiceType::BlendNetwork));

    let (ledger, _, events) = advance(ledger, &config, last);
    assert_eq!(count_unlock_events(&events, note.id, id), 1);
    assert!(ledger.get_declaration(&id).is_none());
    assert!(!ledger.locked_notes().is_locked_for_service(&note.id, &ServiceType::BlendNetwork));
}

#[test]
fn _test_sdp_withdraw_operation() {
    let config = setup(20);
    let id = [1; 32];
    let ledger = with_declaration(first_ledger(&config), &config, id, &utxo(1, 10));
    let execution = withdrawal(&ledger, &id);
    let (ledger, events) = ledger.apply_withdrawn_msg(&id, &config, Ok(execution)).ok().unwrap();
    assert_eq!(events, vec![]);
    let declaration = ledger.get_declaration(&id).unwrap();
    assert_eq!(declaration.withdraw_at, Some(2));
    assert_eq!(declaration.nonce, 1);
}

#[test]
fn messages_for_unknown_declarations_are_rejected() {
    let config = setup(2);
    let id = [1; 32];
    let execution = ActiveExecution {
        declarations: ledger::mantle::sdp::Declarations::empty(),
        events: Vec::new(),
    };
    let error = first_ledger(&config)
        .apply_active_msg(&id, &config, Ok(execution), 0, ProofOutcome::Invalid)
        .err()
        .unwrap();
    assert_eq!(error, Error::DeclarationNotFound(id));
    let error =
        first_ledger(&config).apply_withdrawn_msg(&id, &config, Err(FAILURE)).err().unwrap();
    assert_eq!(error, Error::DeclarationNotFound(id));
}

#[test]
fn declarations_for_unknown_services_are_rejected() {
    let config = setup(2);
    let execution = declare(&first_ledger(&config), &config, [1; 32], &utxo(1, 10));
    let error = first_ledger(&config)
        .try_apply_sdp_declaration(ServiceType::DataAvailability, Ok(execution))
        .err()
        .unwrap();
    assert_eq!(error, Error::ServiceNotFound(ServiceType::DataAvailability));
}

#[test]
fn failed_operations_are_reported() {
    let config = setup(2);
    let error = first_ledger(&config)
        .try_apply_sdp_declaration(ServiceType::BlendNetwork, Err(FAILURE))
        .err()
        .unwrap();
    assert_eq!(error, Error::SdpOp(FAILURE));
}

#[test]
fn missing_parameters_are_reported() {
    let config = setup(2);
    let id = [1; 32];
    let ledger = with_declaration(first_ledger(&config), &config, id, &utxo(1, 10));
    let bare = Config { service_params: ServiceParams { blend_network: None }, ..config };
    let execution = withdrawal(&ledger, &id);
    let error = ledger.apply_withdrawn_msg(&id, &bare, Ok(execution)).err().unwrap();
    assert_eq!(error, Error::ServiceParamsNotFound(ServiceType::BlendNetwork));
}

#[test]
fn rejected_activity_is_reported() {
    let config = setup(2);
    let id = [1; 32];
    let ledger = with_declaration(first_ledger(&config), &config, id, &utxo(1, 10));
    let execution = activity(&ledger, &id);
    let error = ledger
        .apply_active_msg(&id, &config, Ok(execution), 0, ProofOutcome::Distance(1))
        .err()
        .unwrap();
    assert_eq!(error, Error::RewardsError(rewards::Error::TargetEpochNotSet));
}

#[test]
fn genesis_declarations_are_applied() {
    let config = setup(2);
    let ledger = first_ledger(&config);
    let execution = declare(&ledger, &config, [1; 32], &utxo(1, 10));
    let (ledger, _) = SdpLedger::from_genesis(
        &config,
        &first_epoch_state(),
        vec![(ServiceType::BlendNetwork, Ok(execution))],
    )
    .ok()
    .unwrap();
    assert!(ledger.get_declaration(&[1; 32]).is_some());
    assert!(ledger.locked_notes().contains(&[1; 32]));
    assert!(ledger.get_declarations_by_id(&[1; 32]).is_some());
    assert!(ledger.get_declarations_by_id(&[2; 32]).is_none());
    assert_eq!(ledger.declarations().blend_network.unwrap().count(), 1);

    let error = SdpLedger::from_genesis(
        &config,
        &first_epoch_state(),
        vec![(ServiceType::BlendNetwork, Err(FAILURE))],
    )
    .err()
    .unwrap();
    assert_eq!(error, Error::SdpOp(FAILURE));
}

#[test]
fn activity_ends_with_inactivity_or_withdrawal() {
    let params = ServiceParameters { inactivity_period: 2, epoch: 0 };
    let declaration = Declaration {
        service_type: ServiceType::BlendNetwork,
        provider_id: PROVIDER,
        locked_note_id: [1; 32],
        zk_id: ZK_ID,
        created: 0,
        active: 3,
        withdraw_at: None,
        nonce: 0,
    };
    assert!(is_active(&declaration, 5, params));
    assert!(!is_active(&declaration, 6, params));
    let withdrawn = Declaration { withdraw_at: Some(4), ..declaration };
    assert!(is_active(&withdrawn, 3, params));
    assert!(!is_active(&withdrawn, 4, params));
    let lasting = Declaration { active: u32::MAX, ..declaration };
    assert!(is_active(&lasting, u32::MAX, params));
}

#[test]
fn a_lock_can_be_undone() {
    let note = utxo(1, 10);
    let tree = utxo_tree(&[note]);
    let stake = MinStake { threshold: 10, timestamp: 0 };
    let blend = ServiceType::BlendNetwork;
    let data = ServiceType::DataAvailability;

    let locked = LockedNotes::new().lock(&tree, &stake, blend, &note.id).ok().unwrap();
    let both = locked.lock(&tree, &stake, data, &note.id).ok().unwrap();
    assert!(both.is_locked_for_service(&note.id, &blend));
    assert!(both.is_locked_for_service(&note.id, &data));

    let one = both.unlock(blend, &note.id).ok().unwrap();
    assert!(!one.is_locked_for_service(&note.id, &blend));
    assert!(one.is_locked_for_service(&note.id, &data));
    assert!(one.contains(&note.id));

    let none = one.unlock(data, &note.id).ok().unwrap();
    assert!(!none.contains(&note.id));
    assert_eq!(none.services(&note.id), None);
}

#[test]
fn locks_are_refused() {
    let note = utxo(1, 10);
    let tree = utxo_tree(&[note]);
    let stake = MinStake { threshold: 10, timestamp: 0 };
    let high = MinStake { threshold: 11, timestamp: 0 };
    let blend = ServiceType::BlendNetwork;
    let data = ServiceType::DataAvailability;

    assert_eq!(
        LockedNotes::new().lock(&tree, &stake, blend, &[2; 32]).err(),
        Some(locked_notes::Error::NoteDoesNotExist([2; 32]))
    );
    assert_eq!(
        LockedNotes::new().lock(&tree, &high, blend, &note.id).err(),
        Some(locked_notes::Error::NoteInsufficientValue { note_id: note.id, value: 10 })
    );
    let locked = LockedNotes::new().lock(&tree, &stake, blend, &note.id).ok().unwrap();
    assert_eq!(
        locked.clone().lock(&tree, &stake, blend, &note.id).err(),
        Some(locked_notes::Error::NoteAlreadyUsedForService {
            note_id: note.id,
            service_type: blend
        })
    );
    assert_eq!(
        locked.unlock(data, &note.id).err(),
        Some(locked_notes::Error::NoteNotLockedForService { note_id: note.id, service_type: data })
    );
    assert_eq!(
        LockedNotes::new().unlock(blend, &note.id).err(),
        Some(locked_notes::Error::NoteNotLocked(note.id))
    );
}
