use std::sync::Arc;

use ed25519_dalek::{Signer, SigningKey};
use ledger::collections::trie_map::TrieMap;
use ledger::config::EpochConfig;
use ledger::mantle::leader;
use ledger::mantle::locked_notes;
use ledger::mantle::locked_notes::MinStake;
use ledger::merkle::blake2b::{blake2b, Blake2bMerkleHasher};
use ledger::merkle::hasher::NodeHash;
use ledger::merkle::tree::{LeafExtractor, MerkleTree};
use ledger::session::channel;
use ledger::session::config;
use ledger::session::mantle::{Error, LedgerState, Op, OpProof};
use ledger::session::membership::{
    DeclarationMsg, DeclarationState, DeclareOp, FinalizedDeclarationState, SdpLedger,
    SdpLedgerError, ServiceParameters, ServiceParams,
};
use ledger::session::services;
use ledger::signature::is_signed;
use ledger::types::{Note, OpFailure, ServiceType, Utxo};

struct NoteLeaf;

impl LeafExtractor<Utxo> for NoteLeaf {
    type Hasher = Blake2bMerkleHasher;

    fn leaf_of(key: [u8; 32], _item: Utxo) -> NodeHash {
        key
    }

    fn leaf(key: &[u8; 32], _item: &Utxo) -> NodeHash {
        *key
    }
}

type Tree = MerkleTree<Utxo, NoteLeaf>;
type State = LedgerState<Blake2bMerkleHasher>;

const BLEND: ServiceType = ServiceType::BlendNetwork;
const DATA: ServiceType = ServiceType::DataAvailability;
const TX_HASH: [u8; 32] = [66; 32];
const ROOT: [u8; 32] = [0; 32];
const LOCKED: OpFailure = OpFailure { code: 7 };

fn utxo(byte: u8) -> Utxo {
    Utxo {
        id: blake2b(&[byte]),
        op_id: [byte; 32],
        output_index: 0,
        note: Note { value: 10_000, pk: [7; 32] },
    }
}

fn tree() -> Tree {
    MerkleTree::from_items(vec![(utxo(1).id, utxo(1))])
}

fn params() -> ServiceParams {
    ServiceParams {
        blend_network: Some(ServiceParameters {
            inactivity_period: 20,
            lock_period: 10,
            retention_period: 1000,
            timestamp: 0,
            session_duration: 10,
        }),
        data_availability: Some(ServiceParameters {
            inactivity_period: 10,
            lock_period: 5,
            retention_period: 100,
            timestamp: 0,
            session_duration: 5,
        }),
    }
}

fn test_config() -> config::Config {
    config::Config {
        epoch_config: EpochConfig {
            base_period_length: 1,
            epoch_stake_distribution_stabilization: 4,
            epoch_period_nonce_buffer: 3,
            epoch_period_nonce_stabilization: 3,
        },
        service_params: params(),
        min_stake: MinStake { threshold: 1, timestamp: 0 },
    }
}

fn setup() -> services::Config {
    services::Config {
        service_params: params(),
        min_stake: MinStake { threshold: 1, timestamp: 0 },
    }
}

fn signing_key(seed: u8) -> SigningKey {
    SigningKey::from_bytes(&[seed; 32])
}

fn public_key(seed: u8) -> [u8; 32] {
    signing_key(seed).verifying_key().to_bytes()
}

fn sign(seed: u8) -> [u8; 64] {
    signing_key(seed).sign(&TX_HASH).to_bytes()
}

fn declare_op(byte: u8, service_type: ServiceType) -> DeclareOp {
    DeclareOp {
        declaration_id: [byte; 32],
        service_type,
        locked_note_id: utxo(byte).id,
        provider_id: public_key(0),
        zk_id: [byte + 100; 32],
        locators: Arc::new(vec![vec![byte]]),
    }
}

#[test]
fn signatures_are_verified() {
    assert!(is_signed(&public_key(1), &TX_HASH, &sign(1)));
    assert!(!is_signed(&public_key(2), &TX_HASH, &sign(1)));
    assert!(!is_signed(&public_key(1), &[65; 32], &sign(1)));
    let mut other = sign(1);
    other[0] ^= 1;
    assert!(!is_signed(&public_key(1), &TX_HASH, &other));
    // Not the encoding of a point.
    let mut key = [0xff; 32];
    key[0] = 2;
    assert!(!is_signed(&key, &TX_HASH, &sign(1)));
}

fn blob(channel: u8, parent: [u8; 32], id: u8, signer: [u8; 32]) -> (Op, Option<OpProof>) {
    (Op::ChannelBlob { channel: [channel; 32], parent, id: [id; 32], signer }, None)
}

fn apply(state: State, ops: Vec<(Op, Option<OpProof>)>) -> Result<(State, i128), Error> {
    state.try_apply_ops(0, &test_config(), &tree(), TX_HASH, ops)
}

#[test]
fn test_channel_blob_operation() {
    assert!(apply(State::new(), vec![blob(1, ROOT, 42, public_key(0))]).is_ok());
}

#[test]
fn mod_test_channel_inscribe_operation() {
    let op = Op::ChannelInscribe {
        channel: [2; 32],
        parent: ROOT,
        id: [9; 32],
        signer: public_key(0),
    };
    let (state, balance) = apply(State::new(), vec![(op, None)]).ok().unwrap();
    assert!(state.channels.channels.lookup(&[2; 32]).is_some());
    assert_eq!(balance, 0);
}

#[test]
fn test_channel_set_keys_operation() {
    let op = Op::ChannelSetKeys { channel: [3; 32], keys: vec![public_key(0)] };
    let (state, _) =
        apply(State::new(), vec![(op, Some(OpProof::Ed25519Sig(sign(0))))]).ok().unwrap();
    let channel = state.channels.channels.lookup(&[3; 32]).unwrap();
    assert_eq!(*channel.keys, vec![public_key(0)]);
}

#[test]
fn test_unsupported_operation() {
    assert_eq!(apply(State::new(), vec![(Op::Native, None)]).err(), Some(Error::UnsupportedOp));
}

#[test]
fn test_ops_missing_proofs() {
    let op = Op::ChannelSetKeys { channel: [5; 32], keys: vec![public_key(0)] };
    assert_eq!(apply(State::new(), vec![(op, None)]).err(), Some(Error::UnsupportedOp));
}

#[test]
fn mod_test_invalid_parent_error() {
    let (state, _) = apply(State::new(), vec![blob(5, ROOT, 1, public_key(0))]).ok().unwrap();
    let error = apply(state.clone(), vec![blob(5, [99; 32], 2, public_key(0))]).err();
    assert!(matches!(error, Some(Error::Channel(channel::Error::InvalidParent { .. }))));

    let error = apply(state, vec![blob(8, [1; 32], 3, public_key(0))]).err();
    assert!(matches!(error, Some(Error::Channel(channel::Error::InvalidParent { .. }))));
}

#[test]
fn mod_test_unauthorized_signer_error() {
    let (state, _) = apply(State::new(), vec![blob(6, ROOT, 1, public_key(0))]).ok().unwrap();
    let error = apply(state, vec![blob(6, [1; 32], 2, public_key(3))]).err();
    assert_eq!(
        error,
        Some(Error::Channel(channel::Error::UnauthorizedSigner {
            channel_id: [6; 32],
            signer: public_key(3)
        }))
    );
}

#[test]
fn test_empty_keys_error() {
    let op = Op::ChannelSetKeys { channel: [7; 32], keys: vec![] };
    let error = apply(State::new(), vec![(op, Some(OpProof::Ed25519Sig(sign(0))))]).err();
    assert_eq!(
        error,
        Some(Error::Channel(channel::Error::EmptyKeys { channel_id: [7; 32] }))
    );
}

#[test]
fn keys_are_set_by_the_first_key_alone() {
    let set = |signer: u8| {
        let op = Op::ChannelSetKeys { channel: [6; 32], keys: vec![public_key(4)] };
        (op, Some(OpProof::Ed25519Sig(sign(signer))))
    };
    let (state, _) = apply(State::new(), vec![blob(6, ROOT, 1, public_key(0))]).ok().unwrap();
    let error = apply(state.clone(), vec![set(3)]).err();
    assert_eq!(error, Some(Error::Channel(channel::Error::InvalidSignature)));
    let (state, _) = apply(state, vec![set(0)]).ok().unwrap();
    let channel = state.channels.channels.lookup(&[6; 32]).unwrap();
    assert_eq!(*channel.keys, vec![public_key(4)]);
    assert_eq!(channel.tip, [1; 32]);
}

#[test]
fn mod_test_multiple_operations_in_transaction() {
    let inscribe = Op::ChannelInscribe {
        channel: [20; 32],
        parent: ROOT,
        id: [52; 32],
        signer: public_key(2),
    };
    let set_keys =
        Op::ChannelSetKeys { channel: [10; 32], keys: vec![public_key(3), public_key(4)] };
    let (state, _) = apply(
        State::new(),
        vec![
            blob(10, ROOT, 42, public_key(1)),
            (inscribe, None),
            (set_keys, Some(OpProof::Ed25519Sig(sign(1)))),
            blob(10, [42; 32], 43, public_key(4)),
        ],
    )
    .ok()
    .unwrap();
    assert!(state.channels.channels.lookup(&[20; 32]).is_some());
    assert_eq!(state.channels.channels.lookup(&[10; 32]).unwrap().tip, [43; 32]);
}

fn zk_sig() -> Option<OpProof> {
    Some(OpProof::ZkSig { valid: true })
}

fn declare_proof(zk_valid: bool, signer: u8) -> Option<OpProof> {
    Some(OpProof::ZkAndEd25519Sigs { zk_valid, ed25519_sig: sign(signer) })
}

#[test]
fn messages_come_with_a_signature() {
    let signed = |(op, _): (Op, Option<OpProof>), seed: u8| {
        (op, Some(OpProof::Ed25519Sig(sign(seed))))
    };
    let inscribe = |channel: u8, parent: [u8; 32], id: u8, signer: u8| {
        let signer = public_key(signer);
        (Op::ChannelInscribe { channel: [channel; 32], parent, id: [id; 32], signer }, None)
    };

    let (state, balance) =
        apply(State::new(), vec![signed(blob(5, ROOT, 1, public_key(0)), 0)]).ok().unwrap();
    assert_eq!(balance, 0);
    let channel = state.channels.channels.lookup(&[5; 32]).unwrap();
    assert_eq!(channel.tip, [1; 32]);
    assert_eq!(*channel.keys, vec![public_key(0)]);
    let (other, balance) =
        apply(State::new(), vec![signed(inscribe(2, ROOT, 9, 0), 0)]).ok().unwrap();
    assert_eq!(balance, 0);
    assert_eq!(other.channels.channels.lookup(&[2; 32]).unwrap().tip, [9; 32]);

    for op in [blob(5, [99; 32], 2, public_key(0)), inscribe(5, [99; 32], 2, 0)] {
        let error = apply(state.clone(), vec![signed(op, 0)]).err();
        assert_eq!(
            error,
            Some(Error::Channel(channel::Error::InvalidParent {
                channel_id: [5; 32],
                parent: [99; 32],
                actual: [1; 32],
            }))
        );
    }
    for op in [blob(5, [1; 32], 2, public_key(3)), inscribe(5, [1; 32], 2, 3)] {
        let error = apply(state.clone(), vec![signed(op, 3)]).err();
        assert_eq!(
            error,
            Some(Error::Channel(channel::Error::UnauthorizedSigner {
                channel_id: [5; 32],
                signer: public_key(3),
            }))
        );
    }

    let set_keys =
        Op::ChannelSetKeys { channel: [5; 32], keys: vec![public_key(3), public_key(4)] };
    let ops = vec![
        signed(inscribe(20, ROOT, 52, 2), 2),
        signed((set_keys, None), 0),
        signed(blob(5, [1; 32], 43, public_key(4)), 4),
    ];
    let (state, _) = apply(state, ops).ok().unwrap();
    assert!(state.channels.channels.lookup(&[20; 32]).is_some());
    assert_eq!(state.channels.channels.lookup(&[5; 32]).unwrap().tip, [43; 32]);

    // The proofs of other operations are not for messages.
    let (op, _) = blob(5, [43; 32], 44, public_key(4));
    assert_eq!(apply(state.clone(), vec![(op, zk_sig())]).err(), Some(Error::UnsupportedOp));
    let (op, _) = inscribe(5, [43; 32], 44, 4);
    assert_eq!(apply(state, vec![(op, declare_proof(true, 4))]).err(), Some(Error::UnsupportedOp));
}

#[test]
fn operations_after_a_failure_are_not_reached() {
    let state = State::new();
    assert_eq!(state.leaders.n_claimable_vouchers, 0);
    let rewards_root = state.leaders.claimable_vouchers_root;
    let claim = |nullifier: u8| {
        (Op::LeaderClaim { voucher_nullifier: [nullifier; 32], rewards_root }, None)
    };
    let (claimed, balance) = apply(state.clone(), vec![claim(1)]).ok().unwrap();
    assert_eq!(balance, 0);
    assert_eq!(
        apply(claimed.clone(), vec![claim(1)]).err(),
        Some(Error::Leader(leader::Error::DuplicatedVoucherNullifier))
    );
    // One more was claimed than there are vouchers, but the next claim is not reached.
    let ops = vec![claim(1), (Op::Native, None), claim(2)];
    assert_eq!(apply(state, ops).err(), Some(Error::UnsupportedOp));
    let ops = vec![(Op::Native, None), claim(2), claim(3)];
    assert_eq!(apply(claimed, ops).err(), Some(Error::UnsupportedOp));
}

#[test]
fn test_sdp_withdraw_operation() {
    let config = test_config();
    let tree = tree();
    let op = declare_op(1, BLEND);
    let id = op.declaration_id;
    let (state, _) = State::new()
        .try_apply_ops(0, &config, &tree, TX_HASH, vec![(Op::SdpDeclare(op.clone()), declare_proof(true, 0))])
        .ok()
        .unwrap();
    let declared = state.sdp.get_declaration(&id).unwrap().clone();
    assert!(state.locked_notes.contains(&op.locked_note_id));

    let active = DeclarationState { active: 1, ..declared.clone() };
    let op_active =
        Op::SdpActive { msg: DeclarationMsg { declaration_id: id, nonce: 1 }, transition: Ok(active) };
    let (state, _) = state
        .try_apply_ops(1, &config, &tree, TX_HASH, vec![(op_active, zk_sig())])
        .ok()
        .unwrap();
    let declaration = state.sdp.get_declaration(&id).unwrap().clone();
    assert_eq!(declaration.active, 1);
    assert_eq!(declaration.nonce, 1);

    let msg = DeclarationMsg { declaration_id: id, nonce: 2 };
    let early = Op::SdpWithdraw { msg, transition: Err(LOCKED) };
    let error = state
        .clone()
        .try_apply_ops(3, &config, &tree, TX_HASH, vec![(early, zk_sig())])
        .err();
    assert_eq!(error, Some(Error::Sdp(SdpLedgerError::SdpStateError(LOCKED))));

    let withdrawn = DeclarationState { withdrawn: Some(11), ..declaration.clone() };
    let late = Op::SdpWithdraw { msg, transition: Ok(withdrawn) };
    let (state, _) = state
        .try_apply_ops(11, &config, &tree, TX_HASH, vec![(late, zk_sig())])
        .ok()
        .unwrap();
    let declaration = state.sdp.get_declaration(&id).unwrap().clone();
    assert!(!state.locked_notes.contains(&op.locked_note_id));
    assert_eq!(declaration.active, 1);
    assert_eq!(declaration.withdrawn, Some(11));
    assert_eq!(declaration.nonce, 2);
}

#[test]
fn operations_are_signed_by_note_and_provider() {
    let config = test_config();
    let op = declare_op(1, BLEND);
    let signers = Some([utxo(1).note.pk, op.zk_id]);
    let msg = DeclarationMsg { declaration_id: op.declaration_id, nonce: 1 };
    let active = Op::SdpActive { msg, transition: Err(LOCKED) };
    assert_eq!(State::new().zk_signers(&tree(), &Op::SdpDeclare(op.clone())), signers);
    assert_eq!(State::new().zk_signers(&tree(), &Op::SdpDeclare(declare_op(2, BLEND))), None);
    assert_eq!(State::new().zk_signers(&tree(), &active), None);
    assert_eq!(State::new().zk_signers(&tree(), &Op::Native), None);

    let (state, _) =
        apply(State::new(), vec![(Op::SdpDeclare(op.clone()), declare_proof(true, 0))]).ok().unwrap();
    assert_eq!(state.zk_signers(&tree(), &active), signers);
    let (declaration, params) =
        state.transition_inputs(&config, &op.declaration_id).unwrap();
    assert_eq!(declaration, state.sdp.get_declaration(&op.declaration_id).unwrap().clone());
    assert_eq!(Some(params), config.service_params.blend_network);
    assert!(state.transition_inputs(&config, &[9; 32]).is_none());
}

#[test]
fn session_declarations_are_refused() {
    let declare = |op: DeclareOp, proof: Option<OpProof>| {
        apply(State::new(), vec![(Op::SdpDeclare(op.clone()), proof)]).err()
    };
    let op = declare_op(1, BLEND);
    assert_eq!(declare(op.clone(), declare_proof(false, 0)), Some(Error::InvalidSignature));
    assert_eq!(declare(op.clone(), declare_proof(true, 5)), Some(Error::InvalidSignature));
    let other = declare_op(2, BLEND);
    assert_eq!(
        declare(other.clone(), declare_proof(true, 0)),
        Some(Error::NoteNotFound(other.locked_note_id))
    );
    let twice = apply(
        State::new(),
        vec![
            (Op::SdpDeclare(op.clone()), declare_proof(true, 0)),
            (Op::SdpDeclare(op.clone()), declare_proof(true, 0)),
        ],
    )
    .err();
    assert!(matches!(
        twice,
        Some(Error::LockedNotes(locked_notes::Error::NoteAlreadyUsedForService { .. }))
    ));
    let other_service = DeclareOp { service_type: DATA, ..op.clone() };
    let duplicate = apply(
        State::new(),
        vec![
            (Op::SdpDeclare(op.clone()), declare_proof(true, 0)),
            (Op::SdpDeclare(other_service), declare_proof(true, 0)),
        ],
    )
    .err();
    assert_eq!(
        duplicate,
        Some(Error::Sdp(SdpLedgerError::SdpDuplicateDeclaration(op.declaration_id)))
    );
}

#[test]
fn leaders_claim_within_transactions() {
    let mut state = State::new().try_apply_header(1, [1; 32]).ok().unwrap();
    state = state.try_apply_header(2, [2; 32]).ok().unwrap();
    state.leaders.claimable_rewards = 90;
    let root = state.leaders.claimable_vouchers_root;
    let claim = |root| (Op::LeaderClaim { voucher_nullifier: [4; 32], rewards_root: root }, None);
    let (after, balance) = apply(state.clone(), vec![claim(root)]).ok().unwrap();
    assert_eq!(balance, 90);
    assert_eq!(after.leaders.claimable_rewards, 0);
    assert!(matches!(apply(state, vec![claim([9; 32])]).err(), Some(Error::Leader(_))));
}

fn finalized(
    entries: &[([u8; 32], FinalizedDeclarationState)],
) -> TrieMap<Result<FinalizedDeclarationState, OpFailure>> {
    let mut outcomes = TrieMap::empty();
    for (id, state) in entries {
        outcomes = outcomes.with(*id, Ok(*state));
    }
    outcomes
}

#[test]
fn sdp_test_update_active_provider() {
    let op = declare_op(1, BLEND);
    let sdp = SdpLedger::new().apply_declare_msg(5, &op).ok().unwrap();
    let outcomes = finalized(&[(op.declaration_id, FinalizedDeclarationState::Active)]);
    let sdp = sdp.try_update_session(5, &params(), &outcomes).ok().unwrap();
    let forming = sdp.forming_sessions.get(&BLEND);
    assert!(forming.declarations.has(&op.declaration_id));
    assert_eq!(forming.declarations.count(), 1);
}

#[test]
fn test_update_inactive_provider() {
    let op = declare_op(1, BLEND);
    let sdp = SdpLedger::new().apply_declare_msg(5, &op).ok().unwrap();
    let active = finalized(&[(op.declaration_id, FinalizedDeclarationState::Active)]);
    let with_provider = sdp.try_update_session(5, &params(), &active).ok().unwrap();
    assert!(with_provider.forming_sessions.get(&BLEND).declarations.has(&op.declaration_id));

    let inactive = finalized(&[(op.declaration_id, FinalizedDeclarationState::Inactive)]);
    let without_provider =
        with_provider.try_update_session(30, &params(), &inactive).ok().unwrap();
    let forming = without_provider.forming_sessions.get(&BLEND);
    assert!(!forming.declarations.has(&op.declaration_id));
    assert_eq!(forming.declarations.count(), 0);
}

#[test]
fn sdp_test_promote_session_with_updated_provider() {
    let op = declare_op(1, BLEND);
    let sdp = SdpLedger::new().apply_declare_msg(1, &op).ok().unwrap();
    let outcomes = finalized(&[(op.declaration_id, FinalizedDeclarationState::Active)]);
    let sdp = sdp.try_update_session(1, &params(), &outcomes).ok().unwrap();
    let sdp = sdp.try_promote(10, &params()).ok().unwrap();

    let active = sdp.active_sessions.get(&BLEND);
    assert_eq!(active.session_number, 1);
    assert!(active.declarations.has(&op.declaration_id));
    let forming = sdp.forming_sessions.get(&BLEND);
    assert_eq!(forming.session_number, 2);
    assert!(forming.declarations.has(&op.declaration_id));
}

#[test]
fn sdp_test_no_promotion() {
    let sdp = SdpLedger::new().try_promote(9, &params()).ok().unwrap();
    assert_eq!(sdp.active_sessions.get(&BLEND).session_number, 0);
    assert_eq!(sdp.active_sessions.get(&BLEND).declarations.count(), 0);
    assert_eq!(sdp.forming_sessions.get(&BLEND).session_number, 1);
}

#[test]
fn sdp_test_promote_one_service() {
    let sdp = SdpLedger::new().try_promote(6, &params()).ok().unwrap();
    assert_eq!(sdp.active_sessions.get(&DATA).session_number, 1);
    assert_eq!(sdp.forming_sessions.get(&DATA).session_number, 2);
    assert_eq!(sdp.active_sessions.get(&BLEND).session_number, 0);
    assert_eq!(sdp.forming_sessions.get(&BLEND).session_number, 1);
}

#[test]
fn membership_failures_are_reported() {
    let op = declare_op(1, BLEND);
    let sdp = SdpLedger::new().apply_declare_msg(1, &op).ok().unwrap();
    assert_eq!(
        sdp.clone().apply_declare_msg(2, &op).err(),
        Some(SdpLedgerError::SdpDuplicateDeclaration(op.declaration_id))
    );
    let state = sdp.get_declaration(&op.declaration_id).unwrap().clone();
    let msg = |declaration_id, nonce| DeclarationMsg { declaration_id, nonce };
    assert_eq!(
        sdp.clone().apply_active_msg(&msg([9; 32], 1), Ok(state.clone())).err(),
        Some(SdpLedgerError::SdpDeclarationNotFound([9; 32]))
    );
    assert_eq!(
        sdp.clone().apply_active_msg(&msg(op.declaration_id, 0), Ok(state.clone())).err(),
        Some(SdpLedgerError::SdpInvalidNonce(0))
    );
    assert_eq!(
        sdp.clone().apply_withdrawn_msg(&msg(op.declaration_id, 1), Err(LOCKED)).err(),
        Some(SdpLedgerError::SdpStateError(LOCKED))
    );
    let bare = ServiceParams { blend_network: None, ..params() };
    assert_eq!(
        SdpLedger::new().try_promote(9, &bare).err(),
        Some(SdpLedgerError::SessionParamsNotFound(BLEND))
    );
    assert_eq!(
        sdp.clone().try_update_session_from_genesis(1, &BLEND, op.declaration_id).err(),
        Some(SdpLedgerError::NotGenesisBlock)
    );
    let sdp = sdp.try_update_session_from_genesis(0, &BLEND, op.declaration_id).ok().unwrap();
    assert!(sdp.active_sessions.get(&BLEND).declarations.has(&op.declaration_id));
}

fn declare_with(
    sdp: services::SdpLedger,
    op: &DeclareOp,
    config: &services::Config,
) -> Result<services::SdpLedger, services::Error> {
    sdp.apply_declare_msg(op, utxo(1).note, true, &sign(0), TX_HASH, config)
}

fn advance(
    mut sdp: services::SdpLedger,
    config: &services::Config,
    blocks: u64,
) -> services::SdpLedger {
    for _ in 0..blocks {
        sdp = sdp.try_apply_header(config).ok().unwrap();
    }
    sdp
}

fn in_active(sdp: &services::SdpLedger, byte: u8) -> bool {
    sdp.get_active_session(BLEND).unwrap().declarations.lookup(&[byte; 32]).is_some()
}

fn in_forming(sdp: &services::SdpLedger, byte: u8) -> bool {
    sdp.get_forming_session(BLEND).unwrap().declarations.lookup(&[byte; 32]).is_some()
}

fn session_numbers(sdp: &services::SdpLedger, service: ServiceType) -> (u64, u64) {
    (
        sdp.get_active_session(service).unwrap().session_n,
        sdp.get_forming_session(service).unwrap().session_n,
    )
}

#[test]
fn mod_test_update_active_provider() {
    let config = setup();
    let op = declare_op(1, BLEND);
    let sdp = services::SdpLedger::new().with_service(BLEND);
    let sdp = declare_with(sdp, &op, &config).ok().unwrap();
    assert!(sdp.get_declarations(BLEND).unwrap().lookup(&op.declaration_id).is_some());

    let sdp = advance(sdp, &config, 10);
    let forming = sdp.get_forming_session(BLEND).unwrap();
    assert_eq!(forming.session_n, 2);
    assert!(forming.declarations.lookup(&op.declaration_id).is_some());
    assert_eq!(forming.declarations.count(), 1);
}

#[test]
fn mod_test_withdraw_provider() {
    let config = setup();
    let op = declare_op(1, BLEND);
    let sdp = services::SdpLedger::new().with_service(BLEND);
    let sdp = declare_with(sdp, &op, &config).ok().unwrap();
    assert!(sdp.get_declarations(BLEND).unwrap().lookup(&op.declaration_id).is_some());

    let sdp = advance(sdp, &config, 11);
    let msg = DeclarationMsg { declaration_id: op.declaration_id, nonce: 1 };
    let sdp = sdp.apply_withdrawn_msg(&msg, true, &config).ok().unwrap();
    let declarations = sdp.get_declarations(BLEND).unwrap();
    assert!(declarations.lookup(&op.declaration_id).is_none());
    assert_eq!(declarations.count(), 0);
    assert!(!sdp.locked_notes().contains(&op.locked_note_id));
}

#[test]
fn mod_test_promote_session_with_updated_provider() {
    let config = setup();
    let op = declare_op(1, BLEND);
    let sdp = services::SdpLedger::new().with_service(BLEND);
    let sdp = declare_with(sdp, &op, &config).ok().unwrap();

    let sdp = advance(sdp, &config, 10);
    assert_eq!(session_numbers(&sdp, BLEND), (1, 2));
    assert_eq!(sdp.get_active_session(BLEND).unwrap().declarations.count(), 0);
    assert!(in_forming(&sdp, 1));

    let sdp = advance(sdp, &config, 10);
    assert_eq!(session_numbers(&sdp, BLEND).0, 2);
    assert!(in_active(&sdp, 1));
}

#[test]
fn mod_test_no_promotion() {
    let config = setup();
    let sdp = advance(services::SdpLedger::new().with_service(BLEND), &config, 9);
    assert_eq!(session_numbers(&sdp, BLEND), (0, 1));
    assert_eq!(sdp.get_active_session(BLEND).unwrap().declarations.count(), 0);
}

#[test]
fn mod_test_promote_one_service() {
    let config = setup();
    let sdp = services::SdpLedger::new().with_service(BLEND).with_service(DATA);
    let sdp = advance(sdp, &config, 6);
    assert_eq!(session_numbers(&sdp, DATA), (1, 2));
    assert_eq!(session_numbers(&sdp, BLEND), (0, 1));
    assert_eq!(sdp.active_sessions(), (Some(0), Some(1)));
}

#[test]
fn test_new_declarations_becoming_active_after_session_boundary() {
    let config = setup();
    let sdp = advance(services::SdpLedger::new().with_service(BLEND), &config, 5);
    let sdp = declare_with(sdp, &declare_op(1, BLEND), &config).ok().unwrap();

    let sdp = advance(sdp, &config, 4);
    assert_eq!(sdp.block_number, 9);
    assert_eq!(session_numbers(&sdp, BLEND), (0, 1));
    assert!(!in_active(&sdp, 1));
    assert_eq!(sdp.get_forming_session(BLEND).unwrap().declarations.count(), 0);

    let sdp = advance(sdp, &config, 1);
    assert_eq!(sdp.block_number, 10);
    assert_eq!(session_numbers(&sdp, BLEND), (1, 2));
    assert_eq!(sdp.get_active_session(BLEND).unwrap().declarations.count(), 0);
    assert!(in_forming(&sdp, 1));

    let sdp = advance(sdp, &config, 10);
    assert_eq!(sdp.block_number, 20);
    assert_eq!(session_numbers(&sdp, BLEND).0, 2);
    assert!(in_active(&sdp, 1));
}

#[test]
fn test_declaration_snapshot_timing() {
    let config = setup();
    let sdp = services::SdpLedger::new().with_service(BLEND);
    let sdp = declare_with(sdp, &declare_op(1, BLEND), &config).ok().unwrap();
    let block_9 = advance(sdp, &config, 9);

    let sdp = advance(block_9.clone(), &config, 1);
    assert_eq!(sdp.block_number, 10);
    let sdp = declare_with(sdp, &declare_op(2, BLEND), &config).ok().unwrap();
    let sdp = advance(sdp, &config, 10);
    assert!(in_active(&sdp, 1));
    assert!(!in_active(&sdp, 2));

    let sdp = advance(block_9, &config, 11);
    assert!(in_active(&sdp, 1));
    assert!(!in_active(&sdp, 2));
}

#[test]
fn test_session_jump() {
    let config = setup();
    let sdp = advance(services::SdpLedger::new().with_service(BLEND), &config, 3);
    let sdp = declare_with(sdp, &declare_op(1, BLEND), &config).ok().unwrap();
    let sdp = advance(sdp, &config, 22);
    assert_eq!(sdp.block_number, 25);
    assert_eq!(session_numbers(&sdp, BLEND), (2, 3));
    assert!(in_active(&sdp, 1));
    assert!(in_forming(&sdp, 1));
}

#[test]
fn test_session_boundary() {
    let config = setup();
    let sdp = advance(services::SdpLedger::new().with_service(BLEND), &config, 9);
    assert_eq!(sdp.block_number, 9);
    assert_eq!(session_numbers(&sdp, BLEND), (0, 1));
    assert_eq!(sdp.get_active_session(BLEND).unwrap().declarations.count(), 0);
    assert_eq!(sdp.get_forming_session(BLEND).unwrap().declarations.count(), 0);

    let sdp = declare_with(sdp, &declare_op(1, BLEND), &config).ok().unwrap();
    let sdp = advance(sdp, &config, 1);
    assert_eq!(sdp.block_number, 10);
    assert_eq!(session_numbers(&sdp, BLEND), (1, 2));
    assert_eq!(sdp.get_active_session(BLEND).unwrap().declarations.count(), 0);
    assert!(in_forming(&sdp, 1));

    let sdp = declare_with(sdp, &declare_op(2, BLEND), &config).ok().unwrap();
    assert_eq!(session_numbers(&sdp, BLEND).1, 2);
    assert!(in_forming(&sdp, 1));
    assert!(!in_forming(&sdp, 2));

    let sdp = advance(sdp, &config, 10);
    assert_eq!(sdp.block_number, 20);
    assert_eq!(session_numbers(&sdp, BLEND), (2, 3));
    assert!(in_active(&sdp, 1));
    assert!(!in_active(&sdp, 2));
    assert!(in_forming(&sdp, 1));
    assert!(in_forming(&sdp, 2));

    let sdp = advance(sdp, &config, 10);
    assert_eq!(sdp.block_number, 30);
    assert_eq!(session_numbers(&sdp, BLEND).0, 3);
    assert!(in_active(&sdp, 1));
    assert!(in_active(&sdp, 2));
}

#[test]
fn service_failures_are_reported() {
    let config = setup();
    let op = declare_op(1, BLEND);
    let new = || services::SdpLedger::new().with_service(BLEND);
    let note = utxo(1).note;
    assert_eq!(services::SdpLedger::declaration_signers(&op, &note), [note.pk, op.zk_id]);
    assert_eq!(
        new().apply_declare_msg(&op, note, false, &sign(0), TX_HASH, &config).err(),
        Some(services::Error::InvalidSignature)
    );
    assert_eq!(
        new().apply_declare_msg(&op, note, true, &sign(1), TX_HASH, &config).err(),
        Some(services::Error::InvalidSignature)
    );
    assert_eq!(
        declare_with(new(), &declare_op(1, DATA), &config).err(),
        Some(services::Error::ServiceNotFound(DATA))
    );
    let sdp = declare_with(new(), &op, &config).ok().unwrap();
    assert_eq!(sdp.message_signers(&op.declaration_id), Some([note.pk, op.zk_id]));
    assert_eq!(sdp.message_signers(&[9; 32]), None);
    let msg = |declaration_id, nonce| DeclarationMsg { declaration_id, nonce };
    assert_eq!(
        sdp.clone().apply_active_msg(&msg([9; 32], 1), true, &config).err(),
        Some(services::Error::DeclarationNotFound([9; 32]))
    );
    assert_eq!(
        sdp.clone().apply_active_msg(&msg(op.declaration_id, 0), true, &config).err(),
        Some(services::Error::InvalidNonce(0))
    );
    assert_eq!(
        sdp.clone().apply_active_msg(&msg(op.declaration_id, 1), false, &config).err(),
        Some(services::Error::InvalidSignature)
    );
    assert_eq!(
        sdp.clone().apply_withdrawn_msg(&msg(op.declaration_id, 1), true, &config).err(),
        Some(services::Error::WithdrawalWhileLocked)
    );
    let sdp = advance(sdp, &config, 3);
    let sdp = sdp.apply_active_msg(&msg(op.declaration_id, 1), true, &config).ok().unwrap();
    let declaration = sdp.get_declarations(BLEND).unwrap().lookup(&op.declaration_id).unwrap();
    assert_eq!(declaration.active, 3);
    assert_eq!(declaration.nonce, 0);
    let bare = services::Config {
        service_params: ServiceParams { blend_network: None, ..params() },
        ..config
    };
    assert_eq!(
        sdp.try_apply_header(&bare).err(),
        Some(services::Error::SessionParamsNotFound(BLEND))
    );
}

#[test]
fn providers_of_the_active_session_are_listed() {
    let config = setup();
    let op = declare_op(1, BLEND);
    let sdp = services::SdpLedger::new().with_service(BLEND);
    let sdp = declare_with(sdp, &op, &config).ok().unwrap();
    let sdp = advance(sdp, &config, 20);
    let providers = sdp.active_session_providers(BLEND, &config).unwrap();
    assert_eq!(providers.count(), 1);
    let provider = providers.lookup(&op.provider_id).unwrap();
    assert_eq!(provider.zk_id, op.zk_id);
    assert_eq!(*provider.locators, vec![vec![1u8]]);
    assert!(sdp.active_session_providers(DATA, &config).is_none());

    // Without activity for longer than the period, a provider is not listed.
    let sdp = advance(sdp, &config, 9);
    let providers = sdp.active_session_providers(BLEND, &config).unwrap();
    assert_eq!(providers.count(), 0);
}

#[test]
fn members_of_the_running_session_are_listed() {
    let op = declare_op(1, BLEND);
    let mut state = State::new();
    state.sdp = SdpLedger::new()
        .apply_declare_msg(0, &op)
        .ok()
        .unwrap()
        .try_update_session_from_genesis(0, &BLEND, op.declaration_id)
        .ok()
        .unwrap();
    let providers = state.active_session_providers(&BLEND).unwrap();
    assert_eq!(providers.count(), 1);
    let provider = providers.lookup(&op.provider_id).unwrap();
    assert_eq!(provider.zk_id, op.zk_id);
    assert_eq!(provider.locators, op.locators);
    assert_eq!(state.active_session_providers(&DATA).unwrap().count(), 0);
}
