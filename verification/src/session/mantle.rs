//! The state that operations of transactions work on.
use vstd::prelude::*;

use crate::collections::trie_map::TrieMap;
use crate::cryptarchia::epoch::UtxoTree;
use crate::mantle::leader::{Error as LeaderError, VOUCHERS_HEIGHT};
use crate::mantle::locked_notes;
use crate::mantle::locked_notes::LockedNotes;
use crate::merkle::hasher::{MerkleHasher, NodeHash};
use crate::merkle::tree::LeafExtractor;
use crate::mmr;
use crate::session::channel;
use crate::session::channel::{ChannelId, Channels, MsgId, PublicKey};
use crate::session::config::Config;
use crate::session::leader::LeaderState;
use crate::session::membership;
use crate::session::membership::{
    DeclarationMsg, DeclarationState, DeclareOp, FinalizedDeclarationState, SdpLedger,
    SdpLedgerError, ServiceParameters, Session, Sessions,
};
use crate::session::services::ProviderInfo;
use crate::signature;
use crate::types::{
    Balance, BlockNumber, DeclarationId, Epoch, Fr, NoteId, OpFailure, ProviderId, ServiceType,
    TxHash, Utxo, VoucherCm, VoucherNullifier, ZkPublicKey,
};

verus! {

/// Failure of an operation.
#[derive(Clone, Copy, Debug, PartialEq, Eq)]
pub enum Error {
    /// An operation on a channel failed.
    Channel(channel::Error),
    /// The state of leaders could not be updated.
    Leader(LeaderError),
    /// There is no such operation, or it comes with a wrong proof.
    UnsupportedOp,
    /// A signature is not valid.
    InvalidSignature,
    /// An operation on declarations failed.
    Sdp(SdpLedgerError),
    /// A note could not be locked or unlocked.
    LockedNotes(locked_notes::Error),
    /// There is no such note.
    NoteNotFound(NoteId),
    /// The service has no parameters.
    ServiceParamsNotFound(ServiceType),
}

/// An operation.
pub enum Op {
    /// Posts a blob in a channel. A signature may come with it, which is not verified here.
    ChannelBlob { channel: ChannelId, parent: MsgId, id: MsgId, signer: PublicKey },
    /// Posts an inscription in a channel. A signature may come with it, which is not verified
    /// here.
    ChannelInscribe { channel: ChannelId, parent: MsgId, id: MsgId, signer: PublicKey },
    /// Replaces the keys of a channel.
    ChannelSetKeys { channel: ChannelId, keys: Vec<PublicKey> },
    /// Declares a provider.
    SdpDeclare(DeclareOp),
    /// Reports activity of a provider, which brings its declaration into a state, if it can.
    SdpActive { msg: DeclarationMsg, transition: Result<DeclarationState, OpFailure> },
    /// Withdraws a declaration, which brings it into a state, if it can.
    SdpWithdraw { msg: DeclarationMsg, transition: Result<DeclarationState, OpFailure> },
    /// Claims the reward of a leader.
    LeaderClaim { voucher_nullifier: VoucherNullifier, rewards_root: NodeHash },
    /// Does nothing that is known.
    Native,
}

/// A proof that an operation is allowed.
pub enum OpProof {
    /// An Ed25519 signature.
    Ed25519Sig([u8; 64]),
    /// A signature with the keys of notes, and whether it is valid.
    ZkSig { valid: bool },
    /// Both of them.
    ZkAndEd25519Sigs { zk_valid: bool, ed25519_sig: [u8; 64] },
}

/// Channels, declarations, the notes that back them, and the rewards of leaders.
#[verifier::reject_recursive_types(H)]
pub struct LedgerState<H> {
    pub channels: Channels,
    pub sdp: SdpLedger,
    pub locked_notes: LockedNotes,
    pub leaders: LeaderState<H>,
}

/// Where operations are applied: the block, and the transaction.
pub struct OpContext {
    pub block_number: BlockNumber,
    pub tx_hash: TxHash,
}

/// What the operations of a transaction have led to: the state and the balance.
pub type Progress<H> = Result<(LedgerState<H>, Balance), Error>;

/// Why a message about a declaration is rejected before it is looked at, if it is.
pub open spec fn message_failure(
    declarations: Map<DeclarationId, DeclarationState>,
    utxos: Map<NoteId, (Utxo, usize)>,
    msg: DeclarationMsg,
    valid: bool,
) -> Option<Error> {
    if !declarations.dom().contains(msg.declaration_id) {
        Some(Error::Sdp(SdpLedgerError::SdpDeclarationNotFound(msg.declaration_id)))
    } else {
        let note_id = declarations[msg.declaration_id].locked_note_id;
        if !utxos.dom().contains(note_id) {
            Some(Error::NoteNotFound(note_id))
        } else if !valid {
            Some(Error::InvalidSignature)
        } else {
            None
        }
    }
}

/// Why a message about a declaration that was verified is rejected, if it is.
pub open spec fn transition_failure(
    declarations: Map<DeclarationId, DeclarationState>,
    config: &Config,
    msg: DeclarationMsg,
    transition: Result<DeclarationState, OpFailure>,
) -> Option<Error> {
    let service = declarations[msg.declaration_id].service_type;
    if config.service_params.of(service) is None {
        Some(Error::ServiceParamsNotFound(service))
    } else {
        match membership::msg_failure(declarations, msg, transition) {
            Some(error) => Some(Error::Sdp(error)),
            None => None,
        }
    }
}

/// The keys that have to sign an operation on declarations, if it is one, and the note that
/// backs the declaration is there.
pub open spec fn signers_of(
    declarations: Map<DeclarationId, DeclarationState>,
    utxos: Map<NoteId, (Utxo, usize)>,
    op: &Op,
) -> Option<Seq<Fr>> {
    let backing = match *op {
        Op::SdpDeclare(op) => Some((op.locked_note_id, op.zk_id)),
        Op::SdpActive { msg, .. } => backing_of(declarations, msg.declaration_id),
        Op::SdpWithdraw { msg, .. } => backing_of(declarations, msg.declaration_id),
        _ => None,
    };
    match backing {
        Some((note_id, zk_id)) => if utxos.dom().contains(note_id) {
            Some(seq![utxos[note_id].0.note.pk, zk_id])
        } else {
            None
        },
        None => None,
    }
}

/// What the next state of a declaration follows from, besides the block.
pub open spec fn inputs_of_transition(
    declarations: Map<DeclarationId, DeclarationState>,
    config: &Config,
    id: DeclarationId,
) -> Option<(DeclarationState, ServiceParameters)> {
    if declarations.dom().contains(id) {
        let state = declarations[id];
        match config.service_params.of(state.service_type) {
            Some(params) => Some((state, params)),
            None => None,
        }
    } else {
        None
    }
}

/// The note that backs a declaration, and the key of the provider.
pub open spec fn backing_of(
    declarations: Map<DeclarationId, DeclarationState>,
    id: DeclarationId,
) -> Option<(NoteId, ZkPublicKey)> {
    if declarations.dom().contains(id) {
        Some((declarations[id].locked_note_id, declarations[id].zk_id))
    } else {
        None
    }
}

/// Why an operation fails, if it does.
pub open spec fn op_failure<H: MerkleHasher>(
    state: &LedgerState<H>,
    config: &Config,
    utxos: Map<NoteId, (Utxo, usize)>,
    context: OpContext,
    op: &Op,
    proof: &Option<OpProof>,
) -> Option<Error> {
    match (*op, *proof) {
        (
            Op::ChannelBlob { channel, parent, id, signer },
            None | Some(OpProof::Ed25519Sig(_)),
        ) => match channel::msg_failure(state.channels@, channel, parent, signer) {
            Some(error) => Some(Error::Channel(error)),
            None => None,
        },
        (
            Op::ChannelInscribe { channel, parent, id, signer },
            None | Some(OpProof::Ed25519Sig(_)),
        ) => match channel::msg_failure(state.channels@, channel, parent, signer) {
            Some(error) => Some(Error::Channel(error)),
            None => None,
        },
        (Op::ChannelSetKeys { channel, keys }, Some(OpProof::Ed25519Sig(sig))) => {
            match channel::keys_failure(
                state.channels@,
                channel,
                keys@,
                sig@,
                context.tx_hash,
            ) {
                Some(error) => Some(Error::Channel(error)),
                None => None,
            }
        },
        (Op::SdpDeclare(op), Some(OpProof::ZkAndEd25519Sigs { zk_valid, ed25519_sig })) => {
            if !utxos.dom().contains(op.locked_note_id) {
                Some(Error::NoteNotFound(op.locked_note_id))
            } else if !zk_valid || !signature::ed25519_signed(
                op.provider_id@,
                context.tx_hash@,
                ed25519_sig@,
            ) {
                Some(Error::InvalidSignature)
            } else {
                match locked_notes::lock_failure(
                    state.locked_notes@,
                    Some(utxos[op.locked_note_id].0.note.value),
                    config.min_stake,
                    op.service_type,
                    op.locked_note_id,
                ) {
                    Some(error) => Some(Error::LockedNotes(error)),
                    None => if state.sdp.declarations@.dom().contains(op.declaration_id) {
                        Some(
                            Error::Sdp(SdpLedgerError::SdpDuplicateDeclaration(op.declaration_id)),
                        )
                    } else {
                        None
                    },
                }
            }
        },
        (Op::SdpActive { msg, transition }, Some(OpProof::ZkSig { valid })) => {
            match message_failure(state.sdp.declarations@, utxos, msg, valid) {
                Some(error) => Some(error),
                None => transition_failure(state.sdp.declarations@, config, msg, transition),
            }
        },
        (Op::SdpWithdraw { msg, transition }, Some(OpProof::ZkSig { valid })) => {
            match message_failure(state.sdp.declarations@, utxos, msg, valid) {
                Some(error) => Some(error),
                None => {
                    let declaration = state.sdp.declarations@[msg.declaration_id];
                    match locked_notes::unlock_failure(
                        state.locked_notes@,
                        declaration.service_type,
                        declaration.locked_note_id,
                    ) {
                        Some(error) => Some(Error::LockedNotes(error)),
                        None => transition_failure(
                            state.sdp.declarations@,
                            config,
                            msg,
                            transition,
                        ),
                    }
                },
            }
        },
        (Op::LeaderClaim { voucher_nullifier, rewards_root }, None) => {
            match state.leaders.claim_failure(voucher_nullifier, rewards_root) {
                Some(error) => Some(Error::Leader(error)),
                None => None,
            }
        },
        _ => Some(Error::UnsupportedOp),
    }
}

/// Whether `after` is `before` after an operation that does not fail.
pub open spec fn is_op_state<H: MerkleHasher>(
    before: &LedgerState<H>,
    context: OpContext,
    op: &Op,
    after: &LedgerState<H>,
) -> bool {
    match *op {
        Op::ChannelBlob { channel, parent, id, signer } => is_posted(
            before,
            channel,
            id,
            signer,
            after,
        ),
        Op::ChannelInscribe { channel, parent, id, signer } => is_posted(
            before,
            channel,
            id,
            signer,
            after,
        ),
        Op::ChannelSetKeys { channel, keys } => {
            &&& *after == (LedgerState { channels: after.channels, ..*before })
            &&& after.channels@ == before.channels@.insert(
                channel,
                (channel::tip_of(before.channels@, channel), keys@),
            )
        },
        Op::SdpDeclare(op) => {
            &&& *after == (LedgerState {
                sdp: SdpLedger { declarations: after.sdp.declarations, ..before.sdp },
                locked_notes: after.locked_notes,
                ..*before
            })
            &&& after.sdp.declarations@ == before.sdp.declarations@.insert(
                op.declaration_id,
                membership::declared(context.block_number, op),
            )
            &&& after.locked_notes@ == locked_notes::after_lock(
                before.locked_notes@,
                op.locked_note_id,
                op.service_type,
            )
        },
        Op::SdpActive { msg, transition } => {
            &&& *after == (LedgerState {
                sdp: SdpLedger { declarations: after.sdp.declarations, ..before.sdp },
                ..*before
            })
            &&& after.sdp.declarations@ == before.sdp.declarations@.insert(
                msg.declaration_id,
                DeclarationState { nonce: msg.nonce, ..transition->Ok_0 },
            )
        },
        Op::SdpWithdraw { msg, transition } => {
            let declaration = before.sdp.declarations@[msg.declaration_id];
            &&& *after == (LedgerState {
                sdp: SdpLedger { declarations: after.sdp.declarations, ..before.sdp },
                locked_notes: after.locked_notes,
                ..*before
            })
            &&& after.sdp.declarations@ == before.sdp.declarations@.insert(
                msg.declaration_id,
                DeclarationState { nonce: msg.nonce, ..transition->Ok_0 },
            )
            &&& after.locked_notes@ == locked_notes::after_unlock(
                before.locked_notes@,
                declaration.locked_note_id,
                declaration.service_type,
            )
        },
        Op::LeaderClaim { voucher_nullifier, .. } => {
            &&& *after == (LedgerState { leaders: after.leaders, ..*before })
            &&& after.leaders.nfs@ == before.leaders.nfs@.insert(voucher_nullifier)
            &&& after.leaders == (LeaderState {
                nfs: after.leaders.nfs,
                claimable_rewards: (before.leaders.claimable_rewards
                    - before.leaders.reward()) as u64,
                ..before.leaders
            })
        },
        Op::Native => false,
    }
}

/// Whether `after` is `before` with a message posted.
pub open spec fn is_posted<H: MerkleHasher>(
    before: &LedgerState<H>,
    channel: ChannelId,
    id: MsgId,
    signer: PublicKey,
    after: &LedgerState<H>,
) -> bool {
    &&& *after == (LedgerState { channels: after.channels, ..*before })
    &&& after.channels@ == before.channels@.insert(
        channel,
        (id, channel::channel_for(before.channels@, channel, signer).1),
    )
}

/// What an operation adds to the balance of its transaction.
pub open spec fn op_balance<H: MerkleHasher>(state: &LedgerState<H>, op: &Op) -> int {
    match *op {
        Op::LeaderClaim { .. } => state.leaders.reward(),
        _ => 0,
    }
}

/// Whether `r` is what comes of the next operation after `mid`.
pub open spec fn is_next<H: MerkleHasher>(
    config: &Config,
    utxos: Map<NoteId, (Utxo, usize)>,
    context: OpContext,
    mid: Progress<H>,
    op: (Op, Option<OpProof>),
    r: Progress<H>,
) -> bool {
    match mid {
        Err(error) => r == Err::<(LedgerState<H>, Balance), _>(error),
        Ok((state, balance)) => match op_failure(&state, config, utxos, context, &op.0, &op.1) {
            Some(error) => r == Err::<(LedgerState<H>, Balance), _>(error),
            None => {
                &&& r matches Ok((after, new_balance))
                &&& is_op_state(&state, context, &op.0, &after)
                &&& new_balance == balance + op_balance(&state, &op.0)
            },
        },
    }
}

/// Whether `r` is what comes of the operations of a transaction, one after the other, until
/// one of them fails.
pub open spec fn is_run<H: MerkleHasher>(
    before: &LedgerState<H>,
    config: &Config,
    utxos: Map<NoteId, (Utxo, usize)>,
    context: OpContext,
    ops: Seq<(Op, Option<OpProof>)>,
    r: Progress<H>,
) -> bool
    decreases ops.len(),
{
    if ops.len() == 0 {
        r == Ok::<_, Error>((*before, 0i128))
    } else {
        exists|mid: Progress<H>|
            is_run(before, config, utxos, context, ops.drop_last(), mid) && #[trigger] is_next(
                config,
                utxos,
                context,
                mid,
                ops.last(),
                r,
            )
    }
}

proof fn lemma_run_failed<H: MerkleHasher>(
    before: &LedgerState<H>,
    config: &Config,
    utxos: Map<NoteId, (Utxo, usize)>,
    context: OpContext,
    ops: Seq<(Op, Option<OpProof>)>,
    n: int,
    r: Progress<H>,
)
    requires
        0 <= n <= ops.len(),
        is_run(before, config, utxos, context, ops.take(n), r),
        r is Err,
    ensures
        is_run(before, config, utxos, context, ops, r),
    decreases ops.len() - n,
{
    if n == ops.len() {
        assert(ops.take(n) =~= ops);
    } else {
        assert(ops.take(n + 1).drop_last() =~= ops.take(n));
        assert(is_next(config, utxos, context, r, ops.take(n + 1).last(), r));
        lemma_run_failed(before, config, utxos, context, ops, n + 1, r);
    }
}

/// Whether `state` is the one that a ledger starts with: nothing was done, and for each
/// service the first session is running and the next one is forming, both without
/// declarations.
pub open spec fn is_new<H: MerkleHasher>(state: &LedgerState<H>) -> bool {
    &&& state.well_formed()
    &&& state.sdp.well_formed()
    &&& state.channels@ == Map::<ChannelId, (MsgId, Seq<PublicKey>)>::empty()
    &&& state.sdp.declarations@ == Map::<DeclarationId, DeclarationState>::empty()
    &&& forall|service: ServiceType| #[trigger]
        state.sdp.active_sessions.of(service).session_number == 0
            && state.sdp.active_sessions.of(service).declarations@ == Set::<
            DeclarationId,
        >::empty()
    &&& forall|service: ServiceType| #[trigger]
        state.sdp.forming_sessions.of(service).session_number == 1
            && state.sdp.forming_sessions.of(service).declarations@ == Set::<
            DeclarationId,
        >::empty()
    &&& state.locked_notes@ == Map::<NoteId, locked_notes::Services>::empty()
    &&& state.leaders.epoch == 0
    &&& state.leaders.claimable_vouchers_root == crate::merkle::hasher::empty_value()
    &&& state.leaders.n_claimable_vouchers == 0
    &&& state.leaders.nfs@ == Set::<VoucherNullifier>::empty()
    &&& state.leaders.claimable_rewards == 0
    &&& state.leaders.vouchers.peaks() == Seq::<mmr::Root>::empty()
    &&& state.leaders.vouchers.represents(Seq::empty())
}

/// What a session amounts to: its declarations that are known, by their providers. A provider
/// of several ones is known by one of them.
pub open spec fn is_provider_map(
    session: Session,
    declarations: Map<DeclarationId, DeclarationState>,
    providers: Map<ProviderId, ProviderInfo>,
) -> bool {
    &&& forall|id: DeclarationId| #[trigger]
        declarations.dom().contains(id) && session.declarations@.contains(id)
            ==> providers.dom().contains(declarations[id].provider_id)
    &&& forall|provider: ProviderId| #[trigger]
        providers.dom().contains(provider) ==> is_provider(
            session,
            declarations,
            provider,
            providers[provider],
        )
}

/// Whether `provider` takes part in the session, and is known by its declaration.
pub open spec fn is_provider(
    session: Session,
    declarations: Map<DeclarationId, DeclarationState>,
    provider: ProviderId,
    info: ProviderInfo,
) -> bool {
    exists|id: DeclarationId| #[trigger]
        declarations.dom().contains(id) && session.declarations@.contains(id)
            && declarations[id].provider_id == provider && info == (ProviderInfo {
            zk_id: declarations[id].zk_id,
            locators: declarations[id].locators,
        })
}

impl<H: MerkleHasher> LedgerState<H> {
    /// Whether the parts are well formed.
    pub open spec fn well_formed(&self) -> bool {
        &&& self.channels.well_formed()
        &&& self.locked_notes.well_formed()
        &&& self.leaders.well_formed()
    }

    /// Whether no claim among `ops` is accepted when more vouchers were claimed than there are.
    /// Only operations that are reached matter: those before the first that fails, and that one.
    pub open spec fn can_claim(
        &self,
        config: &Config,
        utxos: Map<NoteId, (Utxo, usize)>,
        context: OpContext,
        ops: Seq<(Op, Option<OpProof>)>,
    ) -> bool {
        forall|n: int, state: LedgerState<H>, balance: Balance|
            0 <= n < ops.len() && #[trigger] is_run(
                self,
                config,
                utxos,
                context,
                ops.take(n),
                Ok((state, balance)),
            ) ==> state.claim_fits(ops[n])
    }

    /// Whether the operation, if it is a claim that is accepted, is not made when more vouchers
    /// were claimed than there are.
    pub open spec fn claim_fits(&self, op: (Op, Option<OpProof>)) -> bool {
        match op {
            (Op::LeaderClaim { voucher_nullifier, rewards_root }, None) => {
                self.leaders.claim_failure(voucher_nullifier, rewards_root) is None
                    ==> self.leaders.nfs@.len() <= self.leaders.n_claimable_vouchers
            },
            _ => true,
        }
    }

    /// Makes the state at genesis.
    pub fn new() -> (r: Self)
        requires
            mmr::supported(VOUCHERS_HEIGHT),
        ensures
            is_new(&r),
    {
        LedgerState {
            channels: Channels::new(),
            sdp: SdpLedger::new(),
            locked_notes: LockedNotes::new(),
            leaders: LeaderState::new(),
        }
    }

    /// The notes that back declarations.
    pub fn locked_notes(&self) -> (r: &LockedNotes)
        ensures
            *r == self.locked_notes,
    {
        &self.locked_notes
    }

    /// The sessions that are running.
    pub fn active_sessions(&self) -> (r: &Sessions)
        ensures
            *r == self.sdp.active_sessions,
    {
        &self.sdp.active_sessions
    }

    /// The providers that take part in the running session of a service. Each service has one.
    pub fn active_session_providers(&self, service: &ServiceType) -> (r: Option<
        TrieMap<ProviderInfo>,
    >)
        ensures
            r matches Some(providers) && is_provider_map(
                self.sdp.active_sessions.of(*service),
                self.sdp.declarations@,
                providers@,
            ),
    {
        let session: &Session = self.sdp.active_sessions.get(service);
        let ghost declarations = self.sdp.declarations@;
        let ids: Vec<DeclarationId> = self.sdp.declarations.keys();
        let mut providers: TrieMap<ProviderInfo> = TrieMap::new();
        let mut i: usize = 0;
        while i < ids.len()
            invariant
                0 <= i <= ids@.len(),
                declarations == self.sdp.declarations@,
                ids@.to_set() == declarations.dom(),
                forall|j: int|
                    0 <= j < i && session.declarations@.contains(#[trigger] ids@[j])
                        ==> providers@.dom().contains(declarations[ids@[j]].provider_id),
                forall|provider: ProviderId| #[trigger]
                    providers@.dom().contains(provider) ==> is_provider(
                        *session,
                        declarations,
                        provider,
                        providers@[provider],
                    ),
            decreases ids@.len() - i,
        {
            let id: DeclarationId = ids[i];
            assert(ids@.to_set().contains(ids@[i as int]));
            let ghost before = providers@;
            if session.declarations.contains(&id) {
                if let Some(state) = self.sdp.declarations.get(&id) {
                    providers.insert_mut(
                        state.provider_id,
                        ProviderInfo {
                            zk_id: state.zk_id,
                            locators: state.locators.clone(),
                        },
                    );
                    assert(is_provider(
                        *session,
                        declarations,
                        state.provider_id,
                        providers@[state.provider_id],
                    ));
                    assert forall|provider: ProviderId| #[trigger]
                        providers@.dom().contains(provider) implies is_provider(
                        *session,
                        declarations,
                        provider,
                        providers@[provider],
                    ) by {
                        if provider != state.provider_id {
                            assert(before.dom().contains(provider));
                        }
                    }
                }
            }
            i += 1;
        }
        assert forall|id: DeclarationId| #[trigger]
            declarations.dom().contains(id) && session.declarations@.contains(
                id,
            ) implies providers@.dom().contains(declarations[id].provider_id) by {
            assert(ids@.to_set().contains(id));
            let k = choose|k: int| 0 <= k < ids@.len() && ids@[k] == id;
            assert(ids@[k] == id);
        }
        Some(providers)
    }

    /// Applies the header of a block of `epoch`, which carries `voucher`.
    pub fn try_apply_header(self, epoch: Epoch, voucher: VoucherCm) -> (r: Result<Self, Error>)
        requires
            self.well_formed(),
            self.leaders.vouchers.leaf_count() < self.leaders.vouchers.max_leaves(),
        ensures
            if epoch < self.leaders.epoch {
                r == Err::<Self, _>(
                    Error::Leader(
                        LeaderError::InvalidEpoch { current: self.leaders.epoch, incoming: epoch },
                    ),
                )
            } else {
                &&& r matches Ok(state)
                &&& state.well_formed()
                &&& state == (LedgerState { leaders: state.leaders, ..self })
                &&& state.leaders == (LeaderState {
                    vouchers: state.leaders.vouchers,
                    ..self.leaders.at_epoch(epoch)
                })
                &&& state.leaders.vouchers.peaks() == self.leaders.vouchers.peaks_with(voucher)
                &&& state.leaders.vouchers.leaf_count() == self.leaders.vouchers.leaf_count() + 1
            },
    {
        match self.leaders.try_apply_header(epoch, voucher) {
            Ok(leaders) => Ok(LedgerState { leaders, ..self }),
            Err(error) => Err(Error::Leader(error)),
        }
    }

    /// Applies an operation: the state, and what it adds to the balance.
    pub fn try_apply_op<U: LeafExtractor<Utxo>>(
        self,
        current_block_number: BlockNumber,
        config: &Config,
        utxo_tree: &UtxoTree<U>,
        tx_hash: TxHash,
        op: Op,
        proof: Option<OpProof>,
    ) -> (r: Result<(Self, Balance), Error>)
        requires
            self.well_formed(),
            self.claim_fits((op, proof)),
        ensures
            ({
                let context = OpContext { block_number: current_block_number, tx_hash };
                match op_failure(&self, config, utxo_tree.entries(), context, &op, &proof) {
                    Some(error) => r == Err::<(Self, Balance), _>(error),
                    None => {
                        &&& r matches Ok((state, balance))
                        &&& state.well_formed()
                        &&& is_op_state(&self, context, &op, &state)
                        &&& balance == op_balance(&self, &op)
                        &&& balance + state.leaders.claimable_rewards
                            == self.leaders.claimable_rewards
                    },
                }
            }),
    {
        match (op, proof) {
            (
                Op::ChannelBlob { channel, parent, id, signer },
                None | Some(OpProof::Ed25519Sig(_)),
            ) => {
                match self.channels.apply_msg(channel, &parent, id, &signer) {
                    Ok(channels) => Ok((LedgerState { channels, ..self }, 0)),
                    Err(error) => Err(Error::Channel(error)),
                }
            },
            (
                Op::ChannelInscribe { channel, parent, id, signer },
                None | Some(OpProof::Ed25519Sig(_)),
            ) => {
                match self.channels.apply_msg(channel, &parent, id, &signer) {
                    Ok(channels) => Ok((LedgerState { channels, ..self }, 0)),
                    Err(error) => Err(Error::Channel(error)),
                }
            },
            (Op::ChannelSetKeys { channel, keys }, Some(OpProof::Ed25519Sig(sig))) => {
                match self.channels.set_keys(channel, keys, &sig, &tx_hash) {
                    Ok(channels) => Ok((LedgerState { channels, ..self }, 0)),
                    Err(error) => Err(Error::Channel(error)),
                }
            },
            (Op::SdpDeclare(op), Some(OpProof::ZkAndEd25519Sigs { zk_valid, ed25519_sig })) => {
                if !utxo_tree.contains(&op.locked_note_id) {
                    return Err(Error::NoteNotFound(op.locked_note_id));
                }
                if !zk_valid {
                    return Err(Error::InvalidSignature);
                }
                if !signature::is_signed(&op.provider_id, &tx_hash, &ed25519_sig) {
                    return Err(Error::InvalidSignature);
                }
                let locked_notes: LockedNotes = match self.locked_notes.lock(
                    utxo_tree,
                    &config.min_stake,
                    op.service_type,
                    &op.locked_note_id,
                ) {
                    Ok(locked_notes) => locked_notes,
                    Err(error) => return Err(Error::LockedNotes(error)),
                };
                match self.sdp.apply_declare_msg(current_block_number, &op) {
                    Ok(sdp) => Ok(
                        (
                            LedgerState {
                                channels: self.channels,
                                sdp,
                                locked_notes,
                                leaders: self.leaders,
                            },
                            0,
                        ),
                    ),
                    Err(error) => Err(Error::Sdp(error)),
                }
            },
            (Op::SdpActive { msg, transition }, Some(OpProof::ZkSig { valid })) => {
                let declaration: DeclarationState = match self.verified_declaration(
                    utxo_tree,
                    &msg,
                    valid,
                ) {
                    Ok(declaration) => declaration,
                    Err(error) => return Err(error),
                };
                if config.service_params.get(&declaration.service_type).is_none() {
                    return Err(Error::ServiceParamsNotFound(declaration.service_type));
                }
                match self.sdp.apply_active_msg(&msg, transition) {
                    Ok(sdp) => Ok(
                        (
                            LedgerState {
                                channels: self.channels,
                                sdp,
                                locked_notes: self.locked_notes,
                                leaders: self.leaders,
                            },
                            0,
                        ),
                    ),
                    Err(error) => Err(Error::Sdp(error)),
                }
            },
            (Op::SdpWithdraw { msg, transition }, Some(OpProof::ZkSig { valid })) => {
                let declaration: DeclarationState = match self.verified_declaration(
                    utxo_tree,
                    &msg,
                    valid,
                ) {
                    Ok(declaration) => declaration,
                    Err(error) => return Err(error),
                };
                let locked_notes: LockedNotes = match self.locked_notes.unlock(
                    declaration.service_type,
                    &declaration.locked_note_id,
                ) {
                    Ok(locked_notes) => locked_notes,
                    Err(error) => return Err(Error::LockedNotes(error)),
                };
                if config.service_params.get(&declaration.service_type).is_none() {
                    return Err(Error::ServiceParamsNotFound(declaration.service_type));
                }
                match self.sdp.apply_withdrawn_msg(&msg, transition) {
                    Ok(sdp) => Ok(
                        (
                            LedgerState {
                                channels: self.channels,
                                sdp,
                                locked_notes,
                                leaders: self.leaders,
                            },
                            0,
                        ),
                    ),
                    Err(error) => Err(Error::Sdp(error)),
                }
            },
            (Op::LeaderClaim { voucher_nullifier, rewards_root }, None) => {
                match self.leaders.claim(voucher_nullifier, rewards_root) {
                    Ok((leaders, balance)) => Ok((LedgerState { leaders, ..self }, balance)),
                    Err(error) => Err(Error::Leader(error)),
                }
            },
            _ => Err(Error::UnsupportedOp),
        }
    }

    /// The keys that have to sign an operation on declarations: that of the note that backs
    /// the declaration, and that of the provider.
    pub fn zk_signers<U: LeafExtractor<Utxo>>(&self, utxo_tree: &UtxoTree<U>, op: &Op) -> (r:
        Option<[Fr; 2]>)
        ensures
            match signers_of(self.sdp.declarations@, utxo_tree.entries(), op) {
                Some(keys) => r matches Some(signers) && signers@ == keys,
                None => r is None,
            },
    {
        let (note_id, zk_id): (NoteId, ZkPublicKey) = match op {
            Op::SdpDeclare(op) => (op.locked_note_id, op.zk_id),
            Op::SdpActive { msg, .. } => match self.sdp.get_declaration(&msg.declaration_id) {
                Ok(declaration) => (declaration.locked_note_id, declaration.zk_id),
                Err(_) => return None,
            },
            Op::SdpWithdraw { msg, .. } => match self.sdp.get_declaration(&msg.declaration_id) {
                Ok(declaration) => (declaration.locked_note_id, declaration.zk_id),
                Err(_) => return None,
            },
            _ => return None,
        };
        match utxo_tree.get_ref(&note_id) {
            Some(utxo) => Some([utxo.note.pk, zk_id]),
            None => None,
        }
    }

    /// What the next state of a declaration follows from, besides the block: its state, and
    /// the parameters of its service.
    pub fn transition_inputs(&self, config: &Config, declaration_id: &DeclarationId) -> (r: Option<
        (DeclarationState, ServiceParameters),
    >)
        ensures
            r == inputs_of_transition(self.sdp.declarations@, config, *declaration_id),
    {
        match self.sdp.get_declaration(declaration_id) {
            Ok(declaration) => match config.service_params.get(&declaration.service_type) {
                Some(params) => Some((declaration.clone(), params)),
                None => None,
            },
            Err(_) => None,
        }
    }

    /// The declaration that a message is about, if its note is there and the message is
    /// signed.
    fn verified_declaration<U: LeafExtractor<Utxo>>(
        &self,
        utxo_tree: &UtxoTree<U>,
        msg: &DeclarationMsg,
        valid: bool,
    ) -> (r: Result<DeclarationState, Error>)
        ensures
            match message_failure(self.sdp.declarations@, utxo_tree.entries(), *msg, valid) {
                Some(error) => r == Err::<DeclarationState, _>(error),
                None => r == Ok::<_, Error>(self.sdp.declarations@[msg.declaration_id]),
            },
    {
        let declaration: DeclarationState = match self.sdp.get_declaration(&msg.declaration_id) {
            Ok(declaration) => declaration.clone(),
            Err(error) => return Err(Error::Sdp(error)),
        };
        if !utxo_tree.contains(&declaration.locked_note_id) {
            return Err(Error::NoteNotFound(declaration.locked_note_id));
        }
        if !valid {
            return Err(Error::InvalidSignature);
        }
        Ok(declaration)
    }

    /// Applies the operations of a transaction, one after the other.
    pub fn try_apply_ops<U: LeafExtractor<Utxo>>(
        self,
        current_block_number: BlockNumber,
        config: &Config,
        utxo_tree: &UtxoTree<U>,
        tx_hash: TxHash,
        ops: Vec<(Op, Option<OpProof>)>,
    ) -> (r: Result<(Self, Balance), Error>)
        requires
            self.well_formed(),
            self.can_claim(
                config,
                utxo_tree.entries(),
                OpContext { block_number: current_block_number, tx_hash },
                ops@,
            ),
        ensures
            is_run(
                &self,
                config,
                utxo_tree.entries(),
                OpContext { block_number: current_block_number, tx_hash },
                ops@,
                r,
            ),
            r matches Ok((state, balance)) ==> state.well_formed() && 0 <= balance <= u64::MAX,
    {
        let ghost all = ops@;
        let ghost before = self;
        let ghost utxos = utxo_tree.entries();
        let ghost context = OpContext { block_number: current_block_number, tx_hash };
        let mut state: Self = self;
        let mut balance: Balance = 0;
        assert(all.take(0) =~= Seq::empty());
        for op in it: ops
            invariant
                it.seq() == all,
                all == ops@,
                before == self,
                utxos == utxo_tree.entries(),
                context == (OpContext { block_number: current_block_number, tx_hash }),
                before.can_claim(config, utxos, context, all),
                state.well_formed(),
                balance >= 0,
                balance + state.leaders.claimable_rewards == before.leaders.claimable_rewards,
                is_run(
                    &before,
                    config,
                    utxos,
                    context,
                    all.take(it.index() as int),
                    Ok((state, balance)),
                ),
        {
            let ghost i = it.index() as int;
            let ghost mid: Progress<H> = Ok((state, balance));
            let ghost last = state;
            proof {
                assert(all[i] == op);
                assert(all.take(i + 1).drop_last() =~= all.take(i));
                assert(all.take(i + 1).last() == op);
                assert(state.claim_fits(all[i]));
            }
            let (op, proof): (Op, Option<OpProof>) = op;
            match state.try_apply_op(current_block_number, config, utxo_tree, tx_hash, op, proof) {
                Ok((new_state, op_balance)) => {
                    state = new_state;
                    balance = balance + op_balance;
                    assert(is_next(
                        config,
                        utxos,
                        context,
                        mid,
                        all.take(i + 1).last(),
                        Ok((state, balance)),
                    ));
                },
                Err(failure) => {
                    proof {
                        let r: Progress<H> = Err(failure);
                        assert(is_next(config, utxos, context, mid, all.take(i + 1).last(), r));
                        lemma_run_failed(&before, config, utxos, context, all, i + 1, r);
                    }
                    return Err(failure);
                },
            }
        }
        assert(all.take(all.len() as int) =~= all);
        Ok((state, balance))
    }

    /// Brings the sessions up to date with all declarations. What the state of each declaration
    /// amounts to is in `outcomes`. This is done once per block.
    pub fn try_update_membership(
        self,
        current_block_number: BlockNumber,
        config: &Config,
        outcomes: &TrieMap<Result<FinalizedDeclarationState, OpFailure>>,
    ) -> (r: Result<Self, Error>)
        requires
            self.well_formed(),
            self.sdp.well_formed(),
            config.service_params.well_formed(),
            self.sdp.declarations@.dom().subset_of(outcomes@.dom()),
        ensures
            match r {
                Ok(state) => {
                    &&& state.well_formed()
                    &&& current_block_number < u64::MAX - 1 ==> state.sdp.well_formed()
                    &&& state == (LedgerState { sdp: state.sdp, ..self })
                    &&& is_membership_update(
                        &self.sdp,
                        current_block_number,
                        config,
                        outcomes@,
                        Ok(state.sdp),
                    )
                },
                Err(error) => error matches Error::Sdp(failure) && is_membership_update(
                    &self.sdp,
                    current_block_number,
                    config,
                    outcomes@,
                    Err(failure),
                ),
            },
    {
        match self.sdp.try_update_session(current_block_number, &config.service_params, outcomes) {
            Ok(sdp) => Ok(
                LedgerState {
                    channels: self.channels,
                    sdp,
                    locked_notes: self.locked_notes,
                    leaders: self.leaders,
                },
            ),
            Err(error) => Err(Error::Sdp(error)),
        }
    }
}

/// Whether `r` is what comes of bringing the sessions of `before` up to date.
pub open spec fn is_membership_update(
    before: &SdpLedger,
    block_number: BlockNumber,
    config: &Config,
    outcomes: Map<DeclarationId, Result<FinalizedDeclarationState, OpFailure>>,
    r: Result<SdpLedger, SdpLedgerError>,
) -> bool {
    let params = config.service_params;
    let all_counted = forall|id: DeclarationId| #[trigger]
        before.declarations@.dom().contains(id) ==> membership::is_counted(
            before.declarations@[id],
            &params,
            outcomes[id],
        );
    match r {
        Ok(after) => {
            &&& all_counted
            &&& membership::missing_params(&params) is None
            &&& exists|formed: SdpLedger|
                membership::is_formed(before, outcomes, &formed)
                    && #[trigger] membership::is_promoted(&formed, block_number, &params, &after)
        },
        Err(error) => if all_counted {
            membership::missing_params(&params) matches Some(service) && error
                == SdpLedgerError::SessionParamsNotFound(service)
        } else {
            exists|id: DeclarationId| #[trigger]
                before.declarations@.dom().contains(id) && !membership::is_counted(
                    before.declarations@[id],
                    &params,
                    outcomes[id],
                ) && error == membership::count_failure(
                    before.declarations@[id],
                    &params,
                    outcomes[id],
                )
        },
    }
}

impl<H> Clone for LedgerState<H> {
    fn clone(&self) -> (r: Self)
        ensures
            r == *self,
    {
        LedgerState {
            channels: self.channels.clone(),
            sdp: self.sdp.clone(),
            locked_notes: self.locked_notes.clone(),
            leaders: self.leaders.clone(),
        }
    }
}

} // verus!
