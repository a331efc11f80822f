//! Laws of operations.
use vstd::prelude::*;

use crate::mantle::leader;
use crate::mantle::lock_laws;
use crate::mantle::locked_notes;
use crate::merkle::hasher::{MerkleHasher, NodeHash};
use crate::session::channel;
use crate::session::channel::{ChannelId, MsgId, PublicKey};
use crate::session::config::Config;
use crate::session::mantle;
use crate::session::mantle::{Error, LedgerState, Op, OpContext, OpProof, Progress};
use crate::session::membership::{
    DeclarationMsg, DeclarationState, DeclareOp, FinalizedDeclarationState, SdpLedger,
    SdpLedgerError, Session, Sessions,
};
use crate::session::services::ProviderInfo;
use crate::signature;
use crate::types::{
    Balance, BlockNumber, DeclarationId, Nonce, NoteId, OpFailure, ProviderId, ServiceType, Utxo,
    VoucherNullifier,
};

verus! {

/// A declaration is accepted if and only if it is signed by the keys of its note and of its
/// provider, the note that it locks is unspent and worth the least stake at least and does not
/// back the service yet, and there is no such declaration. A note that is worth less is told.
pub proof fn declarations_lock_enough_stake<H: MerkleHasher>(
    before: LedgerState<H>,
    balance: Balance,
    config: &Config,
    utxos: Map<NoteId, (Utxo, usize)>,
    context: OpContext,
    op: DeclareOp,
    zk_valid: bool,
    ed25519_sig: [u8; 64],
    r: Progress<H>,
)
    requires
        mantle::is_next(
            config,
            utxos,
            context,
            Ok((before, balance)),
            (Op::SdpDeclare(op), Some(OpProof::ZkAndEd25519Sigs { zk_valid, ed25519_sig })),
            r,
        ),
    ensures
        ({
            let note_id = op.locked_note_id;
            let value = utxos[note_id].0.note.value;
            let unspent = utxos.dom().contains(note_id);
            let signed = zk_valid && signature::ed25519_signed(
                op.provider_id@,
                context.tx_hash@,
                ed25519_sig@,
            );
            let free = !lock_laws::backs(before.locked_notes@, note_id, op.service_type);
            &&& r is Ok <==> unspent && signed && value >= config.min_stake.threshold && free
                && !before.sdp.declarations@.dom().contains(op.declaration_id)
            &&& r == Err::<(LedgerState<H>, Balance), _>(Error::NoteNotFound(note_id)) <==> !unspent
            &&& r == Err::<(LedgerState<H>, Balance), _>(Error::InvalidSignature) <==> unspent
                && !signed
            &&& r == Err::<(LedgerState<H>, Balance), _>(
                Error::LockedNotes(locked_notes::Error::NoteInsufficientValue { note_id, value }),
            ) <==> unspent && signed && value < config.min_stake.threshold
            &&& r == Err::<(LedgerState<H>, Balance), _>(
                Error::LockedNotes(
                    locked_notes::Error::NoteAlreadyUsedForService {
                        note_id,
                        service_type: op.service_type,
                    },
                ),
            ) <==> unspent && signed && value >= config.min_stake.threshold && !free
        }),
{
}

/// A declaration that is accepted is kept as it was made, at the block that it was made in. It
/// locks its note for its service. Nothing else changes, and nothing is earned.
pub proof fn declarations_are_kept_as_made<H: MerkleHasher>(
    before: LedgerState<H>,
    balance: Balance,
    config: &Config,
    utxos: Map<NoteId, (Utxo, usize)>,
    context: OpContext,
    op: DeclareOp,
    proof: Option<OpProof>,
    after: LedgerState<H>,
    total: Balance,
    other_note: NoteId,
    other_service: ServiceType,
)
    requires
        mantle::is_next(
            config,
            utxos,
            context,
            Ok((before, balance)),
            (Op::SdpDeclare(op), proof),
            Ok((after, total)),
        ),
    ensures
        after.sdp.declarations@ == before.sdp.declarations@.insert(
            op.declaration_id,
            DeclarationState {
                service_type: op.service_type,
                locked_note_id: op.locked_note_id,
                provider_id: op.provider_id,
                zk_id: op.zk_id,
                locators: op.locators,
                created: context.block_number,
                active: context.block_number,
                withdrawn: None,
                nonce: 0,
            },
        ),
        lock_laws::backs(after.locked_notes@, other_note, other_service) <==> (other_note
            == op.locked_note_id && other_service == op.service_type) || lock_laws::backs(
            before.locked_notes@,
            other_note,
            other_service,
        ),
        after.channels == before.channels,
        after.leaders == before.leaders,
        after.sdp.active_sessions == before.sdp.active_sessions,
        after.sdp.forming_sessions == before.sdp.forming_sessions,
        total == balance,
{
}

/// An activity message is accepted if and only if there is the declaration, its note is unspent,
/// the message is signed, the service has parameters, the nonce is greater than that of the last
/// message, and the declaration can take it. The nonce is then that of the declaration.
pub proof fn activity_is_in_order<H: MerkleHasher>(
    before: LedgerState<H>,
    balance: Balance,
    config: &Config,
    utxos: Map<NoteId, (Utxo, usize)>,
    context: OpContext,
    msg: DeclarationMsg,
    transition: Result<DeclarationState, OpFailure>,
    valid: bool,
    r: Progress<H>,
)
    requires
        mantle::is_next(
            config,
            utxos,
            context,
            Ok((before, balance)),
            (Op::SdpActive { msg, transition }, Some(OpProof::ZkSig { valid })),
            r,
        ),
    ensures
        ({
            let declarations = before.sdp.declarations@;
            let declaration = declarations[msg.declaration_id];
            let offered = match declaration.service_type {
                ServiceType::BlendNetwork => config.service_params.blend_network is Some,
                ServiceType::DataAvailability => config.service_params.data_availability is Some,
            };
            let verified = declarations.dom().contains(msg.declaration_id) && utxos.dom().contains(
                declaration.locked_note_id,
            ) && valid;
            &&& r is Ok <==> verified && offered && msg.nonce > declaration.nonce && transition
                is Ok
            &&& r == Err::<(LedgerState<H>, Balance), _>(
                Error::Sdp(SdpLedgerError::SdpInvalidNonce(msg.nonce)),
            ) <==> verified && offered && msg.nonce <= declaration.nonce
            &&& r == Err::<(LedgerState<H>, Balance), _>(
                Error::Sdp(SdpLedgerError::SdpDeclarationNotFound(msg.declaration_id)),
            ) <==> !declarations.dom().contains(msg.declaration_id)
            &&& r matches Ok((after, total)) ==> {
                &&& after.sdp.declarations@ == declarations.insert(
                    msg.declaration_id,
                    DeclarationState { nonce: msg.nonce, ..transition->Ok_0 },
                )
                &&& after.sdp.active_sessions == before.sdp.active_sessions
                &&& after.sdp.forming_sessions == before.sdp.forming_sessions
                &&& after.locked_notes == before.locked_notes
                &&& after.channels == before.channels
                &&& after.leaders == before.leaders
                &&& total == balance
            }
        }),
{
}

/// A withdrawal is accepted if and only if an activity message would be, and the note is locked
/// for the service of the declaration. The note is then not locked for it any more, and nothing
/// else is unlocked.
pub proof fn withdrawals_unlock_their_note<H: MerkleHasher>(
    before: LedgerState<H>,
    balance: Balance,
    config: &Config,
    utxos: Map<NoteId, (Utxo, usize)>,
    context: OpContext,
    msg: DeclarationMsg,
    transition: Result<DeclarationState, OpFailure>,
    valid: bool,
    r: Progress<H>,
    other_note: NoteId,
    other_service: ServiceType,
)
    requires
        mantle::is_next(
            config,
            utxos,
            context,
            Ok((before, balance)),
            (Op::SdpWithdraw { msg, transition }, Some(OpProof::ZkSig { valid })),
            r,
        ),
    ensures
        ({
            let declarations = before.sdp.declarations@;
            let declaration = declarations[msg.declaration_id];
            let offered = match declaration.service_type {
                ServiceType::BlendNetwork => config.service_params.blend_network is Some,
                ServiceType::DataAvailability => config.service_params.data_availability is Some,
            };
            let verified = declarations.dom().contains(msg.declaration_id) && utxos.dom().contains(
                declaration.locked_note_id,
            ) && valid;
            let locked = lock_laws::backs(
                before.locked_notes@,
                declaration.locked_note_id,
                declaration.service_type,
            );
            &&& r is Ok <==> verified && locked && offered && msg.nonce > declaration.nonce
                && transition is Ok
            &&& r == Err::<(LedgerState<H>, Balance), _>(
                Error::Sdp(SdpLedgerError::SdpInvalidNonce(msg.nonce)),
            ) <==> verified && locked && offered && msg.nonce <= declaration.nonce
            &&& r matches Ok((after, total)) ==> {
                &&& after.sdp.declarations@ == declarations.insert(
                    msg.declaration_id,
                    DeclarationState { nonce: msg.nonce, ..transition->Ok_0 },
                )
                &&& lock_laws::backs(after.locked_notes@, other_note, other_service) <==> !(
                other_note == declaration.locked_note_id && other_service
                    == declaration.service_type) && lock_laws::backs(
                    before.locked_notes@,
                    other_note,
                    other_service,
                )
                &&& after.sdp.active_sessions == before.sdp.active_sessions
                &&& after.sdp.forming_sessions == before.sdp.forming_sessions
                &&& after.channels == before.channels
                &&& after.leaders == before.leaders
                &&& total == balance
            }
        }),
{
}

/// The declaration that an operation is a message about.
pub open spec fn subject_of(op: Op) -> Option<DeclarationId> {
    match op {
        Op::SdpActive { msg, .. } => Some(msg.declaration_id),
        Op::SdpWithdraw { msg, .. } => Some(msg.declaration_id),
        _ => None,
    }
}

/// The nonce of a message about a declaration.
pub open spec fn nonce_of(op: Op) -> Nonce {
    match op {
        Op::SdpActive { msg, .. } => msg.nonce,
        Op::SdpWithdraw { msg, .. } => msg.nonce,
        _ => 0,
    }
}

/// Nonces only grow: a transaction leaves each declaration, whose nonce is not less than before,
/// greater than before for each message about it, and that of the last message at least.
pub proof fn nonces_only_grow<H: MerkleHasher>(
    before: &LedgerState<H>,
    config: &Config,
    utxos: Map<NoteId, (Utxo, usize)>,
    context: OpContext,
    ops: Seq<(Op, Option<OpProof>)>,
    after: LedgerState<H>,
    balance: Balance,
    id: DeclarationId,
)
    requires
        mantle::is_run(before, config, utxos, context, ops, Ok((after, balance))),
        before.sdp.declarations@.dom().contains(id),
    ensures
        after.sdp.declarations@.dom().contains(id),
        after.sdp.declarations@[id].nonce >= before.sdp.declarations@[id].nonce,
        forall|i: int|
            0 <= i < ops.len() && #[trigger] subject_of(ops[i].0) == Some(id)
                ==> before.sdp.declarations@[id].nonce < nonce_of(ops[i].0)
                <= after.sdp.declarations@[id].nonce,
    decreases ops.len(),
{
    if ops.len() > 0 {
        let r: Progress<H> = Ok((after, balance));
        let mid = choose|mid: Progress<H>|
            mantle::is_run(before, config, utxos, context, ops.drop_last(), mid)
                && #[trigger] mantle::is_next(config, utxos, context, mid, ops.last(), r);
        let (state, mid_balance) = mid->Ok_0;
        let rest = ops.drop_last();
        nonces_only_grow(before, config, utxos, context, rest, state, mid_balance, id);
        assert forall|i: int|
            0 <= i < ops.len() && #[trigger] subject_of(ops[i].0) == Some(
                id,
            ) implies before.sdp.declarations@[id].nonce < nonce_of(ops[i].0)
            <= after.sdp.declarations@[id].nonce by {
            if i < ops.len() - 1 {
                assert(subject_of(rest[i].0) == Some(id));
            }
        }
    }
}

/// No message is accepted twice: of two messages about a declaration in a transaction, the later
/// one has the greater nonce.
pub proof fn messages_are_not_repeated<H: MerkleHasher>(
    before: &LedgerState<H>,
    config: &Config,
    utxos: Map<NoteId, (Utxo, usize)>,
    context: OpContext,
    ops: Seq<(Op, Option<OpProof>)>,
    after: LedgerState<H>,
    balance: Balance,
    i: int,
    j: int,
    id: DeclarationId,
)
    requires
        mantle::is_run(before, config, utxos, context, ops, Ok((after, balance))),
        0 <= i < j < ops.len(),
        subject_of(ops[i].0) == Some(id),
        subject_of(ops[j].0) == Some(id),
        before.sdp.declarations@.dom().contains(id),
    ensures
        nonce_of(ops[i].0) < nonce_of(ops[j].0),
    decreases ops.len(),
{
    let r: Progress<H> = Ok((after, balance));
    let mid = choose|mid: Progress<H>|
        mantle::is_run(before, config, utxos, context, ops.drop_last(), mid)
            && #[trigger] mantle::is_next(config, utxos, context, mid, ops.last(), r);
    let (state, mid_balance) = mid->Ok_0;
    let rest = ops.drop_last();
    if j < ops.len() - 1 {
        messages_are_not_repeated(
            before,
            config,
            utxos,
            context,
            rest,
            state,
            mid_balance,
            i,
            j,
            id,
        );
    } else {
        nonces_only_grow(before, config, utxos, context, rest, state, mid_balance, id);
        assert(subject_of(rest[i].0) == Some(id));
    }
}

/// A reward is paid if and only if the voucher was not claimed before and the claim is for the
/// vouchers of the epoch. What is left is shared equally among the vouchers that were not
/// claimed, rounded down, and what is paid is not left any more.
pub proof fn claims_take_an_equal_share<H: MerkleHasher>(
    before: LedgerState<H>,
    balance: Balance,
    config: &Config,
    utxos: Map<NoteId, (Utxo, usize)>,
    context: OpContext,
    voucher_nullifier: VoucherNullifier,
    rewards_root: NodeHash,
    r: Progress<H>,
    other: VoucherNullifier,
)
    requires
        before.leaders.nfs@.len() <= before.leaders.n_claimable_vouchers,
        mantle::is_next(
            config,
            utxos,
            context,
            Ok((before, balance)),
            (Op::LeaderClaim { voucher_nullifier, rewards_root }, None),
            r,
        ),
    ensures
        r is Ok <==> !before.leaders.nfs@.contains(voucher_nullifier) && rewards_root
            == before.leaders.claimable_vouchers_root,
        r == Err::<(LedgerState<H>, Balance), _>(
            Error::Leader(leader::Error::DuplicatedVoucherNullifier),
        ) <==> before.leaders.nfs@.contains(voucher_nullifier),
        r matches Ok((after, total)) ==> {
            let paid = total - balance;
            let left = before.leaders.n_claimable_vouchers - before.leaders.nfs@.len();
            &&& 0 <= paid
            &&& left > 0 ==> paid * left <= before.leaders.claimable_rewards < (paid + 1) * left
            &&& left == 0 ==> paid == 0
            &&& after.leaders.claimable_rewards + paid == before.leaders.claimable_rewards
            &&& after.leaders.nfs@.contains(other) <==> other == voucher_nullifier
                || before.leaders.nfs@.contains(other)
            &&& after.leaders.epoch == before.leaders.epoch
            &&& after.leaders.claimable_vouchers_root == before.leaders.claimable_vouchers_root
            &&& after.leaders.n_claimable_vouchers == before.leaders.n_claimable_vouchers
            &&& after.leaders.vouchers == before.leaders.vouchers
            &&& after.channels == before.channels
            &&& after.sdp == before.sdp
            &&& after.locked_notes == before.locked_notes
        },
{
    if r is Ok {
        let left = before.leaders.n_claimable_vouchers - before.leaders.nfs@.len();
        let all = before.leaders.claimable_rewards as int;
        if left > 0 {
            let share = all / left;
            assert(share * left <= all < (share + 1) * left && 0 <= share <= all)
                by (nonlinear_arith)
                requires
                    left > 0,
                    all >= 0,
                    share == all / left,
            ;
        }
    }
}

/// A message is posted in a channel if and only if it follows the last one and its author has a
/// key of the channel. The first message makes the channel, with the key of its author alone. The
/// message is then the last one, and nothing else changes.
pub proof fn messages_follow_the_last_one<H: MerkleHasher>(
    before: LedgerState<H>,
    balance: Balance,
    config: &Config,
    utxos: Map<NoteId, (Utxo, usize)>,
    context: OpContext,
    channel: ChannelId,
    parent: MsgId,
    id: MsgId,
    signer: PublicKey,
    op: Op,
    proof: Option<OpProof>,
    r: Progress<H>,
)
    requires
        op == (Op::ChannelBlob { channel, parent, id, signer }) || op == (Op::ChannelInscribe {
            channel,
            parent,
            id,
            signer,
        }),
        proof is None || proof->0 is Ed25519Sig,
        mantle::is_next(config, utxos, context, Ok((before, balance)), (op, proof), r),
    ensures
        ({
            let channels = before.channels@;
            let known = channels.dom().contains(channel);
            &&& known ==> (r is Ok <==> parent == channels[channel].0
                && channels[channel].1.contains(signer))
            &&& !known ==> (r is Ok <==> parent@ == Seq::new(32, |k: int| 0u8))
            &&& known && parent != channels[channel].0 <==> known && r == Err::<
                (LedgerState<H>, Balance),
                _,
            >(
                Error::Channel(
                    channel::Error::InvalidParent {
                        channel_id: channel,
                        parent,
                        actual: channels[channel].0,
                    },
                ),
            )
            &&& known && parent == channels[channel].0 && !channels[channel].1.contains(signer)
                <==> r == Err::<(LedgerState<H>, Balance), _>(
                Error::Channel(channel::Error::UnauthorizedSigner { channel_id: channel, signer }),
            )
            &&& r matches Ok((after, total)) ==> {
                &&& after.channels@ == channels.insert(
                    channel,
                    (
                        id,
                        if known {
                            channels[channel].1
                        } else {
                            seq![signer]
                        },
                    ),
                )
                &&& after.sdp == before.sdp
                &&& after.locked_notes == before.locked_notes
                &&& after.leaders == before.leaders
                &&& total == balance
            }
        }),
{
    let keys = seq![signer];
    assert(keys[0] == signer);
    let zeros: [u8; 32] = channel::root();
    assert(zeros@ =~= Seq::new(32, |k: int| 0u8));
    if parent@ == Seq::new(32, |k: int| 0u8) {
        assert(parent =~= zeros);
    }
}

/// The keys of a channel are replaced if and only if there are new ones, and the first of the
/// old ones has signed, if there are any. The last message stays, and nothing else changes.
pub proof fn keys_are_replaced_by_the_first<H: MerkleHasher>(
    before: LedgerState<H>,
    balance: Balance,
    config: &Config,
    utxos: Map<NoteId, (Utxo, usize)>,
    context: OpContext,
    channel: ChannelId,
    keys: Vec<PublicKey>,
    sig: [u8; 64],
    r: Progress<H>,
)
    requires
        mantle::is_next(
            config,
            utxos,
            context,
            Ok((before, balance)),
            (Op::ChannelSetKeys { channel, keys }, Some(OpProof::Ed25519Sig(sig))),
            r,
        ),
    ensures
        ({
            let channels = before.channels@;
            let known = channels.dom().contains(channel);
            let signed = known ==> signature::ed25519_signed(
                channels[channel].1[0]@,
                context.tx_hash@,
                sig@,
            );
            &&& r is Ok <==> keys@.len() > 0 && signed
            &&& r == Err::<(LedgerState<H>, Balance), _>(
                Error::Channel(channel::Error::EmptyKeys { channel_id: channel }),
            ) <==> keys@.len() == 0
            &&& r == Err::<(LedgerState<H>, Balance), _>(
                Error::Channel(channel::Error::InvalidSignature),
            ) <==> keys@.len() > 0 && !signed
            &&& r matches Ok((after, total)) ==> {
                &&& after.channels@.dom() == channels.dom().insert(channel)
                &&& after.channels@[channel].1 == keys@
                &&& known ==> after.channels@[channel].0 == channels[channel].0
                &&& !known ==> after.channels@[channel].0@ == Seq::new(32, |k: int| 0u8)
                &&& forall|other: ChannelId|
                    other != channel ==> #[trigger] after.channels@[other] == channels[other]
                &&& after.sdp == before.sdp
                &&& after.locked_notes == before.locked_notes
                &&& after.leaders == before.leaders
                &&& total == balance
            }
        }),
{
    assert(channel::root()@ =~= Seq::new(32, |k: int| 0u8));
}

/// An operation comes with the proof that it takes, or is not supported.
pub proof fn operations_take_their_proofs<H: MerkleHasher>(
    before: LedgerState<H>,
    balance: Balance,
    config: &Config,
    utxos: Map<NoteId, (Utxo, usize)>,
    context: OpContext,
    op: Op,
    proof: Option<OpProof>,
    r: Progress<H>,
)
    requires
        mantle::is_next(config, utxos, context, Ok((before, balance)), (op, proof), r),
    ensures
        r == Err::<(LedgerState<H>, Balance), _>(Error::UnsupportedOp) <==> match op {
            Op::ChannelBlob { .. } => proof is Some && !(proof->0 is Ed25519Sig),
            Op::ChannelInscribe { .. } => proof is Some && !(proof->0 is Ed25519Sig),
            Op::ChannelSetKeys { .. } => !(proof is Some && proof->0 is Ed25519Sig),
            Op::SdpDeclare(_) => !(proof is Some && proof->0 is ZkAndEd25519Sigs),
            Op::SdpActive { .. } => !(proof is Some && proof->0 is ZkSig),
            Op::SdpWithdraw { .. } => !(proof is Some && proof->0 is ZkSig),
            Op::LeaderClaim { .. } => proof is Some,
            Op::Native => true,
        },
{
}

/// A declaration is signed by the key of the note that it locks, and by its own. A message about
/// it is signed by the same keys.
pub proof fn messages_are_signed_like_declarations(
    declarations: Map<DeclarationId, DeclarationState>,
    utxos: Map<NoteId, (Utxo, usize)>,
    op: DeclareOp,
    msg: DeclarationMsg,
    transition: Result<DeclarationState, OpFailure>,
)
    ensures
        mantle::signers_of(declarations, utxos, &Op::SdpDeclare(op)) is Some
            <==> utxos.dom().contains(op.locked_note_id),
        utxos.dom().contains(op.locked_note_id) ==> mantle::signers_of(
            declarations,
            utxos,
            &Op::SdpDeclare(op),
        ) == Some(seq![utxos[op.locked_note_id].0.note.pk, op.zk_id]),
        declarations.dom().contains(msg.declaration_id)
            && declarations[msg.declaration_id].locked_note_id == op.locked_note_id
            && declarations[msg.declaration_id].zk_id == op.zk_id ==> {
            &&& mantle::signers_of(declarations, utxos, &Op::SdpActive { msg, transition })
                == mantle::signers_of(declarations, utxos, &Op::SdpDeclare(op))
            &&& mantle::signers_of(declarations, utxos, &Op::SdpWithdraw { msg, transition })
                == mantle::signers_of(declarations, utxos, &Op::SdpDeclare(op))
        },
{
}

/// The next state of a declaration follows from its state and the parameters of its own service,
/// if it has both.
pub proof fn transitions_follow_from_the_declaration(
    declarations: Map<DeclarationId, DeclarationState>,
    config: &Config,
    id: DeclarationId,
)
    ensures
        ({
            let inputs = mantle::inputs_of_transition(declarations, config, id);
            let params = match declarations[id].service_type {
                ServiceType::BlendNetwork => config.service_params.blend_network,
                ServiceType::DataAvailability => config.service_params.data_availability,
            };
            &&& inputs is Some <==> declarations.dom().contains(id) && params is Some
            &&& inputs matches Some((state, used)) ==> state == declarations[id] && Some(used)
                == params
        }),
{
}

/// The session of `service`.
pub open spec fn session_of(sessions: Sessions, service: ServiceType) -> Session {
    match service {
        ServiceType::BlendNetwork => sessions.blend_network,
        ServiceType::DataAvailability => sessions.data_availability,
    }
}

/// Once per block, the declarations of a service that amount to active ones take part in the
/// session that is forming, and the others do not. That session starts as soon as the block is
/// one of its blocks, or of a later session, and the next one then forms from the same
/// declarations. Otherwise the running session goes on as it is.
pub proof fn sessions_take_active_declarations(
    before: &SdpLedger,
    block_number: BlockNumber,
    config: &Config,
    outcomes: Map<DeclarationId, Result<FinalizedDeclarationState, OpFailure>>,
    after: SdpLedger,
    service: ServiceType,
    id: DeclarationId,
)
    requires
        before.well_formed(),
        config.service_params.well_formed(),
        mantle::is_membership_update(before, block_number, config, outcomes, Ok(after)),
    ensures
        config.service_params.blend_network is Some,
        config.service_params.data_availability is Some,
        ({
            let duration = match service {
                ServiceType::BlendNetwork => config.service_params.blend_network->0.session_duration,
                ServiceType::DataAvailability => {
                    config.service_params.data_availability->0.session_duration
                },
            };
            let forming = session_of(before.forming_sessions, service);
            let new_active = session_of(after.active_sessions, service);
            let new_forming = session_of(after.forming_sessions, service);
            let of_service = before.declarations@.dom().contains(id)
                && before.declarations@[id].service_type == service;
            &&& of_service ==> (new_forming.declarations@.contains(id) <==> outcomes[id] == Ok::<
                _,
                OpFailure,
            >(FinalizedDeclarationState::Active))
            &&& !of_service ==> (new_forming.declarations@.contains(id)
                <==> forming.declarations@.contains(id))
            &&& forming.session_number * duration <= block_number ==> {
                &&& new_active.session_number == forming.session_number
                &&& new_active.declarations@ == new_forming.declarations@
                &&& new_forming.session_number == forming.session_number + 1
            }
            &&& forming.session_number * duration > block_number ==> {
                &&& new_active == session_of(before.active_sessions, service)
                &&& new_forming.session_number == forming.session_number
            }
        }),
        after.declarations == before.declarations,
{
    let formed = choose|formed: SdpLedger|
        crate::session::membership::is_formed(before, outcomes, &formed)
            && #[trigger] crate::session::membership::is_promoted(
            &formed,
            block_number,
            &config.service_params,
            &after,
        );
    assert(crate::session::membership::is_service_promoted(
        &formed,
        block_number,
        &config.service_params,
        &after,
        service,
    ));
    let forming = formed.forming_sessions.of(service);
    assert(forming.session_number == before.forming_sessions.of(service).session_number);
    assert(forming.declarations@ == crate::session::membership::formed(
        before.forming_sessions.of(service).declarations@,
        before.declarations@,
        outcomes,
        service,
    ));
    if before.declarations@.dom().contains(id) {
        assert(outcomes[id] is Ok);
    }
    let d = config.service_params.of(service)->0.session_duration as int;
    let n = forming.session_number as int;
    let b = block_number as int;
    assert(n <= b / d <==> n * d <= b) by (nonlinear_arith)
        requires
            d > 0,
            b >= 0,
            n >= 0,
    ;
}

/// The sessions are brought up to date if and only if both services have parameters and of each
/// declaration it is known what it amounts to.
pub proof fn sessions_need_all_outcomes(
    before: &SdpLedger,
    block_number: BlockNumber,
    config: &Config,
    outcomes: Map<DeclarationId, Result<FinalizedDeclarationState, OpFailure>>,
    r: Result<SdpLedger, SdpLedgerError>,
)
    requires
        mantle::is_membership_update(before, block_number, config, outcomes, r),
    ensures
        r is Ok <==> {
            &&& config.service_params.blend_network is Some
            &&& config.service_params.data_availability is Some
            &&& forall|id: DeclarationId| #[trigger]
                before.declarations@.dom().contains(id) ==> outcomes[id] is Ok
        },
        r matches Err(SdpLedgerError::SdpStateError(failure)) ==> exists|id: DeclarationId|
            #[trigger] before.declarations@.dom().contains(id) && outcomes[id] == Err::<
                FinalizedDeclarationState,
                _,
            >(failure),
{
    if r is Err {
        let params = config.service_params;
        let all = forall|id: DeclarationId| #[trigger]
            before.declarations@.dom().contains(id)
                ==> crate::session::membership::is_counted(
                before.declarations@[id],
                &params,
                outcomes[id],
            );
        if !all {
            let id = choose|id: DeclarationId| #[trigger]
                before.declarations@.dom().contains(id)
                    && !crate::session::membership::is_counted(
                    before.declarations@[id],
                    &params,
                    outcomes[id],
                ) && r->Err_0 == crate::session::membership::count_failure(
                    before.declarations@[id],
                    &params,
                    outcomes[id],
                );
            assert(before.declarations@.dom().contains(id));
        }
    }
}

/// The providers of a session are those of the declarations that take part in it and are known.
/// Each is known by the keys and the locators of such a declaration.
pub proof fn sessions_have_the_providers_of_their_declarations(
    session: Session,
    declarations: Map<DeclarationId, DeclarationState>,
    providers: Map<ProviderId, ProviderInfo>,
    provider: ProviderId,
)
    requires
        mantle::is_provider_map(session, declarations, providers),
    ensures
        providers.dom().contains(provider) <==> exists|id: DeclarationId| #[trigger]
            declarations.dom().contains(id) && session.declarations@.contains(id)
                && declarations[id].provider_id == provider,
        providers.dom().contains(provider) ==> exists|id: DeclarationId| #[trigger]
            declarations.dom().contains(id) && session.declarations@.contains(id)
                && declarations[id].provider_id == provider && providers[provider].zk_id
                == declarations[id].zk_id && providers[provider].locators
                == declarations[id].locators,
{
    if providers.dom().contains(provider) {
        assert(mantle::is_provider(session, declarations, provider, providers[provider]));
        let id = choose|id: DeclarationId| #[trigger]
            declarations.dom().contains(id) && session.declarations@.contains(id)
                && declarations[id].provider_id == provider && providers[provider] == (
            ProviderInfo { zk_id: declarations[id].zk_id, locators: declarations[id].locators });
        assert(declarations.dom().contains(id));
    }
}

} // verus!
