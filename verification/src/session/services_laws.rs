//! Laws of declarations in services.
use vstd::prelude::*;

use crate::mantle::lock_laws;
use crate::mantle::locked_notes as locks;
use crate::session::membership::{DeclarationMsg, DeclareOp, ServiceParameters};
use crate::session::services;
use crate::session::services::{
    Config, Declaration, Error, ProviderInfo, SdpLedger, ServiceState, SessionState,
};
use crate::signature;
use crate::types::{
    BlockNumber, DeclarationId, Note, NoteId, ProviderId, ServiceType, TxHash,
};

verus! {

/// The state of `service`, if the ledger offers it.
pub open spec fn offered(sdp: &SdpLedger, service: ServiceType) -> Option<ServiceState> {
    match service {
        ServiceType::BlendNetwork => sdp.blend_network,
        ServiceType::DataAvailability => sdp.data_availability,
    }
}

/// Whether `declaration` is what the ledger looks at when a message names `id`: it is one of
/// `service`, whose parameters are `params`, and no declaration for the Blend network comes
/// before it.
pub open spec fn is_named(
    sdp: &SdpLedger,
    config: &Config,
    id: DeclarationId,
    service: ServiceType,
    params: ServiceParameters,
    declaration: Declaration,
) -> bool {
    &&& offered(sdp, service) matches Some(state)
    &&& state.declarations@.dom().contains(id)
    &&& state.declarations@[id] == declaration
    &&& match service {
        ServiceType::BlendNetwork => config.service_params.blend_network == Some(params),
        ServiceType::DataAvailability => {
            &&& config.service_params.data_availability == Some(params)
            &&& sdp.blend_network matches Some(blend) ==> !blend.declarations@.dom().contains(id)
        },
    }
}

/// A declaration is accepted if and only if both signatures are valid, the service is offered
/// and does not have the declaration yet, and the note that backs it is worth the least stake at
/// least and does not back the service yet.
pub proof fn declarations_are_signed_and_backed(
    before: &SdpLedger,
    op: DeclareOp,
    note: Note,
    zk_sig_valid: bool,
    ed25519_sig: Seq<u8>,
    tx_hash: TxHash,
    config: &Config,
    r: Result<SdpLedger, Error>,
)
    requires
        services::is_declare_result(
            before,
            op,
            note,
            zk_sig_valid,
            ed25519_sig,
            tx_hash,
            config,
            r,
        ),
    ensures
        r is Ok <==> {
            &&& zk_sig_valid
            &&& signature::ed25519_signed(op.provider_id@, tx_hash@, ed25519_sig)
            &&& offered(before, op.service_type) matches Some(state)
            &&& !state.declarations@.dom().contains(op.declaration_id)
            &&& note.value >= config.min_stake.threshold
            &&& !lock_laws::backs(before.locked_notes.services(), op.locked_note_id, op.service_type)
        },
        r == Err::<SdpLedger, _>(Error::InvalidSignature) <==> !zk_sig_valid
            || !signature::ed25519_signed(op.provider_id@, tx_hash@, ed25519_sig),
        r matches Err(Error::LockingError(locks::Error::NoteInsufficientValue { note_id, value }))
            ==> note_id == op.locked_note_id && value == note.value && value
            < config.min_stake.threshold,
        r matches Err(Error::DuplicateDeclaration(id)) ==> id == op.declaration_id && (offered(
            before,
            op.service_type,
        ) matches Some(state) && state.declarations@.dom().contains(id)),
        r matches Err(Error::ServiceNotFound(service)) ==> service == op.service_type && offered(
            before,
            service,
        ) is None,
{
}

/// A declaration that is accepted is kept as it was made, at the block that it was made in, and
/// its note backs the service from then on. Nothing else changes.
pub proof fn declarations_are_kept_as_made(
    before: &SdpLedger,
    op: DeclareOp,
    note: Note,
    zk_sig_valid: bool,
    ed25519_sig: Seq<u8>,
    tx_hash: TxHash,
    config: &Config,
    after: SdpLedger,
    other: DeclarationId,
    other_note: NoteId,
    other_service: ServiceType,
)
    requires
        services::is_declare_result(
            before,
            op,
            note,
            zk_sig_valid,
            ed25519_sig,
            tx_hash,
            config,
            Ok(after),
        ),
    ensures
        offered(&after, op.service_type) matches Some(state) && {
            let old_state = offered(before, op.service_type)->0;
            let kept = state.declarations@[op.declaration_id];
            &&& state.declarations@.dom().contains(op.declaration_id)
            &&& kept.service_type == op.service_type
            &&& kept.provider_id == op.provider_id
            &&& kept.locked_note_id == op.locked_note_id
            &&& kept.zk_id == op.zk_id
            &&& kept.locators == op.locators
            &&& kept.created == before.block_number
            &&& kept.active == before.block_number
            &&& kept.nonce == 0
            &&& other != op.declaration_id ==> state.declarations@.dom().contains(other)
                == old_state.declarations@.dom().contains(other) && state.declarations@[other]
                == old_state.declarations@[other]
            &&& state.active == old_state.active
            &&& state.past_session == old_state.past_session
            &&& state.forming == old_state.forming
        },
        other_service != op.service_type ==> offered(&after, other_service) == offered(
            before,
            other_service,
        ),
        lock_laws::backs(after.locked_notes.services(), other_note, other_service) <==> (other_note
            == op.locked_note_id && other_service == op.service_type) || lock_laws::backs(
            before.locked_notes.services(),
            other_note,
            other_service,
        ),
        after.locked_notes.notes@[op.locked_note_id] == note,
        after.block_number == before.block_number,
{
}

/// A declaration is signed with the key of its note and with its own, and so is each message
/// about it after it was accepted.
pub proof fn messages_are_signed_like_declarations(
    before: &SdpLedger,
    op: DeclareOp,
    note: Note,
    zk_sig_valid: bool,
    ed25519_sig: Seq<u8>,
    tx_hash: TxHash,
    config: &Config,
    after: SdpLedger,
)
    requires
        services::is_declare_result(
            before,
            op,
            note,
            zk_sig_valid,
            ed25519_sig,
            tx_hash,
            config,
            Ok(after),
        ),
        op.service_type == ServiceType::BlendNetwork || (before.blend_network matches Some(blend)
            ==> !blend.declarations@.dom().contains(op.declaration_id)),
    ensures
        services::signers_of_declaration(op, note).len() == 2,
        services::signers_of_declaration(op, note)[0] == note.pk,
        services::signers_of_declaration(op, note)[1] == op.zk_id,
        services::signers_of_message(&after, op.declaration_id) == Some(
            services::signers_of_declaration(op, note),
        ),
{
}

/// A withdrawal is accepted if and only if its nonce is greater than that of the declaration,
/// the lock period since the declaration is over, the note still backs the service, and the
/// signature is valid.
pub proof fn withdrawals_wait_for_the_lock_period(
    before: &SdpLedger,
    op: DeclarationMsg,
    sig_valid: bool,
    config: &Config,
    service: ServiceType,
    params: ServiceParameters,
    declaration: Declaration,
    r: Result<SdpLedger, Error>,
)
    requires
        is_named(before, config, op.declaration_id, service, params, declaration),
        services::is_withdrawal_result(before, op, sig_valid, config, r),
    ensures
        r is Ok <==> {
            &&& op.nonce > declaration.nonce
            &&& before.block_number > declaration.created + params.lock_period
            &&& lock_laws::backs(
                before.locked_notes.services(),
                declaration.locked_note_id,
                declaration.service_type,
            )
            &&& sig_valid
        },
        op.nonce <= declaration.nonce <==> r == Err::<SdpLedger, _>(Error::InvalidNonce(op.nonce)),
        op.nonce > declaration.nonce && before.block_number <= declaration.created
            + params.lock_period <==> r == Err::<SdpLedger, _>(Error::WithdrawalWhileLocked),
        !sig_valid && op.nonce > declaration.nonce && before.block_number > declaration.created
            + params.lock_period && lock_laws::backs(
            before.locked_notes.services(),
            declaration.locked_note_id,
            declaration.service_type,
        ) <==> r == Err::<SdpLedger, _>(Error::InvalidSignature),
{
}

/// A declaration that is withdrawn is gone, and its note does not back its service any more.
/// Nothing else changes.
pub proof fn withdrawals_remove_one_declaration(
    before: &SdpLedger,
    op: DeclarationMsg,
    sig_valid: bool,
    config: &Config,
    service: ServiceType,
    params: ServiceParameters,
    declaration: Declaration,
    after: SdpLedger,
    other: DeclarationId,
    other_note: NoteId,
    other_service: ServiceType,
)
    requires
        is_named(before, config, op.declaration_id, service, params, declaration),
        services::is_withdrawal_result(before, op, sig_valid, config, Ok(after)),
    ensures
        offered(&after, service) matches Some(state) && {
            let old_state = offered(before, service)->0;
            &&& state.declarations@.dom().contains(other) <==> other != op.declaration_id
                && old_state.declarations@.dom().contains(other)
            &&& other != op.declaration_id ==> state.declarations@[other]
                == old_state.declarations@[other]
            &&& state.active == old_state.active
            &&& state.past_session == old_state.past_session
            &&& state.forming == old_state.forming
        },
        other_service != service ==> offered(&after, other_service) == offered(
            before,
            other_service,
        ),
        lock_laws::backs(after.locked_notes.services(), other_note, other_service) <==> !(other_note
            == declaration.locked_note_id && other_service == declaration.service_type) && lock_laws::backs(
            before.locked_notes.services(),
            other_note,
            other_service,
        ),
        after.block_number == before.block_number,
{
}

/// An activity message is accepted if and only if its nonce is greater than that of the
/// declaration, the note is locked, and the signature is valid.
pub proof fn activity_is_signed_and_in_order(
    before: &SdpLedger,
    op: DeclarationMsg,
    sig_valid: bool,
    config: &Config,
    service: ServiceType,
    params: ServiceParameters,
    declaration: Declaration,
    r: Result<SdpLedger, Error>,
)
    requires
        is_named(before, config, op.declaration_id, service, params, declaration),
        services::is_active_result(before, op, sig_valid, config, r),
    ensures
        r is Ok <==> {
            &&& op.nonce > declaration.nonce
            &&& before.locked_notes.notes@.dom().contains(declaration.locked_note_id)
            &&& sig_valid
        },
        op.nonce <= declaration.nonce <==> r == Err::<SdpLedger, _>(Error::InvalidNonce(op.nonce)),
        op.nonce > declaration.nonce && !before.locked_notes.notes@.dom().contains(
            declaration.locked_note_id,
        ) <==> r == Err::<SdpLedger, _>(
            Error::LockingError(locks::Error::NoteNotLocked(declaration.locked_note_id)),
        ),
        op.nonce > declaration.nonce && before.locked_notes.notes@.dom().contains(
            declaration.locked_note_id,
        ) && !sig_valid <==> r == Err::<SdpLedger, _>(Error::InvalidSignature),
{
}

/// Activity is kept with the block that it was reported in. Nothing else changes.
pub proof fn activity_is_kept(
    before: &SdpLedger,
    op: DeclarationMsg,
    sig_valid: bool,
    config: &Config,
    service: ServiceType,
    params: ServiceParameters,
    declaration: Declaration,
    after: SdpLedger,
    other: DeclarationId,
    other_service: ServiceType,
)
    requires
        is_named(before, config, op.declaration_id, service, params, declaration),
        services::is_active_result(before, op, sig_valid, config, Ok(after)),
    ensures
        offered(&after, service) matches Some(state) && {
            let old_state = offered(before, service)->0;
            &&& state.declarations@.dom() == old_state.declarations@.dom()
            &&& state.declarations@[op.declaration_id].active == before.block_number
            &&& state.declarations@[op.declaration_id] == (Declaration {
                active: before.block_number,
                ..declaration
            })
            &&& other != op.declaration_id ==> state.declarations@[other]
                == old_state.declarations@[other]
            &&& state.active == old_state.active
            &&& state.past_session == old_state.past_session
            &&& state.forming == old_state.forming
        },
        other_service != service ==> offered(&after, other_service) == offered(
            before,
            other_service,
        ),
        after.locked_notes == before.locked_notes,
        after.block_number == before.block_number,
{
    assert(offered(&after, service)->0.declarations@.dom() =~= offered(
        before,
        service,
    )->0.declarations@.dom());
}

/// Messages about declarations that there are not, or whose service has no parameters, are
/// rejected.
pub proof fn unknown_declarations_get_no_messages(
    before: &SdpLedger,
    op: DeclarationMsg,
    sig_valid: bool,
    config: &Config,
    r: Result<SdpLedger, Error>,
)
    requires
        services::is_active_result(before, op, sig_valid, config, r)
            || services::is_withdrawal_result(before, op, sig_valid, config, r),
    ensures
        r == Err::<SdpLedger, _>(Error::DeclarationNotFound(op.declaration_id)) <==> forall|
            service: ServiceType,
        |
            (#[trigger] offered(before, service)) matches Some(state)
                ==> !state.declarations@.dom().contains(op.declaration_id),
        (offered(before, ServiceType::BlendNetwork) matches Some(state)
            && state.declarations@.dom().contains(op.declaration_id)
            && config.service_params.blend_network is None) ==> r == Err::<SdpLedger, _>(
            Error::ServiceParamsNotFound(ServiceType::BlendNetwork),
        ),
{
    let blend = offered(before, ServiceType::BlendNetwork);
    let data = offered(before, ServiceType::DataAvailability);
    assert forall|service: ServiceType| (#[trigger] offered(before, service)) == blend || offered(
        before,
        service,
    ) == data by {}
}

/// Within a session nothing changes: the declarations that take part in the running session and
/// in the next one stay as they are.
pub proof fn sessions_are_fixed_while_they_run(
    state: ServiceState,
    block_number: BlockNumber,
    params: ServiceParameters,
)
    requires
        params.session_duration > 0,
        state.forming.session_n == state.active.session_n + 1,
        state.active.session_n * params.session_duration <= block_number,
        block_number < (state.active.session_n + 1) * params.session_duration,
    ensures
        state.after_header(block_number, params) == state,
{
    let d = params.session_duration as int;
    let n = state.active.session_n as int;
    let b = block_number as int;
    assert(b / d == n) by (nonlinear_arith)
        requires
            d > 0,
            n * d <= b < (n + 1) * d,
    ;
}

/// At the first block of the next session the one that was forming starts to run, the one that
/// was running becomes the last one, and the one after it forms from the declarations of now.
pub proof fn sessions_start_at_their_first_block(
    state: ServiceState,
    block_number: BlockNumber,
    params: ServiceParameters,
)
    requires
        params.session_duration > 0,
        state.forming.session_n < u64::MAX,
        (state.active.session_n + 1) * params.session_duration <= block_number,
        block_number < (state.active.session_n + 2) * params.session_duration,
    ensures
        state.after_header(block_number, params).active == state.forming,
        state.after_header(block_number, params).past_session == state.active,
        state.after_header(block_number, params).forming.session_n == state.forming.session_n + 1,
        state.after_header(block_number, params).forming.declarations == state.declarations,
        state.after_header(block_number, params).declarations == state.declarations,
{
    let d = params.session_duration as int;
    let n = state.active.session_n + 1;
    let b = block_number as int;
    assert(b / d == n) by (nonlinear_arith)
        requires
            d > 0,
            n * d <= b < (n + 1) * d,
    ;
}

/// Sessions start one after the other: where the block is past the next session, none starts.
pub proof fn skipped_sessions_do_not_start(
    state: ServiceState,
    block_number: BlockNumber,
    params: ServiceParameters,
)
    requires
        params.session_duration > 0,
        block_number >= (state.active.session_n + 2) * params.session_duration,
    ensures
        state.after_header(block_number, params).active == state.active,
        state.after_header(block_number, params).past_session == state.past_session,
        state.after_header(block_number, params).forming.session_n == state.forming.session_n,
{
    let d = params.session_duration as int;
    let n = state.active.session_n + 2;
    let b = block_number as int;
    assert(b / d >= n) by (nonlinear_arith)
        requires
            d > 0,
            b >= n * d,
    ;
}

/// A header moves the ledger on by one block, if each service that is offered has parameters.
/// At the first block of a session the one that was forming starts, and within a session nothing
/// changes.
pub proof fn headers_move_sessions_on(
    before: &SdpLedger,
    config: &Config,
    service: ServiceType,
    state: ServiceState,
    params: ServiceParameters,
)
    requires
        before.block_number < u64::MAX,
        offered(before, service) == Some(state),
        params.session_duration > 0,
        state.forming.session_n == state.active.session_n + 1,
        state.forming.session_n < u64::MAX,
        match service {
            ServiceType::BlendNetwork => config.service_params.blend_network == Some(params),
            ServiceType::DataAvailability => config.service_params.data_availability == Some(
                params,
            ),
        },
    ensures
        services::header_result(before, config) is Ok <==> {
            &&& before.blend_network is Some ==> config.service_params.blend_network is Some
            &&& before.data_availability is Some ==> config.service_params.data_availability is Some
        },
        services::header_result(before, config) matches Ok(after) ==> {
            let next = before.block_number + 1;
            let n = state.active.session_n as int;
            let d = params.session_duration as int;
            &&& after.block_number == next
            &&& after.locked_notes == before.locked_notes
            &&& offered(&after, service) matches Some(new_state) && {
                &&& new_state.declarations == state.declarations
                &&& n * d <= next < (n + 1) * d ==> new_state == state
                &&& (n + 1) * d <= next < (n + 2) * d ==> {
                    &&& new_state.active == state.forming
                    &&& new_state.past_session == state.active
                    &&& new_state.forming.session_n == n + 2
                    &&& new_state.forming.declarations == state.declarations
                }
            }
        },
{
    if before.block_number < u64::MAX {
        let next = (before.block_number + 1) as u64;
        let n = state.active.session_n as int;
        let d = params.session_duration as int;
        if n * d <= next < (n + 1) * d {
            sessions_are_fixed_while_they_run(state, next, params);
        }
        if (n + 1) * d <= next < (n + 2) * d {
            sessions_start_at_their_first_block(state, next, params);
        }
    }
}

/// While the session before the one that is forming has not reached its first block, the one
/// that is forming takes the declarations as they are.
pub proof fn early_sessions_form_from_the_declarations(
    state: ServiceState,
    block_number: BlockNumber,
    params: ServiceParameters,
)
    requires
        params.session_duration > 0,
        state.forming.session_n > 0,
        (state.forming.session_n - 1) * params.session_duration > block_number,
        (state.active.session_n + 1) * params.session_duration > block_number,
    ensures
        state.after_header(block_number, params) == (ServiceState {
            forming: SessionState {
                declarations: state.declarations,
                session_n: state.forming.session_n,
            },
            ..state
        }),
{
    let d = params.session_duration as int;
    let n = state.active.session_n + 1;
    let b = block_number as int;
    assert(b / d < n) by (nonlinear_arith)
        requires
            d > 0,
            b >= 0,
            n * d > b,
    ;
}

/// The providers of a session are those of its declarations that reported activity, or were
/// made, no longer ago than the inactivity period. Each is known by the keys and the locators of
/// such a declaration.
pub proof fn inactive_providers_are_left_out(
    declarations: Map<DeclarationId, Declaration>,
    block_number: BlockNumber,
    params: ServiceParameters,
    providers: Map<ProviderId, ProviderInfo>,
    provider: ProviderId,
)
    requires
        services::is_provider_map(declarations, block_number, params, providers),
    ensures
        providers.dom().contains(provider) <==> exists|id: DeclarationId| #[trigger]
            declarations.dom().contains(id) && declarations[id].provider_id == provider
                && block_number <= declarations[id].active + params.inactivity_period,
        providers.dom().contains(provider) ==> exists|id: DeclarationId| #[trigger]
            declarations.dom().contains(id) && declarations[id].provider_id == provider
                && block_number <= declarations[id].active + params.inactivity_period
                && providers[provider].zk_id == declarations[id].zk_id
                && providers[provider].locators == declarations[id].locators,
{
    if providers.dom().contains(provider) {
        assert(services::is_provider(
            declarations,
            block_number,
            params,
            provider,
            providers[provider],
        ));
        let id = choose|id: DeclarationId| #[trigger]
            declarations.dom().contains(id) && services::is_still_active(
                declarations[id],
                block_number,
                params,
            ) && declarations[id].provider_id == provider && providers[provider] == (ProviderInfo {
                zk_id: declarations[id].zk_id,
                locators: declarations[id].locators,
            });
        assert(declarations.dom().contains(id));
    }
}

} // verus!
