//! Laws of the course of declarations.
use vstd::prelude::*;

use crate::bytes;
use crate::cryptarchia::epoch;
use crate::cryptarchia::epoch::EpochState;
use crate::mantle::lock_laws;
use crate::mantle::locked_notes;
use crate::mantle::sdp;
use crate::mantle::sdp::laws;
use crate::mantle::sdp::rewards::blend::current_epoch::CoreNetwork;
use crate::mantle::sdp::rewards::blend::RewardsParameters;
use crate::mantle::sdp::{
    Config, Error, PendingHeaderEffect, RewardOrigin, SdpExecution, SdpLedger, ServiceParameters,
    ServiceParams,
};
use crate::merkle::tree::LeafExtractor;
use crate::types::{
    Declaration, DeclarationId, Epoch, HeaderEvent, NoteId, OpFailure, ServiceType, TxEvent, Utxo,
    Value, ZkPublicKey,
};

verus! {

/// A declaration counts in an epoch if and only if its last activity is no longer ago than the
/// inactivity period, and it is not withdrawn from that epoch on or from an earlier one.
pub proof fn declarations_count_while_active(
    declaration: Declaration,
    epoch: Epoch,
    params: ServiceParameters,
)
    ensures
        sdp::is_active_at(declaration, epoch, params) <==> {
            &&& epoch <= declaration.active + params.inactivity_period
            &&& declaration.withdraw_at is None || epoch < declaration.withdraw_at->0
        },
        sdp::is_withdrawn(declaration, epoch) <==> declaration.withdraw_at is Some
            && declaration.withdraw_at->0 <= epoch,
{
}

/// The declarations of an epoch are those of the ledger that count in it, as they are. Without
/// parameters of the service there are none.
pub proof fn active_declarations_are_those_that_count(
    sdp: &SdpLedger,
    epoch: Epoch,
    service_params: &ServiceParams,
    active: &epoch::Declarations,
    id: DeclarationId,
)
    requires
        sdp::is_active_set(sdp, epoch, service_params, active),
    ensures
        service_params.blend_network is None ==> active.blend_network is None,
        service_params.blend_network matches Some(params) ==> {
            &&& active.blend().dom().contains(id) <==> {
                &&& sdp.blend_network matches Some(state)
                &&& state.declarations@.dom().contains(id)
                &&& epoch <= state.declarations@[id].active + params.inactivity_period
                &&& state.declarations@[id].withdraw_at is None || epoch
                    < state.declarations@[id].withdraw_at->0
            }
            &&& active.blend().dom().contains(id) ==> active.blend_network is Some
                && active.blend()[id] == sdp.blend_network->0.declarations@[id]
        },
{
}

proof fn lemma_some_withdrawn(
    declarations: Map<DeclarationId, Declaration>,
    ids: Seq<DeclarationId>,
    epoch: Epoch,
    note_id: NoteId,
    service: ServiceType,
) -> (i: int)
    requires
        !(forall|i: int|
            0 <= i < ids.len() && sdp::is_withdrawn(declarations[#[trigger] ids[i]], epoch)
                ==> declarations[ids[i]].locked_note_id != note_id
                || declarations[ids[i]].service_type != service),
    ensures
        0 <= i < ids.len(),
        sdp::is_withdrawn(declarations[ids[i]], epoch),
        declarations[ids[i]].locked_note_id == note_id,
        declarations[ids[i]].service_type == service,
{
    choose|i: int|
        0 <= i < ids.len() && sdp::is_withdrawn(declarations[#[trigger] ids[i]], epoch)
            && declarations[ids[i]].locked_note_id == note_id && declarations[ids[i]].service_type
            == service
}

/// At the start of an epoch the declarations end that are withdrawn by then, and no others. The
/// notes of those are unlocked from their services, and no others. Until then nothing changes,
/// and nothing is paid or reported.
pub proof fn declarations_end_when_withdrawn<U: LeafExtractor<Utxo>>(
    before: &SdpLedger,
    last: &EpochState<U>,
    next: &EpochState<U>,
    params: RewardsParameters,
    core: CoreNetwork,
    after: &SdpLedger,
    effect: &PendingHeaderEffect,
    ids: Seq<DeclarationId>,
    id: DeclarationId,
    note_id: NoteId,
    service: ServiceType,
)
    requires
        sdp::is_header_step(before, last, next, params, core, after, effect),
        before.blend_network is Some,
        bytes::ascending(ids),
        ids.to_set() == before.blend_network->0.declarations@.dom(),
    ensures
        after.epoch == next.epoch,
        after.blend_network is Some,
        ({
            let declarations = before.blend_network->0.declarations@;
            let left = after.blend_network->0.declarations@;
            &&& next.epoch > last.epoch ==> {
                &&& left.dom().contains(id) <==> declarations.dom().contains(id) && (
                declarations[id].withdraw_at is None || next.epoch < declarations[id].withdraw_at->0)
                &&& left.dom().contains(id) ==> left[id] == declarations[id]
                &&& lock_laws::backs(after.locked_notes@, note_id, service) <==> lock_laws::backs(
                    before.locked_notes@,
                    note_id,
                    service,
                ) && !exists|k: DeclarationId| #[trigger]
                    declarations.dom().contains(k) && declarations[k].locked_note_id == note_id
                        && declarations[k].service_type == service && declarations[k].withdraw_at
                        is Some && declarations[k].withdraw_at->0 <= next.epoch
            }
            &&& next.epoch <= last.epoch ==> {
                &&& after.blend_network == before.blend_network
                &&& after.locked_notes@ == before.locked_notes@
                &&& effect.events@.len() == 0
                &&& forall|key: ZkPublicKey| !#[trigger] effect.rewards@.dom().contains(key)
            }
        }),
{
    let declarations = before.blend_network->0.declarations@;
    bytes::lemma_listing(ids);
    if next.epoch > last.epoch {
        let locked = before.locked_notes@;
        let others = forall|i: int|
            0 <= i < ids.len() && sdp::is_withdrawn(declarations[#[trigger] ids[i]], next.epoch)
                ==> declarations[ids[i]].locked_note_id != note_id
                || declarations[ids[i]].service_type != service;
        if others {
            laws::other_notes_stay_locked(
                locked,
                declarations,
                ids,
                next.epoch,
                note_id,
                service,
            );
            assert forall|k: DeclarationId| #[trigger]
                declarations.dom().contains(k) && declarations[k].locked_note_id == note_id
                    && declarations[k].service_type == service && declarations[k].withdraw_at
                    is Some implies declarations[k].withdraw_at->0 > next.epoch by {
                assert(ids.to_set().contains(k));
                let i = choose|i: int| 0 <= i < ids.len() && ids[i] == k;
                assert(ids[i] == k);
            }
        } else {
            let i = lemma_some_withdrawn(declarations, ids, next.epoch, note_id, service);
            assert(ids.contains(ids[i]));
            assert(ids.to_set().contains(ids[i]));
            laws::withdrawn_notes_are_unlocked(locked, declarations, ids, next.epoch, ids[i]);
            assert(declarations.dom().contains(ids[i]));
        }
    }
}

/// The end of a declaration is reported if its note was locked for it, and no other declaration
/// ends with the same note and service.
pub proof fn ends_are_reported(
    locked: Map<NoteId, locked_notes::Services>,
    declarations: Map<DeclarationId, Declaration>,
    ids: Seq<DeclarationId>,
    epoch: Epoch,
    n: int,
)
    requires
        0 <= n < ids.len(),
        declarations[ids[n]].withdraw_at is Some,
        declarations[ids[n]].withdraw_at->0 <= epoch,
        lock_laws::backs(
            locked,
            declarations[ids[n]].locked_note_id,
            declarations[ids[n]].service_type,
        ),
        forall|i: int|
            0 <= i < ids.len() && i != n && sdp::is_withdrawn(
                declarations[#[trigger] ids[i]],
                epoch,
            ) ==> declarations[ids[i]].locked_note_id != declarations[ids[n]].locked_note_id
                || declarations[ids[i]].service_type != declarations[ids[n]].service_type,
    ensures
        sdp::unlock_events(locked, declarations, ids, epoch).contains(
            HeaderEvent::SdpNoteUnlocked {
                note_id: declarations[ids[n]].locked_note_id,
                service_type: declarations[ids[n]].service_type,
                declaration_id: ids[n],
            },
        ),
    decreases ids.len(),
{
    let rest = ids.drop_last();
    let event = HeaderEvent::SdpNoteUnlocked {
        note_id: declarations[ids[n]].locked_note_id,
        service_type: declarations[ids[n]].service_type,
        declaration_id: ids[n],
    };
    let events = sdp::unlock_events(locked, declarations, ids, epoch);
    assert(forall|i: int| 0 <= i < rest.len() ==> rest[i] == ids[i]);
    if n < rest.len() {
        assert forall|i: int|
            0 <= i < rest.len() && i != n && sdp::is_withdrawn(
                declarations[#[trigger] rest[i]],
                epoch,
            ) implies declarations[rest[i]].locked_note_id != declarations[rest[n]].locked_note_id
            || declarations[rest[i]].service_type != declarations[rest[n]].service_type by {
            assert(rest[i] == ids[i]);
        }
        ends_are_reported(locked, declarations, rest, epoch, n);
        let old_events = sdp::unlock_events(locked, declarations, rest, epoch);
        let k = choose|k: int| 0 <= k < old_events.len() && old_events[k] == event;
        assert(events[k] == event);
    } else {
        assert forall|i: int|
            0 <= i < rest.len() && sdp::is_withdrawn(
                declarations[#[trigger] rest[i]],
                epoch,
            ) implies declarations[rest[i]].locked_note_id != declarations[ids[n]].locked_note_id
            || declarations[rest[i]].service_type != declarations[ids[n]].service_type by {
            assert(rest[i] == ids[i]);
        }
        laws::other_notes_stay_locked(
            locked,
            declarations,
            rest,
            epoch,
            declarations[ids[n]].locked_note_id,
            declarations[ids[n]].service_type,
        );
        assert(ids.last() == ids[n]);
        assert(events.last() == event);
        assert(events[events.len() - 1] == event);
    }
}

/// A message about a declaration gets to work if and only if there is the declaration, and the
/// service has parameters.
pub proof fn messages_are_about_known_declarations(
    sdp: &SdpLedger,
    declaration_id: DeclarationId,
    config: &Config,
)
    ensures
        sdp::service_failure(sdp, declaration_id, config) is None <==> {
            &&& sdp.blend_network matches Some(state)
            &&& state.declarations@.dom().contains(declaration_id)
            &&& config.service_params.blend_network is Some
        },
        sdp::service_failure(sdp, declaration_id, config) == Some(
            Error::DeclarationNotFound(declaration_id),
        ) <==> (sdp.blend_network matches Some(state) ==> !state.declarations@.dom().contains(
            declaration_id,
        )),
        sdp::service_failure(sdp, declaration_id, config) == Some(
            Error::ServiceParamsNotFound(ServiceType::BlendNetwork),
        ) <==> config.service_params.blend_network is None && (sdp.blend_network matches Some(
            state,
        ) && state.declarations@.dom().contains(declaration_id)),
{
}

/// An operation on declarations is taken over as it was executed, for a service that is offered.
pub proof fn executed_operations_are_taken_over(
    before: &SdpLedger,
    service_type: ServiceType,
    outcome: Result<SdpExecution, OpFailure>,
    r: Result<(SdpLedger, Vec<TxEvent>), Error>,
)
    requires
        sdp::is_executed(before, service_type, outcome, r),
    ensures
        r is Ok <==> service_type == ServiceType::BlendNetwork && before.blend_network is Some
            && outcome is Ok,
        r == Err::<(SdpLedger, Vec<TxEvent>), _>(Error::ServiceNotFound(service_type)) <==> !(
        service_type == ServiceType::BlendNetwork && before.blend_network is Some),
        r matches Ok((after, events)) ==> {
            &&& after.blend_network matches Some(state)
            &&& state.declarations == outcome->Ok_0.declarations
            &&& state.rewards == before.blend_network->0.rewards
            &&& state.service_type == before.blend_network->0.service_type
            &&& after.locked_notes == outcome->Ok_0.locked_notes
            &&& after.epoch == before.epoch
            &&& events == outcome->Ok_0.events
        },
{
}

/// Each reward is paid by an output of its own, which is worth the reward and belongs to the key
/// that is paid.
pub proof fn rewards_go_to_their_keys(
    rewards: Map<ZkPublicKey, Value>,
    origins: Seq<RewardOrigin>,
    i: int,
)
    requires
        0 <= i < origins.len(),
    ensures
        sdp::reward_utxos(rewards, origins).len() == origins.len(),
        ({
            let utxo = sdp::reward_utxos(rewards, origins)[i];
            &&& utxo.note.pk == origins[i].pk
            &&& utxo.note.value == rewards[origins[i].pk]
            &&& utxo.id == origins[i].id
            &&& utxo.op_id == origins[i].op_id
            &&& utxo.output_index == origins[i].output_index
        }),
{
}

/// The declarations of the genesis block are accepted if and only if all of them are for the
/// Blend network and were executed. The first that is not is told.
pub proof fn genesis_declarations_are_all_accepted(
    ops: Seq<(ServiceType, Result<SdpExecution, OpFailure>)>,
    n: int,
)
    requires
        0 <= n <= ops.len(),
        forall|i: int|
            0 <= i < n ==> (#[trigger] ops[i]).0 == ServiceType::BlendNetwork && ops[i].1 is Ok,
    ensures
        n == ops.len() ==> sdp::first_failure(ops) is None,
        n < ops.len() && ops[n].0 != ServiceType::BlendNetwork ==> sdp::first_failure(ops) == Some(
            Error::ServiceNotFound(ops[n].0),
        ),
        n < ops.len() && ops[n].0 == ServiceType::BlendNetwork ==> (ops[n].1 matches Err(failure)
            ==> sdp::first_failure(ops) == Some(Error::SdpOp(failure))),
    decreases ops.len(),
{
    if ops.len() > 0 {
        let rest = ops.drop_last();
        assert(forall|i: int| 0 <= i < rest.len() ==> rest[i] == ops[i]);
        if n < ops.len() {
            genesis_declarations_are_all_accepted(rest, n);
        } else {
            genesis_declarations_are_all_accepted(rest, n - 1);
            assert(ops[n - 1] == ops.last());
        }
        if n < ops.len() && n == ops.len() - 1 {
            assert(ops[n] == ops.last());
        }
    }
}

} // verus!
