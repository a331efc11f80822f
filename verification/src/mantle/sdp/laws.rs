//! Laws of declarations.
use vstd::prelude::*;

use crate::cryptarchia::epoch::EpochState;
use crate::mantle::locked_notes;
use crate::mantle::sdp;
use crate::mantle::sdp::rewards::blend;
use crate::mantle::sdp::rewards::blend::current_epoch::CoreNetwork;
use crate::mantle::sdp::rewards::blend::target_epoch::TargetEpochTracker;
use crate::mantle::sdp::rewards::blend::RewardsParameters;
use crate::mantle::sdp::{PendingHeaderEffect, RewardOrigin, SdpLedger, ServiceParameters};
use crate::merkle::tree::LeafExtractor;
use crate::types::{
    Declaration, DeclarationId, Epoch, HeaderEvent, NoteId, ServiceType, Utxo, Value, ZkPublicKey,
};

verus! {

/// A declaration that is active in an epoch outlasts the start of that epoch.
pub proof fn active_declarations_stand(
    declarations: Map<DeclarationId, Declaration>,
    epoch: Epoch,
    params: ServiceParameters,
    id: DeclarationId,
)
    requires
        sdp::active_entries(declarations, epoch, params).dom().contains(id),
    ensures
        sdp::standing(declarations, epoch).dom().contains(id),
        sdp::standing(declarations, epoch)[id] == declarations[id],
{
}

/// A declaration that has come to its end is active in no epoch from then on.
pub proof fn withdrawal_is_final(
    declarations: Map<DeclarationId, Declaration>,
    epoch: Epoch,
    later: Epoch,
    params: ServiceParameters,
    id: DeclarationId,
)
    requires
        declarations.dom().contains(id),
        !sdp::standing(declarations, epoch).dom().contains(id),
        epoch <= later,
    ensures
        !sdp::active_entries(declarations, later, params).dom().contains(id),
{
}

/// A declaration without activity drops out after the period of inactivity, and stays out.
pub proof fn inactivity_ends_a_declaration(
    declaration: Declaration,
    epoch: Epoch,
    params: ServiceParameters,
)
    ensures
        declaration.active + params.inactivity_period < epoch ==> !sdp::is_active_at(
            declaration,
            epoch,
            params,
        ),
        declaration.active + params.inactivity_period >= epoch && declaration.withdraw_at is None
            ==> sdp::is_active_at(declaration, epoch, params),
{
}

/// At the start of an epoch the notes of the declarations that come to their end are
/// unlocked from their services.
pub proof fn withdrawn_notes_are_unlocked(
    locked: Map<NoteId, locked_notes::Services>,
    declarations: Map<DeclarationId, Declaration>,
    ids: Seq<DeclarationId>,
    epoch: Epoch,
    id: DeclarationId,
)
    requires
        ids.contains(id),
        sdp::is_withdrawn(declarations[id], epoch),
    ensures
        !locked_notes::is_locked_for(
            sdp::locked_after(locked, declarations, ids, epoch),
            declarations[id].locked_note_id,
            declarations[id].service_type,
        ),
    decreases ids.len(),
{
    let rest = ids.drop_last();
    if ids.last() != id {
        let k = choose|k: int| 0 <= k < ids.len() && ids[k] == id;
        assert(rest[k] == id);
        withdrawn_notes_are_unlocked(locked, declarations, rest, epoch, id);
    }
}

/// At the start of an epoch the notes of all other declarations stay locked as they were.
pub proof fn other_notes_stay_locked(
    locked: Map<NoteId, locked_notes::Services>,
    declarations: Map<DeclarationId, Declaration>,
    ids: Seq<DeclarationId>,
    epoch: Epoch,
    note_id: NoteId,
    service_type: ServiceType,
)
    requires
        forall|i: int|
            0 <= i < ids.len() && sdp::is_withdrawn(declarations[#[trigger] ids[i]], epoch)
                ==> declarations[ids[i]].locked_note_id != note_id
                || declarations[ids[i]].service_type != service_type,
    ensures
        locked_notes::is_locked_for(
            sdp::locked_after(locked, declarations, ids, epoch),
            note_id,
            service_type,
        ) == locked_notes::is_locked_for(locked, note_id, service_type),
    decreases ids.len(),
{
    if ids.len() > 0 {
        let rest = ids.drop_last();
        assert forall|i: int|
            0 <= i < rest.len() && sdp::is_withdrawn(
                declarations[#[trigger] rest[i]],
                epoch,
            ) implies declarations[rest[i]].locked_note_id != note_id
            || declarations[rest[i]].service_type != service_type by {
            assert(rest[i] == ids[i]);
        }
        other_notes_stay_locked(locked, declarations, rest, epoch, note_id, service_type);
        assert(ids.last() == ids[ids.len() - 1]);
    }
}

/// A note is reported as unlocked only where it was locked, and for a declaration that has
/// come to its end.
pub proof fn reports_are_of_withdrawn_declarations(
    locked: Map<NoteId, locked_notes::Services>,
    declarations: Map<DeclarationId, Declaration>,
    ids: Seq<DeclarationId>,
    epoch: Epoch,
    i: int,
)
    requires
        0 <= i < sdp::unlock_events(locked, declarations, ids, epoch).len(),
    ensures
        sdp::unlock_events(locked, declarations, ids, epoch)[i] matches
            HeaderEvent::SdpNoteUnlocked { note_id, service_type, declaration_id } && {
            &&& ids.contains(declaration_id)
            &&& sdp::is_withdrawn(declarations[declaration_id], epoch)
            &&& declarations[declaration_id].locked_note_id == note_id
            &&& declarations[declaration_id].service_type == service_type
            &&& locked_notes::is_locked_for(locked, note_id, service_type)
        },
    decreases ids.len(),
{
    let rest = ids.drop_last();
    let before = sdp::unlock_events(locked, declarations, rest, epoch);
    if i < before.len() {
        reports_are_of_withdrawn_declarations(locked, declarations, rest, epoch, i);
        let id = before[i]->SdpNoteUnlocked_declaration_id;
        let k = choose|k: int| 0 <= k < rest.len() && rest[k] == id;
        assert(ids[k] == id);
    } else {
        let id = ids.last();
        assert(ids[ids.len() - 1] == id);
        lemma_nothing_new_is_locked(
            locked,
            declarations,
            rest,
            epoch,
            declarations[id].locked_note_id,
            declarations[id].service_type,
        );
    }
}

proof fn lemma_nothing_new_is_locked(
    locked: Map<NoteId, locked_notes::Services>,
    declarations: Map<DeclarationId, Declaration>,
    ids: Seq<DeclarationId>,
    epoch: Epoch,
    note_id: NoteId,
    service_type: ServiceType,
)
    requires
        locked_notes::is_locked_for(
            sdp::locked_after(locked, declarations, ids, epoch),
            note_id,
            service_type,
        ),
    ensures
        locked_notes::is_locked_for(locked, note_id, service_type),
    decreases ids.len(),
{
    if ids.len() > 0 {
        lemma_nothing_new_is_locked(
            locked,
            declarations,
            ids.drop_last(),
            epoch,
            note_id,
            service_type,
        );
    }
}

/// What outputs are worth.
pub open spec fn worth(utxos: Seq<Utxo>) -> int
    decreases utxos.len(),
{
    if utxos.len() == 0 {
        0
    } else {
        worth(utxos.drop_last()) + utxos.last().note.value
    }
}

/// The outputs that pay rewards are worth what the rewards add up to, wherever they come
/// from.
pub proof fn outputs_are_worth_the_rewards(
    rewards: Map<ZkPublicKey, Value>,
    origins: Seq<RewardOrigin>,
)
    requires
        sdp::covers(origins, rewards.dom()),
    ensures
        worth(sdp::reward_utxos(rewards, origins)) == blend::laws::total(rewards),
    decreases origins.len(),
{
    let listed = origins.map_values(|origin: RewardOrigin| origin.pk);
    let utxos = sdp::reward_utxos(rewards, origins);
    vstd::seq_lib::seq_to_set_is_finite(listed);
    if origins.len() == 0 {
        assert(listed.to_set() =~= Set::empty());
    } else {
        let key = origins.last().pk;
        let rest = origins.drop_last();
        let others = rewards.remove(key);
        let remaining = rest.map_values(|origin: RewardOrigin| origin.pk);
        assert(remaining =~= listed.drop_last());
        assert(listed[listed.len() - 1] == key);
        assert(listed.to_set().contains(key));
        assert forall|k: ZkPublicKey| remaining.to_set().contains(k) == others.dom().contains(
            k,
        ) by {
            if remaining.contains(k) {
                let i = choose|i: int| 0 <= i < remaining.len() && remaining[i] == k;
                assert(listed[i] == k);
                assert(listed.to_set().contains(k));
            } else if listed.contains(k) {
                let i = choose|i: int| 0 <= i < listed.len() && listed[i] == k;
                if i < remaining.len() {
                    assert(remaining[i] == k);
                }
            }
        }
        assert(remaining.to_set() =~= others.dom());
        outputs_are_worth_the_rewards(others, rest);
        blend::laws::lemma_total_remove(rewards, key);
        assert(utxos.drop_last() =~= sdp::reward_utxos(others, rest)) by {
            assert forall|i: int| 0 <= i < rest.len() implies utxos[i] == sdp::reward_utxos(
                others,
                rest,
            )[i] by {
                assert(listed[i] == rest[i].pk);
            }
        }
    }
}

/// The outputs that pay the rewards of an epoch are not worth more than its income.
pub proof fn outputs_are_not_worth_more_than_the_income(
    tracker: &TargetEpochTracker,
    income: Value,
    rewards: Map<ZkPublicKey, Value>,
    origins: Seq<RewardOrigin>,
)
    requires
        tracker.well_formed(),
        blend::target_epoch::is_payout(tracker.submitted(), income, rewards),
        sdp::covers(origins, rewards.dom()),
    ensures
        worth(sdp::reward_utxos(rewards, origins)) <= income,
{
    vstd::seq_lib::seq_to_set_is_finite(origins.map_values(|origin: RewardOrigin| origin.pk));
    outputs_are_worth_the_rewards(rewards, origins);
    blend::laws::payout_does_not_exceed_the_income(tracker, income, rewards);
}

/// Rewards stay in step with the ledger as epochs go by.
pub proof fn rewards_stay_in_step<U: LeafExtractor<Utxo>>(
    before: &SdpLedger,
    last: &EpochState<U>,
    next: &EpochState<U>,
    params: RewardsParameters,
    core: CoreNetwork,
    after: &SdpLedger,
    effect: &PendingHeaderEffect,
)
    requires
        before.in_step(),
        before.epoch == last.epoch,
        last.epoch <= next.epoch,
        sdp::is_header_step(before, last, next, params, core, after, effect),
    ensures
        after.in_step(),
{
}

} // verus!
