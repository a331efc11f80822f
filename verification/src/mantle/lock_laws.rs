//! Laws of locked notes.
use vstd::prelude::*;

use crate::mantle::locked_notes;
use crate::mantle::locked_notes::{Error, MinStake, Services};
use crate::types::{NoteId, ServiceType, Value};

verus! {

/// Whether `note_id` backs something for `service`.
pub open spec fn backs(
    locked: Map<NoteId, Services>,
    note_id: NoteId,
    service: ServiceType,
) -> bool {
    locked.dom().contains(note_id) && match service {
        ServiceType::BlendNetwork => locked[note_id].blend_network,
        ServiceType::DataAvailability => locked[note_id].data_availability,
    }
}

/// A note can be locked if and only if it exists, is worth at least the least stake, and does
/// not back anything for the service yet. Each reason against it is told, in this order.
pub proof fn only_stake_is_locked(
    locked: Map<NoteId, Services>,
    value: Option<Value>,
    min_stake: MinStake,
    service: ServiceType,
    note_id: NoteId,
)
    ensures
        locked_notes::lock_failure(locked, value, min_stake, service, note_id) is None <==> {
            &&& value matches Some(worth)
            &&& worth >= min_stake.threshold
            &&& !backs(locked, note_id, service)
        },
        value is None <==> locked_notes::lock_failure(locked, value, min_stake, service, note_id)
            == Some(Error::NoteDoesNotExist(note_id)),
        value matches Some(worth) ==> (worth < min_stake.threshold
            <==> locked_notes::lock_failure(locked, value, min_stake, service, note_id) == Some(
            Error::NoteInsufficientValue { note_id, value: worth },
        )),
        value matches Some(worth) && worth >= min_stake.threshold && backs(locked, note_id, service)
            <==> locked_notes::lock_failure(locked, value, min_stake, service, note_id) == Some(
            Error::NoteAlreadyUsedForService { note_id, service_type: service },
        ),
{
}

/// A note that is worth enough goes on being so if it is worth more, or if less is asked.
pub proof fn more_stake_is_as_good(
    locked: Map<NoteId, Services>,
    value: Value,
    more: Value,
    min_stake: MinStake,
    lower: MinStake,
    service: ServiceType,
    note_id: NoteId,
)
    requires
        value <= more,
        lower.threshold <= min_stake.threshold,
        locked_notes::lock_failure(locked, Some(value), min_stake, service, note_id) is None,
    ensures
        locked_notes::lock_failure(locked, Some(more), lower, service, note_id) is None,
{
}

/// Locking a note lets it back the service, and changes nothing else.
pub proof fn locking_backs_one_service(
    locked: Map<NoteId, Services>,
    note_id: NoteId,
    service: ServiceType,
    other_note: NoteId,
    other_service: ServiceType,
)
    ensures
        backs(locked_notes::after_lock(locked, note_id, service), other_note, other_service) <==> (
        other_note == note_id && other_service == service) || backs(
            locked,
            other_note,
            other_service,
        ),
        locked_notes::after_lock(locked, note_id, service).dom() == locked.dom().insert(note_id),
{
}

/// A note can be unlocked if and only if it backs the service. Whether it is locked at all or
/// only for something else is told apart.
pub proof fn only_locked_notes_are_unlocked(
    locked: Map<NoteId, Services>,
    service: ServiceType,
    note_id: NoteId,
)
    ensures
        locked_notes::unlock_failure(locked, service, note_id) is None <==> backs(
            locked,
            note_id,
            service,
        ),
        locked_notes::unlock_failure(locked, service, note_id) == Some(
            Error::NoteNotLocked(note_id),
        ) <==> !locked.dom().contains(note_id),
        locked_notes::unlock_failure(locked, service, note_id) == Some(
            Error::NoteNotLockedForService { note_id, service_type: service },
        ) <==> locked.dom().contains(note_id) && !backs(locked, note_id, service),
{
}

/// Unlocking a note ends what it backs for the service, and changes nothing else. A note stays
/// locked if and only if it backs another service.
pub proof fn unlocking_frees_one_service(
    locked: Map<NoteId, Services>,
    note_id: NoteId,
    service: ServiceType,
    other_note: NoteId,
    other_service: ServiceType,
)
    requires
        backs(locked, note_id, service),
    ensures
        backs(locked_notes::after_unlock(locked, note_id, service), other_note, other_service)
            <==> !(other_note == note_id && other_service == service) && backs(
            locked,
            other_note,
            other_service,
        ),
        locked_notes::after_unlock(locked, note_id, service).dom().contains(note_id)
            <==> backs(locked, note_id, ServiceType::BlendNetwork) && backs(
            locked,
            note_id,
            ServiceType::DataAvailability,
        ),
        other_note != note_id ==> locked_notes::after_unlock(
            locked,
            note_id,
            service,
        ).dom().contains(other_note) == locked.dom().contains(other_note),
{
}

} // verus!
