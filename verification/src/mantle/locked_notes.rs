//! Notes that back the declarations of service providers.
use vstd::prelude::*;

use crate::collections::trie_map::TrieMap;
use crate::merkle::tree::{LeafExtractor, MerkleTree};
use crate::types::{NoteId, ServiceType, Utxo, Value};

verus! {

/// The least value of a note that can back a declaration.
#[derive(Clone, Copy, Debug, PartialEq, Eq, Structural)]
pub struct MinStake {
    pub threshold: Value,
    pub timestamp: u64,
}

/// Failure to lock or unlock a note.
#[derive(Clone, Copy, Debug, PartialEq, Eq)]
pub enum Error {
    /// There is no such note.
    NoteDoesNotExist(NoteId),
    /// The note is worth less than the least stake.
    NoteInsufficientValue { note_id: NoteId, value: Value },
    /// The note is locked for the service already.
    NoteAlreadyUsedForService { note_id: NoteId, service_type: ServiceType },
    /// The note is locked, but not for the service.
    NoteNotLockedForService { note_id: NoteId, service_type: ServiceType },
    /// The note is not locked.
    NoteNotLocked(NoteId),
}

/// A set of services.
#[derive(Clone, Copy, Debug, PartialEq, Eq, Structural)]
pub struct Services {
    pub blend_network: bool,
    pub data_availability: bool,
}

impl Services {
    /// Whether `service` is in the set.
    pub open spec fn has(self, service: ServiceType) -> bool {
        match service {
            ServiceType::BlendNetwork => self.blend_network,
            ServiceType::DataAvailability => self.data_availability,
        }
    }

    /// The set and `service`.
    pub open spec fn with(self, service: ServiceType) -> Services {
        match service {
            ServiceType::BlendNetwork => Services { blend_network: true, ..self },
            ServiceType::DataAvailability => Services { data_availability: true, ..self },
        }
    }

    /// The set but for `service`.
    pub open spec fn without(self, service: ServiceType) -> Services {
        match service {
            ServiceType::BlendNetwork => Services { blend_network: false, ..self },
            ServiceType::DataAvailability => Services { data_availability: false, ..self },
        }
    }

    /// The set without services.
    pub open spec fn none() -> Services {
        Services { blend_network: false, data_availability: false }
    }

    /// Whether `service` is in the set.
    pub fn contains(&self, service: ServiceType) -> (r: bool)
        ensures
            r == self.has(service),
    {
        match service {
            ServiceType::BlendNetwork => self.blend_network,
            ServiceType::DataAvailability => self.data_availability,
        }
    }

    /// Makes the set without services.
    fn new() -> (r: Self)
        ensures
            r == Services::none(),
    {
        Services { blend_network: false, data_availability: false }
    }

    /// Adds `service`.
    fn insert(self, service: ServiceType) -> (r: Self)
        ensures
            r == self.with(service),
    {
        match service {
            ServiceType::BlendNetwork => Services { blend_network: true, ..self },
            ServiceType::DataAvailability => Services { data_availability: true, ..self },
        }
    }

    /// Drops `service`.
    fn remove(self, service: ServiceType) -> (r: Self)
        ensures
            r == self.without(service),
    {
        match service {
            ServiceType::BlendNetwork => Services { blend_network: false, ..self },
            ServiceType::DataAvailability => Services { data_availability: false, ..self },
        }
    }
}

/// The notes that are locked, and the services that each is locked for.
pub struct LockedNotes {
    locked_notes: TrieMap<Services>,
}

impl View for LockedNotes {
    type V = Map<NoteId, Services>;

    closed spec fn view(&self) -> Map<NoteId, Services> {
        self.locked_notes@
    }
}

/// Why `note_id`, a note of this value if there is one, cannot be locked for `service`, if it
/// cannot.
pub open spec fn lock_failure(
    locked: Map<NoteId, Services>,
    value: Option<Value>,
    min_stake: MinStake,
    service: ServiceType,
    note_id: NoteId,
) -> Option<Error> {
    match value {
        None => Some(Error::NoteDoesNotExist(note_id)),
        Some(value) => if value < min_stake.threshold {
            Some(Error::NoteInsufficientValue { note_id, value })
        } else if is_locked_for(locked, note_id, service) {
            Some(Error::NoteAlreadyUsedForService { note_id, service_type: service })
        } else {
            None
        },
    }
}

/// Whether `note_id` is locked for `service`.
pub open spec fn is_locked_for(
    locked: Map<NoteId, Services>,
    note_id: NoteId,
    service: ServiceType,
) -> bool {
    locked.dom().contains(note_id) && locked[note_id].has(service)
}

/// The services that `note_id` is locked for.
pub open spec fn services_of(locked: Map<NoteId, Services>, note_id: NoteId) -> Services {
    if locked.dom().contains(note_id) {
        locked[note_id]
    } else {
        Services::none()
    }
}

/// What is locked after `note_id` was locked for `service`.
pub open spec fn after_lock(
    locked: Map<NoteId, Services>,
    note_id: NoteId,
    service: ServiceType,
) -> Map<NoteId, Services> {
    locked.insert(note_id, services_of(locked, note_id).with(service))
}

/// Why `note_id` cannot be unlocked from `service`, if it cannot.
pub open spec fn unlock_failure(
    locked: Map<NoteId, Services>,
    service: ServiceType,
    note_id: NoteId,
) -> Option<Error> {
    if !locked.dom().contains(note_id) {
        Some(Error::NoteNotLocked(note_id))
    } else if !locked[note_id].has(service) {
        Some(Error::NoteNotLockedForService { note_id, service_type: service })
    } else {
        None
    }
}

/// What is locked after `note_id` was unlocked from `service`. A note that is locked for
/// no service any more is not locked.
pub open spec fn after_unlock(
    locked: Map<NoteId, Services>,
    note_id: NoteId,
    service: ServiceType,
) -> Map<NoteId, Services> {
    let rest = locked[note_id].without(service);
    if rest == Services::none() {
        locked.remove(note_id)
    } else {
        locked.insert(note_id, rest)
    }
}

impl LockedNotes {
    /// Whether every locked note is locked for some service.
    pub open spec fn well_formed(&self) -> bool {
        forall|id: NoteId| #[trigger]
            self@.dom().contains(id) ==> self@[id] != Services::none()
    }

    /// Makes a state in which no note is locked.
    pub fn new() -> (r: Self)
        ensures
            r.well_formed(),
            r@ == Map::<NoteId, Services>::empty(),
    {
        LockedNotes { locked_notes: TrieMap::new() }
    }

    /// Whether the note is locked.
    pub fn contains(&self, id: &NoteId) -> (r: bool)
        ensures
            r == self@.dom().contains(*id),
    {
        self.locked_notes.contains_key(id)
    }

    /// The services that the note is locked for, if it is locked.
    pub fn services(&self, id: &NoteId) -> (r: Option<Services>)
        ensures
            r == (if self@.dom().contains(*id) { Some(self@[*id]) } else { None }),
    {
        match self.locked_notes.get(id) {
            Some(services) => Some(*services),
            None => None,
        }
    }

    /// Whether the note is locked for the service.
    pub fn is_locked_for_service(&self, id: &NoteId, service_type: &ServiceType) -> (r: bool)
        ensures
            r == is_locked_for(self@, *id, *service_type),
    {
        match self.locked_notes.get(id) {
            Some(services) => services.contains(*service_type),
            None => false,
        }
    }

    /// Locks a note for a service.
    pub fn lock<U: LeafExtractor<Utxo>>(
        self,
        utxo_tree: &MerkleTree<Utxo, U>,
        min_stake: &MinStake,
        service_type: ServiceType,
        note_id: &NoteId,
    ) -> (r: Result<Self, Error>)
        requires
            self.well_formed(),
        ensures
            ({
                let value = if utxo_tree.entries().dom().contains(*note_id) {
                    Some(utxo_tree.entries()[*note_id].0.note.value)
                } else {
                    None
                };
                match lock_failure(self@, value, *min_stake, service_type, *note_id) {
                    Some(error) => r == Err::<Self, _>(error),
                    None => r matches Ok(locked) && locked.well_formed() && locked@ == after_lock(
                        self@,
                        *note_id,
                        service_type,
                    ),
                }
            }),
    {
        let value: Option<Value> = match utxo_tree.get_ref(note_id) {
            Some(utxo) => Some(utxo.note.value),
            None => None,
        };
        self.lock_note(value, min_stake, service_type, note_id)
    }

    /// Locks a note of this value, if there is one.
    pub fn lock_note(
        self,
        value: Option<Value>,
        min_stake: &MinStake,
        service_type: ServiceType,
        note_id: &NoteId,
    ) -> (r: Result<Self, Error>)
        requires
            self.well_formed(),
        ensures
            match lock_failure(self@, value, *min_stake, service_type, *note_id) {
                Some(error) => r == Err::<Self, _>(error),
                None => r matches Ok(locked) && locked.well_formed() && locked@ == after_lock(
                    self@,
                    *note_id,
                    service_type,
                ),
            },
    {
        let value: Value = match value {
            Some(value) => value,
            None => return Err(Error::NoteDoesNotExist(*note_id)),
        };
        if value < min_stake.threshold {
            return Err(Error::NoteInsufficientValue { note_id: *note_id, value });
        }
        let services: Services = match self.locked_notes.get(note_id) {
            Some(services) => *services,
            None => Services::new(),
        };
        if services.contains(service_type) {
            return Err(Error::NoteAlreadyUsedForService { note_id: *note_id, service_type });
        }
        let mut locked_notes: TrieMap<Services> = self.locked_notes;
        locked_notes.insert_mut(*note_id, services.insert(service_type));
        Ok(LockedNotes { locked_notes })
    }

    /// Unlocks a note from a service.
    pub fn unlock(self, service_type: ServiceType, note_id: &NoteId) -> (r: Result<Self, Error>)
        requires
            self.well_formed(),
        ensures
            match unlock_failure(self@, service_type, *note_id) {
                Some(error) => r == Err::<Self, _>(error),
                None => r matches Ok(locked) && locked.well_formed() && locked@ == after_unlock(
                    self@,
                    *note_id,
                    service_type,
                ),
            },
    {
        let services: Services = match self.locked_notes.get(note_id) {
            Some(services) => *services,
            None => return Err(Error::NoteNotLocked(*note_id)),
        };
        if !services.contains(service_type) {
            return Err(Error::NoteNotLockedForService { note_id: *note_id, service_type });
        }
        let rest: Services = services.remove(service_type);
        let mut locked_notes: TrieMap<Services> = self.locked_notes;
        if rest == Services::new() {
            locked_notes.remove_mut(note_id);
        } else {
            locked_notes.insert_mut(*note_id, rest);
        }
        Ok(LockedNotes { locked_notes })
    }
}

impl Default for LockedNotes {
    fn default() -> (r: Self)
        ensures
            r.well_formed(),
            r@ == Map::<NoteId, Services>::empty(),
    {
        Self::new()
    }
}

impl Clone for LockedNotes {
    fn clone(&self) -> (r: Self)
        ensures
            r == *self,
    {
        LockedNotes { locked_notes: self.locked_notes.clone() }
    }
}

/// Unlocking a note from a service that it was just locked for gives back what was
/// locked before.
pub proof fn lock_can_be_undone(
    locked: Map<NoteId, Services>,
    note_id: NoteId,
    service: ServiceType,
)
    requires
        locked.dom().contains(note_id) ==> locked[note_id] != Services::none(),
        !is_locked_for(locked, note_id, service),
    ensures
        unlock_failure(after_lock(locked, note_id, service), service, note_id) is None,
        after_unlock(after_lock(locked, note_id, service), note_id, service) == locked,
{
    assert(after_unlock(after_lock(locked, note_id, service), note_id, service) =~= locked);
}

/// Locking and unlocking a note for one service leaves the other services, and the other
/// notes, as they were.
pub proof fn services_are_independent(
    locked: Map<NoteId, Services>,
    note_id: NoteId,
    service: ServiceType,
    other_note: NoteId,
    other_service: ServiceType,
)
    requires
        other_note != note_id || other_service != service,
    ensures
        is_locked_for(after_lock(locked, note_id, service), other_note, other_service)
            == is_locked_for(locked, other_note, other_service),
        unlock_failure(locked, service, note_id) is None ==> is_locked_for(
            after_unlock(locked, note_id, service),
            other_note,
            other_service,
        ) == is_locked_for(locked, other_note, other_service),
{
}

} // verus!
