//! Notes that back declarations, kept together with what they are worth.
use vstd::prelude::*;

use crate::collections::trie_map::TrieMap;
use crate::mantle::locked_notes;
use crate::mantle::locked_notes::{Error, MinStake, Services};
use crate::types::{Note, NoteId, ServiceType};

verus! {

/// The notes that are locked, and the services that each is locked for.
pub struct LockedNotes {
    pub locks: locked_notes::LockedNotes,
    pub notes: TrieMap<Note>,
}

impl LockedNotes {
    /// The services that each note is locked for.
    pub open spec fn services(&self) -> Map<NoteId, Services> {
        self.locks@
    }

    /// Whether each note that is locked, and no other, is known.
    pub open spec fn well_formed(&self) -> bool {
        &&& self.locks.well_formed()
        &&& self.notes@.dom() == self.locks@.dom()
    }

    /// Makes a state in which no note is locked.
    pub fn new() -> (r: Self)
        ensures
            r.well_formed(),
            r.services() == Map::<NoteId, Services>::empty(),
            r.notes@ == Map::<NoteId, Note>::empty(),
    {
        let r = LockedNotes { locks: locked_notes::LockedNotes::new(), notes: TrieMap::new() };
        assert(r.notes@.dom() =~= r.locks@.dom());
        r
    }

    /// Whether the note is locked.
    pub fn contains(&self, id: &NoteId) -> (r: bool)
        ensures
            r == self.services().dom().contains(*id),
    {
        self.locks.contains(id)
    }

    /// The note, if it is locked.
    pub fn get(&self, id: &NoteId) -> (r: Option<&Note>)
        ensures
            r == (if self.notes@.dom().contains(*id) {
                Some(&self.notes@[*id])
            } else {
                None
            }),
    {
        self.notes.get(id)
    }

    /// Locks a note for a service.
    pub fn lock(
        self,
        min_stake: &MinStake,
        service_type: ServiceType,
        note: Note,
        note_id: &NoteId,
    ) -> (r: Result<Self, Error>)
        requires
            self.well_formed(),
        ensures
            match locked_notes::lock_failure(
                self.services(),
                Some(note.value),
                *min_stake,
                service_type,
                *note_id,
            ) {
                Some(error) => r == Err::<Self, _>(error),
                None => {
                    &&& r matches Ok(locked)
                    &&& locked.well_formed()
                    &&& locked.services() == locked_notes::after_lock(
                        self.services(),
                        *note_id,
                        service_type,
                    )
                    &&& locked.notes@ == self.notes@.insert(*note_id, note)
                },
            },
    {
        match self.locks.lock_note(Some(note.value), min_stake, service_type, note_id) {
            Ok(locks) => {
                let mut notes: TrieMap<Note> = self.notes;
                notes.insert_mut(*note_id, note);
                let r = LockedNotes { locks, notes };
                assert(r.notes@.dom() =~= r.locks@.dom());
                Ok(r)
            },
            Err(error) => Err(error),
        }
    }

    /// Unlocks a note from a service, and gives the note.
    pub fn unlock(self, service_type: ServiceType, note_id: &NoteId) -> (r: Result<
        (Self, Note),
        Error,
    >)
        requires
            self.well_formed(),
        ensures
            match locked_notes::unlock_failure(self.services(), service_type, *note_id) {
                Some(error) => r == Err::<(Self, Note), _>(error),
                None => {
                    &&& r matches Ok((locked, note))
                    &&& locked.well_formed()
                    &&& note == self.notes@[*note_id]
                    &&& locked.services() == locked_notes::after_unlock(
                        self.services(),
                        *note_id,
                        service_type,
                    )
                    &&& locked.notes@ == self.notes@.restrict(locked.services().dom())
                },
            },
    {
        let known: Option<Note> = match self.notes.get(note_id) {
            Some(note) => Some(*note),
            None => None,
        };
        match (self.locks.unlock(service_type, note_id), known) {
            (Ok(locks), Some(note)) => {
                let mut notes: TrieMap<Note> = self.notes;
                if !locks.contains(note_id) {
                    notes.remove_mut(note_id);
                }
                let r = LockedNotes { locks, notes };
                assert(r.notes@ =~= self.notes@.restrict(r.locks@.dom()));
                assert(r.notes@.dom() =~= r.locks@.dom());
                Ok((r, note))
            },
            (Err(error), _) => Err(error),
            (Ok(_), None) => Err(Error::NoteNotLocked(*note_id)),
        }
    }
}

impl Clone for LockedNotes {
    fn clone(&self) -> (r: Self)
        ensures
            r == *self,
    {
        LockedNotes { locks: self.locks.clone(), notes: self.notes.clone() }
    }
}

} // verus!
