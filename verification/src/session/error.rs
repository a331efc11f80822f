//! Why a block or a transaction is rejected.
use vstd::prelude::*;

use crate::session::mantle;
use crate::types::{HeaderId, NoteId, Slot};

verus! {

/// Why a block or a transaction is rejected.
#[derive(Clone, Copy, Debug, PartialEq, Eq)]
pub enum LedgerError {
    /// The slot of the block is not after that of its parent.
    InvalidSlot { parent: Slot, block: Slot },
    /// There is no state for the parent of the block.
    ParentNotFound(HeaderId),
    /// A proof is not valid.
    InvalidProof,
    /// There is no such note, or it was spent.
    InvalidNote(NoteId),
    /// A transaction does not pay for its gas.
    InsufficientBalance,
    /// A transaction pays too much.
    UnbalancedTransaction,
    /// A balance cannot be represented.
    Overflow,
    /// An output is worth nothing.
    ZeroValueNote,
    /// An operation failed.
    Mantle(mantle::Error),
    /// The note is locked.
    LockedNote(NoteId),
    /// The genesis block spends a note.
    InputInGenesis(NoteId),
}

} // verus!
