//! Why a block or a transaction is rejected.
use vstd::prelude::*;

use crate::mantle;
use crate::mantle::helpers::VerificationError;
use crate::types::{Gas, HeaderId, NoteId, OpFailure, Slot};

verus! {

/// Why a block or a transaction is rejected.
#[derive(Clone, Copy, Debug, PartialEq, Eq)]
pub enum LedgerError {
    /// The slot of the block is not after that of its parent.
    InvalidSlot { parent: Slot, block: Slot },
    /// There is no state for the parent of the block.
    ParentNotFound(HeaderId),
    /// The proof of leadership is not valid.
    InvalidProof,
    /// A transaction does not pay for its gas.
    InsufficientBalance,
    /// The balance of a transaction cannot be represented.
    BalanceOverflow,
    /// A transaction pays too much.
    UnbalancedTransaction,
    /// An amount of gas, or its cost, cannot be represented.
    GasOverflow,
    /// An operation failed.
    Mantle(mantle::Error),
    /// The inputs of a transfer are not valid.
    Inputs(OpFailure),
    /// The outputs of a transfer are not valid.
    Outputs(OpFailure),
    /// The genesis block spends a note.
    InputInGenesis(NoteId),
    /// The genesis block has no transfer.
    MissingTransferGenesis,
    /// The fees do not cover the execution gas.
    InsufficientExecutionFee,
    /// The block uses too much execution gas.
    TooMuchExecutionGas { gas: Gas, limit: Gas },
    /// The fees for storage are not those of the epoch.
    InvalidStoragePrice,
    /// An operation was not verified.
    VerificationError(VerificationError),
}

} // verus!
