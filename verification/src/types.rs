//! Plain values that the ledger works on.
use vstd::prelude::*;

verus! {

/// A field element, as thirty-two bytes in little-endian order.
pub type Fr = [u8; 32];

/// Identifies a block.
pub type HeaderId = [u8; 32];

/// Identifies a note.
pub type NoteId = [u8; 32];

/// Identifies a transaction.
pub type TxHash = [u8; 32];

/// Identifies an operation of a transaction.
pub type OpId = [u8; 32];

/// Identifies a declaration of a service provider.
pub type DeclarationId = [u8; 32];

/// Identifies a service provider: its public signing key.
pub type ProviderId = [u8; 32];

/// The public key that a note is owned by.
pub type ZkPublicKey = [u8; 32];

/// A commitment to a reward voucher of a leader.
pub type VoucherCm = [u8; 32];

/// Marks a reward voucher as claimed.
pub type VoucherNullifier = [u8; 32];

/// A number of tokens.
pub type Value = u64;

/// A number of units of gas.
pub type Gas = u64;

/// The price of a unit of gas.
pub type GasPrice = u64;

/// The cost of some gas.
pub type GasCost = u64;

/// The position of a time slot.
pub type Slot = u64;

/// The number of an epoch.
pub type Epoch = u32;

/// The position of a block.
pub type BlockNumber = u64;

/// A balance. Notes are `u64`; sums of them are wider, and differences can be
/// negative.
pub type Balance = i128;

/// A number that orders the messages of a declaration.
pub type Nonce = u64;

/// A service that providers can declare for.
#[derive(Clone, Copy, Debug, PartialEq, Eq, Structural)]
pub enum ServiceType {
    BlendNetwork,
    DataAvailability,
}

/// An amount of tokens and its owner.
#[derive(Clone, Copy, Debug, PartialEq, Eq)]
pub struct Note {
    pub value: Value,
    pub pk: ZkPublicKey,
}

/// An unspent output: a note, where it comes from, and its identifier.
#[derive(Clone, Copy, Debug, PartialEq, Eq)]
pub struct Utxo {
    pub id: NoteId,
    pub op_id: OpId,
    pub output_index: u64,
    pub note: Note,
}

/// A declaration of a service provider.
#[derive(Clone, Copy, Debug, PartialEq, Eq)]
pub struct Declaration {
    pub service_type: ServiceType,
    pub provider_id: ProviderId,
    pub locked_note_id: NoteId,
    pub zk_id: ZkPublicKey,
    pub created: Epoch,
    /// The last epoch in which activity was accepted, or the first in which it is
    /// expected.
    pub active: Epoch,
    /// The epoch from which the declaration does not count any more.
    pub withdraw_at: Option<Epoch>,
    pub nonce: Nonce,
}

/// What an operation of a transaction reports.
#[derive(Clone, Debug, PartialEq, Eq)]
pub struct TxEvent {
    pub tx_hash: TxHash,
    pub op_id: OpId,
    pub payload: Vec<u8>,
}

/// What the application of a header reports.
#[derive(Clone, Copy, Debug, PartialEq, Eq)]
pub enum HeaderEvent {
    /// A reward was paid to a provider.
    SdpRewardDistributed { service_type: ServiceType, utxo: Utxo },
    /// The note that backed a declaration was unlocked.
    SdpNoteUnlocked {
        note_id: NoteId,
        service_type: ServiceType,
        declaration_id: DeclarationId,
    },
}

/// The failure that an operation reported, by its code.
#[derive(Clone, Copy, Debug, PartialEq, Eq, Structural)]
pub struct OpFailure {
    pub code: u32,
}

} // verus!
