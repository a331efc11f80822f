//! Lookups that the verification of operations needs.
use vstd::prelude::*;

use crate::collections::trie_set::TrieSet;
use crate::config::Config;
use crate::cryptarchia;
use crate::cryptarchia::epoch::UtxoTree;
use crate::mantle;
use crate::mantle::channel::{ChannelId, ChannelKeyIndex, ChannelState, Channels};
use crate::mantle::locked_notes::{LockedNotes, MinStake};
use crate::mantle::sdp::Declarations;
use crate::merkle::hasher::NodeHash;
use crate::merkle::tree::LeafExtractor;
use crate::types::{DeclarationId, Epoch, OpFailure, ServiceType, Slot, Utxo};

verus! {

/// Why an operation is not verified.
#[derive(Clone, Copy, Debug, PartialEq, Eq)]
pub enum VerificationError {
    /// There is no such service.
    ServiceNotFound(ServiceType),
    /// There is no such declaration.
    DeclarationNotFound(DeclarationId),
    /// There is no such channel.
    ChannelNotFound { channel_id: ChannelId },
    /// The channel has no such key.
    KeyNotFound { channel_id: ChannelId, key_index: ChannelKeyIndex },
    /// The operation itself is not valid.
    Operation(OpFailure),
}

/// How many keys of a channel it takes to transfer its tokens, if there is the channel.
pub open spec fn threshold_of(
    channels: Map<ChannelId, ChannelState>,
    channel_id: ChannelId,
) -> Result<ChannelKeyIndex, VerificationError> {
    if channels.dom().contains(channel_id) {
        Ok(channels[channel_id].transfer_threshold)
    } else {
        Err(VerificationError::ChannelNotFound { channel_id })
    }
}

/// One of the keys of a channel, if there are the channel and the key.
pub open spec fn key_of(
    channels: Map<ChannelId, ChannelState>,
    channel_id: ChannelId,
    key_index: ChannelKeyIndex,
) -> Result<[u8; 32], VerificationError> {
    if !channels.dom().contains(channel_id) {
        Err(VerificationError::ChannelNotFound { channel_id })
    } else {
        let keys = channels[channel_id].accredited_keys@;
        if key_index < keys.len() {
            Ok(keys[key_index as int])
        } else {
            Err(VerificationError::KeyNotFound { channel_id, key_index })
        }
    }
}

/// A channel that there is has its threshold, and as many keys as were accredited, counted from
/// zero. Of another one nothing is known.
pub proof fn channels_have_their_keys(
    channels: Map<ChannelId, ChannelState>,
    channel_id: ChannelId,
    key_index: ChannelKeyIndex,
)
    ensures
        threshold_of(channels, channel_id) is Ok <==> channels.dom().contains(channel_id),
        threshold_of(channels, channel_id) matches Ok(threshold) ==> threshold
            == channels[channel_id].transfer_threshold,
        key_of(channels, channel_id, key_index) is Ok <==> channels.dom().contains(channel_id)
            && key_index < channels[channel_id].accredited_keys@.len(),
        key_of(channels, channel_id, key_index) matches Ok(key) ==> key
            == channels[channel_id].accredited_keys@[key_index as int],
        key_of(channels, channel_id, key_index) == Err::<[u8; 32], _>(
            VerificationError::KeyNotFound { channel_id, key_index },
        ) <==> channels.dom().contains(channel_id) && key_index
            >= channels[channel_id].accredited_keys@.len(),
{
}

/// The state that operations are verified against.
#[verifier::reject_recursive_types(U)]
pub struct MantleOperationVerificationHelper<'a, U: LeafExtractor<Utxo>> {
    pub ledger_state: &'a mantle::LedgerState<U::Hasher>,
    pub cryptarchia_ledger: &'a cryptarchia::LedgerState<U>,
    pub config: &'a Config,
}

impl<'a, U: LeafExtractor<Utxo>> MantleOperationVerificationHelper<'a, U> {
    /// Looks at a state.
    pub fn new(
        ledger_state: &'a mantle::LedgerState<U::Hasher>,
        cryptarchia_ledger: &'a cryptarchia::LedgerState<U>,
        config: &'a Config,
    ) -> (r: Self)
        ensures
            *r.ledger_state == *ledger_state,
            *r.cryptarchia_ledger == *cryptarchia_ledger,
            *r.config == *config,
    {
        MantleOperationVerificationHelper { ledger_state, cryptarchia_ledger, config }
    }

    /// The channels.
    pub fn get_channels(&self) -> (r: &Channels)
        ensures
            *r == self.ledger_state.channels,
    {
        self.ledger_state.channels()
    }

    /// The notes that back declarations.
    pub fn get_locked_notes(&self) -> (r: &LockedNotes)
        ensures
            *r == self.ledger_state.sdp.locked_notes,
    {
        self.ledger_state.locked_notes()
    }

    /// The outputs that are not spent.
    pub fn get_utxos(&self) -> (r: &UtxoTree<U>)
        ensures
            *r == self.cryptarchia_ledger.utxos,
    {
        &self.cryptarchia_ledger.utxos
    }

    /// The declarations for a service.
    pub fn get_declarations_by_service(&self, service: ServiceType) -> (r: Result<
        &Declarations,
        VerificationError,
    >)
        ensures
            match self.ledger_state.sdp.service(service) {
                Some(state) => r == Ok::<_, VerificationError>(&state.declarations),
                None => r == Err::<&Declarations, _>(VerificationError::ServiceNotFound(service)),
            },
    {
        match self.ledger_state.sdp_ledger().get_declarations_by_service(service) {
            Some(declarations) => Ok(declarations),
            None => Err(VerificationError::ServiceNotFound(service)),
        }
    }

    /// The declarations for the service that a declaration is for.
    pub fn get_declarations_by_id(&self, id: &DeclarationId) -> (r: Result<
        &Declarations,
        VerificationError,
    >)
        ensures
            if self.ledger_state.sdp.blend_declarations().dom().contains(*id) {
                r == Ok::<_, VerificationError>(
                    &self.ledger_state.sdp.blend_network->0.declarations,
                )
            } else {
                r == Err::<&Declarations, _>(VerificationError::DeclarationNotFound(*id))
            },
    {
        match self.ledger_state.sdp_ledger().get_declarations_by_id(id) {
            Some(declarations) => Ok(declarations),
            None => Err(VerificationError::DeclarationNotFound(*id)),
        }
    }

    /// The least value of a note that can back a declaration.
    pub fn get_min_stake(&self) -> (r: &MinStake)
        ensures
            *r == self.config.sdp_config.min_stake,
    {
        &self.config.sdp_config.min_stake
    }

    /// The current epoch.
    pub fn get_epoch(&self) -> (r: Epoch)
        ensures
            r == self.ledger_state.leaders.epoch,
    {
        self.ledger_state.leaders.epoch()
    }

    /// The slot of the block.
    pub fn get_block_slot(&self) -> (r: Slot)
        ensures
            r == self.cryptarchia_ledger.slot,
    {
        self.cryptarchia_ledger.slot
    }

    /// The nullifiers of vouchers that were claimed.
    pub fn get_nullifiers(&self) -> (r: &TrieSet)
        ensures
            *r == self.ledger_state.leaders.nfs,
    {
        self.ledger_state.leaders.nullifiers()
    }

    /// The root of the vouchers that can be claimed.
    pub fn get_claimable_vouchers_root(&self) -> (r: &NodeHash)
        ensures
            *r == self.ledger_state.leaders.vouchers_snapshot.root,
    {
        self.ledger_state.vouchers_snapshot_root()
    }

    /// How many keys of a channel it takes to transfer its tokens.
    pub fn get_channel_transfer_threshold(&self, channel_id: &ChannelId) -> (r: Result<
        ChannelKeyIndex,
        VerificationError,
    >)
        ensures
            r == threshold_of(self.ledger_state.channels@, *channel_id),
    {
        match self.ledger_state.channels().channel_state(channel_id) {
            Some(channel_state) => Ok(channel_state.transfer_threshold),
            None => Err(VerificationError::ChannelNotFound { channel_id: *channel_id }),
        }
    }

    /// One of the keys of a channel.
    pub fn get_key_from_channel_at_index(
        &self,
        channel_id: &ChannelId,
        key_index: &ChannelKeyIndex,
    ) -> (r: Result<[u8; 32], VerificationError>)
        ensures
            r == key_of(self.ledger_state.channels@, *channel_id, *key_index),
    {
        match self.ledger_state.channels().channel_state(channel_id) {
            Some(channel_state) => {
                let index: usize = *key_index as usize;
                if index < channel_state.accredited_keys.len() {
                    Ok(channel_state.accredited_keys[index])
                } else {
                    Err(
                        VerificationError::KeyNotFound {
                            channel_id: *channel_id,
                            key_index: *key_index,
                        },
                    )
                }
            },
            None => Err(VerificationError::ChannelNotFound { channel_id: *channel_id }),
        }
    }
}

} // verus!
