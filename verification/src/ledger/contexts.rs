//! What operations of transactions work on.
use vstd::prelude::*;

use crate::collections::trie_set::TrieSet;
use crate::config::Config;
use crate::cryptarchia::epoch::UtxoTree;
use crate::error::LedgerError;
use crate::ledger::ops;
use crate::ledger::LedgerState;
use crate::mantle;
use crate::mantle::channel::Channels;
use crate::mantle::locked_notes::{LockedNotes, MinStake};
use crate::mantle::sdp;
use crate::mantle::sdp::Declarations;
use crate::merkle::tree::LeafExtractor;
use crate::types::{DeclarationId, Epoch, ServiceType, Slot, TxHash, Utxo, Value};

verus! {

/// An operation that is to be executed, with the hash of its transaction where it works on that.
#[derive(Clone, Copy, Debug, PartialEq, Eq)]
pub enum OpRequest {
    ChannelInscribe,
    ChannelConfig,
    ChannelDeposit { tx_hash: TxHash },
    ChannelWithdraw { tx_hash: TxHash },
    ChannelTransfer { tx_hash: TxHash },
    SdpDeclare { service_type: ServiceType },
    SdpActive { declaration_id: DeclarationId },
    SdpWithdraw { declaration_id: DeclarationId },
    LeaderClaim { tx_hash: TxHash },
    Transfer,
}

/// What an operation works on.
#[verifier::reject_recursive_types(U)]
pub enum OpContext<U: LeafExtractor<Utxo>> {
    /// For messages in channels, and for their keys.
    Channel { channels: Channels, block_slot: Slot },
    /// For tokens that enter channels, or move between them.
    ChannelUtxos { channels: Channels, utxos: UtxoTree<U>, tx_hash: TxHash },
    /// For tokens that leave channels.
    ChannelWithdraw { channels: Channels, tx_hash: TxHash },
    /// For a new declaration.
    SdpDeclare {
        utxos: UtxoTree<U>,
        epoch: Epoch,
        declarations: Declarations,
        locked_notes: LockedNotes,
        min_stake: MinStake,
    },
    /// For an activity message.
    SdpActive { epoch: Epoch, declarations: Declarations },
    /// For the end of a declaration.
    SdpWithdraw { declarations: Declarations, locked_notes: LockedNotes, epoch: Epoch },
    /// For the claim of a leader.
    LeaderClaim {
        nullifiers: TrieSet,
        reward_amount: Value,
        claimable_rewards: Value,
        utxos: UtxoTree<U>,
        tx_hash: TxHash,
    },
    /// For a transfer.
    Transfer { utxos: UtxoTree<U> },
}

/// What an operation works on after `state`, or why it fails before it gets to work.
pub open spec fn context_of<U: LeafExtractor<Utxo>>(
    state: &LedgerState<U>,
    config: &Config,
    request: OpRequest,
) -> Result<OpContext<U>, LedgerError> {
    let channels = state.mantle_ledger.channels;
    let utxos = state.cryptarchia_ledger.utxos;
    let sdp = state.mantle_ledger.sdp;
    let leaders = state.mantle_ledger.leaders;
    match request {
        OpRequest::ChannelInscribe => Ok(
            OpContext::Channel { channels, block_slot: state.cryptarchia_ledger.slot },
        ),
        OpRequest::ChannelConfig => Ok(
            OpContext::Channel { channels, block_slot: state.cryptarchia_ledger.slot },
        ),
        OpRequest::ChannelDeposit { tx_hash } => Ok(
            OpContext::ChannelUtxos { channels, utxos, tx_hash },
        ),
        OpRequest::ChannelWithdraw { tx_hash } => Ok(
            OpContext::ChannelWithdraw { channels, tx_hash },
        ),
        OpRequest::ChannelTransfer { tx_hash } => Ok(
            OpContext::ChannelUtxos { channels, utxos, tx_hash },
        ),
        OpRequest::SdpDeclare { service_type } => match sdp.service(service_type) {
            None => Err(ops::sdp_error(sdp::Error::ServiceNotFound(service_type))),
            Some(service) => Ok(
                OpContext::SdpDeclare {
                    utxos,
                    epoch: sdp.epoch,
                    declarations: service.declarations,
                    locked_notes: sdp.locked_notes,
                    min_stake: config.sdp_config.min_stake,
                },
            ),
        },
        OpRequest::SdpActive { declaration_id } => match sdp::service_failure(
            &sdp,
            declaration_id,
            &config.sdp_config,
        ) {
            Some(error) => Err(ops::sdp_error(error)),
            None => Ok(
                OpContext::SdpActive {
                    epoch: sdp.epoch,
                    declarations: sdp.blend_network->0.declarations,
                },
            ),
        },
        OpRequest::SdpWithdraw { declaration_id } => match sdp::service_failure(
            &sdp,
            declaration_id,
            &config.sdp_config,
        ) {
            Some(error) => Err(ops::sdp_error(error)),
            None => Ok(
                OpContext::SdpWithdraw {
                    declarations: sdp.blend_network->0.declarations,
                    locked_notes: sdp.locked_notes,
                    epoch: sdp.epoch,
                },
            ),
        },
        OpRequest::LeaderClaim { tx_hash } => Ok(
            OpContext::LeaderClaim {
                nullifiers: leaders.nfs,
                reward_amount: leaders.reward() as u64,
                claimable_rewards: leaders.claimable_rewards,
                utxos,
                tx_hash,
            },
        ),
        OpRequest::Transfer => Ok(OpContext::Transfer { utxos }),
    }
}

impl<U: LeafExtractor<Utxo>> LedgerState<U> {
    /// What an operation works on, or why it fails before it gets to work.
    pub fn op_context(&self, config: &Config, request: OpRequest) -> (r: Result<
        OpContext<U>,
        LedgerError,
    >)
        ensures
            r == context_of(self, config, request),
    {
        let sdp: &sdp::SdpLedger = self.mantle_ledger.sdp_ledger();
        match request {
            OpRequest::ChannelInscribe | OpRequest::ChannelConfig => Ok(
                OpContext::Channel {
                    channels: self.mantle_ledger.channels().clone(),
                    block_slot: self.slot(),
                },
            ),
            OpRequest::ChannelDeposit { tx_hash } | OpRequest::ChannelTransfer { tx_hash } => Ok(
                OpContext::ChannelUtxos {
                    channels: self.mantle_ledger.channels().clone(),
                    utxos: self.latest_utxos().clone(),
                    tx_hash,
                },
            ),
            OpRequest::ChannelWithdraw { tx_hash } => Ok(
                OpContext::ChannelWithdraw {
                    channels: self.mantle_ledger.channels().clone(),
                    tx_hash,
                },
            ),
            OpRequest::SdpDeclare { service_type } => {
                match sdp.get_declarations_by_service(service_type) {
                    Some(declarations) => Ok(
                        OpContext::SdpDeclare {
                            utxos: self.latest_utxos().clone(),
                            epoch: sdp.epoch,
                            declarations: declarations.clone(),
                            locked_notes: sdp.locked_notes().clone(),
                            min_stake: config.sdp_config.min_stake,
                        },
                    ),
                    None => Err(
                        LedgerError::Mantle(
                            mantle::Error::Sdp(sdp::Error::ServiceNotFound(service_type)),
                        ),
                    ),
                }
            },
            OpRequest::SdpActive { declaration_id } => {
                match sdp.declarations_with(&declaration_id, &config.sdp_config) {
                    Ok(declarations) => Ok(
                        OpContext::SdpActive {
                            epoch: sdp.epoch,
                            declarations: declarations.clone(),
                        },
                    ),
                    Err(error) => Err(LedgerError::Mantle(mantle::Error::Sdp(error))),
                }
            },
            OpRequest::SdpWithdraw { declaration_id } => {
                match sdp.declarations_with(&declaration_id, &config.sdp_config) {
                    Ok(declarations) => Ok(
                        OpContext::SdpWithdraw {
                            declarations: declarations.clone(),
                            locked_notes: sdp.locked_notes().clone(),
                            epoch: sdp.epoch,
                        },
                    ),
                    Err(error) => Err(LedgerError::Mantle(mantle::Error::Sdp(error))),
                }
            },
            OpRequest::LeaderClaim { tx_hash } => Ok(
                OpContext::LeaderClaim {
                    nullifiers: self.mantle_ledger.leaders.nullifiers_cloned(),
                    reward_amount: self.mantle_ledger.leaders.reward_amount(),
                    claimable_rewards: self.mantle_ledger.leaders.claimable_rewards(),
                    utxos: self.latest_utxos().clone(),
                    tx_hash,
                },
            ),
            OpRequest::Transfer => Ok(OpContext::Transfer { utxos: self.latest_utxos().clone() }),
        }
    }
}

} // verus!
