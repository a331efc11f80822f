//! The state that operations of transactions work on.
pub mod channel;
pub mod helpers;
pub mod leader;
pub mod leader_laws;
pub mod lock_laws;
pub mod locked_notes;
pub mod pow;
pub mod pow_laws;
pub mod sdp;

use vstd::prelude::*;

use crate::config::Config;
use crate::cryptarchia::epoch::EpochState;
use crate::mantle::channel::Channels;
use crate::mantle::leader::{LeaderState, VOUCHERS_HEIGHT};
use crate::mantle::locked_notes::LockedNotes;
use crate::mantle::sdp::rewards::blend::current_epoch::CoreNetwork;
use crate::mantle::sdp::rewards::blend::target_epoch::ProofOutcome;
use crate::mantle::sdp::{ActiveExecution, PendingHeaderEffect, SdpExecution, SdpLedger};
use crate::merkle::hasher::{MerkleHasher, NodeHash};
use crate::merkle::tree::LeafExtractor;
use crate::mmr;
use crate::mmr::MerkleMountainRange;
use crate::types::{
    DeclarationId, Epoch, NoteId, OpFailure, ServiceType, TxEvent, Utxo, Value, VoucherCm,
};

verus! {

/// Failure of an operation.
#[derive(Clone, Copy, Debug, PartialEq, Eq)]
pub enum Error {
    /// An operation on a channel failed.
    Channel(OpFailure),
    /// The state of leaders could not be updated.
    Leader(leader::Error),
    /// An operation on declarations failed.
    Sdp(sdp::Error),
    /// A transfer failed.
    Transfer(OpFailure),
    /// A claim of a leader failed.
    LeaderClaim(OpFailure),
    /// There is no such note.
    NoteNotFound(NoteId),
}

/// What an operation on channels leads to.
pub struct ChannelExecution {
    pub channels: Channels,
    pub events: Vec<TxEvent>,
}

/// Channels, declarations and the rewards of leaders.
#[verifier::reject_recursive_types(H)]
pub struct LedgerState<H> {
    pub channels: Channels,
    pub sdp: SdpLedger,
    pub leaders: LeaderState<H>,
}

/// Whether `r` is what `before` becomes by an operation on channels with this outcome.
pub open spec fn is_channel_result<H>(
    before: &LedgerState<H>,
    outcome: Result<ChannelExecution, OpFailure>,
    r: Result<(LedgerState<H>, Vec<TxEvent>), Error>,
) -> bool {
    match outcome {
        Ok(execution) => r == Ok::<_, Error>(
            (LedgerState { channels: execution.channels, ..*before }, execution.events),
        ),
        Err(failure) => r == Err::<(LedgerState<H>, Vec<TxEvent>), _>(Error::Channel(failure)),
    }
}

/// Whether `r` is `before` with what came of an operation on declarations.
pub open spec fn is_sdp_result<H>(
    before: &LedgerState<H>,
    outcome: Result<(SdpLedger, Vec<TxEvent>), sdp::Error>,
    r: Result<(LedgerState<H>, Vec<TxEvent>), Error>,
) -> bool {
    match outcome {
        Ok((sdp, events)) => r == Ok::<_, Error>((LedgerState { sdp, ..*before }, events)),
        Err(error) => r == Err::<(LedgerState<H>, Vec<TxEvent>), _>(Error::Sdp(error)),
    }
}

/// Whether the outcome of an activity message is `r`.
pub open spec fn is_active_result(
    before: &SdpLedger,
    declaration_id: DeclarationId,
    config: &sdp::Config,
    outcome: Result<ActiveExecution, OpFailure>,
    proof_epoch: Epoch,
    proof_outcome: ProofOutcome,
    r: Result<(SdpLedger, Vec<TxEvent>), sdp::Error>,
) -> bool {
    match sdp::active_failure(
        before,
        declaration_id,
        config,
        outcome,
        proof_epoch,
        proof_outcome,
    ) {
        Some(error) => r == Err::<(SdpLedger, Vec<TxEvent>), _>(error),
        None => {
            let provider_id = outcome->Ok_0.declarations@[declaration_id].provider_id;
            let service = before.blend_network->0;
            &&& r matches Ok((sdp, events))
            &&& events == outcome->Ok_0.events
            &&& sdp.locked_notes == before.locked_notes
            &&& sdp.epoch == before.epoch
            &&& sdp.blend_network matches Some(state)
            &&& state.declarations == outcome->Ok_0.declarations
            &&& state.rewards.same_target(&service.rewards)
            &&& state.rewards.income() == service.rewards.income()
            &&& state.rewards.submitted() == service.rewards.submitted().insert(
                provider_id,
                (
                    service.rewards.target()->0.providers@[provider_id].0,
                    proof_outcome->Distance_0,
                ),
            )
        },
    }
}

/// Whether `r` is what comes of applying the header of a block to `before`.
pub open spec fn is_header_result<H: MerkleHasher, U: LeafExtractor<Utxo>>(
    before: &LedgerState<H>,
    last: &EpochState<U>,
    next: &EpochState<U>,
    voucher: VoucherCm,
    config: &Config,
    core: CoreNetwork,
    r: Result<(LedgerState<H>, PendingHeaderEffect), Error>,
) -> bool {
    if next.epoch < before.leaders.epoch {
        r == Err::<(LedgerState<H>, PendingHeaderEffect), _>(
            Error::Leader(
                leader::Error::InvalidEpoch {
                    current: before.leaders.epoch,
                    incoming: next.epoch,
                },
            ),
        )
    } else if before.sdp.blend_network is Some
        && config.sdp_config.service_params.blend_network is None {
        r == Err::<(LedgerState<H>, PendingHeaderEffect), _>(
            Error::Sdp(sdp::Error::EpochParamsNotFound(ServiceType::BlendNetwork)),
        )
    } else {
        &&& r matches Ok((after, effect))
        &&& after.channels == before.channels
        &&& after.leaders == (LeaderState {
            vouchers: after.leaders.vouchers,
            ..before.leaders.at_epoch(next.epoch)
        })
        &&& after.leaders.vouchers.peaks() == before.leaders.vouchers.peaks_with(voucher)
        &&& after.leaders.vouchers.leaf_count() == before.leaders.vouchers.leaf_count() + 1
        &&& sdp::is_header_step(
            &before.sdp,
            last,
            next,
            config.sdp_config.service_rewards_params.blend,
            core,
            &after.sdp,
            &effect,
        )
    }
}

impl<H: MerkleHasher> LedgerState<H> {
    /// Whether the parts are well formed.
    pub open spec fn well_formed(&self) -> bool {
        self.sdp.well_formed() && self.leaders.well_formed()
    }

    /// Whether a header that moves on from `last` to `next` can be applied: there is room
    /// for one more voucher, what leaders have earned can be counted, and the rewards of
    /// providers are those of the last epoch.
    pub open spec fn can_move_on<U: LeafExtractor<Utxo>>(
        &self,
        last: &EpochState<U>,
        next: &EpochState<U>,
        config: &Config,
    ) -> bool {
        &&& self.leaders.vouchers.leaf_count() < self.leaders.vouchers.max_leaves()
        &&& next.epoch > self.leaders.epoch ==> self.leaders.claimable_rewards
            + self.leaders.pending_rewards <= u64::MAX
        &&& self.sdp.blend_network is Some && last.epoch < next.epoch ==> {
            &&& self.sdp.blend_network->0.rewards.current().epoch == last.epoch
            &&& next.utxos.well_formed()
            &&& config.sdp_config.service_rewards_params.blend.message_quota() <= u64::MAX
        }
    }

    /// Makes a state without channels and declarations.
    pub fn new<U: LeafExtractor<Utxo>>(config: &Config, epoch_state: &EpochState<U>) -> (r: Self)
        requires
            mmr::supported(VOUCHERS_HEIGHT),
            epoch_state.utxos.well_formed(),
            config.sdp_config.service_rewards_params.blend.message_quota() <= u64::MAX,
        ensures
            r.well_formed(),
            r.sdp.in_step(),
            r.sdp.epoch == epoch_state.epoch,
            r.channels@.dom().is_empty(),
            r.sdp.blend_network is Some,
            r.sdp.blend_declarations() == Map::<DeclarationId, crate::types::Declaration>::empty(),
            r.sdp.blend_income() == 0,
            r.sdp.blend_network->0.rewards.target() is None,
            r.sdp.blend_network->0.rewards.current()
                == sdp::rewards::blend::current_epoch::current_state(
                epoch_state,
                &config.sdp_config.service_rewards_params.blend,
            ),
            r.sdp.locked_notes@.dom().is_empty(),
            is_genesis_leaders(&r.leaders),
    {
        LedgerState {
            channels: Channels::new(),
            sdp: SdpLedger::new(epoch_state.epoch()).with_blend_service(
                &config.sdp_config.service_rewards_params.blend,
                epoch_state,
            ),
            leaders: LeaderState::new(),
        }
    }

    /// Makes the state at genesis, given what the inscription of the genesis block and its
    /// declarations lead to.
    pub fn from_genesis_tx<U: LeafExtractor<Utxo>>(
        config: &Config,
        epoch_state: &EpochState<U>,
        inscription: Result<ChannelExecution, OpFailure>,
        declarations: Vec<(ServiceType, Result<SdpExecution, OpFailure>)>,
    ) -> (r: Result<(Self, Vec<TxEvent>), Error>)
        requires
            mmr::supported(VOUCHERS_HEIGHT),
            epoch_state.utxos.well_formed(),
            config.sdp_config.service_rewards_params.blend.message_quota() <= u64::MAX,
            forall|i: int|
                0 <= i < declarations@.len() ==> ((#[trigger] declarations@[i]).1 matches Ok(
                    execution,
                ) ==> execution.locked_notes.well_formed()),
        ensures
            match genesis_failure(inscription, declarations@) {
                Some(error) => r == Err::<(Self, Vec<TxEvent>), _>(error),
                None => {
                    &&& r matches Ok((state, events))
                    &&& state.well_formed()
                    &&& state.sdp.in_step()
                    &&& state.sdp.epoch == epoch_state.epoch
                    &&& state.channels == inscription->Ok_0.channels
                    &&& events@ == inscription->Ok_0.events@ + sdp::genesis_events(declarations@)
                    &&& is_genesis_leaders(&state.leaders)
                    &&& state.sdp.blend_network matches Some(service)
                    &&& service.rewards.target() is None
                    &&& service.rewards.income() == 0
                    &&& service.rewards.current()
                        == sdp::rewards::blend::current_epoch::current_state(
                        epoch_state,
                        &config.sdp_config.service_rewards_params.blend,
                    )
                    &&& if declarations@.len() == 0 {
                        &&& service.declarations@.dom().is_empty()
                        &&& state.sdp.locked_notes@.dom().is_empty()
                    } else {
                        &&& service.declarations == declarations@.last().1->Ok_0.declarations
                        &&& state.sdp.locked_notes == declarations@.last().1->Ok_0.locked_notes
                    }
                },
            },
    {
        let execution: ChannelExecution = match inscription {
            Ok(execution) => execution,
            Err(failure) => return Err(Error::Channel(failure)),
        };
        let mut tx_events: Vec<TxEvent> = execution.events;
        match SdpLedger::from_genesis(&config.sdp_config, epoch_state, declarations) {
            Ok((sdp, events)) => {
                let mut more: Vec<TxEvent> = events;
                tx_events.append(&mut more);
                Ok(
                    (
                        LedgerState {
                            channels: execution.channels,
                            sdp,
                            leaders: LeaderState::new(),
                        },
                        tx_events,
                    ),
                )
            },
            Err(error) => Err(Error::Sdp(error)),
        }
    }

    /// The notes that back declarations.
    pub fn locked_notes(&self) -> (r: &LockedNotes)
        ensures
            *r == self.sdp.locked_notes,
    {
        self.sdp.locked_notes()
    }

    /// The declarations.
    pub fn sdp_ledger(&self) -> (r: &SdpLedger)
        ensures
            *r == self.sdp,
    {
        &self.sdp
    }

    /// The channels.
    pub fn channels(&self) -> (r: &Channels)
        ensures
            *r == self.channels,
    {
        &self.channels
    }

    /// Replaces the channels.
    pub fn update_channels(self, channels: Channels) -> (r: Self)
        ensures
            r == (LedgerState { channels, ..self }),
    {
        LedgerState { channels, ..self }
    }

    /// The root of the vouchers at the start of the epoch.
    pub fn vouchers_snapshot_root(&self) -> (r: &NodeHash)
        ensures
            *r == self.leaders.vouchers_snapshot.root,
    {
        self.leaders.vouchers_snapshot_root()
    }

    /// All vouchers.
    pub fn vouchers(&self) -> (r: &MerkleMountainRange<H, VOUCHERS_HEIGHT>)
        ensures
            *r == self.leaders.vouchers,
    {
        self.leaders.vouchers()
    }

    /// What each voucher that was not claimed is worth.
    pub fn leader_reward_amount(&self) -> (r: Value)
        ensures
            r == self.leaders.reward(),
    {
        self.leaders.reward_amount()
    }

    /// Applies the header of a block: the voucher of its leader, and the start of an epoch if
    /// it is the first block of one. The rewards that fall due are still to be paid.
    pub fn try_apply_header<U: LeafExtractor<Utxo>>(
        self,
        last_epoch_state: &EpochState<U>,
        epoch_state: &EpochState<U>,
        voucher: VoucherCm,
        config: &Config,
        core: CoreNetwork,
    ) -> (r: Result<(Self, PendingHeaderEffect), Error>)
        requires
            self.well_formed(),
            self.can_move_on(last_epoch_state, epoch_state, config),
        ensures
            is_header_result(&self, last_epoch_state, epoch_state, voucher, config, core, r),
            r matches Ok((after, _)) ==> after.well_formed(),
    {
        let leaders: LeaderState<H> = match self.leaders.try_apply_header(
            epoch_state.epoch,
            voucher,
        ) {
            Ok(leaders) => leaders,
            Err(error) => return Err(Error::Leader(error)),
        };
        match self.sdp.try_apply_header(&config.sdp_config, last_epoch_state, epoch_state, core) {
            Ok((sdp, effect)) => Ok(
                (LedgerState { channels: self.channels, sdp, leaders }, effect),
            ),
            Err(error) => Err(Error::Sdp(error)),
        }
    }

    /// Applies an inscription in a channel, given what it leads to.
    pub fn try_apply_channel_inscription(
        self,
        outcome: Result<ChannelExecution, OpFailure>,
    ) -> (r: Result<(Self, Vec<TxEvent>), Error>)
        ensures
            is_channel_result(&self, outcome, r),
    {
        match outcome {
            Ok(execution) => Ok((self.update_channels(execution.channels), execution.events)),
            Err(failure) => Err(Error::Channel(failure)),
        }
    }

    /// Applies a new configuration of a channel, given what it leads to.
    pub fn try_apply_channel_config(self, outcome: Result<ChannelExecution, OpFailure>) -> (r:
        Result<(Self, Vec<TxEvent>), Error>)
        ensures
            is_channel_result(&self, outcome, r),
    {
        match outcome {
            Ok(execution) => Ok((self.update_channels(execution.channels), execution.events)),
            Err(failure) => Err(Error::Channel(failure)),
        }
    }

    /// Applies a declaration, given what it leads to.
    pub fn try_apply_sdp_declaration(
        self,
        service_type: ServiceType,
        outcome: Result<SdpExecution, OpFailure>,
    ) -> (r: Result<(Self, Vec<TxEvent>), Error>)
        requires
            self.well_formed(),
            outcome matches Ok(execution) ==> execution.locked_notes.well_formed(),
        ensures
            exists|result: Result<(SdpLedger, Vec<TxEvent>), sdp::Error>| #[trigger]
                is_sdp_result(&self, result, r) && sdp::is_executed(
                    &self.sdp,
                    service_type,
                    outcome,
                    result,
                ),
            r matches Ok((state, _)) ==> state.well_formed(),
    {
        let result: Result<(SdpLedger, Vec<TxEvent>), sdp::Error> =
            self.sdp.try_apply_sdp_declaration(service_type, outcome);
        let ghost done = result;
        let r: Result<(Self, Vec<TxEvent>), Error> = match result {
            Ok((sdp, events)) => Ok(
                (LedgerState { channels: self.channels, sdp, leaders: self.leaders }, events),
            ),
            Err(error) => Err(Error::Sdp(error)),
        };
        assert(is_sdp_result(&self, done, r));
        r
    }

    /// Applies an activity message, given what it leads to and what the verification of its
    /// proof found out.
    pub fn try_apply_sdp_active(
        self,
        declaration_id: &DeclarationId,
        config: &Config,
        outcome: Result<ActiveExecution, OpFailure>,
        proof_epoch: Epoch,
        proof_outcome: ProofOutcome,
    ) -> (r: Result<(Self, Vec<TxEvent>), Error>)
        requires
            self.well_formed(),
            outcome matches Ok(execution) ==> execution.declarations@.dom().contains(
                *declaration_id,
            ),
        ensures
            exists|result: Result<(SdpLedger, Vec<TxEvent>), sdp::Error>| #[trigger]
                is_sdp_result(&self, result, r) && is_active_result(
                    &self.sdp,
                    *declaration_id,
                    &config.sdp_config,
                    outcome,
                    proof_epoch,
                    proof_outcome,
                    result,
                ),
            r matches Ok((state, _)) ==> state.well_formed(),
    {
        let result: Result<(SdpLedger, Vec<TxEvent>), sdp::Error> = self.sdp.apply_active_msg(
            declaration_id,
            &config.sdp_config,
            outcome,
            proof_epoch,
            proof_outcome,
        );
        let ghost done = result;
        let r: Result<(Self, Vec<TxEvent>), Error> = match result {
            Ok((sdp, events)) => Ok(
                (LedgerState { channels: self.channels, sdp, leaders: self.leaders }, events),
            ),
            Err(error) => Err(Error::Sdp(error)),
        };
        assert(is_sdp_result(&self, done, r));
        r
    }

    /// Applies a withdrawal, given what it leads to.
    pub fn try_apply_sdp_withdraw(
        self,
        declaration_id: &DeclarationId,
        config: &Config,
        outcome: Result<SdpExecution, OpFailure>,
    ) -> (r: Result<(Self, Vec<TxEvent>), Error>)
        requires
            self.well_formed(),
            outcome matches Ok(execution) ==> execution.locked_notes.well_formed(),
        ensures
            match sdp::service_failure(&self.sdp, *declaration_id, &config.sdp_config) {
                Some(error) => r == Err::<(Self, Vec<TxEvent>), _>(Error::Sdp(error)),
                None => exists|result: Result<(SdpLedger, Vec<TxEvent>), sdp::Error>| #[trigger]
                    is_sdp_result(&self, result, r) && sdp::is_executed(
                        &self.sdp,
                        ServiceType::BlendNetwork,
                        outcome,
                        result,
                    ),
            },
            r matches Ok((state, _)) ==> state.well_formed(),
    {
        let result: Result<(SdpLedger, Vec<TxEvent>), sdp::Error> = self.sdp.apply_withdrawn_msg(
            declaration_id,
            &config.sdp_config,
            outcome,
        );
        let ghost done = result;
        let r: Result<(Self, Vec<TxEvent>), Error> = match result {
            Ok((sdp, events)) => Ok(
                (LedgerState { channels: self.channels, sdp, leaders: self.leaders }, events),
            ),
            Err(error) => Err(Error::Sdp(error)),
        };
        assert(is_sdp_result(&self, done, r));
        r
    }
}

/// Whether `leaders` is the state of leaders at genesis.
pub open spec fn is_genesis_leaders<H: MerkleHasher>(leaders: &LeaderState<H>) -> bool {
    &&& leaders.epoch == 0
    &&& leaders.vouchers_snapshot.root == crate::merkle::hasher::empty_value()
    &&& leaders.vouchers_snapshot.count == 0
    &&& leaders.nfs@.is_empty()
    &&& leaders.claimable_rewards == 0
    &&& leaders.pending_rewards == 0
    &&& leaders.vouchers.peaks() == Seq::<mmr::Root>::empty()
    &&& leaders.vouchers.represents(Seq::empty())
}

/// Why the genesis block is rejected, if it is.
pub open spec fn genesis_failure(
    inscription: Result<ChannelExecution, OpFailure>,
    declarations: Seq<(ServiceType, Result<SdpExecution, OpFailure>)>,
) -> Option<Error> {
    match inscription {
        Err(failure) => Some(Error::Channel(failure)),
        Ok(_) => match sdp::first_failure(declarations) {
            Some(error) => Some(Error::Sdp(error)),
            None => None,
        },
    }
}

impl<H> Clone for LedgerState<H> {
    fn clone(&self) -> (r: Self)
        ensures
            r == *self,
    {
        LedgerState {
            channels: self.channels.clone(),
            sdp: self.sdp.clone(),
            leaders: self.leaders.clone(),
        }
    }
}

} // verus!
