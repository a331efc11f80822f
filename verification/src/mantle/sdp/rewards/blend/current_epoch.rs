//! Income in the epoch that is not over.
use vstd::prelude::*;

use crate::cryptarchia::epoch::EpochState;
use crate::merkle::tree::LeafExtractor;
use crate::mantle::sdp::rewards::blend::network;
use crate::mantle::sdp::rewards::blend::network::{index_providers, sorted_providers};
use crate::mantle::sdp::rewards::blend::target_epoch::{
    ProofInputs, TargetEpochState, TokenEvaluation,
};
use crate::mantle::sdp::rewards::blend::RewardsParameters;
use crate::types::{Epoch, Fr, ProviderId, ServiceType, Utxo, Value, ZkPublicKey};

verus! {

/// What the proofs of leaders are verified against.
#[derive(Clone, Copy, Debug, PartialEq, Eq)]
pub struct LeaderInputs {
    /// The root of the tree of outputs.
    pub pol_ledger_aged: Fr,
    /// The nonce of the epoch.
    pub pol_epoch_nonce: Fr,
    /// How many messages a leader may send.
    pub message_quota: u64,
    /// The first value of the lottery.
    pub lottery_0: Fr,
    /// The second value of the lottery.
    pub lottery_1: Fr,
}

/// What is computed from the providers of a network.
#[derive(Clone, Copy, Debug, PartialEq, Eq)]
pub struct CoreNetwork {
    /// The root of the tree of the keys of the providers, in ascending order.
    pub zk_root: Fr,
    /// How many messages each provider may blend.
    pub core_quota: u64,
}

/// What is fixed for the current epoch.
#[derive(Clone, Copy, Debug, PartialEq, Eq)]
pub struct CurrentEpochState {
    /// The epoch.
    pub epoch: Epoch,
    /// The randomness of the epoch.
    pub epoch_randomness: Fr,
    /// What the proofs of leaders of the epoch are verified against.
    pub leader_input: LeaderInputs,
}

/// What `epoch_state` and `settings` fix for an epoch.
pub open spec fn current_state<U: LeafExtractor<Utxo>>(
    epoch_state: &EpochState<U>,
    settings: &RewardsParameters,
) -> CurrentEpochState {
    CurrentEpochState {
        epoch: epoch_state.epoch,
        epoch_randomness: epoch_state.nonce,
        leader_input: LeaderInputs {
            pol_ledger_aged: epoch_state.utxos.root_of(),
            pol_epoch_nonce: epoch_state.nonce,
            message_quota: settings.message_quota() as u64,
            lottery_0: epoch_state.lottery_0,
            lottery_1: epoch_state.lottery_1,
        },
    }
}

impl CurrentEpochState {
    /// Takes what is needed from `epoch_state`.
    pub fn new<U: LeafExtractor<Utxo>>(
        epoch_state: &EpochState<U>,
        settings: &RewardsParameters,
    ) -> (r: Self)
        requires
            epoch_state.utxos.well_formed(),
            settings.message_quota() <= u64::MAX,
        ensures
            r == current_state(epoch_state, settings),
    {
        CurrentEpochState {
            epoch: epoch_state.epoch(),
            epoch_randomness: *epoch_state.nonce(),
            leader_input: settings.leader_inputs(epoch_state),
        }
    }

    /// The epoch.
    pub fn epoch(&self) -> (r: Epoch)
        ensures
            r == self.epoch,
    {
        self.epoch
    }

    /// The randomness of the epoch.
    pub fn epoch_randomness(&self) -> (r: Fr)
        ensures
            r == self.epoch_randomness,
    {
        self.epoch_randomness
    }
}

/// The income of the current epoch.
#[derive(Clone, Copy, Debug, PartialEq, Eq, Structural)]
pub struct CurrentEpochTracker {
    pub epoch_income: Value,
}

/// Whether activity in the epoch of `last` can be proven in the epoch of `next`: no epoch
/// lies between them, and the network was large enough.
pub open spec fn sets_target<U: LeafExtractor<Utxo>>(
    last: &EpochState<U>,
    next: &EpochState<U>,
    settings: &RewardsParameters,
) -> bool {
    &&& next.epoch == last.epoch + 1
    &&& last.active_declarations.blend_network is Some
    &&& last.active_declarations.blend().dom().len() >= settings.minimum_network_size
}

/// Whether `target` is the epoch of `last`, in which `income` was collected.
pub open spec fn is_target<U: LeafExtractor<Utxo>>(
    target: &TargetEpochState,
    last: &EpochState<U>,
    leader: LeaderInputs,
    income: Value,
    settings: &RewardsParameters,
    core: CoreNetwork,
) -> bool {
    &&& target.epoch == last.epoch
    &&& target.epoch_income == income
    &&& exists|order: Seq<(ProviderId, ZkPublicKey)>|
        network::is_order(last.active_declarations.blend(), order) && #[trigger] network::is_index(
            order,
            target.providers@,
        )
    &&& target.proof_inputs == (ProofInputs {
        zk_root: core.zk_root,
        core_quota: core.core_quota,
        leader,
    })
    &&& target.token_evaluation == (TokenEvaluation {
        core_quota: core.core_quota,
        num_core_nodes: target.providers@.dom().len() as u64,
        activity_threshold_sensitivity: settings.activity_threshold_sensitivity,
    })
}

/// The end of an epoch.
pub enum CurrentEpochTrackerOutput {
    /// Activity in the epoch can be proven.
    WithTargetEpoch {
        target_epoch_state: TargetEpochState,
        current_epoch_state: CurrentEpochState,
        current_epoch_tracker: CurrentEpochTracker,
    },
    /// Activity in the epoch cannot be proven.
    WithoutTargetEpoch {
        current_epoch_state: CurrentEpochState,
        current_epoch_tracker: CurrentEpochTracker,
    },
}

/// The providers of the epoch of `last` in the order of their keys, and how many distinct
/// ones they are, if activity in that epoch can be proven in the epoch of `next`.
pub fn core_nodes<U: LeafExtractor<Utxo>>(
    last_epoch_state: &EpochState<U>,
    next_epoch_state: &EpochState<U>,
    settings: &RewardsParameters,
) -> (r: Option<(Vec<(ProviderId, ZkPublicKey)>, u64)>)
    ensures
        r is Some <==> sets_target(last_epoch_state, next_epoch_state, settings),
        r matches Some((order, count)) ==> network::is_order(
            last_epoch_state.active_declarations.blend(),
            order@,
        ) && count == network::providers_of(order@).len(),
{
    if next_epoch_state.epoch == 0 || last_epoch_state.epoch != next_epoch_state.epoch - 1 {
        return None;
    }
    match last_epoch_state.active_declarations.for_service(&ServiceType::BlendNetwork) {
        Some(declarations) => {
            if (declarations.size() as u64) < settings.minimum_network_size {
                return None;
            }
            let order: Vec<(ProviderId, ZkPublicKey)> = sorted_providers(declarations);
            let providers = index_providers(&order);
            proof {
                network::lemma_index_domain(order@, providers@);
            }
            let count: u64 = providers.size() as u64;
            Some((order, count))
        },
        None => None,
    }
}

impl CurrentEpochTracker {
    /// Makes a tracker without income.
    pub fn new() -> (r: Self)
        ensures
            r.epoch_income == 0,
    {
        CurrentEpochTracker { epoch_income: 0 }
    }

    /// The tracker with the income of a block.
    pub fn add_block_rewards(&self, block_rewards: Value) -> (r: Self)
        requires
            self.epoch_income + block_rewards <= u64::MAX,
        ensures
            r.epoch_income == self.epoch_income + block_rewards,
    {
        CurrentEpochTracker { epoch_income: self.epoch_income + block_rewards }
    }

    /// Ends the current epoch. Where activity in it can be proven in the next one, the
    /// income goes to the providers that will have proven theirs. Otherwise nobody gets it,
    /// and `core` is not looked at.
    pub fn finalize<U: LeafExtractor<Utxo>>(
        &self,
        current_reward_epoch_state: &CurrentEpochState,
        last_epoch_state: &EpochState<U>,
        next_epoch_state: &EpochState<U>,
        settings: &RewardsParameters,
        core: CoreNetwork,
    ) -> (r: CurrentEpochTrackerOutput)
        requires
            last_epoch_state.epoch == current_reward_epoch_state.epoch,
            last_epoch_state.epoch < next_epoch_state.epoch,
            next_epoch_state.utxos.well_formed(),
            settings.message_quota() <= u64::MAX,
        ensures
            match r {
                CurrentEpochTrackerOutput::WithTargetEpoch {
                    target_epoch_state,
                    current_epoch_state,
                    current_epoch_tracker,
                } => {
                    &&& sets_target(last_epoch_state, next_epoch_state, settings)
                    &&& is_target(
                        &target_epoch_state,
                        last_epoch_state,
                        current_reward_epoch_state.leader_input,
                        self.epoch_income,
                        settings,
                        core,
                    )
                    &&& current_epoch_state == current_state(next_epoch_state, settings)
                    &&& current_epoch_tracker.epoch_income == 0
                },
                CurrentEpochTrackerOutput::WithoutTargetEpoch {
                    current_epoch_state,
                    current_epoch_tracker,
                } => {
                    &&& !sets_target(last_epoch_state, next_epoch_state, settings)
                    &&& current_epoch_state == current_state(next_epoch_state, settings)
                    &&& current_epoch_tracker.epoch_income == 0
                },
            },
    {
        let current_epoch_state: CurrentEpochState = CurrentEpochState::new(
            next_epoch_state,
            settings,
        );
        let current_epoch_tracker: CurrentEpochTracker = CurrentEpochTracker::new();
        match core_nodes(last_epoch_state, next_epoch_state, settings) {
            Some((order, num_core_nodes)) => {
                let providers = index_providers(&order);
                proof {
                    network::lemma_index_domain(order@, providers@);
                }
                let target_epoch_state: TargetEpochState = TargetEpochState::new(
                    last_epoch_state.epoch,
                    providers,
                    TokenEvaluation {
                        core_quota: core.core_quota,
                        num_core_nodes,
                        activity_threshold_sensitivity: settings.activity_threshold_sensitivity,
                    },
                    ProofInputs {
                        zk_root: core.zk_root,
                        core_quota: core.core_quota,
                        leader: current_reward_epoch_state.leader_input,
                    },
                    self.epoch_income,
                );
                CurrentEpochTrackerOutput::WithTargetEpoch {
                    target_epoch_state,
                    current_epoch_state,
                    current_epoch_tracker,
                }
            },
            None => CurrentEpochTrackerOutput::WithoutTargetEpoch {
                current_epoch_state,
                current_epoch_tracker,
            },
        }
    }
}

} // verus!
