//! Rewards of the providers of the Blend network.
pub mod current_epoch;
pub mod laws;
pub mod network;
pub mod payout_laws;
pub mod target_epoch;

use vstd::prelude::*;

use crate::collections::trie_map::TrieMap;
use crate::cryptarchia::epoch::EpochState;
use crate::merkle::tree::LeafExtractor;
use crate::mantle::sdp::rewards::blend::current_epoch::{
    CoreNetwork, CurrentEpochState, CurrentEpochTracker, CurrentEpochTrackerOutput, LeaderInputs,
};
use crate::mantle::sdp::rewards::blend::target_epoch::{
    HammingDistance, ProofOutcome, TargetEpochState, TargetEpochTracker,
};
use crate::mantle::sdp::rewards::Error;
use crate::types::{Epoch, ProviderId, Utxo, Value, ZkPublicKey};

verus! {

/// Parameters of the rewards.
#[derive(Clone, Copy, Debug, PartialEq, Eq, Structural)]
pub struct RewardsParameters {
    /// The number of rounds of an epoch.
    pub rounds_per_epoch: u64,
    /// The number of layers of a message.
    pub num_blend_layers: u64,
    /// How many more times a message of a leader is sent.
    pub data_replication_factor: u64,
    /// The least number of declarations with which activity is rewarded.
    pub minimum_network_size: u64,
    /// How much the threshold of the distance of proofs is lowered.
    pub activity_threshold_sensitivity: u64,
}

impl RewardsParameters {
    /// How many messages a leader may send.
    pub open spec fn message_quota(&self) -> int {
        self.num_blend_layers + self.num_blend_layers * self.data_replication_factor
    }

    /// Whether the messages that a leader may send can be counted.
    pub fn has_quota(&self) -> (r: bool)
        ensures
            r == (self.message_quota() <= u64::MAX),
    {
        let layers: u128 = self.num_blend_layers as u128;
        let factor: u128 = self.data_replication_factor as u128;
        proof {
            assert(layers * factor <= u64::MAX * u64::MAX) by (nonlinear_arith)
                requires
                    0 <= layers <= u64::MAX,
                    0 <= factor <= u64::MAX,
            ;
        }
        layers + layers * factor <= u64::MAX as u128
    }

    /// What the proofs of leaders of an epoch are verified against.
    pub fn leader_inputs<U: LeafExtractor<Utxo>>(&self, epoch_state: &EpochState<U>) -> (r:
        LeaderInputs)
        requires
            epoch_state.utxos.well_formed(),
            self.message_quota() <= u64::MAX,
        ensures
            r == current_epoch::current_state(epoch_state, self).leader_input,
    {
        proof {
            assert(self.num_blend_layers * self.data_replication_factor >= 0) by (nonlinear_arith)
                requires
                    self.num_blend_layers >= 0,
                    self.data_replication_factor >= 0,
            ;
        }
        let message_quota: u64 = self.num_blend_layers + (self.num_blend_layers
            * self.data_replication_factor);
        LeaderInputs {
            pol_ledger_aged: epoch_state.utxos.root(),
            pol_epoch_nonce: epoch_state.nonce,
            message_quota,
            lottery_0: epoch_state.lottery_0,
            lottery_1: epoch_state.lottery_1,
        }
    }
}

/// Rewards for activity. Activity in an epoch is proven in the epoch after it, and is paid
/// for at the end of that one.
pub enum Rewards {
    /// No activity can be proven: there was no epoch before, or its network was too small,
    /// or epochs were skipped.
    WithoutTargetEpoch {
        current_epoch_state: CurrentEpochState,
        current_epoch_tracker: CurrentEpochTracker,
    },
    /// Activity in the target epoch can be proven.
    WithTargetEpoch {
        target_epoch_state: TargetEpochState,
        target_epoch_tracker: TargetEpochTracker,
        current_epoch_state: CurrentEpochState,
        current_epoch_tracker: CurrentEpochTracker,
    },
}

/// Why an activity message is rejected, if it is.
pub open spec fn activity_failure(
    rewards: &Rewards,
    provider_id: ProviderId,
    proof_epoch: Epoch,
    outcome: ProofOutcome,
) -> Option<Error> {
    match rewards {
        Rewards::WithoutTargetEpoch { .. } => Some(Error::TargetEpochNotSet),
        Rewards::WithTargetEpoch { target_epoch_state, target_epoch_tracker, .. } => {
            match target_epoch::proof_failure(
                target_epoch_state,
                provider_id,
                proof_epoch,
                outcome,
            ) {
                Some(error) => Some(error),
                None => if target_epoch_tracker.submitted().dom().contains(provider_id) {
                    Some(
                        Error::DuplicateActiveMessage {
                            epoch: target_epoch_state.epoch,
                            provider_id,
                        },
                    )
                } else {
                    None
                },
            }
        },
    }
}

impl Rewards {
    /// The state of the current epoch.
    pub open spec fn current(&self) -> CurrentEpochState {
        match *self {
            Rewards::WithoutTargetEpoch { current_epoch_state, .. } => current_epoch_state,
            Rewards::WithTargetEpoch { current_epoch_state, .. } => current_epoch_state,
        }
    }

    /// What was collected in the current epoch.
    pub open spec fn income(&self) -> Value {
        match *self {
            Rewards::WithoutTargetEpoch { current_epoch_tracker, .. } =>
                current_epoch_tracker.epoch_income,
            Rewards::WithTargetEpoch { current_epoch_tracker, .. } =>
                current_epoch_tracker.epoch_income,
        }
    }

    /// The epoch for which activity can be proven, if there is one.
    pub open spec fn target(&self) -> Option<TargetEpochState> {
        match *self {
            Rewards::WithoutTargetEpoch { .. } => None,
            Rewards::WithTargetEpoch { target_epoch_state, .. } => Some(target_epoch_state),
        }
    }

    /// The accepted proofs by provider.
    pub open spec fn submitted(&self) -> Map<ProviderId, (ZkPublicKey, HammingDistance)> {
        match *self {
            Rewards::WithoutTargetEpoch { .. } => Map::empty(),
            Rewards::WithTargetEpoch { target_epoch_tracker, .. } =>
                target_epoch_tracker.submitted(),
        }
    }

    /// Whether the tracker of proofs is well formed.
    pub open spec fn well_formed(&self) -> bool {
        self matches Rewards::WithTargetEpoch { target_epoch_tracker, .. }
            ==> target_epoch_tracker.well_formed()
    }

    /// Whether the proofs are those of `before`, and so is everything else but the income
    /// of the current epoch.
    pub open spec fn same_target(&self, before: &Self) -> bool {
        &&& self.current() == before.current()
        &&& self.target() == before.target()
    }

    /// Makes rewards that accept no activity until the next epoch.
    pub fn new<U: LeafExtractor<Utxo>>(
        settings: &RewardsParameters,
        epoch_state: &EpochState<U>,
    ) -> (r: Self)
        requires
            epoch_state.utxos.well_formed(),
            settings.message_quota() <= u64::MAX,
        ensures
            r.well_formed(),
            r.target() is None,
            r.current() == current_epoch::current_state(epoch_state, settings),
            r.income() == 0,
            r.submitted() == Map::<ProviderId, (ZkPublicKey, HammingDistance)>::empty(),
    {
        Rewards::WithoutTargetEpoch {
            current_epoch_state: CurrentEpochState::new(epoch_state, settings),
            current_epoch_tracker: CurrentEpochTracker::new(),
        }
    }

    /// Takes in an activity message, given what the verification of its proof found out.
    pub fn update_active(
        &self,
        provider_id: ProviderId,
        proof_epoch: Epoch,
        outcome: ProofOutcome,
    ) -> (r: Result<Self, Error>)
        requires
            self.well_formed(),
        ensures
            match activity_failure(self, provider_id, proof_epoch, outcome) {
                Some(error) => r == Err::<Self, _>(error),
                None => {
                    &&& r matches Ok(rewards)
                    &&& rewards.well_formed()
                    &&& rewards.same_target(self)
                    &&& rewards.income() == self.income()
                    &&& rewards.submitted() == self.submitted().insert(
                        provider_id,
                        (self.target()->0.providers@[provider_id].0, outcome->Distance_0),
                    )
                },
            },
    {
        match self {
            Rewards::WithoutTargetEpoch { .. } => Err(Error::TargetEpochNotSet),
            Rewards::WithTargetEpoch {
                target_epoch_state,
                target_epoch_tracker,
                current_epoch_state,
                current_epoch_tracker,
            } => {
                let (zk_id, hamming_distance): (ZkPublicKey, HammingDistance) =
                    match target_epoch_state.verify_proof(&provider_id, proof_epoch, outcome) {
                    Ok(proven) => proven,
                    Err(error) => return Err(error),
                };
                let target_epoch_tracker: TargetEpochTracker = match target_epoch_tracker.insert(
                    provider_id,
                    target_epoch_state.epoch(),
                    zk_id,
                    hamming_distance,
                ) {
                    Ok(tracker) => tracker,
                    Err(error) => return Err(error),
                };
                Ok(
                    Rewards::WithTargetEpoch {
                        target_epoch_state: target_epoch_state.clone(),
                        target_epoch_tracker,
                        current_epoch_state: *current_epoch_state,
                        current_epoch_tracker: *current_epoch_tracker,
                    },
                )
            },
        }
    }

    /// Moves on to the next epoch, and pays for the activity that was proven in the last
    /// one. Of the network of the last epoch, `core` holds what is computed outside.
    pub fn update_epoch<U: LeafExtractor<Utxo>>(
        &self,
        last_epoch_state: &EpochState<U>,
        next_epoch_state: &EpochState<U>,
        params: &RewardsParameters,
        core: CoreNetwork,
    ) -> (r: (Self, TrieMap<Value>))
        requires
            self.well_formed(),
            last_epoch_state.epoch == self.current().epoch,
            last_epoch_state.epoch < next_epoch_state.epoch,
            next_epoch_state.utxos.well_formed(),
            params.message_quota() <= u64::MAX,
        ensures
            r.0.well_formed(),
            r.0.current() == current_epoch::current_state(next_epoch_state, params),
            r.0.income() == 0,
            r.0.submitted() == Map::<ProviderId, (ZkPublicKey, HammingDistance)>::empty(),
            r.0.target() is Some <==> current_epoch::sets_target(
                last_epoch_state,
                next_epoch_state,
                params,
            ),
            r.0.target() matches Some(target) ==> current_epoch::is_target(
                &target,
                last_epoch_state,
                self.current().leader_input,
                self.income(),
                params,
                core,
            ),
            match self.target() {
                Some(target) => target_epoch::is_payout(
                    self.submitted(),
                    target.epoch_income,
                    r.1@,
                ),
                None => r.1@ == Map::<ZkPublicKey, Value>::empty(),
            },
    {
        match self {
            Rewards::WithoutTargetEpoch { current_epoch_state, current_epoch_tracker } => {
                let output: CurrentEpochTrackerOutput = current_epoch_tracker.finalize(
                    current_epoch_state,
                    last_epoch_state,
                    next_epoch_state,
                    params,
                    core,
                );
                (
                    Rewards::from_current_epoch_tracker_output(output, TargetEpochTracker::new()),
                    TrieMap::new(),
                )
            },
            Rewards::WithTargetEpoch {
                target_epoch_state,
                target_epoch_tracker,
                current_epoch_state,
                current_epoch_tracker,
            } => {
                let (tracker, rewards): (TargetEpochTracker, TrieMap<Value>) =
                    target_epoch_tracker.finalize(target_epoch_state);
                let output: CurrentEpochTrackerOutput = current_epoch_tracker.finalize(
                    current_epoch_state,
                    last_epoch_state,
                    next_epoch_state,
                    params,
                    core,
                );
                (Rewards::from_current_epoch_tracker_output(output, tracker), rewards)
            },
        }
    }

    /// What was earned in the current epoch.
    pub fn epoch_income(&self) -> (r: Value)
        ensures
            r == self.income(),
    {
        match self {
            Rewards::WithoutTargetEpoch { current_epoch_tracker, .. } =>
                current_epoch_tracker.epoch_income,
            Rewards::WithTargetEpoch { current_epoch_tracker, .. } =>
                current_epoch_tracker.epoch_income,
        }
    }

    /// The rewards with the income of a block.
    pub fn add_income(&self, income: Value) -> (r: Self)
        requires
            self.well_formed(),
            self.income() + income <= u64::MAX,
        ensures
            r.well_formed(),
            r.same_target(self),
            r.submitted() == self.submitted(),
            r.income() == self.income() + income,
    {
        match self {
            Rewards::WithoutTargetEpoch { current_epoch_state, current_epoch_tracker } =>
                Rewards::WithoutTargetEpoch {
                current_epoch_state: *current_epoch_state,
                current_epoch_tracker: current_epoch_tracker.add_block_rewards(income),
            },
            Rewards::WithTargetEpoch {
                target_epoch_state,
                target_epoch_tracker,
                current_epoch_state,
                current_epoch_tracker,
            } => Rewards::WithTargetEpoch {
                target_epoch_state: target_epoch_state.clone(),
                target_epoch_tracker: target_epoch_tracker.clone(),
                current_epoch_state: *current_epoch_state,
                current_epoch_tracker: current_epoch_tracker.add_block_rewards(income),
            },
        }
    }

    fn from_current_epoch_tracker_output(
        current_epoch_output: CurrentEpochTrackerOutput,
        target_epoch_tracker: TargetEpochTracker,
    ) -> (r: Self)
        ensures
            r == (match current_epoch_output {
                CurrentEpochTrackerOutput::WithTargetEpoch {
                    target_epoch_state,
                    current_epoch_state,
                    current_epoch_tracker,
                } => Rewards::WithTargetEpoch {
                    target_epoch_state,
                    target_epoch_tracker,
                    current_epoch_state,
                    current_epoch_tracker,
                },
                CurrentEpochTrackerOutput::WithoutTargetEpoch {
                    current_epoch_state,
                    current_epoch_tracker,
                } => Rewards::WithoutTargetEpoch { current_epoch_state, current_epoch_tracker },
            }),
    {
        match current_epoch_output {
            CurrentEpochTrackerOutput::WithTargetEpoch {
                target_epoch_state,
                current_epoch_state,
                current_epoch_tracker,
            } => Rewards::WithTargetEpoch {
                target_epoch_state,
                target_epoch_tracker,
                current_epoch_state,
                current_epoch_tracker,
            },
            CurrentEpochTrackerOutput::WithoutTargetEpoch {
                current_epoch_state,
                current_epoch_tracker,
            } => Rewards::WithoutTargetEpoch { current_epoch_state, current_epoch_tracker },
        }
    }
}

impl Clone for Rewards {
    fn clone(&self) -> (r: Self)
        ensures
            r == *self,
    {
        match self {
            Rewards::WithoutTargetEpoch { current_epoch_state, current_epoch_tracker } =>
                Rewards::WithoutTargetEpoch {
                current_epoch_state: *current_epoch_state,
                current_epoch_tracker: *current_epoch_tracker,
            },
            Rewards::WithTargetEpoch {
                target_epoch_state,
                target_epoch_tracker,
                current_epoch_state,
                current_epoch_tracker,
            } => Rewards::WithTargetEpoch {
                target_epoch_state: target_epoch_state.clone(),
                target_epoch_tracker: target_epoch_tracker.clone(),
                current_epoch_state: *current_epoch_state,
                current_epoch_tracker: *current_epoch_tracker,
            },
        }
    }
}

} // verus!
