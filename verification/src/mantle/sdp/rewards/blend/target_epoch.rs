//! Activity in the epoch that rewards are calculated for.
use vstd::prelude::*;

use crate::collections::trie_map::TrieMap;
use crate::collections::trie_set::TrieSet;
use crate::mantle::sdp::rewards::blend::current_epoch::LeaderInputs;
use crate::mantle::sdp::rewards::Error;
use crate::types::{Epoch, Fr, ProviderId, Value, ZkPublicKey};

verus! {

/// How far an activity proof is from the randomness of the epoch.
pub type HammingDistance = u64;

/// What proofs of quota are verified against.
#[derive(Clone, Copy, Debug, PartialEq, Eq)]
pub struct ProofInputs {
    /// The root of the tree of the keys of the providers.
    pub zk_root: Fr,
    /// How many messages each provider may blend.
    pub core_quota: u64,
    /// What the proofs of leaders are verified against.
    pub leader: LeaderInputs,
}

/// What the distance of an activity proof is judged by.
#[derive(Clone, Copy, Debug, PartialEq, Eq, Structural)]
pub struct TokenEvaluation {
    /// How many messages each provider may blend.
    pub core_quota: u64,
    /// The number of providers.
    pub num_core_nodes: u64,
    /// How much the threshold of the distance is lowered.
    pub activity_threshold_sensitivity: u64,
}

/// What verification found out about an activity proof.
#[derive(Clone, Copy, Debug, PartialEq, Eq, Structural)]
pub enum ProofOutcome {
    /// The proof is not valid.
    Invalid,
    /// The proof is valid, but its distance is above the threshold.
    TooFar,
    /// The proof is valid, and has this distance.
    Distance(HammingDistance),
}

/// The epoch for which rewards are calculated. It is the one before the current epoch.
pub struct TargetEpochState {
    /// The epoch.
    pub epoch: Epoch,
    /// The providers of the epoch, with their keys and their positions in the network.
    pub providers: TrieMap<(ZkPublicKey, u64)>,
    /// What the distances of the proofs of the epoch are judged by.
    pub token_evaluation: TokenEvaluation,
    /// What the proofs of the epoch are verified against.
    pub proof_inputs: ProofInputs,
    /// What is there to be paid out for the epoch.
    pub epoch_income: Value,
}

/// Why an activity proof is rejected, if it is.
pub open spec fn proof_failure(
    state: &TargetEpochState,
    provider_id: ProviderId,
    proof_epoch: Epoch,
    outcome: ProofOutcome,
) -> Option<Error> {
    if proof_epoch != state.epoch {
        Some(Error::InvalidEpoch { expected: state.epoch, got: proof_epoch })
    } else if !state.providers@.dom().contains(provider_id) {
        Some(Error::UnknownProvider(provider_id))
    } else {
        match outcome {
            ProofOutcome::Invalid => Some(Error::InvalidProof),
            ProofOutcome::TooFar => Some(Error::HammingDistanceTooLarge),
            ProofOutcome::Distance(_) => None,
        }
    }
}

impl TargetEpochState {
    /// Makes the state of an epoch.
    pub fn new(
        epoch: Epoch,
        providers: TrieMap<(ZkPublicKey, u64)>,
        token_evaluation: TokenEvaluation,
        proof_inputs: ProofInputs,
        epoch_income: Value,
    ) -> (r: Self)
        ensures
            r == (TargetEpochState {
                epoch,
                providers,
                token_evaluation,
                proof_inputs,
                epoch_income,
            }),
    {
        TargetEpochState { epoch, providers, token_evaluation, proof_inputs, epoch_income }
    }

    /// The epoch.
    pub fn epoch(&self) -> (r: Epoch)
        ensures
            r == self.epoch,
    {
        self.epoch
    }

    /// What is there to be paid out for the epoch.
    pub fn epoch_income(&self) -> (r: Value)
        ensures
            r == self.epoch_income,
    {
        self.epoch_income
    }

    /// The providers of the epoch, with their keys and their positions in the network.
    pub fn providers(&self) -> (r: &TrieMap<(ZkPublicKey, u64)>)
        ensures
            *r == self.providers,
    {
        &self.providers
    }

    /// The number of providers.
    pub fn num_providers(&self) -> (r: u64)
        ensures
            r == self.providers@.dom().len(),
    {
        self.providers.size() as u64
    }

    /// The position of a provider in the network, and the size of the network, which its
    /// proof of selection is verified against.
    pub fn selection_inputs(&self, provider_id: &ProviderId) -> (r: Option<(u64, u64)>)
        ensures
            r == (if self.providers@.dom().contains(*provider_id) {
                Some((self.providers@[*provider_id].1, self.providers@.dom().len() as u64))
            } else {
                None
            }),
    {
        match self.providers.get(provider_id) {
            Some(provider) => Some((provider.1, self.num_providers())),
            None => None,
        }
    }

    /// Accepts or rejects an activity proof, given what its verification found out. The
    /// verification matters only for a known provider and for the epoch itself.
    pub fn verify_proof(
        &self,
        provider_id: &ProviderId,
        proof_epoch: Epoch,
        outcome: ProofOutcome,
    ) -> (r: Result<(ZkPublicKey, HammingDistance), Error>)
        ensures
            match proof_failure(self, *provider_id, proof_epoch, outcome) {
                Some(error) => r == Err::<(ZkPublicKey, HammingDistance), _>(error),
                None => r == Ok::<_, Error>(
                    (self.providers@[*provider_id].0, outcome->Distance_0),
                ),
            },
    {
        if proof_epoch != self.epoch {
            return Err(Error::InvalidEpoch { expected: self.epoch, got: proof_epoch });
        }
        let zk_id: ZkPublicKey = match self.providers.get(provider_id) {
            Some(provider) => provider.0,
            None => return Err(Error::UnknownProvider(*provider_id)),
        };
        match outcome {
            ProofOutcome::Invalid => Err(Error::InvalidProof),
            ProofOutcome::TooFar => Err(Error::HammingDistanceTooLarge),
            ProofOutcome::Distance(distance) => Ok((zk_id, distance)),
        }
    }
}

impl Clone for TargetEpochState {
    fn clone(&self) -> (r: Self)
        ensures
            r == *self,
    {
        TargetEpochState {
            epoch: self.epoch,
            providers: self.providers.clone(),
            token_evaluation: self.token_evaluation,
            proof_inputs: self.proof_inputs,
            epoch_income: self.epoch_income,
        }
    }
}

/// The least distance among proofs, and the providers that have it.
pub struct MinHammingDistance {
    pub min_distance: HammingDistance,
    pub providers: TrieSet,
}

impl MinHammingDistance {
    /// Makes the minimum of no proofs.
    pub fn new() -> (r: Self)
        ensures
            r.min_distance == u64::MAX,
            r.providers@ == Set::<ProviderId>::empty(),
    {
        MinHammingDistance { min_distance: u64::MAX, providers: TrieSet::new() }
    }

    /// The minimum when the distance of `provider` is taken in.
    pub fn with_update(&self, distance: HammingDistance, provider: ProviderId) -> (r: Self)
        ensures
            r.min_distance == (if distance < self.min_distance {
                distance
            } else {
                self.min_distance
            }),
            r.providers@ == (if distance < self.min_distance {
                Set::<ProviderId>::empty().insert(provider)
            } else if distance == self.min_distance {
                self.providers@.insert(provider)
            } else {
                self.providers@
            }),
    {
        if distance < self.min_distance {
            let mut providers: TrieSet = TrieSet::new();
            providers.insert_mut(provider);
            MinHammingDistance { min_distance: distance, providers }
        } else if distance == self.min_distance {
            let mut providers: TrieSet = self.providers.clone();
            providers.insert_mut(provider);
            MinHammingDistance { min_distance: distance, providers }
        } else {
            self.clone()
        }
    }
}

impl Clone for MinHammingDistance {
    fn clone(&self) -> (r: Self)
        ensures
            r == *self,
    {
        MinHammingDistance { min_distance: self.min_distance, providers: self.providers.clone() }
    }
}

/// The activity proofs that were accepted for the target epoch.
pub struct TargetEpochTracker {
    /// The key and the distance of each provider that has proven its activity.
    pub submitted_proofs: TrieMap<(ZkPublicKey, HammingDistance)>,
    /// The least of the distances.
    pub min_hamming_distance: MinHammingDistance,
}

/// Whether no proof has a distance less than that of `provider`.
pub open spec fn is_closest(
    submitted: Map<ProviderId, (ZkPublicKey, HammingDistance)>,
    provider: ProviderId,
) -> bool {
    &&& submitted.dom().contains(provider)
    &&& forall|other: ProviderId| #[trigger]
        submitted.dom().contains(other) ==> submitted[provider].1 <= submitted[other].1
}

/// The providers whose distance is the least one.
pub open spec fn closest(submitted: Map<ProviderId, (ZkPublicKey, HammingDistance)>) -> Set<
    ProviderId,
> {
    Set::new(|provider: ProviderId| is_closest(submitted, provider))
}

/// What a provider is paid that has proven its activity, but is not among the closest.
pub open spec fn base_reward(
    submitted: Map<ProviderId, (ZkPublicKey, HammingDistance)>,
    income: Value,
) -> int {
    income as int / (submitted.dom().len() + closest(submitted).len()) as int
}

/// What a provider is paid that has proven its activity.
pub open spec fn reward_of(
    submitted: Map<ProviderId, (ZkPublicKey, HammingDistance)>,
    income: Value,
    provider: ProviderId,
) -> int {
    if is_closest(submitted, provider) {
        2 * base_reward(submitted, income)
    } else {
        base_reward(submitted, income)
    }
}

/// Whether `rewards` pays each key of the providers that have proven their activity, and
/// no other. Where providers share a key, it is paid for one of them.
pub open spec fn is_payout(
    submitted: Map<ProviderId, (ZkPublicKey, HammingDistance)>,
    income: Value,
    rewards: Map<ZkPublicKey, Value>,
) -> bool {
    &&& forall|provider: ProviderId| #[trigger]
        submitted.dom().contains(provider) ==> rewards.dom().contains(submitted[provider].0)
    &&& forall|key: ZkPublicKey| #[trigger]
        rewards.dom().contains(key) ==> is_paid_for(submitted, income, rewards, key)
}

/// Whether `key` is the key of some provider, and is paid what that one has earned.
pub open spec fn is_paid_for(
    submitted: Map<ProviderId, (ZkPublicKey, HammingDistance)>,
    income: Value,
    rewards: Map<ZkPublicKey, Value>,
    key: ZkPublicKey,
) -> bool {
    exists|provider: ProviderId| #[trigger]
        submitted.dom().contains(provider) && submitted[provider].0 == key && rewards[key]
            == reward_of(submitted, income, provider)
}

/// The keys of the providers that have proven their activity.
pub open spec fn proven_keys(submitted: Map<ProviderId, (ZkPublicKey, HammingDistance)>) -> Set<
    ZkPublicKey,
> {
    submitted.dom().map(|provider: ProviderId| submitted[provider].0)
}

/// A payout pays the keys of the providers that have proven their activity.
pub proof fn lemma_payout_keys(
    submitted: Map<ProviderId, (ZkPublicKey, HammingDistance)>,
    income: Value,
    rewards: Map<ZkPublicKey, Value>,
)
    requires
        is_payout(submitted, income, rewards),
    ensures
        rewards.dom() == proven_keys(submitted),
{
    assert forall|key: ZkPublicKey| rewards.dom().contains(key) == proven_keys(
        submitted,
    ).contains(key) by {
        if rewards.dom().contains(key) {
            assert(is_paid_for(submitted, income, rewards, key));
        }
    }
    assert(rewards.dom() =~= proven_keys(submitted));
}

impl TargetEpochTracker {
    /// The proofs by provider.
    pub open spec fn submitted(&self) -> Map<ProviderId, (ZkPublicKey, HammingDistance)> {
        self.submitted_proofs@
    }

    /// Whether the minimum is that of the proofs.
    pub open spec fn well_formed(&self) -> bool {
        &&& self.submitted().dom().finite()
        &&& self.min_hamming_distance.providers@ == closest(self.submitted())
        &&& self.submitted().dom().is_empty() ==> self.min_hamming_distance.min_distance
            == u64::MAX
        &&& !self.submitted().dom().is_empty() ==> exists|provider: ProviderId| #[trigger]
            self.min_hamming_distance.providers@.contains(provider)
        &&& forall|provider: ProviderId| #[trigger]
            self.min_hamming_distance.providers@.contains(provider)
                ==> self.submitted()[provider].1 == self.min_hamming_distance.min_distance
    }

    /// Makes a tracker without proofs.
    pub fn new() -> (r: Self)
        ensures
            r.well_formed(),
            r.submitted() == Map::<ProviderId, (ZkPublicKey, HammingDistance)>::empty(),
    {
        let r = TargetEpochTracker {
            submitted_proofs: TrieMap::new(),
            min_hamming_distance: MinHammingDistance::new(),
        };
        assert(closest(r.submitted()) =~= Set::empty());
        r
    }

    /// Takes in the proof of a provider, unless it has one already.
    pub fn insert(
        &self,
        provider_id: ProviderId,
        epoch: Epoch,
        zk_id: ZkPublicKey,
        hamming_distance: HammingDistance,
    ) -> (r: Result<Self, Error>)
        requires
            self.well_formed(),
        ensures
            if self.submitted().dom().contains(provider_id) {
                r == Err::<Self, _>(Error::DuplicateActiveMessage { epoch, provider_id })
            } else {
                r matches Ok(tracker) && tracker.well_formed() && tracker.submitted()
                    == self.submitted().insert(provider_id, (zk_id, hamming_distance))
            },
    {
        if self.submitted_proofs.contains_key(&provider_id) {
            return Err(Error::DuplicateActiveMessage { epoch, provider_id });
        }
        let mut submitted_proofs: TrieMap<(ZkPublicKey, HammingDistance)> =
            self.submitted_proofs.clone();
        submitted_proofs.insert_mut(provider_id, (zk_id, hamming_distance));
        let r = TargetEpochTracker {
            submitted_proofs,
            min_hamming_distance: self.min_hamming_distance.with_update(
                hamming_distance,
                provider_id,
            ),
        };
        proof {
            self.lemma_insert(&r, provider_id, zk_id, hamming_distance);
        }
        Ok(r)
    }

    proof fn lemma_insert(
        &self,
        after: &Self,
        provider_id: ProviderId,
        zk_id: ZkPublicKey,
        distance: HammingDistance,
    )
        requires
            self.well_formed(),
            !self.submitted().dom().contains(provider_id),
            after.submitted() == self.submitted().insert(provider_id, (zk_id, distance)),
            after.min_hamming_distance.min_distance == (if distance
                < self.min_hamming_distance.min_distance {
                distance
            } else {
                self.min_hamming_distance.min_distance
            }),
            after.min_hamming_distance.providers@ == (if distance
                < self.min_hamming_distance.min_distance {
                Set::<ProviderId>::empty().insert(provider_id)
            } else if distance == self.min_hamming_distance.min_distance {
                self.min_hamming_distance.providers@.insert(provider_id)
            } else {
                self.min_hamming_distance.providers@
            }),
        ensures
            after.well_formed(),
    {
        let before = self.submitted();
        let proofs = after.submitted();
        let least = self.min_hamming_distance.min_distance;
        if before.dom().is_empty() {
            assert(closest(before) =~= Set::empty());
            assert(is_closest(proofs, provider_id));
            assert(after.min_hamming_distance.providers@.contains(provider_id));
            assert(closest(proofs) =~= after.min_hamming_distance.providers@);
        } else {
            let first = choose|provider: ProviderId| #[trigger]
                self.min_hamming_distance.providers@.contains(provider);
            assert(is_closest(before, first) && before[first].1 == least);
            assert(proofs.dom().contains(provider_id));
            assert forall|provider: ProviderId| is_closest(proofs, provider)
                == after.min_hamming_distance.providers@.contains(provider) by {
                assert(proofs.dom().contains(first));
                if provider == provider_id {
                    if distance <= least {
                        assert forall|other: ProviderId| #[trigger]
                            proofs.dom().contains(other) implies proofs[provider].1
                            <= proofs[other].1 by {
                            assert(other == provider_id || before.dom().contains(other));
                        }
                    }
                } else if is_closest(proofs, provider) {
                    assert(before.dom().contains(provider));
                    assert forall|other: ProviderId| #[trigger]
                        before.dom().contains(other) implies before[provider].1
                        <= before[other].1 by {
                        assert(proofs.dom().contains(other));
                    }
                    assert(is_closest(before, provider));
                } else if self.min_hamming_distance.providers@.contains(provider) {
                    assert(is_closest(before, provider));
                }
            }
            assert(closest(proofs) =~= after.min_hamming_distance.providers@);
            if distance <= least {
                assert(after.min_hamming_distance.providers@.contains(provider_id));
            } else {
                assert(after.min_hamming_distance.providers@.contains(first));
            }
        }
    }

    /// Ends the epoch: an empty tracker for the next one, and what each key is paid.
    pub fn finalize(&self, target_epoch_state: &TargetEpochState) -> (r: (Self, TrieMap<Value>))
        requires
            self.well_formed(),
        ensures
            r.0.well_formed(),
            r.0.submitted() == Map::<ProviderId, (ZkPublicKey, HammingDistance)>::empty(),
            is_payout(self.submitted(), target_epoch_state.epoch_income, r.1@),
    {
        let mut rewards: TrieMap<Value> = TrieMap::new();
        let ids: Vec<ProviderId> = self.submitted_proofs.keys();
        if ids.len() == 0 {
            assert forall|provider: ProviderId| #[trigger]
                self.submitted().dom().contains(provider) implies false by {
                assert(ids@.to_set().contains(provider));
            }
            return (TargetEpochTracker::new(), rewards);
        }
        let ghost submitted = self.submitted();
        let ghost income = target_epoch_state.epoch_income;
        proof {
            assert(ids@.to_set().contains(ids@[0]));
            self.lemma_some_are_closest();
        }
        let premium: &TrieSet = &self.min_hamming_distance.providers;
        let shares: u128 = self.submitted_proofs.size() as u128 + premium.size() as u128;
        let base: u64 = (target_epoch_state.epoch_income as u128 / shares) as u64;
        proof {
            lemma_share(income as int, shares as int);
        }
        let mut i: usize = 0;
        while i < ids.len()
            invariant
                0 <= i <= ids@.len(),
                self.well_formed(),
                submitted == self.submitted(),
                *premium == self.min_hamming_distance.providers,
                ids@.to_set() == submitted.dom(),
                base == base_reward(submitted, income),
                2 * base <= u64::MAX,
                forall|j: int|
                    0 <= j < i ==> rewards@.dom().contains(submitted[#[trigger] ids@[j]].0),
                forall|key: ZkPublicKey| #[trigger]
                    rewards@.dom().contains(key) ==> is_paid_for(submitted, income, rewards@, key),
            decreases ids@.len() - i,
        {
            let id: ProviderId = ids[i];
            assert(ids@.to_set().contains(ids@[i as int]));
            if let Some(submission) = self.submitted_proofs.get(&id) {
                let reward: Value = if premium.contains(&id) {
                    base * 2
                } else {
                    base
                };
                let ghost before = rewards@;
                rewards.insert_mut(submission.0, reward);
                assert(is_paid_for(submitted, income, rewards@, submission.0));
                assert forall|key: ZkPublicKey| #[trigger]
                    rewards@.dom().contains(key) implies is_paid_for(
                    submitted,
                    income,
                    rewards@,
                    key,
                ) by {
                    if key != submission.0 {
                        assert(before.dom().contains(key));
                    }
                }
            }
            i += 1;
        }
        assert forall|provider: ProviderId| #[trigger]
            submitted.dom().contains(provider) implies rewards@.dom().contains(
            submitted[provider].0,
        ) by {
            assert(ids@.to_set().contains(provider));
            assert(ids@.contains(provider));
        }
        (TargetEpochTracker::new(), rewards)
    }

    /// Where there are proofs, some of them have the least distance, and the shares are
    /// two or more.
    pub proof fn lemma_some_are_closest(&self)
        requires
            self.well_formed(),
            !self.submitted().dom().is_empty(),
        ensures
            self.submitted().dom().len() >= 1,
            1 <= closest(self.submitted()).len() <= self.submitted().dom().len(),
    {
        let first = choose|provider: ProviderId| #[trigger]
            self.min_hamming_distance.providers@.contains(provider);
        let all = self.submitted().dom();
        assert(closest(self.submitted()).subset_of(all));
        vstd::set_lib::lemma_len_subset(closest(self.submitted()), all);
        assert(closest(self.submitted()).contains(first));
        assert(closest(self.submitted()).remove(first).len() + 1 == closest(
            self.submitted(),
        ).len());
    }
}

proof fn lemma_share(income: int, shares: int)
    by (nonlinear_arith)
    requires
        0 <= income,
        shares >= 2,
    ensures
        0 <= 2 * (income / shares) <= income,
        0 <= shares * (income / shares) <= income,
{
}

impl Default for TargetEpochTracker {
    fn default() -> (r: Self)
        ensures
            r.well_formed(),
            r.submitted() == Map::<ProviderId, (ZkPublicKey, HammingDistance)>::empty(),
    {
        Self::new()
    }
}

impl Clone for TargetEpochTracker {
    fn clone(&self) -> (r: Self)
        ensures
            r == *self,
    {
        TargetEpochTracker {
            submitted_proofs: self.submitted_proofs.clone(),
            min_hamming_distance: self.min_hamming_distance.clone(),
        }
    }
}

} // verus!
