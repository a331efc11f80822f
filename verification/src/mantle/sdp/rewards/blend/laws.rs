//! Laws of the rewards.
use vstd::prelude::*;

use crate::mantle::sdp::rewards::blend::target_epoch;
use crate::mantle::sdp::rewards::blend::target_epoch::{HammingDistance, TargetEpochTracker};
use crate::types::{ProviderId, Value, ZkPublicKey};

verus! {

/// The sum of all rewards.
pub open spec fn total(rewards: Map<ZkPublicKey, Value>) -> int
    decreases rewards.dom().len(),
    when rewards.dom().finite()
{
    if rewards.dom().len() == 0 {
        0
    } else {
        let key = rewards.dom().choose();
        rewards[key] + total(rewards.remove(key))
    }
}

/// A provider whose proof has the least distance is paid twice what the others are paid.
pub proof fn closest_are_paid_double(
    tracker: &TargetEpochTracker,
    income: Value,
    premium: ProviderId,
    other: ProviderId,
)
    requires
        tracker.well_formed(),
        tracker.submitted().dom().contains(other),
        target_epoch::is_closest(tracker.submitted(), premium),
        !target_epoch::is_closest(tracker.submitted(), other),
    ensures
        target_epoch::reward_of(tracker.submitted(), income, premium) == 2
            * target_epoch::reward_of(tracker.submitted(), income, other),
{
}

/// The only provider that has proven its activity is paid the whole income, but for the
/// odd token.
pub proof fn single_provider_is_paid_the_income(
    submitted: Map<ProviderId, (ZkPublicKey, HammingDistance)>,
    income: Value,
    provider: ProviderId,
)
    requires
        submitted.dom() == Set::<ProviderId>::empty().insert(provider),
    ensures
        target_epoch::reward_of(submitted, income, provider) == income - income % 2,
{
    assert(target_epoch::is_closest(submitted, provider));
    assert(target_epoch::closest(submitted) =~= submitted.dom());
}

/// No more than the income of the epoch is paid out.
pub proof fn payout_does_not_exceed_the_income(
    tracker: &TargetEpochTracker,
    income: Value,
    rewards: Map<ZkPublicKey, Value>,
)
    requires
        tracker.well_formed(),
        rewards.dom().finite(),
        target_epoch::is_payout(tracker.submitted(), income, rewards),
    ensures
        total(rewards) <= income,
{
    let submitted = tracker.submitted();
    let base = target_epoch::base_reward(submitted, income);
    let premium = target_epoch::closest(submitted);
    if submitted.dom().is_empty() {
        assert forall|key: ZkPublicKey| !rewards.dom().contains(key) by {
            if rewards.dom().contains(key) {
                assert(target_epoch::is_paid_for(submitted, income, rewards, key));
            }
        }
        assert(rewards.dom() =~= Set::empty());
    } else {
        tracker.lemma_some_are_closest();
        let shares = (submitted.dom().len() + premium.len()) as int;
        assert(0 <= base && base * shares <= income) by (nonlinear_arith)
            requires
                base == income as int / shares,
                shares >= 2,
                income >= 0,
        ;
        assert(premium.subset_of(submitted.dom()));
        assert forall|key: ZkPublicKey| #[trigger] rewards.dom().contains(key) implies is_earned(
            submitted,
            premium,
            base,
            rewards,
            key,
        ) by {
            assert(target_epoch::is_paid_for(submitted, income, rewards, key));
            let provider = choose|provider: ProviderId| #[trigger]
                submitted.dom().contains(provider) && submitted[provider].0 == key && rewards[key]
                    == target_epoch::reward_of(submitted, income, provider);
            assert(premium.contains(provider) == target_epoch::is_closest(submitted, provider));
        }
        lemma_total(submitted, premium, base, rewards);
    }
}

/// Of the sum of all rewards, any one of them can be counted first.
pub proof fn lemma_total_remove(rewards: Map<ZkPublicKey, Value>, key: ZkPublicKey)
    requires
        rewards.dom().finite(),
        rewards.dom().contains(key),
    ensures
        total(rewards) == rewards[key] + total(rewards.remove(key)),
    decreases rewards.dom().len(),
{
    let first = rewards.dom().choose();
    assert(rewards.dom().len() > 0) by {
        assert(rewards.dom().remove(key).len() + 1 == rewards.dom().len());
    }
    if first != key {
        lemma_total_remove(rewards.remove(first), key);
        lemma_total_remove(rewards.remove(key), first);
        assert(rewards.remove(first).remove(key) =~= rewards.remove(key).remove(first));
    }
}

/// Whether `key` is the key of some provider, and is paid twice `base` if that one is in
/// `premium`, and `base` otherwise.
spec fn is_earned(
    submitted: Map<ProviderId, (ZkPublicKey, HammingDistance)>,
    premium: Set<ProviderId>,
    base: int,
    rewards: Map<ZkPublicKey, Value>,
    key: ZkPublicKey,
) -> bool {
    exists|provider: ProviderId| #[trigger]
        submitted.dom().contains(provider) && submitted[provider].0 == key && rewards[key] == (
        if premium.contains(provider) {
            2 * base
        } else {
            base
        })
}

proof fn lemma_total(
    submitted: Map<ProviderId, (ZkPublicKey, HammingDistance)>,
    premium: Set<ProviderId>,
    base: int,
    rewards: Map<ZkPublicKey, Value>,
)
    requires
        submitted.dom().finite(),
        premium.subset_of(submitted.dom()),
        rewards.dom().finite(),
        base >= 0,
        forall|key: ZkPublicKey| #[trigger]
            rewards.dom().contains(key) ==> is_earned(submitted, premium, base, rewards, key),
    ensures
        total(rewards) <= base * (submitted.dom().len() + premium.len()),
    decreases rewards.dom().len(),
{
    vstd::set_lib::lemma_len_subset(premium, submitted.dom());
    if rewards.dom().len() == 0 {
        assert(base * (submitted.dom().len() + premium.len()) >= 0) by (nonlinear_arith)
            requires
                base >= 0,
        ;
    } else {
        let key = rewards.dom().choose();
        assert(rewards.dom().contains(key));
        let provider = choose|provider: ProviderId| #[trigger]
            submitted.dom().contains(provider) && submitted[provider].0 == key && rewards[key] == (
            if premium.contains(provider) {
                2 * base
            } else {
                base
            });
        let others = submitted.remove(provider);
        let rest = rewards.remove(key);
        assert forall|k: ZkPublicKey| #[trigger] rest.dom().contains(k) implies is_earned(
            others,
            premium.remove(provider),
            base,
            rest,
            k,
        ) by {
            assert(rewards.dom().contains(k));
            let witness = choose|w: ProviderId| #[trigger]
                submitted.dom().contains(w) && submitted[w].0 == k && rewards[k] == (
                if premium.contains(w) {
                    2 * base
                } else {
                    base
                });
            assert(others.dom().contains(witness));
        }
        lemma_total(others, premium.remove(provider), base, rest);
        let n = submitted.dom().len() as int;
        let p = premium.len() as int;
        let q = premium.remove(provider).len() as int;
        assert(others.dom().len() == n - 1);
        assert(base * (n - 1 + q) + base == base * (n + q)) by (nonlinear_arith);
        assert(base * (n + q) + base == base * (n + (q + 1))) by (nonlinear_arith);
    }
}

} // verus!
