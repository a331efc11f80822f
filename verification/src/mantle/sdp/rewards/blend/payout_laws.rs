//! Laws of activity and of what it earns.
use vstd::prelude::*;

use crate::bytes;
use crate::cryptarchia::epoch::EpochState;
use crate::mantle::sdp;
use crate::mantle::sdp::rewards::blend;
use crate::mantle::sdp::rewards::blend::current_epoch;
use crate::mantle::sdp::rewards::blend::current_epoch::{CoreNetwork, LeaderInputs};
use crate::mantle::sdp::rewards::blend::network;
use crate::mantle::sdp::rewards::blend::target_epoch;
use crate::mantle::sdp::rewards::blend::target_epoch::{
    HammingDistance, ProofOutcome, TargetEpochState,
};
use crate::mantle::sdp::rewards::blend::{Rewards, RewardsParameters};
use crate::mantle::sdp::rewards::Error;
use crate::merkle::tree::LeafExtractor;
use crate::types::{Declaration, DeclarationId, Epoch, ProviderId, Utxo, Value, ZkPublicKey};

verus! {

/// The income is divided into one share for each provider that has proven its activity, and one
/// more for each whose distance is the least. A share is rounded down to whole tokens. Here
/// `premium` are those of the least distance.
pub proof fn income_is_paid_in_shares(
    submitted: Map<ProviderId, (ZkPublicKey, HammingDistance)>,
    income: Value,
    premium: Set<ProviderId>,
    provider: ProviderId,
)
    requires
        submitted.dom().finite(),
        submitted.dom().contains(provider),
        premium.finite(),
        forall|p: ProviderId| #[trigger]
            premium.contains(p) <==> submitted.dom().contains(p) && forall|other: ProviderId|
                #[trigger] submitted.dom().contains(other) ==> submitted[p].1
                    <= submitted[other].1,
    ensures
        ({
            let shares = submitted.dom().len() + premium.len();
            let paid = target_epoch::reward_of(submitted, income, provider);
            &&& premium.contains(provider) ==> paid % 2 == 0 && (paid / 2) * shares <= income < (
            paid / 2 + 1) * shares
            &&& !premium.contains(provider) ==> paid * shares <= income < (paid + 1) * shares
        }),
{
    assert(target_epoch::closest(submitted) =~= premium);
    let shares = (submitted.dom().len() + premium.len()) as int;
    assert(submitted.dom().len() > 0) by {
        assert(submitted.dom().remove(provider).len() + 1 == submitted.dom().len());
    }
    let base = income as int / shares;
    let all = income as int;
    assert(base * shares <= all < (base + 1) * shares) by (nonlinear_arith)
        requires
            shares > 0,
            all >= 0,
            base == all / shares,
    ;
}

/// The keys of the providers that have proven their activity are paid, and no others. Each is
/// paid what a provider with that key has earned.
pub proof fn active_providers_are_paid(
    submitted: Map<ProviderId, (ZkPublicKey, HammingDistance)>,
    income: Value,
    rewards: Map<ZkPublicKey, Value>,
    key: ZkPublicKey,
)
    requires
        target_epoch::is_payout(submitted, income, rewards),
    ensures
        rewards.dom().contains(key) <==> exists|provider: ProviderId| #[trigger]
            submitted.dom().contains(provider) && submitted[provider].0 == key,
        rewards.dom().contains(key) ==> exists|provider: ProviderId| #[trigger]
            submitted.dom().contains(provider) && submitted[provider].0 == key && rewards[key]
                == target_epoch::reward_of(submitted, income, provider),
{
    if rewards.dom().contains(key) {
        assert(target_epoch::is_paid_for(submitted, income, rewards, key));
        let provider = choose|provider: ProviderId| #[trigger]
            submitted.dom().contains(provider) && submitted[provider].0 == key && rewards[key]
                == target_epoch::reward_of(submitted, income, provider);
        assert(submitted.dom().contains(provider));
    }
}

/// Activity is accepted if and only if there is an epoch for which it can be proven, the proof is
/// for that epoch, the provider took part in it and has not proven its activity yet, and the
/// proof is valid and close enough.
pub proof fn activity_is_proven_once(
    rewards: &Rewards,
    provider_id: ProviderId,
    proof_epoch: Epoch,
    outcome: ProofOutcome,
)
    ensures
        ({
            let failure = blend::activity_failure(rewards, provider_id, proof_epoch, outcome);
            &&& failure is None <==> {
                &&& rewards.target() matches Some(target)
                &&& proof_epoch == target.epoch
                &&& target.providers@.dom().contains(provider_id)
                &&& outcome is Distance
                &&& !rewards.submitted().dom().contains(provider_id)
            }
            &&& failure == Some(Error::TargetEpochNotSet) <==> rewards.target() is None
            &&& rewards.target() matches Some(target) ==> {
                &&& failure == Some(
                    Error::InvalidEpoch { expected: target.epoch, got: proof_epoch },
                ) <==> proof_epoch != target.epoch
                &&& failure == Some(Error::UnknownProvider(provider_id)) <==> proof_epoch
                    == target.epoch && !target.providers@.dom().contains(provider_id)
                &&& failure == Some(Error::InvalidProof) <==> proof_epoch == target.epoch
                    && target.providers@.dom().contains(provider_id) && outcome is Invalid
                &&& failure == Some(Error::HammingDistanceTooLarge) <==> proof_epoch == target.epoch
                    && target.providers@.dom().contains(provider_id) && outcome is TooFar
                &&& failure == Some(
                    Error::DuplicateActiveMessage { epoch: target.epoch, provider_id },
                ) <==> proof_epoch == target.epoch && target.providers@.dom().contains(provider_id)
                    && outcome is Distance && rewards.submitted().dom().contains(provider_id)
            }
        }),
{
}

/// A leader may send one message for each layer, and again for each time that it is sent more.
pub proof fn leaders_send_a_message_for_each_layer(params: &RewardsParameters)
    ensures
        params.message_quota() == params.num_blend_layers * (1 + params.data_replication_factor),
{
    assert(params.num_blend_layers * (1 + params.data_replication_factor)
        == params.num_blend_layers + params.num_blend_layers * params.data_replication_factor)
        by (nonlinear_arith);
}

/// What is fixed for an epoch comes from its state: its number, its nonce, its aged notes and its
/// lottery.
pub proof fn epochs_fix_what_leaders_prove<U: LeafExtractor<Utxo>>(
    epoch_state: &EpochState<U>,
    settings: &RewardsParameters,
)
    requires
        settings.message_quota() <= u64::MAX,
    ensures
        ({
            let state = current_epoch::current_state(epoch_state, settings);
            &&& state.epoch == epoch_state.epoch
            &&& state.epoch_randomness == epoch_state.nonce
            &&& state.leader_input.pol_ledger_aged == epoch_state.utxos.root_of()
            &&& state.leader_input.pol_epoch_nonce == epoch_state.nonce
            &&& state.leader_input.message_quota == settings.num_blend_layers * (1
                + settings.data_replication_factor)
            &&& state.leader_input.lottery_0 == epoch_state.lottery_0
            &&& state.leader_input.lottery_1 == epoch_state.lottery_1
        }),
{
    leaders_send_a_message_for_each_layer(settings);
    assert(settings.message_quota() >= 0) by (nonlinear_arith)
        requires
            settings.message_quota() == settings.num_blend_layers * (1
                + settings.data_replication_factor),
            settings.num_blend_layers >= 0,
            settings.data_replication_factor >= 0,
    ;
}

/// When an epoch starts, what was collected in the last one is there for the activity in it, if
/// that can be proven, and nothing is collected yet for the new one. Activity in the last epoch
/// can be proven if and only if it was just before, and enough declarations took part. What was
/// there for the epoch before it is paid out.
pub proof fn income_moves_on_with_the_epoch<U: LeafExtractor<Utxo>>(
    before: &Rewards,
    last: &EpochState<U>,
    next: &EpochState<U>,
    params: RewardsParameters,
    core: CoreNetwork,
    after: &Rewards,
    paid: Map<[u8; 32], Value>,
    key: ZkPublicKey,
)
    requires
        sdp::is_epoch_update(before, last, next, params, core, after, paid),
    ensures
        after.income() == 0,
        forall|provider: ProviderId| !#[trigger] after.submitted().dom().contains(provider),
        after.target() is Some <==> {
            &&& next.epoch == last.epoch + 1
            &&& last.active_declarations.blend_network is Some
            &&& last.active_declarations.blend().dom().len() >= params.minimum_network_size
        },
        after.target() matches Some(target) ==> {
            &&& target.epoch == last.epoch
            &&& target.epoch_income == before.income()
            &&& target.proof_inputs.zk_root == core.zk_root
            &&& target.proof_inputs.core_quota == core.core_quota
            &&& target.proof_inputs.leader == before.current().leader_input
            &&& target.token_evaluation.core_quota == core.core_quota
            &&& target.token_evaluation.activity_threshold_sensitivity
                == params.activity_threshold_sensitivity
        },
        after.current().epoch == next.epoch,
        after.current().epoch_randomness == next.nonce,
        paid.dom().contains(key) <==> before.target() is Some && exists|provider: ProviderId|
            #[trigger] before.submitted().dom().contains(provider)
                && before.submitted()[provider].0 == key,
        paid.dom().contains(key) ==> exists|provider: ProviderId| #[trigger]
            before.submitted().dom().contains(provider) && before.submitted()[provider].0 == key
                && paid[key] == target_epoch::reward_of(
                before.submitted(),
                before.target()->0.epoch_income,
                provider,
            ),
{
    if let Some(target) = before.target() {
        active_providers_are_paid(before.submitted(), target.epoch_income, paid, key);
    }
}

/// The providers of declarations are listed once for each, in the order of their keys as numbers.
pub proof fn providers_are_listed_by_key(
    declarations: Map<[u8; 32], Declaration>,
    order: Seq<(ProviderId, ZkPublicKey)>,
    i: int,
    j: int,
)
    requires
        network::is_order(declarations, order),
    ensures
        declarations.dom().finite(),
        order.len() == declarations.dom().len(),
        0 <= i < j < order.len() ==> crate::byte_laws::number_from(order[i].1, 0)
            <= crate::byte_laws::number_from(order[j].1, 0),
{
    let ids = choose|ids: Seq<[u8; 32]>|
        bytes::ascending(ids) && ids.to_set() == declarations.dom() && order.to_multiset()
            == #[trigger] network::declared(declarations, ids).to_multiset();
    bytes::lemma_ascending_no_duplicates(ids);
    ids.unique_seq_to_set();
    order.to_multiset_ensures();
    network::declared(declarations, ids).to_multiset_ensures();
    vstd::seq_lib::seq_to_set_is_finite(ids);
    if 0 <= i < j < order.len() {
        assert(!bytes::less(order[j].1, order[i].1));
        crate::byte_laws::less_is_less_as_a_number(order[j].1, order[i].1);
    }
}

/// The providers of an epoch are those of the declarations that were active in it, each with the
/// key of such a declaration. They stand in the order of their keys as numbers.
pub proof fn providers_stand_in_order_of_their_keys<U: LeafExtractor<Utxo>>(
    target: &TargetEpochState,
    last: &EpochState<U>,
    leader: LeaderInputs,
    income: Value,
    settings: &RewardsParameters,
    core: CoreNetwork,
    a: ProviderId,
    b: ProviderId,
)
    requires
        current_epoch::is_target(target, last, leader, income, settings, core),
    ensures
        target.providers@.dom().contains(a) <==> exists|id: DeclarationId| #[trigger]
            last.active_declarations.blend().dom().contains(id)
                && last.active_declarations.blend()[id].provider_id == a,
        target.providers@.dom().contains(a) ==> exists|id: DeclarationId| #[trigger]
            last.active_declarations.blend().dom().contains(id)
                && last.active_declarations.blend()[id].provider_id == a
                && last.active_declarations.blend()[id].zk_id == target.providers@[a].0,
        target.providers@.dom().contains(a) && target.providers@.dom().contains(b) && bytes::less(
            target.providers@[a].0,
            target.providers@[b].0,
        ) ==> target.providers@[a].1 < target.providers@[b].1,
        target.token_evaluation.num_core_nodes == target.providers@.dom().len() as u64,
{
    let declarations = last.active_declarations.blend();
    let providers = target.providers@;
    let order = choose|order: Seq<(ProviderId, ZkPublicKey)>|
        network::is_order(declarations, order) && #[trigger] network::is_index(order, providers);
    let ids = choose|ids: Seq<[u8; 32]>|
        bytes::ascending(ids) && ids.to_set() == declarations.dom() && order.to_multiset()
            == #[trigger] network::declared(declarations, ids).to_multiset();
    let listed = network::declared(declarations, ids);
    order.to_multiset_ensures();
    listed.to_multiset_ensures();
    if providers.dom().contains(a) {
        let (key, index) = providers[a];
        assert(order[index as int] == (a, key));
        assert(order.contains((a, key)));
        assert(order.to_multiset().count((a, key)) > 0);
        assert(listed.to_multiset().count((a, key)) > 0);
        assert(listed.contains((a, key)));
        let k = choose|k: int| 0 <= k < listed.len() && listed[k] == (a, key);
        assert(ids.to_set().contains(ids[k]));
        assert(declarations.dom().contains(ids[k]));
    }
    if exists|id: DeclarationId| #[trigger]
        declarations.dom().contains(id) && declarations[id].provider_id == a {
        let id = choose|id: DeclarationId| #[trigger]
            declarations.dom().contains(id) && declarations[id].provider_id == a;
        assert(ids.to_set().contains(id));
        let k = choose|k: int| 0 <= k < ids.len() && ids[k] == id;
        assert(listed[k] == (a, declarations[id].zk_id));
        assert(listed.contains(listed[k]));
        assert(listed.to_multiset().count(listed[k]) > 0);
        assert(order.to_multiset().count(listed[k]) > 0);
        assert(order.contains(listed[k]));
        let i = choose|i: int| 0 <= i < order.len() && order[i] == listed[k];
        assert(providers.dom().contains(order[i].0));
    }
    if providers.dom().contains(a) && providers.dom().contains(b) && bytes::less(
        providers[a].0,
        providers[b].0,
    ) {
        let i = providers[a].1 as int;
        let j = providers[b].1 as int;
        assert(order[i] == (a, providers[a].0));
        assert(order[j] == (b, providers[b].0));
        if i == j {
            crate::byte_laws::less_is_less_as_a_number(providers[a].0, providers[b].0);
        } else if j < i {
            assert(!bytes::less(order[i].1, order[j].1));
        }
    }
}

} // verus!
