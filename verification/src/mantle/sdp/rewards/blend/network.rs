//! The providers of a network, in the order of their keys.
use vstd::prelude::*;

use crate::bytes;
use crate::bytes::is_less;
use crate::collections::tree_map::TreeMap;
use crate::collections::trie_map::TrieMap;
use crate::types::{Declaration, ProviderId, ZkPublicKey};

verus! {

/// The provider and the key of each of the declarations under `ids`.
pub open spec fn declared(declarations: Map<[u8; 32], Declaration>, ids: Seq<[u8; 32]>) -> Seq<
    (ProviderId, ZkPublicKey),
> {
    ids.map_values(
        |id: [u8; 32]| (declarations[id].provider_id, declarations[id].zk_id),
    )
}

/// Whether the keys of `pairs` are in ascending order as numbers.
pub open spec fn sorted_by_key(pairs: Seq<(ProviderId, ZkPublicKey)>) -> bool {
    forall|i: int, j: int|
        0 <= i < j < pairs.len() ==> !bytes::less(
            (#[trigger] pairs[j]).1,
            (#[trigger] pairs[i]).1,
        )
}

/// Whether `order` lists the providers of all `declarations`, in the order of their keys.
pub open spec fn is_order(
    declarations: Map<[u8; 32], Declaration>,
    order: Seq<(ProviderId, ZkPublicKey)>,
) -> bool {
    &&& sorted_by_key(order)
    &&& exists|ids: Seq<[u8; 32]>|
        bytes::ascending(ids) && ids.to_set() == declarations.dom() && order.to_multiset()
            == #[trigger] declared(declarations, ids).to_multiset()
}

/// Whether `providers` maps each provider of `order` to its key and its position, the last
/// one of those that it has.
pub open spec fn is_index(
    order: Seq<(ProviderId, ZkPublicKey)>,
    providers: Map<ProviderId, (ZkPublicKey, u64)>,
) -> bool {
    &&& forall|i: int|
        0 <= i < order.len() ==> providers.dom().contains((#[trigger] order[i]).0)
            && providers[order[i].0].1 >= i
    &&& forall|provider: ProviderId| #[trigger]
        providers.dom().contains(provider) ==> {
            let (key, index) = providers[provider];
            &&& index < order.len()
            &&& order[index as int] == (provider, key)
        }
}

/// The distinct providers of `order`.
pub open spec fn providers_of(order: Seq<(ProviderId, ZkPublicKey)>) -> Set<ProviderId> {
    order.map_values(|pair: (ProviderId, ZkPublicKey)| pair.0).to_set()
}

/// An index has one entry for each distinct provider.
pub proof fn lemma_index_domain(
    order: Seq<(ProviderId, ZkPublicKey)>,
    providers: Map<ProviderId, (ZkPublicKey, u64)>,
)
    requires
        is_index(order, providers),
    ensures
        providers.dom() == providers_of(order),
{
    let ids = order.map_values(|pair: (ProviderId, ZkPublicKey)| pair.0);
    assert forall|provider: ProviderId| providers.dom().contains(provider)
        == providers_of(order).contains(provider) by {
        if providers.dom().contains(provider) {
            let index = providers[provider].1 as int;
            assert(ids[index] == provider);
        } else if ids.contains(provider) {
            let i = choose|i: int| 0 <= i < ids.len() && ids[i] == provider;
            assert(order[i].0 == provider);
        }
    }
    assert(providers.dom() =~= providers_of(order));
}

/// Lists the providers of `declarations` in the order of their keys.
pub fn sorted_providers(declarations: &TreeMap<Declaration>) -> (r: Vec<(ProviderId, ZkPublicKey)>)
    ensures
        is_order(declarations@, r@),
{
    let ids: Vec<[u8; 32]> = declarations.keys();
    let mut order: Vec<(ProviderId, ZkPublicKey)> = Vec::new();
    let mut i: usize = 0;
    proof {
        assert(declared(declarations@, ids@.take(0)) =~= order@);
    }
    while i < ids.len()
        invariant
            0 <= i <= ids@.len(),
            ids@.to_set() == declarations@.dom(),
            sorted_by_key(order@),
            order@.to_multiset() == declared(declarations@, ids@.take(i as int)).to_multiset(),
        decreases ids@.len() - i,
    {
        let id: [u8; 32] = ids[i];
        assert(ids@.to_set().contains(ids@[i as int]));
        if let Some(declaration) = declarations.get(&id) {
            let pair: (ProviderId, ZkPublicKey) = (declaration.provider_id, declaration.zk_id);
            let ghost before = order@;
            let position: usize = position_for(&order, &pair.1);
            order.insert(position, pair);
            proof {
                lemma_insert_sorted(before, pair, position as int);
                before.to_multiset_ensures();
                lemma_insert_multiset(before, pair, position as int);
                let taken = ids@.take(i as int);
                assert(ids@.take(i + 1) =~= taken.push(id));
                assert(declared(declarations@, ids@.take(i + 1)) =~= declared(
                    declarations@,
                    taken,
                ).push(pair));
                declared(declarations@, taken).to_multiset_ensures();
            }
        }
        i += 1;
    }
    assert(ids@.take(i as int) =~= ids@);
    order
}

/// The position that keeps `order` sorted when `key` comes in.
fn position_for(order: &Vec<(ProviderId, ZkPublicKey)>, key: &ZkPublicKey) -> (r: usize)
    requires
        sorted_by_key(order@),
    ensures
        r <= order@.len(),
        forall|i: int| 0 <= i < r ==> !bytes::less(*key, (#[trigger] order@[i]).1),
        forall|i: int| r <= i < order@.len() ==> !bytes::less((#[trigger] order@[i]).1, *key),
{
    let mut r: usize = order.len();
    while r > 0 && is_less(key, &order[r - 1].1)
        invariant
            r <= order@.len(),
            sorted_by_key(order@),
            forall|i: int| r <= i < order@.len() ==> bytes::less(*key, (#[trigger] order@[i]).1),
        decreases r,
    {
        r -= 1;
    }
    proof {
        assert forall|i: int| 0 <= i < r implies !bytes::less(
            *key,
            (#[trigger] order@[i]).1,
        ) by {
            if i < r - 1 {
                bytes::lemma_less_transitive(order@[i].1, order@[r - 1].1, *key);
            }
        }
        assert forall|i: int| r <= i < order@.len() implies !bytes::less(
            (#[trigger] order@[i]).1,
            *key,
        ) by {
            bytes::lemma_less_asymmetric(*key, order@[i].1);
        }
    }
    r
}

proof fn lemma_insert_sorted(
    order: Seq<(ProviderId, ZkPublicKey)>,
    pair: (ProviderId, ZkPublicKey),
    position: int,
)
    requires
        sorted_by_key(order),
        0 <= position <= order.len(),
        forall|i: int| 0 <= i < position ==> !bytes::less(pair.1, (#[trigger] order[i]).1),
        forall|i: int|
            position <= i < order.len() ==> !bytes::less((#[trigger] order[i]).1, pair.1),
    ensures
        sorted_by_key(order.insert(position, pair)),
{
    let after = order.insert(position, pair);
    assert forall|i: int, j: int| 0 <= i < j < after.len() implies !bytes::less(
        (#[trigger] after[j]).1,
        (#[trigger] after[i]).1,
    ) by {
        let x = if i < position {
            i
        } else {
            i - 1
        };
        let y = if j < position {
            j
        } else {
            j - 1
        };
        if i == position {
            assert(after[j] == order[y]);
        } else if j == position {
            assert(after[i] == order[x]);
        } else {
            assert(after[i] == order[x] && after[j] == order[y]);
        }
    }
}

proof fn lemma_insert_multiset(
    order: Seq<(ProviderId, ZkPublicKey)>,
    pair: (ProviderId, ZkPublicKey),
    position: int,
)
    requires
        0 <= position <= order.len(),
    ensures
        order.insert(position, pair).to_multiset() == order.to_multiset().insert(pair),
{
    order.to_multiset_ensures();
    let front = order.take(position);
    let back = order.skip(position);
    assert(order =~= front + back);
    assert(order.insert(position, pair) =~= front.push(pair) + back);
    vstd::seq_lib::lemma_multiset_commutative(front, back);
    vstd::seq_lib::lemma_multiset_commutative(front.push(pair), back);
    front.to_multiset_ensures();
    assert(front.to_multiset().insert(pair).add(back.to_multiset()) =~= front.to_multiset().add(
        back.to_multiset(),
    ).insert(pair));
}

/// Maps each provider of `order` to its key and its position.
pub fn index_providers(order: &Vec<(ProviderId, ZkPublicKey)>) -> (r: TrieMap<(ZkPublicKey, u64)>)
    ensures
        is_index(order@, r@),
{
    let mut providers: TrieMap<(ZkPublicKey, u64)> = TrieMap::new();
    let mut i: usize = 0;
    while i < order.len()
        invariant
            0 <= i <= order@.len(),
            forall|j: int|
                0 <= j < i ==> providers@.dom().contains((#[trigger] order@[j]).0)
                    && providers@[order@[j].0].1 >= j,
            forall|provider: ProviderId| #[trigger]
                providers@.dom().contains(provider) ==> {
                    let (key, index) = providers@[provider];
                    &&& index < i
                    &&& order@[index as int] == (provider, key)
                },
        decreases order@.len() - i,
    {
        let (provider, key): (ProviderId, ZkPublicKey) = order[i];
        providers.insert_mut(provider, (key, i as u64));
        i += 1;
    }
    providers
}

} // verus!
