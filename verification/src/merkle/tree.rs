//! A keyed store that commits to its items with a Merkle tree.
use std::collections::BTreeMap;
use vstd::prelude::*;

use crate::collections::trie_map::TrieMap;
use crate::merkle::dynamic;
use crate::merkle::dynamic::{DynamicMerkleTree, MerklePath};
use crate::merkle::hasher::{MerkleHasher, NodeHash};

verus! {

broadcast use {vstd::std_specs::btree::group_btree_axioms, vstd::laws_cmp::group_laws_cmp};

/// Derives the leaf that a store commits to for an item from its key and value, and
/// ties the store to a hasher.
pub trait LeafExtractor<Item> {
    /// The hasher of the underlying tree.
    type Hasher: MerkleHasher;

    /// The leaf that is stored for `item` under `key`.
    spec fn leaf_of(key: [u8; 32], item: Item) -> NodeHash;

    /// Computes the leaf that is stored for `item` under `key`.
    fn leaf(key: &[u8; 32], item: &Item) -> (r: NodeHash)
        ensures
            r == Self::leaf_of(*key, *item),
    ;
}

/// Failure of an operation on a store.
#[derive(Clone, Copy, Debug, PartialEq, Eq, Structural)]
pub enum Error {
    /// There is no item under the key.
    NotFound,
}

/// A store of items under keys, which keeps a Merkle tree that commits to them.
///
/// How an item is committed to is up to a [`LeafExtractor`].
///
/// An item that is removed leaves an empty slot, so that no other item changes its
/// position, and the first empty slot is used by the next insertion. An item that is
/// updated keeps its position.
#[verifier::reject_recursive_types(Item)]
#[verifier::reject_recursive_types(Leaf)]
pub struct MerkleTree<Item, Leaf: LeafExtractor<Item>> {
    merkle: DynamicMerkleTree<Leaf::Hasher>,
    items: TrieMap<(Item, usize)>,
}

/// The items of a store and their positions.
pub struct CompressedMerkleTree<Item> {
    pub items: BTreeMap<usize, ([u8; 32], Item)>,
}

impl<Item, Leaf: LeafExtractor<Item>> MerkleTree<Item, Leaf> {
    /// The item and the position under each key.
    pub closed spec fn entries(&self) -> Map<[u8; 32], (Item, usize)> {
        self.items@
    }

    /// What each slot of the tree holds.
    pub closed spec fn slots(&self) -> Seq<Option<NodeHash>> {
        self.merkle.slots()
    }

    /// The number of slots that are filled.
    pub open spec fn filled(&self) -> nat {
        dynamic::occupied(self.slots())
    }

    /// The number of slots.
    pub open spec fn capacity() -> nat {
        DynamicMerkleTree::<Leaf::Hasher>::capacity()
    }

    /// The root of the tree.
    pub open spec fn root_of(&self) -> NodeHash {
        crate::merkle::hasher::tree_root::<Leaf::Hasher>(
            dynamic::slot_leaves(self.slots()),
            dynamic::TREE_HEIGHT as nat,
        )
    }

    /// Whether every item has a slot of its own, which holds its leaf.
    pub closed spec fn well_formed(&self) -> bool {
        &&& self.merkle.well_formed()
        &&& forall|key: [u8; 32]| #[trigger]
            self.entries().dom().contains(key) ==> {
                let (item, position) = self.entries()[key];
                &&& position < Self::capacity()
                &&& self.slots()[position as int] == Some(Leaf::leaf_of(key, item))
            }
        &&& forall|a: [u8; 32], b: [u8; 32]|
            #![trigger self.entries()[a], self.entries()[b]]
            self.entries().dom().contains(a) && self.entries().dom().contains(b)
                && self.entries()[a].1 == self.entries()[b].1 ==> a == b
    }

    /// Whether every slot that is filled holds the leaf of an item, as it is when no
    /// item was inserted under a key that had one.
    pub open spec fn exact(&self) -> bool {
        &&& self.entries().dom().finite()
        &&& self.filled() == self.entries().dom().len()
        &&& forall|position: int|
            0 <= position < self.slots().len() && (#[trigger] self.slots()[position]) is Some
                ==> exists|key: [u8; 32]| #[trigger]
                self.entries().dom().contains(key) && self.entries()[key].1 == position
    }

    /// What a well-formed store tells about an item.
    pub proof fn lemma_entry(&self, key: [u8; 32])
        requires
            self.well_formed(),
            self.entries().dom().contains(key),
        ensures
            self.entries()[key].1 < Self::capacity(),
            self.slots()[self.entries()[key].1 as int] == Some(
                Leaf::leaf_of(key, self.entries()[key].0),
            ),
    {
    }

    /// Two items do not share a position.
    pub proof fn lemma_positions(&self, a: [u8; 32], b: [u8; 32])
        requires
            self.well_formed(),
            self.entries().dom().contains(a),
            self.entries().dom().contains(b),
            self.entries()[a].1 == self.entries()[b].1,
        ensures
            a == b,
    {
    }

    /// The number of slots, and of filled ones at most.
    pub proof fn lemma_capacity(&self)
        requires
            self.well_formed(),
        ensures
            self.slots().len() == Self::capacity(),
            self.filled() <= Self::capacity(),
            Self::capacity() == 0x1_0000_0000,
    {
        self.merkle.lemma_capacity();
    }

    /// Makes a store without items.
    pub fn new() -> (r: Self)
        ensures
            r.well_formed(),
            r.exact(),
            r.entries() == Map::<[u8; 32], (Item, usize)>::empty(),
            r.slots() == Seq::new(Self::capacity(), |i: int| None::<NodeHash>),
    {
        MerkleTree { merkle: DynamicMerkleTree::new(), items: TrieMap::new() }
    }

    /// The number of slots that are filled.
    pub fn size(&self) -> (r: usize)
        requires
            self.well_formed(),
            self.filled() <= usize::MAX,
        ensures
            r == self.filled(),
    {
        self.merkle.size()
    }

    /// Computes the root of the tree.
    pub fn root(&self) -> (r: NodeHash)
        requires
            self.well_formed(),
        ensures
            r == self.root_of(),
    {
        self.merkle.root()
    }

    /// Whether there is an item under `key`.
    pub fn contains(&self, key: &[u8; 32]) -> (r: bool)
        ensures
            r == self.entries().dom().contains(*key),
    {
        self.items.contains_key(key)
    }

    /// Borrows the item under `key`.
    pub fn get_ref(&self, key: &[u8; 32]) -> (r: Option<&Item>)
        ensures
            r == (if self.entries().dom().contains(*key) {
                Some(&self.entries()[*key].0)
            } else {
                None
            }),
    {
        match self.items.get(key) {
            Some(entry) => Some(&entry.0),
            None => None,
        }
    }

    /// The item and the position under each key.
    pub fn items(&self) -> (r: &TrieMap<(Item, usize)>)
        ensures
            r@ == self.entries(),
    {
        &self.items
    }

    /// The keys and the items, in no particular order.
    pub fn iter(&self) -> (r: Vec<([u8; 32], &Item)>)
        ensures
            forall|i: int|
                0 <= i < r@.len() ==> self.entries().dom().contains((#[trigger] r@[i]).0)
                    && *r@[i].1 == self.entries()[r@[i].0].0,
            forall|i: int, j: int| 0 <= i < j < r@.len() ==> (#[trigger] r@[i]).0 != (#[trigger] r@[j]).0,
            forall|key: [u8; 32]| #[trigger]
                self.entries().dom().contains(key) ==> exists|i: int|
                    0 <= i < r@.len() && (#[trigger] r@[i]).0 == key,
    {
        let keys: Vec<[u8; 32]> = self.items.keys();
        let mut pairs: Vec<([u8; 32], &Item)> = Vec::new();
        let mut i: usize = 0;
        while i < keys.len()
            invariant
                0 <= i <= keys@.len(),
                keys@.to_set() == self.items@.dom(),
                pairs@.len() == i,
                forall|j: int|
                    0 <= j < i ==> self.items@.dom().contains((#[trigger] pairs@[j]).0)
                        && pairs@[j].0 == keys@[j] && *pairs@[j].1 == self.items@[keys@[j]].0,
            decreases keys@.len() - i,
        {
            let key: [u8; 32] = keys[i];
            assert(keys@.to_set().contains(keys@[i as int]));
            if let Some(entry) = self.items.get(&key) {
                pairs.push((key, &entry.0));
            }
            i += 1;
        }
        proof {
            assert forall|key: [u8; 32]| #[trigger]
                self.entries().dom().contains(key) implies exists|i: int|
                0 <= i < pairs@.len() && (#[trigger] pairs@[i]).0 == key by {
                assert(keys@.to_set().contains(key));
                let i = choose|i: int| 0 <= i < keys@.len() && keys@[i] == key;
                assert(pairs@[i].0 == key);
            }
        }
        pairs
    }

    /// The siblings on the way from the leaf of the item under `key` to the root, from
    /// the leaf upward.
    pub fn path(&self, key: &[u8; 32]) -> (r: Option<MerklePath>)
        requires
            self.well_formed(),
        ensures
            r is Some <==> self.entries().dom().contains(*key),
            r matches Some(path) ==> dynamic::is_path::<Leaf::Hasher>(
                path@,
                dynamic::slot_leaves(self.slots()),
                self.entries()[*key].1 as int,
                dynamic::TREE_HEIGHT as nat,
            ),
    {
        match self.items.get(key) {
            Some(entry) => {
                proof {
                    self.lemma_entry(*key);
                }
                self.merkle.path(entry.1)
            },
            None => None,
        }
    }

    /// Inserts an item, and tells its position.
    pub fn insert(&self, key: [u8; 32], item: Item) -> (r: (Self, usize))
        requires
            self.well_formed(),
            self.filled() < Self::capacity(),
        ensures
            r.0.well_formed(),
            dynamic::is_first_free(self.slots(), r.1 as int),
            r.0.slots() == self.slots().update(r.1 as int, Some(Leaf::leaf_of(key, item))),
            r.0.filled() == self.filled() + 1,
            r.0.entries() == self.entries().insert(key, (item, r.1)),
            self.exact() && !self.entries().dom().contains(key) ==> r.0.exact(),
    {
        let leaf: NodeHash = Leaf::leaf(&key, &item);
        let (merkle, position) = self.merkle.insert(leaf);
        let mut items: TrieMap<(Item, usize)> = self.items.clone();
        items.insert_mut(key, (item, position));
        let tree = MerkleTree { merkle, items };
        proof {
            self.lemma_capacity();
            assert forall|k: [u8; 32]| #[trigger]
                tree.entries().dom().contains(k) implies {
                let (item, position) = tree.entries()[k];
                &&& position < Self::capacity()
                &&& tree.slots()[position as int] == Some(Leaf::leaf_of(k, item))
            } by {
                if k != key {
                    self.lemma_entry(k);
                }
            }
            assert forall|a: [u8; 32], b: [u8; 32]|
                #![trigger tree.entries()[a], tree.entries()[b]]
                tree.entries().dom().contains(a) && tree.entries().dom().contains(b)
                    && tree.entries()[a].1 == tree.entries()[b].1 implies a == b by {
                if a != key {
                    self.lemma_entry(a);
                }
                if b != key {
                    self.lemma_entry(b);
                }
                if a != key && b != key {
                    self.lemma_positions(a, b);
                }
            }
            if self.exact() && !self.entries().dom().contains(key) {
                assert(tree.entries().dom() =~= self.entries().dom().insert(key));
                assert forall|p: int|
                    0 <= p < tree.slots().len() && (#[trigger] tree.slots()[p]) is Some implies exists|
                    k: [u8; 32],
                | #[trigger]
                    tree.entries().dom().contains(k) && tree.entries()[k].1 == p by {
                    if p == position {
                        assert(tree.entries().dom().contains(key));
                    } else {
                        assert(self.slots()[p] is Some);
                        let k = choose|k: [u8; 32]| #[trigger]
                            self.entries().dom().contains(k) && self.entries()[k].1 == p;
                        assert(tree.entries().dom().contains(k));
                    }
                }
            }
        }
        (tree, position)
    }

    /// Replaces the item under `key`, and keeps its position.
    pub fn update(&self, key: &[u8; 32], item: Item) -> (r: Result<Self, Error>)
        requires
            self.well_formed(),
        ensures
            self.entries().dom().contains(*key) ==> r is Ok,
            !self.entries().dom().contains(*key) ==> r == Err::<Self, _>(Error::NotFound),
            r matches Ok(tree) ==> {
                let position = self.entries()[*key].1;
                &&& tree.well_formed()
                &&& tree.slots() == self.slots().update(
                    position as int,
                    Some(Leaf::leaf_of(*key, item)),
                )
                &&& tree.filled() == self.filled()
                &&& tree.entries() == self.entries().insert(*key, (item, position))
                &&& self.exact() ==> tree.exact()
            },
    {
        let position: usize = match self.items.get(key) {
            Some(entry) => entry.1,
            None => return Err(Error::NotFound),
        };
        proof {
            self.lemma_entry(*key);
            self.lemma_capacity();
        }
        let leaf: NodeHash = Leaf::leaf(key, &item);
        let merkle = self.merkle.update(position, leaf);
        let mut items: TrieMap<(Item, usize)> = self.items.clone();
        items.insert_mut(*key, (item, position));
        let tree = MerkleTree { merkle, items };
        proof {
            dynamic::lemma_occupied_update(
                self.slots(),
                position as int,
                Some(Leaf::leaf_of(*key, item)),
            );
            assert forall|k: [u8; 32]| #[trigger]
                tree.entries().dom().contains(k) implies {
                let (item, position) = tree.entries()[k];
                &&& position < Self::capacity()
                &&& tree.slots()[position as int] == Some(Leaf::leaf_of(k, item))
            } by {
                if k != *key {
                    self.lemma_entry(k);
                    assert(self.entries()[k].1 != self.entries()[*key].1);
                }
            }
            assert forall|a: [u8; 32], b: [u8; 32]|
                #![trigger tree.entries()[a], tree.entries()[b]]
                tree.entries().dom().contains(a) && tree.entries().dom().contains(b)
                    && tree.entries()[a].1 == tree.entries()[b].1 implies a == b by {
                self.lemma_positions(a, b);
            }
            assert(tree.entries().dom() =~= self.entries().dom());
            if self.exact() {
                assert forall|p: int|
                    0 <= p < tree.slots().len() && (#[trigger] tree.slots()[p]) is Some implies exists|
                    k: [u8; 32],
                | #[trigger]
                    tree.entries().dom().contains(k) && tree.entries()[k].1 == p by {
                    assert(self.slots()[p] is Some);
                    let k = choose|k: [u8; 32]| #[trigger]
                        self.entries().dom().contains(k) && self.entries()[k].1 == p;
                    assert(tree.entries().dom().contains(k));
                }
            }
        }
        Ok(tree)
    }
}

impl<Item: Clone, Leaf: LeafExtractor<Item>> MerkleTree<Item, Leaf> {
    /// Removes the item under `key`, and hands out a clone of it.
    pub fn remove(&self, key: &[u8; 32]) -> (r: Result<(Self, Item), Error>)
        requires
            self.well_formed(),
        ensures
            self.entries().dom().contains(*key) ==> r is Ok,
            !self.entries().dom().contains(*key) ==> r == Err::<(Self, Item), _>(Error::NotFound),
            r matches Ok((tree, item)) ==> {
                let position = self.entries()[*key].1;
                &&& cloned(self.entries()[*key].0, item)
                &&& tree.well_formed()
                &&& tree.slots() == self.slots().update(position as int, None)
                &&& tree.filled() == self.filled() - 1
                &&& tree.entries() == self.entries().remove(*key)
                &&& self.exact() ==> tree.exact()
            },
    {
        let (item, position): (Item, usize) = match self.items.get(key) {
            Some(entry) => (entry.0.clone(), entry.1),
            None => return Err(Error::NotFound),
        };
        proof {
            self.lemma_entry(*key);
            self.lemma_capacity();
        }
        let mut items: TrieMap<(Item, usize)> = self.items.clone();
        items.remove_mut(key);
        let merkle = self.merkle.remove(position);
        let tree = MerkleTree { merkle, items };
        proof {
            dynamic::lemma_occupied_update(self.slots(), position as int, None);
            assert forall|k: [u8; 32]| #[trigger]
                tree.entries().dom().contains(k) implies {
                let (item, position) = tree.entries()[k];
                &&& position < Self::capacity()
                &&& tree.slots()[position as int] == Some(Leaf::leaf_of(k, item))
            } by {
                self.lemma_entry(k);
                assert(self.entries()[k].1 != self.entries()[*key].1);
            }
            assert forall|a: [u8; 32], b: [u8; 32]|
                #![trigger tree.entries()[a], tree.entries()[b]]
                tree.entries().dom().contains(a) && tree.entries().dom().contains(b)
                    && tree.entries()[a].1 == tree.entries()[b].1 implies a == b by {
                self.lemma_positions(a, b);
            }
            assert(tree.entries().dom() =~= self.entries().dom().remove(*key));
            if self.exact() {
                assert forall|p: int|
                    0 <= p < tree.slots().len() && (#[trigger] tree.slots()[p]) is Some implies exists|
                    k: [u8; 32],
                | #[trigger]
                    tree.entries().dom().contains(k) && tree.entries()[k].1 == p by {
                    assert(self.slots()[p] is Some);
                    let k = choose|k: [u8; 32]| #[trigger]
                        self.entries().dom().contains(k) && self.entries()[k].1 == p;
                    assert(tree.entries().dom().contains(k));
                }
            }
        }
        Ok((tree, item))
    }

    /// A clone of the item under `key`.
    pub fn get(&self, key: &[u8; 32]) -> (r: Option<Item>)
        ensures
            r is Some <==> self.entries().dom().contains(*key),
            r matches Some(item) ==> cloned(self.entries()[*key].0, item),
    {
        match self.items.get(key) {
            Some(entry) => Some(entry.0.clone()),
            None => None,
        }
    }

    /// The items and their positions.
    pub fn compressed(&self) -> (r: CompressedMerkleTree<Item>)
        requires
            self.well_formed(),
        ensures
            is_compressed(*self, r.items@),
    {
        let keys: Vec<[u8; 32]> = self.items.keys();
        let mut items: BTreeMap<usize, ([u8; 32], Item)> = BTreeMap::new();
        let mut i: usize = 0;
        while i < keys.len()
            invariant
                self.well_formed(),
                0 <= i <= keys@.len(),
                keys@.to_set() == self.items@.dom(),
                forall|j: int|
                    0 <= j < i ==> {
                        let (item, position) = self.entries()[#[trigger] keys@[j]];
                        &&& items@.dom().contains(position)
                        &&& items@[position].0 == keys@[j]
                        &&& cloned(item, items@[position].1)
                    },
                forall|position: usize| #[trigger]
                    items@.dom().contains(position) ==> self.entries().dom().contains(
                        items@[position].0,
                    ) && self.entries()[items@[position].0].1 == position,
            decreases keys@.len() - i,
        {
            let key: [u8; 32] = keys[i];
            assert(keys@.to_set().contains(keys@[i as int]));
            if let Some(entry) = self.items.get(&key) {
                let ghost before = items@;
                items.insert(entry.1, (key, entry.0.clone()));
                proof {
                    assert forall|j: int| 0 <= j < i implies {
                        let (item, position) = self.entries()[#[trigger] keys@[j]];
                        &&& items@.dom().contains(position)
                        &&& items@[position].0 == keys@[j]
                        &&& cloned(item, items@[position].1)
                    } by {
                        assert(keys@.to_set().contains(keys@[j]));
                        if self.entries()[keys@[j]].1 == entry.1 {
                            self.lemma_positions(keys@[j], key);
                        }
                    }
                }
            }
            i += 1;
        }
        proof {
            assert forall|key: [u8; 32]| #[trigger] self.entries().dom().contains(key) implies {
                let (item, position) = self.entries()[key];
                &&& items@.dom().contains(position)
                &&& items@[position].0 == key
                &&& cloned(item, items@[position].1)
            } by {
                assert(keys@.to_set().contains(key));
                let j = choose|j: int| 0 <= j < keys@.len() && keys@[j] == key;
                assert(self.entries()[keys@[j]] == self.entries()[key]);
            }
        }
        CompressedMerkleTree { items }
    }
}

impl<Item, Leaf: LeafExtractor<Item>> Default for MerkleTree<Item, Leaf> {
    fn default() -> (r: Self)
        ensures
            r.well_formed(),
            r.entries() == Map::<[u8; 32], (Item, usize)>::empty(),
            r.slots() == Seq::new(Self::capacity(), |i: int| None::<NodeHash>),
    {
        Self::new()
    }
}

impl<Item, Leaf: LeafExtractor<Item>> Clone for MerkleTree<Item, Leaf> {
    fn clone(&self) -> (r: Self)
        ensures
            r == *self,
    {
        MerkleTree { merkle: self.merkle.clone(), items: self.items.clone() }
    }
}

/// Whether `compressed` holds clones of the items of `tree`, each at its position,
/// and nothing else.
pub open spec fn is_compressed<Item: Clone, Leaf: LeafExtractor<Item>>(
    tree: MerkleTree<Item, Leaf>,
    compressed: Map<usize, ([u8; 32], Item)>,
) -> bool {
    &&& forall|key: [u8; 32]| #[trigger]
        tree.entries().dom().contains(key) ==> {
            let (item, position) = tree.entries()[key];
            &&& compressed.dom().contains(position)
            &&& compressed[position].0 == key
            &&& cloned(item, compressed[position].1)
        }
    &&& forall|position: usize| #[trigger]
        compressed.dom().contains(position) ==> tree.entries().dom().contains(
            compressed[position].0,
        ) && tree.entries()[compressed[position].0].1 == position
}

/// Whether the slot at `position` is filled for a clone of what `compressed` holds
/// there, and empty when it holds nothing there.
pub open spec fn slot_restored<Item: Clone, Leaf: LeafExtractor<Item>>(
    slot: Option<NodeHash>,
    compressed: Map<usize, ([u8; 32], Item)>,
    position: int,
) -> bool {
    if compressed.dom().contains(position as usize) {
        let (key, item) = compressed[position as usize];
        exists|copy: Item| #[trigger]
            cloned(item, copy) && slot == Some(Leaf::leaf_of(key, copy))
    } else {
        slot is None
    }
}

/// Whether `tree` is rebuilt from clones of what `compressed` holds. Of two items
/// under one key the one at the greater position is kept.
pub open spec fn is_restored<Item: Clone, Leaf: LeafExtractor<Item>>(
    compressed: Map<usize, ([u8; 32], Item)>,
    tree: MerkleTree<Item, Leaf>,
) -> bool {
    &&& forall|position: int|
        0 <= position < MerkleTree::<Item, Leaf>::capacity() ==> slot_restored::<Item, Leaf>(
            #[trigger] tree.slots()[position],
            compressed,
            position,
        )
    &&& forall|position: usize| #[trigger]
        compressed.dom().contains(position) ==> tree.entries().dom().contains(
            compressed[position].0,
        ) && tree.entries()[compressed[position].0].1 >= position
    &&& forall|key: [u8; 32]| #[trigger]
        tree.entries().dom().contains(key) ==> {
            let (copy, position) = tree.entries()[key];
            &&& compressed.dom().contains(position)
            &&& compressed[position].0 == key
            &&& cloned(compressed[position].1, copy)
        }
}

impl<Item, Leaf: LeafExtractor<Item>> MerkleTree<Item, Leaf> {
    /// Makes a store by inserting `pairs`, one after the other.
    pub fn from_items(pairs: Vec<([u8; 32], Item)>) -> (r: Self)
        requires
            pairs@.len() <= Self::capacity(),
        ensures
            r.well_formed(),
            r.filled() == pairs@.len(),
            forall|i: int|
                0 <= i < Self::capacity() ==> #[trigger] r.slots()[i] == (if i < pairs@.len() {
                    Some(Leaf::leaf_of(pairs@[i].0, pairs@[i].1))
                } else {
                    None
                }),
            forall|i: int|
                0 <= i < pairs@.len() ==> r.entries().dom().contains((#[trigger] pairs@[i]).0)
                    && r.entries()[pairs@[i].0].1 >= i,
            forall|key: [u8; 32]| #[trigger]
                r.entries().dom().contains(key) ==> {
                    let (item, position) = r.entries()[key];
                    &&& position < pairs@.len()
                    &&& pairs@[position as int] == (key, item)
                },
    {
        let ghost all = pairs@;
        let mut tree: Self = Self::new();
        proof {
            tree.lemma_capacity();
        }
        for pair in it: pairs
            invariant
                it.seq() == all,
                tree.well_formed(),
                tree.slots().len() == Self::capacity(),
                all.len() <= Self::capacity(),
                tree.filled() == it.index(),
                forall|i: int|
                    0 <= i < Self::capacity() ==> #[trigger] tree.slots()[i] == (if i < it.index() {
                        Some(Leaf::leaf_of(all[i].0, all[i].1))
                    } else {
                        None
                    }),
                forall|i: int|
                    0 <= i < it.index() ==> tree.entries().dom().contains((#[trigger] all[i]).0)
                        && tree.entries()[all[i].0].1 >= i,
                forall|key: [u8; 32]| #[trigger]
                    tree.entries().dom().contains(key) ==> {
                        let (item, position) = tree.entries()[key];
                        &&& position < it.index()
                        &&& all[position as int] == (key, item)
                    },
        {
            let ghost done = it.index();
            let (key, item): ([u8; 32], Item) = pair;
            assert((key, item) == all[done]);
            let (next, position): (Self, usize) = tree.insert(key, item);
            proof {
                assert(tree.slots()[done] is None);
                if position < done {
                    assert(tree.slots()[position as int] is Some);
                }
                assert(position == done);
                next.lemma_capacity();
                assert forall|i: int| 0 <= i < done + 1 implies next.entries().dom().contains(
                    (#[trigger] all[i]).0,
                ) && next.entries()[all[i].0].1 >= i by {
                    if i < done && all[i].0 != key {
                        assert(tree.entries()[all[i].0].1 >= i);
                    }
                }
            }
            tree = next;
        }
        tree
    }
}

/// A sequence of positions that increases is ordered.
proof fn lemma_increasing(positions: Seq<usize>)
    requires
        vstd::std_specs::btree::increasing_seq(positions),
    ensures
        forall|i: int, j: int|
            0 <= i < j < positions.len() ==> #[trigger] positions[i] < #[trigger] positions[j],
{
    vstd::std_specs::btree::axiom_increasing_seq_meaning(positions);
    assert forall|i: int, j: int| 0 <= i < j < positions.len() implies #[trigger] positions[i]
        < #[trigger] positions[j] by {
        assert(vstd::std_specs::cmp::OrdSpec::cmp_spec(&positions[i], &positions[j]) is Less);
    }
}

impl<Item: Clone, Leaf: LeafExtractor<Item>> MerkleTree<Item, Leaf> {
    /// Rebuilds a store from its items and their positions.
    pub fn from_compressed(compressed: CompressedMerkleTree<Item>) -> (r: Self)
        requires
            forall|position: usize| #[trigger]
                compressed.items@.dom().contains(position) ==> position < Self::capacity(),
        ensures
            r.well_formed(),
            is_restored::<Item, Leaf>(compressed.items@, r),
    {
        let ghost all = compressed.items@;
        let mut merkle: DynamicMerkleTree<Leaf::Hasher> = DynamicMerkleTree::new();
        let mut items: TrieMap<(Item, usize)> = TrieMap::new();
        let ghost mut done: Set<usize> = Set::empty();
        proof {
            merkle.lemma_capacity();
        }
        let entries = compressed.items.iter();
        let ghost sequence = vstd::std_specs::iter::IteratorSpec::remaining(&entries);
        let ghost positions = sequence.map_values(
            |entry: (&usize, &([u8; 32], Item))| *entry.0,
        );
        proof {
            lemma_increasing(positions);
            assert forall|i: int, j: int| 0 <= i < j < sequence.len() implies *(
            #[trigger] sequence[i]).0 < *(#[trigger] sequence[j]).0 by {
                assert(positions[i] < positions[j]);
            }
        }
        for pair in it: entries
            invariant
                all == compressed.items@,
                it.seq().no_duplicates(),
                forall|i: int, j: int|
                    0 <= i < j < it.seq().len() ==> *(#[trigger] it.seq()[i]).0 < *(
                    #[trigger] it.seq()[j]).0,
                forall|j: int|
                    0 <= j < it.seq().len() ==> all.dom().contains(*(#[trigger] it.seq()[j]).0)
                        && all[*it.seq()[j].0] == *it.seq()[j].1,
                Self::capacity() == 0x1_0000_0000,
                forall|position: usize| #[trigger]
                    all.dom().contains(position) ==> position < Self::capacity(),
                merkle.well_formed(),
                merkle.slots().len() == Self::capacity(),
                forall|j: int|
                    0 <= j < it.index() ==> done.contains(*(#[trigger] it.seq()[j]).0),
                forall|position: usize| #[trigger]
                    done.contains(position) ==> exists|j: int|
                        0 <= j < it.index() && *(#[trigger] it.seq()[j]).0 == position,
                forall|position: usize| #[trigger]
                    done.contains(position) ==> all.dom().contains(position),
                forall|position: int|
                    0 <= position < Self::capacity() ==> (if done.contains(position as usize) {
                        slot_restored::<Item, Leaf>(
                            #[trigger] merkle.slots()[position],
                            all,
                            position,
                        )
                    } else {
                        merkle.slots()[position] is None
                    }),
                forall|position: usize| #[trigger]
                    done.contains(position) ==> items@.dom().contains(all[position].0)
                        && items@[all[position].0].1 >= position,
                forall|key: [u8; 32]| #[trigger]
                    items@.dom().contains(key) ==> {
                        let (copy, position) = items@[key];
                        &&& done.contains(position)
                        &&& all[position].0 == key
                        &&& cloned(all[position].1, copy)
                        &&& merkle.slots()[position as int] == Some(Leaf::leaf_of(key, copy))
                    },
        {
            let position: usize = *pair.0;
            let key: [u8; 32] = pair.1.0;
            let copy: Item = pair.1.1.clone();
            let ghost before = done;
            proof {
                assert(all.contains_key(*it.seq()[it.index()].0));
                assert(!done.contains(position)) by {
                    if done.contains(position) {
                        let j = choose|j: int|
                            0 <= j < it.index() && *(#[trigger] it.seq()[j]).0 == position;
                        assert(all[*it.seq()[j].0] == *it.seq()[j].1);
                        assert(all[*it.seq()[it.index()].0] == *it.seq()[it.index()].1);
                        assert(it.seq()[j] == it.seq()[it.index()]);
                    }
                }
                done = done.insert(position);
            }
            let leaf: NodeHash = Leaf::leaf(&key, &copy);
            let ghost slots_before = merkle.slots();
            merkle = merkle.update(position, leaf);
            items.insert_mut(key, (copy, position));
            proof {
                assert(slot_restored::<Item, Leaf>(
                    merkle.slots()[position as int],
                    all,
                    position as int,
                )) by {
                    assert(cloned(all[position].1, copy));
                }
            }
        }
        let tree = MerkleTree { merkle, items };
        tree
    }
}

} // verus!
