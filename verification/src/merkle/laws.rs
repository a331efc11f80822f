//! What holds of keyed stores across calls.
use vstd::prelude::*;

use crate::merkle::dynamic;
use crate::merkle::dynamic::MerkleNode;
use crate::merkle::hasher;
use crate::merkle::hasher::{MerkleHasher, NodeHash};
use crate::merkle::shape;
use crate::merkle::tree;
use crate::merkle::tree::{LeafExtractor, MerkleTree};

verus! {

/// The root that `path` leads to from `leaf`.
pub open spec fn path_root<H: MerkleHasher>(path: Seq<MerkleNode>, leaf: NodeHash) -> NodeHash
    decreases path.len(),
{
    if path.len() == 0 {
        leaf
    } else {
        let below = path_root::<H>(path.drop_last(), leaf);
        match path.last() {
            MerkleNode::Left(sibling) => H::parent(sibling, below),
            MerkleNode::Right(sibling) => H::parent(below, sibling),
        }
    }
}

/// The path of an item leads from its leaf to the root of the store.
pub proof fn path_leads_to_the_root<Item, Leaf: LeafExtractor<Item>>(
    store: MerkleTree<Item, Leaf>,
    key: [u8; 32],
    path: Seq<MerkleNode>,
)
    requires
        store.well_formed(),
        store.entries().dom().contains(key),
        dynamic::is_path::<Leaf::Hasher>(
            path,
            dynamic::slot_leaves(store.slots()),
            store.entries()[key].1 as int,
            dynamic::TREE_HEIGHT as nat,
        ),
    ensures
        path_root::<Leaf::Hasher>(path, Leaf::leaf_of(key, store.entries()[key].0))
            == store.root_of(),
{
    let position = store.entries()[key].1 as int;
    let leaves = dynamic::slot_leaves(store.slots());
    store.lemma_capacity();
    store.lemma_entry(key);
    assert(leaves[position] == Leaf::leaf_of(key, store.entries()[key].0));
    lemma_path_prefix::<Leaf::Hasher>(
        path,
        leaves,
        position,
        dynamic::TREE_HEIGHT as nat,
        path.len(),
    );
    assert(path.take(path.len() as int) =~= path);
    shape::lemma_root_covers(position, dynamic::TREE_HEIGHT as nat);
}

/// The first siblings of a path lead to the nodes above the leaf.
proof fn lemma_path_prefix<H: MerkleHasher>(
    path: Seq<MerkleNode>,
    leaves: Seq<NodeHash>,
    position: int,
    height: nat,
    steps: nat,
)
    requires
        dynamic::is_path::<H>(path, leaves, position, height),
        0 <= position < leaves.len(),
        steps <= path.len(),
    ensures
        path_root::<H>(path.take(steps as int), leaves[position]) == hasher::node::<H>(
            leaves,
            steps + 1,
            shape::ancestor(position, steps + 1),
        ),
    decreases steps,
{
    if steps == 0 {
        shape::lemma_leaf_level(position);
    } else {
        let below = (steps - 1) as nat;
        lemma_path_prefix::<H>(path, leaves, position, height, below);
        shape::lemma_ancestor_step(position, steps);
        assert(path.take(steps as int).drop_last() =~= path.take(below as int));
        assert(path.take(steps as int).last() == path[steps - 1]);
    }
}

/// Rebuilding a store from its compressed form gives back its items, their
/// positions, and its root, when clones of items are equal to them.
pub proof fn compression_keeps_the_store<Item: Clone, Leaf: LeafExtractor<Item>>(
    store: MerkleTree<Item, Leaf>,
    compressed: Map<usize, ([u8; 32], Item)>,
    restored: MerkleTree<Item, Leaf>,
)
    requires
        store.well_formed(),
        store.exact(),
        restored.well_formed(),
        forall|a: Item, b: Item| #[trigger] cloned(a, b) ==> a == b,
        tree::is_compressed(store, compressed),
        tree::is_restored(compressed, restored),
    ensures
        restored.entries() == store.entries(),
        restored.slots() == store.slots(),
        restored.root_of() == store.root_of(),
{
    store.lemma_capacity();
    restored.lemma_capacity();
    assert forall|key: [u8; 32]| #[trigger]
        store.entries().dom().contains(key) implies restored.entries().dom().contains(key)
        && restored.entries()[key] == store.entries()[key] by {
        let (item, position) = store.entries()[key];
        assert(compressed.dom().contains(position));
        assert(restored.entries().dom().contains(key));
        let (copy, at) = restored.entries()[key];
        assert(compressed.dom().contains(at));
        assert(store.entries()[compressed[at].0].1 == at);
    }
    assert forall|key: [u8; 32]| #[trigger]
        restored.entries().dom().contains(key) implies store.entries().dom().contains(key) by {
        let (copy, at) = restored.entries()[key];
        assert(compressed.dom().contains(at));
    }
    assert(restored.entries() =~= store.entries());
    assert forall|i: int| 0 <= i < store.slots().len() implies restored.slots()[i]
        == store.slots()[i] by {
        assert(tree::slot_restored::<Item, Leaf>(restored.slots()[i], compressed, i));
        if compressed.dom().contains(i as usize) {
            let (key, item) = compressed[i as usize];
            let copy = choose|copy: Item| #[trigger]
                cloned(item, copy) && restored.slots()[i] == Some(Leaf::leaf_of(key, copy));
            assert(store.entries().dom().contains(key));
            store.lemma_entry(key);
        } else if store.slots()[i] is Some {
            let key = choose|key: [u8; 32]| #[trigger]
                store.entries().dom().contains(key) && store.entries()[key].1 == i;
            assert(compressed.dom().contains(store.entries()[key].1));
        }
    }
    assert(restored.slots() =~= store.slots());
}

/// Stores with the same root hold the same leaves in their slots. Otherwise their trees show
/// two pairs of nodes with the same parent.
pub proof fn root_commits_to_the_leaves<Item, Leaf: LeafExtractor<Item>>(
    a: MerkleTree<Item, Leaf>,
    b: MerkleTree<Item, Leaf>,
)
    requires
        a.well_formed(),
        b.well_formed(),
        a.root_of() == b.root_of(),
    ensures
        dynamic::slot_leaves(a.slots()) == dynamic::slot_leaves(b.slots()) || exists|
            height: nat,
            index: int,
        |
            1 <= height < dynamic::TREE_HEIGHT && shape::collide::<Leaf::Hasher>(
                #[trigger] shape::children::<Leaf::Hasher>(
                    dynamic::slot_leaves(a.slots()),
                    height,
                    index,
                ),
                shape::children::<Leaf::Hasher>(dynamic::slot_leaves(b.slots()), height, index),
            ),
{
    a.lemma_capacity();
    b.lemma_capacity();
    let first = dynamic::slot_leaves(a.slots());
    let second = dynamic::slot_leaves(b.slots());
    if first != second {
        let position = choose|i: int| 0 <= i < first.len() && first[i] != second[i];
        assert(first.len() == second.len());
        if forall|i: int| 0 <= i < first.len() ==> first[i] == second[i] {
            assert(first =~= second);
        }
        shape::lemma_root_covers(position, dynamic::TREE_HEIGHT as nat);
        lemma_difference_shows::<Leaf::Hasher>(
            first,
            second,
            position,
            dynamic::TREE_HEIGHT as nat,
        );
    }
}

/// Where the nodes above a leaf are equal, but the leaf is not, some nodes between them
/// collide.
proof fn lemma_difference_shows<H: MerkleHasher>(
    a: Seq<NodeHash>,
    b: Seq<NodeHash>,
    position: int,
    height: nat,
)
    requires
        height >= 1,
        position >= 0,
        hasher::leaf_at(a, position) != hasher::leaf_at(b, position),
        hasher::node::<H>(a, height, shape::ancestor(position, height)) == hasher::node::<H>(
            b,
            height,
            shape::ancestor(position, height),
        ),
    ensures
        exists|k: nat, index: int|
            1 <= k < height && shape::collide::<H>(
                #[trigger] shape::children::<H>(a, k, index),
                shape::children::<H>(b, k, index),
            ),
    decreases height,
{
    if height == 1 {
        shape::lemma_leaf_level(position);
    } else {
        let below = (height - 1) as nat;
        let index = shape::ancestor(position, height);
        shape::lemma_ancestor_step(position, below);
        if shape::children::<H>(a, below, index) == shape::children::<H>(b, below, index) {
            lemma_difference_shows::<H>(a, b, position, below);
        } else {
            assert(shape::collide::<H>(
                shape::children::<H>(a, below, index),
                shape::children::<H>(b, below, index),
            ));
        }
    }
}

/// Updating an item to one with another leaf changes the root, unless the trees before and
/// after show two pairs of nodes with the same parent.
pub proof fn update_changes_the_root<Item, Leaf: LeafExtractor<Item>>(
    store: MerkleTree<Item, Leaf>,
    updated: MerkleTree<Item, Leaf>,
    key: [u8; 32],
    item: Item,
)
    requires
        store.well_formed(),
        updated.well_formed(),
        store.entries().dom().contains(key),
        Leaf::leaf_of(key, item) != Leaf::leaf_of(key, store.entries()[key].0),
        updated.slots() == store.slots().update(
            store.entries()[key].1 as int,
            Some(Leaf::leaf_of(key, item)),
        ),
    ensures
        updated.root_of() != store.root_of() || exists|height: nat, index: int|
            1 <= height < dynamic::TREE_HEIGHT && shape::collide::<Leaf::Hasher>(
                #[trigger] shape::children::<Leaf::Hasher>(
                    dynamic::slot_leaves(store.slots()),
                    height,
                    index,
                ),
                shape::children::<Leaf::Hasher>(
                    dynamic::slot_leaves(updated.slots()),
                    height,
                    index,
                ),
            ),
{
    store.lemma_capacity();
    store.lemma_entry(key);
    let position = store.entries()[key].1 as int;
    if updated.root_of() == store.root_of() {
        root_commits_to_the_leaves(store, updated);
        assert(dynamic::slot_leaves(store.slots())[position] == Leaf::leaf_of(
            key,
            store.entries()[key].0,
        ));
        assert(dynamic::slot_leaves(updated.slots())[position] == Leaf::leaf_of(key, item));
    }
}

/// Updating an item and updating it back gives back the root: the item has kept its
/// position.
pub proof fn update_can_be_undone<Item, Leaf: LeafExtractor<Item>>(
    store: MerkleTree<Item, Leaf>,
    updated: MerkleTree<Item, Leaf>,
    undone: MerkleTree<Item, Leaf>,
    key: [u8; 32],
    item: Item,
)
    requires
        store.well_formed(),
        store.entries().dom().contains(key),
        updated.entries() == store.entries().insert(key, (item, store.entries()[key].1)),
        updated.slots() == store.slots().update(
            store.entries()[key].1 as int,
            Some(Leaf::leaf_of(key, item)),
        ),
        undone.entries() == updated.entries().insert(
            key,
            (store.entries()[key].0, updated.entries()[key].1),
        ),
        undone.slots() == updated.slots().update(
            updated.entries()[key].1 as int,
            Some(Leaf::leaf_of(key, store.entries()[key].0)),
        ),
    ensures
        undone.entries() == store.entries(),
        undone.slots() == store.slots(),
        undone.root_of() == store.root_of(),
{
    store.lemma_capacity();
    store.lemma_entry(key);
    assert(undone.entries() =~= store.entries());
    assert(undone.slots() =~= store.slots());
}

/// Inserting an item under a new key and removing it again gives back the store.
pub proof fn insertion_can_be_undone<Item, Leaf: LeafExtractor<Item>>(
    store: MerkleTree<Item, Leaf>,
    inserted: MerkleTree<Item, Leaf>,
    removed: MerkleTree<Item, Leaf>,
    key: [u8; 32],
    item: Item,
    position: usize,
)
    requires
        !store.entries().dom().contains(key),
        dynamic::is_first_free(store.slots(), position as int),
        inserted.entries() == store.entries().insert(key, (item, position)),
        inserted.slots() == store.slots().update(
            position as int,
            Some(Leaf::leaf_of(key, item)),
        ),
        removed.entries() == inserted.entries().remove(key),
        removed.slots() == inserted.slots().update(inserted.entries()[key].1 as int, None),
    ensures
        removed.entries() == store.entries(),
        removed.slots() == store.slots(),
        removed.root_of() == store.root_of(),
{
    assert(removed.entries() =~= store.entries());
    assert(removed.slots() =~= store.slots());
}

/// The slot of an item that is removed is used by the next insertion, unless there is
/// an empty slot before it.
pub proof fn removed_slot_is_reused<Item, Leaf: LeafExtractor<Item>>(
    store: MerkleTree<Item, Leaf>,
    removed: MerkleTree<Item, Leaf>,
    key: [u8; 32],
    next: int,
)
    requires
        store.well_formed(),
        store.entries().dom().contains(key),
        removed.slots() == store.slots().update(store.entries()[key].1 as int, None),
        forall|i: int| 0 <= i < store.entries()[key].1 ==> (#[trigger] store.slots()[i]) is Some,
        dynamic::is_first_free(removed.slots(), next),
    ensures
        next == store.entries()[key].1,
{
    store.lemma_capacity();
    store.lemma_entry(key);
    let position = store.entries()[key].1 as int;
    if next < position {
        assert(store.slots()[next] is Some);
        assert(removed.slots()[next] is None);
    } else if next > position {
        assert(removed.slots()[position] is Some);
    }
}

} // verus!
