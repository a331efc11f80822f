//! Laws of what Merkle trees hash.
use vstd::arithmetic::power2::*;
use vstd::prelude::*;

use crate::merkle::blake2b;
use crate::merkle::blake2b::Blake2bMerkleHasher;
use crate::merkle::dynamic;
use crate::merkle::hasher;
use crate::merkle::hasher::{MerkleHasher, NodeHash};
use crate::merkle::shape;
use crate::merkle::tree::{LeafExtractor, MerkleTree};

verus! {

/// The root over `leaves`, which are a power of two: the left half, and then the right one, are
/// hashed together.
pub open spec fn root_of_halves<H: MerkleHasher>(leaves: Seq<NodeHash>) -> NodeHash
    decreases leaves.len(),
{
    if leaves.len() <= 1 {
        leaves[0]
    } else {
        let half = leaves.len() as int / 2;
        H::parent(
            root_of_halves::<H>(leaves.take(half)),
            root_of_halves::<H>(leaves.skip(half)),
        )
    }
}

/// The `count` leaves from `start` on, with `pad` after the last of `leaves`.
pub open spec fn window(leaves: Seq<NodeHash>, start: int, count: nat, pad: NodeHash) -> Seq<
    NodeHash,
> {
    Seq::new(
        count,
        |k: int|
            if start + k < leaves.len() {
                leaves[start + k]
            } else {
                pad
            },
    )
}

proof fn lemma_node_of_halves<H: MerkleHasher>(
    leaves: Seq<NodeHash>,
    height: nat,
    index: int,
    pad: NodeHash,
)
    requires
        height >= 1,
        index >= 0,
        pad == hasher::empty_value(),
    ensures
        hasher::node::<H>(leaves, height, index) == root_of_halves::<H>(
            window(leaves, index * shape::width(height), shape::width(height), pad),
        ),
    decreases height,
{
    shape::lemma_width(height);
    let w = shape::width(height);
    let all = window(leaves, index * w, w, pad);
    if height == 1 {
        lemma2_to64();
        assert(w == 1);
        assert(index * w == index) by (nonlinear_arith)
            requires
                w == 1,
        ;
        assert(all[0] == hasher::leaf_at(leaves, index));
    } else {
        let below = (height - 1) as nat;
        shape::lemma_width(below);
        let half = shape::width(below);
        assert(w == 2 * half);
        lemma_node_of_halves::<H>(leaves, below, 2 * index, pad);
        lemma_node_of_halves::<H>(leaves, below, 2 * index + 1, pad);
        assert((2 * index) * half == index * w) by (nonlinear_arith)
            requires
                w == 2 * half,
        ;
        assert((2 * index + 1) * half == index * w + half) by (nonlinear_arith)
            requires
                w == 2 * half,
        ;
        assert(all.take(half as int) =~= window(leaves, (2 * index) * half, half, pad));
        assert(all.skip(half as int) =~= window(leaves, (2 * index + 1) * half, half, pad));
    }
}

/// The root of a tree is that of its leaves hashed together pair by pair, the left one first,
/// with leaves of zeros after the last one.
pub proof fn roots_are_hashed_pair_by_pair<H: MerkleHasher>(
    leaves: Seq<NodeHash>,
    height: nat,
    pad: NodeHash,
)
    requires
        height >= 1,
        pad@ == Seq::new(32, |k: int| 0u8),
    ensures
        hasher::tree_root::<H>(leaves, height) == root_of_halves::<H>(
            window(leaves, 0, pow2((height - 1) as nat), pad),
        ),
{
    assert(hasher::empty_value()@ =~= pad@);
    assert(pad =~= hasher::empty_value());
    lemma_node_of_halves::<H>(leaves, height, 0, pad);
    assert(0 * shape::width(height) == 0) by (nonlinear_arith);
}

/// A parent is the digest of the sixty-four bytes of its children, the left one first.
pub proof fn parents_are_digests_of_their_children(
    left: NodeHash,
    right: NodeHash,
    data: Seq<u8>,
)
    requires
        data.len() == 64,
        data.take(32) == left@,
        data.skip(32) == right@,
    ensures
        Blake2bMerkleHasher::parent(left, right) == blake2b::blake2b_256(data),
{
    assert(left@ + right@ =~= data);
}

/// A store has 4294967296 slots, and its root is that of what they hold, with zeros for a slot
/// that is empty.
pub proof fn stores_hash_their_slots<Item, Leaf: LeafExtractor<Item>>(
    store: MerkleTree<Item, Leaf>,
    pad: NodeHash,
)
    requires
        store.well_formed(),
        pad@ == Seq::new(32, |k: int| 0u8),
    ensures
        MerkleTree::<Item, Leaf>::capacity() == 4_294_967_296,
        store.slots().len() == 4_294_967_296,
        store.root_of() == root_of_halves::<Leaf::Hasher>(
            store.slots().map_values(
                |slot: Option<NodeHash>|
                    match slot {
                        Some(leaf) => leaf,
                        None => pad,
                    },
            ),
        ),
{
    store.lemma_capacity();
    lemma2_to64();
    lemma2_to64_rest();
    let leaves = dynamic::slot_leaves(store.slots());
    roots_are_hashed_pair_by_pair::<Leaf::Hasher>(leaves, dynamic::TREE_HEIGHT as nat, pad);
    assert(hasher::empty_value()@ =~= pad@);
    assert(pad =~= hasher::empty_value());
    let hashed = store.slots().map_values(
        |slot: Option<NodeHash>|
            match slot {
                Some(leaf) => leaf,
                None => pad,
            },
    );
    assert(window(leaves, 0, pow2((dynamic::TREE_HEIGHT - 1) as nat), pad) =~= hashed);
}

/// The number of slots that are filled is the number of those that hold something.
pub proof fn filled_slots_are_counted(slots: Seq<Option<NodeHash>>)
    ensures
        dynamic::occupied(slots) == slots.fold_left(
            0int,
            |count: int, slot: Option<NodeHash>|
                if slot is Some {
                    count + 1
                } else {
                    count
                },
        ),
    decreases slots.len(),
{
    if slots.len() > 0 {
        filled_slots_are_counted(slots.drop_last());
    }
}

/// The first slot that is free is the lowest of those that hold nothing, and there is one only.
pub proof fn first_free_slot_is_the_lowest(
    slots: Seq<Option<NodeHash>>,
    position: int,
    other: int,
)
    requires
        dynamic::is_first_free(slots, position),
        0 <= other < slots.len(),
    ensures
        slots[position] is None,
        slots[other] is None ==> position <= other,
        dynamic::is_first_free(slots, other) ==> other == position,
{
    if other < position {
        assert(slots[other] is Some);
    }
}

} // verus!
