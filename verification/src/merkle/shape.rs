//! The shape of a complete binary tree: where nodes, ancestors and siblings are.
use vstd::arithmetic::div_mod::*;
use vstd::arithmetic::mul::*;
use vstd::arithmetic::power2::*;
use vstd::prelude::*;

use crate::merkle::hasher;
use crate::merkle::hasher::{MerkleHasher, NodeHash};

verus! {

/// The number of leaves under a node at `height`.
pub open spec fn width(height: nat) -> nat {
    pow2((height - 1) as nat)
}

/// The index, at `height`, of the node above leaf `leaf`.
pub open spec fn ancestor(leaf: int, height: nat) -> int {
    leaf / width(height) as int
}

/// The index of the other child of the parent of node `index`.
pub open spec fn other_child(index: int) -> int {
    if index % 2 == 0 {
        index + 1
    } else {
        index - 1
    }
}

/// Whether leaves `a` and `b` are under the two children of one node at the
/// height above `height`.
pub open spec fn siblings_at(a: int, b: int, height: nat) -> bool {
    ancestor(a, height) == other_child(ancestor(b, height))
}

/// The siblings on the path from leaf `index` to the root of the tree of
/// `max_height` levels over `leaves`.
pub open spec fn siblings_of<H: MerkleHasher>(
    leaves: Seq<NodeHash>,
    index: int,
    max_height: nat,
) -> Seq<NodeHash> {
    Seq::new(
        (max_height - 1) as nat,
        |i: int| hasher::node::<H>(leaves, (i + 1) as nat, other_child(ancestor(index, (i + 1) as nat))),
    )
}

/// The node above the node `current` at `height` on the path of leaf `index`,
/// after all of `siblings` from that height on.
pub open spec fn climb<H: MerkleHasher>(
    index: int,
    siblings: Seq<NodeHash>,
    current: NodeHash,
    height: nat,
) -> NodeHash
    decreases siblings.len() + 1 - height,
{
    if height < 1 || height > siblings.len() {
        current
    } else if ancestor(index, height) % 2 == 0 {
        climb::<H>(index, siblings, H::parent(current, siblings[height - 1]), height + 1)
    } else {
        climb::<H>(index, siblings, H::parent(siblings[height - 1], current), height + 1)
    }
}

/// The two nodes at `height` under the node `index` one level up.
pub open spec fn children<H: MerkleHasher>(leaves: Seq<NodeHash>, height: nat, index: int) -> (
    NodeHash,
    NodeHash,
) {
    (
        hasher::node::<H>(leaves, height, 2 * index),
        hasher::node::<H>(leaves, height, 2 * index + 1),
    )
}

/// Whether `a` and `b` are different pairs of nodes with the same parent.
pub open spec fn collide<H: MerkleHasher>(a: (NodeHash, NodeHash), b: (NodeHash, NodeHash)) -> bool {
    a != b && H::parent(a.0, a.1) == H::parent(b.0, b.1)
}

pub proof fn lemma_width(height: nat)
    requires
        height >= 1,
    ensures
        width(height) > 0,
        width(height + 1) == 2 * width(height),
{
    lemma_pow2_pos((height - 1) as nat);
    lemma_pow2_unfold(height);
}

pub proof fn lemma_width_monotonic(low: nat, high: nat)
    requires
        1 <= low <= high,
    ensures
        width(low) <= width(high),
    decreases high - low,
{
    if low < high {
        lemma_width_monotonic(low, (high - 1) as nat);
        lemma_width((high - 1) as nat);
    }
}

/// A leaf is the node above itself at height one.
pub proof fn lemma_leaf_level(leaf: int)
    ensures
        width(1) == 1,
        ancestor(leaf, 1) == leaf,
        ancestor(leaf, 1) * width(1) == leaf,
{
    lemma2_to64();
    assert(leaf * width(1) == leaf) by (nonlinear_arith)
        requires
            width(1) == 1,
    ;
}

/// The parent of the node above a leaf is the node above that leaf, one level up.
pub proof fn lemma_ancestor_step(leaf: int, height: nat)
    requires
        leaf >= 0,
        height >= 1,
    ensures
        ancestor(leaf, height + 1) == ancestor(leaf, height) / 2,
        ancestor(leaf, height) >= 0,
{
    lemma_width(height);
    lemma_div_denominator(leaf, width(height) as int, 2);
    lemma_mul_is_commutative(width(height) as int, 2);
    lemma_div_pos_is_pos(leaf, width(height) as int);
}

/// A node that lies past the last leaf is the root of an empty tree.
pub proof fn lemma_node_empty<H: MerkleHasher>(leaves: Seq<NodeHash>, height: nat, index: int)
    requires
        height >= 1,
        index * width(height) >= leaves.len(),
    ensures
        hasher::node::<H>(leaves, height, index) == hasher::empty_root::<H>(height),
    decreases height,
{
    if height == 1 {
        lemma2_to64();
        assert(index * width(1) == index) by (nonlinear_arith)
            requires
                width(1) == 1,
        ;
    } else {
        let below = (height - 1) as nat;
        lemma_width(below);
        let w = width(below) as int;
        assert((2 * index) * w == index * (2 * w)) by (nonlinear_arith);
        assert((2 * index + 1) * w == index * (2 * w) + w) by (nonlinear_arith);
        lemma_node_empty::<H>(leaves, below, 2 * index);
        lemma_node_empty::<H>(leaves, below, 2 * index + 1);
    }
}

/// A node depends on the leaves under it alone.
pub proof fn lemma_node_agrees<H: MerkleHasher>(
    a: Seq<NodeHash>,
    b: Seq<NodeHash>,
    height: nat,
    index: int,
)
    requires
        height >= 1,
        forall|i: int|
            index * width(height) <= i < (index + 1) * width(height) ==> hasher::leaf_at(a, i)
                == hasher::leaf_at(b, i),
    ensures
        hasher::node::<H>(a, height, index) == hasher::node::<H>(b, height, index),
    decreases height,
{
    if height == 1 {
        lemma2_to64();
        assert(index * width(1) == index && (index + 1) * width(1) == index + 1)
            by (nonlinear_arith)
            requires
                width(1) == 1,
        ;
        assert(hasher::leaf_at(a, index) == hasher::leaf_at(b, index));
    } else {
        let below = (height - 1) as nat;
        lemma_width(below);
        let w = width(below) as int;
        assert((2 * index) * w == index * (2 * w)) by (nonlinear_arith);
        assert((2 * index + 1) * w == index * (2 * w) + w) by (nonlinear_arith);
        assert((2 * index + 2) * w == index * (2 * w) + 2 * w) by (nonlinear_arith);
        assert((index + 1) * (2 * w) == index * (2 * w) + 2 * w) by (nonlinear_arith);
        lemma_node_agrees::<H>(a, b, below, 2 * index);
        lemma_node_agrees::<H>(a, b, below, 2 * index + 1);
    }
}

/// Climbing along the siblings of a leaf reaches the nodes above it.
pub proof fn lemma_climb<H: MerkleHasher>(
    leaves: Seq<NodeHash>,
    index: int,
    max_height: nat,
    height: nat,
)
    requires
        index >= 0,
        1 <= height <= max_height,
    ensures
        climb::<H>(
            index,
            siblings_of::<H>(leaves, index, max_height),
            hasher::node::<H>(leaves, height, ancestor(index, height)),
            height,
        ) == hasher::node::<H>(leaves, max_height, ancestor(index, max_height)),
    decreases max_height - height,
{
    if height < max_height {
        lemma_ancestor_step(index, height);
        lemma_climb::<H>(leaves, index, max_height, height + 1);
    }
}

/// Two different leaves are siblings at one height at most.
pub proof fn lemma_sibling_height_unique(a: int, b: int, first: nat, second: nat)
    requires
        a >= 0,
        b >= 0,
        first >= 1,
        second >= 1,
        siblings_at(a, b, first),
        siblings_at(a, b, second),
    ensures
        first == second,
{
    if first < second {
        lemma_ancestor_step(a, first);
        lemma_ancestor_step(b, first);
        lemma_same_ancestor(a, b, first + 1, second);
    } else if second < first {
        lemma_ancestor_step(a, second);
        lemma_ancestor_step(b, second);
        lemma_same_ancestor(a, b, second + 1, first);
    }
}

/// Leaves that share an ancestor share every ancestor above it.
pub proof fn lemma_same_ancestor(a: int, b: int, low: nat, high: nat)
    requires
        a >= 0,
        b >= 0,
        1 <= low <= high,
        ancestor(a, low) == ancestor(b, low),
    ensures
        ancestor(a, high) == ancestor(b, high),
    decreases high - low,
{
    if low < high {
        lemma_same_ancestor(a, b, low, (high - 1) as nat);
        lemma_ancestor_step(a, (high - 1) as nat);
        lemma_ancestor_step(b, (high - 1) as nat);
    }
}

/// Every leaf of a tree is under its root.
pub proof fn lemma_root_covers(index: int, max_height: nat)
    requires
        0 <= index < width(max_height),
    ensures
        ancestor(index, max_height) == 0,
{
    lemma_basic_div(index, width(max_height) as int);
}

} // verus!
