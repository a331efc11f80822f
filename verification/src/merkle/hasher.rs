//! Hashing backends of the Merkle structures, and the tree that they define.
use vstd::prelude::*;

verus! {

/// A node of a Merkle tree.
pub type NodeHash = [u8; 32];

/// Combines two nodes of a Merkle tree into their parent.
pub trait MerkleHasher {
    /// The parent of `left` and `right`.
    spec fn parent(left: NodeHash, right: NodeHash) -> NodeHash;

    /// Computes the parent of `left` and `right`.
    fn compress(left: &NodeHash, right: &NodeHash) -> (r: NodeHash)
        ensures
            r == Self::parent(*left, *right),
    ;
}

/// The leaf that stands for an absent element.
pub open spec fn empty_value() -> NodeHash {
    [
        0, 0, 0, 0, 0, 0, 0, 0, 0, 0, 0, 0, 0, 0, 0, 0,
        0, 0, 0, 0, 0, 0, 0, 0, 0, 0, 0, 0, 0, 0, 0, 0,
    ]
}

/// The leaf that stands for an absent element.
pub fn empty_leaf() -> (r: NodeHash)
    ensures
        r == empty_value(),
{
    [0u8; 32]
}

/// The root of a tree of `height` levels whose leaves are all absent. A leaf is
/// a tree of one level.
pub open spec fn empty_root<H: MerkleHasher>(height: nat) -> NodeHash
    decreases height,
{
    if height <= 1 {
        empty_value()
    } else {
        H::parent(empty_root::<H>((height - 1) as nat), empty_root::<H>((height - 1) as nat))
    }
}

/// Computes the root of a tree of `height` levels whose leaves are all absent.
pub fn empty_subtree_root<H: MerkleHasher>(height: u8) -> (r: NodeHash)
    requires
        height >= 1,
    ensures
        r == empty_root::<H>(height as nat),
{
    let mut root: NodeHash = empty_leaf();
    let mut reached: u8 = 1;
    while reached < height
        invariant
            1 <= reached <= height,
            root == empty_root::<H>(reached as nat),
        decreases height - reached,
    {
        root = H::compress(&root, &root);
        reached += 1;
    }
    root
}

/// The leaf at `index`, or the empty leaf past the end.
pub open spec fn leaf_at(leaves: Seq<NodeHash>, index: int) -> NodeHash {
    if 0 <= index < leaves.len() {
        leaves[index]
    } else {
        empty_value()
    }
}

/// The node number `index`, counted from the left, of the level at `height` in
/// the tree over `leaves` that empty leaves pad on the right. Leaves are at
/// height one.
pub open spec fn node<H: MerkleHasher>(leaves: Seq<NodeHash>, height: nat, index: int) -> NodeHash
    decreases height,
{
    if height <= 1 {
        leaf_at(leaves, index)
    } else {
        H::parent(
            node::<H>(leaves, (height - 1) as nat, 2 * index),
            node::<H>(leaves, (height - 1) as nat, 2 * index + 1),
        )
    }
}

/// The root of the tree of `height` levels over `leaves`.
pub open spec fn tree_root<H: MerkleHasher>(leaves: Seq<NodeHash>, height: nat) -> NodeHash {
    node::<H>(leaves, height, 0)
}

} // verus!
