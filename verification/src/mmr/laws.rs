//! What holds of ranges and paths across calls.
use vstd::prelude::*;

use crate::merkle::hasher;
use crate::merkle::hasher::{MerkleHasher, NodeHash};
use crate::merkle::shape;
use crate::mmr::model;
use crate::mmr::path;
use crate::mmr::path::MerklePath;
use crate::mmr::MerkleMountainRange;

verus! {

/// The root of a range that `leaves` were pushed to is the root of the tree of
/// `MAX_HEIGHT` levels over them, with empty leaves after the last one.
pub proof fn range_commits_to_its_leaves<H: MerkleHasher, const MAX_HEIGHT: u8>(
    mmr: MerkleMountainRange<H, MAX_HEIGHT>,
    leaves: Seq<NodeHash>,
)
    requires
        mmr.well_formed(),
        mmr.represents(leaves),
    ensures
        mmr.root() == hasher::tree_root::<H>(leaves, MAX_HEIGHT as nat),
{
    mmr.lemma_root(leaves);
}

/// The path of a leaf leads from that leaf to the root of the range.
pub proof fn path_leads_to_the_root<H: MerkleHasher, const MAX_HEIGHT: u8>(
    mmr: MerkleMountainRange<H, MAX_HEIGHT>,
    leaves: Seq<NodeHash>,
    path: MerklePath,
)
    requires
        mmr.well_formed(),
        mmr.represents(leaves),
        path.proves::<H>(leaves, MAX_HEIGHT as nat),
    ensures
        path.root_of::<H>(leaves[path.index() as int]) == mmr.root(),
{
    let index = path.index() as int;
    mmr.lemma_root(leaves);
    model::lemma_full(mmr.peaks(), MAX_HEIGHT as nat);
    shape::lemma_leaf_level(index);
    shape::lemma_root_covers(index, MAX_HEIGHT as nat);
    shape::lemma_climb::<H>(leaves, index, MAX_HEIGHT as nat, 1);
}

/// The node at `height` that a path leads to from `leaf`.
pub open spec fn reached<H: MerkleHasher>(
    index: int,
    siblings: Seq<NodeHash>,
    leaf: NodeHash,
    height: nat,
) -> NodeHash
    decreases height,
{
    if height <= 1 {
        leaf
    } else {
        let below = reached::<H>(index, siblings, leaf, (height - 1) as nat);
        if shape::ancestor(index, (height - 1) as nat) % 2 == 0 {
            H::parent(below, siblings[height - 2])
        } else {
            H::parent(siblings[height - 2], below)
        }
    }
}

/// The two nodes at `height` that a path combines on the way from `leaf`.
pub open spec fn combined<H: MerkleHasher>(
    index: int,
    siblings: Seq<NodeHash>,
    leaf: NodeHash,
    height: nat,
) -> (NodeHash, NodeHash) {
    let below = reached::<H>(index, siblings, leaf, height);
    if shape::ancestor(index, height) % 2 == 0 {
        (below, siblings[height - 1])
    } else {
        (siblings[height - 1], below)
    }
}

/// A path that leads from `leaf` to the root of a range is for that leaf: the range holds it
/// at the index of the path. Otherwise the path shows two pairs of nodes with the same parent.
pub proof fn forged_path_shows_a_collision<H: MerkleHasher, const MAX_HEIGHT: u8>(
    mmr: MerkleMountainRange<H, MAX_HEIGHT>,
    leaves: Seq<NodeHash>,
    path: MerklePath,
    leaf: NodeHash,
)
    requires
        mmr.well_formed(),
        mmr.represents(leaves),
        path.index() < mmr.leaf_count(),
        path.hashes().len() == MAX_HEIGHT - 1,
        path.root_of::<H>(leaf) == mmr.root(),
    ensures
        leaf == leaves[path.index() as int] || exists|height: nat|
            1 <= height < MAX_HEIGHT && shape::collide::<H>(
                #[trigger] combined::<H>(path.index() as int, path.hashes(), leaf, height),
                shape::children::<H>(
                    leaves,
                    height,
                    shape::ancestor(path.index() as int, height + 1),
                ),
            ),
{
    let index = path.index() as int;
    let high = MAX_HEIGHT as nat;
    mmr.lemma_root(leaves);
    model::lemma_full(mmr.peaks(), high);
    shape::lemma_root_covers(index, high);
    lemma_reached::<H>(index, path.hashes(), leaf, high);
    lemma_forged::<H>(leaves, index, path.hashes(), leaf, high);
}

/// The last node that a path leads to is its root.
proof fn lemma_reached<H: MerkleHasher>(
    index: int,
    siblings: Seq<NodeHash>,
    leaf: NodeHash,
    height: nat,
)
    requires
        1 <= height <= siblings.len() + 1,
    ensures
        shape::climb::<H>(
            index,
            siblings,
            reached::<H>(index, siblings, leaf, height),
            height,
        ) == shape::climb::<H>(index, siblings, leaf, 1),
    decreases height,
{
    if height > 1 {
        lemma_reached::<H>(index, siblings, leaf, (height - 1) as nat);
    }
}

/// Where a path leads to a node above its leaf, it started at the leaf, or some pair of
/// nodes below collides.
proof fn lemma_forged<H: MerkleHasher>(
    leaves: Seq<NodeHash>,
    index: int,
    siblings: Seq<NodeHash>,
    leaf: NodeHash,
    height: nat,
)
    requires
        height >= 1,
        0 <= index < leaves.len(),
        reached::<H>(index, siblings, leaf, height) == hasher::node::<H>(
            leaves,
            height,
            shape::ancestor(index, height),
        ),
    ensures
        leaf == leaves[index] || exists|k: nat|
            1 <= k < height && shape::collide::<H>(
                #[trigger] combined::<H>(index, siblings, leaf, k),
                shape::children::<H>(leaves, k, shape::ancestor(index, k + 1)),
            ),
    decreases height,
{
    if height == 1 {
        shape::lemma_leaf_level(index);
    } else {
        let below = (height - 1) as nat;
        shape::lemma_ancestor_step(index, below);
        let pair = combined::<H>(index, siblings, leaf, below);
        let expected = shape::children::<H>(leaves, below, shape::ancestor(index, height));
        if pair == expected {
            assert(reached::<H>(index, siblings, leaf, below) == hasher::node::<H>(
                leaves,
                below,
                shape::ancestor(index, below),
            ));
            lemma_forged::<H>(leaves, index, siblings, leaf, below);
        } else {
            assert(shape::collide::<H>(pair, expected));
        }
    }
}

/// The path that pushing `elem` returns leads from `elem` to the root of the longer
/// range, whatever was pushed before.
pub proof fn new_path_leads_to_the_new_root<H: MerkleHasher, const MAX_HEIGHT: u8>(
    before: MerkleMountainRange<H, MAX_HEIGHT>,
    after: MerkleMountainRange<H, MAX_HEIGHT>,
    elem: NodeHash,
    path: MerklePath,
)
    requires
        before.well_formed(),
        before.leaf_count() < before.max_leaves(),
        after.peaks() == before.peaks_with(elem),
        path.index() == before.leaf_count(),
        path.hashes() == model::frontier_siblings::<H>(before.peaks(), 1, MAX_HEIGHT as nat),
    ensures
        path.root_of::<H>(elem) == after.root(),
{
    let index = path.index() as int;
    before.lemma_push(after, elem);
    model::lemma_full(before.peaks(), MAX_HEIGHT as nat);
    shape::lemma_leaf_level(index);
    model::lemma_frontier_siblings_len::<H>(before.peaks(), 1, MAX_HEIGHT as nat);
    assert(path.hashes().skip(0) =~= path.hashes());
    model::lemma_climb_frontier::<H>(
        index,
        path.hashes(),
        before.peaks(),
        elem,
        1,
        (MAX_HEIGHT - 1) as nat,
    );
}

/// The path that pushing `elem` returns is the path of the new leaf.
pub proof fn new_path_proves_the_new_leaf<H: MerkleHasher, const MAX_HEIGHT: u8>(
    before: MerkleMountainRange<H, MAX_HEIGHT>,
    leaves: Seq<NodeHash>,
    elem: NodeHash,
    path: MerklePath,
)
    requires
        before.well_formed(),
        before.leaf_count() < before.max_leaves(),
        before.represents(leaves),
        path.index() == before.leaf_count(),
        path.hashes() == model::frontier_siblings::<H>(before.peaks(), 1, MAX_HEIGHT as nat),
    ensures
        path.proves::<H>(leaves.push(elem), MAX_HEIGHT as nat),
{
    let high = MAX_HEIGHT as nat;
    let index = path.index() as int;
    let more = leaves.push(elem);
    model::lemma_full(before.peaks(), high);
    shape::lemma_leaf_level(index);
    assert(more.take(leaves.len() as int) =~= leaves);
    model::lemma_peaks_keep::<H>(before.peaks(), leaves, more, (high - 1) as nat);
    assert((shape::ancestor(index, 1) + 1) * shape::width(1) == index + 1) by (nonlinear_arith)
        requires
            shape::width(1) == 1,
            shape::ancestor(index, 1) == index,
    ;
    model::lemma_frontier_siblings::<H>(
        before.peaks(),
        more,
        index,
        1,
        high,
        (high - 1) as nat,
    );
    let siblings = shape::siblings_of::<H>(more, index, high);
    let found = model::frontier_siblings::<H>(before.peaks(), 1, high);
    assert forall|i: int| 0 <= i < found.len() implies found[i] == siblings[i] by {
        let k = (i + 1) as nat;
        assert(found[k - 1] == siblings[i]);
    }
    assert(found =~= siblings);
}

/// A path that is kept up to date while `elem` is pushed stays the path of its leaf.
pub proof fn tracked_path_stays_a_proof<H: MerkleHasher, const MAX_HEIGHT: u8>(
    mmr: MerkleMountainRange<H, MAX_HEIGHT>,
    leaves: Seq<NodeHash>,
    elem: NodeHash,
    before: MerklePath,
    after: MerklePath,
)
    requires
        mmr.well_formed(),
        mmr.leaf_count() < mmr.max_leaves(),
        mmr.represents(leaves),
        before.proves::<H>(leaves, MAX_HEIGHT as nat),
        path::kept_up(
            before,
            after,
            mmr.leaf_count() as int,
            1,
            MAX_HEIGHT as nat,
            |k: nat| mmr.grown(elem, k),
        ),
    ensures
        after.proves::<H>(leaves.push(elem), MAX_HEIGHT as nat),
{
    let high = MAX_HEIGHT as nat;
    let new = leaves.len() as int;
    let index = before.index() as int;
    let more = leaves.push(elem);
    model::lemma_full(mmr.peaks(), high);
    let height = lemma_siblings_somewhere(new, index, high);
    model::lemma_siblings_after_push::<H>(leaves, elem, index, high, height);
    shape::lemma_leaf_level(new);
    assert(more.take(new) =~= leaves);
    model::lemma_peaks_keep::<H>(mmr.peaks(), leaves, more, (high - 1) as nat);
    assert((shape::ancestor(new, 1) + 1) * shape::width(1) == new + 1) by (nonlinear_arith)
        requires
            shape::width(1) == 1,
            shape::ancestor(new, 1) == new,
    ;
    model::lemma_grow::<H>(mmr.peaks(), more, elem, new, 1, height, (high - 1) as nat);
    let expected = shape::siblings_of::<H>(more, index, high);
    assert forall|i: int| 0 <= i < expected.len() implies after.hashes()[i] == expected[i] by {
        let k = (i + 1) as nat;
        assert(after.hashes()[k - 1] == after.hashes()[i]);
        if shape::siblings_at(new, index, k) {
            shape::lemma_sibling_height_unique(new, index, k, height);
        }
    }
    assert(after.hashes() =~= expected);
}

/// Two different leaves of a tree are siblings at some height below its root.
pub proof fn lemma_siblings_somewhere(a: int, b: int, max_height: nat) -> (height: nat)
    requires
        a != b,
        0 <= a < shape::width(max_height),
        0 <= b < shape::width(max_height),
        max_height >= 1,
    ensures
        1 <= height < max_height,
        shape::siblings_at(a, b, height),
{
    shape::lemma_root_covers(a, max_height);
    shape::lemma_root_covers(b, max_height);
    lemma_siblings_below(a, b, max_height)
}

/// Two different leaves under one node are siblings at some height below it.
proof fn lemma_siblings_below(a: int, b: int, shared: nat) -> (height: nat)
    requires
        a != b,
        a >= 0,
        b >= 0,
        shared >= 1,
        shape::ancestor(a, shared) == shape::ancestor(b, shared),
    ensures
        1 <= height < shared,
        shape::siblings_at(a, b, height),
    decreases shared,
{
    if shared == 1 {
        shape::lemma_leaf_level(a);
        shape::lemma_leaf_level(b);
        0
    } else {
        let below = (shared - 1) as nat;
        shape::lemma_ancestor_step(a, below);
        shape::lemma_ancestor_step(b, below);
        if shape::ancestor(a, below) == shape::ancestor(b, below) {
            lemma_siblings_below(a, b, below)
        } else {
            below
        }
    }
}

} // verus!
