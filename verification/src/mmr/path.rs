//! Inclusion proofs for the leaves of a Merkle Mountain Range.
use vstd::arithmetic::div_mod::*;
use vstd::bits::*;
use vstd::prelude::*;
use vstd::std_specs::bits::*;

use crate::bytes::same_bytes;
use crate::collections::stack::Stack;
use crate::merkle::hasher::{empty_subtree_root, MerkleHasher, NodeHash};
use crate::merkle::shape;
use crate::mmr::model;
use crate::mmr::Root;

verus! {

/// Largest supported height of a range, with its leaves at height one.
pub const ACCEPTABLE_MAX_HEIGHT: u8 = 33;

/// Largest number of sibling hashes in a path of any supported range.
pub const MAX_MERKLE_PATH_SIBLINGS: usize = 32;

/// A collection that does not keep to its bound.
#[derive(Clone, Copy, Debug, PartialEq, Eq, Structural)]
pub enum BoundedError {
    /// There are more items than the bound admits.
    TooManyItems { max: usize, actual: usize },
}

/// A malformed or incompatible path.
#[derive(Clone, Copy, Debug, PartialEq, Eq, Structural)]
pub enum MerklePathError {
    /// The path has more siblings than a path of any supported range.
    SiblingCountOutOfBounds(BoundedError),
    /// The path does not have the siblings that the height of the range asks for.
    InvalidSiblingCount { expected: usize, actual: usize },
    /// The path is for a leaf that the range does not have.
    LeafIndexOutOfRange { leaf_index: usize, leaf_count: usize },
}

/// An inclusion proof for a leaf of a range.
///
/// It holds the sibling hashes on the way from the leaf to the root. The root can
/// be computed again from the hash of the leaf.
///
/// Paths are made by [`crate::mmr::MerkleMountainRange::push_with_paths`], and
/// kept up to date by handing them to later calls of it.
#[derive(Clone, Debug, PartialEq, Eq)]
pub struct MerklePath {
    /// The position of the leaf, from zero.
    leaf_index: usize,
    /// The sibling hashes, from height one upward.
    siblings: Vec<NodeHash>,
}

impl MerklePath {
    /// The position of the leaf.
    pub closed spec fn index(&self) -> nat {
        self.leaf_index as nat
    }

    /// The sibling hashes, from height one upward.
    pub closed spec fn hashes(&self) -> Seq<NodeHash> {
        self.siblings@
    }

    /// Whether the path has no more siblings than a path can have.
    pub open spec fn well_formed(&self) -> bool {
        self.hashes().len() <= MAX_MERKLE_PATH_SIBLINGS
    }

    /// The root that the path leads to from `leaf`.
    pub open spec fn root_of<H: MerkleHasher>(&self, leaf: NodeHash) -> NodeHash {
        shape::climb::<H>(self.index() as int, self.hashes(), leaf, 1)
    }

    /// Whether this is the path of its leaf in the tree of `max_height` levels over
    /// `leaves`.
    pub open spec fn proves<H: MerkleHasher>(
        &self,
        leaves: Seq<NodeHash>,
        max_height: nat,
    ) -> bool {
        &&& self.index() < leaves.len()
        &&& self.hashes() == shape::siblings_of::<H>(leaves, self.index() as int, max_height)
    }

    /// Makes a path, unless it has too many siblings for any supported range.
    pub fn try_new(leaf_index: usize, siblings: Vec<NodeHash>) -> (r: Result<
        Self,
        MerklePathError,
    >)
        ensures
            siblings@.len() <= MAX_MERKLE_PATH_SIBLINGS ==> r is Ok,
            siblings@.len() > MAX_MERKLE_PATH_SIBLINGS ==> r == Err::<Self, _>(
                MerklePathError::SiblingCountOutOfBounds(
                    BoundedError::TooManyItems {
                        max: MAX_MERKLE_PATH_SIBLINGS,
                        actual: siblings@.len() as usize,
                    },
                ),
            ),
            r matches Ok(path) ==> path.well_formed() && path.index() == leaf_index
                && path.hashes() == siblings@,
    {
        if siblings.len() > MAX_MERKLE_PATH_SIBLINGS {
            return Err(
                MerklePathError::SiblingCountOutOfBounds(
                    BoundedError::TooManyItems {
                        max: MAX_MERKLE_PATH_SIBLINGS,
                        actual: siblings.len(),
                    },
                ),
            );
        }
        Ok(MerklePath { leaf_index, siblings })
    }

    /// Checks that the path has the siblings that a range of `max_height` levels
    /// asks for.
    pub fn validate_for_height(&self, max_height: u8) -> (r: Result<(), MerklePathError>)
        requires
            1 <= max_height <= ACCEPTABLE_MAX_HEIGHT,
        ensures
            self.hashes().len() == max_height - 1 ==> r is Ok,
            self.hashes().len() != max_height - 1 ==> r == Err::<(), _>(
                MerklePathError::InvalidSiblingCount {
                    expected: (max_height - 1) as usize,
                    actual: self.hashes().len() as usize,
                },
            ),
    {
        let expected: usize = (max_height - 1) as usize;
        let actual: usize = self.siblings.len();
        if actual != expected {
            return Err(MerklePathError::InvalidSiblingCount { expected, actual });
        }
        Ok(())
    }

    /// Checks that the path is for one of `leaf_count` leaves.
    pub fn validate_leaf_index(&self, leaf_count: usize) -> (r: Result<(), MerklePathError>)
        ensures
            self.index() < leaf_count ==> r is Ok,
            self.index() >= leaf_count ==> r == Err::<(), _>(
                MerklePathError::LeafIndexOutOfRange {
                    leaf_index: self.index() as usize,
                    leaf_count,
                },
            ),
    {
        if self.leaf_index >= leaf_count {
            return Err(
                MerklePathError::LeafIndexOutOfRange { leaf_index: self.leaf_index, leaf_count },
            );
        }
        Ok(())
    }

    /// Computes the root that the path leads to from `leaf`.
    pub fn root<H: MerkleHasher>(&self, leaf: NodeHash) -> (r: NodeHash)
        requires
            self.well_formed(),
        ensures
            r == self.root_of::<H>(leaf),
    {
        let mut current: NodeHash = leaf;
        let mut h: usize = 0;
        while h < self.siblings.len()
            invariant
                self.well_formed(),
                0 <= h <= self.siblings@.len(),
                shape::climb::<H>(self.index() as int, self.hashes(), current, (h + 1) as nat)
                    == self.root_of::<H>(leaf),
            decreases self.siblings@.len() - h,
        {
            let sibling: NodeHash = self.siblings[h];
            let height: usize = h + 1;
            if is_left_child(self.leaf_index, height) {
                current = H::compress(&current, &sibling);
            } else {
                current = H::compress(&sibling, &current);
            }
            h += 1;
        }
        current
    }

    /// Checks that `leaf` is included under `expected_root`.
    pub fn verify<H: MerkleHasher>(&self, leaf: NodeHash, expected_root: NodeHash) -> (r: bool)
        requires
            self.well_formed(),
        ensures
            r == (self.root_of::<H>(leaf) == expected_root),
    {
        let root: NodeHash = self.root::<H>(leaf);
        same_bytes(&root, &expected_root)
    }

    /// The position of the leaf, from zero.
    pub fn leaf_index(&self) -> (r: usize)
        ensures
            r == self.index(),
    {
        self.leaf_index
    }

    /// The sibling hashes, from height one upward.
    pub fn siblings(&self) -> (r: &[NodeHash])
        ensures
            r@ == self.hashes(),
    {
        self.siblings.as_slice()
    }

    /// Replaces the sibling hash at `height`.
    fn set_sibling(&mut self, height: usize, sibling: NodeHash)
        requires
            1 <= height <= old(self).hashes().len(),
        ensures
            final(self).index() == old(self).index(),
            final(self).hashes() == old(self).hashes().update(height - 1, sibling),
    {
        self.siblings[height - 1] = sibling;
    }
}

/// What becomes of the siblings of leaf `index` when a new leaf comes in: at each
/// height from `low` up to below `high`, the sibling that the new leaf is under is
/// replaced by `grown` at that height.
pub open spec fn kept_up(
    before: MerklePath,
    after: MerklePath,
    new_index: int,
    low: nat,
    high: nat,
    grown: spec_fn(nat) -> NodeHash,
) -> bool {
    &&& after.index() == before.index()
    &&& after.hashes().len() == before.hashes().len()
    &&& forall|k: nat|
        1 <= k <= before.hashes().len() ==> #[trigger] after.hashes()[k - 1] == (if low <= k < high
            && shape::siblings_at(new_index, before.index() as int, k) {
            grown(k)
        } else {
            before.hashes()[k - 1]
        })
}

/// Updates paths at a merge of two complete trees of the same height.
///
/// `right` holds the new leaf, and `left` is the peak before it. At this height
/// `right` is the sibling of every tracked leaf on the left side, and `left` is the
/// sibling of the new leaf.
pub fn update_paths_at_merge(
    right: Root,
    left: Root,
    paths: &mut [MerklePath],
    new_path: &mut MerklePath,
)
    requires
        left.height == right.height,
        1 <= right.height <= usize::BITS,
        right.height <= old(new_path).hashes().len(),
        forall|i: int|
            0 <= i < old(paths)@.len() ==> right.height <= (#[trigger] old(
                paths,
            )@[i]).hashes().len(),
    ensures
        final(paths)@.len() == old(paths)@.len(),
        forall|i: int|
            0 <= i < old(paths)@.len() ==> kept_up(
                old(paths)@[i],
                #[trigger] final(paths)@[i],
                old(new_path).index() as int,
                right.height as nat,
                right.height as nat + 1,
                |k: nat| right.root,
            ),
        final(new_path).index() == old(new_path).index(),
        final(new_path).hashes() == old(new_path).hashes().update(right.height - 1, left.root),
{
    let height: usize = right.height as usize;
    let mut i: usize = 0;
    while i < paths.len()
        invariant
            height == right.height,
            1 <= height <= usize::BITS,
            0 <= i <= paths@.len(),
            paths@.len() == old(paths)@.len(),
            *new_path == *old(new_path),
            forall|j: int| i <= j < paths@.len() ==> paths@[j] == old(paths)@[j],
            forall|j: int|
                0 <= j < old(paths)@.len() ==> height <= (#[trigger] old(
                    paths,
                )@[j]).hashes().len(),
            forall|j: int|
                0 <= j < i ==> kept_up(
                    old(paths)@[j],
                    #[trigger] paths@[j],
                    new_path.index() as int,
                    height as nat,
                    height as nat + 1,
                    |k: nat| right.root,
                ),
        decreases paths@.len() - i,
    {
        assert(height <= old(paths)@[i as int].hashes().len());
        if are_siblings_at(new_path.leaf_index, paths[i].leaf_index, height) {
            paths[i].set_sibling(height, right.root);
        }
        i += 1;
    }
    new_path.set_sibling(height, left.root);
}

/// Updates paths at the heights above the last merge.
///
/// The subtree of the new leaf may still be a sibling of tracked leaves there. This
/// walks upward, and combines the growing subtree with the remaining peaks on its
/// left, or with empty subtrees on its right.
pub fn update_paths_above_merge<H: MerkleHasher, const MAX_HEIGHT: u8>(
    merged_root: Root,
    remaining_peaks: Stack<Root>,
    paths: &mut [MerklePath],
    new_path: &mut MerklePath,
)
    requires
        1 <= merged_root.height <= MAX_HEIGHT <= ACCEPTABLE_MAX_HEIGHT,
        MAX_HEIGHT <= usize::BITS,
        model::descending(remaining_peaks@, merged_root.height as nat, (MAX_HEIGHT - 1) as nat),
        model::leaf_count(remaining_peaks@) == shape::ancestor(
            old(new_path).index() as int,
            merged_root.height as nat,
        ) * shape::width(merged_root.height as nat),
        old(new_path).hashes().len() == MAX_HEIGHT - 1,
        forall|i: int|
            0 <= i < old(paths)@.len() ==> (#[trigger] old(paths)@[i]).hashes().len() == MAX_HEIGHT
                - 1 && old(paths)@[i].index() != old(new_path).index(),
    ensures
        final(paths)@.len() == old(paths)@.len(),
        forall|i: int|
            0 <= i < old(paths)@.len() ==> kept_up(
                old(paths)@[i],
                #[trigger] final(paths)@[i],
                old(new_path).index() as int,
                merged_root.height as nat,
                MAX_HEIGHT as nat,
                |k: nat|
                    model::grow::<H>(
                        remaining_peaks@,
                        merged_root.root,
                        merged_root.height as nat,
                        k,
                    ),
            ),
        final(new_path).index() == old(new_path).index(),
        final(new_path).hashes() == old(new_path).hashes().take(merged_root.height - 1)
            + model::frontier_siblings::<H>(
            remaining_peaks@,
            merged_root.height as nat,
            MAX_HEIGHT as nat,
        ),
{
    let ghost peaks = remaining_peaks@;
    let ghost low = merged_root.height as nat;
    let ghost high = MAX_HEIGHT as nat;
    let ghost index = new_path.index() as int;
    let ghost before = new_path.hashes();
    let merged_height: usize = merged_root.height as usize;
    let max_height: usize = MAX_HEIGHT as usize;
    let mut remaining: Stack<Root> = remaining_peaks;
    let mut subtree_hash: NodeHash = merged_root.root;
    let mut hashes: Vec<NodeHash> = Vec::new();
    let mut height: usize = merged_height;
    assert(before =~= before.take(low - 1) + before.skip(low - 1));
    proof {
        model::lemma_frontier_siblings_len::<H>(peaks, low, high);
    }
    while height < max_height
        invariant
            merged_height == low,
            max_height == high == MAX_HEIGHT,
            1 <= low <= height <= high <= ACCEPTABLE_MAX_HEIGHT,
            MAX_HEIGHT <= usize::BITS,
            index == new_path.index() >= 0,
            index == old(new_path).index(),
            before == old(new_path).hashes(),
            before.len() == high - 1,
            model::descending(remaining@, height as nat, (high - 1) as nat),
            model::leaf_count(remaining@) == shape::ancestor(index, height as nat) * shape::width(
                height as nat,
            ),
            hashes@.len() == height - low,
            forall|k: nat|
                low <= k < height ==> #[trigger] hashes@[k - low] == model::grow::<H>(
                    peaks,
                    merged_root.root,
                    low,
                    k,
                ),
            forall|t: nat|
                t >= height ==> #[trigger] model::grow::<H>(peaks, merged_root.root, low, t)
                    == model::grow::<H>(remaining@, subtree_hash, height as nat, t),
            model::frontier_siblings::<H>(peaks, low, high).len() == high - low,
            model::frontier_siblings::<H>(peaks, low, high).skip(height - low)
                == model::frontier_siblings::<H>(remaining@, height as nat, high),
            new_path.hashes() == before.take(low - 1) + model::frontier_siblings::<H>(
                peaks,
                low,
                high,
            ).take(height - low) + before.skip(height - 1),
        decreases max_height - height,
    {
        let ghost all = model::frontier_siblings::<H>(peaks, low, high);
        let ghost here = remaining@;
        let ghost rest = all.skip(height - low);
        proof {
            shape::lemma_ancestor_step(index, height as nat);
            model::lemma_top_peak(
                here,
                height as nat,
                (high - 1) as nat,
                shape::ancestor(index, height as nat),
            );
            assert(model::grow::<H>(peaks, merged_root.root, low, height as nat) == subtree_hash);
            assert(rest[0] == all[height - low]);
            assert(all.skip(height + 1 - low) =~= rest.skip(1));
        }
        hashes.push(subtree_hash);
        if is_left_child(new_path.leaf_index, height) {
            let empty: NodeHash = empty_subtree_root::<H>(height as u8);
            new_path.set_sibling(height, empty);
            subtree_hash = H::compress(&subtree_hash, &empty);
            assert(rest.skip(1) =~= model::frontier_siblings::<H>(here, (height + 1) as nat, high));
        } else {
            let left: Root = match remaining.peek() {
                Some(left) => *left,
                None => {
                    assert(false);
                    merged_root
                },
            };
            remaining.pop_mut();
            new_path.set_sibling(height, left.root);
            subtree_hash = H::compress(&left.root, &subtree_hash);
            assert(rest.skip(1) =~= model::frontier_siblings::<H>(
                here.drop_last(),
                (height + 1) as nat,
                high,
            ));
        }
        assert(new_path.hashes() =~= before.take(low - 1) + all.take(height + 1 - low)
            + before.skip(height as int));
        height += 1;
    }
    assert(new_path.hashes() =~= before.take(low - 1) + model::frontier_siblings::<H>(
        peaks,
        low,
        high,
    ));
    let ghost grown = |k: nat| model::grow::<H>(peaks, merged_root.root, low, k);
    let mut i: usize = 0;
    while i < paths.len()
        invariant
            merged_height == low,
            max_height == high == MAX_HEIGHT,
            1 <= low <= high <= ACCEPTABLE_MAX_HEIGHT,
            index == new_path.index() >= 0,
            0 <= i <= paths@.len(),
            paths@.len() == old(paths)@.len(),
            hashes@.len() == high - low,
            grown == (|k: nat| model::grow::<H>(peaks, merged_root.root, low, k)),
            forall|k: nat| low <= k < high ==> #[trigger] hashes@[k - low] == grown(k),
            forall|j: int| i <= j < paths@.len() ==> paths@[j] == old(paths)@[j],
            forall|j: int|
                0 <= j < old(paths)@.len() ==> (#[trigger] old(paths)@[j]).hashes().len() == high
                    - 1 && old(paths)@[j].index() != index,
            forall|j: int|
                0 <= j < i ==> kept_up(
                    old(paths)@[j],
                    #[trigger] paths@[j],
                    index,
                    low,
                    high,
                    grown,
                ),
        decreases paths@.len() - i,
    {
        let ghost path = old(paths)@[i as int];
        assert(path.hashes().len() == high - 1);
        let h: usize = sibling_height(new_path.leaf_index, paths[i].leaf_index);
        proof {
            assert forall|k: nat| k >= 1 && shape::siblings_at(index, path.index() as int, k) implies k
                == h by {
                shape::lemma_sibling_height_unique(index, path.index() as int, k, h as nat);
            }
        }
        if merged_height <= h && h < max_height {
            assert(hashes@[h - low] == grown(h as nat));
            paths[i].set_sibling(h, hashes[h - merged_height]);
        }
        i += 1;
    }
}

/// Whether `leaf` sits in the left subtree at the given `height`.
pub fn is_left_child(leaf: usize, height: usize) -> (r: bool)
    requires
        1 <= height <= usize::BITS,
    ensures
        r == (shape::ancestor(leaf as int, height as nat) % 2 == 0),
{
    let shift: usize = height - 1;
    proof {
        lemma_usize_shr_is_div(leaf, shift);
        let node = leaf >> shift;
        assert(node & 1 == node % 2) by (bit_vector);
    }
    (leaf >> shift) & 1 == 0
}

/// Whether leaves `a` and `b` belong to sibling subtrees at the given `height`: they
/// share an ancestor one level up, and are in different subtrees at `height`.
pub fn are_siblings_at(a: usize, b: usize, height: usize) -> (r: bool)
    requires
        1 <= height <= usize::BITS,
    ensures
        r == shape::siblings_at(a as int, b as int, height as nat),
{
    let shift: usize = height - 1;
    proof {
        lemma_usize_shr_is_div(a, shift);
        lemma_usize_shr_is_div(b, shift);
        let node = b >> shift;
        assert(node % 2 == 0 ==> node ^ 1 == node + 1) by (bit_vector);
        assert(node % 2 == 1 ==> node ^ 1 == node - 1) by (bit_vector);
    }
    (a >> shift) == (b >> shift) ^ 1
}

/// The one height at which leaves `a` and `b` are siblings, or zero for the same
/// leaf.
pub fn sibling_height(a: usize, b: usize) -> (r: usize)
    ensures
        a == b ==> r == 0,
        a != b ==> 1 <= r <= 64 && shape::siblings_at(a as int, b as int, r as nat),
{
    let difference: u64 = (a ^ b) as u64;
    let zeros: u32 = difference.leading_zeros();
    proof {
        let x = a as u64;
        let y = b as u64;
        assert(difference == x ^ y) by {
            assert((a ^ b) as u64 == (a as u64) ^ (b as u64)) by (bit_vector);
        }
        axiom_u64_leading_zeros(difference);
        if a == b {
            assert(x ^ x == 0) by (bit_vector);
        } else {
            assert(x != y ==> x ^ y != 0) by (bit_vector);
            let shift = (63 - zeros) as u64;
            assert(difference >> shift == 1) by {
                assert((difference >> shift) & 1 != 0 && difference >> ((shift + 1) as u64) == 0
                    ==> difference >> shift == 1) by (bit_vector)
                    requires
                        shift <= 63,
                ;
            }
            assert((x ^ y) >> shift == 1 ==> (x >> shift) == (y >> shift) ^ 1) by (bit_vector);
            lemma_u64_shr_is_div(x, shift);
            lemma_u64_shr_is_div(y, shift);
            let node = y >> shift;
            assert(node % 2 == 0 ==> node ^ 1 == node + 1) by (bit_vector);
            assert(node % 2 == 1 ==> node ^ 1 == node - 1) by (bit_vector);
        }
    }
    (64 - zeros) as usize
}

} // verus!
