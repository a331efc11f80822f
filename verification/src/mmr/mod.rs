//! An append-only Merkle Mountain Range, and inclusion proofs for its leaves.
pub mod laws;
pub mod model;
pub mod path;
pub mod push_laws;

use vstd::bits::*;
use vstd::prelude::*;
use vstd::std_specs::cmp::PartialEqSpecImpl;

use crate::bytes::same_bytes;
use crate::collections::stack::Stack;
use crate::merkle::hasher;
use crate::merkle::hasher::{empty_subtree_root, MerkleHasher, NodeHash};
use crate::merkle::shape;
use crate::mmr::path::{
    update_paths_above_merge, update_paths_at_merge, MerklePath, MerklePathError,
    ACCEPTABLE_MAX_HEIGHT,
};

verus! {

/// A complete tree of `height` levels with the given root.
#[derive(Clone, Copy, Debug, PartialEq, Eq)]
pub struct Root {
    pub root: NodeHash,
    pub height: u8,
}

/// A height that no range can have.
#[derive(Clone, Copy, Debug, PartialEq, Eq, Structural)]
pub struct UnsupportedMmrHeight {
    pub actual: u8,
    pub maximum: u8,
}

/// The range cannot accept another leaf.
#[derive(Clone, Copy, Debug, PartialEq, Eq, Structural)]
pub struct MmrFull;

/// Failure while appending a leaf and updating paths.
#[derive(Clone, Copy, Debug, PartialEq, Eq, Structural)]
pub enum PushWithPathsError {
    /// The range cannot accept another leaf.
    MmrFull(MmrFull),
    /// A path that was handed in does not fit the range.
    InvalidTrackedPath(MerklePathError),
}

/// Checks that a range can have `max_height` levels.
pub fn validate_supported_max_height(max_height: u8) -> (r: Result<(), UnsupportedMmrHeight>)
    ensures
        1 <= max_height <= ACCEPTABLE_MAX_HEIGHT ==> r is Ok,
        !(1 <= max_height <= ACCEPTABLE_MAX_HEIGHT) ==> r == Err::<(), _>(
            UnsupportedMmrHeight { actual: max_height, maximum: ACCEPTABLE_MAX_HEIGHT },
        ),
{
    if !(1 <= max_height && max_height <= ACCEPTABLE_MAX_HEIGHT) {
        return Err(
            UnsupportedMmrHeight { actual: max_height, maximum: ACCEPTABLE_MAX_HEIGHT },
        );
    }
    Ok(())
}

/// Whether a range can have `max_height` levels, and a `usize` can count the leaves
/// of it.
pub open spec fn supported(max_height: u8) -> bool {
    1 <= max_height <= ACCEPTABLE_MAX_HEIGHT && max_height <= usize::BITS
}

/// Why `paths` cannot be kept up to date by a range of `max_height` levels that has
/// `leaf_count` leaves: what is wrong with the first one that does not fit, from
/// position `from` on.
pub open spec fn path_mismatch(
    paths: Seq<MerklePath>,
    max_height: u8,
    leaf_count: nat,
    from: nat,
) -> Option<MerklePathError>
    decreases paths.len() - from,
{
    if from >= paths.len() {
        None
    } else if paths[from as int].hashes().len() != max_height - 1 {
        Some(
            MerklePathError::InvalidSiblingCount {
                expected: (max_height - 1) as usize,
                actual: paths[from as int].hashes().len() as usize,
            },
        )
    } else if paths[from as int].index() >= leaf_count {
        Some(
            MerklePathError::LeafIndexOutOfRange {
                leaf_index: paths[from as int].index() as usize,
                leaf_count: leaf_count as usize,
            },
        )
    } else {
        path_mismatch(paths, max_height, leaf_count, from + 1)
    }
}

/// An append-only persistent Merkle Mountain Range, which accepts up to
/// 2^(`MAX_HEIGHT`-1) leaves.
///
/// It does not store leaves, but only the roots of the complete trees that the
/// leaves make up: O(log n) nodes for n leaves. The root on top of the stack is
/// that of the smallest tree, which holds the last leaf.
#[verifier::reject_recursive_types(H)]
pub struct MerkleMountainRange<H, const MAX_HEIGHT: u8> {
    roots: Stack<Root>,
    hasher: std::marker::PhantomData<H>,
}

impl<H: MerkleHasher, const MAX_HEIGHT: u8> MerkleMountainRange<H, MAX_HEIGHT> {
    /// The roots of the complete trees, from the largest to the smallest.
    pub closed spec fn peaks(&self) -> Seq<Root> {
        self.roots@
    }

    /// Whether the height is supported, and the peaks are those of such a range.
    pub open spec fn well_formed(&self) -> bool {
        &&& supported(MAX_HEIGHT)
        &&& model::well_formed(self.peaks(), MAX_HEIGHT as nat)
    }

    /// The number of leaves.
    pub open spec fn leaf_count(&self) -> nat {
        model::leaf_count(self.peaks())
    }

    /// The largest number of leaves.
    pub open spec fn max_leaves(&self) -> nat {
        shape::width(MAX_HEIGHT as nat)
    }

    /// Whether pushing `leaves`, one by one, leads to this range.
    pub open spec fn represents(&self, leaves: Seq<NodeHash>) -> bool {
        model::represents::<H>(self.peaks(), leaves)
    }

    /// The root of the whole tree, with empty leaves after the last one.
    pub open spec fn root(&self) -> NodeHash {
        model::frontier::<H>(self.peaks(), MAX_HEIGHT as nat)
    }

    /// The peaks after `elem` is pushed.
    pub open spec fn peaks_with(&self, elem: NodeHash) -> Seq<Root> {
        model::merge::<H>(self.peaks(), Root { root: elem, height: 1 })
    }

    /// The node at `height` above `elem` after it is pushed.
    pub open spec fn grown(&self, elem: NodeHash, height: nat) -> NodeHash {
        model::grow::<H>(self.peaks(), elem, 1, height)
    }

    /// Makes a range without leaves.
    pub fn new() -> (r: Self)
        requires
            supported(MAX_HEIGHT),
        ensures
            r.well_formed(),
            r.peaks() == Seq::<Root>::empty(),
            r.represents(Seq::empty()),
    {
        MerkleMountainRange { roots: Stack::new(), hasher: std::marker::PhantomData }
    }

    /// Makes a range of the given peaks, from the largest to the smallest, unless no
    /// range can have this height.
    pub fn from_roots(roots: &[Root]) -> (r: Result<Self, UnsupportedMmrHeight>)
        ensures
            1 <= MAX_HEIGHT <= ACCEPTABLE_MAX_HEIGHT ==> r is Ok,
            !(1 <= MAX_HEIGHT <= ACCEPTABLE_MAX_HEIGHT) ==> r == Err::<Self, _>(
                UnsupportedMmrHeight { actual: MAX_HEIGHT, maximum: ACCEPTABLE_MAX_HEIGHT },
            ),
            r matches Ok(mmr) ==> mmr.peaks() == roots@,
    {
        match validate_supported_max_height(MAX_HEIGHT) {
            Err(error) => return Err(error),
            Ok(()) => {},
        }
        let mut stack: Stack<Root> = Stack::new();
        let mut i: usize = 0;
        while i < roots.len()
            invariant
                0 <= i <= roots@.len(),
                stack@ == roots@.take(i as int),
            decreases roots@.len() - i,
        {
            stack.push_mut(roots[i]);
            i += 1;
            assert(roots@.take(i as int) =~= roots@.take(i - 1).push(roots@[i - 1]));
        }
        assert(roots@.take(i as int) =~= roots@);
        Ok(MerkleMountainRange { roots: stack, hasher: std::marker::PhantomData })
    }

    /// The peaks, from the largest to the smallest.
    pub fn roots(&self) -> (r: Vec<Root>)
        ensures
            r@ == self.peaks(),
    {
        let mut stack: Stack<Root> = self.roots.clone();
        let mut reversed: Vec<Root> = Vec::new();
        let ghost all = self.roots@;
        while !stack.is_empty()
            invariant
                all == self.roots@,
                stack@.len() + reversed@.len() == all.len(),
                stack@ == all.take(stack@.len() as int),
                forall|i: int|
                    0 <= i < reversed@.len() ==> reversed@[i] == all[all.len() - 1 - i],
            decreases stack@.len(),
        {
            if let Some(root) = stack.peek() {
                reversed.push(*root);
            }
            stack.pop_mut();
            assert(stack@ =~= all.take(stack@.len() as int));
        }
        let mut roots: Vec<Root> = Vec::new();
        while reversed.len() > 0
            invariant
                roots@.len() + reversed@.len() == all.len(),
                roots@ == all.take(roots@.len() as int),
                forall|i: int|
                    0 <= i < reversed@.len() ==> reversed@[i] == all[all.len() - 1 - i],
            decreases reversed@.len(),
        {
            if let Some(root) = reversed.pop() {
                roots.push(root);
            }
            assert(roots@ =~= all.take(roots@.len() as int));
        }
        assert(roots@ =~= all);
        roots
    }

    /// Whether the height is supported, and the peaks are those of such a range.
    pub fn is_well_formed(&self) -> (r: bool)
        ensures
            r == self.well_formed(),
    {
        if !(1 <= MAX_HEIGHT && MAX_HEIGHT <= ACCEPTABLE_MAX_HEIGHT) {
            return false;
        }
        if MAX_HEIGHT as u32 > usize::BITS {
            return false;
        }
        let roots: Vec<Root> = self.roots();
        let mut i: usize = 0;
        while i < roots.len()
            invariant
                0 <= i <= roots@.len(),
                roots@ == self.peaks(),
                forall|j: int| 0 <= j < i ==> 1 <= (#[trigger] roots@[j]).height <= MAX_HEIGHT,
                forall|j: int, k: int|
                    0 <= j < k < i ==> (#[trigger] roots@[j]).height > (#[trigger] roots@[k]).height,
            decreases roots@.len() - i,
        {
            let height: u8 = roots[i].height;
            if height < 1 || height > MAX_HEIGHT {
                return false;
            }
            if i > 0 && roots[i - 1].height <= height {
                return false;
            }
            i += 1;
        }
        !(roots.len() > 1 && roots[0].height >= MAX_HEIGHT)
    }

    /// Whether there is no room for another leaf.
    fn is_full(&self) -> (r: bool)
        requires
            self.well_formed(),
        ensures
            r == (self.leaf_count() == self.max_leaves()),
    {
        proof {
            model::lemma_full(self.peaks(), MAX_HEIGHT as nat);
        }
        match self.roots.peek() {
            Some(top) => top.height == MAX_HEIGHT,
            None => false,
        }
    }

    /// Appends a leaf, unless the range is full.
    pub fn push(&self, elem: NodeHash) -> (r: Result<Self, MmrFull>)
        requires
            self.well_formed(),
        ensures
            r is Err <==> self.leaf_count() == self.max_leaves(),
            r matches Ok(mmr) ==> {
                &&& mmr.well_formed()
                &&& mmr.peaks() == self.peaks_with(elem)
                &&& mmr.leaf_count() == self.leaf_count() + 1
                &&& forall|leaves: Seq<NodeHash>| #[trigger]
                    self.represents(leaves) ==> mmr.represents(leaves.push(elem))
            },
    {
        if self.is_full() {
            return Err(MmrFull);
        }
        let ghost high = (MAX_HEIGHT - 1) as nat;
        let ghost leaf = Root { root: elem, height: 1 };
        let mut last_root: Root = Root { root: elem, height: 1 };
        let mut roots: Stack<Root> = self.roots.clone();
        proof {
            model::lemma_full(self.peaks(), MAX_HEIGHT as nat);
        }
        loop
            invariant_except_break
                self.well_formed(),
                1 <= last_root.height <= MAX_HEIGHT,
                model::descending(roots@, last_root.height as nat, (MAX_HEIGHT - 1) as nat),
                model::merge::<H>(roots@, last_root) == self.peaks_with(elem),
            invariant
                supported(MAX_HEIGHT),
            ensures
                roots@.push(last_root) == self.peaks_with(elem),
            decreases roots@.len(),
        {
            let root: Root = match roots.peek() {
                Some(root) => *root,
                None => break,
            };
            if last_root.height != root.height {
                break;
            }
            proof {
                model::lemma_below_is_above(
                    roots@,
                    last_root.height as nat,
                    (MAX_HEIGHT - 1) as nat,
                );
            }
            roots.pop_mut();
            last_root =
            Root {
                root: H::compress(&root.root, &last_root.root),
                height: last_root.height + 1,
            };
        }
        roots.push_mut(last_root);
        let mmr = MerkleMountainRange { roots, hasher: std::marker::PhantomData };
        proof {
            self.lemma_push(mmr, elem);
        }
        Ok(mmr)
    }

    /// Pushing a leaf gives a range over one leaf more.
    pub proof fn lemma_push(&self, mmr: Self, elem: NodeHash)
        requires
            self.well_formed(),
            self.leaf_count() != self.max_leaves(),
            mmr.peaks() == self.peaks_with(elem),
        ensures
            mmr.well_formed(),
            mmr.leaf_count() == self.leaf_count() + 1,
            mmr.root() == self.grown(elem, MAX_HEIGHT as nat),
            forall|leaves: Seq<NodeHash>| #[trigger]
                self.represents(leaves) ==> mmr.represents(leaves.push(elem)),
    {
        let peaks = self.peaks();
        let leaf = Root { root: elem, height: 1 };
        model::lemma_full(peaks, MAX_HEIGHT as nat);
        shape::lemma_leaf_level(0);
        model::lemma_merge_shape::<H>(peaks, leaf, MAX_HEIGHT as nat);
        model::lemma_frontier_of_merge::<H>(peaks, leaf, MAX_HEIGHT as nat);
        assert forall|leaves: Seq<NodeHash>| #[trigger]
            self.represents(leaves) implies mmr.represents(leaves.push(elem)) by {
            let more = leaves.push(elem);
            let index = leaves.len() as int;
            assert(more.take(index) =~= leaves);
            shape::lemma_leaf_level(index);
            model::lemma_peaks_keep::<H>(peaks, leaves, more, (MAX_HEIGHT - 1) as nat);
            model::lemma_merge::<H>(peaks, more, leaf, index, (MAX_HEIGHT - 1) as nat);
        }
    }

    /// Appends a leaf, brings `paths` up to date, and returns the path of the new
    /// leaf.
    ///
    /// Nothing is changed when the range is full, or when one of `paths` does not fit
    /// the range.
    pub fn push_with_paths(&self, elem: NodeHash, paths: &mut [MerklePath]) -> (r: Result<
        (Self, MerklePath),
        PushWithPathsError,
    >)
        requires
            self.well_formed(),
        ensures
            self.leaf_count() == self.max_leaves() ==> r == Err::<(Self, MerklePath), _>(
                PushWithPathsError::MmrFull(MmrFull),
            ),
            self.leaf_count() != self.max_leaves() ==> match path_mismatch(
                old(paths)@,
                MAX_HEIGHT,
                self.leaf_count(),
                0,
            ) {
                Some(error) => r == Err::<(Self, MerklePath), _>(
                    PushWithPathsError::InvalidTrackedPath(error),
                ),
                None => r is Ok,
            },
            r is Err ==> final(paths)@ == old(paths)@,
            final(paths)@.len() == old(paths)@.len(),
            r matches Ok((mmr, new_path)) ==> {
                &&& mmr.well_formed()
                &&& mmr.peaks() == self.peaks_with(elem)
                &&& mmr.leaf_count() == self.leaf_count() + 1
                &&& forall|leaves: Seq<NodeHash>| #[trigger]
                    self.represents(leaves) ==> mmr.represents(leaves.push(elem))
                &&& new_path.well_formed()
                &&& new_path.index() == self.leaf_count()
                &&& new_path.hashes() == model::frontier_siblings::<H>(
                    self.peaks(),
                    1,
                    MAX_HEIGHT as nat,
                )
                &&& forall|i: int|
                    0 <= i < old(paths)@.len() ==> path::kept_up(
                        old(paths)@[i],
                        #[trigger] final(paths)@[i],
                        self.leaf_count() as int,
                        1,
                        MAX_HEIGHT as nat,
                        |k: nat| self.grown(elem, k),
                    )
            },
    {
        if self.is_full() {
            return Err(PushWithPathsError::MmrFull(MmrFull));
        }
        let leaf_count: usize = self.len();
        let ghost high = MAX_HEIGHT as nat;
        let ghost index = self.leaf_count() as int;
        let ghost given = paths@;
        let mut i: usize = 0;
        while i < paths.len()
            invariant
                self.well_formed(),
                self.leaf_count() != self.max_leaves(),
                0 <= i <= paths@.len(),
                paths@ == given,
                given == old(paths)@,
                leaf_count == self.leaf_count(),
                path_mismatch(given, MAX_HEIGHT, self.leaf_count(), i as nat) == path_mismatch(
                    given,
                    MAX_HEIGHT,
                    self.leaf_count(),
                    0,
                ),
                forall|j: int|
                    0 <= j < i ==> (#[trigger] given[j]).hashes().len() == MAX_HEIGHT - 1
                        && given[j].index() < leaf_count,
            decreases paths@.len() - i,
        {
            match paths[i].validate_for_height(MAX_HEIGHT) {
                Err(error) => return Err(PushWithPathsError::InvalidTrackedPath(error)),
                Ok(()) => {},
            }
            match paths[i].validate_leaf_index(leaf_count) {
                Err(error) => return Err(PushWithPathsError::InvalidTrackedPath(error)),
                Ok(()) => {},
            }
            i += 1;
        }
        let mut siblings: Vec<NodeHash> = Vec::new();
        let mut h: u8 = 1;
        while h < MAX_HEIGHT
            invariant
                supported(MAX_HEIGHT),
                1 <= h <= MAX_HEIGHT,
                siblings@.len() == h - 1,
            decreases MAX_HEIGHT - h,
        {
            siblings.push(empty_subtree_root::<H>(h));
            h += 1;
        }
        let mut new_path: MerklePath = match MerklePath::try_new(leaf_count, siblings) {
            Ok(path) => path,
            Err(error) => return Err(PushWithPathsError::InvalidTrackedPath(error)),
        };
        let ghost all = model::frontier_siblings::<H>(self.peaks(), 1, high);
        let mut last_root: Root = Root { root: elem, height: 1 };
        let mut roots: Stack<Root> = self.roots.clone();
        proof {
            model::lemma_full(self.peaks(), high);
            model::lemma_frontier_siblings_len::<H>(self.peaks(), 1, high);
            shape::lemma_leaf_level(index);
            assert(all.skip(0) =~= all);
            assert forall|i: int| 0 <= i < given.len() implies path::kept_up(
                given[i],
                #[trigger] paths@[i],
                index,
                1,
                1,
                |k: nat| self.grown(elem, k),
            ) by {}
        }
        loop
            invariant_except_break
                model::merge::<H>(roots@, last_root) == self.peaks_with(elem),
            invariant
                self.well_formed(),
                high == MAX_HEIGHT,
                1 <= last_root.height <= MAX_HEIGHT,
                index == self.leaf_count(),
                model::descending(roots@, last_root.height as nat, (high - 1) as nat),
                model::leaf_count(roots@) == shape::ancestor(index, last_root.height as nat)
                    * shape::width(last_root.height as nat),
                all == model::frontier_siblings::<H>(self.peaks(), 1, high),
                all.len() == high - 1,
                all.skip(last_root.height - 1) == model::frontier_siblings::<H>(
                    roots@,
                    last_root.height as nat,
                    high,
                ),
                forall|t: nat|
                    t >= last_root.height ==> #[trigger] self.grown(elem, t) == model::grow::<H>(
                        roots@,
                        last_root.root,
                        last_root.height as nat,
                        t,
                    ),
                new_path.index() == index,
                new_path.hashes().len() == high - 1,
                new_path.hashes().take(last_root.height - 1) == all.take(last_root.height - 1),
                given == old(paths)@,
                paths@.len() == given.len(),
                forall|i: int|
                    0 <= i < given.len() ==> (#[trigger] given[i]).hashes().len() == high - 1
                        && given[i].index() < index,
                forall|i: int|
                    0 <= i < given.len() ==> path::kept_up(
                        given[i],
                        #[trigger] paths@[i],
                        index,
                        1,
                        last_root.height as nat,
                        |k: nat| self.grown(elem, k),
                    ),
            ensures
                roots@.push(last_root) == self.peaks_with(elem),
            decreases roots@.len(),
        {
            let root: Root = match roots.peek() {
                Some(root) => *root,
                None => break,
            };
            if last_root.height != root.height {
                break;
            }
            let ghost here = roots@;
            let ghost before = paths@;
            let ghost low = last_root.height as nat;
            let ghost rest = all.skip(low - 1);
            let ghost path_before = new_path.hashes();
            proof {
                model::lemma_below_is_above(here, low, (high - 1) as nat);
                shape::lemma_ancestor_step(index, low);
                model::lemma_top_peak(here, low, (high - 1) as nat, shape::ancestor(index, low));
                assert(self.grown(elem, low) == last_root.root);
                assert(rest[0] == all[low - 1]);
                assert(all.skip(low as int) =~= rest.skip(1));
                assert(rest.skip(1) =~= model::frontier_siblings::<H>(
                    here.drop_last(),
                    low + 1,
                    high,
                ));
                assert forall|i: int| 0 <= i < paths@.len() implies low <= (
                #[trigger] paths@[i]).hashes().len() by {
                    assert(given[i].hashes().len() == high - 1);
                }
            }
            roots.pop_mut();
            update_paths_at_merge(last_root, root, paths, &mut new_path);
            proof {
                assert(new_path.hashes().take(low as int) =~= all.take(low as int)) by {
                    assert(path_before.take(low - 1) =~= all.take(low - 1));
                    assert forall|i: int| 0 <= i < low implies new_path.hashes()[i] == all[i] by {
                        if i < low - 1 {
                            assert(path_before.take(low - 1)[i] == all.take(low - 1)[i]);
                        }
                    }
                }
                assert forall|i: int| 0 <= i < given.len() implies path::kept_up(
                    given[i],
                    #[trigger] paths@[i],
                    index,
                    1,
                    low + 1,
                    |k: nat| self.grown(elem, k),
                ) by {
                    lemma_kept_up_chain(
                        given[i],
                        before[i],
                        paths@[i],
                        index,
                        low,
                        low + 1,
                        |k: nat| self.grown(elem, k),
                        |k: nat| last_root.root,
                    );
                }
            }
            last_root =
            Root {
                root: H::compress(&root.root, &last_root.root),
                height: last_root.height + 1,
            };
        }
        let ghost before = paths@;
        let ghost low = last_root.height as nat;
        let ghost path_before = new_path.hashes();
        proof {
            assert forall|i: int| 0 <= i < before.len() implies (
            #[trigger] before[i]).hashes().len() == high - 1 && before[i].index() != index by {
                assert(given[i].hashes().len() == high - 1);
            }
        }
        update_paths_above_merge::<H, MAX_HEIGHT>(last_root, roots.clone(), paths, &mut new_path);
        proof {
            assert(all.take(low - 1) + all.skip(low - 1) =~= all);
            assert forall|i: int| 0 <= i < given.len() implies path::kept_up(
                given[i],
                #[trigger] paths@[i],
                index,
                1,
                high,
                |k: nat| self.grown(elem, k),
            ) by {
                lemma_kept_up_chain(
                    given[i],
                    before[i],
                    paths@[i],
                    index,
                    low,
                    high,
                    |k: nat| self.grown(elem, k),
                    |k: nat| model::grow::<H>(roots@, last_root.root, low, k),
                );
            }
        }
        roots.push_mut(last_root);
        let mmr = MerkleMountainRange { roots, hasher: std::marker::PhantomData };
        proof {
            self.lemma_push(mmr, elem);
        }
        Ok((mmr, new_path))
    }

    /// Computes the root of the whole tree, with empty leaves after the last one.
    pub fn frontier_root(&self) -> (r: NodeHash)
        requires
            self.well_formed(),
        ensures
            r == self.root(),
            forall|leaves: Seq<NodeHash>| #[trigger]
                self.represents(leaves) ==> r == hasher::tree_root::<H>(leaves, MAX_HEIGHT as nat),
    {
        let ghost high = MAX_HEIGHT as nat;
        proof {
            assert forall|leaves: Seq<NodeHash>| #[trigger] self.represents(leaves) implies self.root()
                == hasher::tree_root::<H>(leaves, high) by {
                self.lemma_root(leaves);
            }
        }
        let mut rest: Stack<Root> = self.roots.clone();
        let last: Root = match rest.peek() {
            Some(last) => *last,
            None => return empty_subtree_root::<H>(MAX_HEIGHT),
        };
        let mut root: NodeHash = last.root;
        let mut height: u8 = last.height;
        rest.pop_mut();
        proof {
            model::lemma_below_is_above(self.peaks(), 1, high);
        }
        loop
            invariant_except_break
                model::descending(rest@, height as nat, high),
                model::well_formed(self.peaks(), high),
                rest@.len() > 0 ==> rest@[0].height < high,
                model::grow::<H>(rest@, root, height as nat, high) == self.root(),
            invariant
                high == MAX_HEIGHT,
                1 <= height <= MAX_HEIGHT,
            ensures
                model::grow::<H>(Seq::empty(), root, height as nat, high) == self.root(),
            decreases rest@.len(),
        {
            let last: Root = match rest.peek() {
                Some(last) => *last,
                None => {
                    assert(rest@ =~= Seq::empty());
                    break;
                },
            };
            let ghost here = rest@;
            proof {
                assert(last.height <= here[0].height);
            }
            while height < last.height
                invariant
                    here == rest@,
                    here.len() > 0,
                    last == here.last(),
                    high == MAX_HEIGHT,
                    1 <= height <= last.height < high,
                    model::grow::<H>(rest@, root, height as nat, high) == self.root(),
                decreases last.height - height,
            {
                let empty: NodeHash = empty_subtree_root::<H>(height);
                root = H::compress(&root, &empty);
                height += 1;
            }
            proof {
                assert forall|i: int| 0 <= i < here.len() implies (#[trigger] here[i]).height
                    >= height by {
                    assert(here[i].height >= here.last().height);
                }
                model::lemma_below_is_above(here, height as nat, high);
            }
            rest.pop_mut();
            root = H::compress(&last.root, &root);
            height += 1;
            assert(rest@.len() > 0 ==> rest@[0] == here[0]);
        }
        while height < MAX_HEIGHT
            invariant
                high == MAX_HEIGHT,
                1 <= height <= MAX_HEIGHT,
                model::grow::<H>(Seq::empty(), root, height as nat, high) == self.root(),
            decreases MAX_HEIGHT - height,
        {
            let empty: NodeHash = empty_subtree_root::<H>(height);
            root = H::compress(&root, &empty);
            height += 1;
        }
        root
    }

    /// The root of the range is the root of the tree over its leaves.
    pub proof fn lemma_root(&self, leaves: Seq<NodeHash>)
        requires
            self.well_formed(),
            self.represents(leaves),
        ensures
            self.root() == hasher::tree_root::<H>(leaves, MAX_HEIGHT as nat),
    {
        let high = MAX_HEIGHT as nat;
        let peaks = self.peaks();
        model::lemma_full(peaks, high);
        shape::lemma_width(high);
        if peaks.len() == 0 {
            assert(0 * shape::width(high) >= leaves.len());
            shape::lemma_node_empty::<H>(leaves, high, 0);
        } else {
            let below = peaks.drop_last();
            let height = peaks.last().height as nat;
            model::lemma_below_is_above(peaks, 1, high);
            let nodes = model::lemma_count_fills_nodes(below, height, high);
            let w = shape::width(height) as int;
            shape::lemma_width(height);
            let last_leaf = (leaves.len() - 1) as int;
            assert((nodes + 1) * w == nodes * w + w) by (nonlinear_arith);
            vstd::arithmetic::div_mod::lemma_fundamental_div_mod_converse(
                last_leaf,
                w,
                nodes,
                w - 1,
            );
            model::lemma_grow::<H>(
                below,
                leaves,
                peaks.last().root,
                last_leaf,
                height,
                high,
                high,
            );
            shape::lemma_root_covers(last_leaf, high);
        }
    }

    /// The largest number of leaves.
    pub fn capacity(&self) -> (r: usize)
        requires
            supported(MAX_HEIGHT),
        ensures
            r == self.max_leaves(),
    {
        Self::num_leaves(MAX_HEIGHT)
    }

    /// The number of leaves of a complete tree of `height` levels.
    fn num_leaves(height: u8) -> (r: usize)
        requires
            1 <= height <= usize::BITS,
        ensures
            r == shape::width(height as nat),
    {
        let shift: usize = (height - 1) as usize;
        proof {
            lemma_usize_pow2_no_overflow(shift as nat);
            lemma_usize_shl_is_mul(1, shift);
        }
        1usize << shift
    }

    /// The number of leaves.
    pub fn len(&self) -> (r: usize)
        requires
            self.well_formed(),
        ensures
            r == self.leaf_count(),
    {
        let mut rest: Stack<Root> = self.roots.clone();
        let mut count: usize = 0;
        proof {
            model::lemma_full(self.peaks(), MAX_HEIGHT as nat);
            lemma_usize_pow2_no_overflow((MAX_HEIGHT - 1) as nat);
        }
        loop
            invariant_except_break
                supported(MAX_HEIGHT),
                model::descending(rest@, 1, MAX_HEIGHT as nat),
                count + model::leaf_count(rest@) == self.leaf_count(),
                self.leaf_count() <= usize::MAX,
            ensures
                count == self.leaf_count(),
            decreases rest@.len(),
        {
            let root: Root = match rest.peek() {
                Some(root) => *root,
                None => break,
            };
            rest.pop_mut();
            count += Self::num_leaves(root.height);
        }
        count
    }

    /// Whether there are no leaves.
    pub fn is_empty(&self) -> (r: bool)
        requires
            self.well_formed(),
        ensures
            r == (self.leaf_count() == 0),
    {
        proof {
            model::lemma_full(self.peaks(), MAX_HEIGHT as nat);
        }
        self.roots.is_empty()
    }
}

impl<H, const MAX_HEIGHT: u8> Clone for MerkleMountainRange<H, MAX_HEIGHT> {
    fn clone(&self) -> (r: Self)
        ensures
            r == *self,
    {
        MerkleMountainRange { roots: self.roots.clone(), hasher: std::marker::PhantomData }
    }
}

impl<H: MerkleHasher, const MAX_HEIGHT: u8> PartialEq for MerkleMountainRange<H, MAX_HEIGHT> {
    fn eq(&self, other: &Self) -> (r: bool) {
        let roots: Vec<Root> = self.roots();
        let others: Vec<Root> = other.roots();
        if roots.len() != others.len() {
            return false;
        }
        let mut i: usize = 0;
        while i < roots.len()
            invariant
                0 <= i <= roots@.len(),
                roots@.len() == others@.len(),
                roots@ == self.peaks(),
                others@ == other.peaks(),
                forall|j: int| 0 <= j < i ==> roots@[j] == others@[j],
            decreases roots@.len() - i,
        {
            if roots[i].height != others[i].height || !same_bytes(&roots[i].root, &others[i].root) {
                return false;
            }
            i += 1;
        }
        assert(roots@ =~= others@);
        true
    }
}

impl<H: MerkleHasher, const MAX_HEIGHT: u8> PartialEqSpecImpl for MerkleMountainRange<H, MAX_HEIGHT> {
    open spec fn obeys_eq_spec() -> bool {
        true
    }

    open spec fn eq_spec(&self, other: &Self) -> bool {
        self.peaks() == other.peaks()
    }
}

/// Updates below a height, and then from there on, are updates at all heights.
proof fn lemma_kept_up_chain(
    given: MerklePath,
    before: MerklePath,
    after: MerklePath,
    index: int,
    low: nat,
    high: nat,
    grown: spec_fn(nat) -> NodeHash,
    grown_above: spec_fn(nat) -> NodeHash,
)
    requires
        1 <= low <= high,
        path::kept_up(given, before, index, 1, low, grown),
        path::kept_up(before, after, index, low, high, grown_above),
        forall|k: nat| low <= k < high ==> grown_above(k) == #[trigger] grown(k),
    ensures
        path::kept_up(given, after, index, 1, high, grown),
{
    assert forall|k: nat| 1 <= k <= given.hashes().len() implies #[trigger] after.hashes()[k - 1]
        == (if 1 <= k < high && shape::siblings_at(index, given.index() as int, k) {
        grown(k)
    } else {
        given.hashes()[k - 1]
    }) by {
        assert(before.hashes()[k - 1] == before.hashes()[k - 1]);
        assert(low <= k < high ==> grown_above(k) == grown(k));
    }
}

} // verus!
