//! A Merkle tree whose slots can be filled, changed and emptied.
use std::sync::Arc;
use vstd::arithmetic::power2::*;
use vstd::bits::*;
use vstd::prelude::*;

use crate::merkle::hasher;
use crate::merkle::hasher::{empty_subtree_root, MerkleHasher, NodeHash};
use crate::merkle::shape;

verus! {

/// The number of levels of a tree, with its slots at height one.
pub const TREE_HEIGHT: u8 = 33;

/// The number of slots of a tree.
pub const CAPACITY: u64 = 0x1_0000_0000;

/// A subtree. Subtrees are shared between versions of a tree.
pub enum Subtree {
    /// All slots are empty.
    Empty,
    /// One slot that is filled.
    Leaf(NodeHash),
    /// Two subtrees, one of which at least has a slot that is filled.
    Branch { left: Arc<Subtree>, right: Arc<Subtree>, root: NodeHash, size: u64 },
}

/// A sibling on the way from a leaf to the root.
#[derive(Clone, Copy, Debug, PartialEq, Eq)]
pub enum MerkleNode {
    /// The sibling is the left child.
    Left(NodeHash),
    /// The sibling is the right child.
    Right(NodeHash),
}

/// The siblings on the way from a leaf to the root, from the leaf upward.
pub type MerklePath = Vec<MerkleNode>;

/// The number of slots that are filled.
pub open spec fn occupied(slots: Seq<Option<NodeHash>>) -> nat
    decreases slots.len(),
{
    if slots.len() == 0 {
        0
    } else {
        occupied(slots.drop_last()) + (if slots.last() is Some {
            1nat
        } else {
            0
        })
    }
}

/// What is hashed for a slot.
pub open spec fn slot_leaf(slot: Option<NodeHash>) -> NodeHash {
    match slot {
        Some(leaf) => leaf,
        None => hasher::empty_value(),
    }
}

/// What is hashed for each of `slots`.
pub open spec fn slot_leaves(slots: Seq<Option<NodeHash>>) -> Seq<NodeHash> {
    slots.map_values(|slot: Option<NodeHash>| slot_leaf(slot))
}

/// Whether `position` is the first of `slots` that is empty.
pub open spec fn is_first_free(slots: Seq<Option<NodeHash>>, position: int) -> bool {
    &&& 0 <= position < slots.len()
    &&& slots[position] is None
    &&& forall|i: int| 0 <= i < position ==> (#[trigger] slots[i]) is Some
}

/// A path as the siblings of slot `position`: each with its side.
pub open spec fn is_path<H: MerkleHasher>(
    path: Seq<MerkleNode>,
    leaves: Seq<NodeHash>,
    position: int,
    height: nat,
) -> bool {
    &&& path.len() == height - 1
    &&& forall|k: nat|
        1 <= k < height ==> {
            let own = shape::ancestor(position, k);
            #[trigger] path[k - 1] == (if own % 2 == 0 {
                MerkleNode::Right(hasher::node::<H>(leaves, k, own + 1))
            } else {
                MerkleNode::Left(hasher::node::<H>(leaves, k, own - 1))
            })
        }
}

impl Subtree {
    /// The slots of a subtree of `height` levels.
    pub open spec fn slots(&self, height: nat) -> Seq<Option<NodeHash>>
        decreases height,
    {
        match self {
            Subtree::Empty => Seq::new(shape::width(height), |i: int| None),
            Subtree::Leaf(leaf) => seq![Some(*leaf)],
            Subtree::Branch { left, right, .. } => if height <= 1 {
                Seq::empty()
            } else {
                left.slots((height - 1) as nat) + right.slots((height - 1) as nat)
            },
        }
    }

    /// The root of a subtree of `height` levels.
    pub open spec fn root_of<H: MerkleHasher>(&self, height: nat) -> NodeHash {
        match self {
            Subtree::Empty => hasher::empty_root::<H>(height),
            Subtree::Leaf(leaf) => *leaf,
            Subtree::Branch { root, .. } => *root,
        }
    }

    /// Whether this is a subtree of `height` levels, with right roots and sizes.
    pub open spec fn well_formed<H: MerkleHasher>(&self, height: nat) -> bool
        decreases height,
    {
        match self {
            Subtree::Empty => height >= 1,
            Subtree::Leaf(leaf) => height == 1,
            Subtree::Branch { left, right, root, size } => {
                let below = (height - 1) as nat;
                &&& height >= 2
                &&& left.well_formed::<H>(below)
                &&& right.well_formed::<H>(below)
                &&& *size == occupied(left.slots(below)) + occupied(right.slots(below))
                &&& *size > 0
                &&& *root == H::parent(left.root_of::<H>(below), right.root_of::<H>(below))
            },
        }
    }

    /// Computes the root of a subtree of `height` levels.
    fn root<H: MerkleHasher>(&self, height: u8) -> (r: NodeHash)
        requires
            height >= 1,
        ensures
            r == self.root_of::<H>(height as nat),
    {
        match self {
            Subtree::Empty => empty_subtree_root::<H>(height),
            Subtree::Leaf(leaf) => *leaf,
            Subtree::Branch { root, .. } => *root,
        }
    }

    /// The number of slots that are filled.
    fn size<H: MerkleHasher>(&self, height: u8) -> (r: u64)
        requires
            1 <= height <= TREE_HEIGHT,
            self.well_formed::<H>(height as nat),
        ensures
            r == occupied(self.slots(height as nat)),
    {
        proof {
            lemma_size::<H>(self, height as nat);
        }
        match self {
            Subtree::Empty => 0,
            Subtree::Leaf(_) => 1,
            Subtree::Branch { size, .. } => *size,
        }
    }

    /// Fills or empties the slot at `position` of a subtree of `height` levels.
    fn set<H: MerkleHasher>(&self, height: u8, position: u64, slot: Option<NodeHash>) -> (r: Subtree)
        requires
            1 <= height <= TREE_HEIGHT,
            self.well_formed::<H>(height as nat),
            position < shape::width(height as nat),
        ensures
            r.well_formed::<H>(height as nat),
            r.slots(height as nat) == self.slots(height as nat).update(position as int, slot),
        decreases height,
    {
        proof {
            lemma_slots_len::<H>(self, height as nat);
            shape::lemma_leaf_level(0);
        }
        if height == 1 {
            assert(self.slots(1).update(position as int, slot) =~= seq![slot]);
            return match slot {
                Some(leaf) => Subtree::Leaf(leaf),
                None => {
                    assert(Subtree::Empty.slots(1) =~= seq![slot]);
                    Subtree::Empty
                },
            };
        }
        let below: u8 = height - 1;
        let half: u64 = half_width(height);
        proof {
            shape::lemma_width(below as nat);
        }
        let (left, right): (Arc<Subtree>, Arc<Subtree>) = match self {
            Subtree::Branch { left, right, .. } => (left.clone(), right.clone()),
            _ => (Arc::new(Subtree::Empty), Arc::new(Subtree::Empty)),
        };
        proof {
            lemma_slots_len::<H>(&*left, below as nat);
            lemma_slots_len::<H>(&*right, below as nat);
            assert(self.slots(height as nat) =~= left.slots(below as nat) + right.slots(
                below as nat,
            ));
        }
        let (new_left, new_right): (Arc<Subtree>, Arc<Subtree>) = if position < half {
            let subtree: Subtree = left.set::<H>(below, position, slot);
            (Arc::new(subtree), right)
        } else {
            let subtree: Subtree = right.set::<H>(below, position - half, slot);
            (left, Arc::new(subtree))
        };
        proof {
            assert(new_left.slots(below as nat) + new_right.slots(below as nat) =~= self.slots(
                height as nat,
            ).update(position as int, slot));
            lemma_size::<H>(&*new_left, below as nat);
            lemma_size::<H>(&*new_right, below as nat);
            lemma_occupied_bound(new_left.slots(below as nat));
            lemma_occupied_bound(new_right.slots(below as nat));
            lemma_slots_len::<H>(&*new_left, below as nat);
            lemma_slots_len::<H>(&*new_right, below as nat);
            lemma_widths_fit(below as nat);
        }
        let size: u64 = new_left.size::<H>(below) + new_right.size::<H>(below);
        if size == 0 {
            proof {
                lemma_none_occupied(new_left.slots(below as nat));
                lemma_none_occupied(new_right.slots(below as nat));
                assert(Subtree::Empty.slots(height as nat) =~= new_left.slots(below as nat)
                    + new_right.slots(below as nat));
            }
            return Subtree::Empty;
        }
        let left_root: NodeHash = new_left.root::<H>(below);
        let right_root: NodeHash = new_right.root::<H>(below);
        Subtree::Branch {
            left: new_left,
            right: new_right,
            root: H::compress(&left_root, &right_root),
            size,
        }
    }

    /// What the slot at `position` of a subtree of `height` levels holds.
    fn get<H: MerkleHasher>(&self, height: u8, position: u64) -> (r: Option<NodeHash>)
        requires
            1 <= height <= TREE_HEIGHT,
            self.well_formed::<H>(height as nat),
            position < shape::width(height as nat),
        ensures
            r == self.slots(height as nat)[position as int],
        decreases height,
    {
        proof {
            lemma_slots_len::<H>(self, height as nat);
            shape::lemma_leaf_level(0);
        }
        match self {
            Subtree::Empty => None,
            Subtree::Leaf(leaf) => Some(*leaf),
            Subtree::Branch { left, right, .. } => {
                let below: u8 = height - 1;
                let half: u64 = half_width(height);
                proof {
                    shape::lemma_width(below as nat);
                    lemma_slots_len::<H>(&**left, below as nat);
                    lemma_slots_len::<H>(&**right, below as nat);
                }
                if position < half {
                    left.get::<H>(below, position)
                } else {
                    right.get::<H>(below, position - half)
                }
            },
        }
    }

    /// The first empty slot of a subtree of `height` levels that has one.
    fn first_free<H: MerkleHasher>(&self, height: u8) -> (r: u64)
        requires
            1 <= height <= TREE_HEIGHT,
            self.well_formed::<H>(height as nat),
            occupied(self.slots(height as nat)) < shape::width(height as nat),
        ensures
            is_first_free(self.slots(height as nat), r as int),
        decreases height,
    {
        proof {
            lemma_slots_len::<H>(self, height as nat);
            shape::lemma_leaf_level(0);
            shape::lemma_width(height as nat);
        }
        match self {
            Subtree::Empty => 0,
            Subtree::Leaf(leaf) => {
                assert(seq![Some(*leaf)].drop_last() =~= Seq::empty());
                assert(occupied(seq![Some(*leaf)].drop_last()) == 0);
                assert(occupied(self.slots(1)) == 1);
                0
            },
            Subtree::Branch { left, right, .. } => {
                let below: u8 = height - 1;
                let half: u64 = half_width(height);
                proof {
                    shape::lemma_width(below as nat);
                    lemma_slots_len::<H>(&**left, below as nat);
                    lemma_slots_len::<H>(&**right, below as nat);
                    lemma_size::<H>(self, height as nat);
                    lemma_occupied_bound(left.slots(below as nat));
                    lemma_widths_fit(below as nat);
                }
                let slots = Ghost(self.slots(height as nat));
                if left.size::<H>(below) < half {
                    let position: u64 = left.first_free::<H>(below);
                    assert forall|i: int| 0 <= i < position implies (
                    #[trigger] slots@[i]) is Some by {
                        assert(left.slots(below as nat)[i] is Some);
                    }
                    position
                } else {
                    let position: u64 = right.first_free::<H>(below);
                    proof {
                        lemma_all_occupied(left.slots(below as nat));
                        assert forall|i: int| 0 <= i < half + position implies (
                        #[trigger] slots@[i]) is Some by {
                            if i < half {
                                assert(left.slots(below as nat)[i] is Some);
                            } else {
                                assert(right.slots(below as nat)[i - half] is Some);
                            }
                        }
                    }
                    half + position
                }
            },
        }
    }

    /// The siblings on the way from the slot at `position` to the root of a subtree of
    /// `height` levels.
    fn path<H: MerkleHasher>(&self, height: u8, position: u64) -> (r: MerklePath)
        requires
            1 <= height <= TREE_HEIGHT,
            self.well_formed::<H>(height as nat),
            position < shape::width(height as nat),
        ensures
            is_path::<H>(
                r@,
                slot_leaves(self.slots(height as nat)),
                position as int,
                height as nat,
            ),
        decreases height,
    {
        if height == 1 {
            return Vec::new();
        }
        let below: u8 = height - 1;
        let half: u64 = half_width(height);
        proof {
            lemma_slots_len::<H>(self, height as nat);
            shape::lemma_width(below as nat);
        }
        let (left, right): (Arc<Subtree>, Arc<Subtree>) = match self {
            Subtree::Branch { left, right, .. } => (left.clone(), right.clone()),
            _ => (Arc::new(Subtree::Empty), Arc::new(Subtree::Empty)),
        };
        let ghost left_leaves = slot_leaves(left.slots(below as nat));
        let ghost right_leaves = slot_leaves(right.slots(below as nat));
        let ghost leaves = slot_leaves(self.slots(height as nat));
        proof {
            lemma_slots_len::<H>(&*left, below as nat);
            lemma_slots_len::<H>(&*right, below as nat);
            lemma_root::<H>(&*left, below as nat);
            lemma_root::<H>(&*right, below as nat);
            assert(self.slots(height as nat) =~= left.slots(below as nat) + right.slots(
                below as nat,
            ));
            assert(leaves =~= left_leaves + right_leaves);
            lemma_halves::<H>(left_leaves, right_leaves, below as nat);
        }
        if position < half {
            let mut path: MerklePath = left.path::<H>(below, position);
            let ghost inner = path@;
            path.push(MerkleNode::Right(right.root::<H>(below)));
            proof {
                lemma_path_left::<H>(
                    inner,
                    left_leaves,
                    right_leaves,
                    position as int,
                    below as nat,
                );
            }
            path
        } else {
            let mut path: MerklePath = right.path::<H>(below, position - half);
            let ghost inner = path@;
            path.push(MerkleNode::Left(left.root::<H>(below)));
            proof {
                lemma_path_right::<H>(
                    inner,
                    left_leaves,
                    right_leaves,
                    position - half,
                    below as nat,
                );
            }
            path
        }
    }
}

/// The number of slots of a half of a tree of `height` levels.
fn half_width(height: u8) -> (r: u64)
    requires
        2 <= height <= TREE_HEIGHT,
    ensures
        r == shape::width((height - 1) as nat),
{
    let shift: u64 = (height - 2) as u64;
    proof {
        lemma_u64_pow2_no_overflow(shift as nat);
        lemma_u64_shl_is_mul(1, shift);
    }
    1u64 << shift
}

proof fn lemma_widths_fit(height: nat)
    requires
        1 <= height <= TREE_HEIGHT,
    ensures
        shape::width(height) <= 0x1_0000_0000,
{
    shape::lemma_width_monotonic(height, 33);
    lemma2_to64();
}

/// A subtree of `height` levels has as many slots as there are nodes at its bottom.
pub proof fn lemma_slots_len<H: MerkleHasher>(tree: &Subtree, height: nat)
    requires
        tree.well_formed::<H>(height),
    ensures
        tree.slots(height).len() == shape::width(height),
    decreases height,
{
    shape::lemma_leaf_level(0);
    if let Subtree::Branch { left, right, .. } = tree {
        let below = (height - 1) as nat;
        lemma_slots_len::<H>(&*left, below);
        lemma_slots_len::<H>(&*right, below);
        shape::lemma_width(below);
    }
}

pub proof fn lemma_occupied_concat(a: Seq<Option<NodeHash>>, b: Seq<Option<NodeHash>>)
    ensures
        occupied(a + b) == occupied(a) + occupied(b),
    decreases b.len(),
{
    if b.len() == 0 {
        assert(a + b =~= a);
    } else {
        assert((a + b).drop_last() =~= a + b.drop_last());
        lemma_occupied_concat(a, b.drop_last());
    }
}

pub proof fn lemma_occupied_bound(slots: Seq<Option<NodeHash>>)
    ensures
        occupied(slots) <= slots.len(),
    decreases slots.len(),
{
    if slots.len() > 0 {
        lemma_occupied_bound(slots.drop_last());
    }
}

proof fn lemma_none_occupied(slots: Seq<Option<NodeHash>>)
    requires
        occupied(slots) == 0,
    ensures
        forall|i: int| 0 <= i < slots.len() ==> (#[trigger] slots[i]) is None,
    decreases slots.len(),
{
    if slots.len() > 0 {
        lemma_none_occupied(slots.drop_last());
        assert forall|i: int| 0 <= i < slots.len() implies (#[trigger] slots[i]) is None by {
            if i < slots.len() - 1 {
                assert(slots.drop_last()[i] is None);
            }
        }
    }
}

proof fn lemma_all_none(slots: Seq<Option<NodeHash>>)
    requires
        forall|i: int| 0 <= i < slots.len() ==> (#[trigger] slots[i]) is None,
    ensures
        occupied(slots) == 0,
    decreases slots.len(),
{
    if slots.len() > 0 {
        lemma_all_none(slots.drop_last());
    }
}

proof fn lemma_all_occupied(slots: Seq<Option<NodeHash>>)
    requires
        occupied(slots) == slots.len(),
    ensures
        forall|i: int| 0 <= i < slots.len() ==> (#[trigger] slots[i]) is Some,
    decreases slots.len(),
{
    if slots.len() > 0 {
        lemma_occupied_bound(slots.drop_last());
        lemma_all_occupied(slots.drop_last());
        assert forall|i: int| 0 <= i < slots.len() implies (#[trigger] slots[i]) is Some by {
            if i < slots.len() - 1 {
                assert(slots.drop_last()[i] is Some);
            }
        }
    }
}

/// The size that a subtree stores is the number of its slots that are filled.
proof fn lemma_size<H: MerkleHasher>(tree: &Subtree, height: nat)
    requires
        tree.well_formed::<H>(height),
    ensures
        occupied(tree.slots(height)) == (match tree {
            Subtree::Empty => 0,
            Subtree::Leaf(_) => 1,
            Subtree::Branch { size, .. } => *size as nat,
        }),
{
    match tree {
        Subtree::Empty => {
            lemma_all_none(tree.slots(height));
        },
        Subtree::Leaf(leaf) => {
            assert(seq![Some(*leaf)].drop_last() =~= Seq::empty());
            assert(occupied(seq![Some(*leaf)].drop_last()) == 0);
        },
        Subtree::Branch { left, right, .. } => {
            let below = (height - 1) as nat;
            lemma_occupied_concat(left.slots(below), right.slots(below));
        },
    }
}

/// Filling or emptying one slot changes the number of filled ones by that slot.
pub proof fn lemma_occupied_update(
    slots: Seq<Option<NodeHash>>,
    position: int,
    slot: Option<NodeHash>,
)
    requires
        0 <= position < slots.len(),
    ensures
        occupied(slots.update(position, slot)) + (if slots[position] is Some {
            1nat
        } else {
            0
        }) == occupied(slots) + (if slot is Some {
            1nat
        } else {
            0
        }),
    decreases slots.len(),
{
    let after = slots.update(position, slot);
    if position == slots.len() - 1 {
        assert(after.drop_last() =~= slots.drop_last());
    } else {
        assert(after.drop_last() =~= slots.drop_last().update(position, slot));
        lemma_occupied_update(slots.drop_last(), position, slot);
    }
}

/// The nodes over leaves that come after whole nodes are those over them alone.
proof fn lemma_node_shift<H: MerkleHasher>(
    front: Seq<NodeHash>,
    back: Seq<NodeHash>,
    height: nat,
    offset: int,
    index: int,
)
    requires
        height >= 1,
        offset >= 0,
        index >= 0,
        front.len() == offset * shape::width(height),
    ensures
        hasher::node::<H>(front + back, height, offset + index) == hasher::node::<H>(
            back,
            height,
            index,
        ),
    decreases height,
{
    if height == 1 {
        shape::lemma_leaf_level(offset);
    } else {
        let below = (height - 1) as nat;
        shape::lemma_width(below);
        let w = shape::width(below) as int;
        assert((2 * offset) * w == offset * (2 * w)) by (nonlinear_arith);
        lemma_node_shift::<H>(front, back, below, 2 * offset, 2 * index);
        lemma_node_shift::<H>(front, back, below, 2 * offset, 2 * index + 1);
    }
}

/// The nodes over the first of two halves are those over it alone.
proof fn lemma_node_prefix<H: MerkleHasher>(
    front: Seq<NodeHash>,
    back: Seq<NodeHash>,
    height: nat,
    index: int,
)
    requires
        height >= 1,
        index >= 0,
        (index + 1) * shape::width(height) <= front.len(),
    ensures
        hasher::node::<H>(front + back, height, index) == hasher::node::<H>(front, height, index),
{
    let w = shape::width(height) as int;
    assert(index * w >= 0) by (nonlinear_arith)
        requires
            index >= 0,
            w >= 0,
    ;
    shape::lemma_node_agrees::<H>(front + back, front, height, index);
}

/// The two children of the root are the roots over the two halves.
proof fn lemma_halves<H: MerkleHasher>(front: Seq<NodeHash>, back: Seq<NodeHash>, below: nat)
    requires
        below >= 1,
        front.len() == shape::width(below),
        back.len() == shape::width(below),
    ensures
        hasher::node::<H>(front + back, below, 0) == hasher::node::<H>(front, below, 0),
        hasher::node::<H>(front + back, below, 1) == hasher::node::<H>(back, below, 0),
{
    assert((0 + 1) * shape::width(below) == shape::width(below)) by (nonlinear_arith);
    lemma_node_prefix::<H>(front, back, below, 0);
    assert(1 * shape::width(below) == shape::width(below)) by (nonlinear_arith);
    lemma_node_shift::<H>(front, back, below, 1, 0);
}

/// The root of a subtree is the root of the tree over what its slots hold.
pub proof fn lemma_root<H: MerkleHasher>(tree: &Subtree, height: nat)
    requires
        tree.well_formed::<H>(height),
    ensures
        tree.root_of::<H>(height) == hasher::tree_root::<H>(
            slot_leaves(tree.slots(height)),
            height,
        ),
    decreases height,
{
    let leaves = slot_leaves(tree.slots(height));
    lemma_slots_len::<H>(tree, height);
    match tree {
        Subtree::Empty => {
            let none = Seq::<NodeHash>::empty();
            assert(0 * shape::width(height) == 0) by (nonlinear_arith);
            shape::lemma_node_empty::<H>(none, height, 0);
            shape::lemma_node_agrees::<H>(leaves, none, height, 0);
        },
        Subtree::Leaf(leaf) => {
            assert(leaves[0] == *leaf);
        },
        Subtree::Branch { left, right, .. } => {
            let below = (height - 1) as nat;
            let front = slot_leaves(left.slots(below));
            let back = slot_leaves(right.slots(below));
            lemma_root::<H>(&*left, below);
            lemma_root::<H>(&*right, below);
            lemma_slots_len::<H>(&*left, below);
            lemma_slots_len::<H>(&*right, below);
            assert(leaves =~= front + back);
            lemma_halves::<H>(front, back, below);
        },
    }
}

/// Every ancestor of a slot below the root covers whole leaves of the tree.
proof fn lemma_ancestor_covered(position: int, k: nat, height: nat)
    requires
        1 <= k <= height,
        0 <= position < shape::width(height),
    ensures
        0 <= shape::ancestor(position, k),
        (shape::ancestor(position, k) + 1) * shape::width(k) <= shape::width(height),
    decreases height - k,
{
    if k == height {
        shape::lemma_root_covers(position, height);
        assert((0 + 1) * shape::width(height) == shape::width(height)) by (nonlinear_arith);
    } else {
        lemma_ancestor_covered(position, k + 1, height);
        shape::lemma_ancestor_step(position, k);
        shape::lemma_width(k);
        let own = shape::ancestor(position, k);
        let w = shape::width(k) as int;
        assert((own + 1) * w <= (own / 2 + 1) * (2 * w)) by (nonlinear_arith)
            requires
                own >= 0,
                w >= 0,
        ;
    }
}

/// The sibling of an ancestor below the root is covered too.
proof fn lemma_sibling_covered(position: int, k: nat, height: nat)
    requires
        1 <= k < height,
        0 <= position < shape::width(height),
    ensures
        0 <= shape::other_child(shape::ancestor(position, k)),
        (shape::other_child(shape::ancestor(position, k)) + 1) * shape::width(k) <= shape::width(
            height,
        ),
{
    lemma_ancestor_covered(position, k + 1, height);
    shape::lemma_ancestor_step(position, k);
    shape::lemma_width(k);
    let own = shape::ancestor(position, k);
    let other = shape::other_child(own);
    let w = shape::width(k) as int;
    assert((other + 1) * w <= (own / 2 + 1) * (2 * w)) by (nonlinear_arith)
        requires
            own >= 0,
            w >= 0,
            other <= 2 * (own / 2) + 1,
    ;
}

proof fn lemma_path_left<H: MerkleHasher>(
    inner: Seq<MerkleNode>,
    front: Seq<NodeHash>,
    back: Seq<NodeHash>,
    position: int,
    below: nat,
)
    requires
        below >= 1,
        front.len() == shape::width(below),
        back.len() == shape::width(below),
        0 <= position < shape::width(below),
        is_path::<H>(inner, front, position, below),
    ensures
        is_path::<H>(
            inner.push(MerkleNode::Right(hasher::node::<H>(back, below, 0))),
            front + back,
            position,
            below + 1,
        ),
{
    let path = inner.push(MerkleNode::Right(hasher::node::<H>(back, below, 0)));
    lemma_halves::<H>(front, back, below);
    shape::lemma_root_covers(position, below);
    assert forall|k: nat| 1 <= k < below + 1 implies {
        let own = shape::ancestor(position, k);
        #[trigger] path[k - 1] == (if own % 2 == 0 {
            MerkleNode::Right(hasher::node::<H>(front + back, k, own + 1))
        } else {
            MerkleNode::Left(hasher::node::<H>(front + back, k, own - 1))
        })
    } by {
        if k < below {
            assert(path[k - 1] == inner[k - 1]);
            lemma_sibling_covered(position, k, below);
            lemma_node_prefix::<H>(
                front,
                back,
                k,
                shape::other_child(shape::ancestor(position, k)),
            );
        }
    }
}

proof fn lemma_path_right<H: MerkleHasher>(
    inner: Seq<MerkleNode>,
    front: Seq<NodeHash>,
    back: Seq<NodeHash>,
    position: int,
    below: nat,
)
    requires
        below >= 1,
        front.len() == shape::width(below),
        back.len() == shape::width(below),
        0 <= position < shape::width(below),
        is_path::<H>(inner, back, position, below),
    ensures
        is_path::<H>(
            inner.push(MerkleNode::Left(hasher::node::<H>(front, below, 0))),
            front + back,
            position + shape::width(below),
            below + 1,
        ),
{
    let path = inner.push(MerkleNode::Left(hasher::node::<H>(front, below, 0)));
    let moved = position + shape::width(below);
    lemma_halves::<H>(front, back, below);
    shape::lemma_root_covers(position, below);
    assert forall|k: nat| 1 <= k < below + 1 implies {
        let own = shape::ancestor(moved, k);
        #[trigger] path[k - 1] == (if own % 2 == 0 {
            MerkleNode::Right(hasher::node::<H>(front + back, k, own + 1))
        } else {
            MerkleNode::Left(hasher::node::<H>(front + back, k, own - 1))
        })
    } by {
        lemma_ancestor_shift(position, k, below);
        let offset = pow2((below - k) as nat) as int;
        if k < below {
            assert(path[k - 1] == inner[k - 1]);
            lemma_sibling_covered(position, k, below);
            lemma_pow2_adds((k - 1) as nat, (below - k) as nat);
            assert(offset * shape::width(k) == shape::width(below)) by {
                vstd::arithmetic::mul::lemma_mul_is_commutative(offset, shape::width(k) as int);
            }
            lemma_pow2_unfold((below - k) as nat);
            lemma_node_shift::<H>(
                front,
                back,
                k,
                offset,
                shape::other_child(shape::ancestor(position, k)),
            );
        } else {
            lemma2_to64();
        }
    }
}

/// The ancestors of a slot in the second half come after those of the first half.
proof fn lemma_ancestor_shift(position: int, k: nat, below: nat)
    requires
        1 <= k <= below,
        position >= 0,
    ensures
        shape::ancestor(position + shape::width(below), k) == shape::ancestor(position, k) + pow2(
            (below - k) as nat,
        ),
{
    lemma_pow2_adds((k - 1) as nat, (below - k) as nat);
    shape::lemma_width(k);
    let w = shape::width(k) as int;
    let offset = pow2((below - k) as nat) as int;
    assert(shape::width(below) == w * offset);
    vstd::arithmetic::div_mod::lemma_hoist_over_denominator(position, offset, w as nat);
    vstd::arithmetic::mul::lemma_mul_is_commutative(w, offset);
}

/// A Merkle tree whose slots can be filled, changed and emptied. Versions of a tree
/// share what they have in common.
#[verifier::reject_recursive_types(H)]
pub struct DynamicMerkleTree<H> {
    tree: Arc<Subtree>,
    hasher: std::marker::PhantomData<H>,
}

impl<H: MerkleHasher> DynamicMerkleTree<H> {
    /// What each slot holds.
    pub closed spec fn slots(&self) -> Seq<Option<NodeHash>> {
        self.tree.slots(TREE_HEIGHT as nat)
    }

    /// Whether the stored roots and sizes are right.
    pub closed spec fn well_formed(&self) -> bool {
        self.tree.well_formed::<H>(TREE_HEIGHT as nat)
    }

    /// The number of slots.
    pub open spec fn capacity() -> nat {
        shape::width(TREE_HEIGHT as nat)
    }

    /// The root of the tree over what the slots hold.
    pub open spec fn root_of(&self) -> NodeHash {
        hasher::tree_root::<H>(slot_leaves(self.slots()), TREE_HEIGHT as nat)
    }

    /// There are as many slots as a tree of this height has.
    pub proof fn lemma_capacity(&self)
        requires
            self.well_formed(),
        ensures
            self.slots().len() == Self::capacity(),
            Self::capacity() == CAPACITY,
            occupied(self.slots()) <= Self::capacity(),
    {
        lemma_slots_len::<H>(&*self.tree, TREE_HEIGHT as nat);
        lemma_occupied_bound(self.slots());
        lemma2_to64();
    }

    /// Makes a tree whose slots are empty.
    pub fn new() -> (r: Self)
        ensures
            r.well_formed(),
            r.slots() == Seq::new(Self::capacity(), |i: int| None::<NodeHash>),
            occupied(r.slots()) == 0,
    {
        let r = DynamicMerkleTree {
            tree: Arc::new(Subtree::Empty),
            hasher: std::marker::PhantomData,
        };
        proof {
            lemma_all_none(r.slots());
        }
        r
    }

    /// The number of slots that are filled.
    pub fn size(&self) -> (r: usize)
        requires
            self.well_formed(),
            occupied(self.slots()) <= usize::MAX,
        ensures
            r == occupied(self.slots()),
    {
        self.tree.size::<H>(TREE_HEIGHT) as usize
    }

    /// Computes the root.
    pub fn root(&self) -> (r: NodeHash)
        requires
            self.well_formed(),
        ensures
            r == self.root_of(),
    {
        proof {
            lemma_root::<H>(&*self.tree, TREE_HEIGHT as nat);
        }
        self.tree.root::<H>(TREE_HEIGHT)
    }

    /// Fills the first empty slot, and tells which it is.
    pub fn insert(&self, leaf: NodeHash) -> (r: (Self, usize))
        requires
            self.well_formed(),
            occupied(self.slots()) < Self::capacity(),
        ensures
            r.0.well_formed(),
            is_first_free(self.slots(), r.1 as int),
            r.0.slots() == self.slots().update(r.1 as int, Some(leaf)),
            occupied(r.0.slots()) == occupied(self.slots()) + 1,
    {
        proof {
            self.lemma_capacity();
        }
        let position: u64 = self.tree.first_free::<H>(TREE_HEIGHT);
        let tree: Subtree = self.tree.set::<H>(TREE_HEIGHT, position, Some(leaf));
        proof {
            lemma_occupied_update(self.slots(), position as int, Some(leaf));
        }
        (
            DynamicMerkleTree { tree: Arc::new(tree), hasher: std::marker::PhantomData },
            position as usize,
        )
    }

    /// Fills the slot at `position`, in place of what it held.
    pub fn update(&self, position: usize, leaf: NodeHash) -> (r: Self)
        requires
            self.well_formed(),
            position < Self::capacity(),
        ensures
            r.well_formed(),
            r.slots() == self.slots().update(position as int, Some(leaf)),
    {
        let tree: Subtree = self.tree.set::<H>(TREE_HEIGHT, position as u64, Some(leaf));
        DynamicMerkleTree { tree: Arc::new(tree), hasher: std::marker::PhantomData }
    }

    /// Empties the slot at `position`.
    pub fn remove(&self, position: usize) -> (r: Self)
        requires
            self.well_formed(),
            position < Self::capacity(),
        ensures
            r.well_formed(),
            r.slots() == self.slots().update(position as int, None),
    {
        let tree: Subtree = self.tree.set::<H>(TREE_HEIGHT, position as u64, None);
        DynamicMerkleTree { tree: Arc::new(tree), hasher: std::marker::PhantomData }
    }

    /// The siblings on the way from a slot that is filled to the root.
    pub fn path(&self, position: usize) -> (r: Option<MerklePath>)
        requires
            self.well_formed(),
            position < Self::capacity(),
        ensures
            r is Some <==> self.slots()[position as int] is Some,
            r matches Some(path) ==> is_path::<H>(
                path@,
                slot_leaves(self.slots()),
                position as int,
                TREE_HEIGHT as nat,
            ),
    {
        match self.tree.get::<H>(TREE_HEIGHT, position as u64) {
            Some(_) => Some(self.tree.path::<H>(TREE_HEIGHT, position as u64)),
            None => None,
        }
    }
}

impl<H> Clone for DynamicMerkleTree<H> {
    fn clone(&self) -> (r: Self)
        ensures
            r == *self,
    {
        DynamicMerkleTree { tree: self.tree.clone(), hasher: std::marker::PhantomData }
    }
}

} // verus!
