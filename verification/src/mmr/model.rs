//! The mathematics of a Merkle Mountain Range: what its peaks are, and how they
//! relate to the tree over the leaves that were pushed.
use vstd::arithmetic::div_mod::*;
use vstd::arithmetic::mul::*;
use vstd::arithmetic::power2::*;
use vstd::prelude::*;

use crate::merkle::hasher;
use crate::merkle::hasher::{MerkleHasher, NodeHash};
use crate::merkle::shape;
use crate::mmr::Root;

verus! {

/// The number of leaves under `peaks`.
pub open spec fn leaf_count(peaks: Seq<Root>) -> nat
    decreases peaks.len(),
{
    if peaks.len() == 0 {
        0
    } else {
        leaf_count(peaks.drop_last()) + shape::width(peaks.last().height as nat)
    }
}

/// Whether the heights of `peaks` fall from the bottom to the top, and are
/// between `low` and `high`.
pub open spec fn descending(peaks: Seq<Root>, low: nat, high: nat) -> bool {
    &&& forall|i: int| 0 <= i < peaks.len() ==> low <= (#[trigger] peaks[i]).height <= high
    &&& forall|i: int, j: int|
        0 <= i < j < peaks.len() ==> (#[trigger] peaks[i]).height > (#[trigger] peaks[j]).height
}

/// Whether `peaks` are the peaks of a range of at most `max_height` levels.
pub open spec fn well_formed(peaks: Seq<Root>, max_height: nat) -> bool {
    &&& descending(peaks, 1, max_height)
    &&& peaks.len() > 1 ==> peaks[0].height < max_height
}

/// The peaks after the complete tree `tree` was appended to `peaks`: trees of the
/// same height are merged into one.
pub open spec fn merge<H: MerkleHasher>(peaks: Seq<Root>, tree: Root) -> Seq<Root>
    decreases peaks.len(),
{
    if peaks.len() > 0 && peaks.last().height == tree.height {
        merge::<H>(
            peaks.drop_last(),
            Root {
                root: H::parent(peaks.last().root, tree.root),
                height: (tree.height + 1) as u8,
            },
        )
    } else {
        peaks.push(tree)
    }
}

/// The node at height `target` above `subtree`, the node at `height` that comes
/// right after `peaks`, when nothing comes after it.
pub open spec fn grow<H: MerkleHasher>(
    peaks: Seq<Root>,
    subtree: NodeHash,
    height: nat,
    target: nat,
) -> NodeHash
    decreases target - height,
{
    if height >= target {
        subtree
    } else if peaks.len() > 0 && peaks.last().height == height {
        grow::<H>(
            peaks.drop_last(),
            H::parent(peaks.last().root, subtree),
            height + 1,
            target,
        )
    } else {
        grow::<H>(peaks, H::parent(subtree, hasher::empty_root::<H>(height)), height + 1, target)
    }
}

/// The siblings, from `height` up to below `target`, on the path from a node at
/// `height` that comes right after `peaks`, when nothing comes after it.
pub open spec fn frontier_siblings<H: MerkleHasher>(
    peaks: Seq<Root>,
    height: nat,
    target: nat,
) -> Seq<NodeHash>
    decreases target - height,
{
    if height >= target {
        Seq::empty()
    } else if peaks.len() > 0 && peaks.last().height == height {
        seq![peaks.last().root] + frontier_siblings::<H>(peaks.drop_last(), height + 1, target)
    } else {
        seq![hasher::empty_root::<H>(height)] + frontier_siblings::<H>(peaks, height + 1, target)
    }
}

/// The root of the tree of `max_height` levels that `peaks` and empty leaves
/// after them make up.
pub open spec fn frontier<H: MerkleHasher>(peaks: Seq<Root>, max_height: nat) -> NodeHash {
    if peaks.len() == 0 {
        hasher::empty_root::<H>(max_height)
    } else {
        grow::<H>(peaks.drop_last(), peaks.last().root, peaks.last().height as nat, max_height)
    }
}

/// Whether each of `peaks` is the node of the tree over `leaves` that stands in
/// its place.
pub open spec fn peaks_are_nodes<H: MerkleHasher>(
    peaks: Seq<Root>,
    leaves: Seq<NodeHash>,
) -> bool
    decreases peaks.len(),
{
    peaks.len() > 0 ==> {
        let height = peaks.last().height as nat;
        &&& peaks_are_nodes::<H>(peaks.drop_last(), leaves)
        &&& peaks.last().root == hasher::node::<H>(
            leaves,
            height,
            leaf_count(peaks.drop_last()) as int / shape::width(height) as int,
        )
    }
}

/// Whether `peaks` are what pushing `leaves`, one by one, leaves behind.
pub open spec fn represents<H: MerkleHasher>(peaks: Seq<Root>, leaves: Seq<NodeHash>) -> bool {
    &&& leaf_count(peaks) == leaves.len()
    &&& peaks_are_nodes::<H>(peaks, leaves)
}

/// The leaves under peaks of at least `height` levels fill whole nodes there.
pub proof fn lemma_count_fills_nodes(peaks: Seq<Root>, height: nat, high: nat) -> (nodes: int)
    requires
        height >= 1,
        descending(peaks, height, high),
    ensures
        nodes >= 0,
        leaf_count(peaks) == nodes * shape::width(height),
        leaf_count(peaks) as int / shape::width(height) as int == nodes,
    decreases peaks.len(),
{
    shape::lemma_width(height);
    let w = shape::width(height) as int;
    if peaks.len() == 0 {
        lemma_div_basics(w);
        0
    } else {
        let below = peaks.drop_last();
        let top = peaks.last().height as nat;
        let nodes = lemma_count_fills_nodes(below, height, high);
        lemma_pow2_adds((height - 1) as nat, (top - height) as nat);
        lemma_pow2_pos((top - height) as nat);
        let more = pow2((top - height) as nat) as int;
        assert(shape::width(top) == w * more);
        assert((nodes + more) * w == nodes * w + w * more) by (nonlinear_arith);
        lemma_div_multiples_vanish(nodes + more, w);
        lemma_mul_is_commutative(w, nodes + more);
        nodes + more
    }
}

/// Peaks below `high` levels hold fewer leaves than a complete tree one level up.
pub proof fn lemma_count_bound(peaks: Seq<Root>, high: nat)
    requires
        descending(peaks, 1, high),
    ensures
        leaf_count(peaks) < pow2(high),
        peaks.len() > 0 ==> leaf_count(peaks) + shape::width(peaks.last().height as nat) <= pow2(high),
        peaks.len() > 0 ==> leaf_count(peaks) >= shape::width(peaks[0].height as nat) > 0,
    decreases peaks.len(),
{
    lemma_pow2_pos(high);
    if peaks.len() > 0 {
        let top = peaks.last().height as nat;
        shape::lemma_width(top);
        shape::lemma_width_monotonic(top + 1, high + 1);
        let below = peaks.drop_last();
        lemma_count_bound(below, high);
        if below.len() > 0 {
            assert(below.last() == peaks[peaks.len() - 2]);
            assert(below[0] == peaks[0]);
            shape::lemma_width_monotonic(top + 1, below.last().height as nat);
        }
    }
}

/// A well-formed range is full exactly when its top peak has the full height.
pub proof fn lemma_full(peaks: Seq<Root>, max_height: nat)
    requires
        max_height >= 1,
        well_formed(peaks, max_height),
    ensures
        leaf_count(peaks) <= shape::width(max_height),
        (leaf_count(peaks) == shape::width(max_height)) <==> (peaks.len() > 0 && peaks.last().height
            == max_height),
        leaf_count(peaks) < shape::width(max_height) ==> descending(peaks, 1, (max_height - 1) as nat),
        (leaf_count(peaks) == 0) <==> peaks.len() == 0,
{
    if peaks.len() > 0 {
        if peaks[0].height == max_height {
            assert(peaks.len() == 1);
            assert(peaks.drop_last().len() == 0);
            shape::lemma_width(max_height);
            assert(leaf_count(peaks.drop_last()) == 0);
        } else {
            assert forall|i: int| 0 <= i < peaks.len() implies (#[trigger] peaks[i]).height
                <= max_height - 1 by {
                assert(peaks[i].height <= peaks[0].height);
            }
            lemma_count_bound(peaks, (max_height - 1) as nat);
        }
    } else {
        shape::lemma_width(max_height);
    }
}

/// More leaves at the end do not change peaks that are complete already.
pub proof fn lemma_peaks_keep<H: MerkleHasher>(
    peaks: Seq<Root>,
    leaves: Seq<NodeHash>,
    more: Seq<NodeHash>,
    high: nat,
)
    requires
        descending(peaks, 1, high),
        peaks_are_nodes::<H>(peaks, leaves),
        leaf_count(peaks) <= leaves.len() <= more.len(),
        more.take(leaves.len() as int) == leaves,
    ensures
        peaks_are_nodes::<H>(peaks, more),
    decreases peaks.len(),
{
    if peaks.len() > 0 {
        let below = peaks.drop_last();
        let top = peaks.last().height as nat;
        lemma_peaks_keep::<H>(below, leaves, more, high);
        lemma_below_is_above(peaks, 1, high);
        let nodes = lemma_count_fills_nodes(below, top, high);
        let w = shape::width(top) as int;
        assert((nodes + 1) * w == nodes * w + w) by (nonlinear_arith);
        assert forall|i: int| nodes * w <= i < (nodes + 1) * w implies hasher::leaf_at(leaves, i)
            == hasher::leaf_at(more, i) by {
            assert(nodes * w >= 0) by (nonlinear_arith)
                requires
                    nodes >= 0,
                    w >= 0,
            ;
            assert(more.take(leaves.len() as int)[i] == more[i]);
        }
        shape::lemma_node_agrees::<H>(leaves, more, top, nodes);
    }
}

/// The peaks under the top one are higher than it.
pub proof fn lemma_below_is_above(peaks: Seq<Root>, low: nat, high: nat)
    requires
        peaks.len() > 0,
        descending(peaks, low, high),
    ensures
        descending(peaks.drop_last(), (peaks.last().height + 1) as nat, high),
        low <= peaks.last().height <= high,
{
}

/// A node at `height` that comes right after `peaks` is a right child exactly
/// when the top peak is at that height, and that peak is then its sibling.
pub proof fn lemma_top_peak(peaks: Seq<Root>, height: nat, high: nat, index: int)
    requires
        height >= 1,
        index >= 0,
        descending(peaks, height, high),
        leaf_count(peaks) == index * shape::width(height),
    ensures
        (peaks.len() > 0 && peaks.last().height == height) <==> index % 2 == 1,
        index % 2 == 1 ==> {
            &&& descending(peaks.drop_last(), height + 1, high)
            &&& leaf_count(peaks.drop_last()) == (index / 2) * shape::width(height + 1)
            &&& leaf_count(peaks.drop_last()) as int / shape::width(height) as int == index - 1
        },
        index % 2 == 0 ==> {
            &&& descending(peaks, height + 1, high)
            &&& leaf_count(peaks) == (index / 2) * shape::width(height + 1)
        },
{
    shape::lemma_width(height);
    let w = shape::width(height) as int;
    if peaks.len() > 0 && peaks.last().height == height {
        let below = peaks.drop_last();
        lemma_below_is_above(peaks, height, high);
        let nodes = lemma_count_fills_nodes(below, height + 1, high);
        assert(nodes * (2 * w) == (2 * nodes) * w) by (nonlinear_arith);
        assert((2 * nodes + 1) * w == (2 * nodes) * w + w) by (nonlinear_arith);
        assert(index == 2 * nodes + 1) by {
            lemma_mul_is_commutative(w, index);
            lemma_mul_is_commutative(w, 2 * nodes + 1);
            lemma_mul_equality_converse(w, index, 2 * nodes + 1);
        }
        lemma_div_multiples_vanish(2 * nodes, w);
        lemma_mul_is_commutative(w, 2 * nodes);
    } else {
        assert(descending(peaks, height + 1, high)) by {
            assert forall|i: int| 0 <= i < peaks.len() implies height + 1 <= (
            #[trigger] peaks[i]).height by {
                assert(peaks[i].height >= peaks.last().height);
            }
        }
        let nodes = lemma_count_fills_nodes(peaks, height + 1, high);
        assert(nodes * (2 * w) == (2 * nodes) * w) by (nonlinear_arith);
        assert(index == 2 * nodes) by {
            lemma_mul_is_commutative(w, index);
            lemma_mul_is_commutative(w, 2 * nodes);
            lemma_mul_equality_converse(w, index, 2 * nodes);
        }
    }
}

/// Growing from a node of the tree over `leaves` reaches the nodes above it.
pub proof fn lemma_grow<H: MerkleHasher>(
    peaks: Seq<Root>,
    leaves: Seq<NodeHash>,
    subtree: NodeHash,
    leaf: int,
    height: nat,
    target: nat,
    high: nat,
)
    requires
        1 <= height <= target,
        leaf >= 0,
        descending(peaks, height, high),
        peaks_are_nodes::<H>(peaks, leaves),
        leaf_count(peaks) == shape::ancestor(leaf, height) * shape::width(height),
        leaves.len() <= (shape::ancestor(leaf, height) + 1) * shape::width(height),
        subtree == hasher::node::<H>(leaves, height, shape::ancestor(leaf, height)),
    ensures
        grow::<H>(peaks, subtree, height, target) == hasher::node::<H>(
            leaves,
            target,
            shape::ancestor(leaf, target),
        ),
    decreases target - height,
{
    if height < target {
        let index = shape::ancestor(leaf, height);
        let w = shape::width(height) as int;
        shape::lemma_width(height);
        shape::lemma_ancestor_step(leaf, height);
        lemma_top_peak(peaks, height, high, index);
        assert((index / 2 + 1) * (2 * w) == (2 * (index / 2) + 2) * w) by (nonlinear_arith);
        if index % 2 == 1 {
            assert(index + 1 == 2 * (index / 2) + 2);
            lemma_grow::<H>(
                peaks.drop_last(),
                leaves,
                H::parent(peaks.last().root, subtree),
                leaf,
                height + 1,
                target,
                high,
            );
        } else {
            assert((index + 1) * w <= (2 * (index / 2) + 2) * w) by (nonlinear_arith)
                requires
                    index % 2 == 0,
                    w > 0,
            ;
            shape::lemma_node_empty::<H>(leaves, height, index + 1);
            lemma_grow::<H>(
                peaks,
                leaves,
                H::parent(subtree, hasher::empty_root::<H>(height)),
                leaf,
                height + 1,
                target,
                high,
            );
        }
    }
}

/// The siblings on the way up from a node of the tree over `leaves` are the peaks
/// and the empty trees beside it.
pub proof fn lemma_frontier_siblings<H: MerkleHasher>(
    peaks: Seq<Root>,
    leaves: Seq<NodeHash>,
    leaf: int,
    height: nat,
    target: nat,
    high: nat,
)
    requires
        1 <= height <= target,
        leaf >= 0,
        descending(peaks, height, high),
        peaks_are_nodes::<H>(peaks, leaves),
        leaf_count(peaks) == shape::ancestor(leaf, height) * shape::width(height),
        leaves.len() <= (shape::ancestor(leaf, height) + 1) * shape::width(height),
    ensures
        frontier_siblings::<H>(peaks, height, target).len() == target - height,
        forall|k: nat|
            height <= k < target ==> #[trigger] frontier_siblings::<H>(peaks, height, target)[k
                - height] == hasher::node::<H>(leaves, k, shape::other_child(shape::ancestor(leaf, k))),
    decreases target - height,
{
    if height < target {
        let index = shape::ancestor(leaf, height);
        let w = shape::width(height) as int;
        shape::lemma_width(height);
        shape::lemma_ancestor_step(leaf, height);
        lemma_top_peak(peaks, height, high, index);
        assert((index / 2 + 1) * (2 * w) == (2 * (index / 2) + 2) * w) by (nonlinear_arith);
        assert((index + 1) * w <= (2 * (index / 2) + 2) * w) by (nonlinear_arith)
            requires
                w > 0,
        ;
        let rest = if index % 2 == 1 {
            peaks.drop_last()
        } else {
            peaks
        };
        lemma_frontier_siblings::<H>(rest, leaves, leaf, height + 1, target, high);
        if index % 2 == 0 {
            shape::lemma_node_empty::<H>(leaves, height, index + 1);
        }
        let all = frontier_siblings::<H>(peaks, height, target);
        let above = frontier_siblings::<H>(rest, height + 1, target);
        assert forall|k: nat| height <= k < target implies #[trigger] all[k - height]
            == hasher::node::<H>(leaves, k, shape::other_child(shape::ancestor(leaf, k))) by {
            if k > height {
                assert(all[k - height] == above[k - (height + 1)]);
            }
        }
    }
}

/// Climbing along the siblings beside the next leaf gives what growing it gives.
pub proof fn lemma_climb_frontier<H: MerkleHasher>(
    index: int,
    siblings: Seq<NodeHash>,
    peaks: Seq<Root>,
    current: NodeHash,
    height: nat,
    high: nat,
)
    requires
        index >= 0,
        1 <= height <= siblings.len() + 1,
        descending(peaks, height, high),
        leaf_count(peaks) == shape::ancestor(index, height) * shape::width(height),
        siblings.skip(height - 1) == frontier_siblings::<H>(peaks, height, siblings.len() + 1),
    ensures
        shape::climb::<H>(index, siblings, current, height) == grow::<H>(
            peaks,
            current,
            height,
            siblings.len() + 1,
        ),
    decreases siblings.len() + 1 - height,
{
    if height <= siblings.len() {
        let rest = siblings.skip(height - 1);
        shape::lemma_ancestor_step(index, height);
        lemma_top_peak(peaks, height, high, shape::ancestor(index, height));
        assert(rest[0] == siblings[height - 1]);
        assert(siblings.skip(height as int) =~= rest.skip(1));
        if shape::ancestor(index, height) % 2 == 1 {
            let above = frontier_siblings::<H>(peaks.drop_last(), height + 1, siblings.len() + 1);
            assert(rest.skip(1) =~= above);
            lemma_climb_frontier::<H>(
                index,
                siblings,
                peaks.drop_last(),
                H::parent(siblings[height - 1], current),
                height + 1,
                high,
            );
        } else {
            let above = frontier_siblings::<H>(peaks, height + 1, siblings.len() + 1);
            assert(rest.skip(1) =~= above);
            lemma_climb_frontier::<H>(
                index,
                siblings,
                peaks,
                H::parent(current, siblings[height - 1]),
                height + 1,
                high,
            );
        }
    }
}

/// Appending a leaf changes one sibling of an earlier leaf: the one that the new
/// leaf is under.
pub proof fn lemma_siblings_after_push<H: MerkleHasher>(
    leaves: Seq<NodeHash>,
    elem: NodeHash,
    index: int,
    max_height: nat,
    height: nat,
)
    requires
        0 <= index < leaves.len(),
        1 <= height < max_height,
        shape::siblings_at(leaves.len() as int, index, height),
    ensures
        shape::siblings_of::<H>(leaves.push(elem), index, max_height) == shape::siblings_of::<H>(
            leaves,
            index,
            max_height,
        ).update(
            height - 1,
            hasher::node::<H>(leaves.push(elem), height, shape::ancestor(leaves.len() as int, height)),
        ),
{
    let after = leaves.push(elem);
    let new = leaves.len() as int;
    let left = shape::siblings_of::<H>(after, index, max_height);
    let right = shape::siblings_of::<H>(leaves, index, max_height).update(
        height - 1,
        hasher::node::<H>(after, height, shape::ancestor(new, height)),
    );
    assert forall|i: int| 0 <= i < left.len() implies left[i] == right[i] by {
        let k = (i + 1) as nat;
        if k != height {
            let sibling = shape::other_child(shape::ancestor(index, k));
            let w = shape::width(k) as int;
            shape::lemma_width(k);
            if shape::ancestor(new, k) == sibling {
                shape::lemma_sibling_height_unique(new, index, k, height);
            }
            assert forall|j: int| sibling * w <= j < (sibling + 1) * w implies hasher::leaf_at(
                after,
                j,
            ) == hasher::leaf_at(leaves, j) by {
                if j == new {
                    assert(j - sibling * w < w) by (nonlinear_arith)
                        requires
                            j < (sibling + 1) * w,
                    ;
                    lemma_fundamental_div_mod_converse(j, w, sibling, j - sibling * w);
                }
            }
            shape::lemma_node_agrees::<H>(after, leaves, k, sibling);
        }
    }
    assert(left =~= right);
}

/// Appending a complete tree of the right leaves gives the peaks of the longer
/// range.
pub proof fn lemma_merge<H: MerkleHasher>(
    peaks: Seq<Root>,
    leaves: Seq<NodeHash>,
    tree: Root,
    leaf: int,
    high: nat,
)
    requires
        tree.height >= 1,
        high < 255,
        leaf >= 0,
        descending(peaks, tree.height as nat, high),
        peaks_are_nodes::<H>(peaks, leaves),
        leaf_count(peaks) == shape::ancestor(leaf, tree.height as nat) * shape::width(tree.height as nat),
        tree.root == hasher::node::<H>(
            leaves,
            tree.height as nat,
            shape::ancestor(leaf, tree.height as nat),
        ),
    ensures
        peaks_are_nodes::<H>(merge::<H>(peaks, tree), leaves),
    decreases peaks.len(),
{
    let height = tree.height as nat;
    let index = shape::ancestor(leaf, height);
    shape::lemma_width(height);
    shape::lemma_ancestor_step(leaf, height);
    lemma_top_peak(peaks, height, high, index);
    if peaks.len() > 0 && peaks.last().height == tree.height {
        let merged = Root {
            root: H::parent(peaks.last().root, tree.root),
            height: (tree.height + 1) as u8,
        };
        lemma_merge::<H>(peaks.drop_last(), leaves, merged, leaf, high);
    } else {
        assert(peaks.push(tree).drop_last() =~= peaks);
        lemma_div_multiples_vanish(index, shape::width(height) as int);
        lemma_mul_is_commutative(index, shape::width(height) as int);
    }
}

/// Appending a complete tree adds its leaves, and keeps the peaks well-formed.
pub proof fn lemma_merge_shape<H: MerkleHasher>(peaks: Seq<Root>, tree: Root, max_height: nat)
    requires
        1 <= tree.height <= max_height < 255,
        descending(peaks, tree.height as nat, (max_height - 1) as nat),
    ensures
        well_formed(merge::<H>(peaks, tree), max_height),
        leaf_count(merge::<H>(peaks, tree)) == leaf_count(peaks) + shape::width(tree.height as nat),
    decreases peaks.len(),
{
    shape::lemma_width(tree.height as nat);
    if peaks.len() > 0 && peaks.last().height == tree.height {
        lemma_below_is_above(peaks, tree.height as nat, (max_height - 1) as nat);
        let merged = Root {
            root: H::parent(peaks.last().root, tree.root),
            height: (tree.height + 1) as u8,
        };
        lemma_merge_shape::<H>(peaks.drop_last(), merged, max_height);
    } else {
        let all = peaks.push(tree);
        assert(all.drop_last() =~= peaks);
        assert forall|i: int| 0 <= i < peaks.len() implies (#[trigger] peaks[i]).height
            > tree.height by {
            assert(peaks[i].height >= peaks.last().height);
        }
    }
}

/// The root of a range that a tree was appended to is what that tree grows into.
pub proof fn lemma_frontier_of_merge<H: MerkleHasher>(
    peaks: Seq<Root>,
    tree: Root,
    max_height: nat,
)
    requires
        1 <= tree.height <= max_height < 255,
        descending(peaks, tree.height as nat, (max_height - 1) as nat),
    ensures
        frontier::<H>(merge::<H>(peaks, tree), max_height) == grow::<H>(
            peaks,
            tree.root,
            tree.height as nat,
            max_height,
        ),
    decreases peaks.len(),
{
    if peaks.len() > 0 && peaks.last().height == tree.height {
        lemma_below_is_above(peaks, tree.height as nat, (max_height - 1) as nat);
        let merged = Root {
            root: H::parent(peaks.last().root, tree.root),
            height: (tree.height + 1) as u8,
        };
        lemma_frontier_of_merge::<H>(peaks.drop_last(), merged, max_height);
    } else {
        assert(peaks.push(tree).drop_last() =~= peaks);
    }
}

/// There is one sibling at each height.
pub proof fn lemma_frontier_siblings_len<H: MerkleHasher>(peaks: Seq<Root>, height: nat, target: nat)
    requires
        height <= target,
    ensures
        frontier_siblings::<H>(peaks, height, target).len() == target - height,
    decreases target - height,
{
    if height < target {
        if peaks.len() > 0 && peaks.last().height == height {
            lemma_frontier_siblings_len::<H>(peaks.drop_last(), height + 1, target);
        } else {
            lemma_frontier_siblings_len::<H>(peaks, height + 1, target);
        }
    }
}

} // verus!
