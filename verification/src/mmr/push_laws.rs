//! Laws of what is pushed to a range.
use vstd::arithmetic::power2::*;
use vstd::prelude::*;

use crate::merkle::hash_laws;
use crate::merkle::hasher::{MerkleHasher, NodeHash};
use crate::mmr;
use crate::mmr::laws;
use crate::mmr::model;
use crate::mmr::path::MerklePath;
use crate::mmr::{MerkleMountainRange, Root};

verus! {

/// The root of a range is that of its leaves hashed together pair by pair, the left one first,
/// with leaves of zeros after the last one.
pub proof fn ranges_are_hashed_pair_by_pair<H: MerkleHasher, const MAX_HEIGHT: u8>(
    range: MerkleMountainRange<H, MAX_HEIGHT>,
    leaves: Seq<NodeHash>,
    pad: NodeHash,
)
    requires
        range.well_formed(),
        range.represents(leaves),
        pad@ == Seq::new(32, |k: int| 0u8),
    ensures
        range.root() == hash_laws::root_of_halves::<H>(
            hash_laws::window(leaves, 0, pow2((MAX_HEIGHT - 1) as nat), pad),
        ),
        range.leaf_count() == leaves.len(),
{
    laws::range_commits_to_its_leaves(range, leaves);
    hash_laws::roots_are_hashed_pair_by_pair::<H>(leaves, MAX_HEIGHT as nat, pad);
}

/// The leaves under a range are those under its peaks, and a peak of height one is a leaf. Each
/// height more doubles the leaves.
pub proof fn peaks_double_with_their_height(peaks: Seq<Root>)
    requires
        forall|i: int| 0 <= i < peaks.len() ==> (#[trigger] peaks[i]).height >= 1,
    ensures
        model::leaf_count(peaks) == peaks.fold_left(
            0int,
            |count: int, peak: Root| count + pow2((peak.height - 1) as nat),
        ),
    decreases peaks.len(),
{
    if peaks.len() > 0 {
        let rest = peaks.drop_last();
        assert(forall|i: int| 0 <= i < rest.len() ==> rest[i] == peaks[i]);
        peaks_double_with_their_height(rest);
        assert(peaks.last() == peaks[peaks.len() - 1]);
    }
}

/// Paths can be kept up to date if and only if each has a sibling for each height but the last,
/// and is that of a leaf of the range.
pub proof fn only_paths_of_the_range_are_kept(
    paths: Seq<MerklePath>,
    max_height: u8,
    leaf_count: nat,
    from: nat,
)
    ensures
        mmr::path_mismatch(paths, max_height, leaf_count, from) is None <==> forall|i: int|
            from <= i < paths.len() ==> (#[trigger] paths[i]).hashes().len() == max_height - 1
                && paths[i].index() < leaf_count,
    decreases paths.len() - from,
{
    if from < paths.len() {
        only_paths_of_the_range_are_kept(paths, max_height, leaf_count, from + 1);
        let here = paths[from as int];
        if mmr::path_mismatch(paths, max_height, leaf_count, from) is None {
            assert(here.hashes().len() == max_height - 1 && here.index() < leaf_count);
        }
    }
}

} // verus!
