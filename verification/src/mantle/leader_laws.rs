//! Laws of the rewards of leaders.
use vstd::prelude::*;

use crate::mantle::leader::LeaderState;
use crate::merkle::hasher::MerkleHasher;
use crate::types::Epoch;

verus! {

/// What can be claimed is shared equally among the vouchers of the snapshot that were not
/// claimed, rounded down to whole tokens. If all of them were claimed, there is no reward.
pub proof fn rewards_are_equal_shares<H: MerkleHasher>(state: LeaderState<H>)
    ensures
        ({
            let left = state.vouchers_snapshot.count - state.nfs@.len();
            &&& left > 0 ==> state.reward() * left <= state.claimable_rewards < (state.reward() + 1)
                * left
            &&& left <= 0 ==> state.reward() == 0
            &&& state.reward() >= 0
        }),
{
    let left = state.vouchers_snapshot.count - state.nfs@.len();
    let all = state.claimable_rewards as int;
    if left > 0 {
        let share = all / left;
        assert(share * left <= all < (share + 1) * left && share >= 0) by (nonlinear_arith)
            requires
                left > 0,
                all >= 0,
                share == all / left,
        ;
    }
}

/// A claim of one reward leaves each of the others at least as much.
pub proof fn claims_leave_the_others_their_share<H: MerkleHasher>(
    before: LeaderState<H>,
    after: LeaderState<H>,
)
    requires
        before.vouchers_snapshot == after.vouchers_snapshot,
        after.nfs@.len() == before.nfs@.len() + 1,
        before.nfs@.len() + 1 < before.vouchers_snapshot.count,
        after.claimable_rewards == before.claimable_rewards - before.reward(),
    ensures
        before.reward() <= after.reward() <= before.reward() + 1,
{
    let left = before.vouchers_snapshot.count - before.nfs@.len();
    crate::session::leader::later_claims_are_worth_as_much(before.claimable_rewards as int, left);
}

/// When an epoch starts, the vouchers so far are taken, and what was collected can be claimed
/// besides what was left. Within an epoch nothing of that changes.
pub proof fn epochs_release_what_was_collected<H: MerkleHasher>(
    state: LeaderState<H>,
    epoch: Epoch,
)
    requires
        state.claimable_rewards + state.pending_rewards <= u64::MAX,
        state.vouchers.leaf_count() <= u64::MAX,
    ensures
        epoch > state.epoch ==> {
            &&& state.at_epoch(epoch).epoch == epoch
            &&& state.at_epoch(epoch).vouchers_snapshot.count == state.vouchers.leaf_count()
            &&& state.at_epoch(epoch).vouchers_snapshot.root == state.vouchers.root()
            &&& state.at_epoch(epoch).claimable_rewards == state.claimable_rewards
                + state.pending_rewards
            &&& state.at_epoch(epoch).pending_rewards == 0
        },
        epoch <= state.epoch ==> state.at_epoch(epoch) == state,
        state.at_epoch(epoch).nfs == state.nfs,
        state.at_epoch(epoch).vouchers == state.vouchers,
{
}

} // verus!
