//! Rewards of block leaders.
use vstd::prelude::*;

use crate::collections::trie_set::TrieSet;
use crate::merkle::hasher::{MerkleHasher, NodeHash};
use crate::mmr;
use crate::mmr::MerkleMountainRange;
use crate::types::{Epoch, Value, VoucherCm};

verus! {

/// The number of levels of the range of vouchers.
pub const VOUCHERS_HEIGHT: u8 = 33;

/// Failure of an operation on the state of leaders.
#[derive(Clone, Copy, Debug, PartialEq, Eq, Structural)]
pub enum Error {
    /// The voucher was claimed already.
    DuplicatedVoucherNullifier,
    /// The voucher is not one that can be claimed.
    VoucherNotFound,
    /// The epoch is over already.
    InvalidEpoch { current: Epoch, incoming: Epoch },
}

/// The vouchers at the start of an epoch.
#[derive(Clone, Copy, Debug, PartialEq, Eq)]
pub struct VouchersSnapshot {
    /// The root of the range of vouchers.
    pub root: NodeHash,
    /// The number of vouchers, those that were claimed among them.
    pub count: u64,
}

/// The state of the rewards of leaders.
#[verifier::reject_recursive_types(H)]
pub struct LeaderState<H> {
    /// The current epoch.
    pub epoch: Epoch,
    /// The vouchers at the start of the epoch.
    pub vouchers_snapshot: VouchersSnapshot,
    /// The nullifiers of vouchers that were claimed.
    pub nfs: TrieSet,
    /// What can be claimed. At the start of each epoch it gets what was collected during
    /// the last one. What is not claimed stays.
    pub claimable_rewards: Value,
    /// What was collected during the current epoch.
    pub pending_rewards: Value,
    /// All vouchers.
    pub vouchers: MerkleMountainRange<H, VOUCHERS_HEIGHT>,
}

impl<H: MerkleHasher> LeaderState<H> {
    /// Whether the range of vouchers is well-formed.
    pub open spec fn well_formed(&self) -> bool {
        self.vouchers.well_formed()
    }

    /// The number of vouchers of the snapshot that were not claimed.
    pub open spec fn unclaimed(&self) -> int {
        if self.vouchers_snapshot.count >= self.nfs@.len() {
            self.vouchers_snapshot.count - self.nfs@.len()
        } else {
            0
        }
    }

    /// What each voucher that was not claimed is worth.
    pub open spec fn reward(&self) -> int {
        if self.unclaimed() == 0 {
            0
        } else {
            self.claimable_rewards as int / self.unclaimed()
        }
    }

    /// Makes the state at genesis.
    pub fn new() -> (r: Self)
        requires
            mmr::supported(VOUCHERS_HEIGHT),
        ensures
            r.well_formed(),
            r.epoch == 0,
            r.vouchers_snapshot.root == crate::merkle::hasher::empty_value(),
            r.vouchers_snapshot.count == 0,
            r.nfs@ == Set::<[u8; 32]>::empty(),
            r.claimable_rewards == 0,
            r.pending_rewards == 0,
            r.vouchers.peaks() == Seq::<mmr::Root>::empty(),
            r.vouchers.represents(Seq::empty()),
    {
        LeaderState {
            epoch: 0,
            vouchers_snapshot: VouchersSnapshot {
                root: crate::merkle::hasher::empty_leaf(),
                count: 0,
            },
            nfs: TrieSet::new(),
            claimable_rewards: 0,
            pending_rewards: 0,
            vouchers: MerkleMountainRange::new(),
        }
    }

    /// The nullifiers of vouchers that were claimed.
    pub fn nullifiers(&self) -> (r: &TrieSet)
        ensures
            *r == self.nfs,
    {
        &self.nfs
    }

    /// A clone of the nullifiers.
    pub fn nullifiers_cloned(&self) -> (r: TrieSet)
        ensures
            r == self.nfs,
    {
        self.nfs.clone()
    }

    /// Replaces the nullifiers.
    pub fn update_nullifiers(&mut self, nullifiers: TrieSet)
        ensures
            *final(self) == (LeaderState { nfs: nullifiers, ..*old(self) }),
    {
        self.nfs = nullifiers;
    }

    /// Replaces what can be claimed.
    pub fn update_rewards(&mut self, claimable_rewards: Value)
        ensures
            *final(self) == (LeaderState { claimable_rewards, ..*old(self) }),
    {
        self.claimable_rewards = claimable_rewards;
    }

    /// What can be claimed.
    pub fn claimable_rewards(&self) -> (r: Value)
        ensures
            r == self.claimable_rewards,
    {
        self.claimable_rewards
    }

    /// The state before the voucher of a block of `epoch` is added.
    ///
    /// When the epoch advances, the vouchers are taken as they are, and what was collected
    /// can be claimed.
    pub open spec fn at_epoch(self, epoch: Epoch) -> Self {
        if epoch > self.epoch {
            LeaderState {
                epoch,
                vouchers_snapshot: VouchersSnapshot {
                    root: self.vouchers.root(),
                    count: self.vouchers.leaf_count() as u64,
                },
                claimable_rewards: (self.claimable_rewards + self.pending_rewards) as u64,
                pending_rewards: 0,
                ..self
            }
        } else {
            self
        }
    }

    /// Applies the header of a block of `epoch`, which carries `voucher_cm`.
    pub fn try_apply_header(self, epoch: Epoch, voucher_cm: VoucherCm) -> (r: Result<Self, Error>)
        requires
            self.well_formed(),
            self.vouchers.leaf_count() < self.vouchers.max_leaves(),
            epoch > self.epoch ==> self.claimable_rewards + self.pending_rewards <= u64::MAX,
        ensures
            epoch < self.epoch ==> r == Err::<Self, _>(
                Error::InvalidEpoch { current: self.epoch, incoming: epoch },
            ),
            epoch >= self.epoch ==> r is Ok,
            r matches Ok(state) ==> {
                let before = self.at_epoch(epoch);
                &&& state == (LeaderState { vouchers: state.vouchers, ..before })
                &&& state.well_formed()
                &&& state.vouchers.peaks() == self.vouchers.peaks_with(voucher_cm)
                &&& state.vouchers.leaf_count() == self.vouchers.leaf_count() + 1
                &&& forall|leaves: Seq<NodeHash>| #[trigger]
                    self.vouchers.represents(leaves) ==> state.vouchers.represents(
                        leaves.push(voucher_cm),
                    )
            },
    {
        match self.update_epoch_state(epoch) {
            Ok(state) => Ok(state.add_voucher(voucher_cm)),
            Err(error) => Err(error),
        }
    }

    /// Moves on to `epoch`.
    fn update_epoch_state(self, epoch: Epoch) -> (r: Result<Self, Error>)
        requires
            self.well_formed(),
            epoch > self.epoch ==> self.claimable_rewards + self.pending_rewards <= u64::MAX,
        ensures
            epoch < self.epoch ==> r == Err::<Self, _>(
                Error::InvalidEpoch { current: self.epoch, incoming: epoch },
            ),
            epoch >= self.epoch ==> r == Ok::<_, Error>(self.at_epoch(epoch)),
    {
        if epoch == self.epoch {
            Ok(self)
        } else if epoch < self.epoch {
            Err(Error::InvalidEpoch { current: self.epoch, incoming: epoch })
        } else {
            let mut state: Self = self.snapshot_vouchers().update_claimable_rewards();
            state.epoch = epoch;
            Ok(state)
        }
    }

    /// Adds to what is collected during the epoch.
    pub fn add_pending_rewards(self, rewards: Value) -> (r: Self)
        requires
            self.pending_rewards + rewards <= u64::MAX,
        ensures
            r == (LeaderState {
                pending_rewards: (self.pending_rewards + rewards) as u64,
                ..self
            }),
    {
        let mut state: Self = self;
        state.pending_rewards = state.pending_rewards + rewards;
        state
    }

    /// Adds a voucher.
    fn add_voucher(self, voucher_cm: VoucherCm) -> (r: Self)
        requires
            self.well_formed(),
            self.vouchers.leaf_count() < self.vouchers.max_leaves(),
        ensures
            r == (LeaderState { vouchers: r.vouchers, ..self }),
            r.well_formed(),
            r.vouchers.peaks() == self.vouchers.peaks_with(voucher_cm),
            r.vouchers.leaf_count() == self.vouchers.leaf_count() + 1,
            forall|leaves: Seq<NodeHash>| #[trigger]
                self.vouchers.represents(leaves) ==> r.vouchers.represents(
                    leaves.push(voucher_cm),
                ),
    {
        match self.vouchers.push(voucher_cm) {
            Ok(vouchers) => LeaderState { vouchers, ..self },
            Err(_) => {
                assert(false);
                self
            },
        }
    }

    /// Takes the vouchers as they are.
    fn snapshot_vouchers(self) -> (r: Self)
        requires
            self.well_formed(),
        ensures
            r == (LeaderState {
                vouchers_snapshot: VouchersSnapshot {
                    root: self.vouchers.root(),
                    count: self.vouchers.leaf_count() as u64,
                },
                ..self
            }),
    {
        let root: NodeHash = self.vouchers.frontier_root();
        let count: u64 = self.vouchers.len() as u64;
        LeaderState { vouchers_snapshot: VouchersSnapshot { root, count }, ..self }
    }

    /// Lets what was collected be claimed.
    fn update_claimable_rewards(self) -> (r: Self)
        requires
            self.claimable_rewards + self.pending_rewards <= u64::MAX,
        ensures
            r == (LeaderState {
                claimable_rewards: (self.claimable_rewards + self.pending_rewards) as u64,
                pending_rewards: 0,
                ..self
            }),
    {
        let mut state: Self = self;
        state.claimable_rewards = state.claimable_rewards + state.pending_rewards;
        state.pending_rewards = 0;
        state
    }

    /// The root of the vouchers at the start of the epoch.
    pub fn vouchers_snapshot_root(&self) -> (r: &NodeHash)
        ensures
            *r == self.vouchers_snapshot.root,
    {
        &self.vouchers_snapshot.root
    }

    /// All vouchers.
    pub fn vouchers(&self) -> (r: &MerkleMountainRange<H, VOUCHERS_HEIGHT>)
        ensures
            *r == self.vouchers,
    {
        &self.vouchers
    }

    /// Computes what each voucher that was not claimed is worth.
    pub fn reward_amount(&self) -> (r: Value)
        ensures
            r == self.reward(),
    {
        let unclaimed: u64 = self.vouchers_snapshot.count.saturating_sub(self.nfs.size() as u64);
        if unclaimed == 0 {
            0
        } else {
            self.claimable_rewards / unclaimed
        }
    }

    /// The current epoch.
    pub fn epoch(&self) -> (r: Epoch)
        ensures
            r == self.epoch,
    {
        self.epoch
    }
}

/// The vouchers that were not claimed, at what each is worth, do not cost more than can be
/// claimed.
pub proof fn claims_do_not_exceed_rewards<H: MerkleHasher>(state: LeaderState<H>)
    ensures
        0 <= state.reward() * state.unclaimed() <= state.claimable_rewards,
{
    let unclaimed = state.unclaimed();
    if unclaimed != 0 {
        let total = state.claimable_rewards as int;
        vstd::arithmetic::div_mod::lemma_fundamental_div_mod(total, unclaimed);
        vstd::arithmetic::div_mod::lemma_mod_bound(total, unclaimed);
        vstd::arithmetic::div_mod::lemma_div_pos_is_pos(total, unclaimed);
        vstd::arithmetic::mul::lemma_mul_is_commutative(unclaimed, state.reward());
        vstd::arithmetic::mul::lemma_mul_nonnegative(state.reward(), unclaimed);
    } else {
        assert(state.reward() * 0 == 0) by (nonlinear_arith);
    }
}

/// What leaders are owed changes hands when an epoch starts, and is not changed by it.
pub proof fn epoch_start_keeps_the_total<H: MerkleHasher>(state: LeaderState<H>, epoch: Epoch)
    requires
        state.claimable_rewards + state.pending_rewards <= u64::MAX,
    ensures
        state.at_epoch(epoch).claimable_rewards + state.at_epoch(epoch).pending_rewards
            == state.claimable_rewards + state.pending_rewards,
{
}

impl<H> Clone for LeaderState<H> {
    fn clone(&self) -> (r: Self)
        ensures
            r == *self,
    {
        LeaderState {
            epoch: self.epoch,
            vouchers_snapshot: self.vouchers_snapshot,
            nfs: self.nfs.clone(),
            claimable_rewards: self.claimable_rewards,
            pending_rewards: self.pending_rewards,
            vouchers: self.vouchers.clone(),
        }
    }
}

} // verus!
