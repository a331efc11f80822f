//! Rewards of block leaders, which are claimed with vouchers.
use vstd::prelude::*;

use crate::bytes::same_bytes;
use crate::collections::trie_set::TrieSet;
use crate::mantle::leader::{Error, VOUCHERS_HEIGHT};
use crate::merkle::hasher::{empty_leaf, MerkleHasher, NodeHash};
use crate::mmr;
use crate::mmr::MerkleMountainRange;
use crate::types::{Balance, Epoch, Value, VoucherCm, VoucherNullifier};

verus! {

/// The state of the rewards of leaders.
#[verifier::reject_recursive_types(H)]
pub struct LeaderState<H> {
    /// The current epoch.
    pub epoch: Epoch,
    /// The root of the vouchers that can be claimed in the epoch.
    pub claimable_vouchers_root: NodeHash,
    /// The number of vouchers that can be claimed in the epoch, or were claimed before.
    pub n_claimable_vouchers: u64,
    /// The nullifiers of vouchers that were claimed.
    pub nfs: TrieSet,
    /// What can be claimed.
    pub claimable_rewards: Value,
    /// All vouchers.
    pub vouchers: MerkleMountainRange<H, VOUCHERS_HEIGHT>,
}

impl<H: MerkleHasher> LeaderState<H> {
    /// Whether the range of vouchers is well-formed.
    pub open spec fn well_formed(&self) -> bool {
        self.vouchers.well_formed()
    }

    /// The number of vouchers that were not claimed.
    pub open spec fn unclaimed(&self) -> int {
        self.n_claimable_vouchers - self.nfs@.len()
    }

    /// What a voucher is worth.
    pub open spec fn reward(&self) -> int {
        if self.unclaimed() > 0 {
            self.claimable_rewards as int / self.unclaimed()
        } else {
            0
        }
    }

    /// The state at the start of `epoch`, or as it is within it.
    pub open spec fn at_epoch(self, epoch: Epoch) -> Self {
        if epoch > self.epoch {
            LeaderState {
                epoch,
                claimable_vouchers_root: self.vouchers.root(),
                n_claimable_vouchers: self.vouchers.leaf_count() as u64,
                ..self
            }
        } else {
            self
        }
    }

    /// Why a claim is rejected, if it is.
    pub open spec fn claim_failure(
        &self,
        voucher_nullifier: VoucherNullifier,
        rewards_root: NodeHash,
    ) -> Option<Error> {
        if self.nfs@.contains(voucher_nullifier) {
            Some(Error::DuplicatedVoucherNullifier)
        } else if self.claimable_vouchers_root != rewards_root {
            Some(Error::VoucherNotFound)
        } else {
            None
        }
    }

    /// Makes the state at genesis.
    pub fn new() -> (r: Self)
        requires
            mmr::supported(VOUCHERS_HEIGHT),
        ensures
            r.well_formed(),
            r.epoch == 0,
            r.claimable_vouchers_root == crate::merkle::hasher::empty_value(),
            r.n_claimable_vouchers == 0,
            r.nfs@ == Set::<[u8; 32]>::empty(),
            r.claimable_rewards == 0,
            r.vouchers.peaks() == Seq::<mmr::Root>::empty(),
            r.vouchers.represents(Seq::empty()),
    {
        LeaderState {
            epoch: 0,
            claimable_vouchers_root: empty_leaf(),
            n_claimable_vouchers: 0,
            nfs: TrieSet::new(),
            claimable_rewards: 0,
            vouchers: MerkleMountainRange::new(),
        }
    }

    /// Applies the header of a block of `epoch`, which carries `voucher_cm`.
    pub fn try_apply_header(self, epoch: Epoch, voucher_cm: VoucherCm) -> (r: Result<Self, Error>)
        requires
            self.well_formed(),
            self.vouchers.leaf_count() < self.vouchers.max_leaves(),
        ensures
            epoch < self.epoch ==> r == Err::<Self, _>(
                Error::InvalidEpoch { current: self.epoch, incoming: epoch },
            ),
            epoch >= self.epoch ==> r is Ok,
            r matches Ok(state) ==> {
                &&& state == (LeaderState { vouchers: state.vouchers, ..self.at_epoch(epoch) })
                &&& state.well_formed()
                &&& state.vouchers.peaks() == self.vouchers.peaks_with(voucher_cm)
                &&& state.vouchers.leaf_count() == self.vouchers.leaf_count() + 1
            },
    {
        match self.update_epoch_state(epoch) {
            Ok(state) => Ok(state.add_voucher(voucher_cm)),
            Err(error) => Err(error),
        }
    }

    /// Moves on to `epoch`.
    fn update_epoch_state(self, epoch: Epoch) -> (r: Result<Self, Error>)
        requires
            self.well_formed(),
        ensures
            epoch < self.epoch ==> r == Err::<Self, _>(
                Error::InvalidEpoch { current: self.epoch, incoming: epoch },
            ),
            epoch >= self.epoch ==> r == Ok::<_, Error>(self.at_epoch(epoch)),
    {
        if epoch == self.epoch {
            Ok(self)
        } else if epoch < self.epoch {
            Err(Error::InvalidEpoch { current: self.epoch, incoming: epoch })
        } else {
            let claimable_vouchers_root: NodeHash = self.vouchers.frontier_root();
            let n_claimable_vouchers: u64 = self.vouchers.len() as u64;
            Ok(LeaderState { epoch, claimable_vouchers_root, n_claimable_vouchers, ..self })
        }
    }

    /// Adds a voucher.
    fn add_voucher(self, voucher_cm: VoucherCm) -> (r: Self)
        requires
            self.well_formed(),
            self.vouchers.leaf_count() < self.vouchers.max_leaves(),
        ensures
            r == (LeaderState { vouchers: r.vouchers, ..self }),
            r.well_formed(),
            r.vouchers.peaks() == self.vouchers.peaks_with(voucher_cm),
            r.vouchers.leaf_count() == self.vouchers.leaf_count() + 1,
    {
        match self.vouchers.push(voucher_cm) {
            Ok(vouchers) => LeaderState { vouchers, ..self },
            Err(_) => {
                assert(false);
                self
            },
        }
    }

    /// Claims what a voucher is worth. That the nullifier is that of a voucher under the root
    /// is to be verified before.
    pub fn claim(&self, voucher_nullifier: VoucherNullifier, rewards_root: NodeHash) -> (r: Result<
        (Self, Balance),
        Error,
    >)
        requires
            self.well_formed(),
            self.claim_failure(voucher_nullifier, rewards_root) is None ==> self.nfs@.len()
                <= self.n_claimable_vouchers,
        ensures
            match self.claim_failure(voucher_nullifier, rewards_root) {
                Some(error) => r == Err::<(Self, Balance), _>(error),
                None => {
                    &&& r matches Ok((state, amount))
                    &&& amount == self.reward()
                    &&& state.nfs@ == self.nfs@.insert(voucher_nullifier)
                    &&& state == (LeaderState {
                        nfs: state.nfs,
                        claimable_rewards: (self.claimable_rewards - self.reward()) as u64,
                        ..*self
                    })
                    &&& 0 <= self.reward() <= self.claimable_rewards
                    &&& state.well_formed()
                },
            },
    {
        if self.nfs.contains(&voucher_nullifier) {
            return Err(Error::DuplicatedVoucherNullifier);
        }
        if !same_bytes(&self.claimable_vouchers_root, &rewards_root) {
            return Err(Error::VoucherNotFound);
        }
        let mut nfs: TrieSet = self.nfs.clone();
        nfs.insert_mut(voucher_nullifier);
        let n_unclaimed_vouchers: u64 = self.n_claimable_vouchers - self.nfs.size() as u64;
        let reward_amount: Value = if n_unclaimed_vouchers > 0 {
            proof {
                lemma_share(self.claimable_rewards as int, n_unclaimed_vouchers as int);
            }
            self.claimable_rewards / n_unclaimed_vouchers
        } else {
            0
        };
        let claimable_rewards: Value = self.claimable_rewards - reward_amount;
        Ok(
            (
                LeaderState {
                    epoch: self.epoch,
                    claimable_vouchers_root: self.claimable_vouchers_root,
                    n_claimable_vouchers: self.n_claimable_vouchers,
                    nfs,
                    claimable_rewards,
                    vouchers: self.vouchers.clone(),
                },
                reward_amount as i128,
            ),
        )
    }
}

proof fn lemma_share(total: int, parts: int)
    by (nonlinear_arith)
    requires
        total >= 0,
        parts > 0,
    ensures
        0 <= total / parts <= total,
{
}

/// What a voucher is worth in an epoch does not sink as others are claimed, and rises by one
/// token at most.
pub proof fn later_claims_are_worth_as_much(total: int, unclaimed: int)
    requires
        total >= 0,
        unclaimed > 1,
    ensures
        total / unclaimed <= (total - total / unclaimed) / (unclaimed - 1) <= total / unclaimed + 1,
{
    let share = total / unclaimed;
    let rest = total % unclaimed;
    vstd::arithmetic::div_mod::lemma_fundamental_div_mod(total, unclaimed);
    vstd::arithmetic::div_mod::lemma_mod_bound(total, unclaimed);
    let left = total - share;
    assert(left == share * (unclaimed - 1) + rest) by (nonlinear_arith)
        requires
            total == unclaimed * share + rest,
            left == total - share,
    ;
    let n = unclaimed - 1;
    assert(share <= left / n <= share + 1) by (nonlinear_arith)
        requires
            left == share * n + rest,
            n > 0,
            0 <= rest <= n,
    ;
}

/// The last voucher of an epoch takes all that is left.
pub proof fn last_claim_takes_the_rest<H: MerkleHasher>(state: LeaderState<H>)
    requires
        state.unclaimed() == 1,
    ensures
        state.reward() == state.claimable_rewards,
{
}

impl<H> Clone for LeaderState<H> {
    fn clone(&self) -> (r: Self)
        ensures
            r == *self,
    {
        LeaderState {
            epoch: self.epoch,
            claimable_vouchers_root: self.claimable_vouchers_root,
            n_claimable_vouchers: self.n_claimable_vouchers,
            nfs: self.nfs.clone(),
            claimable_rewards: self.claimable_rewards,
            vouchers: self.vouchers.clone(),
        }
    }
}

} // verus!
