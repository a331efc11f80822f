//! The number of blocks of an epoch.
use vstd::prelude::*;

use crate::config::EpochConfig;
use crate::types::{Epoch, Slot};

verus! {

/// Counts the blocks in the first part of an epoch, before its nonce is taken.
#[derive(Clone, Copy, Debug, PartialEq, Eq, Structural)]
pub struct BlockDensity {
    /// The first slot that counts.
    pub first: Slot,
    /// The last slot that counts.
    pub last: Slot,
    /// The number of blocks so far.
    pub count: u64,
}

impl BlockDensity {
    /// Whether a block of `slot` counts.
    pub open spec fn covers(&self, slot: Slot) -> bool {
        self.first <= slot <= self.last
    }

    /// The density after a block of `slot`.
    pub open spec fn with_block(self, slot: Slot) -> Self {
        if self.covers(slot) {
            BlockDensity { count: (self.count + 1) as u64, ..self }
        } else {
            self
        }
    }

    /// The density before the first block of `epoch`.
    pub open spec fn at_start(epoch: int, config: &EpochConfig) -> Self {
        BlockDensity {
            first: config.start_of(epoch) as u64,
            last: (config.start_of(epoch) + config.inference_period() - 1) as u64,
            count: 0,
        }
    }

    /// Makes the density before the first block of `epoch`.
    pub fn new(epoch: Epoch, config: &EpochConfig) -> (r: Self)
        requires
            config.well_formed(),
            config.start_of(epoch as int) + config.inference_period() <= u64::MAX + 1,
        ensures
            r == BlockDensity::at_start(epoch as int, config),
            r.first == config.start_of(epoch as int),
            r.last == config.start_of(epoch as int) + config.inference_period() - 1,
    {
        proof {
            config.lemma_periods();
            vstd::arithmetic::mul::lemma_mul_nonnegative(epoch as int, config.length());
        }
        let first: u64 = epoch as u64 * config.epoch_length();
        let last: u64 = first + (config.total_stake_inference_period() - 1);
        BlockDensity { first, last, count: 0 }
    }

    /// The first and the last slot that count.
    pub fn period_range(&self) -> (r: (Slot, Slot))
        ensures
            r == (self.first, self.last),
    {
        (self.first, self.last)
    }

    /// The number of blocks so far.
    pub fn current_block_density(&self) -> (r: u64)
        ensures
            r == self.count,
    {
        self.count
    }

    /// Counts a block of `slot`.
    pub fn increment_block_density(&mut self, slot: Slot)
        requires
            old(self).covers(slot) ==> old(self).count < u64::MAX,
        ensures
            *final(self) == old(self).with_block(slot),
    {
        if self.first <= slot && slot <= self.last {
            self.count = self.count + 1;
        }
    }
}

} // verus!
