//! Parameters of the ledger.
use vstd::arithmetic::div_mod::*;
use vstd::arithmetic::mul::*;
use vstd::prelude::*;

use crate::mantle::sdp;
use crate::types::{Epoch, Slot, ZkPublicKey};

verus! {

/// How an epoch is divided. Periods are counted in base periods.
#[derive(Clone, Copy, Debug, PartialEq, Eq, Structural)]
pub struct EpochConfig {
    /// The number of slots of a base period.
    pub base_period_length: u64,
    /// The first part of an epoch, in which the stake distribution stabilises.
    pub epoch_stake_distribution_stabilization: u8,
    /// The second part of an epoch, before the nonce is taken.
    pub epoch_period_nonce_buffer: u8,
    /// The last part of an epoch, in which the nonce stabilises.
    pub epoch_period_nonce_stabilization: u8,
}

impl EpochConfig {
    /// The number of slots of an epoch.
    pub open spec fn length(&self) -> int {
        (self.epoch_stake_distribution_stabilization + self.epoch_period_nonce_buffer
            + self.epoch_period_nonce_stabilization) * self.base_period_length
    }

    /// The number of slots of an epoch before the nonce is taken.
    pub open spec fn inference_period(&self) -> int {
        (self.epoch_stake_distribution_stabilization + self.epoch_period_nonce_buffer)
            * self.base_period_length
    }

    /// Whether no period is empty, and an epoch can be counted in slots.
    pub open spec fn well_formed(&self) -> bool {
        &&& self.base_period_length > 0
        &&& self.epoch_stake_distribution_stabilization > 0
        &&& self.epoch_period_nonce_buffer > 0
        &&& self.epoch_period_nonce_stabilization > 0
        &&& self.length() <= u64::MAX
    }

    /// The epoch that `slot` is in.
    pub open spec fn epoch_of(&self, slot: Slot) -> int {
        slot as int / self.length()
    }

    /// The first slot of `epoch`.
    pub open spec fn start_of(&self, epoch: int) -> int {
        epoch * self.length()
    }

    /// Whether epochs up to `epoch` can be counted, and their slots too.
    pub open spec fn reaches(&self, epoch: int) -> bool {
        epoch <= u32::MAX && self.start_of(epoch + 1) <= u64::MAX
    }

    /// The slot at which the nonce for `epoch` is taken.
    pub open spec fn nonce_snapshot_slot(&self, epoch: int) -> int {
        self.start_of(epoch - 1) + self.inference_period()
    }

    /// The slot at which the stake distribution for `epoch` is taken.
    pub open spec fn stake_snapshot_slot(&self, epoch: int) -> int {
        self.start_of(epoch - 1)
    }

    /// The period before the nonce is taken is a proper part of an epoch.
    pub proof fn lemma_periods(&self)
        requires
            self.well_formed(),
        ensures
            0 < self.inference_period() < self.length(),
    {
        let first = (self.epoch_stake_distribution_stabilization
            + self.epoch_period_nonce_buffer) as int;
        let last = self.epoch_period_nonce_stabilization as int;
        let base = self.base_period_length as int;
        assert((first + last) * base == first * base + last * base) by (nonlinear_arith);
        assert(first * base > 0 && last * base > 0) by (nonlinear_arith)
            requires
                first > 0,
                last > 0,
                base > 0,
        ;
    }

    /// A slot is between the first slot of its epoch and that of the next one.
    pub proof fn lemma_epoch_of(&self, slot: Slot)
        requires
            self.well_formed(),
        ensures
            0 <= self.epoch_of(slot),
            self.start_of(self.epoch_of(slot)) <= slot < self.start_of(self.epoch_of(slot) + 1),
    {
        self.lemma_periods();
        let length = self.length();
        lemma_fundamental_div_mod(slot as int, length);
        lemma_div_pos_is_pos(slot as int, length);
        let epoch = self.epoch_of(slot);
        assert((epoch + 1) * length == length * epoch + length) by (nonlinear_arith);
        lemma_mul_is_commutative(length, epoch);
    }

    /// Later epochs start later.
    pub proof fn lemma_start_monotonic(&self, low: int, high: int)
        requires
            self.well_formed(),
            low <= high,
        ensures
            self.start_of(low) <= self.start_of(high),
    {
        self.lemma_periods();
        lemma_mul_inequality(low, high, self.length());
    }

    /// The number of slots of an epoch.
    pub fn epoch_length(&self) -> (r: u64)
        requires
            self.well_formed(),
        ensures
            r == self.length(),
    {
        let periods: u64 = self.epoch_stake_distribution_stabilization as u64
            + self.epoch_period_nonce_buffer as u64 + self.epoch_period_nonce_stabilization as u64;
        periods * self.base_period_length
    }

    /// Whether no period is empty, and an epoch can be counted in slots.
    pub fn is_well_formed(&self) -> (r: bool)
        ensures
            r == self.well_formed(),
    {
        let periods: u128 = self.epoch_stake_distribution_stabilization as u128
            + self.epoch_period_nonce_buffer as u128
            + self.epoch_period_nonce_stabilization as u128;
        proof {
            assert(periods * self.base_period_length <= 765 * u64::MAX) by (nonlinear_arith)
                requires
                    0 <= periods <= 765,
                    0 <= self.base_period_length <= u64::MAX,
            ;
        }
        self.base_period_length > 0 && self.epoch_stake_distribution_stabilization > 0
            && self.epoch_period_nonce_buffer > 0 && self.epoch_period_nonce_stabilization > 0
            && periods * (self.base_period_length as u128) <= u64::MAX as u128
    }

    /// Whether epochs can be counted up to the one after that of `slot`, and their slots too.
    pub fn reaches_after(&self, slot: Slot) -> (r: bool)
        requires
            self.well_formed(),
        ensures
            r == self.reaches(self.epoch_of(slot) + 1),
    {
        proof {
            self.lemma_periods();
            self.lemma_epoch_of(slot);
        }
        let length: u64 = self.epoch_length();
        let epoch: u64 = slot / length;
        if epoch >= u32::MAX as u64 {
            return false;
        }
        proof {
            assert((epoch + 2) * length <= (u32::MAX + 2) * u64::MAX) by (nonlinear_arith)
                requires
                    0 <= epoch + 2 <= u32::MAX + 2,
                    0 <= length <= u64::MAX,
            ;
        }
        (epoch as u128 + 2) * (length as u128) <= u64::MAX as u128
    }

    /// The number of slots of an epoch that block density is measured over.
    pub fn total_stake_inference_period(&self) -> (r: u64)
        requires
            self.well_formed(),
        ensures
            r == self.inference_period(),
    {
        proof {
            self.lemma_periods();
        }
        let periods: u64 = self.epoch_stake_distribution_stabilization as u64
            + self.epoch_period_nonce_buffer as u64;
        periods * self.base_period_length
    }

    /// The epoch that `slot` is in.
    pub fn epoch(&self, slot: Slot) -> (r: Epoch)
        requires
            self.well_formed(),
            self.epoch_of(slot) <= u32::MAX,
        ensures
            r == self.epoch_of(slot),
    {
        proof {
            self.lemma_periods();
            self.lemma_epoch_of(slot);
        }
        (slot / self.epoch_length()) as u32
    }

    /// The slot at which the nonce for `epoch` is taken.
    pub fn nonce_snapshot(&self, epoch: Epoch) -> (r: Slot)
        requires
            self.well_formed(),
            epoch >= 1,
            self.start_of(epoch as int) <= u64::MAX,
        ensures
            r == self.nonce_snapshot_slot(epoch as int),
    {
        proof {
            self.lemma_periods();
            assert((epoch - 1) * self.length() + self.length() == epoch * self.length())
                by (nonlinear_arith);
            lemma_mul_nonnegative(epoch - 1, self.length());
        }
        (epoch - 1) as u64 * self.epoch_length() + self.total_stake_inference_period()
    }

    /// The slot at which the stake distribution for `epoch` is taken.
    pub fn stake_distribution_snapshot(&self, epoch: Epoch) -> (r: Slot)
        requires
            self.well_formed(),
            epoch >= 1,
            self.start_of(epoch as int) <= u64::MAX,
        ensures
            r == self.stake_snapshot_slot(epoch as int),
    {
        proof {
            self.lemma_start_monotonic(epoch - 1, epoch as int);
            self.lemma_periods();
            lemma_mul_nonnegative(epoch - 1, self.length());
        }
        (epoch - 1) as u64 * self.epoch_length()
    }
}

/// Parameters of the ledger.
#[derive(Clone, Copy, Debug, PartialEq, Eq)]
pub struct Config {
    pub epoch_config: EpochConfig,
    pub sdp_config: sdp::Config,
    /// The key of the faucet, whose notes do not count as stake at genesis.
    pub faucet_pk: Option<ZkPublicKey>,
}

} // verus!
