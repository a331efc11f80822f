//! Laws of epochs.
use vstd::prelude::*;

use crate::config::EpochConfig;
use crate::types::Slot;

verus! {

/// An epoch has three parts, each a number of base periods, and the slots are counted through.
pub proof fn epochs_divide_the_slots(config: &EpochConfig, slot: Slot)
    requires
        config.well_formed(),
    ensures
        ({
            let periods = config.epoch_stake_distribution_stabilization
                + config.epoch_period_nonce_buffer + config.epoch_period_nonce_stabilization;
            let length = periods * config.base_period_length;
            &&& 0 < length
            &&& config.length() == length
            &&& config.epoch_of(slot) * length <= slot < (config.epoch_of(slot) + 1) * length
            &&& forall|epoch: int| #[trigger] config.start_of(epoch) == epoch * length
        }),
{
    config.lemma_periods();
    config.lemma_epoch_of(slot);
    assert forall|epoch: int| #[trigger] config.start_of(epoch) == epoch * config.length() by {}
}

/// The slots of an epoch have its number, and no others have it.
pub proof fn slots_know_their_epoch(config: &EpochConfig, slot: Slot, epoch: int)
    requires
        config.well_formed(),
    ensures
        config.epoch_of(slot) == epoch <==> epoch * config.length() <= slot < (epoch + 1)
            * config.length(),
{
    config.lemma_periods();
    config.lemma_epoch_of(slot);
    let found = config.epoch_of(slot);
    let length = config.length();
    let s = slot as int;
    assert(found == epoch <==> epoch * length <= s < (epoch + 1) * length) by (nonlinear_arith)
        requires
            length > 0,
            found * length <= s < (found + 1) * length,
    ;
}

/// The stake for an epoch is taken at the start of the epoch before it, and the nonce when the
/// first two parts of that epoch are over, with the last part still to come.
pub proof fn snapshots_are_taken_an_epoch_ahead(config: &EpochConfig, epoch: int)
    requires
        config.well_formed(),
    ensures
        ({
            let base = config.base_period_length as int;
            let first = config.epoch_stake_distribution_stabilization
                + config.epoch_period_nonce_buffer;
            let last = config.epoch_period_nonce_stabilization;
            &&& config.stake_snapshot_slot(epoch) == (epoch - 1) * config.length()
            &&& config.nonce_snapshot_slot(epoch) == (epoch - 1) * config.length() + first * base
            &&& config.nonce_snapshot_slot(epoch) + last * base == epoch * config.length()
            &&& config.stake_snapshot_slot(epoch) < config.nonce_snapshot_slot(epoch) < epoch
                * config.length()
        }),
{
    config.lemma_periods();
    let base = config.base_period_length as int;
    let first = config.epoch_stake_distribution_stabilization + config.epoch_period_nonce_buffer;
    let last = config.epoch_period_nonce_stabilization as int;
    assert((first + last) * base == first * base + last * base) by (nonlinear_arith);
    let length = config.length();
    assert((epoch - 1) * length + length == epoch * length) by (nonlinear_arith);
}

} // verus!
