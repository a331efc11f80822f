//! Laws of epochs.
use vstd::prelude::*;

use crate::config::Config;
use crate::config_laws;
use crate::cryptarchia;
use crate::cryptarchia::density::BlockDensity;
use crate::cryptarchia::market;
use crate::cryptarchia::{LedgerState, StakeOutcome, StakePlan};
use crate::error::LedgerError;
use crate::leader_proof::{LeaderProof, LeaderPublic};
use crate::mantle::sdp::declaration_laws;
use crate::mantle::sdp::{SdpLedger, ServiceParameters};
use crate::merkle::tree::LeafExtractor;
use crate::types::{
    DeclarationId, Fr, Gas, GasCost, GasPrice, NoteId, Slot, Utxo, Value, ZkPublicKey,
};

verus! {

/// Within an epoch nothing that is fixed for it changes, and neither does the stake
/// distribution of the next one, nor its declarations.
pub proof fn epoch_is_fixed<U: LeafExtractor<Utxo>>(
    before: &LedgerState<U>,
    slot: Slot,
    sdp: &SdpLedger,
    config: &Config,
    stake: StakeOutcome,
    after: &LedgerState<U>,
)
    requires
        config.epoch_config.well_formed(),
        before.on_schedule(&config.epoch_config),
        cryptarchia::is_epoch_step(before, slot, sdp, config, stake, after),
        config.epoch_config.epoch_of(slot) == config.epoch_config.epoch_of(before.slot),
    ensures
        after.epoch_state == before.epoch_state,
        after.next_epoch_state.utxos == before.next_epoch_state.utxos,
        after.next_epoch_state.active_declarations == before.next_epoch_state.active_declarations,
{
    config.epoch_config.lemma_epoch_of(before.slot);
}

/// Once the nonce of the next epoch is taken, it does not change before that epoch, and is
/// the nonce of that epoch then.
pub proof fn nonce_is_fixed_once_taken<U: LeafExtractor<Utxo>>(
    before: &LedgerState<U>,
    slot: Slot,
    sdp: &SdpLedger,
    config: &Config,
    stake: StakeOutcome,
    after: &LedgerState<U>,
)
    requires
        before.slot >= config.epoch_config.nonce_snapshot_slot(
            before.next_epoch_state.epoch as int,
        ),
        cryptarchia::is_epoch_step(before, slot, sdp, config, stake, after),
    ensures
        config.epoch_config.epoch_of(slot) == config.epoch_config.epoch_of(before.slot)
            ==> after.next_epoch_state.nonce == before.next_epoch_state.nonce,
        config.epoch_config.epoch_of(slot) == config.epoch_config.epoch_of(before.slot) + 1
            ==> after.epoch_state.nonce == before.next_epoch_state.nonce,
{
}

/// In the epoch that follows, what was known of it becomes what is fixed for it.
pub proof fn next_epoch_becomes_current<U: LeafExtractor<Utxo>>(
    before: &LedgerState<U>,
    slot: Slot,
    sdp: &SdpLedger,
    config: &Config,
    stake: StakeOutcome,
    after: &LedgerState<U>,
)
    requires
        config.epoch_config.well_formed(),
        before.on_schedule(&config.epoch_config),
        cryptarchia::is_epoch_step(before, slot, sdp, config, stake, after),
        config.epoch_config.epoch_of(slot) == config.epoch_config.epoch_of(before.slot) + 1,
    ensures
        after.epoch_state.epoch == before.next_epoch_state.epoch,
        after.epoch_state.utxos == before.next_epoch_state.utxos,
        after.epoch_state.active_declarations == before.next_epoch_state.active_declarations,
{
    config.epoch_config.lemma_epoch_of(before.slot);
}

/// When epochs were skipped, the new epoch starts with what the ledger held at the last
/// block.
pub proof fn skipped_epochs_take_the_last_state<U: LeafExtractor<Utxo>>(
    before: &LedgerState<U>,
    slot: Slot,
    sdp: &SdpLedger,
    config: &Config,
    stake: StakeOutcome,
    after: &LedgerState<U>,
)
    requires
        cryptarchia::is_epoch_step(before, slot, sdp, config, stake, after),
        config.epoch_config.epoch_of(slot) > config.epoch_config.epoch_of(before.slot) + 1,
    ensures
        after.epoch_state.nonce == before.nonce,
        after.epoch_state.utxos == before.utxos,
        after.next_epoch_state.nonce == before.nonce,
        after.next_epoch_state.utxos == before.utxos,
{
}

/// Epochs without use of storage gas do not raise its price, and do not let it drop to zero.
pub proof fn idle_epochs_do_not_raise_the_storage_price(
    price: GasPrice,
    ema: Gas,
    epochs: nat,
)
    ensures
        cryptarchia::idle_storage(price, ema, epochs).0 <= price,
        price > 0 ==> cryptarchia::idle_storage(price, ema, epochs).0 > 0,
    decreases epochs,
{
    if epochs > 0 {
        idle_epochs_do_not_raise_the_storage_price(price, ema, (epochs - 1) as nat);
        let (before, before_ema) = cryptarchia::idle_storage(price, ema, (epochs - 1) as nat);
        if before > 0 {
            market::storage_price_stays_positive(before, 0, before_ema);
        }
    }
}

/// Once the smoothed use of storage gas has dropped to one or less, epochs without use hold
/// the price.
pub proof fn idle_epochs_hold_the_storage_price(price: GasPrice, ema: Gas, epochs: nat)
    requires
        ema <= 1,
    ensures
        cryptarchia::idle_storage(price, ema, epochs).0 == price,
        cryptarchia::idle_storage(price, ema, epochs).1 <= 1,
    decreases epochs,
{
    if epochs > 0 {
        idle_epochs_hold_the_storage_price(price, ema, (epochs - 1) as nat);
    }
}

/// An epoch without use of storage gas acts on its price as one that used none of it, one epoch
/// after the other.
pub proof fn empty_epochs_are_epochs_without_use(
    price: GasPrice,
    gas: Gas,
    ema: Gas,
    epochs: nat,
)
    ensures
        cryptarchia::storage_after(price, gas, ema, epochs + 1) == ({
            let (last_price, last_ema) = cryptarchia::storage_after(price, gas, ema, epochs);
            cryptarchia::storage_after(last_price, 0, last_ema, 0)
        }),
        cryptarchia::storage_after(price, gas, ema, 0).0 == market::storage_price(
            price,
            gas,
            (ema + gas) / 2,
        ) as u64,
        cryptarchia::storage_after(price, gas, ema, 0).1 == (ema + gas) / 2,
{
    reveal_with_fuel(cryptarchia::idle_storage, 2);
    let mean = market::storage_average(ema, gas);
    let first = market::storage_price(price, gas, mean) as u64;
    let (last_price, last_ema) = cryptarchia::idle_storage(first, mean as u64, epochs);
    assert(cryptarchia::idle_storage(first, mean as u64, epochs + 1) == (
        market::storage_price(last_price, 0, market::storage_average(last_ema, 0)) as u64,
        market::storage_average(last_ema, 0) as u64,
    ));
}

/// Within an epoch the current epoch stays, with what was counted and what gas costs. The next
/// one takes the nonce of the ledger as long as the last block was before the last part of the
/// epoch.
pub proof fn next_nonce_follows_the_ledger<U: LeafExtractor<Utxo>>(
    before: &LedgerState<U>,
    slot: Slot,
    sdp: &SdpLedger,
    config: &Config,
    stake: StakeOutcome,
    after: &LedgerState<U>,
)
    requires
        config.epoch_config.well_formed(),
        before.on_schedule(&config.epoch_config),
        before.epoch_state.epoch * config.epoch_config.length() <= slot,
        slot < (before.epoch_state.epoch + 1) * config.epoch_config.length(),
        cryptarchia::is_epoch_step(before, slot, sdp, config, stake, after),
    ensures
        ({
            let epochs = config.epoch_config;
            let first = (epochs.epoch_stake_distribution_stabilization
                + epochs.epoch_period_nonce_buffer) * epochs.base_period_length;
            let start = before.epoch_state.epoch * epochs.length();
            &&& after.epoch_state == before.epoch_state
            &&& after.next_epoch_state.epoch == before.next_epoch_state.epoch
            &&& after.next_epoch_state.utxos == before.next_epoch_state.utxos
            &&& after.next_epoch_state.total_stake == before.next_epoch_state.total_stake
            &&& after.next_epoch_state.lottery_0 == before.next_epoch_state.lottery_0
            &&& after.next_epoch_state.lottery_1 == before.next_epoch_state.lottery_1
            &&& before.slot < start + first ==> after.next_epoch_state.nonce == before.nonce
            &&& before.slot >= start + first ==> after.next_epoch_state.nonce
                == before.next_epoch_state.nonce
            &&& after.block_density == before.block_density
            &&& after.storage_gas_ema == before.storage_gas_ema
            &&& after.storage_gas_price == before.storage_gas_price
            &&& after.storage_gas_consumed_in_epoch == before.storage_gas_consumed_in_epoch
        }),
        after.slot == slot,
        after.utxos == before.utxos,
        after.nonce == before.nonce,
        after.fee_window == before.fee_window,
        after.average_execution_gas == before.average_execution_gas,
        after.execution_base_fee == before.execution_base_fee,
{
    config_laws::slots_know_their_epoch(
        &config.epoch_config,
        slot,
        before.epoch_state.epoch as int,
    );
    config.epoch_config.lemma_epoch_of(before.slot);
}

/// When an epoch starts, its stake is what was inferred, for the next one too, whose nonce and
/// notes are those of the ledger. The nonce of an epoch that no other was skipped before is the
/// one that it was to have, or that of the ledger if the last block was before the last part of
/// the epoch before. Blocks are counted from its start until the last part of the epoch, and the
/// use of storage gas is counted from nothing.
pub proof fn epochs_start_anew<U: LeafExtractor<Utxo>>(
    before: &LedgerState<U>,
    slot: Slot,
    sdp: &SdpLedger,
    config: &Config,
    stake: StakeOutcome,
    after: &LedgerState<U>,
    epoch: int,
)
    requires
        config.epoch_config.well_formed(),
        config.epoch_config.reaches(epoch + 1),
        before.on_schedule(&config.epoch_config),
        epoch * config.epoch_config.length() <= slot < (epoch + 1) * config.epoch_config.length(),
        epoch > before.epoch_state.epoch,
        cryptarchia::is_epoch_step(before, slot, sdp, config, stake, after),
    ensures
        ({
            let epochs = config.epoch_config;
            let first = (epochs.epoch_stake_distribution_stabilization
                + epochs.epoch_period_nonce_buffer) * epochs.base_period_length;
            let start = epoch * epochs.length();
            let direct = epoch == before.epoch_state.epoch + 1;
            &&& after.epoch_state.epoch == epoch
            &&& after.next_epoch_state.epoch == epoch + 1
            &&& after.epoch_state.total_stake == stake.total_stake
            &&& after.epoch_state.lottery_0 == stake.lottery_0
            &&& after.epoch_state.lottery_1 == stake.lottery_1
            &&& after.next_epoch_state.total_stake == stake.total_stake
            &&& after.next_epoch_state.lottery_0 == stake.lottery_0
            &&& after.next_epoch_state.lottery_1 == stake.lottery_1
            &&& after.epoch_state.utxos == if direct {
                before.next_epoch_state.utxos
            } else {
                before.utxos
            }
            &&& after.epoch_state.nonce == if direct && before.slot >= start - epochs.length()
                + first {
                before.next_epoch_state.nonce
            } else {
                before.nonce
            }
            &&& after.next_epoch_state.utxos == before.utxos
            &&& after.next_epoch_state.nonce == before.nonce
            &&& after.block_density.first == start
            &&& after.block_density.last == start + first - 1
            &&& after.block_density.count == 0
            &&& after.storage_gas_consumed_in_epoch == 0
            &&& (after.storage_gas_price, after.storage_gas_ema) == cryptarchia::storage_after(
                before.storage_gas_price,
                before.storage_gas_consumed_in_epoch,
                before.storage_gas_ema,
                (epoch - before.epoch_state.epoch - 1) as nat,
            )
        }),
        after.slot == slot,
        after.utxos == before.utxos,
        after.nonce == before.nonce,
        after.fee_window == before.fee_window,
        after.average_execution_gas == before.average_execution_gas,
        after.execution_base_fee == before.execution_base_fee,
{
    let epochs = &config.epoch_config;
    config_laws::slots_know_their_epoch(epochs, slot, epoch);
    epochs.lemma_epoch_of(before.slot);
    epochs.lemma_periods();
    let length = epochs.length();
    let start = epoch * length;
    assert((epoch - 1) * length == start - length) by (nonlinear_arith)
        requires
            start == epoch * length,
    ;
    assert((epoch + 2) * length == start + 2 * length) by (nonlinear_arith)
        requires
            start == epoch * length,
    ;
    assert(start >= 0) by (nonlinear_arith)
        requires
            start == epoch * length,
            epoch >= 0,
            length >= 0,
    ;
}

/// The stake is inferred anew if and only if an epoch starts: from the stake and the blocks of
/// the epoch that ends, and then once more for each epoch without blocks before the new one.
pub proof fn stake_is_inferred_once_per_epoch<U: LeafExtractor<Utxo>>(
    state: &LedgerState<U>,
    slot: Slot,
    config: &Config,
    epoch: int,
)
    requires
        config.epoch_config.well_formed(),
        state.on_schedule(&config.epoch_config),
        epoch * config.epoch_config.length() <= slot < (epoch + 1) * config.epoch_config.length(),
        state.epoch_state.epoch <= epoch <= u32::MAX,
    ensures
        state.plan_for(slot, &config.epoch_config) is Some <==> epoch > state.epoch_state.epoch,
        state.plan_for(slot, &config.epoch_config) matches Some(plan) ==> {
            &&& plan.total_stake == state.epoch_state.total_stake
            &&& plan.block_density == state.block_density.count
            &&& plan.empty_epochs == epoch - state.epoch_state.epoch - 1
        },
{
    config_laws::slots_know_their_epoch(&config.epoch_config, slot, epoch);
}

/// What is left of a plan starts from the stake that was inferred, with an epoch without blocks,
/// until there is none left.
pub proof fn plans_come_to_an_end(plan: StakePlan, total_stake: Value)
    ensures
        plan.following(total_stake) is Some <==> plan.empty_epochs > 0,
        plan.following(total_stake) matches Some(rest) ==> {
            &&& rest.total_stake == total_stake
            &&& rest.block_density == 0
            &&& rest.empty_epochs == plan.empty_epochs - 1
        },
{
}

/// When an epoch starts, the declarations of the next one are those that count in it, and so are
/// those of the epoch itself if epochs were skipped before it.
pub proof fn epochs_take_the_declarations_that_count<U: LeafExtractor<Utxo>>(
    before: &LedgerState<U>,
    slot: Slot,
    sdp: &SdpLedger,
    config: &Config,
    stake: StakeOutcome,
    after: &LedgerState<U>,
    epoch: int,
    params: ServiceParameters,
    id: DeclarationId,
)
    requires
        config.epoch_config.well_formed(),
        config.epoch_config.reaches(epoch + 1),
        before.on_schedule(&config.epoch_config),
        epoch * config.epoch_config.length() <= slot < (epoch + 1) * config.epoch_config.length(),
        epoch > before.epoch_state.epoch,
        config.sdp_config.service_params.blend_network == Some(params),
        cryptarchia::is_epoch_step(before, slot, sdp, config, stake, after),
    ensures
        ({
            let declarations = sdp.blend_network->0.declarations@;
            let known = sdp.blend_network is Some && declarations.dom().contains(id);
            let withdrawn = declarations[id].withdraw_at;
            &&& after.next_epoch_state.active_declarations.blend().dom().contains(id) <==> known
                && epoch + 1 <= declarations[id].active + params.inactivity_period && (withdrawn
                is None || epoch + 1 < withdrawn->0)
            &&& epoch > before.epoch_state.epoch + 1 ==> (
            after.epoch_state.active_declarations.blend().dom().contains(id) <==> known && epoch
                <= declarations[id].active + params.inactivity_period && (withdrawn is None || epoch
                < withdrawn->0))
            &&& epoch == before.epoch_state.epoch + 1 ==> after.epoch_state.active_declarations
                == before.next_epoch_state.active_declarations
        }),
{
    config_laws::slots_know_their_epoch(&config.epoch_config, slot, epoch);
    config.epoch_config.lemma_epoch_of(before.slot);
    declaration_laws::active_declarations_are_those_that_count(
        sdp,
        (epoch + 1) as u32,
        &config.sdp_config.service_params,
        &after.next_epoch_state.active_declarations,
        id,
    );
    if epoch > before.epoch_state.epoch + 1 {
        declaration_laws::active_declarations_are_those_that_count(
            sdp,
            epoch as u32,
            &config.sdp_config.service_params,
            &after.epoch_state.active_declarations,
            id,
        );
    }
}

/// A block counts for the stake that takes part if and only if it is in the first parts of the
/// epoch, each block once.
pub proof fn blocks_count_once(density: BlockDensity, slot: Slot)
    requires
        density.count < u64::MAX,
    ensures
        density.with_block(slot).count == density.count + (if density.first <= slot && slot
            <= density.last {
            1int
        } else {
            0
        }),
        density.with_block(slot).first == density.first,
        density.with_block(slot).last == density.last,
{
}

/// A header is accepted only if its slot is after the last one and its proof holds for the slot,
/// the notes of now, and the nonce, the lottery and the aged notes of the epoch of the slot. The
/// slot and the nonce are then those of the header, and the block is counted. The notes stay.
pub proof fn leaders_prove_their_slot<U: LeafExtractor<Utxo>, P: LeaderProof>(
    before: &LedgerState<U>,
    slot: Slot,
    proof: &P,
    sdp: &SdpLedger,
    config: &Config,
    stake: StakeOutcome,
    nonce: Fr,
    r: Result<LedgerState<U>, LedgerError>,
)
    requires
        cryptarchia::is_header_result(before, slot, proof, sdp, config, stake, nonce, r),
    ensures
        r == Err::<LedgerState<U>, _>(
            LedgerError::InvalidSlot { parent: before.slot, block: slot },
        ) <==> slot <= before.slot,
        slot > before.slot && r is Err ==> r == Err::<LedgerState<U>, _>(
            LedgerError::InvalidProof,
        ) && exists|epoch: LedgerState<U>| #[trigger]
            cryptarchia::is_epoch_step(before, slot, sdp, config, stake, &epoch)
                && !proof.accepts(
                LeaderPublic {
                    aged_root: epoch.epoch_state.utxos.root_of(),
                    latest_root: before.utxos.root_of(),
                    epoch_nonce: epoch.epoch_state.nonce,
                    slot,
                    lottery_0: epoch.epoch_state.lottery_0,
                    lottery_1: epoch.epoch_state.lottery_1,
                },
            ),
        r matches Ok(after) ==> {
            &&& slot > before.slot
            &&& proof.accepts(
                LeaderPublic {
                    aged_root: after.epoch_state.utxos.root_of(),
                    latest_root: before.utxos.root_of(),
                    epoch_nonce: after.epoch_state.nonce,
                    slot,
                    lottery_0: after.epoch_state.lottery_0,
                    lottery_1: after.epoch_state.lottery_1,
                },
            )
            &&& after.slot == slot
            &&& after.nonce == nonce
            &&& after.utxos == before.utxos
            &&& after.fee_window == before.fee_window
            &&& after.execution_base_fee == before.execution_base_fee
        },
{
}

/// A header leaves what the ledger is when it moves on to the slot, with the block counted and
/// the new nonce.
pub proof fn headers_move_the_ledger_on<U: LeafExtractor<Utxo>, P: LeaderProof>(
    before: &LedgerState<U>,
    slot: Slot,
    proof: &P,
    sdp: &SdpLedger,
    config: &Config,
    stake: StakeOutcome,
    nonce: Fr,
    after: LedgerState<U>,
)
    requires
        cryptarchia::is_header_result(before, slot, proof, sdp, config, stake, nonce, Ok(after)),
    ensures
        exists|moved: LedgerState<U>| #[trigger]
            cryptarchia::is_epoch_step(before, slot, sdp, config, stake, &moved) && after == (
            LedgerState {
                nonce,
                block_density: moved.block_density.with_block(slot),
                ..moved
            }),
{
}

/// The fees of the last blocks are added up.
pub proof fn fees_add_up(fees: Seq<GasCost>)
    ensures
        cryptarchia::sum_of(fees) == fees.fold_left(0int, |total: int, fee: GasCost| total + fee),
    decreases fees.len(),
{
    if fees.len() > 0 {
        fees_add_up(fees.drop_last());
    }
}

/// When the fees of one block are replaced, their sum changes by as much.
pub proof fn sum_changes_with_one_fee(fees: Seq<GasCost>, i: int, fee: GasCost)
    requires
        0 <= i < fees.len(),
    ensures
        cryptarchia::sum_of(fees.update(i, fee)) == cryptarchia::sum_of(fees) - fees[i] + fee,
    decreases fees.len(),
{
    let changed = fees.update(i, fee);
    if i == fees.len() - 1 {
        assert(changed.drop_last() =~= fees.drop_last());
    } else {
        sum_changes_with_one_fee(fees.drop_last(), i, fee);
        assert(changed.drop_last() =~= fees.drop_last().update(i, fee));
    }
}

/// What an output is worth as stake at genesis: nothing if it belongs to the faucet.
pub open spec fn genesis_worth(utxo: Utxo, faucet_pk: Option<ZkPublicKey>) -> int {
    if faucet_pk is Some && faucet_pk->0 == utxo.note.pk {
        0
    } else {
        utxo.note.value as int
    }
}

proof fn lemma_genesis_utxos(outputs: Seq<Utxo>)
    ensures
        cryptarchia::genesis_utxos(outputs).dom().finite(),
        forall|id: NoteId| #[trigger]
            cryptarchia::genesis_utxos(outputs).dom().contains(id) <==> exists|i: int|
                0 <= i < outputs.len() && (#[trigger] outputs[i]).id == id,
    decreases outputs.len(),
{
    if outputs.len() > 0 {
        let rest = outputs.drop_last();
        lemma_genesis_utxos(rest);
        assert forall|id: NoteId| #[trigger]
            cryptarchia::genesis_utxos(outputs).dom().contains(id) <==> exists|i: int|
                0 <= i < outputs.len() && (#[trigger] outputs[i]).id == id by {
            if cryptarchia::genesis_utxos(rest).dom().contains(id) {
                let i = choose|i: int| 0 <= i < rest.len() && (#[trigger] rest[i]).id == id;
                assert(outputs[i].id == id);
            }
            if id == outputs.last().id {
                assert(outputs[outputs.len() - 1].id == id);
            }
            if exists|i: int| 0 <= i < outputs.len() && (#[trigger] outputs[i]).id == id {
                let i = choose|i: int| 0 <= i < outputs.len() && (#[trigger] outputs[i]).id == id;
                if i < rest.len() {
                    assert(rest[i].id == id);
                }
            }
        }
    }
}

proof fn lemma_same_stake(
    a: Map<NoteId, Utxo>,
    b: Map<NoteId, Utxo>,
    faucet_pk: Option<ZkPublicKey>,
    ids: Set<NoteId>,
)
    requires
        ids.finite(),
        forall|id: NoteId| ids.contains(id) ==> #[trigger] a[id] == b[id],
    ensures
        cryptarchia::stake_sum(a, faucet_pk, ids) == cryptarchia::stake_sum(b, faucet_pk, ids),
    decreases ids.len(),
{
    if ids.len() > 0 {
        let id = ids.choose();
        let rest = ids.remove(id);
        lemma_same_stake(a, b, faucet_pk, rest);
        cryptarchia::lemma_stake_insert(a, faucet_pk, rest, id);
        cryptarchia::lemma_stake_insert(b, faucet_pk, rest, id);
        assert(rest.insert(id) =~= ids);
    } else {
        assert(ids =~= Set::empty());
        let f = |sum: int, id: NoteId| sum + cryptarchia::stake_value(a[id], faucet_pk);
        let g = |sum: int, id: NoteId| sum + cryptarchia::stake_value(b[id], faucet_pk);
        vstd::set::fold::lemma_fold_empty(0int, f);
        vstd::set::fold::lemma_fold_empty(0int, g);
    }
}

/// The stake at genesis is what the outputs are worth in all, those of the faucet aside, and one
/// token at least.
pub proof fn genesis_stake_adds_up(outputs: Seq<Utxo>, faucet_pk: Option<ZkPublicKey>)
    requires
        forall|i: int, j: int|
            0 <= i < j < outputs.len() ==> (#[trigger] outputs[i]).id != (#[trigger] outputs[j]).id,
    ensures
        ({
            let worth = outputs.fold_left(
                0int,
                |total: int, utxo: Utxo| total + genesis_worth(utxo, faucet_pk),
            );
            &&& cryptarchia::value_of(outputs, faucet_pk) == worth
            &&& cryptarchia::genesis_stake_of(outputs, faucet_pk) == if worth >= 1 {
                worth
            } else {
                1
            }
        }),
    decreases outputs.len(),
{
    let utxos = cryptarchia::genesis_utxos(outputs);
    lemma_genesis_utxos(outputs);
    if outputs.len() > 0 {
        let rest = outputs.drop_last();
        let last = outputs.last();
        assert forall|i: int, j: int| 0 <= i < j < rest.len() implies (#[trigger] rest[i]).id != (
        #[trigger] rest[j]).id by {
            assert(outputs[i].id != outputs[j].id);
        }
        genesis_stake_adds_up(rest, faucet_pk);
        lemma_genesis_utxos(rest);
        let old_utxos = cryptarchia::genesis_utxos(rest);
        if old_utxos.dom().contains(last.id) {
            let i = choose|i: int| 0 <= i < rest.len() && (#[trigger] rest[i]).id == last.id;
            assert(outputs[i].id != outputs[outputs.len() - 1].id);
        }
        assert(utxos.dom() =~= old_utxos.dom().insert(last.id));
        cryptarchia::lemma_stake_insert(utxos, faucet_pk, old_utxos.dom(), last.id);
        lemma_same_stake(utxos, old_utxos, faucet_pk, old_utxos.dom());
    } else {
        assert(utxos.dom() =~= Set::empty());
        let f = |sum: int, id: NoteId| sum + cryptarchia::stake_value(utxos[id], faucet_pk);
        vstd::set::fold::lemma_fold_empty(0int, f);
    }
}

proof fn lemma_next_byte(slot: int, unit: int)
    requires
        slot >= 0,
        unit > 0,
    ensures
        slot / unit == slot / unit % 256 + 256 * (slot / (256 * unit)),
        0 <= slot / unit,
{
    vstd::arithmetic::div_mod::lemma_div_denominator(slot, unit, 256);
    vstd::arithmetic::div_mod::lemma_div_pos_is_pos(slot, unit);
    assert(unit * 256 == 256 * unit);
    vstd::arithmetic::div_mod::lemma_fundamental_div_mod(slot / unit, 256);
}

/// A slot as an element is its number in the first eight bytes, the lowest first.
pub proof fn elements_of_slots_are_their_numbers(slot: Slot)
    ensures
        ({
            let e = cryptarchia::slot_element(slot)@;
            &&& slot == e[0] + 256 * (e[1] + 256 * (e[2] + 256 * (e[3] + 256 * (e[4] + 256 * (e[5]
                + 256 * (e[6] + 256 * e[7]))))))
            &&& forall|k: int| 8 <= k < 32 ==> #[trigger] e[k] == 0
        }),
{
    let n = slot as int;
    lemma_next_byte(n, 1);
    lemma_next_byte(n, 256);
    lemma_next_byte(n, 65_536);
    lemma_next_byte(n, 16_777_216);
    lemma_next_byte(n, 4_294_967_296);
    lemma_next_byte(n, 1_099_511_627_776);
    lemma_next_byte(n, 281_474_976_710_656);
    lemma_next_byte(n, 72_057_594_037_927_936);
    assert(n / 18_446_744_073_709_551_616 == 0) by {
        vstd::arithmetic::div_mod::lemma_basic_div(n, 18_446_744_073_709_551_616);
    }
    let e = cryptarchia::slot_element(slot)@;
    assert(e[0] == n % 256);
    assert(e[1] == n / 256 % 256);
    assert(e[2] == n / 65_536 % 256);
    assert(e[3] == n / 16_777_216 % 256);
    assert(e[4] == n / 4_294_967_296 % 256);
    assert(e[5] == n / 1_099_511_627_776 % 256);
    assert(e[6] == n / 281_474_976_710_656 % 256);
    assert(e[7] == n / 72_057_594_037_927_936 % 256);
}

} // verus!
