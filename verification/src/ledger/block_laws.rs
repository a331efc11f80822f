//! Laws of the contents of blocks.
use vstd::prelude::*;

use crate::config::Config;
use crate::cryptarchia;
use crate::cryptarchia::epoch::EpochState;
use crate::cryptarchia::laws as chain_laws;
use crate::cryptarchia::market;
use crate::cryptarchia::GasPrices;
use crate::error::LedgerError;
use crate::leader_proof::LeaderProof;
use crate::ledger;
use crate::ledger::contents;
use crate::ledger::contents::{BlockTotals, TxGas, TxRun};
use crate::ledger::laws;
use crate::ledger::ops;
use crate::ledger::rewards;
use crate::ledger::{BlockInputs, Event, HeaderInputs, Ledger, LedgerState};
use crate::mantle;
use crate::mantle::leader;
use crate::mantle::sdp;
use crate::mantle::sdp::rewards::blend::current_epoch::CoreNetwork;
use crate::mantle::sdp::{PendingHeaderEffect, RewardOrigin, SdpExecution};
use crate::mantle::ChannelExecution;
use crate::merkle::hasher::MerkleHasher;
use crate::merkle::tree::LeafExtractor;
use crate::session::chain_laws as note_laws;
use crate::types::{
    Balance, DeclarationId, Fr, HeaderEvent, HeaderId, NoteId, OpFailure, ServiceType, Slot, TxEvent,
    Utxo, VoucherCm,
};

verus! {

/// A transaction is taken into a block if and only if its gas can be counted, it pays what its
/// gas costs in all, and that covers what is burned, and the block does not use more execution
/// gas than 3193460 with it, and can still be counted. What is burned is the price of its
/// execution gas and what its storage gas costs. The rest of what it pays is tipped.
pub proof fn transactions_pay_for_gas(
    totals: BlockTotals,
    balance: Balance,
    gas: TxGas,
    prices: GasPrices,
)
    requires
        balance <= u64::MAX,
    ensures
        ({
            let r = contents::settled_tx(totals, balance, gas, prices);
            let known = gas.total_gas_cost is Some && gas.execution_gas is Some
                && gas.storage_gas_cost is Some && gas.storage_gas is Some;
            let cost = gas.total_gas_cost->0;
            let burned = gas.execution_gas->0 * prices.execution_base_gas_price
                + gas.storage_gas_cost->0;
            &&& r is Ok <==> {
                &&& known
                &&& balance >= cost
                &&& balance >= burned
                &&& totals.fee_burned + burned <= u64::MAX
                &&& totals.fee_tip + (balance - burned) <= u64::MAX
                &&& totals.storage_gas + gas.storage_gas->0 <= u64::MAX
                &&& totals.execution_gas + gas.execution_gas->0 <= 3_193_460
            }
            &&& r == Err::<BlockTotals, _>(LedgerError::InsufficientBalance)
                <==> gas.total_gas_cost is Some && balance < cost
            &&& r matches Err(LedgerError::TooMuchExecutionGas { gas: used, limit }) ==> {
                &&& used == totals.execution_gas + gas.execution_gas->0
                &&& limit == 3_193_460
                &&& used > limit
            }
            &&& r matches Ok(after) ==> {
                &&& after.fee_burned == totals.fee_burned + burned
                &&& after.fee_tip == totals.fee_tip + balance - burned
                &&& after.execution_gas == totals.execution_gas + gas.execution_gas->0
                &&& after.storage_gas == totals.storage_gas + gas.storage_gas->0
            }
        }),
{
    if gas.execution_gas is Some && gas.storage_gas_cost is Some {
        let product = gas.execution_gas->0 * prices.execution_base_gas_price;
        assert(product >= 0) by (nonlinear_arith)
            requires
                product == gas.execution_gas->0 * prices.execution_base_gas_price,
                gas.execution_gas->0 >= 0,
                prices.execution_base_gas_price >= 0,
        ;
    }
}

/// What a block adds up to are the sums over its transactions: of their gas, of what they burn,
/// and of what they pay beyond that.
pub proof fn totals_add_up<U: LeafExtractor<Utxo>>(
    prices: GasPrices,
    txs: Seq<TxRun<U>>,
    totals: BlockTotals,
)
    requires
        contents::settled(prices, txs) == Ok::<_, LedgerError>(totals),
        forall|i: int|
            0 <= i < txs.len() ==> i128::MIN <= ops::balance_of((#[trigger] txs[i]).steps@)
                <= u64::MAX,
    ensures
        totals.execution_gas == txs.fold_left(
            0int,
            |sum: int, tx: TxRun<U>| sum + tx.gas.execution_gas->0,
        ),
        totals.storage_gas == txs.fold_left(
            0int,
            |sum: int, tx: TxRun<U>| sum + tx.gas.storage_gas->0,
        ),
        totals.fee_burned == txs.fold_left(
            0int,
            |sum: int, tx: TxRun<U>|
                sum + (tx.gas.execution_gas->0 * prices.execution_base_gas_price
                    + tx.gas.storage_gas_cost->0),
        ),
        totals.fee_burned + totals.fee_tip == txs.fold_left(
            0int,
            |sum: int, tx: TxRun<U>| sum + ops::balance_of(tx.steps@),
        ),
        forall|i: int|
            0 <= i < txs.len() ==> ops::balance_of((#[trigger] txs[i]).steps@)
                >= txs[i].gas.total_gas_cost->0,
    decreases txs.len(),
{
    if txs.len() > 0 {
        let rest = txs.drop_last();
        let last = txs.last();
        assert(forall|i: int| 0 <= i < rest.len() ==> rest[i] == txs[i]);
        assert(txs[txs.len() - 1] == last);
        let before = contents::settled(prices, rest)->Ok_0;
        totals_add_up(prices, rest, before);
        transactions_pay_for_gas(
            before,
            ops::balance_of(last.steps@) as i128,
            last.gas,
            prices,
        );
        assert forall|i: int| 0 <= i < txs.len() implies ops::balance_of(
            (#[trigger] txs[i]).steps@,
        ) >= txs[i].gas.total_gas_cost->0 by {
            if i < rest.len() {
                assert(rest[i] == txs[i]);
            }
        }
    }
}

/// When a block ends, the leaders have earned four tenths, and the providers of the Blend network
/// six tenths, of a mean of the inflation and of what was burned. Here `share` is what the stake
/// lacks to its target, which the fees of the last 120 blocks raise. The leaders have earned all
/// that was tipped besides.
pub proof fn blocks_pay_leaders_and_providers<U: LeafExtractor<Utxo>>(
    before: &LedgerState<U>,
    totals: BlockTotals,
    after: LedgerState<U>,
    share: int,
)
    requires
        contents::rewards_fit(before, totals.fee_burned, totals.fee_tip),
        contents::is_block_end(before, totals, Ok(after)),
        ({
            let window = before.cryptarchia_ledger.fee_window@;
            let fees = cryptarchia::sum_of(window) - window[before.block_number as int % 120]
                + totals.fee_burned;
            let gap = 3_000_000_000 + 10_512 * fees
                - before.cryptarchia_ledger.epoch_state.total_stake;
            &&& 0 <= share <= 120_000_000
            &&& share > 0 ==> share <= gap
            &&& share < 120_000_000 ==> share >= gap
        }),
    ensures
        ({
            let earned = 62_500 * share + 657 * (120_000_000 - share) * totals.fee_burned;
            let leader = after.mantle_ledger.leaders.pending_rewards
                - before.mantle_ledger.leaders.pending_rewards - totals.fee_tip;
            let blend = after.mantle_ledger.sdp.blend_income()
                - before.mantle_ledger.sdp.blend_income();
            &&& 657 * 120_000_000 * 10 * leader <= 4 * earned < 657 * 120_000_000 * 10 * (leader
                + 1)
            &&& before.mantle_ledger.sdp.blend_network is Some ==> 657 * 120_000_000 * 10 * blend
                <= 6 * earned < 657 * 120_000_000 * 10 * (blend + 1)
            &&& before.mantle_ledger.sdp.blend_network is None ==> blend == 0
        }),
{
    let window = before.cryptarchia_ledger.fee_window@;
    let i = before.block_number as int % 120;
    chain_laws::sum_changes_with_one_fee(window, i, totals.fee_burned);
    let sum = cryptarchia::sum_of(before.fee_window_after(totals.fee_burned));
    let stake = before.cryptarchia_ledger.epoch_state.total_stake;
    rewards::rewards_are_tenths_of_inflation_and_fees(sum, stake, totals.fee_burned, share);
    rewards::lemma_rewards(sum, stake, totals.fee_burned);
}

/// When a block ends, what it burned is kept in the place of what the block 120 blocks before it
/// burned, the storage gas is counted, and the use and the price of execution gas move on. Nothing
/// else changes but what leaders and providers have earned.
pub proof fn blocks_are_kept_in_the_window<U: LeafExtractor<Utxo>>(
    before: &LedgerState<U>,
    totals: BlockTotals,
    after: LedgerState<U>,
    k: int,
)
    requires
        contents::is_block_end(before, totals, Ok(after)),
        0 <= k < 120,
    ensures
        ({
            let old_chain = before.cryptarchia_ledger;
            let new_chain = after.cryptarchia_ledger;
            &&& new_chain.fee_window@[k] == if k == before.block_number % 120 {
                totals.fee_burned
            } else {
                old_chain.fee_window@[k]
            }
            &&& new_chain.storage_gas_consumed_in_epoch == old_chain.storage_gas_consumed_in_epoch
                + totals.storage_gas
            &&& 10 * new_chain.average_execution_gas <= 9 * old_chain.average_execution_gas
                + totals.execution_gas < 10 * (new_chain.average_execution_gas + 1)
            &&& new_chain.utxos == old_chain.utxos
            &&& new_chain.nonce == old_chain.nonce
            &&& new_chain.slot == old_chain.slot
            &&& new_chain.epoch_state == old_chain.epoch_state
            &&& new_chain.next_epoch_state == old_chain.next_epoch_state
            &&& new_chain.block_density == old_chain.block_density
            &&& new_chain.storage_gas_price == old_chain.storage_gas_price
            &&& new_chain.storage_gas_ema == old_chain.storage_gas_ema
        }),
        after.block_number == before.block_number,
        after.mantle_ledger.channels == before.mantle_ledger.channels,
        after.mantle_ledger.sdp.locked_notes == before.mantle_ledger.sdp.locked_notes,
        after.mantle_ledger.sdp.epoch == before.mantle_ledger.sdp.epoch,
        after.mantle_ledger.leaders.nfs == before.mantle_ledger.leaders.nfs,
        after.mantle_ledger.leaders.claimable_rewards
            == before.mantle_ledger.leaders.claimable_rewards,
        after.mantle_ledger.leaders.vouchers == before.mantle_ledger.leaders.vouchers,
        after.mantle_ledger.leaders.vouchers_snapshot
            == before.mantle_ledger.leaders.vouchers_snapshot,
        after.mantle_ledger.leaders.epoch == before.mantle_ledger.leaders.epoch,
        before.mantle_ledger.sdp.blend_network matches Some(service) ==> {
            &&& after.mantle_ledger.sdp.blend_network matches Some(new_service)
            &&& new_service.declarations == service.declarations
            &&& new_service.rewards.submitted() == service.rewards.submitted()
            &&& new_service.rewards.target() == service.rewards.target()
            &&& new_service.rewards.current() == service.rewards.current()
        },
{
    market::execution_average_moves_a_tenth(
        before.cryptarchia_ledger.average_execution_gas,
        totals.execution_gas,
    );
}

/// When a block ends, the price of execution gas is multiplied by seven eighths, and by an eighth
/// for each time that its smoothed use reaches 1596730, rounded up, if that can be counted.
pub proof fn blocks_move_the_price_of_gas<U: LeafExtractor<Utxo>>(
    before: &LedgerState<U>,
    totals: BlockTotals,
    after: LedgerState<U>,
)
    requires
        contents::is_block_end(before, totals, Ok(after)),
        before.cryptarchia_ledger.execution_base_fee * (7 * 1_596_730
            + after.cryptarchia_ledger.average_execution_gas) <= 8 * 1_596_730 * u64::MAX,
    ensures
        ({
            let fee = before.cryptarchia_ledger.execution_base_fee;
            let new_fee = after.cryptarchia_ledger.execution_base_fee;
            let scaled = fee * (7 * 1_596_730 + after.cryptarchia_ledger.average_execution_gas);
            scaled <= 8 * 1_596_730 * new_fee < scaled + 8 * 1_596_730
        }),
{
    let fee = before.cryptarchia_ledger.execution_base_fee;
    let average = market::execution_average(
        before.cryptarchia_ledger.average_execution_gas,
        totals.execution_gas,
    );
    market::execution_average_moves_a_tenth(
        before.cryptarchia_ledger.average_execution_gas,
        totals.execution_gas,
    );
    market::execution_price_moves_with_demand(fee, average);
    let next = market::execution_fee(fee, average);
    assert(0 <= fee * (7 * 1_596_730 + average)) by (nonlinear_arith)
        requires
            fee >= 0,
            average >= 0,
    ;
}

/// A block cannot end if what its leader earns, or the storage gas of the epoch, cannot be
/// counted, and ends otherwise.
pub proof fn blocks_end_if_they_can_be_counted<U: LeafExtractor<Utxo>>(
    before: &LedgerState<U>,
    totals: BlockTotals,
    r: Result<LedgerState<U>, LedgerError>,
)
    requires
        contents::is_block_end(before, totals, r),
    ensures
        r is Err ==> r == Err::<LedgerState<U>, _>(LedgerError::GasOverflow),
        before.cryptarchia_ledger.storage_gas_consumed_in_epoch + totals.storage_gas > u64::MAX
            ==> r is Err,
        before.cryptarchia_ledger.storage_gas_consumed_in_epoch + totals.storage_gas <= u64::MAX
            && totals.fee_burned + 96 + totals.fee_tip <= u64::MAX ==> r is Ok,
{
    rewards::lemma_rewards(
        cryptarchia::sum_of(before.fee_window_after(totals.fee_burned)),
        before.cryptarchia_ledger.epoch_state.total_stake,
        totals.fee_burned,
    );
}

/// A block counts the storage gas of its transactions, keeps what they burn at the price of
/// execution gas before it, and never uses more execution gas than 3193460.
pub proof fn blocks_count_their_transactions<U: LeafExtractor<Utxo>>(
    before: &LedgerState<U>,
    config: &Config,
    txs: Seq<TxRun<U>>,
    after: LedgerState<U>,
    events: Seq<TxEvent>,
)
    requires
        contents::is_contents_result(before, config, txs, Ok((after, events))),
        forall|i: int|
            0 <= i < txs.len() ==> ops::balance_of((#[trigger] txs[i]).steps@) <= u64::MAX,
    ensures
        after.cryptarchia_ledger.storage_gas_consumed_in_epoch
            == before.cryptarchia_ledger.storage_gas_consumed_in_epoch + txs.fold_left(
            0int,
            |sum: int, tx: TxRun<U>| sum + tx.gas.storage_gas->0,
        ),
        after.cryptarchia_ledger.fee_window@[before.block_number as int % 120] == txs.fold_left(
            0int,
            |sum: int, tx: TxRun<U>|
                sum + (tx.gas.execution_gas->0 * before.cryptarchia_ledger.execution_base_fee
                    + tx.gas.storage_gas_cost->0),
        ),
        txs.fold_left(0int, |sum: int, tx: TxRun<U>| sum + tx.gas.execution_gas->0) <= 3_193_460,
        forall|i: int|
            0 <= i < txs.len() ==> ops::balance_of((#[trigger] txs[i]).steps@)
                >= txs[i].gas.total_gas_cost->0,
        after.block_number == before.block_number,
        after.cryptarchia_ledger.slot == before.cryptarchia_ledger.slot,
        after.cryptarchia_ledger.epoch_state == before.cryptarchia_ledger.epoch_state,
{
    let (last, totals) = laws::lemma_contents_end(before, config, txs, after, events);
    totals_add_up(before.prices(), txs, totals);
    laws::blocks_stay_within_the_gas_limit(before.prices(), txs);
    blocks_are_kept_in_the_window(&last, totals, after, before.block_number as int % 120);
    assert(txs.fold_left(
        0int,
        |sum: int, tx: TxRun<U>|
            sum + (tx.gas.execution_gas->0 * before.prices().execution_base_gas_price
                + tx.gas.storage_gas_cost->0),
    ) == txs.fold_left(
        0int,
        |sum: int, tx: TxRun<U>|
            sum + (tx.gas.execution_gas->0 * before.cryptarchia_ledger.execution_base_fee
                + tx.gas.storage_gas_cost->0),
    ));
}

/// The transactions of a block are applied in their order, each to what those before it have
/// left, and report one after the other.
pub proof fn transactions_follow_each_other<U: LeafExtractor<Utxo>>(
    before: &LedgerState<U>,
    config: &Config,
    txs: Seq<TxRun<U>>,
    tx: TxRun<U>,
    after: LedgerState<U>,
    totals: BlockTotals,
    events: Seq<TxEvent>,
)
    requires
        contents::is_block_run(before, config, txs.push(tx), Ok((after, totals, events))),
    ensures
        exists|
            mid: LedgerState<U>,
            mid_totals: BlockTotals,
            first: Seq<TxEvent>,
            balance: Balance,
            second: Seq<TxEvent>,
        |
            #![trigger contents::is_block_run(before, config, txs, Ok((mid, mid_totals, first))),
                ops::is_tx_run(&mid, config, tx.steps@, Ok((after, balance, second)))]
            contents::is_block_run(before, config, txs, Ok((mid, mid_totals, first)))
                && ops::is_tx_run(&mid, config, tx.steps@, Ok((after, balance, second))) && events
                == first + second && contents::settled_tx(
                mid_totals,
                balance,
                tx.gas,
                after.prices(),
            ) == Ok::<_, LedgerError>(totals),
{
    let all = txs.push(tx);
    assert(all.drop_last() =~= txs);
    let r: contents::BlockProgress<U> = Ok((after, totals, events));
    let (mid, run) = choose|mid: contents::BlockProgress<U>, run: ops::Progress<U>|
        contents::is_block_run(before, config, all.drop_last(), mid)
            && #[trigger] contents::is_next_tx(config, mid, &all.last(), run, r);
    let (state, mid_totals, first) = mid->Ok_0;
    let (done, balance, second) = run->Ok_0;
    assert(contents::is_block_run(before, config, txs, Ok((state, mid_totals, first))));
    assert(ops::is_tx_run(&state, config, tx.steps@, Ok((after, balance, second))));
}

/// A block reports first what its header reports, and then what its transactions do, each in
/// order. A header reports the rewards that it pays after all else.
pub proof fn reports_are_in_order(
    effect: &PendingHeaderEffect,
    origins: Seq<RewardOrigin>,
    txs: Seq<TxEvent>,
    i: int,
)
    ensures
        ({
            let header = ledger::header_events(effect, origins);
            let all = ledger::block_events(header, txs);
            let first = effect.events@.len() as int;
            let paid = first + origins.len() as int;
            &&& header.len() == paid
            &&& all.len() == paid + txs.len()
            &&& 0 <= i < first ==> all[i] == Event::Header(effect.events@[i])
            &&& first <= i < paid ==> all[i] == Event::Header(
                HeaderEvent::SdpRewardDistributed {
                    service_type: ServiceType::BlendNetwork,
                    utxo: sdp::reward_utxos(effect.rewards@, origins)[i - first],
                },
            )
            &&& paid <= i < paid + txs.len() ==> all[i] == Event::Tx(txs[i - paid])
        }),
{
}

/// The header of a block is for the epoch of the leaders or a later one. It adds one voucher,
/// and at the start of an epoch what was collected can be claimed with the vouchers so far.
pub proof fn headers_release_rewards<H: MerkleHasher, U: LeafExtractor<Utxo>>(
    before: &mantle::LedgerState<H>,
    last: &EpochState<U>,
    next: &EpochState<U>,
    voucher: VoucherCm,
    config: &Config,
    core: CoreNetwork,
    r: Result<(mantle::LedgerState<H>, PendingHeaderEffect), mantle::Error>,
)
    requires
        before.leaders.claimable_rewards + before.leaders.pending_rewards <= u64::MAX,
        before.leaders.vouchers.leaf_count() <= u64::MAX,
        mantle::is_header_result(before, last, next, voucher, config, core, r),
    ensures
        r is Ok <==> next.epoch >= before.leaders.epoch && (before.sdp.blend_network is Some
            ==> config.sdp_config.service_params.blend_network is Some),
        next.epoch < before.leaders.epoch <==> r == Err::<
            (mantle::LedgerState<H>, PendingHeaderEffect),
            _,
        >(
            mantle::Error::Leader(
                leader::Error::InvalidEpoch {
                    current: before.leaders.epoch,
                    incoming: next.epoch,
                },
            ),
        ),
        r matches Ok((after, effect)) ==> {
            let started = next.epoch > before.leaders.epoch;
            &&& after.channels == before.channels
            &&& after.sdp.epoch == next.epoch
            &&& after.leaders.epoch == next.epoch
            &&& after.leaders.nfs == before.leaders.nfs
            &&& after.leaders.vouchers.leaf_count() == before.leaders.vouchers.leaf_count() + 1
            &&& after.leaders.vouchers.peaks() == before.leaders.vouchers.peaks_with(voucher)
            &&& started ==> {
                &&& after.leaders.claimable_rewards == before.leaders.claimable_rewards
                    + before.leaders.pending_rewards
                &&& after.leaders.pending_rewards == 0
                &&& after.leaders.vouchers_snapshot.count == before.leaders.vouchers.leaf_count()
                &&& after.leaders.vouchers_snapshot.root == before.leaders.vouchers.root()
            }
            &&& !started ==> {
                &&& after.leaders.claimable_rewards == before.leaders.claimable_rewards
                &&& after.leaders.pending_rewards == before.leaders.pending_rewards
                &&& after.leaders.vouchers_snapshot == before.leaders.vouchers_snapshot
            }
        },
{
}

/// A header that is accepted counts one block, adds the voucher of its leader, and brings the
/// chain, the leaders and the declarations into one epoch.
pub proof fn headers_keep_step<U: LeafExtractor<Utxo>, P: LeaderProof>(
    before: &LedgerState<U>,
    slot: Slot,
    proof: &P,
    config: &Config,
    inputs: HeaderInputs,
    after: LedgerState<U>,
    effect: PendingHeaderEffect,
)
    requires
        before.block_number < u64::MAX,
        ledger::is_header_result(before, slot, proof, config, inputs, Ok((after, effect))),
    ensures
        after.block_number == before.block_number + 1,
        after.cryptarchia_ledger.slot == slot,
        after.cryptarchia_ledger.nonce == inputs.nonce,
        after.mantle_ledger.leaders.vouchers.peaks()
            == before.mantle_ledger.leaders.vouchers.peaks_with(proof.voucher()),
        after.mantle_ledger.sdp.epoch == after.cryptarchia_ledger.epoch_state.epoch,
        after.cryptarchia_ledger.epoch_state.epoch >= before.mantle_ledger.leaders.epoch,
        after.mantle_ledger.leaders.epoch == after.cryptarchia_ledger.epoch_state.epoch,
        after.mantle_ledger.channels == before.mantle_ledger.channels,
        after.cryptarchia_ledger.utxos == before.cryptarchia_ledger.utxos,
{
}

/// A block is applied to the state after its parent, or rejected if that is not remembered. It
/// extends that state by one block, at a later slot.
pub proof fn blocks_extend_their_parent<U: LeafExtractor<Utxo>, P: LeaderProof>(
    before: &Ledger<U>,
    id: HeaderId,
    parent_id: HeaderId,
    slot: Slot,
    proof: &P,
    inputs: BlockInputs<U>,
    r: Result<(HeaderId, LedgerState<U>, Vec<Event>), LedgerError>,
)
    requires
        before.states@.dom().contains(parent_id) ==> {
            &&& before.states@[parent_id].on_schedule(&before.config)
            &&& before.states@[parent_id].can_apply_block(slot, &before.config, inputs)
        },
        ledger::is_prepared(before, id, parent_id, slot, proof, inputs, r),
    ensures
        !before.states@.dom().contains(parent_id) ==> r == Err::<
            (HeaderId, LedgerState<U>, Vec<Event>),
            _,
        >(LedgerError::ParentNotFound(parent_id)),
        r matches Ok((block, state, events)) ==> {
            let parent = before.states@[parent_id];
            &&& before.states@.dom().contains(parent_id)
            &&& block == id
            &&& state.block_number == parent.block_number + 1
            &&& state.cryptarchia_ledger.slot == slot
            &&& slot > parent.cryptarchia_ledger.slot
            &&& state.cryptarchia_ledger.nonce == inputs.header.nonce
        },
        before.states@.dom().contains(parent_id) && slot
            <= before.states@[parent_id].cryptarchia_ledger.slot ==> r == Err::<
            (HeaderId, LedgerState<U>, Vec<Event>),
            _,
        >(
            LedgerError::InvalidSlot {
                parent: before.states@[parent_id].cryptarchia_ledger.slot,
                block: slot,
            },
        ),
{
    if before.states@.dom().contains(parent_id) {
        let parent = before.states@[parent_id];
        let done: Result<(LedgerState<U>, Seq<Event>), LedgerError> = match r {
            Ok((_, state, events)) => Ok((state, events@)),
            Err(error) => Err(error),
        };
        laws::chain_moves_forward(&parent, slot, proof, &before.config, inputs, done);
        if slot <= parent.cryptarchia_ledger.slot {
            laws::late_block_is_rejected(&parent, slot, proof, &before.config, inputs, done);
        }
    }
}

/// When rewards are paid, the outputs that pay them are there. Every other note, and all else, is
/// as it was.
pub proof fn rewards_are_paid_by_new_notes<U: LeafExtractor<Utxo>>(
    before: &LedgerState<U>,
    utxos: Seq<Utxo>,
    after: &LedgerState<U>,
    id: NoteId,
)
    requires
        ledger::is_paid(before, utxos, after),
    ensures
        after.cryptarchia_ledger.utxos.entries().dom().contains(id) <==> note_laws::makes(utxos, id)
            || before.cryptarchia_ledger.utxos.entries().dom().contains(id),
        !note_laws::makes(utxos, id) ==> after.cryptarchia_ledger.utxos.entries()[id]
            == before.cryptarchia_ledger.utxos.entries()[id],
        note_laws::makes(utxos, id) ==> exists|i: int|
            0 <= i < utxos.len() && #[trigger] utxos[i]
                == after.cryptarchia_ledger.utxos.entries()[id].0 && utxos[i].id == id,
        after.mantle_ledger == before.mantle_ledger,
        after.block_number == before.block_number,
        after.cryptarchia_ledger.fee_window == before.cryptarchia_ledger.fee_window,
        after.cryptarchia_ledger.epoch_state == before.cryptarchia_ledger.epoch_state,
        after.cryptarchia_ledger.next_epoch_state == before.cryptarchia_ledger.next_epoch_state,
{
    note_laws::lemma_extended(
        &before.cryptarchia_ledger.utxos,
        utxos,
        &after.cryptarchia_ledger.utxos,
        id,
    );
}

/// The ledger starts at the first slot of the first epoch, with the given nonce and prices, and
/// the outputs of the genesis block as its notes and as its stake. Nothing was burned, used,
/// earned or claimed. The declarations of the genesis block that count are those of the first two
/// epochs.
pub proof fn ledgers_start_with_the_genesis_block<U: LeafExtractor<Utxo>>(
    outputs: Seq<Utxo>,
    inscription: ChannelExecution,
    declarations: Seq<(ServiceType, Result<SdpExecution, OpFailure>)>,
    config: &Config,
    nonce: Fr,
    lottery: (Fr, Fr),
    prices: GasPrices,
    state: &LedgerState<U>,
    i: int,
    id: DeclarationId,
)
    requires
        config.epoch_config.well_formed(),
        0 <= i < outputs.len(),
        forall|j: int, k: int|
            0 <= j < k < outputs.len() ==> (#[trigger] outputs[j]).id != (#[trigger] outputs[k]).id,
        ledger::is_genesis_state(
            outputs,
            inscription,
            declarations,
            config,
            nonce,
            lottery,
            prices,
            state,
        ),
        cryptarchia::genesis_stake_of(outputs, config.faucet_pk) <= u64::MAX,
    ensures
        ({
            let chain = state.cryptarchia_ledger;
            let worth = outputs.fold_left(
                0int,
                |total: int, utxo: Utxo| total + chain_laws::genesis_worth(utxo, config.faucet_pk),
            );
            let stake = if worth >= 1 {
                worth
            } else {
                1
            };
            let length = (config.epoch_config.epoch_stake_distribution_stabilization
                + config.epoch_config.epoch_period_nonce_buffer)
                * config.epoch_config.base_period_length;
            &&& state.block_number == 0
            &&& chain.slot == 0
            &&& chain.nonce == nonce
            &&& chain.epoch_state.epoch == 0
            &&& chain.next_epoch_state.epoch == 1
            &&& chain.epoch_state.nonce == nonce
            &&& chain.next_epoch_state.nonce == nonce
            &&& chain.epoch_state.total_stake == stake
            &&& chain.next_epoch_state.total_stake == stake
            &&& chain.epoch_state.lottery_0 == lottery.0
            &&& chain.epoch_state.lottery_1 == lottery.1
            &&& chain.epoch_state.utxos == chain.utxos
            &&& chain.next_epoch_state.utxos == chain.utxos
            &&& chain.utxos.entries().dom().contains(outputs[i].id)
            &&& chain.utxos.entries()[outputs[i].id].0 == outputs[i]
            &&& chain.utxos.filled() == outputs.len()
            &&& chain.block_density.first == 0
            &&& chain.block_density.last == length - 1
            &&& chain.block_density.count == 0
            &&& cryptarchia::sum_of(chain.fee_window@) == 0
            &&& chain.average_execution_gas == 0
            &&& chain.storage_gas_ema == 0
            &&& chain.storage_gas_consumed_in_epoch == 0
            &&& chain.execution_base_fee == prices.execution_base_gas_price
            &&& chain.storage_gas_price == prices.storage_gas_price
            &&& state.mantle_ledger.channels == inscription.channels
            &&& state.mantle_ledger.leaders.epoch == 0
            &&& state.mantle_ledger.leaders.claimable_rewards == 0
            &&& state.mantle_ledger.leaders.pending_rewards == 0
            &&& state.mantle_ledger.leaders.vouchers_snapshot.count == 0
            &&& state.mantle_ledger.leaders.reward() == 0
            &&& state.mantle_ledger.sdp.blend_income() == 0
            &&& state.mantle_ledger.sdp.blend_network matches Some(service) && {
                &&& service.rewards.target() is None
                &&& config.sdp_config.service_params.blend_network matches Some(params) ==> {
                    &&& chain.epoch_state.active_declarations.blend().dom().contains(id)
                        <==> service.declarations@.dom().contains(id) && (
                    service.declarations@[id].withdraw_at is None || 0
                        < service.declarations@[id].withdraw_at->0)
                    &&& chain.next_epoch_state.active_declarations.blend().dom().contains(id)
                        <==> service.declarations@.dom().contains(id) && 1
                        <= service.declarations@[id].active + params.inactivity_period && (
                    service.declarations@[id].withdraw_at is None || 1
                        < service.declarations@[id].withdraw_at->0)
                }
            }
        }),
{
    let chain = state.cryptarchia_ledger;
    let sdp = state.mantle_ledger.sdp;
    let bare = choose|bare: cryptarchia::LedgerState<U>|
        cryptarchia::is_genesis(outputs, config, nonce, lottery, prices, &bare)
            && #[trigger] ledger::is_seeded(&bare, &sdp, config, &chain);
    chain_laws::genesis_stake_adds_up(outputs, config.faucet_pk);
    lemma_no_fees(120);
    assert(chain.fee_window@ =~= Seq::new(120, |k: int| 0u64));
    let entry = chain.utxos.entries()[outputs[i].id];
    assert(bare.utxos.entries().dom().contains(outputs[i].id));
    assert(outputs[entry.1 as int].id == outputs[i].id);
    config.epoch_config.lemma_periods();
    assert(0 * config.epoch_config.length() == 0) by (nonlinear_arith);
    sdp::declaration_laws::active_declarations_are_those_that_count(
        &sdp,
        0,
        &config.sdp_config.service_params,
        &chain.epoch_state.active_declarations,
        id,
    );
    sdp::declaration_laws::active_declarations_are_those_that_count(
        &sdp,
        1,
        &config.sdp_config.service_params,
        &chain.next_epoch_state.active_declarations,
        id,
    );
}

/// The genesis block is accepted if and only if its inscription and all of its declarations are.
/// The first of these that is not is told.
pub proof fn genesis_blocks_are_accepted_whole(
    inscription: Result<ChannelExecution, OpFailure>,
    declarations: Seq<(ServiceType, Result<SdpExecution, OpFailure>)>,
    n: int,
)
    requires
        0 <= n <= declarations.len(),
        forall|i: int|
            0 <= i < n ==> (#[trigger] declarations[i]).0 == ServiceType::BlendNetwork
                && declarations[i].1 is Ok,
    ensures
        inscription matches Err(failure) ==> mantle::genesis_failure(inscription, declarations)
            == Some(mantle::Error::Channel(failure)),
        inscription is Ok && n == declarations.len() ==> mantle::genesis_failure(
            inscription,
            declarations,
        ) is None,
        inscription is Ok && n < declarations.len() && declarations[n].0
            != ServiceType::BlendNetwork ==> mantle::genesis_failure(inscription, declarations)
            == Some(mantle::Error::Sdp(sdp::Error::ServiceNotFound(declarations[n].0))),
        inscription is Ok && n < declarations.len() && declarations[n].0
            == ServiceType::BlendNetwork ==> (declarations[n].1 matches Err(failure)
            ==> mantle::genesis_failure(inscription, declarations) == Some(
            mantle::Error::Sdp(sdp::Error::SdpOp(failure)),
        )),
{
    sdp::declaration_laws::genesis_declarations_are_all_accepted(declarations, n);
}

proof fn lemma_no_fees(n: nat)
    ensures
        cryptarchia::sum_of(Seq::new(n, |k: int| 0u64)) == 0,
    decreases n,
{
    if n > 0 {
        lemma_no_fees((n - 1) as nat);
        assert(Seq::new(n, |k: int| 0u64).drop_last() =~= Seq::new((n - 1) as nat, |k: int| 0u64));
    }
}

} // verus!
