//! Laws of the ledger.
use vstd::prelude::*;

use crate::config::Config;
use crate::cryptarchia;
use crate::cryptarchia::GasPrices;
use crate::error::LedgerError;
use crate::leader_proof::{LeaderProof, LeaderPublic};
use crate::ledger;
use crate::ledger::contents;
use crate::ledger::contents::{BlockTotals, TxGas, TxRun};
use crate::ledger::ops;
use crate::ledger::{BlockInputs, Event, LedgerState, EXECUTION_GAS_LIMIT};
use crate::mantle::leader::LeaderState;
use crate::mantle::sdp;
use crate::mantle::sdp::PendingHeaderEffect;
use crate::merkle::tree::LeafExtractor;
use crate::types::{Balance, GasCost, HeaderId, Slot, TxEvent, Utxo};

verus! {

/// What a transaction pays is burned or tipped, and nothing of it is lost.
pub proof fn fees_are_burned_or_tipped(
    balance: Balance,
    gas: TxGas,
    prices: GasPrices,
    burned: GasCost,
    tip: GasCost,
)
    requires
        balance <= u64::MAX,
        contents::tx_fees(balance, gas, prices) == Ok::<_, LedgerError>((burned, tip)),
    ensures
        burned + tip == balance,
{
}

/// A transaction that does not pay for its gas is rejected.
pub proof fn unpaid_gas_is_rejected(
    totals: BlockTotals,
    balance: Balance,
    gas: TxGas,
    prices: GasPrices,
)
    requires
        gas.total_gas_cost matches Some(cost) && balance < cost,
    ensures
        contents::settled_tx(totals, balance, gas, prices) == Err::<BlockTotals, _>(
            LedgerError::InsufficientBalance,
        ),
{
}

/// The transactions of a block never use more execution gas than a block may use.
pub proof fn blocks_stay_within_the_gas_limit<U: LeafExtractor<Utxo>>(
    prices: GasPrices,
    txs: Seq<TxRun<U>>,
)
    ensures
        contents::settled(prices, txs) matches Ok(totals) ==> totals.execution_gas
            <= EXECUTION_GAS_LIMIT,
    decreases txs.len(),
{
    if txs.len() > 0 {
        blocks_stay_within_the_gas_limit(prices, txs.drop_last());
    }
}

/// What a transaction pays above its costs goes to the leaders, and to nobody else. If the
/// transactions of two blocks use the same gas and pay the same, but for one that pays `extra`
/// more in the second block, that block leaves the leaders `extra` more. The fees in the window,
/// the income of the Blend network, the gas that was used and the prices are the same.
pub proof fn tips_go_to_the_leaders<U: LeafExtractor<Utxo>>(
    before: &LedgerState<U>,
    config: &Config,
    a: Seq<TxRun<U>>,
    b: Seq<TxRun<U>>,
    i: int,
    extra: int,
    after_a: LedgerState<U>,
    events_a: Seq<TxEvent>,
    after_b: LedgerState<U>,
    events_b: Seq<TxEvent>,
)
    requires
        a.len() == b.len(),
        0 <= i < a.len(),
        forall|k: int|
            0 <= k < a.len() ==> #[trigger] a[k].gas == b[k].gas && ops::balance_of(b[k].steps@)
                == ops::balance_of(a[k].steps@) + (if k == i {
                extra
            } else {
                0
            }),
        forall|k: int|
            0 <= k < a.len() ==> ops::balance_of((#[trigger] a[k]).steps@) <= u64::MAX,
        ops::balance_of(b[i].steps@) <= u64::MAX,
        contents::settled(before.prices(), a) matches Ok(totals) ==> contents::rewards_fit(
            before,
            totals.fee_burned,
            totals.fee_tip,
        ),
        contents::settled(before.prices(), b) matches Ok(totals) ==> contents::rewards_fit(
            before,
            totals.fee_burned,
            totals.fee_tip,
        ),
        contents::is_contents_result(before, config, a, Ok((after_a, events_a))),
        contents::is_contents_result(before, config, b, Ok((after_b, events_b))),
    ensures
        after_b.mantle_ledger.leaders.pending_rewards
            == after_a.mantle_ledger.leaders.pending_rewards + extra,
        after_b.mantle_ledger.leaders == (LeaderState {
            nfs: after_b.mantle_ledger.leaders.nfs,
            claimable_rewards: after_b.mantle_ledger.leaders.claimable_rewards,
            pending_rewards: after_b.mantle_ledger.leaders.pending_rewards,
            ..after_a.mantle_ledger.leaders
        }),
        after_b.mantle_ledger.sdp.blend_income() == after_a.mantle_ledger.sdp.blend_income(),
        after_b.cryptarchia_ledger.fee_window@ == after_a.cryptarchia_ledger.fee_window@,
        after_b.cryptarchia_ledger == (cryptarchia::LedgerState {
            utxos: after_b.cryptarchia_ledger.utxos,
            fee_window: after_b.cryptarchia_ledger.fee_window,
            ..after_a.cryptarchia_ledger
        }),
        after_b.block_number == after_a.block_number,
{
    let (last_a, totals_a) = lemma_contents_end(before, config, a, after_a, events_a);
    let (last_b, totals_b) = lemma_contents_end(before, config, b, after_b, events_b);
    assert forall|k: int| 0 <= k < b.len() implies ops::balance_of((#[trigger] b[k]).steps@)
        <= u64::MAX by {
        assert(a[k].gas == b[k].gas);
    }
    contents::lemma_settled_tips(before.prices(), a, b, i, extra, totals_a, totals_b);
}

/// The state and the totals that the transactions of a block lead to, and that it ends with.
pub proof fn lemma_contents_end<U: LeafExtractor<Utxo>>(
    before: &LedgerState<U>,
    config: &Config,
    txs: Seq<TxRun<U>>,
    after: LedgerState<U>,
    events: Seq<TxEvent>,
) -> (r: (LedgerState<U>, BlockTotals))
    requires
        contents::is_contents_result(before, config, txs, Ok((after, events))),
    ensures
        r.0.same_epoch(before),
        contents::settled(before.prices(), txs) == Ok::<_, LedgerError>(r.1),
        contents::is_block_end(&r.0, r.1, Ok(after)),
        forall|k: int|
            0 <= k < txs.len() ==> 0 <= ops::balance_of((#[trigger] txs[k]).steps@) <= i128::MAX,
{
    let done: Result<(LedgerState<U>, Seq<TxEvent>), LedgerError> = Ok((after, events));
    let run = choose|run: contents::BlockProgress<U>| #[trigger]
        contents::is_block_run(before, config, txs, run) && match run {
            Err(error) => done == Err::<(LedgerState<U>, Seq<TxEvent>), _>(error),
            Ok((last, totals, events)) => match done {
                Ok((after, reported)) => reported == events && contents::is_block_end(
                    &last,
                    totals,
                    Ok(after),
                ),
                Err(error) => contents::is_block_end(&last, totals, Err(error)),
            },
        };
    let (last, totals, tx_events) = run->Ok_0;
    contents::lemma_block_run(before, config, txs, last, totals, tx_events);
    (last, totals)
}

/// A block that is not after its parent is rejected.
pub proof fn late_block_is_rejected<U: LeafExtractor<Utxo>, P: LeaderProof>(
    before: &LedgerState<U>,
    slot: Slot,
    proof: &P,
    config: &Config,
    inputs: BlockInputs<U>,
    r: Result<(LedgerState<U>, Seq<Event>), LedgerError>,
)
    requires
        slot <= before.cryptarchia_ledger.slot,
        ledger::is_update_result(before, slot, proof, config, inputs, r),
    ensures
        r == Err::<(LedgerState<U>, Seq<Event>), _>(
            LedgerError::InvalidSlot { parent: before.cryptarchia_ledger.slot, block: slot },
        ),
{
}

/// A block whose proof of leadership holds for nothing is rejected.
pub proof fn false_proof_is_rejected<U: LeafExtractor<Utxo>, P: LeaderProof>(
    before: &LedgerState<U>,
    slot: Slot,
    proof: &P,
    config: &Config,
    inputs: BlockInputs<U>,
    r: Result<(LedgerState<U>, Seq<Event>), LedgerError>,
)
    requires
        slot > before.cryptarchia_ledger.slot,
        forall|public_inputs: LeaderPublic| !#[trigger] proof.accepts(public_inputs),
        ledger::is_update_result(before, slot, proof, config, inputs, r),
    ensures
        r == Err::<(LedgerState<U>, Seq<Event>), _>(LedgerError::InvalidProof),
{
}

/// The state after a block is one block and one slot at least after that before it, and has
/// the nonce of the block.
pub proof fn chain_moves_forward<U: LeafExtractor<Utxo>, P: LeaderProof>(
    before: &LedgerState<U>,
    slot: Slot,
    proof: &P,
    config: &Config,
    inputs: BlockInputs<U>,
    r: Result<(LedgerState<U>, Seq<Event>), LedgerError>,
)
    requires
        before.on_schedule(config),
        before.can_apply_block(slot, config, inputs),
        ledger::is_update_result(before, slot, proof, config, inputs, r),
    ensures
        r matches Ok((after, _)) ==> {
            &&& after.block_number == before.block_number + 1
            &&& after.cryptarchia_ledger.slot == slot > before.cryptarchia_ledger.slot
            &&& after.cryptarchia_ledger.nonce == inputs.header.nonce
        },
{
    if let Ok((after, events)) = r {
        let header = choose|
            header: Result<(LedgerState<U>, PendingHeaderEffect), LedgerError>,
        | #[trigger]
            ledger::is_header_result(before, slot, proof, config, inputs.header, header)
                && match header {
                Err(error) => r == Err::<(LedgerState<U>, Seq<Event>), _>(error),
                Ok((state, effect)) => ledger::is_block_result(
                    &state,
                    &effect,
                    config,
                    inputs,
                    r,
                ),
            };
        let (state, effect) = header->Ok_0;
        ledger::lemma_header_step(before, slot, proof, config, inputs.header, state, effect);
        lemma_contents(&state, &effect, config, inputs, r);
    }
}

proof fn lemma_contents<U: LeafExtractor<Utxo>>(
    state: &LedgerState<U>,
    effect: &PendingHeaderEffect,
    config: &Config,
    inputs: BlockInputs<U>,
    r: Result<(LedgerState<U>, Seq<Event>), LedgerError>,
)
    requires
        ledger::is_block_result(state, effect, config, inputs, r),
    ensures
        r matches Ok((after, _)) ==> {
            &&& after.block_number == state.block_number
            &&& after.cryptarchia_ledger.slot == state.cryptarchia_ledger.slot
            &&& after.cryptarchia_ledger.nonce == state.cryptarchia_ledger.nonce
        },
{
    if let Ok((after, reported)) = r {
        let (paid, done) = choose|
            paid: LedgerState<U>,
            done: Result<(LedgerState<U>, Seq<TxEvent>), LedgerError>,
        |
            ledger::is_paid(
                state,
                sdp::reward_utxos(effect.rewards@, inputs.reward_origins@),
                &paid,
            ) && #[trigger] contents::is_contents_result(&paid, config, inputs.txs@, done) && (
            done matches Ok((end, _)) && end == after);
        let _ = lemma_contents_end(&paid, config, inputs.txs@, after, done->Ok_0.1);
    }
}

/// Forgetting a state that was just remembered gives back what was remembered before.
pub proof fn pruning_undoes_a_commit<U: LeafExtractor<Utxo>>(
    states: Map<HeaderId, LedgerState<U>>,
    id: HeaderId,
    state: LedgerState<U>,
)
    requires
        !states.dom().contains(id),
    ensures
        states.insert(id, state).remove(id) == states,
{
    assert(states.insert(id, state).remove(id) =~= states);
}

} // verus!
