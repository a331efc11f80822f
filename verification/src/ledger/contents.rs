//! The contents of blocks.
use vstd::prelude::*;

use crate::config::Config;
use crate::cryptarchia;
use crate::cryptarchia::market;
use crate::cryptarchia::GasPrices;
use crate::error::LedgerError;
use crate::ledger::ops;
use crate::ledger::ops::{OpStep, Progress};
use crate::ledger::rewards;
use crate::ledger::{LedgerState, EXECUTION_GAS_LIMIT};
use crate::mantle;
use crate::mantle::leader::LeaderState;
use crate::mantle::sdp;
use crate::merkle::tree::LeafExtractor;
use crate::types::{Balance, Gas, GasCost, GasPrice, TxEvent, Utxo, Value};

verus! {

/// The gas of a transaction. What cannot be represented is left out.
#[derive(Clone, Copy, Debug, PartialEq, Eq, Structural)]
pub struct TxGas {
    /// What all of its gas costs.
    pub total_gas_cost: Option<GasCost>,
    /// The execution gas that it uses.
    pub execution_gas: Option<Gas>,
    /// What its storage gas costs.
    pub storage_gas_cost: Option<GasCost>,
    /// The storage gas that it uses.
    pub storage_gas: Option<Gas>,
}

/// A transaction: its operations, and its gas at the prices of the block.
#[verifier::reject_recursive_types(U)]
pub struct TxRun<U: LeafExtractor<Utxo>> {
    pub steps: Vec<OpStep<U>>,
    pub gas: TxGas,
}

/// What the transactions of a block add up to.
#[derive(Clone, Copy, Debug, PartialEq, Eq, Structural)]
pub struct BlockTotals {
    pub execution_gas: Gas,
    pub storage_gas: Gas,
    pub fee_burned: GasCost,
    pub fee_tip: GasCost,
}

/// What a transaction costs and pays.
pub open spec fn tx_fees(
    balance: Balance,
    gas: TxGas,
    prices: GasPrices,
) -> Result<(GasCost, GasCost), LedgerError> {
    match gas.total_gas_cost {
        None => Err(LedgerError::GasOverflow),
        Some(cost) => if balance < cost {
            Err(LedgerError::InsufficientBalance)
        } else {
            match (gas.execution_gas, gas.storage_gas_cost) {
                (Some(execution), Some(storage)) => {
                    let burned = execution * prices.execution_base_gas_price + storage;
                    let paid = balance as u64;
                    if burned <= paid {
                        Ok((burned as u64, (paid - burned) as u64))
                    } else {
                        Err(LedgerError::GasOverflow)
                    }
                },
                _ => Err(LedgerError::GasOverflow),
            }
        },
    }
}

/// What a block adds up to with one more transaction, or why that one is rejected.
pub open spec fn settled_tx(
    totals: BlockTotals,
    balance: Balance,
    gas: TxGas,
    prices: GasPrices,
) -> Result<BlockTotals, LedgerError> {
    match tx_fees(balance, gas, prices) {
        Err(error) => Err(error),
        Ok((burned, tip)) => match gas.storage_gas {
            None => Err(LedgerError::GasOverflow),
            Some(storage) => {
                let execution_gas = totals.execution_gas + gas.execution_gas->0;
                if totals.fee_burned + burned > u64::MAX || totals.fee_tip + tip > u64::MAX
                    || execution_gas > u64::MAX || totals.storage_gas + storage > u64::MAX {
                    Err(LedgerError::GasOverflow)
                } else if execution_gas > EXECUTION_GAS_LIMIT {
                    Err(
                        LedgerError::TooMuchExecutionGas {
                            gas: execution_gas as u64,
                            limit: EXECUTION_GAS_LIMIT,
                        },
                    )
                } else {
                    Ok(
                        BlockTotals {
                            execution_gas: execution_gas as u64,
                            storage_gas: (totals.storage_gas + storage) as u64,
                            fee_burned: (totals.fee_burned + burned) as u64,
                            fee_tip: (totals.fee_tip + tip) as u64,
                        },
                    )
                }
            },
        },
    }
}

/// The totals of a block without transactions.
pub open spec fn no_totals() -> BlockTotals {
    BlockTotals { execution_gas: 0, storage_gas: 0, fee_burned: 0, fee_tip: 0 }
}

/// What the transactions of a block add up to if no operation fails.
pub open spec fn settled<U: LeafExtractor<Utxo>>(
    prices: GasPrices,
    txs: Seq<TxRun<U>>,
) -> Result<BlockTotals, LedgerError>
    decreases txs.len(),
{
    if txs.len() == 0 {
        Ok(no_totals())
    } else {
        match settled(prices, txs.drop_last()) {
            Err(error) => Err(error),
            Ok(totals) => settled_tx(
                totals,
                ops::balance_of(txs.last().steps@) as i128,
                txs.last().gas,
                prices,
            ),
        }
    }
}

/// What transactions add up to depends on no price but that of execution gas.
pub proof fn lemma_settled_price<U: LeafExtractor<Utxo>>(
    a: GasPrices,
    b: GasPrices,
    txs: Seq<TxRun<U>>,
)
    requires
        a.execution_base_gas_price == b.execution_base_gas_price,
    ensures
        settled(a, txs) == settled(b, txs),
    decreases txs.len(),
{
    if txs.len() > 0 {
        lemma_settled_price(a, b, txs.drop_last());
    }
}

/// What transactions have led to: the state, the totals and the events.
pub type BlockProgress<U> = Result<(LedgerState<U>, BlockTotals, Seq<TxEvent>), LedgerError>;

/// Whether `r` is what comes of the next transaction after `mid`, when `run` is what comes of
/// its operations.
pub open spec fn is_next_tx<U: LeafExtractor<Utxo>>(
    config: &Config,
    mid: BlockProgress<U>,
    tx: &TxRun<U>,
    run: Progress<U>,
    r: BlockProgress<U>,
) -> bool {
    match mid {
        Err(error) => r == Err::<(LedgerState<U>, BlockTotals, Seq<TxEvent>), _>(error),
        Ok((state, totals, events)) => {
            &&& ops::is_tx_run(&state, config, tx.steps@, run)
            &&& r == match run {
                Err(error) => Err(error),
                Ok((after, balance, more)) => match settled_tx(
                    totals,
                    balance,
                    tx.gas,
                    after.prices(),
                ) {
                    Err(error) => Err(error),
                    Ok(new_totals) => Ok::<_, LedgerError>((after, new_totals, events + more)),
                },
            }
        },
    }
}

/// Whether `r` is what comes of the transactions of a block, one after the other, until one
/// of them is rejected.
pub open spec fn is_block_run<U: LeafExtractor<Utxo>>(
    before: &LedgerState<U>,
    config: &Config,
    txs: Seq<TxRun<U>>,
    r: BlockProgress<U>,
) -> bool
    decreases txs.len(),
{
    if txs.len() == 0 {
        r == Ok::<_, LedgerError>((*before, no_totals(), Seq::<TxEvent>::empty()))
    } else {
        exists|mid: BlockProgress<U>, run: Progress<U>|
            is_block_run(before, config, txs.drop_last(), mid) && #[trigger] is_next_tx(
                config,
                mid,
                &txs.last(),
                run,
                r,
            )
    }
}

/// What the leader of a block gets, the tips included.
pub open spec fn leader_income<U: LeafExtractor<Utxo>>(
    state: &LedgerState<U>,
    burned: GasCost,
    tip: GasCost,
) -> int {
    rewards::leader_reward(
        cryptarchia::sum_of(state.fee_window_after(burned)),
        state.cryptarchia_ledger.epoch_state.total_stake,
        burned,
    ) + tip
}

/// What the providers of the Blend network get of a block.
pub open spec fn blend_income<U: LeafExtractor<Utxo>>(
    state: &LedgerState<U>,
    burned: GasCost,
) -> int {
    rewards::blend_reward(
        cryptarchia::sum_of(state.fee_window_after(burned)),
        state.cryptarchia_ledger.epoch_state.total_stake,
        burned,
    )
}

/// Whether what a block earns, if it can be represented, can be added to what was earned
/// before.
pub open spec fn rewards_fit<U: LeafExtractor<Utxo>>(
    state: &LedgerState<U>,
    burned: GasCost,
    tip: GasCost,
) -> bool {
    leader_income(state, burned, tip) <= u64::MAX ==> {
        &&& state.mantle_ledger.leaders.pending_rewards + leader_income(state, burned, tip)
            <= u64::MAX
        &&& state.mantle_ledger.sdp.blend_income() + blend_income(state, burned) <= u64::MAX
    }
}

/// Whether `after` is `before` when a block that burned and tipped as much has been paid for.
pub open spec fn is_rewarded<U: LeafExtractor<Utxo>>(
    before: &LedgerState<U>,
    burned: GasCost,
    tip: GasCost,
    after: &LedgerState<U>,
) -> bool {
    &&& after.block_number == before.block_number
    &&& after.cryptarchia_ledger == (cryptarchia::LedgerState {
        fee_window: after.cryptarchia_ledger.fee_window,
        ..before.cryptarchia_ledger
    })
    &&& after.cryptarchia_ledger.fee_window@ == before.fee_window_after(burned)
    &&& after.mantle_ledger.channels == before.mantle_ledger.channels
    &&& after.mantle_ledger.leaders == (LeaderState {
        pending_rewards: (before.mantle_ledger.leaders.pending_rewards + leader_income(
            before,
            burned,
            tip,
        )) as u64,
        ..before.mantle_ledger.leaders
    })
    &&& after.mantle_ledger.sdp.locked_notes == before.mantle_ledger.sdp.locked_notes
    &&& after.mantle_ledger.sdp.epoch == before.mantle_ledger.sdp.epoch
    &&& match before.mantle_ledger.sdp.blend_network {
        Some(service) => {
            &&& after.mantle_ledger.sdp.blend_network matches Some(new_service)
            &&& new_service.declarations == service.declarations
            &&& sdp::is_income_added(
                &service.rewards,
                &new_service.rewards,
                blend_income(before, burned) as u64,
            )
        },
        None => after.mantle_ledger.sdp.blend_network is None,
    }
}

/// Whether `r` is what comes of a block when all of its transactions were applied.
pub open spec fn is_block_end<U: LeafExtractor<Utxo>>(
    before: &LedgerState<U>,
    totals: BlockTotals,
    r: Result<LedgerState<U>, LedgerError>,
) -> bool {
    let leader = leader_income(before, totals.fee_burned, totals.fee_tip);
    let storage = before.cryptarchia_ledger.storage_gas_consumed_in_epoch + totals.storage_gas;
    if leader > u64::MAX || storage > u64::MAX {
        r == Err::<LedgerState<U>, _>(LedgerError::GasOverflow)
    } else {
        exists|paid: LedgerState<U>| #[trigger]
            is_rewarded(before, totals.fee_burned, totals.fee_tip, &paid) && r == Ok::<
                _,
                LedgerError,
            >(with_gas(&paid, totals))
    }
}

/// The state with the gas of a block taken into account.
pub open spec fn with_gas<U: LeafExtractor<Utxo>>(
    state: &LedgerState<U>,
    totals: BlockTotals,
) -> LedgerState<U> {
    let average = market::execution_average(
        state.cryptarchia_ledger.average_execution_gas,
        totals.execution_gas,
    );
    LedgerState {
        cryptarchia_ledger: cryptarchia::LedgerState {
            average_execution_gas: average as u64,
            execution_base_fee: market::execution_fee(
                state.cryptarchia_ledger.execution_base_fee,
                average,
            ) as u64,
            storage_gas_consumed_in_epoch: (state.cryptarchia_ledger.storage_gas_consumed_in_epoch
                + totals.storage_gas) as u64,
            ..state.cryptarchia_ledger
        },
        ..*state
    }
}

/// Whether `r` is what comes of the contents of a block.
pub open spec fn is_contents_result<U: LeafExtractor<Utxo>>(
    before: &LedgerState<U>,
    config: &Config,
    txs: Seq<TxRun<U>>,
    r: Result<(LedgerState<U>, Seq<TxEvent>), LedgerError>,
) -> bool {
    exists|run: BlockProgress<U>| #[trigger]
        is_block_run(before, config, txs, run) && match run {
            Err(error) => r == Err::<(LedgerState<U>, Seq<TxEvent>), _>(error),
            Ok((state, totals, events)) => match r {
                Ok((after, reported)) => reported == events && is_block_end(
                    &state,
                    totals,
                    Ok(after),
                ),
                Err(error) => is_block_end(&state, totals, Err(error)),
            },
        }
}

/// What `r` holds, with its events as a sequence.
pub open spec fn contents<U: LeafExtractor<Utxo>>(
    r: Result<(LedgerState<U>, Vec<TxEvent>), LedgerError>,
) -> Result<(LedgerState<U>, Seq<TxEvent>), LedgerError> {
    match r {
        Ok((state, events)) => Ok((state, events@)),
        Err(error) => Err(error),
    }
}

/// Adds a transaction to what a block adds up to, or rejects it: it has to pay for its gas,
/// and the block must not use too much.
pub fn settle_tx(totals: BlockTotals, balance: Balance, gas: TxGas, prices: GasPrices) -> (r: Result<
    BlockTotals,
    LedgerError,
>)
    ensures
        r == settled_tx(totals, balance, gas, prices),
{
    let total_gas_cost: GasCost = match gas.total_gas_cost {
        Some(cost) => cost,
        None => return Err(LedgerError::GasOverflow),
    };
    if balance < total_gas_cost as i128 {
        return Err(LedgerError::InsufficientBalance);
    }
    let (execution_gas, storage_gas_cost): (Gas, GasCost) = match (
        gas.execution_gas,
        gas.storage_gas_cost,
    ) {
        (Some(execution), Some(storage)) => (execution, storage),
        _ => return Err(LedgerError::GasOverflow),
    };
    let price: GasPrice = prices.execution_base_gas_price;
    proof {
        assert(0 <= execution_gas * price <= u64::MAX * u64::MAX) by (nonlinear_arith)
            requires
                0 <= execution_gas <= u64::MAX,
                0 <= price <= u64::MAX,
        ;
    }
    let burned: u128 = execution_gas as u128 * price as u128 + storage_gas_cost as u128;
    let paid: u64 = #[verifier::truncate]
    (balance as u64);
    if burned > paid as u128 {
        return Err(LedgerError::GasOverflow);
    }
    let fee_tip: u64 = paid - burned as u64;
    let storage_gas: Gas = match gas.storage_gas {
        Some(storage) => storage,
        None => return Err(LedgerError::GasOverflow),
    };
    match (
        totals.fee_burned.checked_add(burned as u64),
        totals.fee_tip.checked_add(fee_tip),
        totals.execution_gas.checked_add(execution_gas),
        totals.storage_gas.checked_add(storage_gas),
    ) {
        (Some(fee_burned), Some(fee_tip), Some(execution_gas), Some(storage_gas)) => {
            if execution_gas > EXECUTION_GAS_LIMIT {
                Err(
                    LedgerError::TooMuchExecutionGas {
                        gas: execution_gas,
                        limit: EXECUTION_GAS_LIMIT,
                    },
                )
            } else {
                Ok(BlockTotals { execution_gas, storage_gas, fee_burned, fee_tip })
            }
        },
        _ => Err(LedgerError::GasOverflow),
    }
}

/// A rejected transaction is not undone by what follows.
proof fn lemma_block_failed<U: LeafExtractor<Utxo>>(
    before: &LedgerState<U>,
    config: &Config,
    txs: Seq<TxRun<U>>,
    n: int,
    r: BlockProgress<U>,
)
    requires
        0 <= n <= txs.len(),
        is_block_run(before, config, txs.take(n), r),
        r is Err,
    ensures
        is_block_run(before, config, txs, r),
    decreases txs.len() - n,
{
    if n == txs.len() {
        assert(txs.take(n) =~= txs);
    } else {
        assert(txs.take(n + 1).drop_last() =~= txs.take(n));
        let run: Progress<U> = arbitrary();
        assert(is_next_tx(config, r, &txs.take(n + 1).last(), run, r));
        lemma_block_failed(before, config, txs, n + 1, r);
    }
}

/// The transactions of a block change neither prices nor what is fixed for the epoch, add up to
/// what they add up to one by one, and each of them pays something or nothing.
pub proof fn lemma_block_run<U: LeafExtractor<Utxo>>(
    before: &LedgerState<U>,
    config: &Config,
    txs: Seq<TxRun<U>>,
    after: LedgerState<U>,
    totals: BlockTotals,
    events: Seq<TxEvent>,
)
    requires
        is_block_run(before, config, txs, Ok((after, totals, events))),
    ensures
        after.same_epoch(before),
        settled(before.prices(), txs) == Ok::<_, LedgerError>(totals),
        totals.execution_gas <= EXECUTION_GAS_LIMIT,
        forall|k: int|
            0 <= k < txs.len() ==> 0 <= ops::balance_of((#[trigger] txs[k]).steps@) <= i128::MAX,
    decreases txs.len(),
{
    if txs.len() > 0 {
        let r: BlockProgress<U> = Ok((after, totals, events));
        let (mid, run) = choose|mid: BlockProgress<U>, run: Progress<U>|
            is_block_run(before, config, txs.drop_last(), mid) && #[trigger] is_next_tx(
                config,
                mid,
                &txs.last(),
                run,
                r,
            );
        let (state, mid_totals, mid_events) = mid->Ok_0;
        lemma_block_run(before, config, txs.drop_last(), state, mid_totals, mid_events);
        let (done, balance, more) = run->Ok_0;
        ops::lemma_tx_run(&state, config, txs.last().steps@, done, balance, more);
        assert forall|k: int| 0 <= k < txs.len() implies 0 <= ops::balance_of(
            (#[trigger] txs[k]).steps@,
        ) <= i128::MAX by {
            if k < txs.len() - 1 {
                assert(txs.drop_last()[k] == txs[k]);
            }
        }
    }
}

/// The totals of two blocks with the same gas differ by what the transactions of the second
/// pay more, which is tipped.
pub proof fn lemma_settled_tips<U: LeafExtractor<Utxo>>(
    prices: GasPrices,
    a: Seq<TxRun<U>>,
    b: Seq<TxRun<U>>,
    i: int,
    extra: int,
    totals_a: BlockTotals,
    totals_b: BlockTotals,
)
    requires
        a.len() == b.len(),
        forall|k: int|
            0 <= k < a.len() ==> #[trigger] a[k].gas == b[k].gas && ops::balance_of(b[k].steps@)
                == ops::balance_of(a[k].steps@) + (if k == i {
                extra
            } else {
                0
            }),
        forall|k: int|
            0 <= k < a.len() ==> 0 <= ops::balance_of((#[trigger] a[k]).steps@) <= u64::MAX,
        forall|k: int|
            0 <= k < b.len() ==> 0 <= ops::balance_of((#[trigger] b[k]).steps@) <= u64::MAX,
        settled(prices, a) == Ok::<_, LedgerError>(totals_a),
        settled(prices, b) == Ok::<_, LedgerError>(totals_b),
    ensures
        totals_b == (BlockTotals { fee_tip: totals_b.fee_tip, ..totals_a }),
        totals_b.fee_tip == totals_a.fee_tip + (if 0 <= i < a.len() {
            extra
        } else {
            0
        }),
    decreases a.len(),
{
    if a.len() > 0 {
        let last = a.len() - 1;
        assert(a[last].gas == b[last].gas);
        assert forall|k: int| 0 <= k < last implies a.drop_last()[k] == a[k] && b.drop_last()[k]
            == b[k] by {}
        lemma_settled_tips(
            prices,
            a.drop_last(),
            b.drop_last(),
            i,
            extra,
            settled(prices, a.drop_last())->Ok_0,
            settled(prices, b.drop_last())->Ok_0,
        );
    }
}

impl<U: LeafExtractor<Utxo>> LedgerState<U> {
    /// The prices of gas.
    pub open spec fn prices(&self) -> GasPrices {
        GasPrices {
            execution_base_gas_price: self.cryptarchia_ledger.execution_base_fee,
            storage_gas_price: self.cryptarchia_ledger.storage_gas_price,
        }
    }

    /// The fees of the last blocks when this one has burned `burned`.
    pub open spec fn fee_window_after(&self, burned: GasCost) -> Seq<GasCost> {
        self.cryptarchia_ledger.fee_window@.update((self.block_number % 120) as int, burned)
    }

    /// The prices of gas.
    pub fn get_gas_prices(&self) -> (r: GasPrices)
        ensures
            r == self.prices(),
    {
        GasPrices {
            execution_base_gas_price: *self.cryptarchia_ledger.execution_base_fee(),
            storage_gas_price: *self.cryptarchia_ledger.storage_gas_price(),
        }
    }

    /// Pays for a block: its fees enter the window, and what it earns is shared by its leader,
    /// who gets the tips too, and the providers of the Blend network.
    fn compute_block_rewards(self, total_fee_burned: GasCost, total_fee_tip: GasCost) -> (r: Result<
        Self,
        LedgerError,
    >)
        requires
            self.well_formed(),
            rewards_fit(&self, total_fee_burned, total_fee_tip),
        ensures
            match r {
                Ok(state) => {
                    &&& leader_income(&self, total_fee_burned, total_fee_tip) <= u64::MAX
                    &&& is_rewarded(&self, total_fee_burned, total_fee_tip, &state)
                    &&& state.well_formed()
                },
                Err(error) => {
                    &&& leader_income(&self, total_fee_burned, total_fee_tip) > u64::MAX
                    &&& error == LedgerError::GasOverflow
                },
            },
    {
        let window_index: usize = (self.block_number % 120) as usize;
        let mut state: Self = self;
        state.cryptarchia_ledger.update_fee_window(window_index, total_fee_burned);
        let sum_fees: u128 = state.cryptarchia_ledger.get_summed_fees();
        proof {
            cryptarchia::lemma_sum_of(state.cryptarchia_ledger.fee_window@);
            rewards::lemma_rewards(
                sum_fees as int,
                self.cryptarchia_ledger.epoch_state.total_stake,
                total_fee_burned,
            );
        }
        let fee: GasCost = state.cryptarchia_ledger.get_fee_from_index(window_index);
        let (leader_share, blend_share): (Value, Value) = rewards::block_rewards(
            sum_fees,
            state.cryptarchia_ledger.epoch_state.total_stake,
            fee,
        );
        let leader_reward: Value = match leader_share.checked_add(total_fee_tip) {
            Some(reward) => reward,
            None => return Err(LedgerError::GasOverflow),
        };
        let mut mantle_ledger: mantle::LedgerState<U::Hasher> = state.mantle_ledger;
        mantle_ledger.leaders = mantle_ledger.leaders.add_pending_rewards(leader_reward);
        mantle_ledger.sdp.add_blend_income(blend_share);
        Ok(
            LedgerState {
                block_number: state.block_number,
                cryptarchia_ledger: state.cryptarchia_ledger,
                mantle_ledger,
            },
        )
    }

    /// Takes the execution gas of a block into account.
    fn update_execution_market(self, block_execution_gas_consumed: Gas) -> (r: Self)
        requires
            self.well_formed(),
            block_execution_gas_consumed <= EXECUTION_GAS_LIMIT,
        ensures
            r.well_formed(),
            r == with_gas(
                &self,
                BlockTotals { execution_gas: block_execution_gas_consumed, ..no_totals() },
            ),
    {
        proof {
            let fee = self.cryptarchia_ledger.execution_base_fee as int;
            let average = market::execution_average(
                self.cryptarchia_ledger.average_execution_gas,
                block_execution_gas_consumed,
            );
            assert(fee * (11_177_110 + average) <= u128::MAX) by (nonlinear_arith)
                requires
                    0 <= fee <= u64::MAX,
                    0 <= average <= 3_193_460,
            ;
        }
        LedgerState {
            cryptarchia_ledger: self.cryptarchia_ledger.update_execution_market(
                block_execution_gas_consumed,
            ),
            ..self
        }
    }

    /// Takes the storage gas of a block into account.
    fn add_storage_gas_consumed(self, block_storage_gas_consumed: Gas) -> (r: Result<
        Self,
        LedgerError,
    >)
        requires
            self.well_formed(),
        ensures
            match r {
                Ok(state) => {
                    &&& self.cryptarchia_ledger.storage_gas_consumed_in_epoch
                        + block_storage_gas_consumed <= u64::MAX
                    &&& state.well_formed()
                    &&& state == (LedgerState {
                        cryptarchia_ledger: cryptarchia::LedgerState {
                            storage_gas_consumed_in_epoch: (
                            self.cryptarchia_ledger.storage_gas_consumed_in_epoch
                                + block_storage_gas_consumed) as u64,
                            ..self.cryptarchia_ledger
                        },
                        ..self
                    })
                },
                Err(error) => {
                    &&& self.cryptarchia_ledger.storage_gas_consumed_in_epoch
                        + block_storage_gas_consumed > u64::MAX
                    &&& error == LedgerError::GasOverflow
                },
            },
    {
        match self.cryptarchia_ledger.add_storage_gas_consumed(block_storage_gas_consumed) {
            Ok(cryptarchia_ledger) => Ok(LedgerState { cryptarchia_ledger, ..self }),
            Err(error) => Err(error),
        }
    }

    /// Whether what a block that adds up to `totals` earns, if it can be represented, can be
    /// added to what was earned before.
    pub fn can_reward(&self, totals: BlockTotals) -> (r: bool)
        requires
            self.well_formed(),
        ensures
            r == rewards_fit(self, totals.fee_burned, totals.fee_tip),
    {
        let mut consensus: cryptarchia::LedgerState<U> = self.cryptarchia_ledger.clone();
        consensus.update_fee_window((self.block_number % 120) as usize, totals.fee_burned);
        proof {
            cryptarchia::lemma_sum_of(consensus.fee_window@);
        }
        let (leader_share, blend_share): (Value, Value) = rewards::block_rewards(
            consensus.get_summed_fees(),
            self.cryptarchia_ledger.epoch_state.total_stake,
            totals.fee_burned,
        );
        match leader_share.checked_add(totals.fee_tip) {
            Some(reward) => {
                let fits: bool = self.mantle_ledger.leaders.pending_rewards.checked_add(
                    reward,
                ).is_some();
                match &self.mantle_ledger.sdp.blend_network {
                    Some(service) => fits && service.rewards.epoch_income().checked_add(
                        blend_share,
                    ).is_some(),
                    None => fits,
                }
            },
            None => true,
        }
    }

    /// Pays for a block whose transactions were applied and add up to `totals`, and takes
    /// their gas into account.
    pub fn close_block(self, totals: BlockTotals) -> (r: Result<Self, LedgerError>)
        requires
            self.well_formed(),
            rewards_fit(&self, totals.fee_burned, totals.fee_tip),
            totals.execution_gas <= EXECUTION_GAS_LIMIT,
        ensures
            is_block_end(&self, totals, r),
            r matches Ok(state) ==> state.well_formed(),
    {
        let paid: Self = match self.compute_block_rewards(totals.fee_burned, totals.fee_tip) {
            Ok(state) => state,
            Err(error) => return Err(error),
        };
        assert(is_rewarded(&self, totals.fee_burned, totals.fee_tip, &paid));
        paid.update_execution_market(totals.execution_gas).add_storage_gas_consumed(
            totals.storage_gas,
        )
    }

    /// Applies the transactions of a block, one after the other, and pays for the block. Each
    /// operation comes with what it leads to in the state that those before it have led to.
    pub fn try_apply_contents(self, config: &Config, txs: Vec<TxRun<U>>) -> (r: Result<
        (Self, Vec<TxEvent>),
        LedgerError,
    >)
        requires
            self.well_formed(),
            forall|i: int, j: int|
                0 <= i < txs@.len() && 0 <= j < txs@[i].steps@.len() ==> (
                #[trigger] txs@[i].steps@[j]).well_formed(),
            settled(self.prices(), txs@) matches Ok(totals) ==> rewards_fit(
                &self,
                totals.fee_burned,
                totals.fee_tip,
            ),
        ensures
            is_contents_result(&self, config, txs@, contents(r)),
            r matches Ok((state, _)) ==> state.well_formed(),
    {
        let ghost all = txs@;
        let ghost before = self;
        let mut state: Self = self;
        let mut totals: BlockTotals = BlockTotals {
            execution_gas: 0,
            storage_gas: 0,
            fee_burned: 0,
            fee_tip: 0,
        };
        let mut tx_events: Vec<TxEvent> = Vec::new();
        assert(all.take(0) =~= Seq::empty());
        for tx in it: txs
            invariant
                it.seq() == all,
                all == txs@,
                before == self,
                forall|i: int, j: int|
                    0 <= i < all.len() && 0 <= j < all[i].steps@.len() ==> (
                    #[trigger] all[i].steps@[j]).well_formed(),
                state.well_formed(),
                is_block_run(
                    &before,
                    config,
                    all.take(it.index() as int),
                    Ok((state, totals, tx_events@)),
                ),
        {
            let ghost i = it.index() as int;
            let ghost mid: BlockProgress<U> = Ok((state, totals, tx_events@));
            proof {
                assert(all[i] == tx);
                assert(all.take(i + 1).drop_last() =~= all.take(i));
                assert(all.take(i + 1).last() == tx);
                assert forall|j: int| 0 <= j < tx.steps@.len() implies (
                #[trigger] tx.steps@[j]).well_formed() by {
                    assert(all[i].steps@[j].well_formed());
                }
            }
            let gas: TxGas = tx.gas;
            let result: Result<(Self, Balance, Vec<TxEvent>), LedgerError> = state.try_apply_tx(
                config,
                tx.steps,
            );
            let ghost run = ops::progress(result);
            match result {
                Ok((new_state, balance, events)) => {
                    match settle_tx(totals, balance, gas, new_state.get_gas_prices()) {
                        Ok(new_totals) => {
                            let mut more: Vec<TxEvent> = events;
                            tx_events.append(&mut more);
                            state = new_state;
                            totals = new_totals;
                            assert(is_next_tx(
                                config,
                                mid,
                                &all.take(i + 1).last(),
                                run,
                                Ok((state, totals, tx_events@)),
                            ));
                        },
                        Err(failure) => {
                            proof {
                                let r: BlockProgress<U> = Err(failure);
                                assert(is_next_tx(config, mid, &all.take(i + 1).last(), run, r));
                                lemma_block_failed(&before, config, all, i + 1, r);
                            }
                            return Err(failure);
                        },
                    }
                },
                Err(failure) => {
                    proof {
                        let r: BlockProgress<U> = Err(failure);
                        assert(is_next_tx(config, mid, &all.take(i + 1).last(), run, r));
                        lemma_block_failed(&before, config, all, i + 1, r);
                    }
                    return Err(failure);
                },
            }
        }
        let ghost run: BlockProgress<U> = Ok((state, totals, tx_events@));
        proof {
            assert(all.take(all.len() as int) =~= all);
            assert(is_block_run(&before, config, all, run));
            lemma_block_run(&before, config, all, state, totals, tx_events@);
        }
        match state.close_block(totals) {
            Ok(state) => Ok((state, tx_events)),
            Err(error) => Err(error),
        }
    }
}

} // verus!
