//! The state that consensus works on.
pub mod density;
pub mod epoch;
pub mod laws;
pub mod market;

use vstd::prelude::*;

use crate::bytes::same_bytes;
use crate::collections::trie_map::TrieMap;
use crate::config::{Config, EpochConfig};
use crate::cryptarchia::density::BlockDensity;
use crate::cryptarchia::epoch::{Declarations, EpochState, UtxoTree};
use crate::error::LedgerError;
use crate::leader_proof::{LeaderProof, LeaderPublic};
use crate::mantle;
use crate::mantle::sdp;
use crate::mantle::sdp::SdpLedger;
use crate::merkle::tree::{LeafExtractor, MerkleTree};
use crate::types::{
    Balance, Epoch, Fr, Gas, GasCost, GasPrice, NoteId, OpFailure, Slot, TxEvent, Utxo, Value,
    ZkPublicKey,
};

verus! {

/// The number of blocks whose fees are remembered.
pub const WINDOW_SIZE: usize = 120;

/// The prices of gas.
#[derive(Clone, Copy, Debug, PartialEq, Eq, Structural)]
pub struct GasPrices {
    pub execution_base_gas_price: GasPrice,
    pub storage_gas_price: GasPrice,
}

/// What has to be inferred about the stake when an epoch starts: the stake that takes part
/// is inferred from `total_stake` and the number of blocks, and then for each empty epoch
/// from the stake so far and no blocks.
#[derive(Clone, Copy, Debug, PartialEq, Eq, Structural)]
pub struct StakePlan {
    pub total_stake: Value,
    pub block_density: u64,
    pub empty_epochs: u32,
}

impl StakePlan {
    /// What is left to be inferred when `total_stake` was inferred by this plan.
    pub open spec fn following(self, total_stake: Value) -> Option<StakePlan> {
        if self.empty_epochs == 0 {
            None
        } else {
            Some(
                StakePlan {
                    total_stake,
                    block_density: 0,
                    empty_epochs: (self.empty_epochs - 1) as u32,
                },
            )
        }
    }

    /// What is left to be inferred when `total_stake` was inferred from the stake and the
    /// blocks of this plan: each empty epoch starts from the stake so far, and has no blocks.
    pub fn after(self, total_stake: Value) -> (r: Option<StakePlan>)
        ensures
            r == self.following(total_stake),
    {
        if self.empty_epochs == 0 {
            None
        } else {
            Some(StakePlan { total_stake, block_density: 0, empty_epochs: self.empty_epochs - 1 })
        }
    }
}

/// What was inferred about the stake.
#[derive(Clone, Copy, Debug, PartialEq, Eq)]
pub struct StakeOutcome {
    /// The stake that is estimated to take part.
    pub total_stake: Value,
    /// The first value of the lottery for that stake.
    pub lottery_0: Fr,
    /// The second value of the lottery for that stake.
    pub lottery_1: Fr,
}

/// What a transfer leads to.
#[verifier::reject_recursive_types(U)]
pub struct TransferExecution<U: LeafExtractor<Utxo>> {
    pub utxos: UtxoTree<U>,
    /// What the inputs are worth more than the outputs.
    pub balance: Balance,
    pub events: Vec<TxEvent>,
}

/// The outputs that are not spent, and what consensus needs to know.
#[verifier::reject_recursive_types(U)]
pub struct LedgerState<U: LeafExtractor<Utxo>> {
    /// The outputs that are not spent.
    pub utxos: UtxoTree<U>,
    /// The randomness that leaders have contributed.
    pub nonce: Fr,
    /// The slot of the last block.
    pub slot: Slot,
    /// What will be fixed for the next epoch, as far as it is known.
    pub next_epoch_state: EpochState<U>,
    /// What is fixed for the current epoch.
    pub epoch_state: EpochState<U>,
    /// The number of blocks of the current epoch.
    pub block_density: BlockDensity,
    /// The fees that were burned in each of the last blocks.
    pub fee_window: [GasCost; 120],
    /// The smoothed use of execution gas.
    pub average_execution_gas: Gas,
    /// The price of execution gas.
    pub execution_base_fee: GasPrice,
    /// The smoothed use of storage gas.
    pub storage_gas_ema: Gas,
    /// The price of storage gas.
    pub storage_gas_price: GasPrice,
    /// The storage gas that was used in the current epoch.
    pub storage_gas_consumed_in_epoch: Gas,
}

/// The price and the smoothed use of storage gas after `epochs` epochs without any use.
pub open spec fn idle_storage(price: GasPrice, ema: Gas, epochs: nat) -> (GasPrice, Gas)
    decreases epochs,
{
    if epochs == 0 {
        (price, ema)
    } else {
        let (before, before_ema) = idle_storage(price, ema, (epochs - 1) as nat);
        let after_ema = market::storage_average(before_ema, 0);
        (market::storage_price(before, 0, after_ema) as u64, after_ema as u64)
    }
}

/// The price and the smoothed use of storage gas after an epoch that used `gas`, and
/// `empty_epochs` epochs without any use.
pub open spec fn storage_after(
    price: GasPrice,
    gas: Gas,
    ema: Gas,
    empty_epochs: nat,
) -> (GasPrice, Gas) {
    let after_ema = market::storage_average(ema, gas);
    idle_storage(
        market::storage_price(price, gas, after_ema) as u64,
        after_ema as u64,
        empty_epochs,
    )
}

/// Whether `state` is fixed by `stake`.
pub open spec fn has_stake<U: LeafExtractor<Utxo>>(
    state: &EpochState<U>,
    stake: StakeOutcome,
) -> bool {
    &&& state.total_stake == stake.total_stake
    &&& state.lottery_0 == stake.lottery_0
    &&& state.lottery_1 == stake.lottery_1
}

/// Whether `after` is `before`, but for what the ledger has changed since: the nonce, until
/// it is taken, and the stake distribution and the declarations, until they are taken.
pub open spec fn is_refreshed<U: LeafExtractor<Utxo>>(
    before: &EpochState<U>,
    ledger: &LedgerState<U>,
    sdp: &SdpLedger,
    config: &Config,
    after: &EpochState<U>,
) -> bool {
    &&& after.epoch == before.epoch
    &&& after.nonce == (if ledger.slot < config.epoch_config.nonce_snapshot_slot(
        before.epoch as int,
    ) {
        ledger.nonce
    } else {
        before.nonce
    })
    &&& if ledger.slot < config.epoch_config.stake_snapshot_slot(before.epoch as int) {
        &&& after.utxos == ledger.utxos
        &&& sdp::is_active_set(
            sdp,
            before.epoch,
            &config.sdp_config.service_params,
            &after.active_declarations,
        )
    } else {
        &&& after.utxos == before.utxos
        &&& after.active_declarations == before.active_declarations
    }
}

/// Whether `state` is taken for `epoch` from the ledger as it is.
pub open spec fn is_snapshot<U: LeafExtractor<Utxo>>(
    ledger: &LedgerState<U>,
    sdp: &SdpLedger,
    config: &Config,
    epoch: int,
    stake: StakeOutcome,
    state: &EpochState<U>,
) -> bool {
    &&& state.epoch == epoch
    &&& state.nonce == ledger.nonce
    &&& state.utxos == ledger.utxos
    &&& sdp::is_active_set(
        sdp,
        epoch as u32,
        &config.sdp_config.service_params,
        &state.active_declarations,
    )
    &&& has_stake(state, stake)
}

/// The number of epochs between that of `from` and that of `to`.
pub open spec fn epochs_between(config: &EpochConfig, from: Slot, to: Slot) -> int {
    config.epoch_of(to) - config.epoch_of(from) - 1
}

/// Whether `after` is the state `before` when the ledger has moved on to `slot`.
///
/// Within an epoch, what is known of the next epoch is brought up to date. In the next
/// epoch, that becomes the current one, and the state of the ledger is taken for the epoch
/// after it. If epochs were skipped, the state of the ledger is taken for both.
pub open spec fn is_epoch_step<U: LeafExtractor<Utxo>>(
    before: &LedgerState<U>,
    slot: Slot,
    sdp: &SdpLedger,
    config: &Config,
    stake: StakeOutcome,
    after: &LedgerState<U>,
) -> bool {
    let epoch = config.epoch_config.epoch_of(slot);
    let skipped = epochs_between(&config.epoch_config, before.slot, slot);
    &&& after.slot == slot
    &&& after.utxos == before.utxos
    &&& after.nonce == before.nonce
    &&& after.fee_window == before.fee_window
    &&& after.average_execution_gas == before.average_execution_gas
    &&& after.execution_base_fee == before.execution_base_fee
    &&& if epoch == config.epoch_config.epoch_of(before.slot) {
        &&& is_refreshed(&before.next_epoch_state, before, sdp, config, &after.next_epoch_state)
        &&& after.next_epoch_state.total_stake == before.next_epoch_state.total_stake
        &&& after.next_epoch_state.lottery_0 == before.next_epoch_state.lottery_0
        &&& after.next_epoch_state.lottery_1 == before.next_epoch_state.lottery_1
        &&& after.epoch_state == before.epoch_state
        &&& after.block_density == before.block_density
        &&& after.storage_gas_ema == before.storage_gas_ema
        &&& after.storage_gas_price == before.storage_gas_price
        &&& after.storage_gas_consumed_in_epoch == before.storage_gas_consumed_in_epoch
    } else {
        &&& if skipped == 0 {
            &&& is_refreshed(&before.next_epoch_state, before, sdp, config, &after.epoch_state)
            &&& has_stake(&after.epoch_state, stake)
        } else {
            is_snapshot(before, sdp, config, epoch, stake, &after.epoch_state)
        }
        &&& is_snapshot(before, sdp, config, epoch + 1, stake, &after.next_epoch_state)
        &&& after.block_density == BlockDensity::at_start(epoch, &config.epoch_config)
        &&& (after.storage_gas_price, after.storage_gas_ema) == storage_after(
            before.storage_gas_price,
            before.storage_gas_consumed_in_epoch,
            before.storage_gas_ema,
            skipped as nat,
        )
        &&& after.storage_gas_consumed_in_epoch == 0
    }
}

/// What a proof of leadership for `slot` is verified against.
pub open spec fn leader_public<U: LeafExtractor<Utxo>>(
    state: &LedgerState<U>,
    slot: Slot,
) -> LeaderPublic {
    LeaderPublic {
        aged_root: state.epoch_state.utxos.root_of(),
        latest_root: state.utxos.root_of(),
        epoch_nonce: state.epoch_state.nonce,
        slot,
        lottery_0: state.epoch_state.lottery_0,
        lottery_1: state.epoch_state.lottery_1,
    }
}

/// Whether `r` is what comes of applying the header of a block to `before`.
pub open spec fn is_header_result<U: LeafExtractor<Utxo>, P: LeaderProof>(
    before: &LedgerState<U>,
    slot: Slot,
    proof: &P,
    sdp: &SdpLedger,
    config: &Config,
    stake: StakeOutcome,
    nonce: Fr,
    r: Result<LedgerState<U>, LedgerError>,
) -> bool {
    if slot <= before.slot {
        r == Err::<LedgerState<U>, _>(
            LedgerError::InvalidSlot { parent: before.slot, block: slot },
        )
    } else {
        exists|state: LedgerState<U>| #[trigger]
            is_epoch_step(before, slot, sdp, config, stake, &state) && r == (if proof.accepts(
                leader_public(&state, slot),
            ) {
                Ok::<_, LedgerError>(
                    LedgerState {
                        nonce,
                        block_density: state.block_density.with_block(slot),
                        ..state
                    },
                )
            } else {
                Err(LedgerError::InvalidProof)
            })
    }
}

/// The sum of `fees`.
pub open spec fn sum_of(fees: Seq<GasCost>) -> int
    decreases fees.len(),
{
    if fees.len() == 0 {
        0
    } else {
        sum_of(fees.drop_last()) + fees.last()
    }
}

/// The sum of fees is bounded by their number.
pub proof fn lemma_sum_of(fees: Seq<GasCost>)
    ensures
        0 <= sum_of(fees) <= fees.len() * u64::MAX,
    decreases fees.len(),
{
    if fees.len() > 0 {
        lemma_sum_of(fees.drop_last());
        assert((fees.len() - 1) * u64::MAX + u64::MAX == fees.len() * u64::MAX)
            by (nonlinear_arith);
    }
}

/// What an output counts as stake at genesis. The notes of the faucet do not.
pub open spec fn stake_value(utxo: Utxo, faucet_pk: Option<ZkPublicKey>) -> int {
    if faucet_pk == Some(utxo.note.pk) {
        0
    } else {
        utxo.note.value as int
    }
}

/// What the outputs under `ids` count as stake at genesis.
pub open spec fn stake_sum(
    utxos: Map<NoteId, Utxo>,
    faucet_pk: Option<ZkPublicKey>,
    ids: Set<NoteId>,
) -> int {
    ids.fold(0int, |sum: int, id: NoteId| sum + stake_value(utxos[id], faucet_pk))
}

/// One more output adds what it counts.
pub proof fn lemma_stake_insert(
    utxos: Map<NoteId, Utxo>,
    faucet_pk: Option<ZkPublicKey>,
    ids: Set<NoteId>,
    id: NoteId,
)
    requires
        ids.finite(),
        !ids.contains(id),
    ensures
        stake_sum(utxos, faucet_pk, ids.insert(id)) == stake_sum(utxos, faucet_pk, ids)
            + stake_value(utxos[id], faucet_pk),
{
    let f = |sum: int, id: NoteId| sum + stake_value(utxos[id], faucet_pk);
    vstd::set::fold::lemma_fold_insert(ids, 0int, f, id);
}

/// The outputs of the genesis block by their identifiers. Of outputs with the same one the
/// last one counts.
pub open spec fn genesis_utxos(outputs: Seq<Utxo>) -> Map<NoteId, Utxo>
    decreases outputs.len(),
{
    if outputs.len() == 0 {
        Map::empty()
    } else {
        genesis_utxos(outputs.drop_last()).insert(outputs.last().id, outputs.last())
    }
}

/// What the outputs of the genesis block are worth, those of the faucet aside.
pub open spec fn value_of(outputs: Seq<Utxo>, faucet_pk: Option<ZkPublicKey>) -> int {
    let utxos = genesis_utxos(outputs);
    stake_sum(utxos, faucet_pk, utxos.dom())
}

/// What the outputs of the genesis block count as stake: one at least.
pub open spec fn genesis_stake_of(outputs: Seq<Utxo>, faucet_pk: Option<ZkPublicKey>) -> int {
    if value_of(outputs, faucet_pk) < 1 {
        1
    } else {
        value_of(outputs, faucet_pk)
    }
}

/// Whether `tree` holds the outputs of the genesis block in their order.
pub open spec fn is_genesis_tree<U: LeafExtractor<Utxo>>(
    outputs: Seq<Utxo>,
    tree: &UtxoTree<U>,
) -> bool {
    &&& tree.well_formed()
    &&& tree.filled() == outputs.len()
    &&& forall|i: int|
        0 <= i < UtxoTree::<U>::capacity() ==> #[trigger] tree.slots()[i] == (if i
            < outputs.len() {
            Some(U::leaf_of(outputs[i].id, outputs[i]))
        } else {
            None
        })
    &&& forall|i: int|
        0 <= i < outputs.len() ==> tree.entries().dom().contains((#[trigger] outputs[i]).id)
            && tree.entries()[outputs[i].id].1 >= i
    &&& forall|id: NoteId| #[trigger]
        tree.entries().dom().contains(id) ==> {
            let (utxo, position) = tree.entries()[id];
            &&& position < outputs.len()
            &&& outputs[position as int] == utxo
            &&& utxo.id == id
        }
}

/// Whether `state` is the state at genesis.
pub open spec fn is_genesis<U: LeafExtractor<Utxo>>(
    outputs: Seq<Utxo>,
    config: &Config,
    nonce: Fr,
    lottery: (Fr, Fr),
    prices: GasPrices,
    state: &LedgerState<U>,
) -> bool {
    let stake = StakeOutcome {
        total_stake: genesis_stake_of(outputs, config.faucet_pk) as u64,
        lottery_0: lottery.0,
        lottery_1: lottery.1,
    };
    &&& is_genesis_tree(outputs, &state.utxos)
    &&& state.nonce == nonce
    &&& state.slot == 0
    &&& state.epoch_state.epoch == 0
    &&& state.next_epoch_state.epoch == 1
    &&& state.epoch_state.nonce == nonce
    &&& state.next_epoch_state.nonce == nonce
    &&& state.epoch_state.utxos == state.utxos
    &&& state.next_epoch_state.utxos == state.utxos
    &&& has_stake(&state.epoch_state, stake)
    &&& has_stake(&state.next_epoch_state, stake)
    &&& state.epoch_state.active_declarations.blend_network is None
    &&& state.next_epoch_state.active_declarations.blend_network is None
    &&& state.block_density == BlockDensity::at_start(0, &config.epoch_config)
    &&& state.fee_window@ == Seq::new(120, |i: int| 0u64)
    &&& state.average_execution_gas == 0
    &&& state.execution_base_fee == prices.execution_base_gas_price
    &&& state.storage_gas_ema == 0
    &&& state.storage_gas_price == prices.storage_gas_price
    &&& state.storage_gas_consumed_in_epoch == 0
}

/// Makes the tree of the outputs of the genesis block.
pub fn genesis_tree<U: LeafExtractor<Utxo>>(outputs: &Vec<Utxo>) -> (r: UtxoTree<U>)
    requires
        outputs@.len() <= UtxoTree::<U>::capacity(),
    ensures
        is_genesis_tree(outputs@, &r),
{
    let mut pairs: Vec<(NoteId, Utxo)> = Vec::new();
    let mut i: usize = 0;
    while i < outputs.len()
        invariant
            0 <= i <= outputs@.len(),
            pairs@.len() == i,
            forall|j: int| 0 <= j < i ==> #[trigger] pairs@[j] == (outputs@[j].id, outputs@[j]),
        decreases outputs@.len() - i,
    {
        pairs.push((outputs[i].id, outputs[i]));
        i += 1;
    }
    let ghost all = pairs@;
    let tree: UtxoTree<U> = MerkleTree::from_items(pairs);
    proof {
        assert forall|i: int| 0 <= i < outputs@.len() implies tree.entries().dom().contains(
            (#[trigger] outputs@[i]).id,
        ) && tree.entries()[outputs@[i].id].1 >= i by {
            assert(all[i].0 == outputs@[i].id);
        }
        assert forall|i: int| 0 <= i < UtxoTree::<U>::capacity() implies #[trigger] tree.slots()[i]
            == (if i < outputs@.len() {
            Some(U::leaf_of(outputs@[i].id, outputs@[i]))
        } else {
            None
        }) by {
            if i < outputs@.len() {
                assert(all[i] == (outputs@[i].id, outputs@[i]));
            }
        }
    }
    tree
}

/// Collects the outputs of the genesis block by their identifiers.
fn collect_utxos(outputs: &Vec<Utxo>) -> (r: TrieMap<Utxo>)
    ensures
        r@ == genesis_utxos(outputs@),
{
    let mut utxos: TrieMap<Utxo> = TrieMap::new();
    let mut i: usize = 0;
    assert(outputs@.take(0) =~= Seq::empty());
    while i < outputs.len()
        invariant
            0 <= i <= outputs@.len(),
            utxos@ == genesis_utxos(outputs@.take(i as int)),
        decreases outputs@.len() - i,
    {
        assert(outputs@.take(i + 1).drop_last() =~= outputs@.take(i as int));
        utxos.insert_mut(outputs[i].id, outputs[i]);
        i += 1;
    }
    assert(outputs@.take(i as int) =~= outputs@);
    utxos
}

/// What the outputs of the genesis block are worth, those of the faucet aside.
pub fn genesis_value(outputs: &Vec<Utxo>, faucet_pk: Option<ZkPublicKey>) -> (r: u128)
    ensures
        r == value_of(outputs@, faucet_pk),
{
    let utxos: TrieMap<Utxo> = collect_utxos(outputs);
    let ids: Vec<NoteId> = utxos.keys();
    let mut sum: u128 = 0;
    let mut i: usize = 0;
    proof {
        assert(ids@.take(0).to_set() =~= Set::empty());
        let f = |sum: int, id: NoteId| sum + stake_value(utxos@[id], faucet_pk);
        vstd::set::fold::lemma_fold_empty::<NoteId, int>(0int, f);
    }
    while i < ids.len()
        invariant
            0 <= i <= ids@.len(),
            ids@.no_duplicates(),
            ids@.to_set() == utxos@.dom(),
            sum == stake_sum(utxos@, faucet_pk, ids@.take(i as int).to_set()),
            sum <= i * u64::MAX,
        decreases ids@.len() - i,
    {
        let id: NoteId = ids[i];
        proof {
            let done = ids@.take(i as int);
            assert(ids@.to_set().contains(ids@[i as int]));
            assert(ids@.take(i + 1) =~= done.push(id));
            lemma_push_to_set(done, id);
            if done.contains(id) {
                let k = choose|k: int| 0 <= k < done.len() && done[k] == id;
                assert(ids@[k] == ids@[i as int]);
            }
            vstd::seq_lib::seq_to_set_is_finite(done);
            lemma_stake_insert(utxos@, faucet_pk, done.to_set(), id);
            assert(i * u64::MAX + u64::MAX == (i + 1) * u64::MAX) by (nonlinear_arith);
            assert(i * u64::MAX <= u64::MAX * u64::MAX) by (nonlinear_arith)
                requires
                    i <= u64::MAX,
            ;
        }
        if let Some(utxo) = utxos.get(&id) {
            let is_faucet: bool = match faucet_pk {
                Some(pk) => same_bytes(&pk, &utxo.note.pk),
                None => false,
            };
            if !is_faucet {
                sum = sum + utxo.note.value as u128;
            }
        }
        i += 1;
    }
    assert(ids@.take(i as int) =~= ids@);
    sum
}

/// What the outputs of the genesis block are worth, those of the faucet aside.
pub fn total_value(outputs: &Vec<Utxo>, faucet_pk: Option<ZkPublicKey>) -> (r: Value)
    requires
        value_of(outputs@, faucet_pk) <= u64::MAX,
    ensures
        r == value_of(outputs@, faucet_pk),
{
    genesis_value(outputs, faucet_pk) as u64
}

/// What the outputs of the genesis block count as stake.
pub fn genesis_stake(outputs: &Vec<Utxo>, faucet_pk: Option<ZkPublicKey>) -> (r: Value)
    requires
        genesis_stake_of(outputs@, faucet_pk) <= u64::MAX,
    ensures
        r == genesis_stake_of(outputs@, faucet_pk),
{
    let value: Value = total_value(outputs, faucet_pk);
    if value < 1 {
        1
    } else {
        value
    }
}

proof fn lemma_push_to_set(ids: Seq<NoteId>, id: NoteId)
    ensures
        ids.push(id).to_set() == ids.to_set().insert(id),
{
    assert forall|other: NoteId| ids.push(id).to_set().contains(other) == ids.to_set().insert(
        id,
    ).contains(other) by {
        if ids.contains(other) {
            let k = choose|k: int| 0 <= k < ids.len() && ids[k] == other;
            assert(ids.push(id)[k] == other);
        }
        assert(ids.push(id)[ids.len() as int] == id);
    }
    assert(ids.push(id).to_set() =~= ids.to_set().insert(id));
}

impl<U: LeafExtractor<Utxo>> EpochState<U> {
    /// Brings the state of an epoch that has not started up to date with the ledger.
    fn update_from_ledger(
        self,
        ledger: &LedgerState<U>,
        sdp: &SdpLedger,
        config: &Config,
    ) -> (r: Self)
        requires
            config.epoch_config.well_formed(),
            self.epoch >= 1,
            config.epoch_config.start_of(self.epoch as int) <= u64::MAX,
        ensures
            is_refreshed(&self, ledger, sdp, config, &r),
            r.total_stake == self.total_stake,
            r.lottery_0 == self.lottery_0,
            r.lottery_1 == self.lottery_1,
    {
        let nonce_snapshot_slot: Slot = config.epoch_config.nonce_snapshot(self.epoch);
        let nonce: Fr = if ledger.slot < nonce_snapshot_slot {
            ledger.nonce
        } else {
            self.nonce
        };
        let stake_snapshot_slot: Slot = config.epoch_config.stake_distribution_snapshot(self.epoch);
        let (utxos, active_declarations): (UtxoTree<U>, Declarations) = if ledger.slot
            < stake_snapshot_slot {
            (
                ledger.utxos.clone(),
                sdp.active_declarations(self.epoch, &config.sdp_config.service_params),
            )
        } else {
            (self.utxos, self.active_declarations)
        };
        EpochState {
            epoch: self.epoch,
            nonce,
            utxos,
            total_stake: self.total_stake,
            lottery_0: self.lottery_0,
            lottery_1: self.lottery_1,
            active_declarations,
        }
    }
}

impl<U: LeafExtractor<Utxo>> LedgerState<U> {
    /// Whether the trees are well formed.
    pub open spec fn well_formed(&self) -> bool {
        &&& self.utxos.well_formed()
        &&& self.epoch_state.utxos.well_formed()
        &&& self.next_epoch_state.utxos.well_formed()
    }

    /// Whether the epochs are those that the slot of the last block is in, and that follows
    /// it, and no more blocks were counted than there were slots.
    pub open spec fn on_schedule(&self, config: &EpochConfig) -> bool {
        &&& self.epoch_state.epoch == config.epoch_of(self.slot)
        &&& self.next_epoch_state.epoch == self.epoch_state.epoch + 1
        &&& self.block_density.first == config.start_of(self.epoch_state.epoch as int)
        &&& self.block_density.last == self.block_density.first + config.inference_period() - 1
        &&& self.block_density.count <= self.slot - self.block_density.first + 1
    }

    /// What has to be inferred about the stake when the ledger moves on to `slot`.
    pub open spec fn plan_for(&self, slot: Slot, config: &EpochConfig) -> Option<StakePlan> {
        if config.epoch_of(slot) == config.epoch_of(self.slot) {
            None
        } else {
            Some(
                StakePlan {
                    total_stake: self.epoch_state.total_stake,
                    block_density: self.block_density.count,
                    empty_epochs: epochs_between(config, self.slot, slot) as u32,
                },
            )
        }
    }

    /// What has to be inferred about the stake when the ledger moves on to `slot`, unless
    /// that is in the same epoch.
    pub fn stake_plan(&self, slot: Slot, config: &Config) -> (r: Option<StakePlan>)
        requires
            config.epoch_config.well_formed(),
            self.slot < slot,
            config.epoch_config.epoch_of(slot) <= u32::MAX,
        ensures
            r == self.plan_for(slot, &config.epoch_config),
    {
        proof {
            lemma_epochs_ordered(&config.epoch_config, self.slot, slot);
        }
        let current_epoch: Epoch = config.epoch_config.epoch(self.slot);
        let new_epoch: Epoch = config.epoch_config.epoch(slot);
        if current_epoch == new_epoch {
            None
        } else {
            Some(
                StakePlan {
                    total_stake: self.epoch_state.total_stake,
                    block_density: self.block_density.current_block_density(),
                    empty_epochs: new_epoch - current_epoch - 1,
                },
            )
        }
    }

    /// Takes the state of the ledger for `epoch`.
    fn snapshot(
        &self,
        epoch: Epoch,
        sdp: &SdpLedger,
        config: &Config,
        stake: StakeOutcome,
    ) -> (r: EpochState<U>)
        ensures
            is_snapshot(self, sdp, config, epoch as int, stake, &r),
    {
        EpochState {
            epoch,
            nonce: self.nonce,
            utxos: self.utxos.clone(),
            total_stake: stake.total_stake,
            lottery_0: stake.lottery_0,
            lottery_1: stake.lottery_1,
            active_declarations: sdp.active_declarations(
                epoch,
                &config.sdp_config.service_params,
            ),
        }
    }

    /// Moves on to `slot`. What was inferred about the stake is `stake`, which matters only
    /// where an epoch starts.
    pub fn update_epoch_state(
        self,
        slot: Slot,
        sdp: &SdpLedger,
        config: &Config,
        stake: StakeOutcome,
    ) -> (r: Result<Self, LedgerError>)
        requires
            config.epoch_config.well_formed(),
            config.epoch_config.reaches(config.epoch_config.epoch_of(slot) + 1),
            self.well_formed(),
            self.on_schedule(&config.epoch_config),
        ensures
            slot <= self.slot ==> r == Err::<Self, _>(
                LedgerError::InvalidSlot { parent: self.slot, block: slot },
            ),
            slot > self.slot ==> r is Ok,
            r matches Ok(state) ==> {
                &&& is_epoch_step(&self, slot, sdp, config, stake, &state)
                &&& state.well_formed()
                &&& state.on_schedule(&config.epoch_config)
                &&& state.block_density.count <= slot - state.block_density.first
            },
    {
        if slot <= self.slot {
            return Err(LedgerError::InvalidSlot { parent: self.slot, block: slot });
        }
        proof {
            lemma_epochs_ordered(&config.epoch_config, self.slot, slot);
            config.epoch_config.lemma_epoch_of(slot);
            config.epoch_config.lemma_epoch_of(self.slot);
            config.epoch_config.lemma_periods();
            config.epoch_config.lemma_start_monotonic(
                self.next_epoch_state.epoch as int,
                config.epoch_config.epoch_of(slot) + 1,
            );
            config.epoch_config.lemma_start_monotonic(
                config.epoch_config.epoch_of(slot) + 1,
                config.epoch_config.epoch_of(slot) + 2,
            );
            lemma_next_start(&config.epoch_config, config.epoch_config.epoch_of(slot));
        }
        let current_epoch: Epoch = config.epoch_config.epoch(self.slot);
        let new_epoch: Epoch = config.epoch_config.epoch(slot);
        let next_epoch_state: EpochState<U> = self.next_epoch_state.clone().update_from_ledger(
            &self,
            sdp,
            config,
        );
        if current_epoch == new_epoch {
            Ok(LedgerState { slot, next_epoch_state, ..self })
        } else {
            let skipped: u32 = new_epoch - current_epoch - 1;
            let epoch_state: EpochState<U> = if skipped == 0 {
                EpochState {
                    total_stake: stake.total_stake,
                    lottery_0: stake.lottery_0,
                    lottery_1: stake.lottery_1,
                    ..next_epoch_state
                }
            } else {
                self.snapshot(new_epoch, sdp, config, stake)
            };
            let following: EpochState<U> = self.snapshot(new_epoch + 1, sdp, config, stake);
            let (storage_gas_price, storage_gas_ema): (GasPrice, Gas) = self.storage_market_after(
                skipped,
            );
            let block_density: BlockDensity = BlockDensity::new(new_epoch, &config.epoch_config);
            Ok(
                LedgerState {
                    slot,
                    next_epoch_state: following,
                    epoch_state,
                    block_density,
                    storage_gas_consumed_in_epoch: 0,
                    storage_gas_ema,
                    storage_gas_price,
                    ..self
                },
            )
        }
    }

    /// The price and the smoothed use of storage gas when the current epoch is over, and as
    /// many epochs without use are over too.
    fn storage_market_after(&self, empty_epochs: u32) -> (r: (GasPrice, Gas))
        ensures
            r == storage_after(
                self.storage_gas_price,
                self.storage_gas_consumed_in_epoch,
                self.storage_gas_ema,
                empty_epochs as nat,
            ),
    {
        let (first_price, first_ema): (GasPrice, Gas) = market::update_storage_market(
            self.storage_gas_price,
            self.storage_gas_consumed_in_epoch,
            self.storage_gas_ema,
        );
        let mut price: GasPrice = first_price;
        let mut ema: Gas = first_ema;
        let mut i: u32 = 0;
        while i < empty_epochs
            invariant
                0 <= i <= empty_epochs,
                (price, ema) == idle_storage(first_price, first_ema, i as nat),
            decreases empty_epochs - i,
        {
            let (new_price, new_ema): (GasPrice, Gas) = market::update_storage_market(
                price,
                0,
                ema,
            );
            price = new_price;
            ema = new_ema;
            i += 1;
        }
        (price, ema)
    }

    /// Moves the price of execution gas after a block that used this much.
    pub fn update_execution_market(self, block_execution_gas_consumed: Gas) -> (r: Self)
        requires
            self.execution_base_fee * (11_177_110 + market::execution_average(
                self.average_execution_gas,
                block_execution_gas_consumed,
            )) <= u128::MAX,
        ensures
            r == (LedgerState {
                average_execution_gas: market::execution_average(
                    self.average_execution_gas,
                    block_execution_gas_consumed,
                ) as u64,
                execution_base_fee: market::execution_fee(
                    self.execution_base_fee,
                    market::execution_average(
                        self.average_execution_gas,
                        block_execution_gas_consumed,
                    ),
                ) as u64,
                ..self
            }),
    {
        let (average_execution_gas, execution_base_fee): (Gas, GasPrice) =
            market::update_execution_prices(
            self.average_execution_gas,
            self.execution_base_fee,
            block_execution_gas_consumed,
        );
        LedgerState { average_execution_gas, execution_base_fee, ..self }
    }

    /// Adds to the storage gas that was used in the current epoch.
    pub fn add_storage_gas_consumed(self, storage_gas: Gas) -> (r: Result<Self, LedgerError>)
        ensures
            r == (if self.storage_gas_consumed_in_epoch + storage_gas <= u64::MAX {
                Ok(
                    LedgerState {
                        storage_gas_consumed_in_epoch: (self.storage_gas_consumed_in_epoch
                            + storage_gas) as u64,
                        ..self
                    },
                )
            } else {
                Err(LedgerError::GasOverflow)
            }),
    {
        match self.storage_gas_consumed_in_epoch.checked_add(storage_gas) {
            Some(storage_gas_consumed_in_epoch) => Ok(
                LedgerState { storage_gas_consumed_in_epoch, ..self },
            ),
            None => Err(LedgerError::GasOverflow),
        }
    }

    /// What a proof of leadership for `slot` is verified against.
    pub fn leader_public(&self, slot: Slot) -> (r: LeaderPublic)
        requires
            self.well_formed(),
        ensures
            r == leader_public(self, slot),
    {
        LeaderPublic {
            aged_root: self.aged_utxos().root(),
            latest_root: self.latest_utxos().root(),
            epoch_nonce: self.epoch_state.nonce,
            slot,
            lottery_0: self.epoch_state.lottery_0,
            lottery_1: self.epoch_state.lottery_1,
        }
    }

    /// Verifies a proof of leadership for `slot`, which is in the current epoch.
    fn try_apply_proof<P: LeaderProof>(self, slot: Slot, proof: &P, config: &Config) -> (r: Result<
        Self,
        LedgerError,
    >)
        requires
            self.well_formed(),
            config.epoch_config.epoch_of(slot) == self.epoch_state.epoch,
        ensures
            r == (if proof.accepts(leader_public(&self, slot)) {
                Ok(self)
            } else {
                Err(LedgerError::InvalidProof)
            }),
    {
        let public_inputs: LeaderPublic = self.leader_public(slot);
        if !proof.verify(&public_inputs) {
            return Err(LedgerError::InvalidProof);
        }
        Ok(self)
    }

    /// What the nonce of the ledger after a block of `slot` is the hash of: a tag, the
    /// nonce before, what the leader contributes, and the slot.
    pub fn nonce_inputs(&self, contribution: &Fr, slot: Slot) -> (r: [Fr; 4])
        ensures
            r@ == seq![nonce_tag_value(), self.nonce, *contribution, slot_element(slot)],
    {
        nonce_inputs(&self.nonce, contribution, slot)
    }

    /// Applies the header of a block of `slot`. What was inferred about the stake is `stake`,
    /// and the hash of the [`Self::nonce_inputs`] is `nonce`.
    pub fn try_apply_header<P: LeaderProof>(
        self,
        slot: Slot,
        proof: &P,
        sdp: &SdpLedger,
        config: &Config,
        stake: StakeOutcome,
        nonce: Fr,
    ) -> (r: Result<Self, LedgerError>)
        requires
            config.epoch_config.well_formed(),
            config.epoch_config.reaches(config.epoch_config.epoch_of(slot) + 1),
            self.well_formed(),
            self.on_schedule(&config.epoch_config),
        ensures
            is_header_result(&self, slot, proof, sdp, config, stake, nonce, r),
            r matches Ok(state) ==> state.well_formed() && state.on_schedule(&config.epoch_config),
    {
        let state: Self = match self.update_epoch_state(slot, sdp, config, stake) {
            Ok(state) => state,
            Err(error) => return Err(error),
        };
        let ghost moved = state;
        proof {
            config.epoch_config.lemma_periods();
            config.epoch_config.lemma_epoch_of(slot);
        }
        match state.try_apply_proof(slot, proof, config) {
            Ok(state) => {
                let r: Result<Self, LedgerError> = Ok(
                    state.update_nonce(nonce).increment_block_density(slot),
                );
                assert(is_epoch_step(&self, slot, sdp, config, stake, &moved));
                r
            },
            Err(error) => {
                assert(is_epoch_step(&self, slot, sdp, config, stake, &moved));
                Err(error)
            },
        }
    }

    /// Applies a transfer, given what it leads to.
    pub fn try_apply_transfer(self, outcome: Result<TransferExecution<U>, OpFailure>) -> (r: Result<
        (Self, Balance, Vec<TxEvent>),
        LedgerError,
    >)
        ensures
            match outcome {
                Ok(execution) => r == Ok::<_, LedgerError>(
                    (
                        LedgerState { utxos: execution.utxos, ..self },
                        execution.balance,
                        execution.events,
                    ),
                ),
                Err(failure) => r == Err::<(Self, Balance, Vec<TxEvent>), _>(
                    LedgerError::Mantle(mantle::Error::Transfer(failure)),
                ),
            },
    {
        match outcome {
            Ok(execution) => Ok(
                (
                    LedgerState { utxos: execution.utxos, ..self },
                    execution.balance,
                    execution.events,
                ),
            ),
            Err(failure) => Err(LedgerError::Mantle(mantle::Error::Transfer(failure))),
        }
    }

    /// Replaces the nonce.
    fn update_nonce(self, nonce: Fr) -> (r: Self)
        ensures
            r == (LedgerState { nonce, ..self }),
    {
        LedgerState { nonce, ..self }
    }

    /// Counts a block of `slot`.
    fn increment_block_density(self, slot: Slot) -> (r: Self)
        requires
            self.block_density.covers(slot) ==> self.block_density.count < u64::MAX,
        ensures
            r == (LedgerState {
                block_density: self.block_density.with_block(slot),
                ..self
            }),
    {
        let mut block_density: BlockDensity = self.block_density;
        block_density.increment_block_density(slot);
        LedgerState { block_density, ..self }
    }

    /// Remembers the fees that were burned in a block.
    pub fn update_fee_window(&mut self, index: usize, total_fee: GasCost)
        requires
            index < WINDOW_SIZE,
        ensures
            *final(self) == (LedgerState { fee_window: final(self).fee_window, ..*old(self) }),
            final(self).fee_window@ == old(self).fee_window@.update(index as int, total_fee),
    {
        self.fee_window[index] = total_fee;
    }

    /// The fees that were burned in a block.
    pub fn get_fee_from_index(&self, index: usize) -> (r: GasCost)
        requires
            index < WINDOW_SIZE,
        ensures
            r == self.fee_window@[index as int],
    {
        self.fee_window[index]
    }

    /// The fees that were burned in all blocks that are remembered.
    pub fn get_summed_fees(&self) -> (r: u128)
        ensures
            r == sum_of(self.fee_window@),
    {
        let mut sum: u128 = 0;
        let mut i: usize = 0;
        assert(self.fee_window@.take(0) =~= Seq::empty());
        while i < WINDOW_SIZE
            invariant
                0 <= i <= 120,
                sum == sum_of(self.fee_window@.take(i as int)),
                sum <= i * u64::MAX,
            decreases 120 - i,
        {
            assert(self.fee_window@.take(i + 1).drop_last() =~= self.fee_window@.take(i as int));
            sum = sum + self.fee_window[i] as u128;
            i += 1;
        }
        assert(self.fee_window@.take(120) =~= self.fee_window@);
        sum
    }

    /// The slot of the last block.
    pub fn slot(&self) -> (r: Slot)
        ensures
            r == self.slot,
    {
        self.slot
    }

    /// What is fixed for the current epoch.
    pub fn epoch_state(&self) -> (r: &EpochState<U>)
        ensures
            *r == self.epoch_state,
    {
        &self.epoch_state
    }

    /// What will be fixed for the next epoch, as far as it is known.
    pub fn next_epoch_state(&self) -> (r: &EpochState<U>)
        ensures
            *r == self.next_epoch_state,
    {
        &self.next_epoch_state
    }

    /// Takes the declarations of the genesis block for the first two epochs.
    pub fn with_genesis_sdp(self, sdp: &SdpLedger, config: &Config) -> (r: Self)
        ensures
            sdp::is_active_set(
                sdp,
                self.epoch_state.epoch,
                &config.sdp_config.service_params,
                &r.epoch_state.active_declarations,
            ),
            sdp::is_active_set(
                sdp,
                self.next_epoch_state.epoch,
                &config.sdp_config.service_params,
                &r.next_epoch_state.active_declarations,
            ),
            r == (LedgerState {
                epoch_state: EpochState {
                    active_declarations: r.epoch_state.active_declarations,
                    ..self.epoch_state
                },
                next_epoch_state: EpochState {
                    active_declarations: r.next_epoch_state.active_declarations,
                    ..self.next_epoch_state
                },
                ..self
            }),
    {
        let current: Declarations = sdp.active_declarations(
            self.epoch_state.epoch,
            &config.sdp_config.service_params,
        );
        let next: Declarations = sdp.active_declarations(
            self.next_epoch_state.epoch,
            &config.sdp_config.service_params,
        );
        let mut state: Self = self;
        state.epoch_state.active_declarations = current;
        state.next_epoch_state.active_declarations = next;
        state
    }

    /// The outputs that are not spent.
    pub fn latest_utxos(&self) -> (r: &UtxoTree<U>)
        ensures
            *r == self.utxos,
    {
        &self.utxos
    }

    /// Replaces the outputs that are not spent.
    pub fn update_utxos(self, utxos: UtxoTree<U>) -> (r: Self)
        ensures
            r == (LedgerState { utxos, ..self }),
    {
        LedgerState { utxos, ..self }
    }

    /// The price of execution gas.
    pub fn execution_base_fee(&self) -> (r: &GasPrice)
        ensures
            *r == self.execution_base_fee,
    {
        &self.execution_base_fee
    }

    /// The price of storage gas.
    pub fn storage_gas_price(&self) -> (r: &GasPrice)
        ensures
            *r == self.storage_gas_price,
    {
        &self.storage_gas_price
    }

    /// The outputs that can win in the current epoch.
    pub fn aged_utxos(&self) -> (r: &UtxoTree<U>)
        ensures
            *r == self.epoch_state.utxos,
    {
        &self.epoch_state.utxos
    }

    /// What is fixed for the epoch of `slot`.
    pub fn epoch_state_for_slot(
        &self,
        slot: Slot,
        sdp: &SdpLedger,
        config: &Config,
        stake: StakeOutcome,
    ) -> (r: Result<EpochState<U>, LedgerError>)
        requires
            config.epoch_config.well_formed(),
            config.epoch_config.reaches(config.epoch_config.epoch_of(slot) + 1),
            self.well_formed(),
            self.on_schedule(&config.epoch_config),
        ensures
            slot <= self.slot ==> r == Err::<EpochState<U>, _>(
                LedgerError::InvalidSlot { parent: self.slot, block: slot },
            ),
            slot > self.slot ==> r is Ok && exists|state: LedgerState<U>| #[trigger]
                is_epoch_step(self, slot, sdp, config, stake, &state) && state.epoch_state == r->Ok_0,
    {
        match self.clone().update_epoch_state(slot, sdp, config, stake) {
            Ok(state) => {
                assert(is_epoch_step(self, slot, sdp, config, stake, &state));
                Ok(state.epoch_state().clone())
            },
            Err(error) => Err(error),
        }
    }

    /// Makes the state at genesis from the inputs and the outputs of the transfer of the
    /// genesis block.
    pub fn from_genesis_tx(
        inputs: &Vec<NoteId>,
        outputs: &Vec<Utxo>,
        config: &Config,
        epoch_nonce: Fr,
        lottery: (Fr, Fr),
        prices: GasPrices,
    ) -> (r: Result<Self, LedgerError>)
        requires
            config.epoch_config.well_formed(),
            outputs@.len() <= UtxoTree::<U>::capacity(),
            genesis_stake_of(outputs@, config.faucet_pk) <= u64::MAX,
        ensures
            inputs@.len() > 0 ==> r == Err::<Self, _>(LedgerError::InputInGenesis(inputs@[0])),
            inputs@.len() == 0 ==> r is Ok,
            r matches Ok(state) ==> {
                &&& is_genesis(outputs@, config, epoch_nonce, lottery, prices, &state)
                &&& state.well_formed()
                &&& state.on_schedule(&config.epoch_config)
            },
    {
        if inputs.len() > 0 {
            return Err(LedgerError::InputInGenesis(inputs[0]));
        }
        Ok(Self::from_utxos(outputs, config, epoch_nonce, lottery, prices))
    }

    /// Makes the state at genesis. For the stake of the outputs, the values of the lottery
    /// are `lottery`.
    pub fn from_utxos(
        utxos: &Vec<Utxo>,
        config: &Config,
        nonce: Fr,
        lottery: (Fr, Fr),
        prices: GasPrices,
    ) -> (r: Self)
        requires
            config.epoch_config.well_formed(),
            utxos@.len() <= UtxoTree::<U>::capacity(),
            genesis_stake_of(utxos@, config.faucet_pk) <= u64::MAX,
        ensures
            is_genesis(utxos@, config, nonce, lottery, prices, &r),
            r.well_formed(),
            r.on_schedule(&config.epoch_config),
    {
        let tree: UtxoTree<U> = genesis_tree(utxos);
        let total_stake: Value = genesis_stake(utxos, config.faucet_pk);
        proof {
            config.epoch_config.lemma_periods();
            config.epoch_config.lemma_epoch_of(0);
            assert(config.epoch_config.start_of(0) == 0) by (nonlinear_arith);
            vstd::arithmetic::div_mod::lemma_basic_div(0, config.epoch_config.length());
        }
        let block_density: BlockDensity = BlockDensity::new(0, &config.epoch_config);
        let r = LedgerState {
            utxos: tree.clone(),
            nonce,
            slot: 0,
            next_epoch_state: EpochState {
                epoch: 1,
                nonce,
                utxos: tree.clone(),
                total_stake,
                lottery_0: lottery.0,
                lottery_1: lottery.1,
                active_declarations: Declarations::empty(),
            },
            epoch_state: EpochState {
                epoch: 0,
                nonce,
                utxos: tree,
                total_stake,
                lottery_0: lottery.0,
                lottery_1: lottery.1,
                active_declarations: Declarations::empty(),
            },
            block_density,
            fee_window: [0; 120],
            average_execution_gas: 0,
            execution_base_fee: prices.execution_base_gas_price,
            storage_gas_ema: 0,
            storage_gas_price: prices.storage_gas_price,
            storage_gas_consumed_in_epoch: 0,
        };
        assert(r.fee_window@ =~= Seq::new(120, |i: int| 0u64));
        r
    }
}

impl<U: LeafExtractor<Utxo>> Clone for LedgerState<U> {
    fn clone(&self) -> (r: Self)
        ensures
            r == *self,
    {
        LedgerState {
            utxos: self.utxos.clone(),
            nonce: self.nonce,
            slot: self.slot,
            next_epoch_state: self.next_epoch_state.clone(),
            epoch_state: self.epoch_state.clone(),
            block_density: self.block_density,
            fee_window: self.fee_window,
            average_execution_gas: self.average_execution_gas,
            execution_base_fee: self.execution_base_fee,
            storage_gas_ema: self.storage_gas_ema,
            storage_gas_price: self.storage_gas_price,
            storage_gas_consumed_in_epoch: self.storage_gas_consumed_in_epoch,
        }
    }
}

/// The epoch of a later slot is not an earlier one.
pub proof fn lemma_epochs_ordered(config: &EpochConfig, from: Slot, to: Slot)
    requires
        config.well_formed(),
        from <= to,
    ensures
        0 <= config.epoch_of(from) <= config.epoch_of(to),
{
    config.lemma_periods();
    config.lemma_epoch_of(from);
    vstd::arithmetic::div_mod::lemma_div_is_ordered(from as int, to as int, config.length());
}

proof fn lemma_next_start(config: &EpochConfig, epoch: int)
    ensures
        config.start_of(epoch + 1) == config.start_of(epoch) + config.length(),
{
    vstd::arithmetic::mul::lemma_mul_is_distributive_add_other_way(config.length(), epoch, 1);
}

/// The tag in front of what is hashed to a nonce: `EPOCH_NONCE_V1`, as an element.
pub open spec fn nonce_tag_value() -> Fr {
    [
        69, 80, 79, 67, 72, 95, 78, 79, 78, 67, 69, 95, 86, 49, 0, 0, 0, 0, 0, 0, 0, 0, 0, 0, 0,
        0, 0, 0, 0, 0, 0, 0,
    ]
}

fn nonce_tag() -> (r: Fr)
    ensures
        r == nonce_tag_value(),
{
    [
        69, 80, 79, 67, 72, 95, 78, 79, 78, 67, 69, 95, 86, 49, 0, 0, 0, 0, 0, 0, 0, 0, 0, 0, 0,
        0, 0, 0, 0, 0, 0, 0,
    ]
}

/// What the nonce of the ledger after a block of `slot` is the hash of.
pub fn nonce_inputs(nonce: &Fr, contribution: &Fr, slot: Slot) -> (r: [Fr; 4])
    ensures
        r@ == seq![nonce_tag_value(), *nonce, *contribution, slot_element(slot)],
{
    [nonce_tag(), *nonce, *contribution, element_of(slot)]
}

/// A slot as an element.
pub open spec fn slot_element(slot: Slot) -> Fr {
    [
        (slot % 256) as u8,
        (slot / 256 % 256) as u8,
        (slot / 65_536 % 256) as u8,
        (slot / 16_777_216 % 256) as u8,
        (slot / 4_294_967_296 % 256) as u8,
        (slot / 1_099_511_627_776 % 256) as u8,
        (slot / 281_474_976_710_656 % 256) as u8,
        (slot / 72_057_594_037_927_936 % 256) as u8,
        0, 0, 0, 0, 0, 0, 0, 0, 0, 0, 0, 0, 0, 0, 0, 0, 0, 0, 0, 0, 0, 0, 0, 0,
    ]
}

fn element_of(slot: Slot) -> (r: Fr)
    ensures
        r == slot_element(slot),
{
    [
        (slot % 256) as u8,
        (slot / 256 % 256) as u8,
        (slot / 65_536 % 256) as u8,
        (slot / 16_777_216 % 256) as u8,
        (slot / 4_294_967_296 % 256) as u8,
        (slot / 1_099_511_627_776 % 256) as u8,
        (slot / 281_474_976_710_656 % 256) as u8,
        (slot / 72_057_594_037_927_936 % 256) as u8,
        0, 0, 0, 0, 0, 0, 0, 0, 0, 0, 0, 0, 0, 0, 0, 0, 0, 0, 0, 0, 0, 0, 0, 0,
    ]
}

} // verus!
