//! The ledger: a state for each block.
pub mod block_laws;
pub mod contents;
pub mod contexts;
pub mod laws;
pub mod operation_laws;
pub mod ops;
pub mod rewards;

use vstd::prelude::*;

use crate::collections::trie_map::TrieMap;
use crate::config::{Config, EpochConfig};
use crate::cryptarchia;
use crate::cryptarchia::epoch::{EpochState, UtxoTree};
use crate::cryptarchia::{GasPrices, StakeOutcome, StakePlan};
use crate::error::LedgerError;
use crate::leader_proof::LeaderProof;
use crate::ledger::contents::TxRun;
use crate::mantle;
use crate::mantle::channel::Channels;
use crate::mantle::leader::{LeaderState, VOUCHERS_HEIGHT};
use crate::mantle::sdp;
use crate::mantle::sdp::rewards::blend::current_epoch;
use crate::mantle::sdp::rewards::blend::current_epoch::CoreNetwork;
use crate::mantle::sdp::rewards::blend::target_epoch;
use crate::mantle::sdp::{HeaderEffect, PendingHeaderEffect, RewardOrigin, SdpExecution};
use crate::mantle::ChannelExecution;
use crate::merkle::dynamic;
use crate::merkle::hasher::empty_leaf;
use crate::merkle::tree::LeafExtractor;
use crate::mmr;
use crate::types::{
    BlockNumber, Fr, Gas, HeaderEvent, HeaderId, NoteId, OpFailure, ServiceType, Slot, TxEvent,
    Utxo, Value, ZkPublicKey,
};

verus! {

/// The most execution gas that a block may use.
pub const EXECUTION_GAS_LIMIT: Gas = 3_193_460;

/// The state of the ledger after a block.
#[verifier::reject_recursive_types(U)]
pub struct LedgerState<U: LeafExtractor<Utxo>> {
    pub block_number: BlockNumber,
    pub cryptarchia_ledger: cryptarchia::LedgerState<U>,
    pub mantle_ledger: mantle::LedgerState<U::Hasher>,
}

impl<U: LeafExtractor<Utxo>> LedgerState<U> {
    /// Whether the parts are well formed.
    pub open spec fn well_formed(&self) -> bool {
        &&& self.cryptarchia_ledger.well_formed()
        &&& self.mantle_ledger.well_formed()
        &&& self.cryptarchia_ledger.average_execution_gas <= EXECUTION_GAS_LIMIT
    }

    /// Whether all parts are in the epoch of the last block.
    pub open spec fn on_schedule(&self, config: &Config) -> bool {
        &&& self.cryptarchia_ledger.on_schedule(&config.epoch_config)
        &&& self.mantle_ledger.leaders.epoch == self.cryptarchia_ledger.epoch_state.epoch
        &&& self.mantle_ledger.sdp.epoch == self.cryptarchia_ledger.epoch_state.epoch
        &&& self.mantle_ledger.sdp.in_step()
    }

    /// Whether nothing differs from `other` but what transactions can change.
    pub open spec fn same_epoch(&self, other: &Self) -> bool {
        &&& self.block_number == other.block_number
        &&& self.cryptarchia_ledger == (cryptarchia::LedgerState {
            utxos: self.cryptarchia_ledger.utxos,
            ..other.cryptarchia_ledger
        })
        &&& self.mantle_ledger.leaders == (mantle::leader::LeaderState {
            nfs: self.mantle_ledger.leaders.nfs,
            claimable_rewards: self.mantle_ledger.leaders.claimable_rewards,
            ..other.mantle_ledger.leaders
        })
        &&& self.mantle_ledger.sdp.epoch == other.mantle_ledger.sdp.epoch
        &&& match other.mantle_ledger.sdp.blend_network {
            Some(before) => {
                &&& self.mantle_ledger.sdp.blend_network matches Some(after)
                &&& after.rewards.same_target(&before.rewards)
                &&& after.rewards.income() == before.rewards.income()
            },
            None => self.mantle_ledger.sdp.blend_network is None,
        }
    }
}

/// What is computed outside when a header is applied.
#[derive(Clone, Copy, Debug, PartialEq, Eq)]
pub struct HeaderInputs {
    /// What was inferred about the stake, if an epoch starts.
    pub stake: StakeOutcome,
    /// The nonce of the ledger after the block.
    pub nonce: Fr,
    /// What is computed from the providers of the last epoch, if an epoch starts.
    pub core: CoreNetwork,
}

/// What a block reports.
#[derive(Clone, Debug, PartialEq, Eq)]
pub enum Event {
    Header(HeaderEvent),
    Tx(TxEvent),
}

/// What a transaction is built for. Its gas depends on the channels and the prices.
pub struct TxContext {
    pub channels: Channels,
    pub gas_prices: GasPrices,
    pub leader_reward_amount: Value,
}

/// Whether `r` is what comes of the header of a block before rewards are paid.
pub open spec fn is_header_result<U: LeafExtractor<Utxo>, P: LeaderProof>(
    before: &LedgerState<U>,
    slot: Slot,
    proof: &P,
    config: &Config,
    inputs: HeaderInputs,
    r: Result<(LedgerState<U>, PendingHeaderEffect), LedgerError>,
) -> bool {
    exists|consensus: Result<cryptarchia::LedgerState<U>, LedgerError>| #[trigger]
        cryptarchia::is_header_result(
            &before.cryptarchia_ledger,
            slot,
            proof,
            &before.mantle_ledger.sdp,
            config,
            inputs.stake,
            inputs.nonce,
            consensus,
        ) && match consensus {
            Err(error) => r == Err::<(LedgerState<U>, PendingHeaderEffect), _>(error),
            Ok(cryptarchia_ledger) => exists|
                operations: Result<
                    (mantle::LedgerState<U::Hasher>, PendingHeaderEffect),
                    mantle::Error,
                >,
            | #[trigger]
                mantle::is_header_result(
                    &before.mantle_ledger,
                    &before.cryptarchia_ledger.epoch_state,
                    &cryptarchia_ledger.epoch_state,
                    proof.voucher(),
                    config,
                    inputs.core,
                    operations,
                ) && r == match operations {
                    Err(error) => Err(LedgerError::Mantle(error)),
                    Ok((mantle_ledger, effect)) => Ok::<_, LedgerError>(
                        (
                            LedgerState {
                                block_number: (before.block_number + 1) as u64,
                                cryptarchia_ledger,
                                mantle_ledger,
                            },
                            effect,
                        ),
                    ),
                },
        }
}

/// Whether `after` is the tree `before` with one more output, in the first slot that is free.
pub open spec fn is_inserted<U: LeafExtractor<Utxo>>(
    before: &UtxoTree<U>,
    utxo: Utxo,
    after: &UtxoTree<U>,
) -> bool {
    exists|position: usize| #[trigger]
        dynamic::is_first_free(before.slots(), position as int) && after.slots()
            == before.slots().update(position as int, Some(U::leaf_of(utxo.id, utxo)))
            && after.entries() == before.entries().insert(utxo.id, (utxo, position))
}

/// Whether `after` is the tree `before` with more outputs, one after the other.
pub open spec fn is_extended<U: LeafExtractor<Utxo>>(
    before: &UtxoTree<U>,
    utxos: Seq<Utxo>,
    after: &UtxoTree<U>,
) -> bool
    decreases utxos.len(),
{
    if utxos.len() == 0 {
        *after == *before
    } else {
        exists|mid: UtxoTree<U>|
            is_extended(before, utxos.drop_last(), &mid) && #[trigger] is_inserted(
                &mid,
                utxos.last(),
                after,
            )
    }
}

/// The events of a block: first those of its header.
pub open spec fn block_events(header: Seq<HeaderEvent>, txs: Seq<TxEvent>) -> Seq<Event> {
    header.map_values(|event: HeaderEvent| Event::Header(event)) + txs.map_values(
        |event: TxEvent| Event::Tx(event),
    )
}

/// Whether `after` is `before` with the rewards of a header paid by `utxos`.
pub open spec fn is_paid<U: LeafExtractor<Utxo>>(
    before: &LedgerState<U>,
    utxos: Seq<Utxo>,
    after: &LedgerState<U>,
) -> bool {
    &&& is_extended(&before.cryptarchia_ledger.utxos, utxos, &after.cryptarchia_ledger.utxos)
    &&& *after == (LedgerState {
        cryptarchia_ledger: cryptarchia::LedgerState {
            utxos: after.cryptarchia_ledger.utxos,
            ..before.cryptarchia_ledger
        },
        ..*before
    })
}

/// The events of a header, when its rewards are paid by outputs that come from `origins`.
pub open spec fn header_events(effect: &PendingHeaderEffect, origins: Seq<RewardOrigin>) -> Seq<
    HeaderEvent,
> {
    effect.events@ + sdp::reward_utxos(effect.rewards@, origins).map_values(
        |utxo: Utxo| sdp::reward_event(utxo),
    )
}

/// Lists the events of a block.
fn collect_events(header: Vec<HeaderEvent>, txs: Vec<TxEvent>) -> (r: Vec<Event>)
    ensures
        r@ == block_events(header@, txs@),
{
    let mut events: Vec<Event> = Vec::new();
    let ghost all = header@;
    let ghost rest = txs@;
    let mut i: usize = 0;
    while i < header.len()
        invariant
            0 <= i <= header@.len(),
            header@ == all,
            events@ == all.take(i as int).map_values(|event: HeaderEvent| Event::Header(event)),
        decreases header@.len() - i,
    {
        events.push(Event::Header(header[i]));
        i += 1;
    }
    assert(all.take(i as int) =~= all);
    let ghost first = events@;
    assert(rest.take(0).map_values(|event: TxEvent| Event::Tx(event)) =~= Seq::empty());
    for event in it: txs
        invariant
            it.seq() == rest,
            events@ == first + rest.take(it.index() as int).map_values(
                |event: TxEvent| Event::Tx(event),
            ),
    {
        let ghost k = it.index() as int;
        assert(rest.take(k + 1) =~= rest.take(k).push(event));
        events.push(Event::Tx(event));
        assert(events@ =~= first + rest.take(k + 1).map_values(|event: TxEvent| Event::Tx(event)));
    }
    assert(rest.take(rest.len() as int) =~= rest);
    events
}

impl<U: LeafExtractor<Utxo>> LedgerState<U> {
    /// Whether the header of a block of `slot` can be applied: epochs and blocks can be
    /// counted, there is room for one more voucher, and what leaders have earned can be added
    /// up.
    pub open spec fn can_apply_header(&self, slot: Slot, config: &Config) -> bool {
        &&& config.epoch_config.well_formed()
        &&& config.epoch_config.reaches(config.epoch_config.epoch_of(slot) + 1)
        &&& config.sdp_config.service_rewards_params.blend.message_quota() <= u64::MAX
        &&& self.block_number < u64::MAX
        &&& self.mantle_ledger.leaders.vouchers.leaf_count()
            < self.mantle_ledger.leaders.vouchers.max_leaves()
        &&& config.epoch_config.epoch_of(slot) > self.mantle_ledger.leaders.epoch
            ==> self.mantle_ledger.leaders.claimable_rewards
            + self.mantle_ledger.leaders.pending_rewards <= u64::MAX
    }

    /// Whether the header of a block of `slot` can be applied.
    pub fn accepts_header(&self, slot: Slot, config: &Config) -> (r: bool)
        requires
            self.well_formed(),
        ensures
            r == self.can_apply_header(slot, config),
    {
        let epochs: &EpochConfig = &config.epoch_config;
        if !epochs.is_well_formed() || !epochs.reaches_after(slot) {
            return false;
        }
        if !config.sdp_config.service_rewards_params.blend.has_quota() {
            return false;
        }
        let leaders: &LeaderState<U::Hasher> = &self.mantle_ledger.leaders;
        if self.block_number == u64::MAX || leaders.vouchers.len() >= leaders.vouchers.capacity() {
            return false;
        }
        epochs.epoch(slot) <= leaders.epoch || leaders.claimable_rewards.checked_add(
            leaders.pending_rewards,
        ).is_some()
    }

    /// Applies the header of a block: the proof of its leader, and the start of an epoch if it
    /// is the first block of one. The rewards that fall due are still to be paid.
    pub fn try_apply_header<P: LeaderProof>(
        self,
        slot: Slot,
        proof: &P,
        config: &Config,
        inputs: HeaderInputs,
    ) -> (r: Result<(Self, PendingHeaderEffect), LedgerError>)
        requires
            self.well_formed(),
            self.on_schedule(config),
            self.can_apply_header(slot, config),
        ensures
            is_header_result(&self, slot, proof, config, inputs, r),
            r matches Ok((state, _)) ==> state.well_formed() && state.on_schedule(config),
    {
        let last_epoch_state: EpochState<U> = self.cryptarchia_ledger.epoch_state().clone();
        let result: Result<cryptarchia::LedgerState<U>, LedgerError> =
            self.cryptarchia_ledger.try_apply_header(
            slot,
            proof,
            &self.mantle_ledger.sdp,
            config,
            inputs.stake,
            inputs.nonce,
        );
        let ghost consensus = result;
        assert(cryptarchia::is_header_result(
            &self.cryptarchia_ledger,
            slot,
            proof,
            &self.mantle_ledger.sdp,
            config,
            inputs.stake,
            inputs.nonce,
            consensus,
        ));
        let cryptarchia_ledger: cryptarchia::LedgerState<U> = match result {
            Ok(state) => state,
            Err(error) => return Err(error),
        };
        proof {
            cryptarchia::lemma_epochs_ordered(
                &config.epoch_config,
                self.cryptarchia_ledger.slot,
                slot,
            );
        }
        let voucher: Fr = proof.voucher_cm();
        let operations: Result<
            (mantle::LedgerState<U::Hasher>, PendingHeaderEffect),
            mantle::Error,
        > = self.mantle_ledger.try_apply_header(
            &last_epoch_state,
            cryptarchia_ledger.epoch_state(),
            voucher,
            config,
            inputs.core,
        );
        assert(mantle::is_header_result(
            &self.mantle_ledger,
            &self.cryptarchia_ledger.epoch_state,
            &cryptarchia_ledger.epoch_state,
            proof.voucher(),
            config,
            inputs.core,
            operations,
        ));
        match operations {
            Ok((mantle_ledger, effect)) => {
                proof {
                    sdp::laws::rewards_stay_in_step(
                        &self.mantle_ledger.sdp,
                        &last_epoch_state,
                        &cryptarchia_ledger.epoch_state,
                        config.sdp_config.service_rewards_params.blend,
                        inputs.core,
                        &mantle_ledger.sdp,
                        &effect,
                    );
                }
                Ok(
                    (
                        LedgerState {
                            block_number: self.block_number + 1,
                            cryptarchia_ledger,
                            mantle_ledger,
                        },
                        effect,
                    ),
                )
            },
            Err(error) => Err(LedgerError::Mantle(error)),
        }
    }

    /// Pays the rewards that a header has made due, by new outputs that come from `origins`.
    pub fn distribute_rewards(self, effect: PendingHeaderEffect, origins: &Vec<RewardOrigin>) -> (r:
        (Self, Vec<HeaderEvent>))
        requires
            self.well_formed(),
            sdp::covers(origins@, effect.rewards@.dom()),
            self.cryptarchia_ledger.utxos.filled() + origins@.len() <= UtxoTree::<U>::capacity(),
        ensures
            is_paid(&self, sdp::reward_utxos(effect.rewards@, origins@), &r.0),
            r.0.well_formed(),
            r.1@ == header_events(&effect, origins@),
    {
        let effect: HeaderEffect = effect.distributed(origins);
        let ghost utxos = effect.reward_utxos@;
        let ghost before = self.cryptarchia_ledger.utxos;
        let mut tree: UtxoTree<U> = self.cryptarchia_ledger.utxos.clone();
        let mut i: usize = 0;
        assert(utxos.take(0) =~= Seq::empty());
        while i < effect.reward_utxos.len()
            invariant
                0 <= i <= utxos.len(),
                utxos == effect.reward_utxos@,
                tree.well_formed(),
                tree.filled() == before.filled() + i,
                before.filled() + utxos.len() <= UtxoTree::<U>::capacity(),
                is_extended(&before, utxos.take(i as int), &tree),
            decreases utxos.len() - i,
        {
            let utxo: Utxo = effect.reward_utxos[i];
            let ghost mid = tree;
            let (extended, position): (UtxoTree<U>, usize) = tree.insert(utxo.id, utxo);
            tree = extended;
            proof {
                assert(utxos.take(i + 1).drop_last() =~= utxos.take(i as int));
                assert(utxos.take(i + 1).last() == utxo);
                assert(dynamic::is_first_free(mid.slots(), position as int));
                assert(is_inserted(&mid, utxo, &tree));
            }
            i += 1;
        }
        assert(utxos.take(i as int) =~= utxos);
        (
            LedgerState { cryptarchia_ledger: self.cryptarchia_ledger.update_utxos(tree), ..self },
            effect.events,
        )
    }

    /// Makes the state at genesis without declarations. For the stake of the outputs, the
    /// values of the lottery are `lottery`.
    pub fn from_utxos(
        utxos: &Vec<Utxo>,
        config: &Config,
        lottery: (Fr, Fr),
        prices: GasPrices,
    ) -> (r: Self)
        requires
            mmr::supported(VOUCHERS_HEIGHT),
            config.epoch_config.well_formed(),
            config.sdp_config.service_rewards_params.blend.message_quota() <= u64::MAX,
            utxos@.len() <= UtxoTree::<U>::capacity(),
            cryptarchia::genesis_stake_of(utxos@, config.faucet_pk) <= u64::MAX,
        ensures
            r.well_formed(),
            r.on_schedule(config),
            r.block_number == 0,
            cryptarchia::is_genesis(
                utxos@,
                config,
                crate::merkle::hasher::empty_value(),
                lottery,
                prices,
                &r.cryptarchia_ledger,
            ),
            r.mantle_ledger.channels@.dom().is_empty(),
            r.mantle_ledger.sdp.blend_network is Some,
            r.mantle_ledger.sdp.blend_declarations().dom().is_empty(),
            r.mantle_ledger.sdp.blend_income() == 0,
            r.mantle_ledger.sdp.blend_network->0.rewards.target() is None,
            r.mantle_ledger.sdp.blend_network->0.rewards.current() == current_epoch::current_state(
                &r.cryptarchia_ledger.epoch_state,
                &config.sdp_config.service_rewards_params.blend,
            ),
            r.mantle_ledger.sdp.locked_notes@.dom().is_empty(),
            mantle::is_genesis_leaders(&r.mantle_ledger.leaders),
    {
        let cryptarchia_ledger: cryptarchia::LedgerState<U> = cryptarchia::LedgerState::from_utxos(
            utxos,
            config,
            empty_leaf(),
            lottery,
            prices,
        );
        let mantle_ledger: mantle::LedgerState<U::Hasher> = mantle::LedgerState::new(
            config,
            cryptarchia_ledger.epoch_state(),
        );
        let cryptarchia_ledger: cryptarchia::LedgerState<U> = cryptarchia_ledger.with_genesis_sdp(
            &mantle_ledger.sdp,
            config,
        );
        proof {
            if config.sdp_config.service_params.blend_network is Some {
                let params = config.sdp_config.service_params.blend_network->0;
                let none = mantle_ledger.sdp.blend_declarations();
                assert(sdp::active_entries(none, 0, params) =~= Map::empty());
                assert(sdp::active_entries(none, 1, params) =~= Map::empty());
            }
        }
        LedgerState { block_number: 0, cryptarchia_ledger, mantle_ledger }
    }

    /// Makes the state at genesis from the inputs and the outputs of the transfer of the
    /// genesis block, given what its inscription and its declarations lead to.
    pub fn from_genesis_tx(
        inputs: &Vec<NoteId>,
        outputs: &Vec<Utxo>,
        inscription: Result<ChannelExecution, OpFailure>,
        declarations: Vec<(ServiceType, Result<SdpExecution, OpFailure>)>,
        config: &Config,
        epoch_nonce: Fr,
        lottery: (Fr, Fr),
        prices: GasPrices,
    ) -> (r: Result<(Self, Vec<TxEvent>), LedgerError>)
        requires
            mmr::supported(VOUCHERS_HEIGHT),
            config.epoch_config.well_formed(),
            config.sdp_config.service_rewards_params.blend.message_quota() <= u64::MAX,
            outputs@.len() <= UtxoTree::<U>::capacity(),
            cryptarchia::genesis_stake_of(outputs@, config.faucet_pk) <= u64::MAX,
            forall|i: int|
                0 <= i < declarations@.len() ==> ((#[trigger] declarations@[i]).1 matches Ok(
                    execution,
                ) ==> execution.locked_notes.well_formed()),
        ensures
            if inputs@.len() > 0 {
                r == Err::<(Self, Vec<TxEvent>), _>(LedgerError::InputInGenesis(inputs@[0]))
            } else {
                match mantle::genesis_failure(inscription, declarations@) {
                    Some(error) => r == Err::<(Self, Vec<TxEvent>), _>(LedgerError::Mantle(error)),
                    None => {
                        &&& r matches Ok((state, events))
                        &&& state.well_formed()
                        &&& state.on_schedule(config)
                        &&& is_genesis_state(
                            outputs@,
                            inscription->Ok_0,
                            declarations@,
                            config,
                            epoch_nonce,
                            lottery,
                            prices,
                            &state,
                        )
                        &&& events@ == inscription->Ok_0.events@ + sdp::genesis_events(
                            declarations@,
                        )
                    },
                }
            },
    {
        let cryptarchia_ledger: cryptarchia::LedgerState<U> =
            match cryptarchia::LedgerState::from_genesis_tx(
            inputs,
            outputs,
            config,
            epoch_nonce,
            lottery,
            prices,
        ) {
            Ok(state) => state,
            Err(error) => return Err(error),
        };
        let ghost bare = cryptarchia_ledger;
        match mantle::LedgerState::from_genesis_tx(
            config,
            cryptarchia_ledger.epoch_state(),
            inscription,
            declarations,
        ) {
            Ok((mantle_ledger, events)) => {
                let cryptarchia_ledger: cryptarchia::LedgerState<U> =
                    cryptarchia_ledger.with_genesis_sdp(&mantle_ledger.sdp, config);
                let state: Self = LedgerState { block_number: 0, cryptarchia_ledger, mantle_ledger };
                assert(is_seeded(&bare, &state.mantle_ledger.sdp, config, &state.cryptarchia_ledger));
                Ok((state, events))
            },
            Err(error) => Err(LedgerError::Mantle(error)),
        }
    }

    /// What has to be inferred about the stake before a block of `slot` is applied, if an epoch
    /// starts with it.
    pub fn stake_plan(&self, slot: Slot, config: &Config) -> (r: Option<StakePlan>)
        requires
            config.epoch_config.well_formed(),
            self.cryptarchia_ledger.slot < slot,
            config.epoch_config.epoch_of(slot) <= u32::MAX,
        ensures
            r == self.cryptarchia_ledger.plan_for(slot, &config.epoch_config),
    {
        self.cryptarchia_ledger.stake_plan(slot, config)
    }

    /// The slot of the last block.
    pub fn slot(&self) -> (r: Slot)
        ensures
            r == self.cryptarchia_ledger.slot,
    {
        self.cryptarchia_ledger.slot()
    }

    /// What is fixed for the current epoch.
    pub fn epoch_state(&self) -> (r: &EpochState<U>)
        ensures
            *r == self.cryptarchia_ledger.epoch_state,
    {
        self.cryptarchia_ledger.epoch_state()
    }

    /// What will be fixed for the next epoch, as far as it is known.
    pub fn next_epoch_state(&self) -> (r: &EpochState<U>)
        ensures
            *r == self.cryptarchia_ledger.next_epoch_state,
    {
        self.cryptarchia_ledger.next_epoch_state()
    }

    /// What is fixed for the epoch of `slot`.
    pub fn epoch_state_for_slot(&self, slot: Slot, config: &Config, stake: StakeOutcome) -> (r:
        Result<EpochState<U>, LedgerError>)
        requires
            config.epoch_config.well_formed(),
            config.epoch_config.reaches(config.epoch_config.epoch_of(slot) + 1),
            self.cryptarchia_ledger.well_formed(),
            self.cryptarchia_ledger.on_schedule(&config.epoch_config),
        ensures
            slot <= self.cryptarchia_ledger.slot ==> r == Err::<EpochState<U>, _>(
                LedgerError::InvalidSlot { parent: self.cryptarchia_ledger.slot, block: slot },
            ),
            slot > self.cryptarchia_ledger.slot ==> r is Ok && exists|
                state: cryptarchia::LedgerState<U>,
            | #[trigger]
                cryptarchia::is_epoch_step(
                    &self.cryptarchia_ledger,
                    slot,
                    &self.mantle_ledger.sdp,
                    config,
                    stake,
                    &state,
                ) && state.epoch_state == r->Ok_0,
    {
        self.cryptarchia_ledger.epoch_state_for_slot(slot, &self.mantle_ledger.sdp, config, stake)
    }

    /// The outputs that are not spent.
    pub fn latest_utxos(&self) -> (r: &UtxoTree<U>)
        ensures
            *r == self.cryptarchia_ledger.utxos,
    {
        self.cryptarchia_ledger.latest_utxos()
    }

    /// The outputs that can win in the current epoch.
    pub fn aged_utxos(&self) -> (r: &UtxoTree<U>)
        ensures
            *r == self.cryptarchia_ledger.epoch_state.utxos,
    {
        self.cryptarchia_ledger.aged_utxos()
    }

    /// The state that operations work on.
    pub fn mantle_ledger(&self) -> (r: &mantle::LedgerState<U::Hasher>)
        ensures
            *r == self.mantle_ledger,
    {
        &self.mantle_ledger
    }

    /// What the next transaction is built for.
    pub fn tx_context(&self) -> (r: TxContext)
        ensures
            r == (TxContext {
                channels: self.mantle_ledger.channels,
                gas_prices: self.prices(),
                leader_reward_amount: self.mantle_ledger.leaders.reward() as u64,
            }),
            r.leader_reward_amount == self.mantle_ledger.leaders.reward(),
    {
        TxContext {
            channels: self.mantle_ledger().channels().clone(),
            gas_prices: self.get_gas_prices(),
            leader_reward_amount: self.mantle_ledger().leader_reward_amount(),
        }
    }
}

impl<U: LeafExtractor<Utxo>> Clone for LedgerState<U> {
    fn clone(&self) -> (r: Self)
        ensures
            r == *self,
    {
        LedgerState {
            block_number: self.block_number,
            cryptarchia_ledger: self.cryptarchia_ledger.clone(),
            mantle_ledger: self.mantle_ledger.clone(),
        }
    }
}

/// Whether `after` is `before` with the declarations of `sdp` that are active in its epochs.
pub open spec fn is_seeded<U: LeafExtractor<Utxo>>(
    before: &cryptarchia::LedgerState<U>,
    sdp: &sdp::SdpLedger,
    config: &Config,
    after: &cryptarchia::LedgerState<U>,
) -> bool {
    let params = config.sdp_config.service_params;
    &&& sdp::is_active_set(
        sdp,
        before.epoch_state.epoch,
        &params,
        &after.epoch_state.active_declarations,
    )
    &&& sdp::is_active_set(
        sdp,
        before.next_epoch_state.epoch,
        &params,
        &after.next_epoch_state.active_declarations,
    )
    &&& *after == (cryptarchia::LedgerState {
        epoch_state: EpochState {
            active_declarations: after.epoch_state.active_declarations,
            ..before.epoch_state
        },
        next_epoch_state: EpochState {
            active_declarations: after.next_epoch_state.active_declarations,
            ..before.next_epoch_state
        },
        ..*before
    })
}

/// Whether `state` is the state at genesis.
pub open spec fn is_genesis_state<U: LeafExtractor<Utxo>>(
    outputs: Seq<Utxo>,
    inscription: ChannelExecution,
    declarations: Seq<(ServiceType, Result<SdpExecution, OpFailure>)>,
    config: &Config,
    nonce: Fr,
    lottery: (Fr, Fr),
    prices: GasPrices,
    state: &LedgerState<U>,
) -> bool {
    &&& state.block_number == 0
    &&& exists|bare: cryptarchia::LedgerState<U>|
        cryptarchia::is_genesis(outputs, config, nonce, lottery, prices, &bare)
            && #[trigger] is_seeded(
            &bare,
            &state.mantle_ledger.sdp,
            config,
            &state.cryptarchia_ledger,
        )
    &&& state.mantle_ledger.channels == inscription.channels
    &&& mantle::is_genesis_leaders(&state.mantle_ledger.leaders)
    &&& state.mantle_ledger.sdp.blend_network matches Some(service)
    &&& service.rewards.target() is None
    &&& service.rewards.income() == 0
    &&& service.rewards.current() == current_epoch::current_state(
        &state.cryptarchia_ledger.epoch_state,
        &config.sdp_config.service_rewards_params.blend,
    )
    &&& if declarations.len() == 0 {
        &&& service.declarations@.dom().is_empty()
        &&& state.mantle_ledger.sdp.locked_notes@.dom().is_empty()
    } else {
        &&& service.declarations == declarations.last().1->Ok_0.declarations
        &&& state.mantle_ledger.sdp.locked_notes == declarations.last().1->Ok_0.locked_notes
    }
}

/// The states of the ledger after the blocks that matter.
#[verifier::reject_recursive_types(U)]
pub struct Ledger<U: LeafExtractor<Utxo>> {
    pub states: TrieMap<LedgerState<U>>,
    pub config: Config,
}

/// What is computed outside when a block is applied.
#[verifier::reject_recursive_types(U)]
pub struct BlockInputs<U: LeafExtractor<Utxo>> {
    /// What is computed for the header.
    pub header: HeaderInputs,
    /// Where the outputs come from that pay the rewards which the header makes due.
    pub reward_origins: Vec<RewardOrigin>,
    /// The transactions, with what their operations lead to.
    pub txs: Vec<TxRun<U>>,
}

/// Whether `r` is what comes of a block that is applied to `before`.
pub open spec fn is_update_result<U: LeafExtractor<Utxo>, P: LeaderProof>(
    before: &LedgerState<U>,
    slot: Slot,
    proof: &P,
    config: &Config,
    inputs: BlockInputs<U>,
    r: Result<(LedgerState<U>, Seq<Event>), LedgerError>,
) -> bool {
    exists|header: Result<(LedgerState<U>, PendingHeaderEffect), LedgerError>| #[trigger]
        is_header_result(before, slot, proof, config, inputs.header, header) && match header {
            Err(error) => r == Err::<(LedgerState<U>, Seq<Event>), _>(error),
            Ok((state, effect)) => is_block_result(&state, &effect, config, inputs, r),
        }
}

/// Whether `r` is what comes of a block whose header has led to `state` and `effect`.
pub open spec fn is_block_result<U: LeafExtractor<Utxo>>(
    state: &LedgerState<U>,
    effect: &PendingHeaderEffect,
    config: &Config,
    inputs: BlockInputs<U>,
    r: Result<(LedgerState<U>, Seq<Event>), LedgerError>,
) -> bool {
    let utxos = sdp::reward_utxos(effect.rewards@, inputs.reward_origins@);
    exists|paid: LedgerState<U>, done: Result<(LedgerState<U>, Seq<TxEvent>), LedgerError>|
        is_paid(state, utxos, &paid) && #[trigger] contents::is_contents_result(
            &paid,
            config,
            inputs.txs@,
            done,
        ) && r == match done {
            Err(error) => Err(error),
            Ok((after, tx_events)) => Ok::<_, LedgerError>(
                (after, block_events(header_events(effect, inputs.reward_origins@), tx_events)),
            ),
        }
}

impl<U: LeafExtractor<Utxo>> LedgerState<U> {
    /// Whether an epoch starts with a block of `slot`.
    pub open spec fn starts_epoch(&self, slot: Slot, config: &Config) -> bool {
        config.epoch_config.epoch_of(slot) != config.epoch_config.epoch_of(
            self.cryptarchia_ledger.slot,
        )
    }

    /// The stake that what a block of `slot` earns depends on.
    pub open spec fn stake_at(&self, slot: Slot, config: &Config, stake: StakeOutcome) -> Value {
        if self.starts_epoch(slot, config) {
            stake.total_stake
        } else {
            self.cryptarchia_ledger.epoch_state.total_stake
        }
    }

    /// The keys that a block of `slot` makes rewards due for.
    pub open spec fn due_keys(&self, slot: Slot, config: &Config) -> Set<ZkPublicKey> {
        match self.mantle_ledger.sdp.blend_network {
            Some(service) => if slot > self.cryptarchia_ledger.slot && self.starts_epoch(
                slot,
                config,
            ) {
                target_epoch::proven_keys(service.rewards.submitted())
            } else {
                Set::empty()
            },
            None => Set::empty(),
        }
    }

    /// Whether a block of `slot` can be applied: the rewards that it makes due can be paid,
    /// there is room for the outputs that pay them, and what the block earns, if it can be
    /// represented, can be added to what was earned in the epoch before.
    pub open spec fn can_apply_block(
        &self,
        slot: Slot,
        config: &Config,
        inputs: BlockInputs<U>,
    ) -> bool {
        &&& self.can_apply_header(slot, config)
        &&& sdp::covers(inputs.reward_origins@, self.due_keys(slot, config))
        &&& self.cryptarchia_ledger.utxos.filled() + inputs.reward_origins@.len() <= UtxoTree::<
            U,
        >::capacity()
        &&& forall|i: int, j: int|
            0 <= i < inputs.txs@.len() && 0 <= j < inputs.txs@[i].steps@.len() ==> (
            #[trigger] inputs.txs@[i].steps@[j]).well_formed()
        &&& contents::settled(self.prices(), inputs.txs@) matches Ok(totals) ==> {
            let burned = totals.fee_burned;
            let stake = self.stake_at(slot, config, inputs.header.stake);
            let sum = cryptarchia::sum_of(
                self.cryptarchia_ledger.fee_window@.update(
                    (self.block_number + 1) % 120,
                    burned,
                ),
            );
            let leader = rewards::leader_reward(sum, stake, burned) + totals.fee_tip;
            let blend = rewards::blend_reward(sum, stake, burned);
            let pending = if self.starts_epoch(slot, config) {
                0
            } else {
                self.mantle_ledger.leaders.pending_rewards as int
            };
            let income = if self.starts_epoch(slot, config) {
                0
            } else {
                self.mantle_ledger.sdp.blend_income()
            };
            leader <= u64::MAX ==> pending + leader <= u64::MAX && income + blend <= u64::MAX
        }
    }

    /// Applies a block.
    fn try_update<P: LeaderProof>(
        self,
        slot: Slot,
        proof: &P,
        config: &Config,
        inputs: BlockInputs<U>,
    ) -> (r: Result<(Self, Vec<Event>), LedgerError>)
        requires
            self.well_formed(),
            self.on_schedule(config),
            self.can_apply_block(slot, config, inputs),
        ensures
            is_update_result(&self, slot, proof, config, inputs, reported(r)),
            r matches Ok((state, _)) ==> state.well_formed() && state.on_schedule(config),
    {
        let ghost given = inputs;
        let result: Result<(Self, PendingHeaderEffect), LedgerError> = self.try_apply_header(
            slot,
            proof,
            config,
            inputs.header,
        );
        let ghost header = result;
        assert(is_header_result(&self, slot, proof, config, given.header, header));
        let (state, effect): (Self, PendingHeaderEffect) = match result {
            Ok(applied) => applied,
            Err(error) => return Err(error),
        };
        let ghost moved = state;
        let ghost due = effect;
        proof {
            lemma_header_step(&self, slot, proof, config, given.header, moved, effect);
            lemma_due_keys(&self, slot, proof, config, given.header, moved, effect);
        }
        let (paid, reported): (Self, Vec<HeaderEvent>) = state.distribute_rewards(
            effect,
            &inputs.reward_origins,
        );
        proof {
            contents::lemma_settled_price(self.prices(), paid.prices(), given.txs@);
        }
        let done: Result<(Self, Vec<TxEvent>), LedgerError> = paid.try_apply_contents(
            config,
            inputs.txs,
        );
        let ghost finished = contents::contents(done);
        assert(contents::is_contents_result(&paid, config, given.txs@, finished));
        match done {
            Ok((after, tx_events)) => {
                proof {
                    lemma_contents_keep_schedule(&paid, config, given.txs@, finished);
                }
                let ghost first = reported@;
                let ghost rest = tx_events@;
                let events: Vec<Event> = collect_events(reported, tx_events);
                assert(events@ == block_events(first, rest));
                assert(is_block_result(&moved, &due, config, given, Ok((after, events@))));
                Ok((after, events))
            },
            Err(error) => {
                assert(is_block_result(&moved, &due, config, given, Err(error)));
                Err(error)
            },
        }
    }
}

/// What `r` holds, with its events as a sequence.
pub open spec fn reported<U: LeafExtractor<Utxo>>(
    r: Result<(LedgerState<U>, Vec<Event>), LedgerError>,
) -> Result<(LedgerState<U>, Seq<Event>), LedgerError> {
    match r {
        Ok((state, events)) => Ok((state, events@)),
        Err(error) => Err(error),
    }
}

/// A header keeps the fees, the outputs and the price of execution gas, and counts one block.
/// At the start of an epoch nothing was earned in it.
pub proof fn lemma_header_step<U: LeafExtractor<Utxo>, P: LeaderProof>(
    before: &LedgerState<U>,
    slot: Slot,
    proof: &P,
    config: &Config,
    inputs: HeaderInputs,
    after: LedgerState<U>,
    effect: PendingHeaderEffect,
)
    requires
        before.on_schedule(config),
        before.can_apply_header(slot, config),
        is_header_result(before, slot, proof, config, inputs, Ok((after, effect))),
    ensures
        after.block_number == before.block_number + 1,
        after.cryptarchia_ledger.slot == slot > before.cryptarchia_ledger.slot,
        after.cryptarchia_ledger.utxos == before.cryptarchia_ledger.utxos,
        after.cryptarchia_ledger.fee_window == before.cryptarchia_ledger.fee_window,
        after.cryptarchia_ledger.execution_base_fee
            == before.cryptarchia_ledger.execution_base_fee,
        after.cryptarchia_ledger.average_execution_gas
            == before.cryptarchia_ledger.average_execution_gas,
        after.cryptarchia_ledger.epoch_state.total_stake == before.stake_at(
            slot,
            config,
            inputs.stake,
        ),
        after.mantle_ledger.leaders.pending_rewards == (if before.starts_epoch(slot, config) {
            0
        } else {
            before.mantle_ledger.leaders.pending_rewards
        }),
        after.mantle_ledger.sdp.blend_income() == (if before.starts_epoch(slot, config) {
            0
        } else {
            before.mantle_ledger.sdp.blend_income()
        }),
{
    cryptarchia::lemma_epochs_ordered(&config.epoch_config, before.cryptarchia_ledger.slot, slot);
}

/// The rewards that a header makes due are for the keys of the providers that have proven
/// their activity, where an epoch starts.
pub proof fn lemma_due_keys<U: LeafExtractor<Utxo>, P: LeaderProof>(
    before: &LedgerState<U>,
    slot: Slot,
    proof: &P,
    config: &Config,
    inputs: HeaderInputs,
    after: LedgerState<U>,
    effect: PendingHeaderEffect,
)
    requires
        before.on_schedule(config),
        before.can_apply_header(slot, config),
        is_header_result(before, slot, proof, config, inputs, Ok((after, effect))),
    ensures
        effect.rewards@.dom() == before.due_keys(slot, config),
{
    cryptarchia::lemma_epochs_ordered(&config.epoch_config, before.cryptarchia_ledger.slot, slot);
    if let Some(service) = before.mantle_ledger.sdp.blend_network {
        if before.starts_epoch(slot, config) {
            let rewards = service.rewards;
            match rewards.target() {
                Some(target) => {
                    target_epoch::lemma_payout_keys(
                        rewards.submitted(),
                        target.epoch_income,
                        effect.rewards@,
                    );
                },
                None => {
                    assert(target_epoch::proven_keys(rewards.submitted()) =~= Set::empty());
                },
            }
        }
    }
    assert(effect.rewards@.dom() =~= before.due_keys(slot, config));
}

/// The contents of a block do not change the epoch.
proof fn lemma_contents_keep_schedule<U: LeafExtractor<Utxo>>(
    before: &LedgerState<U>,
    config: &Config,
    txs: Seq<TxRun<U>>,
    r: Result<(LedgerState<U>, Seq<TxEvent>), LedgerError>,
)
    requires
        before.on_schedule(config),
        contents::is_contents_result(before, config, txs, r),
    ensures
        r matches Ok((after, _)) ==> after.on_schedule(config),
{
    if let Ok((after, reported)) = r {
        let run = choose|run: contents::BlockProgress<U>| #[trigger]
            contents::is_block_run(before, config, txs, run) && match run {
                Err(error) => r == Err::<(LedgerState<U>, Seq<TxEvent>), _>(error),
                Ok((state, totals, events)) => match r {
                    Ok((after, reported)) => reported == events && contents::is_block_end(
                        &state,
                        totals,
                        Ok(after),
                    ),
                    Err(error) => contents::is_block_end(&state, totals, Err(error)),
                },
            };
        let (state, totals, events) = run->Ok_0;
        contents::lemma_block_run(before, config, txs, state, totals, events);
    }
}

/// Whether `r` is what comes of a block that is applied to the state after its parent.
pub open spec fn is_prepared<U: LeafExtractor<Utxo>, P: LeaderProof>(
    ledger: &Ledger<U>,
    id: HeaderId,
    parent_id: HeaderId,
    slot: Slot,
    proof: &P,
    inputs: BlockInputs<U>,
    r: Result<(HeaderId, LedgerState<U>, Vec<Event>), LedgerError>,
) -> bool {
    if ledger.states@.dom().contains(parent_id) {
        match r {
            Ok((block, state, events)) => {
                &&& block == id
                &&& state.well_formed()
                &&& state.on_schedule(&ledger.config)
                &&& is_update_result(
                    &ledger.states@[parent_id],
                    slot,
                    proof,
                    &ledger.config,
                    inputs,
                    Ok((state, events@)),
                )
            },
            Err(error) => is_update_result(
                &ledger.states@[parent_id],
                slot,
                proof,
                &ledger.config,
                inputs,
                Err(error),
            ),
        }
    } else {
        r == Err::<(HeaderId, LedgerState<U>, Vec<Event>), _>(
            LedgerError::ParentNotFound(parent_id),
        )
    }
}

impl<U: LeafExtractor<Utxo>> Ledger<U> {
    /// Makes a ledger with the state after one block.
    pub fn new(id: HeaderId, state: LedgerState<U>, config: Config) -> (r: Self)
        ensures
            r.states@ == Map::<HeaderId, LedgerState<U>>::empty().insert(id, state),
            r.config == config,
    {
        let mut states: TrieMap<LedgerState<U>> = TrieMap::new();
        states.insert_mut(id, state);
        Ledger { states, config }
    }

    /// Applies a block to the state after its parent. The new state is not remembered before
    /// [`Self::commit_update`] is called.
    pub fn prepare_update<P: LeaderProof>(
        &self,
        id: HeaderId,
        parent_id: HeaderId,
        slot: Slot,
        proof: &P,
        inputs: BlockInputs<U>,
    ) -> (r: Result<(HeaderId, LedgerState<U>, Vec<Event>), LedgerError>)
        requires
            self.states@.dom().contains(parent_id) ==> {
                &&& self.states@[parent_id].well_formed()
                &&& self.states@[parent_id].on_schedule(&self.config)
                &&& self.states@[parent_id].can_apply_block(slot, &self.config, inputs)
            },
        ensures
            is_prepared(self, id, parent_id, slot, proof, inputs, r),
    {
        match self.states.get(&parent_id) {
            Some(parent_state) => match parent_state.clone().try_update(
                slot,
                proof,
                &self.config,
                inputs,
            ) {
                Ok((state, events)) => Ok((id, state, events)),
                Err(error) => Err(error),
            },
            None => Err(LedgerError::ParentNotFound(parent_id)),
        }
    }

    /// Remembers the state after a block.
    pub fn commit_update(&mut self, id: HeaderId, state: LedgerState<U>)
        ensures
            final(self).states@ == old(self).states@.insert(id, state),
            final(self).config == old(self).config,
    {
        self.states.insert_mut(id, state);
    }

    /// The state after a block, if it is remembered.
    pub fn state(&self, id: &HeaderId) -> (r: Option<&LedgerState<U>>)
        ensures
            r == (if self.states@.dom().contains(*id) {
                Some(&self.states@[*id])
            } else {
                None
            }),
    {
        self.states.get(id)
    }

    /// The parameters.
    pub fn config(&self) -> (r: &Config)
        ensures
            *r == self.config,
    {
        &self.config
    }

    /// Forgets the state after a block, and tells whether it was remembered.
    pub fn prune_state_at(&mut self, block: &HeaderId) -> (r: bool)
        ensures
            final(self).states@ == old(self).states@.remove(*block),
            final(self).config == old(self).config,
            r == old(self).states@.dom().contains(*block),
    {
        self.states.remove_mut(block)
    }
}

} // verus!
