//! The ledger: a state for each block.
use vstd::prelude::*;

use crate::collections::trie_map::TrieMap;
use crate::config::EpochConfig;
use crate::cryptarchia::epoch::UtxoTree;
use crate::mantle::leader::VOUCHERS_HEIGHT;
use crate::merkle::tree::LeafExtractor;
use crate::mmr;
use crate::session::config::Config;
use crate::session::cryptarchia;
use crate::session::cryptarchia::{EpochState, LedgerTx};
use crate::session::error::LedgerError;
use crate::session::leader_proof::LeaderProof;
use crate::session::mantle;
use crate::session::mantle::{Op, OpContext, OpProof};
use crate::session::membership::{FinalizedDeclarationState, Sessions};
use crate::session::services::ProviderInfo;
use crate::types::{
    Balance, BlockNumber, DeclarationId, Epoch, Fr, HeaderId, NoteId, OpFailure, ServiceType, Slot,
    TxHash, Utxo, VoucherCm, VoucherNullifier,
};

verus! {

/// A transaction: its inputs and outputs, and its operations.
pub struct TxInput {
    pub tx_hash: TxHash,
    pub ledger_tx: LedgerTx,
    /// Whether the keys of the inputs have signed.
    pub proof_valid: bool,
    pub ops: Vec<(Op, Option<OpProof>)>,
    /// What the gas of the transaction costs.
    pub gas_cost: u64,
}

/// The state of the ledger after a block.
#[verifier::reject_recursive_types(U)]
pub struct LedgerState<U: LeafExtractor<Utxo>> {
    pub block_number: BlockNumber,
    pub cryptarchia_ledger: cryptarchia::LedgerState<U>,
    pub mantle_ledger: mantle::LedgerState<U::Hasher>,
}

/// The nullifiers of the claims among `ops`.
pub open spec fn claimed(ops: Seq<(Op, Option<OpProof>)>) -> Set<VoucherNullifier>
    decreases ops.len(),
{
    if ops.len() == 0 {
        Set::empty()
    } else {
        match ops.last().0 {
            Op::LeaderClaim { voucher_nullifier, .. } => claimed(ops.drop_last()).insert(
                voucher_nullifier,
            ),
            _ => claimed(ops.drop_last()),
        }
    }
}

/// The nullifiers of the claims in `txs`.
pub open spec fn claimed_in(txs: Seq<TxInput>) -> Set<VoucherNullifier>
    decreases txs.len(),
{
    if txs.len() == 0 {
        Set::empty()
    } else {
        claimed_in(txs.drop_last()).union(claimed(txs.last().ops@))
    }
}

/// The declarations among `ops`.
pub open spec fn declared(ops: Seq<(Op, Option<OpProof>)>) -> Set<DeclarationId>
    decreases ops.len(),
{
    if ops.len() == 0 {
        Set::empty()
    } else {
        match ops.last().0 {
            Op::SdpDeclare(op) => declared(ops.drop_last()).insert(op.declaration_id),
            _ => declared(ops.drop_last()),
        }
    }
}

/// The declarations in `txs`.
pub open spec fn declared_in(txs: Seq<TxInput>) -> Set<DeclarationId>
    decreases txs.len(),
{
    if txs.len() == 0 {
        Set::empty()
    } else {
        declared_in(txs.drop_last()).union(declared(txs.last().ops@))
    }
}

/// Whether there is room for the outputs of `txs` in a tree with `filled` of its slots filled.
pub open spec fn have_room(filled: int, capacity: int, txs: Seq<TxInput>) -> bool
    decreases txs.len(),
{
    txs.len() > 0 ==> {
        let after = filled + txs[0].ledger_tx.outputs@.len() - txs[0].ledger_tx.inputs@.len();
        after <= capacity && have_room(after, capacity, txs.drop_first())
    }
}

/// Why a transaction with this balance is rejected, if it is. It has to pay what its gas costs,
/// and no more.
pub open spec fn balance_failure(balance: int, gas_cost: u64) -> Option<LedgerError> {
    if balance > i128::MAX {
        Some(LedgerError::Overflow)
    } else if balance < gas_cost {
        Some(LedgerError::InsufficientBalance)
    } else if balance > gas_cost {
        Some(LedgerError::UnbalancedTransaction)
    } else {
        None
    }
}

/// Whether `r` is what comes of the operations of a transaction whose inputs and outputs have
/// led to `consensus` and left `balance`.
pub open spec fn is_ops_result<U: LeafExtractor<Utxo>>(
    before: &LedgerState<U>,
    config: &Config,
    tx: TxInput,
    consensus: cryptarchia::LedgerState<U>,
    balance: int,
    run: mantle::Progress<U::Hasher>,
    r: Result<LedgerState<U>, LedgerError>,
) -> bool {
    &&& mantle::is_run(
        &before.mantle_ledger,
        config,
        consensus.utxos.entries(),
        OpContext { block_number: before.block_number, tx_hash: tx.tx_hash },
        tx.ops@,
        run,
    )
    &&& match run {
        Err(error) => r == Err::<LedgerState<U>, _>(LedgerError::Mantle(error)),
        Ok((mantle_ledger, more)) => match balance_failure(balance + more, tx.gas_cost) {
            Some(error) => r == Err::<LedgerState<U>, _>(error),
            None => r == Ok::<_, LedgerError>(
                LedgerState {
                    block_number: before.block_number,
                    cryptarchia_ledger: consensus,
                    mantle_ledger,
                },
            ),
        },
    }
}

/// Whether `r` is what comes of a transaction.
pub open spec fn is_tx_result<U: LeafExtractor<Utxo>>(
    before: &LedgerState<U>,
    config: &Config,
    tx: TxInput,
    r: Result<LedgerState<U>, LedgerError>,
) -> bool {
    let entries = before.cryptarchia_ledger.utxos.entries();
    let inputs = tx.ledger_tx.inputs@;
    let outputs = tx.ledger_tx.outputs@;
    match cryptarchia::tx_failure(
        entries,
        before.mantle_ledger.locked_notes@.dom(),
        inputs,
        outputs,
        tx.proof_valid,
    ) {
        Some(error) => r == Err::<LedgerState<U>, _>(error),
        None => exists|
            consensus: cryptarchia::LedgerState<U>,
            run: mantle::Progress<U::Hasher>,
        |
            cryptarchia::is_applied(before.cryptarchia_ledger, tx.ledger_tx, consensus)
                && #[trigger] is_ops_result(
                before,
                config,
                tx,
                consensus,
                cryptarchia::input_value(entries, inputs) - cryptarchia::output_value(outputs),
                run,
                r,
            ),
    }
}

/// Whether `r` is what comes of the next transaction after `mid`.
pub open spec fn is_next<U: LeafExtractor<Utxo>>(
    config: &Config,
    mid: Result<LedgerState<U>, LedgerError>,
    tx: TxInput,
    r: Result<LedgerState<U>, LedgerError>,
) -> bool {
    match mid {
        Err(error) => r == Err::<LedgerState<U>, _>(error),
        Ok(state) => is_tx_result(&state, config, tx, r),
    }
}

/// Whether `r` is what comes of the transactions of a block, one after the other, until one of
/// them is rejected.
pub open spec fn is_block_run<U: LeafExtractor<Utxo>>(
    before: &LedgerState<U>,
    config: &Config,
    txs: Seq<TxInput>,
    r: Result<LedgerState<U>, LedgerError>,
) -> bool
    decreases txs.len(),
{
    if txs.len() == 0 {
        r == Ok::<_, LedgerError>(*before)
    } else {
        exists|mid: Result<LedgerState<U>, LedgerError>|
            is_block_run(before, config, txs.drop_last(), mid) && #[trigger] is_next(
                config,
                mid,
                txs.last(),
                r,
            )
    }
}

/// Whether `r` is what comes of the contents of a block.
pub open spec fn is_contents_result<U: LeafExtractor<Utxo>>(
    before: &LedgerState<U>,
    config: &Config,
    txs: Seq<TxInput>,
    outcomes: Map<DeclarationId, Result<FinalizedDeclarationState, OpFailure>>,
    r: Result<LedgerState<U>, LedgerError>,
) -> bool {
    exists|run: Result<LedgerState<U>, LedgerError>| #[trigger]
        is_block_run(before, config, txs, run) && match run {
            Err(error) => r == Err::<LedgerState<U>, _>(error),
            Ok(state) => match r {
                Ok(after) => {
                    &&& after == (LedgerState {
                        mantle_ledger: mantle::LedgerState {
                            sdp: after.mantle_ledger.sdp,
                            ..state.mantle_ledger
                        },
                        ..state
                    })
                    &&& mantle::is_membership_update(
                        &state.mantle_ledger.sdp,
                        state.block_number,
                        config,
                        outcomes,
                        Ok(after.mantle_ledger.sdp),
                    )
                },
                Err(error) => error matches LedgerError::Mantle(mantle::Error::Sdp(failure))
                    && mantle::is_membership_update(
                    &state.mantle_ledger.sdp,
                    state.block_number,
                    config,
                    outcomes,
                    Err(failure),
                ),
            },
        }
}

/// Whether `r` is what comes of the header of a block.
pub open spec fn is_header_result<U: LeafExtractor<Utxo>, P: LeaderProof>(
    before: &LedgerState<U>,
    slot: Slot,
    proof: &P,
    voucher: VoucherCm,
    config: &Config,
    nonce: Fr,
    r: Result<LedgerState<U>, LedgerError>,
) -> bool {
    match cryptarchia::header_result(
        before.cryptarchia_ledger,
        slot,
        proof,
        &config.epoch_config,
        nonce,
    ) {
        Err(error) => r == Err::<LedgerState<U>, _>(error),
        Ok(cryptarchia_ledger) => {
            let leaders = before.mantle_ledger.leaders;
            &&& r matches Ok(after)
            &&& after.block_number == before.block_number + 1
            &&& after.cryptarchia_ledger == cryptarchia_ledger
            &&& after.mantle_ledger == (mantle::LedgerState {
                leaders: after.mantle_ledger.leaders,
                ..before.mantle_ledger
            })
            &&& after.mantle_ledger.leaders == (crate::session::leader::LeaderState {
                vouchers: after.mantle_ledger.leaders.vouchers,
                ..leaders.at_epoch(config.epoch_config.epoch_of(slot) as u32)
            })
            &&& after.mantle_ledger.leaders.vouchers.peaks() == leaders.vouchers.peaks_with(
                voucher,
            )
            &&& after.mantle_ledger.leaders.vouchers.leaf_count() == leaders.vouchers.leaf_count()
                + 1
        },
    }
}

/// Operations change nothing of the state of leaders but what is claimed, and add no
/// declaration but those that are among them.
pub proof fn lemma_run<H: crate::merkle::hasher::MerkleHasher>(
    before: &mantle::LedgerState<H>,
    config: &Config,
    utxos: Map<NoteId, (Utxo, usize)>,
    context: OpContext,
    ops: Seq<(Op, Option<OpProof>)>,
    after: mantle::LedgerState<H>,
    balance: Balance,
)
    requires
        mantle::is_run(before, config, utxos, context, ops, Ok((after, balance))),
    ensures
        after.leaders.nfs@ == before.leaders.nfs@.union(claimed(ops)),
        after.leaders.epoch == before.leaders.epoch,
        after.leaders.vouchers == before.leaders.vouchers,
        after.leaders.claimable_vouchers_root == before.leaders.claimable_vouchers_root,
        after.leaders.n_claimable_vouchers == before.leaders.n_claimable_vouchers,
        after.sdp.active_sessions == before.sdp.active_sessions,
        after.sdp.forming_sessions == before.sdp.forming_sessions,
        after.sdp.declarations@.dom().subset_of(
            before.sdp.declarations@.dom().union(declared(ops)),
        ),
    decreases ops.len(),
{
    if ops.len() == 0 {
        assert(after.leaders.nfs@ =~= before.leaders.nfs@.union(claimed(ops)));
    } else {
        let r: mantle::Progress<H> = Ok((after, balance));
        let mid = choose|mid: mantle::Progress<H>|
            mantle::is_run(before, config, utxos, context, ops.drop_last(), mid)
                && #[trigger] mantle::is_next(config, utxos, context, mid, ops.last(), r);
        let (state, mid_balance) = mid->Ok_0;
        lemma_run(before, config, utxos, context, ops.drop_last(), state, mid_balance);
        assert(after.leaders.nfs@ =~= before.leaders.nfs@.union(claimed(ops)));
        assert(after.sdp.declarations@.dom().subset_of(
            before.sdp.declarations@.dom().union(declared(ops)),
        ));
    }
}

proof fn lemma_block_failed<U: LeafExtractor<Utxo>>(
    before: &LedgerState<U>,
    config: &Config,
    txs: Seq<TxInput>,
    n: int,
    r: Result<LedgerState<U>, LedgerError>,
)
    requires
        0 <= n <= txs.len(),
        is_block_run(before, config, txs.take(n), r),
        r is Err,
    ensures
        is_block_run(before, config, txs, r),
    decreases txs.len() - n,
{
    if n == txs.len() {
        assert(txs.take(n) =~= txs);
    } else {
        assert(txs.take(n + 1).drop_last() =~= txs.take(n));
        assert(is_next(config, r, txs.take(n + 1).last(), r));
        lemma_block_failed(before, config, txs, n + 1, r);
    }
}

impl<U: LeafExtractor<Utxo>> LedgerState<U> {
    /// Whether the parts are well formed.
    pub open spec fn well_formed(&self) -> bool {
        &&& self.cryptarchia_ledger.well_formed()
        &&& self.mantle_ledger.well_formed()
        &&& self.mantle_ledger.sdp.well_formed()
    }

    /// Whether all parts are in the epoch of the last block.
    pub open spec fn on_schedule(&self, config: &EpochConfig) -> bool {
        &&& self.cryptarchia_ledger.on_schedule(config)
        &&& self.mantle_ledger.leaders.epoch == self.cryptarchia_ledger.epoch_state.epoch
    }

    /// Whether the header of a block of `slot` can be applied: epochs and blocks can be counted,
    /// and there is room for one more voucher.
    pub open spec fn can_apply_header(&self, slot: Slot, config: &EpochConfig) -> bool {
        &&& config.well_formed()
        &&& config.reaches(config.epoch_of(slot) + 1)
        &&& self.block_number < u64::MAX
        &&& self.mantle_ledger.leaders.vouchers.leaf_count()
            < self.mantle_ledger.leaders.vouchers.max_leaves()
    }

    /// Whether no claim of the transaction is accepted when more vouchers were claimed than there
    /// are. That matters only if its inputs and outputs are accepted.
    pub open spec fn can_claim(&self, config: &Config, tx: TxInput) -> bool {
        cryptarchia::tx_failure(
            self.cryptarchia_ledger.utxos.entries(),
            self.mantle_ledger.locked_notes@.dom(),
            tx.ledger_tx.inputs@,
            tx.ledger_tx.outputs@,
            tx.proof_valid,
        ) is None ==> forall|consensus: cryptarchia::LedgerState<U>| #[trigger]
            cryptarchia::is_applied(self.cryptarchia_ledger, tx.ledger_tx, consensus)
                ==> self.mantle_ledger.can_claim(
                config,
                consensus.utxos.entries(),
                OpContext { block_number: self.block_number, tx_hash: tx.tx_hash },
                tx.ops@,
            )
    }

    /// Whether no claim among `txs` is accepted when more vouchers were claimed than there are.
    /// Only transactions that are reached matter.
    pub open spec fn claims_fit(&self, config: &Config, txs: Seq<TxInput>) -> bool {
        forall|n: int, state: LedgerState<U>|
            0 <= n < txs.len() && #[trigger] is_block_run(self, config, txs.take(n), Ok(state))
                ==> state.can_claim(config, txs[n])
    }

    /// Whether `known` has each declaration that there is after `txs`, if all of them are applied.
    pub open spec fn are_known(
        &self,
        config: &Config,
        txs: Seq<TxInput>,
        known: Set<DeclarationId>,
    ) -> bool {
        forall|state: LedgerState<U>| #[trigger]
            is_block_run(self, config, txs, Ok(state))
                ==> state.mantle_ledger.sdp.declarations@.dom().subset_of(known)
    }

    /// Whether the contents of a block can be applied: there is room for its outputs, no voucher
    /// is claimed too often, and of each declaration it is known what its state amounts to.
    pub open spec fn can_apply_contents(
        &self,
        config: &Config,
        txs: Seq<TxInput>,
        outcomes: Map<DeclarationId, Result<FinalizedDeclarationState, OpFailure>>,
    ) -> bool {
        &&& config.service_params.well_formed()
        &&& have_room(
            self.cryptarchia_ledger.utxos.filled() as int,
            UtxoTree::<U>::capacity() as int,
            txs,
        )
        &&& self.claims_fit(config, txs)
        &&& self.are_known(config, txs, outcomes.dom())
    }

    /// Applies the header of a block of `slot`, which carries `voucher`. The nonce of the ledger
    /// after the block is `nonce`.
    pub fn try_apply_header<P: LeaderProof>(
        self,
        slot: Slot,
        proof: &P,
        voucher: VoucherCm,
        config: &Config,
        nonce: Fr,
    ) -> (r: Result<Self, LedgerError>)
        requires
            self.well_formed(),
            self.on_schedule(&config.epoch_config),
            self.can_apply_header(slot, &config.epoch_config),
        ensures
            is_header_result(&self, slot, proof, voucher, config, nonce, r),
            r matches Ok(state) ==> state.well_formed() && state.on_schedule(&config.epoch_config),
    {
        let cryptarchia_ledger: cryptarchia::LedgerState<U> =
            match self.cryptarchia_ledger.try_apply_header(
            slot,
            proof,
            &config.epoch_config,
            nonce,
        ) {
            Ok(state) => state,
            Err(error) => return Err(error),
        };
        proof {
            crate::cryptarchia::lemma_epochs_ordered(
                &config.epoch_config,
                self.cryptarchia_ledger.slot,
                slot,
            );
        }
        let epoch: Epoch = config.epoch_config.epoch(slot);
        match self.mantle_ledger.try_apply_header(epoch, voucher) {
            Ok(mantle_ledger) => Ok(
                LedgerState {
                    block_number: self.block_number + 1,
                    cryptarchia_ledger,
                    mantle_ledger,
                },
            ),
            Err(error) => Err(LedgerError::Mantle(error)),
        }
    }

    /// Applies a transaction.
    pub fn try_apply_tx(self, config: &Config, tx: TxInput) -> (r: Result<Self, LedgerError>)
        requires
            self.well_formed(),
            self.cryptarchia_ledger.utxos.filled() + tx.ledger_tx.outputs@.len()
                <= tx.ledger_tx.inputs@.len() + UtxoTree::<U>::capacity(),
            self.can_claim(config, tx),
        ensures
            is_tx_result(&self, config, tx, r),
            r matches Ok(state) ==> {
                &&& state.well_formed()
                &&& state.block_number == self.block_number
                &&& state.cryptarchia_ledger == (cryptarchia::LedgerState {
                    utxos: state.cryptarchia_ledger.utxos,
                    ..self.cryptarchia_ledger
                })
                &&& state.cryptarchia_ledger.utxos.filled()
                    == self.cryptarchia_ledger.utxos.filled() - tx.ledger_tx.inputs@.len()
                    + tx.ledger_tx.outputs@.len()
                &&& state.mantle_ledger.leaders.nfs@ == self.mantle_ledger.leaders.nfs@.union(
                    claimed(tx.ops@),
                )
                &&& state.mantle_ledger.leaders.epoch == self.mantle_ledger.leaders.epoch
                &&& state.mantle_ledger.leaders.vouchers == self.mantle_ledger.leaders.vouchers
                &&& state.mantle_ledger.leaders.claimable_vouchers_root
                    == self.mantle_ledger.leaders.claimable_vouchers_root
                &&& state.mantle_ledger.leaders.n_claimable_vouchers
                    == self.mantle_ledger.leaders.n_claimable_vouchers
                &&& state.mantle_ledger.sdp.declarations@.dom().subset_of(
                    self.mantle_ledger.sdp.declarations@.dom().union(declared(tx.ops@)),
                )
            },
    {
        let ghost given = tx;
        let ghost before = self;
        let ghost entries = self.cryptarchia_ledger.utxos.entries();
        let (cryptarchia_ledger, balance): (cryptarchia::LedgerState<U>, Balance) =
            match self.cryptarchia_ledger.try_apply_tx(
            self.mantle_ledger.locked_notes(),
            &tx.ledger_tx,
            tx.proof_valid,
        ) {
            Ok(applied) => applied,
            Err(error) => return Err(error),
        };
        let result: Result<(mantle::LedgerState<U::Hasher>, Balance), mantle::Error> =
            self.mantle_ledger.try_apply_ops(
            self.block_number,
            config,
            cryptarchia_ledger.latest_commitments(),
            tx.tx_hash,
            tx.ops,
        );
        let ghost run = result;
        let ghost context = OpContext { block_number: before.block_number, tx_hash: given.tx_hash };
        let (mantle_ledger, additional_balance): (mantle::LedgerState<U::Hasher>, Balance) =
            match result {
            Ok(applied) => applied,
            Err(error) => {
                let failure: LedgerError = LedgerError::Mantle(error);
                assert(is_ops_result(
                    &before,
                    config,
                    given,
                    cryptarchia_ledger,
                    balance as int,
                    run,
                    Err(failure),
                ));
                return Err(failure);
            },
        };
        proof {
            lemma_run(
                &before.mantle_ledger,
                config,
                cryptarchia_ledger.utxos.entries(),
                context,
                given.ops@,
                mantle_ledger,
                additional_balance,
            );
        }
        let failure: Option<LedgerError> = match balance.checked_add(additional_balance) {
            Some(total) => if total < tx.gas_cost as i128 {
                Some(LedgerError::InsufficientBalance)
            } else if total > tx.gas_cost as i128 {
                Some(LedgerError::UnbalancedTransaction)
            } else {
                None
            },
            None => Some(LedgerError::Overflow),
        };
        assert(failure == balance_failure(balance + additional_balance, given.gas_cost));
        match failure {
            Some(error) => {
                assert(is_ops_result(
                    &before,
                    config,
                    given,
                    cryptarchia_ledger,
                    balance as int,
                    run,
                    Err(error),
                ));
                Err(error)
            },
            None => {
                let state: Self = LedgerState {
                    block_number: self.block_number,
                    cryptarchia_ledger,
                    mantle_ledger,
                };
                assert(is_ops_result(
                    &before,
                    config,
                    given,
                    cryptarchia_ledger,
                    balance as int,
                    run,
                    Ok(state),
                ));
                Ok(state)
            },
        }
    }

    /// Applies the transactions of a block, one after the other, and brings the sessions up to
    /// date. What the state of each declaration amounts to then is in `outcomes`.
    pub fn try_apply_contents(
        self,
        config: &Config,
        txs: Vec<TxInput>,
        outcomes: &TrieMap<Result<FinalizedDeclarationState, OpFailure>>,
    ) -> (r: Result<Self, LedgerError>)
        requires
            self.well_formed(),
            self.can_apply_contents(config, txs@, outcomes@),
        ensures
            is_contents_result(&self, config, txs@, outcomes@, r),
            r matches Ok(state) ==> {
                &&& state.cryptarchia_ledger.well_formed()
                &&& state.mantle_ledger.well_formed()
                &&& self.block_number < u64::MAX - 1 ==> state.well_formed()
                &&& state.block_number == self.block_number
                &&& forall|epoch_config: EpochConfig| #[trigger]
                    self.on_schedule(&epoch_config) ==> state.on_schedule(&epoch_config)
            },
    {
        let ghost all = txs@;
        let ghost before = self;
        let ghost capacity = UtxoTree::<U>::capacity() as int;
        let mut state: Self = self;
        assert(all.take(0) =~= Seq::empty());
        assert(all.skip(0) =~= all);
        for tx in it: txs
            invariant
                it.seq() == all,
                all == txs@,
                before == self,
                capacity == UtxoTree::<U>::capacity(),
                state.well_formed(),
                state.block_number == before.block_number,
                state.cryptarchia_ledger == (cryptarchia::LedgerState {
                    utxos: state.cryptarchia_ledger.utxos,
                    ..before.cryptarchia_ledger
                }),
                state.mantle_ledger.leaders.epoch == before.mantle_ledger.leaders.epoch,
                have_room(
                    state.cryptarchia_ledger.utxos.filled() as int,
                    capacity,
                    all.skip(it.index() as int),
                ),
                before.claims_fit(config, all),
                is_block_run(&before, config, all.take(it.index() as int), Ok(state)),
        {
            let ghost i = it.index() as int;
            let ghost mid: Result<LedgerState<U>, LedgerError> = Ok(state);
            proof {
                assert(all[i] == tx);
                assert(all.take(i + 1).drop_last() =~= all.take(i));
                assert(all.take(i + 1).last() == tx);
                let rest = all.skip(i);
                assert(rest[0] == tx);
                assert(rest.drop_first() =~= all.skip(i + 1));
                assert(state.can_claim(config, all[i]));
            }
            match state.try_apply_tx(config, tx) {
                Ok(applied) => {
                    state = applied;
                    assert(is_next(config, mid, all.take(i + 1).last(), Ok(state)));
                },
                Err(failure) => {
                    proof {
                        let r: Result<LedgerState<U>, LedgerError> = Err(failure);
                        assert(is_next(config, mid, all.take(i + 1).last(), r));
                        lemma_block_failed(&before, config, all, i + 1, r);
                    }
                    return Err(failure);
                },
            }
        }
        assert(all.take(all.len() as int) =~= all);
        let ghost last: Result<LedgerState<U>, LedgerError> = Ok(state);
        assert(is_block_run(&before, config, all, last));
        match state.mantle_ledger.try_update_membership(state.block_number, config, outcomes) {
            Ok(mantle_ledger) => Ok(
                LedgerState {
                    block_number: state.block_number,
                    cryptarchia_ledger: state.cryptarchia_ledger,
                    mantle_ledger,
                },
            ),
            Err(error) => Err(LedgerError::Mantle(error)),
        }
    }

    /// Makes the state at genesis.
    pub fn from_utxos(utxos: &Vec<Utxo>) -> (r: Self)
        requires
            mmr::supported(VOUCHERS_HEIGHT),
            utxos@.len() <= UtxoTree::<U>::capacity(),
            crate::cryptarchia::value_of(utxos@, None) <= u64::MAX,
        ensures
            r.well_formed(),
            forall|config: EpochConfig| #[trigger] config.well_formed() ==> r.on_schedule(&config),
            r.block_number == 0,
            cryptarchia::is_genesis(
                utxos@,
                crate::merkle::hasher::empty_value(),
                r.cryptarchia_ledger,
            ),
            mantle::is_new(&r.mantle_ledger),
    {
        LedgerState {
            block_number: 0,
            cryptarchia_ledger: cryptarchia::LedgerState::from_utxos(utxos),
            mantle_ledger: mantle::LedgerState::new(),
        }
    }

    /// Makes the state at genesis from the genesis block. Its operations come without proofs.
    pub fn from_genesis_tx(
        tx: &LedgerTx,
        tx_hash: TxHash,
        ops: Vec<Op>,
        config: &Config,
        epoch_nonce: Fr,
    ) -> (r: Result<Self, LedgerError>)
        requires
            mmr::supported(VOUCHERS_HEIGHT),
            tx.outputs@.len() <= UtxoTree::<U>::capacity(),
            crate::cryptarchia::value_of(tx.outputs@, None) <= u64::MAX,
            tx.inputs@.len() == 0 ==> forall|bare: LedgerState<U>| #[trigger]
                is_bare(tx.outputs@, epoch_nonce, bare) ==> bare.mantle_ledger.can_claim(
                    config,
                    bare.cryptarchia_ledger.utxos.entries(),
                    OpContext { block_number: 0, tx_hash },
                    without_proofs(ops@),
                ),
        ensures
            if tx.inputs@.len() > 0 {
                r == Err::<Self, _>(LedgerError::InputInGenesis(tx.inputs@[0]))
            } else {
                exists|
                    bare: LedgerState<U>,
                    run: mantle::Progress<U::Hasher>,
                | #[trigger]
                    is_genesis_run(tx.outputs@, tx_hash, ops@, config, epoch_nonce, bare, run)
                        && match run {
                        Err(error) => r == Err::<Self, _>(LedgerError::Mantle(error)),
                        Ok((mantle_ledger, _)) => r == Ok::<_, LedgerError>(
                            LedgerState { mantle_ledger, ..bare },
                        ),
                    }
            },
            r matches Ok(state) ==> {
                &&& state.well_formed()
                &&& state.mantle_ledger.leaders.vouchers.peaks() == Seq::<mmr::Root>::empty()
                &&& forall|epoch_config: EpochConfig| #[trigger]
                    epoch_config.well_formed() ==> state.on_schedule(&epoch_config)
            },
    {
        let cryptarchia_ledger: cryptarchia::LedgerState<U> =
            match cryptarchia::LedgerState::from_genesis_tx(tx, epoch_nonce) {
            Ok(state) => state,
            Err(error) => return Err(error),
        };
        let mantle_ledger: mantle::LedgerState<U::Hasher> = mantle::LedgerState::new();
        let ghost bare = LedgerState { block_number: 0, cryptarchia_ledger, mantle_ledger };
        let ghost given = ops@;
        assert(is_bare(tx.outputs@, epoch_nonce, bare));
        let mut unproven: Vec<(Op, Option<OpProof>)> = Vec::new();
        for op in it: ops
            invariant
                it.seq() == given,
                unproven@ == without_proofs(given.take(it.index() as int)),
        {
            let ghost i = it.index() as int;
            assert(given.take(i + 1) =~= given.take(i).push(op));
            unproven.push((op, None));
            assert(unproven@ =~= without_proofs(given.take(i + 1)));
        }
        assert(given.take(given.len() as int) =~= given);
        let result: Result<(mantle::LedgerState<U::Hasher>, Balance), mantle::Error> =
            mantle_ledger.try_apply_ops(
            0,
            config,
            cryptarchia_ledger.latest_commitments(),
            tx_hash,
            unproven,
        );
        let ghost run = result;
        assert(is_genesis_run(tx.outputs@, tx_hash, given, config, epoch_nonce, bare, run));
        match result {
            Ok((applied, balance)) => {
                proof {
                    lemma_run(
                        &bare.mantle_ledger,
                        config,
                        cryptarchia_ledger.utxos.entries(),
                        OpContext { block_number: 0, tx_hash },
                        without_proofs(given),
                        applied,
                        balance,
                    );
                }
                Ok(LedgerState { block_number: 0, cryptarchia_ledger, mantle_ledger: applied })
            },
            Err(error) => Err(LedgerError::Mantle(error)),
        }
    }

    /// The slot of the last block.
    pub fn slot(&self) -> (r: Slot)
        ensures
            r == self.cryptarchia_ledger.slot,
    {
        self.cryptarchia_ledger.slot()
    }

    /// What is fixed for the current epoch.
    pub fn epoch_state(&self) -> (r: &EpochState<U>)
        ensures
            *r == self.cryptarchia_ledger.epoch_state,
    {
        self.cryptarchia_ledger.epoch_state()
    }

    /// What will be fixed for the next epoch, as far as it is known.
    pub fn next_epoch_state(&self) -> (r: &EpochState<U>)
        ensures
            *r == self.cryptarchia_ledger.next_epoch_state,
    {
        self.cryptarchia_ledger.next_epoch_state()
    }

    /// The outputs that are not spent.
    pub fn latest_commitments(&self) -> (r: &UtxoTree<U>)
        ensures
            *r == self.cryptarchia_ledger.utxos,
    {
        self.cryptarchia_ledger.latest_commitments()
    }

    /// The outputs that can win in the current epoch.
    pub fn aged_commitments(&self) -> (r: &UtxoTree<U>)
        ensures
            *r == self.cryptarchia_ledger.epoch_state.utxos,
    {
        self.cryptarchia_ledger.aged_commitments()
    }

    /// The sessions that are running.
    pub fn active_sessions(&self) -> (r: &Sessions)
        ensures
            *r == self.mantle_ledger.sdp.active_sessions,
    {
        self.mantle_ledger.active_sessions()
    }

    /// The providers that take part in the running session of a service. Each service has one.
    pub fn active_session_providers(&self, service_type: ServiceType) -> (r: Option<
        TrieMap<ProviderInfo>,
    >)
        ensures
            r matches Some(providers) && mantle::is_provider_map(
                self.mantle_ledger.sdp.active_sessions.of(service_type),
                self.mantle_ledger.sdp.declarations@,
                providers@,
            ),
    {
        self.mantle_ledger.active_session_providers(&service_type)
    }
}

/// The operations without proofs.
pub open spec fn without_proofs(ops: Seq<Op>) -> Seq<(Op, Option<OpProof>)> {
    ops.map_values(|op: Op| (op, None::<OpProof>))
}

/// Whether `bare` is the state at genesis before the operations of the genesis block.
pub open spec fn is_bare<U: LeafExtractor<Utxo>>(
    outputs: Seq<Utxo>,
    nonce: Fr,
    bare: LedgerState<U>,
) -> bool {
    &&& bare.block_number == 0
    &&& cryptarchia::is_genesis(outputs, nonce, bare.cryptarchia_ledger)
    &&& mantle::is_new(&bare.mantle_ledger)
}

/// Whether `run` is what comes of the operations of the genesis block, which start from the
/// state `bare`.
pub open spec fn is_genesis_run<U: LeafExtractor<Utxo>>(
    outputs: Seq<Utxo>,
    tx_hash: TxHash,
    ops: Seq<Op>,
    config: &Config,
    nonce: Fr,
    bare: LedgerState<U>,
    run: mantle::Progress<U::Hasher>,
) -> bool {
    &&& is_bare(outputs, nonce, bare)
    &&& mantle::is_run(
        &bare.mantle_ledger,
        config,
        bare.cryptarchia_ledger.utxos.entries(),
        OpContext { block_number: 0, tx_hash },
        without_proofs(ops),
        run,
    )
}

impl<U: LeafExtractor<Utxo>> Clone for LedgerState<U> {
    fn clone(&self) -> (r: Self)
        ensures
            r == *self,
    {
        LedgerState {
            block_number: self.block_number,
            cryptarchia_ledger: self.cryptarchia_ledger.clone(),
            mantle_ledger: self.mantle_ledger.clone(),
        }
    }
}

/// A block, and what is computed outside when it is applied.
pub struct Block {
    pub slot: Slot,
    pub voucher: VoucherCm,
    pub txs: Vec<TxInput>,
    /// The nonce of the ledger after the block.
    pub nonce: Fr,
    /// What the state of each declaration amounts to after the block.
    pub outcomes: TrieMap<Result<FinalizedDeclarationState, OpFailure>>,
}

/// Whether `r` is what comes of a block.
pub open spec fn is_update_result<U: LeafExtractor<Utxo>, P: LeaderProof>(
    before: &LedgerState<U>,
    proof: &P,
    config: &Config,
    block: Block,
    r: Result<LedgerState<U>, LedgerError>,
) -> bool {
    exists|header: Result<LedgerState<U>, LedgerError>| #[trigger]
        is_header_result(before, block.slot, proof, block.voucher, config, block.nonce, header)
            && match header {
            Err(error) => r == Err::<LedgerState<U>, _>(error),
            Ok(state) => is_contents_result(&state, config, block.txs@, block.outcomes@, r),
        }
}

/// The states of the ledger after the blocks that matter.
#[verifier::reject_recursive_types(U)]
pub struct Ledger<U: LeafExtractor<Utxo>> {
    pub states: TrieMap<LedgerState<U>>,
    pub config: Config,
}

/// Whether a block can be applied to the state `before`.
pub open spec fn can_update<U: LeafExtractor<Utxo>, P: LeaderProof>(
    before: &LedgerState<U>,
    proof: &P,
    config: &Config,
    block: Block,
) -> bool {
    &&& before.well_formed()
    &&& before.on_schedule(&config.epoch_config)
    &&& before.can_apply_header(block.slot, &config.epoch_config)
    &&& config.service_params.well_formed()
    &&& have_room(
        before.cryptarchia_ledger.utxos.filled() as int,
        UtxoTree::<U>::capacity() as int,
        block.txs@,
    )
    &&& forall|state: LedgerState<U>| #[trigger]
        is_header_result(
            before,
            block.slot,
            proof,
            block.voucher,
            config,
            block.nonce,
            Ok(state),
        ) ==> state.claims_fit(config, block.txs@) && state.are_known(
            config,
            block.txs@,
            block.outcomes@.dom(),
        )
}

/// Whether `r` is the ledger with the state after one more block, whose parent is `parent_id`.
pub open spec fn is_updated<U: LeafExtractor<Utxo>, P: LeaderProof>(
    before: &Ledger<U>,
    id: HeaderId,
    parent_id: HeaderId,
    proof: &P,
    block: Block,
    r: Result<Ledger<U>, LedgerError>,
) -> bool {
    if before.states@.dom().contains(parent_id) {
        match r {
            Ok(ledger) => {
                &&& ledger.config == before.config
                &&& ledger.states@.dom() == before.states@.dom().insert(id)
                &&& ledger.states@ == before.states@.insert(id, ledger.states@[id])
                &&& ledger.states@[id].cryptarchia_ledger.well_formed()
                &&& ledger.states@[id].mantle_ledger.well_formed()
                &&& ledger.states@[id].block_number < u64::MAX - 1
                    ==> ledger.states@[id].well_formed()
                &&& ledger.states@[id].on_schedule(&before.config.epoch_config)
                &&& is_update_result(
                    &before.states@[parent_id],
                    proof,
                    &before.config,
                    block,
                    Ok(ledger.states@[id]),
                )
            },
            Err(error) => is_update_result(
                &before.states@[parent_id],
                proof,
                &before.config,
                block,
                Err(error),
            ),
        }
    } else {
        r == Err::<Ledger<U>, _>(LedgerError::ParentNotFound(parent_id))
    }
}

impl<U: LeafExtractor<Utxo>> Ledger<U> {
    /// Makes a ledger with the state after one block.
    pub fn new(id: HeaderId, state: LedgerState<U>, config: Config) -> (r: Self)
        ensures
            r.states@ == Map::<HeaderId, LedgerState<U>>::empty().insert(id, state),
            r.config == config,
    {
        let mut states: TrieMap<LedgerState<U>> = TrieMap::new();
        states.insert_mut(id, state);
        Ledger { states, config }
    }

    /// The ledger with the state after one more block, whose parent is `parent_id`. This ledger
    /// is not changed.
    pub fn try_update<P: LeaderProof>(
        &self,
        id: HeaderId,
        parent_id: HeaderId,
        proof: &P,
        block: Block,
    ) -> (r: Result<Self, LedgerError>)
        requires
            self.states@.dom().contains(parent_id) ==> can_update(
                &self.states@[parent_id],
                proof,
                &self.config,
                block,
            ),
        ensures
            is_updated(self, id, parent_id, proof, block, r),
    {
        let parent_state: &LedgerState<U> = match self.states.get(&parent_id) {
            Some(state) => state,
            None => return Err(LedgerError::ParentNotFound(parent_id)),
        };
        let header: Result<LedgerState<U>, LedgerError> = parent_state.clone().try_apply_header(
            block.slot,
            proof,
            block.voucher,
            &self.config,
            block.nonce,
        );
        assert(is_header_result(
            parent_state,
            block.slot,
            proof,
            block.voucher,
            &self.config,
            block.nonce,
            header,
        ));
        let ghost given = block;
        let state: LedgerState<U> = match header {
            Ok(state) => state,
            Err(error) => return Err(error),
        };
        match state.try_apply_contents(&self.config, block.txs, &block.outcomes) {
            Ok(new_state) => {
                let mut states: TrieMap<LedgerState<U>> = self.states.clone();
                states.insert_mut(id, new_state);
                assert(states@.dom() =~= self.states@.dom().insert(id));
                Ok(Ledger { states, config: self.config })
            },
            Err(error) => Err(error),
        }
    }

    /// The state after a block, if it is remembered.
    pub fn state(&self, id: &HeaderId) -> (r: Option<&LedgerState<U>>)
        ensures
            r == (if self.states@.dom().contains(*id) {
                Some(&self.states@[*id])
            } else {
                None
            }),
    {
        self.states.get(id)
    }

    /// The parameters.
    pub fn config(&self) -> (r: &Config)
        ensures
            *r == self.config,
    {
        &self.config
    }

    /// Forgets the state after a block, and tells whether it was remembered.
    pub fn prune_state_at(&mut self, block: &HeaderId) -> (r: bool)
        ensures
            final(self).states@ == old(self).states@.remove(*block),
            final(self).config == old(self).config,
            r == old(self).states@.dom().contains(*block),
    {
        self.states.remove_mut(block)
    }
}

} // verus!
