//! Laws of the ledger.
use vstd::prelude::*;

use crate::config::EpochConfig;
use crate::merkle::hasher::MerkleHasher;
use crate::merkle::tree::LeafExtractor;
use crate::session::config::Config;
use crate::session::cryptarchia;
use crate::session::error::LedgerError;
use crate::session::leader_proof::{LeaderProof, LeaderPublic};
use crate::session::ledger;
use crate::session::ledger::{Block, LedgerState, TxInput};
use crate::session::mantle;
use crate::session::mantle::{Op, OpContext, OpProof};
use crate::types::{Balance, DeclarationId, Fr, NoteId, Slot, Utxo};

verus! {

/// A transaction pays for its gas exactly.
pub proof fn transactions_pay_their_gas(balance: int, gas_cost: u64)
    ensures
        ledger::balance_failure(balance, gas_cost) is None <==> balance == gas_cost,
{
}

/// A transaction without operations keeps what its inputs are worth: it goes to its outputs and
/// to gas.
pub proof fn value_is_conserved<U: LeafExtractor<Utxo>>(
    before: &LedgerState<U>,
    config: &Config,
    tx: TxInput,
    r: Result<LedgerState<U>, LedgerError>,
)
    requires
        tx.ops@.len() == 0,
        ledger::is_tx_result(before, config, tx, r),
    ensures
        r is Ok ==> cryptarchia::input_value(
            before.cryptarchia_ledger.utxos.entries(),
            tx.ledger_tx.inputs@,
        ) == cryptarchia::output_value(tx.ledger_tx.outputs@) + tx.gas_cost,
{
}

/// As long as the claims of a block leave no more vouchers claimed than one above those that
/// there are, none of them is too many.
pub proof fn claims_fit_while_vouchers_last<U: LeafExtractor<Utxo>>(
    before: &LedgerState<U>,
    config: &Config,
    txs: Seq<TxInput>,
)
    requires
        before.mantle_ledger.leaders.nfs@.finite(),
        before.mantle_ledger.leaders.nfs@.union(ledger::claimed_in(txs)).len()
            <= before.mantle_ledger.leaders.n_claimable_vouchers + 1,
    ensures
        before.claims_fit(config, txs),
{
    let leaders = before.mantle_ledger.leaders;
    assert forall|n: int, state: LedgerState<U>|
        0 <= n < txs.len() && #[trigger] ledger::is_block_run(
            before,
            config,
            txs.take(n),
            Ok(state),
        ) implies state.can_claim(config, txs[n]) by {
        lemma_block_run(before, config, txs.take(n), state);
        lemma_claimed_in(txs, n);
        let now = state.mantle_ledger.leaders;
        let all = leaders.nfs@.union(ledger::claimed_in(txs));
        assert(now.nfs@.union(ledger::claimed(txs[n].ops@)).subset_of(all));
        vstd::set_lib::lemma_len_subset(now.nfs@.union(ledger::claimed(txs[n].ops@)), all);
        assert forall|consensus: cryptarchia::LedgerState<U>| #[trigger]
            cryptarchia::is_applied(
                state.cryptarchia_ledger,
                txs[n].ledger_tx,
                consensus,
            ) implies state.mantle_ledger.can_claim(
            config,
            consensus.utxos.entries(),
            OpContext { block_number: state.block_number, tx_hash: txs[n].tx_hash },
            txs[n].ops@,
        ) by {
            lemma_ops_claims(
                &state.mantle_ledger,
                config,
                consensus.utxos.entries(),
                OpContext { block_number: state.block_number, tx_hash: txs[n].tx_hash },
                txs[n].ops@,
            );
        }
    }
}

/// It is enough to know the declarations that there are before a block and those that its
/// transactions make: a block adds no others.
pub proof fn declarations_are_made_by_transactions<U: LeafExtractor<Utxo>>(
    before: &LedgerState<U>,
    config: &Config,
    txs: Seq<TxInput>,
    known: Set<DeclarationId>,
)
    requires
        before.mantle_ledger.sdp.declarations@.dom().subset_of(known),
        ledger::declared_in(txs).subset_of(known),
    ensures
        before.are_known(config, txs, known),
{
    assert forall|state: LedgerState<U>| #[trigger]
        ledger::is_block_run(
            before,
            config,
            txs,
            Ok(state),
        ) implies state.mantle_ledger.sdp.declarations@.dom().subset_of(known) by {
        lemma_block_run(before, config, txs, state);
    }
}

/// As long as the claims of a transaction leave no more vouchers claimed than one above those
/// that there are, none of them is too many.
proof fn lemma_ops_claims<H: MerkleHasher>(
    before: &mantle::LedgerState<H>,
    config: &Config,
    utxos: Map<NoteId, (Utxo, usize)>,
    context: OpContext,
    ops: Seq<(Op, Option<OpProof>)>,
)
    requires
        before.leaders.nfs@.finite(),
        before.leaders.nfs@.union(ledger::claimed(ops)).len() <= before.leaders.n_claimable_vouchers
            + 1,
    ensures
        before.can_claim(config, utxos, context, ops),
{
    let all = before.leaders.nfs@.union(ledger::claimed(ops));
    assert forall|n: int, state: mantle::LedgerState<H>, balance: Balance|
        0 <= n < ops.len() && #[trigger] mantle::is_run(
            before,
            config,
            utxos,
            context,
            ops.take(n),
            Ok((state, balance)),
        ) implies state.claim_fits(ops[n]) by {
        ledger::lemma_run(before, config, utxos, context, ops.take(n), state, balance);
        if let (Op::LeaderClaim { voucher_nullifier, rewards_root }, None) = ops[n] {
            if state.leaders.claim_failure(voucher_nullifier, rewards_root) is None {
                assert(ops.take(n + 1).drop_last() =~= ops.take(n));
                lemma_claimed(ops, n + 1);
                lemma_claimed(ops, n);
                let now = state.leaders.nfs@.insert(voucher_nullifier);
                assert(now.subset_of(all));
                vstd::set_lib::lemma_len_subset(now, all);
            }
        }
    }
}

/// What is claimed first is among what is claimed, which is finite.
proof fn lemma_claimed(ops: Seq<(Op, Option<OpProof>)>, n: int)
    requires
        0 <= n <= ops.len(),
    ensures
        ledger::claimed(ops.take(n)).subset_of(ledger::claimed(ops)),
        ledger::claimed(ops).finite(),
    decreases ops.len(),
{
    if ops.len() > 0 {
        if n < ops.len() {
            assert(ops.drop_last().take(n) =~= ops.take(n));
            lemma_claimed(ops.drop_last(), n);
        } else {
            assert(ops.take(n) =~= ops);
            lemma_claimed(ops.drop_last(), n - 1);
        }
    }
}

/// What is claimed by the first transactions and the next is among what is claimed, which is
/// finite.
proof fn lemma_claimed_in(txs: Seq<TxInput>, n: int)
    requires
        0 <= n < txs.len(),
    ensures
        ledger::claimed_in(txs.take(n)).subset_of(ledger::claimed_in(txs)),
        ledger::claimed(txs[n].ops@).subset_of(ledger::claimed_in(txs)),
        ledger::claimed_in(txs).finite(),
    decreases txs.len(),
{
    lemma_claimed(txs.last().ops@, 0);
    if n < txs.len() - 1 {
        assert(txs.drop_last().take(n) =~= txs.take(n));
        lemma_claimed_in(txs.drop_last(), n);
    } else {
        assert(txs.take(n) =~= txs.drop_last());
        if n > 0 {
            lemma_claimed_in(txs.drop_last(), 0);
        }
    }
}

/// The transactions of a block change nothing about vouchers but which of them are claimed, add
/// no declaration but those that they make, and leave sessions and blocks as they are.
pub proof fn lemma_block_run<U: LeafExtractor<Utxo>>(
    before: &LedgerState<U>,
    config: &Config,
    txs: Seq<TxInput>,
    after: LedgerState<U>,
)
    requires
        ledger::is_block_run(before, config, txs, Ok(after)),
    ensures
        after.mantle_ledger.leaders.nfs@ == before.mantle_ledger.leaders.nfs@.union(
            ledger::claimed_in(txs),
        ),
        after.mantle_ledger.leaders.n_claimable_vouchers
            == before.mantle_ledger.leaders.n_claimable_vouchers,
        after.mantle_ledger.sdp.declarations@.dom().subset_of(
            before.mantle_ledger.sdp.declarations@.dom().union(ledger::declared_in(txs)),
        ),
        after.mantle_ledger.sdp.active_sessions == before.mantle_ledger.sdp.active_sessions,
        after.mantle_ledger.sdp.forming_sessions == before.mantle_ledger.sdp.forming_sessions,
        after.mantle_ledger.leaders.vouchers == before.mantle_ledger.leaders.vouchers,
        after.block_number == before.block_number,
        after.cryptarchia_ledger.slot == before.cryptarchia_ledger.slot,
        after.cryptarchia_ledger.nonce == before.cryptarchia_ledger.nonce,
        after.cryptarchia_ledger.epoch_state == before.cryptarchia_ledger.epoch_state,
    decreases txs.len(),
{
    if txs.len() > 0 {
        let r: Result<LedgerState<U>, LedgerError> = Ok(after);
        let mid = choose|mid: Result<LedgerState<U>, LedgerError>|
            ledger::is_block_run(before, config, txs.drop_last(), mid)
                && #[trigger] ledger::is_next(config, mid, txs.last(), r);
        let state = mid->Ok_0;
        let tx = txs.last();
        lemma_block_run(before, config, txs.drop_last(), state);
        let (consensus, run) = choose|
            consensus: cryptarchia::LedgerState<U>,
            run: mantle::Progress<U::Hasher>,
        |
            cryptarchia::is_applied(state.cryptarchia_ledger, tx.ledger_tx, consensus)
                && #[trigger] ledger::is_ops_result(
                &state,
                config,
                tx,
                consensus,
                cryptarchia::input_value(
                    state.cryptarchia_ledger.utxos.entries(),
                    tx.ledger_tx.inputs@,
                ) - cryptarchia::output_value(tx.ledger_tx.outputs@),
                run,
                r,
            );
        let (mantle_ledger, balance) = run->Ok_0;
        ledger::lemma_run(
            &state.mantle_ledger,
            config,
            consensus.utxos.entries(),
            OpContext { block_number: state.block_number, tx_hash: tx.tx_hash },
            tx.ops@,
            mantle_ledger,
            balance,
        );
    }
    assert(after.mantle_ledger.leaders.nfs@ =~= before.mantle_ledger.leaders.nfs@.union(
        ledger::claimed_in(txs),
    ));
}

/// A block that is not after its parent is rejected.
pub proof fn late_block_is_rejected<U: LeafExtractor<Utxo>, P: LeaderProof>(
    before: &LedgerState<U>,
    proof: &P,
    config: &Config,
    block: Block,
    r: Result<LedgerState<U>, LedgerError>,
)
    requires
        block.slot <= before.cryptarchia_ledger.slot,
        ledger::is_update_result(before, proof, config, block, r),
    ensures
        r == Err::<LedgerState<U>, _>(
            LedgerError::InvalidSlot { parent: before.cryptarchia_ledger.slot, block: block.slot },
        ),
{
}

/// A block whose proof of leadership holds for nothing is rejected.
pub proof fn false_proof_is_rejected<U: LeafExtractor<Utxo>, P: LeaderProof>(
    before: &LedgerState<U>,
    proof: &P,
    config: &Config,
    block: Block,
    r: Result<LedgerState<U>, LedgerError>,
)
    requires
        block.slot > before.cryptarchia_ledger.slot,
        forall|public_inputs: LeaderPublic| !#[trigger] proof.accepts(public_inputs),
        ledger::is_update_result(before, proof, config, block, r),
    ensures
        r == Err::<LedgerState<U>, _>(LedgerError::InvalidProof),
{
}

/// Within an epoch nothing that is fixed for it changes, and neither does the stake
/// distribution of the next one.
pub proof fn epoch_is_fixed<U: LeafExtractor<Utxo>>(
    before: cryptarchia::LedgerState<U>,
    slot: Slot,
    config: &EpochConfig,
)
    requires
        config.well_formed(),
        before.on_schedule(config),
        config.epoch_of(slot) == config.epoch_of(before.slot),
    ensures
        cryptarchia::moved_to(before, slot, config).epoch_state == before.epoch_state,
        cryptarchia::moved_to(before, slot, config).next_epoch_state.utxos
            == before.next_epoch_state.utxos,
{
    config.lemma_epoch_of(before.slot);
}

/// Once the nonce of the next epoch is taken, it does not change before that epoch, and is the
/// nonce of that epoch then.
pub proof fn nonce_is_fixed_once_taken<U: LeafExtractor<Utxo>>(
    before: cryptarchia::LedgerState<U>,
    slot: Slot,
    config: &EpochConfig,
)
    requires
        before.slot >= config.nonce_snapshot_slot(before.next_epoch_state.epoch as int),
    ensures
        config.epoch_of(slot) == config.epoch_of(before.slot) ==> cryptarchia::moved_to(
            before,
            slot,
            config,
        ).next_epoch_state.nonce == before.next_epoch_state.nonce,
        config.epoch_of(slot) == config.epoch_of(before.slot) + 1 ==> cryptarchia::moved_to(
            before,
            slot,
            config,
        ).epoch_state.nonce == before.next_epoch_state.nonce,
{
}

/// The stake never changes.
pub proof fn stake_never_changes<U: LeafExtractor<Utxo>, P: LeaderProof>(
    before: cryptarchia::LedgerState<U>,
    slot: Slot,
    proof: &P,
    config: &EpochConfig,
    nonce: Fr,
)
    requires
        before.next_epoch_state.total_stake == before.epoch_state.total_stake,
    ensures
        cryptarchia::header_result(before, slot, proof, config, nonce) matches Ok(after) ==> {
            &&& after.epoch_state.total_stake == before.epoch_state.total_stake
            &&& after.next_epoch_state.total_stake == before.epoch_state.total_stake
        },
{
}

} // verus!
