//! Laws of headers and of transactions.
use vstd::prelude::*;

use crate::config::EpochConfig;
use crate::cryptarchia::epoch::UtxoTree;
use crate::cryptarchia::laws as genesis_laws;
use crate::ledger;
use crate::merkle::hasher::MerkleHasher;
use crate::merkle::tree::LeafExtractor;
use crate::session::config::Config;
use crate::session::cryptarchia;
use crate::session::cryptarchia::LedgerTx;
use crate::session::error::LedgerError;
use crate::session::leader::LeaderState;
use crate::session::leader_proof::{LeaderProof, LeaderPublic};
use crate::session::ledger as chain;
use crate::session::ledger::{LedgerState, TxInput};
use crate::session::mantle;
use crate::session::mantle::{Op, OpContext, OpProof};
use crate::session::membership::DeclareOp;
use crate::signature;
use crate::types::{Balance, Epoch, Fr, NoteId, Slot, Utxo, VoucherCm};

verus! {

/// The sum of `values`.
pub open spec fn sum(values: Seq<int>) -> int {
    values.fold_left(0, |total: int, value: int| total + value)
}

/// What each of the notes `inputs` is worth.
pub open spec fn input_values(
    entries: Map<NoteId, (Utxo, usize)>,
    inputs: Seq<NoteId>,
) -> Seq<int> {
    inputs.map_values(|id: NoteId| entries[id].0.note.value as int)
}

/// What each of `outputs` is worth.
pub open spec fn output_values(outputs: Seq<Utxo>) -> Seq<int> {
    outputs.map_values(|utxo: Utxo| utxo.note.value as int)
}

/// The inputs of a transaction are worth the sum of their notes.
pub proof fn inputs_add_up(entries: Map<NoteId, (Utxo, usize)>, inputs: Seq<NoteId>)
    ensures
        cryptarchia::input_value(entries, inputs) == sum(input_values(entries, inputs)),
        0 <= sum(input_values(entries, inputs)) <= inputs.len() * u64::MAX,
    decreases inputs.len(),
{
    let values = input_values(entries, inputs);
    if inputs.len() > 0 {
        inputs_add_up(entries, inputs.drop_last());
        assert(values.drop_last() =~= input_values(entries, inputs.drop_last()));
        let n = inputs.len() as int;
        assert((n - 1) * u64::MAX + u64::MAX == n * u64::MAX) by (nonlinear_arith);
    }
}

/// The outputs of a transaction are worth the sum of their notes.
pub proof fn outputs_add_up(outputs: Seq<Utxo>)
    ensures
        cryptarchia::output_value(outputs) == sum(output_values(outputs)),
        0 <= sum(output_values(outputs)) <= outputs.len() * u64::MAX,
    decreases outputs.len(),
{
    let values = output_values(outputs);
    if outputs.len() > 0 {
        outputs_add_up(outputs.drop_last());
        assert(values.drop_last() =~= output_values(outputs.drop_last()));
        let n = outputs.len() as int;
        assert((n - 1) * u64::MAX + u64::MAX == n * u64::MAX) by (nonlinear_arith);
    }
}

/// Notes that are there, are not locked and are each named once can be spent.
proof fn lemma_spendable(
    entries: Map<NoteId, (Utxo, usize)>,
    locked: Set<NoteId>,
    inputs: Seq<NoteId>,
)
    requires
        inputs.len() <= 0x4000_0000_0000_0000,
        inputs.no_duplicates(),
        forall|i: int|
            0 <= i < inputs.len() ==> entries.dom().contains(#[trigger] inputs[i])
                && !locked.contains(inputs[i]),
    ensures
        cryptarchia::spend_failure(entries, locked, inputs) is None,
    decreases inputs.len(),
{
    if inputs.len() > 0 {
        let rest = inputs.drop_last();
        assert forall|i: int| 0 <= i < rest.len() implies entries.dom().contains(#[trigger] rest[i])
            && !locked.contains(rest[i]) by {
            assert(rest[i] == inputs[i]);
        }
        lemma_spendable(entries, locked, rest);
        inputs_add_up(entries, inputs);
        if rest.contains(inputs.last()) {
            let k = choose|k: int| 0 <= k < rest.len() && rest[k] == inputs.last();
            assert(inputs[k] == inputs[inputs.len() - 1]);
        }
        let n = inputs.len() as int;
        assert(n * u64::MAX <= i128::MAX) by (nonlinear_arith)
            requires
                0 <= n <= 0x4000_0000_0000_0000,
        ;
        assert(inputs[inputs.len() - 1] == inputs.last());
    }
}

/// Outputs that are worth something can be made.
proof fn lemma_makeable(value: int, outputs: Seq<Utxo>)
    requires
        value >= 0,
        outputs.len() <= 0x4000_0000_0000_0000,
    ensures
        cryptarchia::create_failure(value, outputs) is None <==> forall|i: int|
            0 <= i < outputs.len() ==> (#[trigger] outputs[i]).note.value > 0,
    decreases outputs.len(),
{
    if outputs.len() > 0 {
        let rest = outputs.drop_last();
        lemma_makeable(value, rest);
        outputs_add_up(outputs);
        let n = outputs.len() as int;
        assert(n * u64::MAX <= i128::MAX) by (nonlinear_arith)
            requires
                0 <= n <= 0x4000_0000_0000_0000,
        ;
        assert(forall|i: int| 0 <= i < rest.len() ==> rest[i] == outputs[i]);
        assert(outputs[outputs.len() - 1] == outputs.last());
        if forall|i: int| 0 <= i < rest.len() ==> (#[trigger] rest[i]).note.value > 0 {
            assert forall|i: int| 0 <= i < rest.len() implies (#[trigger] outputs[i]).note.value
                > 0 by {
                assert(rest[i].note.value > 0);
            }
        } else {
            let i = choose|i: int| 0 <= i < rest.len() && !((#[trigger] rest[i]).note.value > 0);
            assert(!(outputs[i].note.value > 0));
        }
    }
}

/// A transaction spends and makes notes if and only if each input is there, is not locked and is
/// named once, the keys of the inputs have signed, and each output is worth something.
pub proof fn transactions_spend_their_own_notes(
    entries: Map<NoteId, (Utxo, usize)>,
    locked: Set<NoteId>,
    inputs: Seq<NoteId>,
    outputs: Seq<Utxo>,
    proof_valid: bool,
)
    requires
        inputs.len() <= 0x4000_0000_0000_0000,
        outputs.len() <= 0x4000_0000_0000_0000,
    ensures
        cryptarchia::tx_failure(entries, locked, inputs, outputs, proof_valid) is None <==> {
            &&& inputs.no_duplicates()
            &&& forall|i: int|
                0 <= i < inputs.len() ==> entries.dom().contains(#[trigger] inputs[i])
                    && !locked.contains(inputs[i])
            &&& proof_valid
            &&& forall|i: int| 0 <= i < outputs.len() ==> (#[trigger] outputs[i]).note.value > 0
        },
{
    inputs_add_up(entries, inputs);
    lemma_makeable(cryptarchia::input_value(entries, inputs), outputs);
    if cryptarchia::spend_failure(entries, locked, inputs) is None {
        cryptarchia::notes_are_spent_once(entries, locked, inputs);
    } else if inputs.no_duplicates() && forall|i: int|
        0 <= i < inputs.len() ==> entries.dom().contains(#[trigger] inputs[i]) && !locked.contains(
            inputs[i],
        ) {
        lemma_spendable(entries, locked, inputs);
    }
}

/// The first input that cannot be spent is told, and why: it is locked, or it is not there any
/// more.
pub proof fn unspendable_inputs_are_told(
    entries: Map<NoteId, (Utxo, usize)>,
    locked: Set<NoteId>,
    inputs: Seq<NoteId>,
    outputs: Seq<Utxo>,
    proof_valid: bool,
    n: int,
)
    requires
        inputs.len() <= 0x4000_0000_0000_0000,
        0 <= n < inputs.len(),
        inputs.take(n).no_duplicates(),
        forall|i: int|
            0 <= i < n ==> entries.dom().contains(#[trigger] inputs[i]) && !locked.contains(
                inputs[i],
            ),
    ensures
        locked.contains(inputs[n]) ==> cryptarchia::tx_failure(
            entries,
            locked,
            inputs,
            outputs,
            proof_valid,
        ) == Some(LedgerError::LockedNote(inputs[n])),
        !locked.contains(inputs[n]) && (!entries.dom().contains(inputs[n]) || inputs.take(
            n,
        ).contains(inputs[n])) ==> cryptarchia::tx_failure(
            entries,
            locked,
            inputs,
            outputs,
            proof_valid,
        ) == Some(LedgerError::InvalidNote(inputs[n])),
{
    let first = inputs.take(n);
    assert forall|i: int| 0 <= i < first.len() implies entries.dom().contains(#[trigger] first[i])
        && !locked.contains(first[i]) by {
        assert(first[i] == inputs[i]);
    }
    lemma_spendable(entries, locked, first);
    assert(inputs.take(n + 1).drop_last() =~= first);
    assert(inputs.take(n + 1).last() == inputs[n]);
    if cryptarchia::spend_failure(entries, locked, inputs.take(n + 1)) is Some {
        cryptarchia::lemma_spend_failed(entries, locked, inputs, n + 1);
    }
}

/// What a transaction leaves: its inputs are gone, its outputs are there, and every other note
/// is as it was.
pub proof fn outputs_replace_inputs<U: LeafExtractor<Utxo>>(
    before: cryptarchia::LedgerState<U>,
    tx: LedgerTx,
    after: cryptarchia::LedgerState<U>,
    id: NoteId,
)
    requires
        cryptarchia::is_applied(before, tx, after),
    ensures
        after.utxos.entries().dom().contains(id) <==> (exists|i: int|
            0 <= i < tx.outputs@.len() && (#[trigger] tx.outputs@[i]).id == id) || (
        before.utxos.entries().dom().contains(id) && !tx.inputs@.contains(id)),
        (forall|i: int| 0 <= i < tx.outputs@.len() ==> (#[trigger] tx.outputs@[i]).id != id)
            ==> after.utxos.entries()[id] == before.utxos.entries()[id]
            || !after.utxos.entries().dom().contains(id),
        (exists|i: int| 0 <= i < tx.outputs@.len() && (#[trigger] tx.outputs@[i]).id == id)
            ==> exists|i: int|
            0 <= i < tx.outputs@.len() && #[trigger] tx.outputs@[i]
                == after.utxos.entries()[id].0 && tx.outputs@[i].id == id,
        after.nonce == before.nonce,
        after.slot == before.slot,
        after.epoch_state == before.epoch_state,
        after.next_epoch_state == before.next_epoch_state,
{
    let left = choose|left: UtxoTree<U>| #[trigger]
        cryptarchia::is_spent(&before.utxos, tx.inputs@, &left) && ledger::is_extended(
            &left,
            tx.outputs@,
            &after.utxos,
        );
    lemma_extended(&left, tx.outputs@, &after.utxos, id);
    assert(tx.inputs@.to_set().contains(id) <==> tx.inputs@.contains(id));
}

/// Whether one of `utxos` has the identifier `id`.
pub open spec fn makes(utxos: Seq<Utxo>, id: NoteId) -> bool {
    exists|i: int| 0 <= i < utxos.len() && (#[trigger] utxos[i]).id == id
}

/// Outputs that are added are there, and every other note is as it was.
pub proof fn lemma_extended<U: LeafExtractor<Utxo>>(
    before: &UtxoTree<U>,
    utxos: Seq<Utxo>,
    after: &UtxoTree<U>,
    id: NoteId,
)
    requires
        ledger::is_extended(before, utxos, after),
    ensures
        after.entries().dom().contains(id) <==> makes(utxos, id) || before.entries().dom().contains(
            id,
        ),
        !makes(utxos, id) ==> after.entries()[id] == before.entries()[id],
        makes(utxos, id) ==> exists|i: int|
            0 <= i < utxos.len() && #[trigger] utxos[i] == after.entries()[id].0 && utxos[i].id
                == id,
    decreases utxos.len(),
{
    if utxos.len() > 0 {
        let rest = utxos.drop_last();
        let mid = choose|mid: UtxoTree<U>|
            ledger::is_extended(before, rest, &mid) && #[trigger] ledger::is_inserted(
                &mid,
                utxos.last(),
                after,
            );
        lemma_extended(before, rest, &mid, id);
        assert(utxos[utxos.len() - 1] == utxos.last());
        if makes(rest, id) {
            let i = choose|i: int| 0 <= i < rest.len() && (#[trigger] rest[i]).id == id;
            assert(utxos[i].id == id);
            let k = choose|k: int|
                0 <= k < rest.len() && #[trigger] rest[k] == mid.entries()[id].0 && rest[k].id
                    == id;
            assert(utxos[k] == rest[k]);
        } else if makes(utxos, id) {
            let i = choose|i: int| 0 <= i < utxos.len() && (#[trigger] utxos[i]).id == id;
            if i < rest.len() {
                assert(rest[i].id == id);
            }
        }
    }
}

/// What operations add to the balance is taken from the rewards that can be claimed.
pub proof fn operations_pay_out_of_rewards<H: MerkleHasher>(
    before: &mantle::LedgerState<H>,
    config: &Config,
    utxos: Map<NoteId, (Utxo, usize)>,
    context: OpContext,
    ops: Seq<(Op, Option<OpProof>)>,
    after: mantle::LedgerState<H>,
    balance: Balance,
)
    requires
        mantle::is_run(before, config, utxos, context, ops, Ok((after, balance))),
    ensures
        0 <= balance,
        after.leaders.claimable_rewards + balance == before.leaders.claimable_rewards,
    decreases ops.len(),
{
    if ops.len() > 0 {
        let r: mantle::Progress<H> = Ok((after, balance));
        let mid = choose|mid: mantle::Progress<H>|
            mantle::is_run(before, config, utxos, context, ops.drop_last(), mid)
                && #[trigger] mantle::is_next(config, utxos, context, mid, ops.last(), r);
        let (state, mid_balance) = mid->Ok_0;
        operations_pay_out_of_rewards(
            before,
            config,
            utxos,
            context,
            ops.drop_last(),
            state,
            mid_balance,
        );
        let all = state.leaders.claimable_rewards as int;
        let left = state.leaders.n_claimable_vouchers - state.leaders.nfs@.len();
        if left > 0 {
            let share = all / left;
            assert(0 <= share <= all) by (nonlinear_arith)
                requires
                    left > 0,
                    all >= 0,
                    share == all / left,
            ;
        }
    }
}

/// Nothing is made from nothing: what a transaction spends, and what it claims of the rewards of
/// leaders, is what it makes and what it pays for gas.
pub proof fn transactions_balance<U: LeafExtractor<Utxo>>(
    before: &LedgerState<U>,
    config: &Config,
    tx: TxInput,
    after: LedgerState<U>,
)
    requires
        chain::is_tx_result(before, config, tx, Ok(after)),
    ensures
        sum(input_values(before.cryptarchia_ledger.utxos.entries(), tx.ledger_tx.inputs@))
            + before.mantle_ledger.leaders.claimable_rewards == sum(
            output_values(tx.ledger_tx.outputs@),
        ) + tx.gas_cost + after.mantle_ledger.leaders.claimable_rewards,
        after.block_number == before.block_number,
        after.mantle_ledger.leaders.vouchers == before.mantle_ledger.leaders.vouchers,
        forall|id: NoteId|
            tx.ledger_tx.inputs@.contains(id)
                ==> !#[trigger] before.mantle_ledger.locked_notes@.dom().contains(id)
                && before.cryptarchia_ledger.utxos.entries().dom().contains(id),
        tx.proof_valid,
{
    let entries = before.cryptarchia_ledger.utxos.entries();
    let inputs = tx.ledger_tx.inputs@;
    let outputs = tx.ledger_tx.outputs@;
    let r: Result<LedgerState<U>, LedgerError> = Ok(after);
    let (consensus, run) = choose|
        consensus: cryptarchia::LedgerState<U>,
        run: mantle::Progress<U::Hasher>,
    |
        cryptarchia::is_applied(before.cryptarchia_ledger, tx.ledger_tx, consensus)
            && #[trigger] chain::is_ops_result(
            before,
            config,
            tx,
            consensus,
            cryptarchia::input_value(entries, inputs) - cryptarchia::output_value(outputs),
            run,
            r,
        );
    let (done, balance) = run->Ok_0;
    let context = OpContext { block_number: before.block_number, tx_hash: tx.tx_hash };
    operations_pay_out_of_rewards(
        &before.mantle_ledger,
        config,
        consensus.utxos.entries(),
        context,
        tx.ops@,
        done,
        balance,
    );
    chain::lemma_run(
        &before.mantle_ledger,
        config,
        consensus.utxos.entries(),
        context,
        tx.ops@,
        done,
        balance,
    );
    inputs_add_up(entries, inputs);
    outputs_add_up(outputs);
    cryptarchia::notes_are_spent_once(entries, before.mantle_ledger.locked_notes@.dom(), inputs);
    assert forall|id: NoteId|
        inputs.contains(
            id,
        ) implies !#[trigger] before.mantle_ledger.locked_notes@.dom().contains(id)
        && entries.dom().contains(id) by {
        let i = choose|i: int| 0 <= i < inputs.len() && inputs[i] == id;
        assert(inputs[i] == id);
    }
}

proof fn lemma_declared_notes<H: MerkleHasher>(
    before: &mantle::LedgerState<H>,
    config: &Config,
    utxos: Map<NoteId, (Utxo, usize)>,
    context: OpContext,
    ops: Seq<(Op, Option<OpProof>)>,
    after: mantle::LedgerState<H>,
    balance: Balance,
    i: int,
    op: DeclareOp,
)
    requires
        mantle::is_run(before, config, utxos, context, ops, Ok((after, balance))),
        0 <= i < ops.len(),
        ops[i].0 == Op::SdpDeclare(op),
    ensures
        utxos.dom().contains(op.locked_note_id),
        utxos[op.locked_note_id].0.note.value >= config.min_stake.threshold,
        ops[i].1 matches Some(OpProof::ZkAndEd25519Sigs { zk_valid, ed25519_sig }) && zk_valid
            && signature::ed25519_signed(op.provider_id@, context.tx_hash@, ed25519_sig@),
    decreases ops.len(),
{
    let r: mantle::Progress<H> = Ok((after, balance));
    let mid = choose|mid: mantle::Progress<H>|
        mantle::is_run(before, config, utxos, context, ops.drop_last(), mid)
            && #[trigger] mantle::is_next(config, utxos, context, mid, ops.last(), r);
    let (state, mid_balance) = mid->Ok_0;
    if i < ops.len() - 1 {
        assert(ops.drop_last()[i] == ops[i]);
        lemma_declared_notes(
            before,
            config,
            utxos,
            context,
            ops.drop_last(),
            state,
            mid_balance,
            i,
            op,
        );
    }
}

/// A declaration of a transaction locks a note that is there when the inputs of the transaction
/// are spent and its outputs are made, and that is worth the least stake at least. Its provider
/// has signed the transaction.
pub proof fn transactions_lock_notes_that_are_left<U: LeafExtractor<Utxo>>(
    before: &LedgerState<U>,
    config: &Config,
    tx: TxInput,
    after: LedgerState<U>,
    i: int,
    op: DeclareOp,
)
    requires
        chain::is_tx_result(before, config, tx, Ok(after)),
        0 <= i < tx.ops@.len(),
        tx.ops@[i].0 == Op::SdpDeclare(op),
    ensures
        after.cryptarchia_ledger.utxos.entries().dom().contains(op.locked_note_id),
        after.cryptarchia_ledger.utxos.entries()[op.locked_note_id].0.note.value
            >= config.min_stake.threshold,
        tx.ops@[i].1 matches Some(OpProof::ZkAndEd25519Sigs { zk_valid, ed25519_sig }) && zk_valid
            && signature::ed25519_signed(op.provider_id@, tx.tx_hash@, ed25519_sig@),
{
    let entries = before.cryptarchia_ledger.utxos.entries();
    let r: Result<LedgerState<U>, LedgerError> = Ok(after);
    let (consensus, run) = choose|
        consensus: cryptarchia::LedgerState<U>,
        run: mantle::Progress<U::Hasher>,
    |
        cryptarchia::is_applied(before.cryptarchia_ledger, tx.ledger_tx, consensus)
            && #[trigger] chain::is_ops_result(
            before,
            config,
            tx,
            consensus,
            cryptarchia::input_value(entries, tx.ledger_tx.inputs@) - cryptarchia::output_value(
                tx.ledger_tx.outputs@,
            ),
            run,
            r,
        );
    let (done, balance) = run->Ok_0;
    lemma_declared_notes(
        &before.mantle_ledger,
        config,
        consensus.utxos.entries(),
        OpContext { block_number: before.block_number, tx_hash: tx.tx_hash },
        tx.ops@,
        done,
        balance,
        i,
        op,
    );
}

/// A declaration that is all that a transaction does is made in the block of the transaction.
pub proof fn declarations_are_made_in_their_block<U: LeafExtractor<Utxo>>(
    before: &LedgerState<U>,
    config: &Config,
    tx: TxInput,
    after: LedgerState<U>,
    op: DeclareOp,
)
    requires
        chain::is_tx_result(before, config, tx, Ok(after)),
        tx.ops@.len() == 1,
        tx.ops@[0].0 == Op::SdpDeclare(op),
    ensures
        after.mantle_ledger.sdp.declarations@.dom().contains(op.declaration_id),
        after.mantle_ledger.sdp.declarations@[op.declaration_id].created == before.block_number,
        after.mantle_ledger.sdp.declarations@[op.declaration_id].active == before.block_number,
        after.mantle_ledger.sdp.declarations@[op.declaration_id].nonce == 0,
{
    let entries = before.cryptarchia_ledger.utxos.entries();
    let r: Result<LedgerState<U>, LedgerError> = Ok(after);
    let (consensus, run) = choose|
        consensus: cryptarchia::LedgerState<U>,
        run: mantle::Progress<U::Hasher>,
    |
        cryptarchia::is_applied(before.cryptarchia_ledger, tx.ledger_tx, consensus)
            && #[trigger] chain::is_ops_result(
            before,
            config,
            tx,
            consensus,
            cryptarchia::input_value(entries, tx.ledger_tx.inputs@) - cryptarchia::output_value(
                tx.ledger_tx.outputs@,
            ),
            run,
            r,
        );
    let context = OpContext { block_number: before.block_number, tx_hash: tx.tx_hash };
    let utxos = consensus.utxos.entries();
    let mid = choose|mid: mantle::Progress<U::Hasher>|
        mantle::is_run(&before.mantle_ledger, config, utxos, context, tx.ops@.drop_last(), mid)
            && #[trigger] mantle::is_next(config, utxos, context, mid, tx.ops@.last(), run);
    assert(tx.ops@.drop_last().len() == 0);
    assert(mid == Ok::<_, mantle::Error>((before.mantle_ledger, 0i128)));
}

/// A transaction that pays less than its gas costs is told so, and so is one that pays more.
pub proof fn other_balances_are_told(balance: int, gas_cost: u64)
    requires
        balance <= i128::MAX,
    ensures
        chain::balance_failure(balance, gas_cost) == Some(LedgerError::InsufficientBalance)
            <==> balance < gas_cost,
        chain::balance_failure(balance, gas_cost) == Some(LedgerError::UnbalancedTransaction)
            <==> balance > gas_cost,
{
}

/// A header is accepted if and only if its slot is after the last one, and its proof holds for
/// the slot, the notes of now, and the nonce, the stake and the aged notes of the epoch of the
/// slot. The notes stay, and the slot and the nonce are those of the header.
pub proof fn leaders_prove_their_slot<U: LeafExtractor<Utxo>, P: LeaderProof>(
    before: cryptarchia::LedgerState<U>,
    slot: Slot,
    proof: &P,
    config: &EpochConfig,
    nonce: Fr,
)
    ensures
        ({
            let r = cryptarchia::header_result(before, slot, proof, config, nonce);
            let epoch = cryptarchia::moved_to(before, slot, config).epoch_state;
            let claim = LeaderPublic {
                aged_root: epoch.utxos.root_of(),
                latest_root: before.utxos.root_of(),
                epoch_nonce: epoch.nonce,
                slot,
                total_stake: epoch.total_stake,
            };
            &&& r is Ok <==> slot > before.slot && proof.accepts(claim)
            &&& r == Err::<cryptarchia::LedgerState<U>, _>(LedgerError::InvalidProof) <==> slot
                > before.slot && !proof.accepts(claim)
            &&& slot <= before.slot ==> r == Err::<cryptarchia::LedgerState<U>, _>(
                LedgerError::InvalidSlot { parent: before.slot, block: slot },
            )
            &&& r matches Ok(after) ==> {
                &&& after.slot == slot
                &&& after.nonce == nonce
                &&& after.utxos == before.utxos
                &&& after.epoch_state == epoch
            }
        }),
{
}

/// Within an epoch the current epoch stays, and the next one takes the nonce of the ledger as
/// long as the last block was before the last part of the epoch.
pub proof fn next_nonce_follows_the_ledger<U: LeafExtractor<Utxo>>(
    before: cryptarchia::LedgerState<U>,
    slot: Slot,
    config: &EpochConfig,
)
    requires
        config.well_formed(),
        before.on_schedule(config),
        before.epoch_state.epoch * config.length() <= slot,
        slot < (before.epoch_state.epoch + 1) * config.length(),
    ensures
        ({
            let after = cryptarchia::moved_to(before, slot, config);
            let first = (config.epoch_stake_distribution_stabilization
                + config.epoch_period_nonce_buffer) * config.base_period_length;
            let start = before.epoch_state.epoch * config.length();
            &&& after.epoch_state == before.epoch_state
            &&& after.next_epoch_state.epoch == before.next_epoch_state.epoch
            &&& after.next_epoch_state.utxos == before.next_epoch_state.utxos
            &&& after.next_epoch_state.total_stake == before.next_epoch_state.total_stake
            &&& before.slot < start + first ==> after.next_epoch_state.nonce == before.nonce
            &&& before.slot >= start + first ==> after.next_epoch_state.nonce
                == before.next_epoch_state.nonce
            &&& after.slot == slot
            &&& after.utxos == before.utxos
            &&& after.nonce == before.nonce
        }),
{
    crate::config_laws::slots_know_their_epoch(config, slot, before.epoch_state.epoch as int);
    config.lemma_epoch_of(before.slot);
}

/// In the next epoch what was known of it holds, and the epoch after it takes the nonce and the
/// notes of the ledger. Where epochs were skipped, the current one takes them too.
pub proof fn epochs_take_the_state_of_the_ledger<U: LeafExtractor<Utxo>>(
    before: cryptarchia::LedgerState<U>,
    slot: Slot,
    config: &EpochConfig,
    epoch: int,
)
    requires
        config.well_formed(),
        config.reaches(epoch + 1),
        before.on_schedule(config),
        epoch * config.length() <= slot < (epoch + 1) * config.length(),
        epoch > before.epoch_state.epoch,
    ensures
        ({
            let after = cryptarchia::moved_to(before, slot, config);
            &&& epoch == before.epoch_state.epoch + 1 ==> after.epoch_state
                == before.next_epoch_state
            &&& epoch > before.epoch_state.epoch + 1 ==> {
                &&& after.epoch_state.epoch == epoch
                &&& after.epoch_state.nonce == before.nonce
                &&& after.epoch_state.utxos == before.utxos
                &&& after.epoch_state.total_stake == before.epoch_state.total_stake
            }
            &&& after.next_epoch_state.epoch == epoch + 1
            &&& after.next_epoch_state.nonce == before.nonce
            &&& after.next_epoch_state.utxos == before.utxos
            &&& after.next_epoch_state.total_stake == before.epoch_state.total_stake
            &&& after.slot == slot
            &&& after.utxos == before.utxos
            &&& after.nonce == before.nonce
        }),
{
    crate::config_laws::slots_know_their_epoch(config, slot, epoch);
}

/// At the start of an epoch the vouchers of the blocks so far can be claimed, and until the next
/// one no others. What was claimed, and what is left, stays.
pub proof fn vouchers_mature_with_the_epoch<H: MerkleHasher>(state: LeaderState<H>, epoch: Epoch)
    requires
        state.vouchers.leaf_count() <= u64::MAX,
    ensures
        epoch > state.epoch ==> {
            &&& state.at_epoch(epoch).epoch == epoch
            &&& state.at_epoch(epoch).n_claimable_vouchers == state.vouchers.leaf_count()
            &&& state.at_epoch(epoch).claimable_vouchers_root == state.vouchers.root()
        },
        epoch <= state.epoch ==> state.at_epoch(epoch) == state,
        state.at_epoch(epoch).nfs == state.nfs,
        state.at_epoch(epoch).claimable_rewards == state.claimable_rewards,
        state.at_epoch(epoch).vouchers == state.vouchers,
{
}

/// A header adds one block and one voucher, and leaves channels, declarations and locked notes
/// as they are.
pub proof fn headers_add_a_voucher<U: LeafExtractor<Utxo>, P: LeaderProof>(
    before: &LedgerState<U>,
    slot: Slot,
    proof: &P,
    voucher: VoucherCm,
    config: &Config,
    nonce: Fr,
    after: LedgerState<U>,
)
    requires
        chain::is_header_result(before, slot, proof, voucher, config, nonce, Ok(after)),
    ensures
        after.block_number == before.block_number + 1,
        after.cryptarchia_ledger.slot == slot,
        slot > before.cryptarchia_ledger.slot,
        after.mantle_ledger.leaders.vouchers.leaf_count()
            == before.mantle_ledger.leaders.vouchers.leaf_count() + 1,
        after.mantle_ledger.leaders.vouchers.peaks()
            == before.mantle_ledger.leaders.vouchers.peaks_with(voucher),
        after.mantle_ledger.leaders.nfs == before.mantle_ledger.leaders.nfs,
        after.mantle_ledger.leaders.claimable_rewards
            == before.mantle_ledger.leaders.claimable_rewards,
        ({
            let leaders = before.mantle_ledger.leaders;
            let epoch = config.epoch_config.epoch_of(slot);
            &&& leaders.epoch < epoch <= u32::MAX && leaders.vouchers.leaf_count() <= u64::MAX ==> {
                &&& after.mantle_ledger.leaders.epoch == epoch
                &&& after.mantle_ledger.leaders.n_claimable_vouchers
                    == leaders.vouchers.leaf_count()
                &&& after.mantle_ledger.leaders.claimable_vouchers_root == leaders.vouchers.root()
            }
            &&& 0 <= epoch <= leaders.epoch ==> {
                &&& after.mantle_ledger.leaders.epoch == leaders.epoch
                &&& after.mantle_ledger.leaders.n_claimable_vouchers
                    == leaders.n_claimable_vouchers
                &&& after.mantle_ledger.leaders.claimable_vouchers_root
                    == leaders.claimable_vouchers_root
            }
        }),
        after.mantle_ledger.channels == before.mantle_ledger.channels,
        after.mantle_ledger.sdp == before.mantle_ledger.sdp,
        after.mantle_ledger.locked_notes == before.mantle_ledger.locked_notes,
{
}

/// The chain starts at the first slot of the first epoch, with the given nonce, and the outputs of
/// the genesis block as its notes. What they are worth in all is the stake of the first epochs.
pub proof fn chains_start_with_the_genesis_block<U: LeafExtractor<Utxo>>(
    outputs: Seq<Utxo>,
    nonce: Fr,
    state: cryptarchia::LedgerState<U>,
    i: int,
)
    requires
        0 <= i < outputs.len(),
        forall|j: int, k: int|
            0 <= j < k < outputs.len() ==> (#[trigger] outputs[j]).id != (#[trigger] outputs[k]).id,
        sum(output_values(outputs)) <= u64::MAX,
        cryptarchia::is_genesis(outputs, nonce, state),
    ensures
        state.slot == 0,
        state.nonce == nonce,
        state.epoch_state.epoch == 0,
        state.next_epoch_state.epoch == 1,
        state.epoch_state.nonce == nonce,
        state.next_epoch_state.nonce == nonce,
        state.epoch_state.utxos == state.utxos,
        state.next_epoch_state.utxos == state.utxos,
        state.epoch_state.total_stake == sum(output_values(outputs)),
        state.next_epoch_state.total_stake == sum(output_values(outputs)),
        state.utxos.entries().dom().contains(outputs[i].id),
        state.utxos.entries()[outputs[i].id].0 == outputs[i],
        state.utxos.filled() == outputs.len(),
{
    genesis_laws::genesis_stake_adds_up(outputs, None);
    lemma_worth(outputs);
    outputs_add_up(outputs);
    let entry = state.utxos.entries()[outputs[i].id];
    assert(state.utxos.entries().dom().contains(outputs[i].id));
    assert(outputs[entry.1 as int].id == outputs[i].id);
}

proof fn lemma_worth(outputs: Seq<Utxo>)
    ensures
        outputs.fold_left(
            0int,
            |total: int, utxo: Utxo| total + genesis_laws::genesis_worth(utxo, None),
        ) == sum(output_values(outputs)),
    decreases outputs.len(),
{
    if outputs.len() > 0 {
        lemma_worth(outputs.drop_last());
        assert(output_values(outputs).drop_last() =~= output_values(outputs.drop_last()));
    }
}

} // verus!
