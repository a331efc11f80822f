//! The state that consensus works on.
use vstd::prelude::*;

use crate::config::EpochConfig;
use crate::cryptarchia;
use crate::cryptarchia::epoch::UtxoTree;
use crate::ledger;
use crate::mantle::locked_notes::LockedNotes;
use crate::merkle::dynamic;
use crate::merkle::hasher::empty_leaf;
use crate::merkle::tree::LeafExtractor;
use crate::session::error::LedgerError;
use crate::session::leader_proof::{LeaderProof, LeaderPublic};
use crate::types::{Balance, Epoch, Fr, NoteId, Slot, Utxo, Value};

verus! {

/// What is fixed for an epoch.
#[verifier::reject_recursive_types(U)]
pub struct EpochState<U: LeafExtractor<Utxo>> {
    /// The epoch.
    pub epoch: Epoch,
    /// The nonce of the ledger when most of the epoch before was over.
    pub nonce: Fr,
    /// The outputs that were not spent at the start of the epoch before.
    pub utxos: UtxoTree<U>,
    /// The stake.
    pub total_stake: Value,
}

/// The outputs that are not spent, and what consensus needs to know.
#[verifier::reject_recursive_types(U)]
pub struct LedgerState<U: LeafExtractor<Utxo>> {
    /// The outputs that are not spent.
    pub utxos: UtxoTree<U>,
    /// The randomness that leaders have contributed.
    pub nonce: Fr,
    /// The slot of the last block.
    pub slot: Slot,
    /// What will be fixed for the next epoch, as far as it is known.
    pub next_epoch_state: EpochState<U>,
    /// What is fixed for the current epoch.
    pub epoch_state: EpochState<U>,
}

/// The inputs and the outputs of a transaction.
#[derive(Clone, Debug, PartialEq, Eq)]
pub struct LedgerTx {
    pub inputs: Vec<NoteId>,
    pub outputs: Vec<Utxo>,
}

/// What is known of an epoch that has not started, brought up to date with the ledger.
pub open spec fn refreshed<U: LeafExtractor<Utxo>>(
    state: EpochState<U>,
    ledger: LedgerState<U>,
    config: &EpochConfig,
) -> EpochState<U> {
    EpochState {
        nonce: if ledger.slot < config.nonce_snapshot_slot(state.epoch as int) {
            ledger.nonce
        } else {
            state.nonce
        },
        utxos: if ledger.slot < config.stake_snapshot_slot(state.epoch as int) {
            ledger.utxos
        } else {
            state.utxos
        },
        ..state
    }
}

/// What the ledger fixes for `epoch` as it is.
pub open spec fn snapshot_of<U: LeafExtractor<Utxo>>(
    ledger: LedgerState<U>,
    epoch: int,
) -> EpochState<U> {
    EpochState {
        epoch: epoch as u32,
        nonce: ledger.nonce,
        utxos: ledger.utxos,
        total_stake: ledger.epoch_state.total_stake,
    }
}

/// The state when the ledger has moved on to `slot`.
///
/// Within an epoch, what is known of the next epoch is brought up to date. In the next epoch,
/// that becomes the current one, and the state of the ledger is taken for the epoch after it.
/// If epochs were skipped, the state of the ledger is taken for both.
pub open spec fn moved_to<U: LeafExtractor<Utxo>>(
    before: LedgerState<U>,
    slot: Slot,
    config: &EpochConfig,
) -> LedgerState<U> {
    let epoch = config.epoch_of(slot);
    let current = config.epoch_of(before.slot);
    if epoch == current {
        LedgerState {
            slot,
            next_epoch_state: refreshed(before.next_epoch_state, before, config),
            ..before
        }
    } else {
        LedgerState {
            slot,
            epoch_state: if epoch == current + 1 {
                before.next_epoch_state
            } else {
                snapshot_of(before, epoch)
            },
            next_epoch_state: snapshot_of(before, epoch + 1),
            ..before
        }
    }
}

/// What a proof of leadership for `slot` is verified against.
pub open spec fn leader_public<U: LeafExtractor<Utxo>>(
    state: LedgerState<U>,
    slot: Slot,
) -> LeaderPublic {
    LeaderPublic {
        aged_root: state.epoch_state.utxos.root_of(),
        latest_root: state.utxos.root_of(),
        epoch_nonce: state.epoch_state.nonce,
        slot,
        total_stake: state.epoch_state.total_stake,
    }
}

/// What comes of applying the header of a block.
pub open spec fn header_result<U: LeafExtractor<Utxo>, P: LeaderProof>(
    before: LedgerState<U>,
    slot: Slot,
    proof: &P,
    config: &EpochConfig,
    nonce: Fr,
) -> Result<LedgerState<U>, LedgerError> {
    if slot <= before.slot {
        Err(LedgerError::InvalidSlot { parent: before.slot, block: slot })
    } else {
        let state = moved_to(before, slot, config);
        if proof.accepts(leader_public(state, slot)) {
            Ok(LedgerState { nonce, ..state })
        } else {
            Err(LedgerError::InvalidProof)
        }
    }
}

/// What the notes `inputs` are worth.
pub open spec fn input_value(entries: Map<NoteId, (Utxo, usize)>, inputs: Seq<NoteId>) -> int
    decreases inputs.len(),
{
    if inputs.len() == 0 {
        0
    } else {
        input_value(entries, inputs.drop_last()) + entries[inputs.last()].0.note.value
    }
}

/// What `outputs` are worth.
pub open spec fn output_value(outputs: Seq<Utxo>) -> int
    decreases outputs.len(),
{
    if outputs.len() == 0 {
        0
    } else {
        output_value(outputs.drop_last()) + outputs.last().note.value
    }
}

/// Why the notes `inputs` cannot be spent, if they cannot.
pub open spec fn spend_failure(
    entries: Map<NoteId, (Utxo, usize)>,
    locked: Set<NoteId>,
    inputs: Seq<NoteId>,
) -> Option<LedgerError>
    decreases inputs.len(),
{
    if inputs.len() == 0 {
        None
    } else {
        let id = inputs.last();
        match spend_failure(entries, locked, inputs.drop_last()) {
            Some(error) => Some(error),
            None => if locked.contains(id) {
                Some(LedgerError::LockedNote(id))
            } else if !entries.dom().contains(id) || inputs.drop_last().contains(id) {
                Some(LedgerError::InvalidNote(id))
            } else if input_value(entries, inputs) > i128::MAX {
                Some(LedgerError::Overflow)
            } else {
                None
            },
        }
    }
}

/// Why `outputs` cannot be made when the inputs are worth `value`, if they cannot.
pub open spec fn create_failure(value: int, outputs: Seq<Utxo>) -> Option<LedgerError>
    decreases outputs.len(),
{
    if outputs.len() == 0 {
        None
    } else {
        match create_failure(value, outputs.drop_last()) {
            Some(error) => Some(error),
            None => if outputs.last().note.value == 0 {
                Some(LedgerError::ZeroValueNote)
            } else if value - output_value(outputs) < i128::MIN {
                Some(LedgerError::Overflow)
            } else {
                None
            },
        }
    }
}

/// The keys of the notes `inputs`.
pub open spec fn input_keys(entries: Map<NoteId, (Utxo, usize)>, inputs: Seq<NoteId>) -> Seq<Fr> {
    inputs.map_values(|id: NoteId| entries[id].0.note.pk)
}

/// Whether `after` is the tree `before` without the notes `inputs`.
pub open spec fn is_spent<U: LeafExtractor<Utxo>>(
    before: &UtxoTree<U>,
    inputs: Seq<NoteId>,
    after: &UtxoTree<U>,
) -> bool {
    &&& after.entries() == before.entries().remove_keys(inputs.to_set())
    &&& after.slots().len() == before.slots().len()
    &&& forall|i: int|
        0 <= i < before.slots().len() ==> #[trigger] after.slots()[i] == (if exists|id: NoteId|
         #[trigger]
            inputs.contains(id) && before.entries()[id].1 == i {
            None
        } else {
            before.slots()[i]
        })
}

/// Why a transaction is rejected, if it is.
pub open spec fn tx_failure(
    entries: Map<NoteId, (Utxo, usize)>,
    locked: Set<NoteId>,
    inputs: Seq<NoteId>,
    outputs: Seq<Utxo>,
    proof_valid: bool,
) -> Option<LedgerError> {
    match spend_failure(entries, locked, inputs) {
        Some(error) => Some(error),
        None => if !proof_valid {
            Some(LedgerError::InvalidProof)
        } else {
            create_failure(input_value(entries, inputs), outputs)
        },
    }
}

/// A failure to spend is not undone by more inputs.
pub proof fn lemma_spend_failed(
    entries: Map<NoteId, (Utxo, usize)>,
    locked: Set<NoteId>,
    inputs: Seq<NoteId>,
    n: int,
)
    requires
        0 <= n <= inputs.len(),
        spend_failure(entries, locked, inputs.take(n)) is Some,
    ensures
        spend_failure(entries, locked, inputs) == spend_failure(entries, locked, inputs.take(n)),
    decreases inputs.len() - n,
{
    if n == inputs.len() {
        assert(inputs.take(n) =~= inputs);
    } else {
        assert(inputs.take(n + 1).drop_last() =~= inputs.take(n));
        lemma_spend_failed(entries, locked, inputs, n + 1);
    }
}

/// A failure to make an output is not undone by more outputs.
proof fn lemma_create_failed(value: int, outputs: Seq<Utxo>, n: int)
    requires
        0 <= n <= outputs.len(),
        create_failure(value, outputs.take(n)) is Some,
    ensures
        create_failure(value, outputs) == create_failure(value, outputs.take(n)),
    decreases outputs.len() - n,
{
    if n == outputs.len() {
        assert(outputs.take(n) =~= outputs);
    } else {
        assert(outputs.take(n + 1).drop_last() =~= outputs.take(n));
        lemma_create_failed(value, outputs, n + 1);
    }
}

proof fn lemma_input_value(entries: Map<NoteId, (Utxo, usize)>, inputs: Seq<NoteId>)
    ensures
        input_value(entries, inputs) >= 0,
    decreases inputs.len(),
{
    if inputs.len() > 0 {
        lemma_input_value(entries, inputs.drop_last());
    }
}

impl<U: LeafExtractor<Utxo>> EpochState<U> {
    /// Brings the state of an epoch that has not started up to date with the ledger.
    fn update_from_ledger(self, ledger: &LedgerState<U>, config: &EpochConfig) -> (r: Self)
        requires
            config.well_formed(),
            self.epoch >= 1,
            config.start_of(self.epoch as int) <= u64::MAX,
        ensures
            r == refreshed(self, *ledger, config),
    {
        let nonce_snapshot_slot: Slot = config.nonce_snapshot(self.epoch);
        let nonce: Fr = if ledger.slot < nonce_snapshot_slot {
            ledger.nonce
        } else {
            self.nonce
        };
        let stake_snapshot_slot: Slot = config.stake_distribution_snapshot(self.epoch);
        let utxos: UtxoTree<U> = if ledger.slot < stake_snapshot_slot {
            ledger.utxos.clone()
        } else {
            self.utxos
        };
        EpochState { epoch: self.epoch, nonce, utxos, total_stake: self.total_stake }
    }

    /// The epoch.
    pub fn epoch(&self) -> (r: Epoch)
        ensures
            r == self.epoch,
    {
        self.epoch
    }

    /// The nonce.
    pub fn nonce(&self) -> (r: &Fr)
        ensures
            *r == self.nonce,
    {
        &self.nonce
    }

    /// The stake.
    pub fn total_stake(&self) -> (r: Value)
        ensures
            r == self.total_stake,
    {
        self.total_stake
    }
}

impl<U: LeafExtractor<Utxo>> Clone for EpochState<U> {
    fn clone(&self) -> (r: Self)
        ensures
            r == *self,
    {
        EpochState {
            epoch: self.epoch,
            nonce: self.nonce,
            utxos: self.utxos.clone(),
            total_stake: self.total_stake,
        }
    }
}

impl<U: LeafExtractor<Utxo>> LedgerState<U> {
    /// Whether the trees are well formed.
    pub open spec fn well_formed(&self) -> bool {
        &&& self.utxos.well_formed()
        &&& self.epoch_state.utxos.well_formed()
        &&& self.next_epoch_state.utxos.well_formed()
    }

    /// Whether the epochs are those that the slot of the last block is in, and that follows
    /// it.
    pub open spec fn on_schedule(&self, config: &EpochConfig) -> bool {
        &&& self.epoch_state.epoch == config.epoch_of(self.slot)
        &&& self.next_epoch_state.epoch == self.epoch_state.epoch + 1
    }

    /// Moves on to `slot`.
    pub fn update_epoch_state(self, slot: Slot, config: &EpochConfig) -> (r: Result<
        Self,
        LedgerError,
    >)
        requires
            config.well_formed(),
            config.reaches(config.epoch_of(slot) + 1),
            self.well_formed(),
            self.on_schedule(config),
        ensures
            r == (if slot <= self.slot {
                Err(LedgerError::InvalidSlot { parent: self.slot, block: slot })
            } else {
                Ok(moved_to(self, slot, config))
            }),
            r matches Ok(state) ==> state.well_formed() && state.on_schedule(config),
    {
        if slot <= self.slot {
            return Err(LedgerError::InvalidSlot { parent: self.slot, block: slot });
        }
        proof {
            cryptarchia::lemma_epochs_ordered(config, self.slot, slot);
            config.lemma_start_monotonic(
                self.next_epoch_state.epoch as int,
                config.epoch_of(slot) + 1,
            );
            config.lemma_start_monotonic(config.epoch_of(slot) + 1, config.epoch_of(slot) + 2);
        }
        let current_epoch: Epoch = config.epoch(self.slot);
        let new_epoch: Epoch = config.epoch(slot);
        if current_epoch == new_epoch {
            let next_epoch_state: EpochState<U> = self.next_epoch_state.clone().update_from_ledger(
                &self,
                config,
            );
            Ok(LedgerState { slot, next_epoch_state, ..self })
        } else {
            let epoch_state: EpochState<U> = if new_epoch == current_epoch + 1 {
                self.next_epoch_state.clone()
            } else {
                self.snapshot(new_epoch)
            };
            let next_epoch_state: EpochState<U> = self.snapshot(new_epoch + 1);
            Ok(LedgerState { slot, next_epoch_state, epoch_state, ..self })
        }
    }

    /// Takes the state of the ledger for `epoch`.
    fn snapshot(&self, epoch: Epoch) -> (r: EpochState<U>)
        ensures
            r == snapshot_of(*self, epoch as int),
    {
        EpochState {
            epoch,
            nonce: self.nonce,
            utxos: self.utxos.clone(),
            total_stake: self.epoch_state.total_stake,
        }
    }

    /// Verifies a proof of leadership for `slot`, which is in the current epoch.
    fn try_apply_proof<P: LeaderProof>(self, slot: Slot, proof: &P, config: &EpochConfig) -> (r:
        Result<Self, LedgerError>)
        requires
            self.well_formed(),
            config.epoch_of(slot) == self.epoch_state.epoch,
        ensures
            r == (if proof.accepts(leader_public(self, slot)) {
                Ok(self)
            } else {
                Err(LedgerError::InvalidProof)
            }),
    {
        let public_inputs: LeaderPublic = LeaderPublic {
            aged_root: self.aged_commitments().root(),
            latest_root: self.latest_commitments().root(),
            epoch_nonce: self.epoch_state.nonce,
            slot,
            total_stake: self.epoch_state.total_stake,
        };
        if !proof.verify(&public_inputs) {
            return Err(LedgerError::InvalidProof);
        }
        Ok(self)
    }

    /// What the nonce of the ledger after a block of `slot` is the hash of: a tag, the nonce
    /// before, what the leader contributes, and the slot.
    pub fn nonce_inputs(&self, contribution: &Fr, slot: Slot) -> (r: [Fr; 4])
        ensures
            r@ == seq![
                cryptarchia::nonce_tag_value(),
                self.nonce,
                *contribution,
                cryptarchia::slot_element(slot),
            ],
    {
        cryptarchia::nonce_inputs(&self.nonce, contribution, slot)
    }

    /// Applies the header of a block of `slot`. The hash of the [`Self::nonce_inputs`] is
    /// `nonce`.
    pub fn try_apply_header<P: LeaderProof>(
        self,
        slot: Slot,
        proof: &P,
        config: &EpochConfig,
        nonce: Fr,
    ) -> (r: Result<Self, LedgerError>)
        requires
            config.well_formed(),
            config.reaches(config.epoch_of(slot) + 1),
            self.well_formed(),
            self.on_schedule(config),
        ensures
            r == header_result(self, slot, proof, config, nonce),
            r matches Ok(state) ==> state.well_formed() && state.on_schedule(config),
    {
        match self.update_epoch_state(slot, config) {
            Ok(state) => match state.try_apply_proof(slot, proof, config) {
                Ok(state) => Ok(state.update_nonce(nonce)),
                Err(error) => Err(error),
            },
            Err(error) => Err(error),
        }
    }

    /// Spends notes: the outputs that are left, what the notes are worth, and their keys,
    /// which have to have signed.
    pub fn spend(&self, locked_notes: &LockedNotes, inputs: &Vec<NoteId>) -> (r: Result<
        (UtxoTree<U>, Balance, Vec<Fr>),
        LedgerError,
    >)
        requires
            self.utxos.well_formed(),
        ensures
            match spend_failure(self.utxos.entries(), locked_notes@.dom(), inputs@) {
                Some(error) => r == Err::<(UtxoTree<U>, Balance, Vec<Fr>), _>(error),
                None => {
                    &&& r matches Ok((utxos, balance, keys))
                    &&& utxos.well_formed()
                    &&& utxos.filled() == self.utxos.filled() - inputs@.len()
                    &&& is_spent(&self.utxos, inputs@, &utxos)
                    &&& balance == input_value(self.utxos.entries(), inputs@)
                    &&& keys@ == input_keys(self.utxos.entries(), inputs@)
                },
            },
    {
        let ghost entries = self.utxos.entries();
        let ghost locked = locked_notes@.dom();
        let mut utxos: UtxoTree<U> = self.utxos.clone();
        let mut balance: Balance = 0;
        let mut keys: Vec<Fr> = Vec::new();
        let mut i: usize = 0;
        proof {
            assert(inputs@.take(0) =~= Seq::empty());
            assert(entries.remove_keys(inputs@.take(0).to_set()) =~= entries);
        }
        while i < inputs.len()
            invariant
                0 <= i <= inputs@.len(),
                self.utxos.well_formed(),
                entries == self.utxos.entries(),
                locked == locked_notes@.dom(),
                utxos.well_formed(),
                utxos.filled() == self.utxos.filled() - i,
                spend_failure(entries, locked, inputs@.take(i as int)) is None,
                is_spent(&self.utxos, inputs@.take(i as int), &utxos),
                balance == input_value(entries, inputs@.take(i as int)),
                keys@ == input_keys(entries, inputs@.take(i as int)),
            decreases inputs@.len() - i,
        {
            let input: NoteId = inputs[i];
            let ghost done = inputs@.take(i as int);
            let ghost next = inputs@.take(i + 1);
            proof {
                assert(next =~= done.push(input));
                assert(next.drop_last() =~= done);
                assert(next.last() == input);
                lemma_input_value(entries, done);
                assert(utxos.entries().dom().contains(input) == (entries.dom().contains(input)
                    && !done.contains(input)));
            }
            if locked_notes.contains(&input) {
                proof {
                    lemma_spend_failed(entries, locked, inputs@, i + 1);
                }
                return Err(LedgerError::LockedNote(input));
            }
            let note = match utxos.get_ref(&input) {
                Some(utxo) => utxo.note,
                None => {
                    proof {
                        lemma_spend_failed(entries, locked, inputs@, i + 1);
                    }
                    return Err(LedgerError::InvalidNote(input));
                },
            };
            assert(note == entries[input].0.note);
            let ghost before = utxos;
            utxos = match utxos.remove(&input) {
                Ok((left, _)) => left,
                Err(_) => return Err(LedgerError::InvalidNote(input)),
            };
            balance = match balance.checked_add(note.value as i128) {
                Some(sum) => sum,
                None => {
                    proof {
                        lemma_spend_failed(entries, locked, inputs@, i + 1);
                    }
                    return Err(LedgerError::Overflow);
                },
            };
            keys.push(note.pk);
            proof {
                lemma_spent_step(&self.utxos, done, input, &before, &utxos);
                assert(keys@ =~= input_keys(entries, next));
            }
            i += 1;
        }
        assert(inputs@.take(i as int) =~= inputs@);
        Ok((utxos, balance, keys))
    }

    /// Applies the inputs and the outputs of a transaction. Whether the keys of the inputs have
    /// signed is `proof_valid`.
    pub fn try_apply_tx(self, locked_notes: &LockedNotes, tx: &LedgerTx, proof_valid: bool) -> (r:
        Result<(Self, Balance), LedgerError>)
        requires
            self.well_formed(),
            self.utxos.filled() + tx.outputs@.len() <= tx.inputs@.len() + UtxoTree::<U>::capacity(),
        ensures
            match tx_failure(
                self.utxos.entries(),
                locked_notes@.dom(),
                tx.inputs@,
                tx.outputs@,
                proof_valid,
            ) {
                Some(error) => r == Err::<(Self, Balance), _>(error),
                None => {
                    &&& r matches Ok((state, balance))
                    &&& state.well_formed()
                    &&& state.utxos.filled() == self.utxos.filled() - tx.inputs@.len()
                        + tx.outputs@.len()
                    &&& is_applied(self, *tx, state)
                    &&& balance == input_value(self.utxos.entries(), tx.inputs@) - output_value(
                        tx.outputs@,
                    )
                },
            },
    {
        let (spent, input_balance, _): (UtxoTree<U>, Balance, Vec<Fr>) = match self.spend(
            locked_notes,
            &tx.inputs,
        ) {
            Ok(done) => done,
            Err(error) => return Err(error),
        };
        if !proof_valid {
            return Err(LedgerError::InvalidProof);
        }
        let ghost value = input_balance as int;
        let ghost outputs = tx.outputs@;
        let ghost left = spent;
        proof {
            lemma_input_value(self.utxos.entries(), tx.inputs@);
        }
        let mut balance: Balance = input_balance;
        let mut utxos: UtxoTree<U> = spent;
        let mut i: usize = 0;
        assert(outputs.take(0) =~= Seq::empty());
        while i < tx.outputs.len()
            invariant
                0 <= i <= outputs.len(),
                outputs == tx.outputs@,
                value <= i128::MAX,
                utxos.well_formed(),
                utxos.filled() == left.filled() + i,
                left.filled() + outputs.len() <= UtxoTree::<U>::capacity(),
                create_failure(value, outputs.take(i as int)) is None,
                ledger::is_extended(&left, outputs.take(i as int), &utxos),
                balance == value - output_value(outputs.take(i as int)),
                input_value(self.utxos.entries(), tx.inputs@) == value,
                spend_failure(self.utxos.entries(), locked_notes@.dom(), tx.inputs@) is None,
                proof_valid,
            decreases outputs.len() - i,
        {
            let utxo: Utxo = tx.outputs[i];
            proof {
                assert(outputs.take(i + 1).drop_last() =~= outputs.take(i as int));
                assert(outputs.take(i + 1).last() == utxo);
            }
            if utxo.note.value == 0 {
                proof {
                    lemma_create_failed(value, outputs, i + 1);
                }
                return Err(LedgerError::ZeroValueNote);
            }
            balance = match balance.checked_sub(utxo.note.value as i128) {
                Some(rest) => rest,
                None => {
                    proof {
                        lemma_create_failed(value, outputs, i + 1);
                    }
                    return Err(LedgerError::Overflow);
                },
            };
            let ghost mid = utxos;
            let (extended, position): (UtxoTree<U>, usize) = utxos.insert(utxo.id, utxo);
            utxos = extended;
            proof {
                assert(dynamic::is_first_free(mid.slots(), position as int));
                assert(ledger::is_inserted(&mid, utxo, &utxos));
            }
            i += 1;
        }
        assert(outputs.take(i as int) =~= outputs);
        assert(is_spent(&self.utxos, tx.inputs@, &left));
        Ok((LedgerState { utxos, ..self }, balance))
    }

    /// Replaces the nonce.
    fn update_nonce(self, nonce: Fr) -> (r: Self)
        ensures
            r == (LedgerState { nonce, ..self }),
    {
        LedgerState { nonce, ..self }
    }

    /// The slot of the last block.
    pub fn slot(&self) -> (r: Slot)
        ensures
            r == self.slot,
    {
        self.slot
    }

    /// What is fixed for the current epoch.
    pub fn epoch_state(&self) -> (r: &EpochState<U>)
        ensures
            *r == self.epoch_state,
    {
        &self.epoch_state
    }

    /// What will be fixed for the next epoch, as far as it is known.
    pub fn next_epoch_state(&self) -> (r: &EpochState<U>)
        ensures
            *r == self.next_epoch_state,
    {
        &self.next_epoch_state
    }

    /// The outputs that are not spent.
    pub fn latest_commitments(&self) -> (r: &UtxoTree<U>)
        ensures
            *r == self.utxos,
    {
        &self.utxos
    }

    /// The outputs that can win in the current epoch.
    pub fn aged_commitments(&self) -> (r: &UtxoTree<U>)
        ensures
            *r == self.epoch_state.utxos,
    {
        &self.epoch_state.utxos
    }

    /// Makes the state at genesis from the inputs and the outputs of the genesis block.
    pub fn from_genesis_tx(tx: &LedgerTx, epoch_nonce: Fr) -> (r: Result<Self, LedgerError>)
        requires
            tx.outputs@.len() <= UtxoTree::<U>::capacity(),
            cryptarchia::value_of(tx.outputs@, None) <= u64::MAX,
        ensures
            tx.inputs@.len() > 0 ==> r == Err::<Self, _>(
                LedgerError::InputInGenesis(tx.inputs@[0]),
            ),
            tx.inputs@.len() == 0 ==> r is Ok,
            r matches Ok(state) ==> {
                &&& is_genesis(tx.outputs@, epoch_nonce, state)
                &&& state.well_formed()
                &&& forall|config: EpochConfig| #[trigger]
                    config.well_formed() ==> state.on_schedule(&config)
            },
    {
        if tx.inputs.len() > 0 {
            return Err(LedgerError::InputInGenesis(tx.inputs[0]));
        }
        Ok(Self::with_nonce(&tx.outputs, epoch_nonce))
    }

    /// Makes the state at genesis.
    pub fn from_utxos(utxos: &Vec<Utxo>) -> (r: Self)
        requires
            utxos@.len() <= UtxoTree::<U>::capacity(),
            cryptarchia::value_of(utxos@, None) <= u64::MAX,
        ensures
            is_genesis(utxos@, crate::merkle::hasher::empty_value(), r),
            r.well_formed(),
            forall|config: EpochConfig| #[trigger] config.well_formed() ==> r.on_schedule(&config),
    {
        Self::with_nonce(utxos, empty_leaf())
    }

    /// Makes the state at genesis with this nonce.
    fn with_nonce(utxos: &Vec<Utxo>, nonce: Fr) -> (r: Self)
        requires
            utxos@.len() <= UtxoTree::<U>::capacity(),
            cryptarchia::value_of(utxos@, None) <= u64::MAX,
        ensures
            is_genesis(utxos@, nonce, r),
            r.well_formed(),
            forall|config: EpochConfig| #[trigger] config.well_formed() ==> r.on_schedule(&config),
    {
        let tree: UtxoTree<U> = cryptarchia::genesis_tree(utxos);
        let total_stake: Value = cryptarchia::total_value(utxos, None);
        proof {
            assert forall|config: EpochConfig| #[trigger] config.well_formed() implies config.epoch_of(
                0,
            ) == 0 by {
                config.lemma_periods();
                vstd::arithmetic::div_mod::lemma_basic_div(0, config.length());
            }
        }
        LedgerState {
            utxos: tree.clone(),
            nonce,
            slot: 0,
            next_epoch_state: EpochState {
                epoch: 1,
                nonce,
                utxos: tree.clone(),
                total_stake,
            },
            epoch_state: EpochState { epoch: 0, nonce, utxos: tree, total_stake },
        }
    }
}

/// Whether `state` is the state at genesis.
pub open spec fn is_genesis<U: LeafExtractor<Utxo>>(
    outputs: Seq<Utxo>,
    nonce: Fr,
    state: LedgerState<U>,
) -> bool {
    &&& cryptarchia::is_genesis_tree(outputs, &state.utxos)
    &&& state.nonce == nonce
    &&& state.slot == 0
    &&& state.epoch_state == (EpochState {
        epoch: 0,
        nonce,
        utxos: state.utxos,
        total_stake: cryptarchia::value_of(outputs, None) as u64,
    })
    &&& state.next_epoch_state == (EpochState {
        epoch: 1,
        nonce,
        utxos: state.utxos,
        total_stake: cryptarchia::value_of(outputs, None) as u64,
    })
}

/// Whether `after` is `before` with the inputs of a transaction spent and its outputs made.
pub open spec fn is_applied<U: LeafExtractor<Utxo>>(
    before: LedgerState<U>,
    tx: LedgerTx,
    after: LedgerState<U>,
) -> bool {
    &&& after == (LedgerState { utxos: after.utxos, ..before })
    &&& exists|left: UtxoTree<U>| #[trigger]
        is_spent(&before.utxos, tx.inputs@, &left) && ledger::is_extended(
            &left,
            tx.outputs@,
            &after.utxos,
        )
}

proof fn lemma_spent_step<U: LeafExtractor<Utxo>>(
    first: &UtxoTree<U>,
    done: Seq<NoteId>,
    input: NoteId,
    before: &UtxoTree<U>,
    after: &UtxoTree<U>,
)
    requires
        first.well_formed(),
        is_spent(first, done, before),
        first.entries().dom().contains(input),
        !done.contains(input),
        after.entries() == before.entries().remove(input),
        after.slots() == before.slots().update(before.entries()[input].1 as int, None),
    ensures
        is_spent(first, done.push(input), after),
{
    let next = done.push(input);
    assert forall|id: NoteId| next.contains(id) == (done.contains(id) || id == input) by {
        if done.contains(id) {
            let k = choose|k: int| 0 <= k < done.len() && done[k] == id;
            assert(next[k] == id);
        }
        assert(next[done.len() as int] == input);
    }
    assert(after.entries() =~= first.entries().remove_keys(next.to_set()));
    first.lemma_entry(input);
    first.lemma_capacity();
    assert forall|i: int| 0 <= i < first.slots().len() implies #[trigger] after.slots()[i] == (
    if exists|id: NoteId| #[trigger] next.contains(id) && first.entries()[id].1 == i {
        None
    } else {
        first.slots()[i]
    }) by {
        assert(before.slots()[i] == (if exists|id: NoteId| #[trigger]
            done.contains(id) && first.entries()[id].1 == i {
            None
        } else {
            first.slots()[i]
        }));
        if exists|id: NoteId| #[trigger] next.contains(id) && first.entries()[id].1 == i {
            let id = choose|id: NoteId| #[trigger]
                next.contains(id) && first.entries()[id].1 == i;
            assert(done.contains(id) || id == input);
        } else {
            assert(next.contains(input));
            assert forall|id: NoteId| #[trigger] done.contains(id) implies first.entries()[id].1
                != i by {
                assert(next.contains(id));
            }
        }
    }
}

/// A transaction spends each note once at most.
pub proof fn notes_are_spent_once(
    entries: Map<NoteId, (Utxo, usize)>,
    locked: Set<NoteId>,
    inputs: Seq<NoteId>,
)
    requires
        spend_failure(entries, locked, inputs) is None,
    ensures
        inputs.no_duplicates(),
        forall|i: int|
            0 <= i < inputs.len() ==> entries.dom().contains(#[trigger] inputs[i])
                && !locked.contains(inputs[i]),
    decreases inputs.len(),
{
    if inputs.len() > 0 {
        let rest = inputs.drop_last();
        notes_are_spent_once(entries, locked, rest);
        assert forall|i: int| 0 <= i < inputs.len() implies entries.dom().contains(
            #[trigger] inputs[i],
        ) && !locked.contains(inputs[i]) by {
            if i < rest.len() {
                assert(rest[i] == inputs[i]);
            }
        }
        assert forall|i: int, j: int|
            0 <= i < inputs.len() && 0 <= j < inputs.len() && i != j implies inputs[i]
            != inputs[j] by {
            if i < rest.len() && j < rest.len() {
                assert(rest[i] == inputs[i] && rest[j] == inputs[j]);
            } else if i < rest.len() {
                assert(rest[i] == inputs[i]);
                assert(rest.contains(rest[i]));
            } else if j < rest.len() {
                assert(rest[j] == inputs[j]);
                assert(rest.contains(rest[j]));
            }
        }
    }
}

/// Spent notes are gone.
pub proof fn spent_notes_are_gone<U: LeafExtractor<Utxo>>(
    before: &UtxoTree<U>,
    inputs: Seq<NoteId>,
    after: &UtxoTree<U>,
    id: NoteId,
)
    requires
        is_spent(before, inputs, after),
        inputs.contains(id),
    ensures
        !after.entries().dom().contains(id),
{
    assert(inputs.to_set().contains(id));
}

impl<U: LeafExtractor<Utxo>> Clone for LedgerState<U> {
    fn clone(&self) -> (r: Self)
        ensures
            r == *self,
    {
        LedgerState {
            utxos: self.utxos.clone(),
            nonce: self.nonce,
            slot: self.slot,
            next_epoch_state: self.next_epoch_state.clone(),
            epoch_state: self.epoch_state.clone(),
        }
    }
}

} // verus!
