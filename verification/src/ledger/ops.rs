//! Operations of transactions.
use vstd::prelude::*;

use crate::collections::trie_set::TrieSet;
use crate::config::Config;
use crate::cryptarchia;
use crate::cryptarchia::epoch::UtxoTree;
use crate::cryptarchia::TransferExecution;
use crate::error::LedgerError;
use crate::ledger::LedgerState;
use crate::mantle;
use crate::mantle::channel::Channels;
use crate::mantle::helpers::VerificationError;
use crate::mantle::leader::LeaderState;
use crate::mantle::sdp;
use crate::mantle::sdp::rewards::blend::target_epoch::ProofOutcome;
use crate::mantle::sdp::{ActiveExecution, SdpExecution, SdpLedger};
use crate::mantle::ChannelExecution;
use crate::merkle::tree::LeafExtractor;
use crate::types::{
    Balance, DeclarationId, Epoch, OpFailure, ServiceType, TxEvent, Utxo, Value,
};

verus! {

/// What an operation leads to that moves tokens into a channel or out of it.
#[verifier::reject_recursive_types(U)]
pub struct ChannelUtxoExecution<U: LeafExtractor<Utxo>> {
    pub channels: Channels,
    pub utxos: UtxoTree<U>,
    pub events: Vec<TxEvent>,
}

/// What a claim of a leader leads to.
#[verifier::reject_recursive_types(U)]
pub struct LeaderClaimExecution<U: LeafExtractor<Utxo>> {
    pub nullifiers: TrieSet,
    pub claimable_rewards: Value,
    pub utxos: UtxoTree<U>,
    pub events: Vec<TxEvent>,
}

/// An operation that was verified, and what it leads to.
#[verifier::reject_recursive_types(U)]
pub enum OpOutcome<U: LeafExtractor<Utxo>> {
    ChannelInscribe(Result<ChannelExecution, OpFailure>),
    ChannelConfig(Result<ChannelExecution, OpFailure>),
    ChannelDeposit(Result<ChannelUtxoExecution<U>, OpFailure>),
    ChannelWithdraw(Result<ChannelExecution, OpFailure>),
    ChannelTransfer(Result<ChannelUtxoExecution<U>, OpFailure>),
    SdpDeclare { service_type: ServiceType, outcome: Result<SdpExecution, OpFailure> },
    SdpActive {
        declaration_id: DeclarationId,
        outcome: Result<ActiveExecution, OpFailure>,
        proof_epoch: Epoch,
        proof_outcome: ProofOutcome,
    },
    SdpWithdraw { declaration_id: DeclarationId, outcome: Result<SdpExecution, OpFailure> },
    LeaderClaim(Result<LeaderClaimExecution<U>, OpFailure>),
    Transfer(Result<TransferExecution<U>, OpFailure>),
}

/// The next operation of a transaction.
#[verifier::reject_recursive_types(U)]
pub enum OpStep<U: LeafExtractor<Utxo>> {
    /// The operation was not verified.
    Rejected(VerificationError),
    /// The operation was verified.
    Verified(OpOutcome<U>),
}

/// What operations have led to: the state, the balance of the transaction and the events.
pub type Progress<U> = Result<(LedgerState<U>, Balance, Seq<TxEvent>), LedgerError>;

impl<U: LeafExtractor<Utxo>> OpOutcome<U> {
    /// Whether what the operation leads to is well formed.
    pub open spec fn well_formed(&self) -> bool {
        match *self {
            OpOutcome::ChannelInscribe(_) => true,
            OpOutcome::ChannelConfig(_) => true,
            OpOutcome::ChannelDeposit(outcome) => outcome matches Ok(execution)
                ==> execution.utxos.well_formed(),
            OpOutcome::ChannelWithdraw(_) => true,
            OpOutcome::ChannelTransfer(outcome) => outcome matches Ok(execution)
                ==> execution.utxos.well_formed(),
            OpOutcome::SdpDeclare { outcome, .. } => outcome matches Ok(execution)
                ==> execution.locked_notes.well_formed(),
            OpOutcome::SdpActive { declaration_id, outcome, .. } => outcome matches Ok(execution)
                ==> execution.declarations@.dom().contains(declaration_id),
            OpOutcome::SdpWithdraw { outcome, .. } => outcome matches Ok(execution)
                ==> execution.locked_notes.well_formed(),
            OpOutcome::LeaderClaim(outcome) => outcome matches Ok(execution)
                ==> execution.utxos.well_formed(),
            OpOutcome::Transfer(outcome) => outcome matches Ok(execution)
                ==> execution.utxos.well_formed(),
        }
    }

    /// What the operation adds to the balance of the transaction.
    pub open spec fn balance(&self) -> int {
        match *self {
            OpOutcome::Transfer(Ok(execution)) => execution.balance as int,
            _ => 0,
        }
    }

    /// What the operation reports.
    pub open spec fn events(&self) -> Seq<TxEvent> {
        match *self {
            OpOutcome::ChannelInscribe(Ok(execution)) => execution.events@,
            OpOutcome::ChannelConfig(Ok(execution)) => execution.events@,
            OpOutcome::ChannelDeposit(Ok(execution)) => execution.events@,
            OpOutcome::ChannelWithdraw(Ok(execution)) => execution.events@,
            OpOutcome::ChannelTransfer(Ok(execution)) => execution.events@,
            OpOutcome::SdpDeclare { outcome: Ok(execution), .. } => execution.events@,
            OpOutcome::SdpActive { outcome: Ok(execution), .. } => execution.events@,
            OpOutcome::SdpWithdraw { outcome: Ok(execution), .. } => execution.events@,
            OpOutcome::LeaderClaim(Ok(execution)) => execution.events@,
            OpOutcome::Transfer(Ok(execution)) => execution.events@,
            _ => Seq::empty(),
        }
    }
}

impl<U: LeafExtractor<Utxo>> OpStep<U> {
    /// Whether what the operation leads to is well formed.
    pub open spec fn well_formed(&self) -> bool {
        self matches OpStep::Verified(op) ==> op.well_formed()
    }
}

/// Why an operation fails, if it does.
pub open spec fn op_failure<U: LeafExtractor<Utxo>>(
    state: &LedgerState<U>,
    config: &Config,
    balance: Balance,
    op: &OpOutcome<U>,
) -> Option<LedgerError> {
    match *op {
        OpOutcome::ChannelInscribe(Err(failure)) => Some(channel_error(failure)),
        OpOutcome::ChannelConfig(Err(failure)) => Some(channel_error(failure)),
        OpOutcome::ChannelDeposit(Err(failure)) => Some(channel_error(failure)),
        OpOutcome::ChannelWithdraw(Err(failure)) => Some(channel_error(failure)),
        OpOutcome::ChannelTransfer(Err(failure)) => Some(channel_error(failure)),
        OpOutcome::SdpDeclare { service_type, outcome } => match state.mantle_ledger.sdp.service(
            service_type,
        ) {
            None => Some(sdp_error(sdp::Error::ServiceNotFound(service_type))),
            Some(_) => match outcome {
                Ok(_) => None,
                Err(failure) => Some(sdp_error(sdp::Error::SdpOp(failure))),
            },
        },
        OpOutcome::SdpActive { declaration_id, outcome, proof_epoch, proof_outcome } => {
            match sdp::active_failure(
                &state.mantle_ledger.sdp,
                declaration_id,
                &config.sdp_config,
                outcome,
                proof_epoch,
                proof_outcome,
            ) {
                Some(error) => Some(sdp_error(error)),
                None => None,
            }
        },
        OpOutcome::SdpWithdraw { declaration_id, outcome } => match sdp::service_failure(
            &state.mantle_ledger.sdp,
            declaration_id,
            &config.sdp_config,
        ) {
            Some(error) => Some(sdp_error(error)),
            None => match outcome {
                Ok(_) => None,
                Err(failure) => Some(sdp_error(sdp::Error::SdpOp(failure))),
            },
        },
        OpOutcome::LeaderClaim(Err(failure)) => Some(
            LedgerError::Mantle(mantle::Error::LeaderClaim(failure)),
        ),
        OpOutcome::Transfer(Err(failure)) => Some(
            LedgerError::Mantle(mantle::Error::Transfer(failure)),
        ),
        OpOutcome::Transfer(Ok(execution)) => if i128::MIN <= balance + execution.balance
            <= i128::MAX {
            None
        } else {
            Some(LedgerError::BalanceOverflow)
        },
        _ => None,
    }
}

/// The failure of an operation on channels.
pub open spec fn channel_error(failure: OpFailure) -> LedgerError {
    LedgerError::Mantle(mantle::Error::Channel(failure))
}

/// The failure of an operation on declarations.
pub open spec fn sdp_error(error: sdp::Error) -> LedgerError {
    LedgerError::Mantle(mantle::Error::Sdp(error))
}

/// The state `before` with these channels.
pub open spec fn with_channels<U: LeafExtractor<Utxo>>(
    before: &LedgerState<U>,
    channels: Channels,
) -> LedgerState<U> {
    LedgerState {
        mantle_ledger: mantle::LedgerState { channels, ..before.mantle_ledger },
        ..*before
    }
}

/// The state `before` with these outputs that are not spent.
pub open spec fn with_utxos<U: LeafExtractor<Utxo>>(
    before: &LedgerState<U>,
    utxos: UtxoTree<U>,
) -> LedgerState<U> {
    LedgerState {
        cryptarchia_ledger: cryptarchia::LedgerState { utxos, ..before.cryptarchia_ledger },
        ..*before
    }
}

/// The state `before` with these declarations.
pub open spec fn with_sdp<U: LeafExtractor<Utxo>>(
    before: &LedgerState<U>,
    sdp: SdpLedger,
) -> LedgerState<U> {
    LedgerState {
        mantle_ledger: mantle::LedgerState { sdp, ..before.mantle_ledger },
        ..*before
    }
}

/// Whether `after` is the state `before` after an operation that does not fail.
pub open spec fn is_op_state<U: LeafExtractor<Utxo>>(
    before: &LedgerState<U>,
    config: &Config,
    op: &OpOutcome<U>,
    after: &LedgerState<U>,
) -> bool {
    match *op {
        OpOutcome::ChannelInscribe(outcome) => *after == with_channels(
            before,
            outcome->Ok_0.channels,
        ),
        OpOutcome::ChannelConfig(outcome) => *after == with_channels(
            before,
            outcome->Ok_0.channels,
        ),
        OpOutcome::ChannelDeposit(outcome) => *after == with_utxos(
            &with_channels(before, outcome->Ok_0.channels),
            outcome->Ok_0.utxos,
        ),
        OpOutcome::ChannelWithdraw(outcome) => *after == with_channels(
            before,
            outcome->Ok_0.channels,
        ),
        OpOutcome::ChannelTransfer(outcome) => *after == with_utxos(
            &with_channels(before, outcome->Ok_0.channels),
            outcome->Ok_0.utxos,
        ),
        OpOutcome::SdpDeclare { outcome, .. } => *after == with_sdp(
            before,
            executed_sdp(&before.mantle_ledger.sdp, outcome->Ok_0),
        ),
        OpOutcome::SdpActive { declaration_id, outcome, proof_epoch, proof_outcome } => {
            &&& *after == with_sdp(before, after.mantle_ledger.sdp)
            &&& mantle::is_active_result(
                &before.mantle_ledger.sdp,
                declaration_id,
                &config.sdp_config,
                outcome,
                proof_epoch,
                proof_outcome,
                Ok((after.mantle_ledger.sdp, outcome->Ok_0.events)),
            )
        },
        OpOutcome::SdpWithdraw { outcome, .. } => *after == with_sdp(
            before,
            executed_sdp(&before.mantle_ledger.sdp, outcome->Ok_0),
        ),
        OpOutcome::LeaderClaim(outcome) => *after == with_utxos(
            &LedgerState {
                mantle_ledger: mantle::LedgerState {
                    leaders: LeaderState {
                        nfs: outcome->Ok_0.nullifiers,
                        claimable_rewards: outcome->Ok_0.claimable_rewards,
                        ..before.mantle_ledger.leaders
                    },
                    ..before.mantle_ledger
                },
                ..*before
            },
            outcome->Ok_0.utxos,
        ),
        OpOutcome::Transfer(outcome) => *after == with_utxos(before, outcome->Ok_0.utxos),
    }
}

/// The declarations after a declaration or a withdrawal.
pub open spec fn executed_sdp(before: &SdpLedger, execution: SdpExecution) -> SdpLedger {
    SdpLedger {
        blend_network: Some(
            sdp::ServiceState {
                declarations: execution.declarations,
                ..before.blend_network->0
            },
        ),
        locked_notes: execution.locked_notes,
        epoch: before.epoch,
    }
}

/// Whether `r` is what comes of an operation.
pub open spec fn is_op_result<U: LeafExtractor<Utxo>>(
    before: &LedgerState<U>,
    config: &Config,
    balance: Balance,
    events: Seq<TxEvent>,
    op: &OpOutcome<U>,
    r: Progress<U>,
) -> bool {
    match op_failure(before, config, balance, op) {
        Some(error) => r == Err::<(LedgerState<U>, Balance, Seq<TxEvent>), _>(error),
        None => {
            &&& r matches Ok((after, new_balance, new_events))
            &&& is_op_state(before, config, op, &after)
            &&& new_balance == balance + op.balance()
            &&& new_events == events + op.events()
        },
    }
}

/// Whether `r` is what comes of the next step of a transaction.
pub open spec fn is_step_result<U: LeafExtractor<Utxo>>(
    before: &LedgerState<U>,
    config: &Config,
    balance: Balance,
    events: Seq<TxEvent>,
    step: &OpStep<U>,
    r: Progress<U>,
) -> bool {
    match *step {
        OpStep::Rejected(error) => r == Err::<(LedgerState<U>, Balance, Seq<TxEvent>), _>(
            LedgerError::VerificationError(error),
        ),
        OpStep::Verified(op) => is_op_result(before, config, balance, events, &op, r),
    }
}

/// Whether `r` is what comes of the next step after `mid`.
pub open spec fn is_next<U: LeafExtractor<Utxo>>(
    config: &Config,
    mid: Progress<U>,
    step: &OpStep<U>,
    r: Progress<U>,
) -> bool {
    match mid {
        Err(error) => r == Err::<(LedgerState<U>, Balance, Seq<TxEvent>), _>(error),
        Ok((state, balance, events)) => is_step_result(
            &state,
            config,
            balance,
            events,
            step,
            r,
        ),
    }
}

/// Whether `r` is what comes of the operations of a transaction, one after the other, until
/// one of them fails.
pub open spec fn is_tx_run<U: LeafExtractor<Utxo>>(
    before: &LedgerState<U>,
    config: &Config,
    steps: Seq<OpStep<U>>,
    r: Progress<U>,
) -> bool
    decreases steps.len(),
{
    if steps.len() == 0 {
        r == Ok::<_, LedgerError>((*before, 0i128, Seq::<TxEvent>::empty()))
    } else {
        exists|mid: Progress<U>|
            is_tx_run(before, config, steps.drop_last(), mid) && #[trigger] is_next(
                config,
                mid,
                &steps.last(),
                r,
            )
    }
}

/// What `r` holds, with its events as a sequence.
pub open spec fn progress<U: LeafExtractor<Utxo>>(
    r: Result<(LedgerState<U>, Balance, Vec<TxEvent>), LedgerError>,
) -> Progress<U> {
    match r {
        Ok((state, balance, events)) => Ok((state, balance, events@)),
        Err(error) => Err(error),
    }
}

/// A failed run of a transaction is not undone by what follows.
proof fn lemma_run_failed<U: LeafExtractor<Utxo>>(
    before: &LedgerState<U>,
    config: &Config,
    steps: Seq<OpStep<U>>,
    n: int,
    r: Progress<U>,
)
    requires
        0 <= n <= steps.len(),
        is_tx_run(before, config, steps.take(n), r),
        r is Err,
    ensures
        is_tx_run(before, config, steps, r),
    decreases steps.len() - n,
{
    if n == steps.len() {
        assert(steps.take(n) =~= steps);
    } else {
        assert(steps.take(n + 1).drop_last() =~= steps.take(n));
        assert(is_next(config, r, &steps.take(n + 1).last(), r));
        lemma_run_failed(before, config, steps, n + 1, r);
    }
}

/// The balance of a transaction is the sum of what its operations add to it.
pub open spec fn balance_of<U: LeafExtractor<Utxo>>(steps: Seq<OpStep<U>>) -> int
    decreases steps.len(),
{
    if steps.len() == 0 {
        0
    } else {
        balance_of(steps.drop_last()) + match steps.last() {
            OpStep::Rejected(_) => 0,
            OpStep::Verified(op) => op.balance(),
        }
    }
}

/// A transaction changes neither prices nor what is fixed for the epoch, keeps the state well
/// formed, and has the balance that its operations add up to.
pub proof fn lemma_tx_run<U: LeafExtractor<Utxo>>(
    before: &LedgerState<U>,
    config: &Config,
    steps: Seq<OpStep<U>>,
    after: LedgerState<U>,
    balance: Balance,
    events: Seq<TxEvent>,
)
    requires
        is_tx_run(before, config, steps, Ok((after, balance, events))),
    ensures
        balance == balance_of(steps),
        after.same_epoch(before),
    decreases steps.len(),
{
    if steps.len() > 0 {
        let r: Progress<U> = Ok((after, balance, events));
        let mid = choose|mid: Progress<U>|
            is_tx_run(before, config, steps.drop_last(), mid) && #[trigger] is_next(
                config,
                mid,
                &steps.last(),
                r,
            );
        let (state, mid_balance, mid_events) = mid->Ok_0;
        lemma_tx_run(before, config, steps.drop_last(), state, mid_balance, mid_events);
    }
}

impl<U: LeafExtractor<Utxo>> LedgerState<U> {
    /// Applies an operation of a transaction, given what it leads to.
    pub fn try_apply_op(
        self,
        op: OpOutcome<U>,
        config: &Config,
        balance: Balance,
        tx_events: Vec<TxEvent>,
    ) -> (r: Result<(Self, Balance, Vec<TxEvent>), LedgerError>)
        requires
            self.well_formed(),
            op.well_formed(),
        ensures
            is_op_result(&self, config, balance, tx_events@, &op, progress(r)),
            r matches Ok((state, _, _)) ==> state.well_formed(),
    {
        let mut tx_events: Vec<TxEvent> = tx_events;
        match op {
            OpOutcome::ChannelInscribe(outcome) => {
                match self.mantle_ledger.try_apply_channel_inscription(outcome) {
                    Ok((mantle_ledger, events)) => {
                        let mut more: Vec<TxEvent> = events;
                        tx_events.append(&mut more);
                        Ok((LedgerState { mantle_ledger, ..self }, balance, tx_events))
                    },
                    Err(error) => Err(LedgerError::Mantle(error)),
                }
            },
            OpOutcome::ChannelConfig(outcome) => {
                match self.mantle_ledger.try_apply_channel_config(outcome) {
                    Ok((mantle_ledger, events)) => {
                        let mut more: Vec<TxEvent> = events;
                        tx_events.append(&mut more);
                        Ok((LedgerState { mantle_ledger, ..self }, balance, tx_events))
                    },
                    Err(error) => Err(LedgerError::Mantle(error)),
                }
            },
            OpOutcome::ChannelDeposit(outcome) => self.apply_channel_utxos(
                outcome,
                balance,
                tx_events,
            ),
            OpOutcome::ChannelWithdraw(outcome) => match outcome {
                Ok(execution) => {
                    let mut more: Vec<TxEvent> = execution.events;
                    tx_events.append(&mut more);
                    Ok(
                        (
                            LedgerState {
                                mantle_ledger: self.mantle_ledger.update_channels(
                                    execution.channels,
                                ),
                                ..self
                            },
                            balance,
                            tx_events,
                        ),
                    )
                },
                Err(failure) => Err(LedgerError::Mantle(mantle::Error::Channel(failure))),
            },
            OpOutcome::ChannelTransfer(outcome) => self.apply_channel_utxos(
                outcome,
                balance,
                tx_events,
            ),
            OpOutcome::SdpDeclare { service_type, outcome } => {
                match self.mantle_ledger.try_apply_sdp_declaration(service_type, outcome) {
                    Ok((mantle_ledger, events)) => {
                        let mut more: Vec<TxEvent> = events;
                        tx_events.append(&mut more);
                        Ok((LedgerState { mantle_ledger, ..self }, balance, tx_events))
                    },
                    Err(error) => Err(LedgerError::Mantle(error)),
                }
            },
            OpOutcome::SdpActive { declaration_id, outcome, proof_epoch, proof_outcome } => {
                match self.mantle_ledger.try_apply_sdp_active(
                    &declaration_id,
                    config,
                    outcome,
                    proof_epoch,
                    proof_outcome,
                ) {
                    Ok((mantle_ledger, events)) => {
                        let mut more: Vec<TxEvent> = events;
                        tx_events.append(&mut more);
                        Ok((LedgerState { mantle_ledger, ..self }, balance, tx_events))
                    },
                    Err(error) => Err(LedgerError::Mantle(error)),
                }
            },
            OpOutcome::SdpWithdraw { declaration_id, outcome } => {
                match self.mantle_ledger.try_apply_sdp_withdraw(&declaration_id, config, outcome) {
                    Ok((mantle_ledger, events)) => {
                        let mut more: Vec<TxEvent> = events;
                        tx_events.append(&mut more);
                        Ok((LedgerState { mantle_ledger, ..self }, balance, tx_events))
                    },
                    Err(error) => Err(LedgerError::Mantle(error)),
                }
            },
            OpOutcome::LeaderClaim(outcome) => match outcome {
                Ok(execution) => {
                    let mut state: Self = self;
                    state.mantle_ledger.leaders.update_nullifiers(execution.nullifiers);
                    state.mantle_ledger.leaders.update_rewards(execution.claimable_rewards);
                    state.cryptarchia_ledger.utxos = execution.utxos;
                    let mut more: Vec<TxEvent> = execution.events;
                    tx_events.append(&mut more);
                    Ok((state, balance, tx_events))
                },
                Err(failure) => Err(LedgerError::Mantle(mantle::Error::LeaderClaim(failure))),
            },
            OpOutcome::Transfer(outcome) => {
                match self.cryptarchia_ledger.try_apply_transfer(outcome) {
                    Ok((cryptarchia_ledger, transfer_balance, events)) => {
                        match balance.checked_add(transfer_balance) {
                            Some(sum) => {
                                let mut more: Vec<TxEvent> = events;
                                tx_events.append(&mut more);
                                Ok((LedgerState { cryptarchia_ledger, ..self }, sum, tx_events))
                            },
                            None => Err(LedgerError::BalanceOverflow),
                        }
                    },
                    Err(error) => Err(error),
                }
            },
        }
    }

    /// Applies an operation that moves tokens into a channel or out of it.
    fn apply_channel_utxos(
        self,
        outcome: Result<ChannelUtxoExecution<U>, OpFailure>,
        balance: Balance,
        tx_events: Vec<TxEvent>,
    ) -> (r: Result<(Self, Balance, Vec<TxEvent>), LedgerError>)
        ensures
            match outcome {
                Ok(execution) => {
                    &&& r matches Ok((after, new_balance, events))
                    &&& after == with_utxos(
                        &with_channels(&self, execution.channels),
                        execution.utxos,
                    )
                    &&& new_balance == balance
                    &&& events@ == tx_events@ + execution.events@
                },
                Err(failure) => r == Err::<(Self, Balance, Vec<TxEvent>), _>(
                    channel_error(failure),
                ),
            },
    {
        match outcome {
            Ok(execution) => {
                let mut tx_events: Vec<TxEvent> = tx_events;
                let mut more: Vec<TxEvent> = execution.events;
                tx_events.append(&mut more);
                Ok(
                    (
                        LedgerState {
                            mantle_ledger: self.mantle_ledger.update_channels(execution.channels),
                            cryptarchia_ledger: self.cryptarchia_ledger.update_utxos(
                                execution.utxos,
                            ),
                            ..self
                        },
                        balance,
                        tx_events,
                    ),
                )
            },
            Err(failure) => Err(LedgerError::Mantle(mantle::Error::Channel(failure))),
        }
    }

    /// Applies the operations of a transaction, one after the other, given what each leads
    /// to in the state that those before it have led to.
    pub fn try_apply_tx(self, config: &Config, steps: Vec<OpStep<U>>) -> (r: Result<
        (Self, Balance, Vec<TxEvent>),
        LedgerError,
    >)
        requires
            self.well_formed(),
            forall|i: int| 0 <= i < steps@.len() ==> (#[trigger] steps@[i]).well_formed(),
        ensures
            is_tx_run(&self, config, steps@, progress(r)),
            r matches Ok((state, _, _)) ==> state.well_formed(),
    {
        let ghost all = steps@;
        let ghost before = self;
        let mut state: Self = self;
        let mut balance: Balance = 0;
        let mut tx_events: Vec<TxEvent> = Vec::new();
        assert(all.take(0) =~= Seq::empty());
        for step in it: steps
            invariant
                it.seq() == all,
                all == steps@,
                before == self,
                forall|i: int| 0 <= i < all.len() ==> (#[trigger] all[i]).well_formed(),
                state.well_formed(),
                is_tx_run(
                    &before,
                    config,
                    all.take(it.index() as int),
                    Ok((state, balance, tx_events@)),
                ),
        {
            let ghost i = it.index() as int;
            proof {
                assert(all[i] == step);
                assert(all.take(i + 1).drop_last() =~= all.take(i));
                assert(all.take(i + 1).last() == step);
            }
            let ghost mid: Progress<U> = Ok((state, balance, tx_events@));
            match step {
                OpStep::Rejected(error) => {
                    let failure: LedgerError = LedgerError::VerificationError(error);
                    proof {
                        let r: Progress<U> = Err(failure);
                        assert(is_next(config, mid, &all.take(i + 1).last(), r));
                        lemma_run_failed(&before, config, all, i + 1, r);
                    }
                    return Err(failure);
                },
                OpStep::Verified(op) => {
                    match state.try_apply_op(op, config, balance, tx_events) {
                        Ok((new_state, new_balance, new_events)) => {
                            state = new_state;
                            balance = new_balance;
                            tx_events = new_events;
                            assert(is_next(
                                config,
                                mid,
                                &all.take(i + 1).last(),
                                Ok((state, balance, tx_events@)),
                            ));
                        },
                        Err(failure) => {
                            proof {
                                let r: Progress<U> = Err(failure);
                                assert(is_next(config, mid, &all.take(i + 1).last(), r));
                                lemma_run_failed(&before, config, all, i + 1, r);
                            }
                            return Err(failure);
                        },
                    }
                },
            }
        }
        assert(all.take(all.len() as int) =~= all);
        Ok((state, balance, tx_events))
    }
}

} // verus!
