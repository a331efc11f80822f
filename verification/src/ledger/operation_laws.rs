//! Laws of operations.
use vstd::prelude::*;

use crate::config::Config;
use crate::cryptarchia::TransferExecution;
use crate::error::LedgerError;
use crate::ledger::contexts;
use crate::ledger::contexts::{OpContext, OpRequest};
use crate::ledger::ops;
use crate::ledger::ops::{
    ChannelUtxoExecution, LeaderClaimExecution, OpOutcome, OpStep, Progress,
};
use crate::ledger::LedgerState;
use crate::mantle;
use crate::mantle::helpers::VerificationError;
use crate::mantle::sdp;
use crate::mantle::sdp::rewards::blend::target_epoch::ProofOutcome;
use crate::mantle::sdp::{ActiveExecution, SdpExecution};
use crate::mantle::ChannelExecution;
use crate::merkle::tree::LeafExtractor;
use crate::types::{
    Balance, DeclarationId, Epoch, OpFailure, ProviderId, ServiceType, TxEvent, TxHash, Utxo,
};

verus! {

/// Whether `after` differs from `before` in nothing but its channels and its notes.
pub open spec fn same_but_channels_and_notes<U: LeafExtractor<Utxo>>(
    before: &LedgerState<U>,
    after: &LedgerState<U>,
) -> bool {
    let old_chain = before.cryptarchia_ledger;
    let new_chain = after.cryptarchia_ledger;
    &&& after.block_number == before.block_number
    &&& new_chain.nonce == old_chain.nonce
    &&& new_chain.slot == old_chain.slot
    &&& new_chain.next_epoch_state == old_chain.next_epoch_state
    &&& new_chain.epoch_state == old_chain.epoch_state
    &&& new_chain.block_density == old_chain.block_density
    &&& new_chain.fee_window == old_chain.fee_window
    &&& new_chain.average_execution_gas == old_chain.average_execution_gas
    &&& new_chain.execution_base_fee == old_chain.execution_base_fee
    &&& new_chain.storage_gas_ema == old_chain.storage_gas_ema
    &&& new_chain.storage_gas_price == old_chain.storage_gas_price
    &&& new_chain.storage_gas_consumed_in_epoch == old_chain.storage_gas_consumed_in_epoch
}

/// A message in a channel, new keys for it, and a withdrawal from it are accepted if and only if
/// they were executed. The channels are then as they were left, and nothing else changes.
pub proof fn channel_operations_are_taken_over<U: LeafExtractor<Utxo>>(
    before: &LedgerState<U>,
    config: &Config,
    balance: Balance,
    events: Seq<TxEvent>,
    outcome: Result<ChannelExecution, OpFailure>,
    op: OpOutcome<U>,
    r: Progress<U>,
)
    requires
        op == OpOutcome::<U>::ChannelInscribe(outcome) || op == OpOutcome::<U>::ChannelConfig(
            outcome,
        ) || op == OpOutcome::<U>::ChannelWithdraw(outcome),
        ops::is_op_result(before, config, balance, events, &op, r),
    ensures
        outcome matches Err(failure) ==> r == Err::<(LedgerState<U>, Balance, Seq<TxEvent>), _>(
            LedgerError::Mantle(mantle::Error::Channel(failure)),
        ),
        outcome matches Ok(execution) ==> {
            &&& r matches Ok((after, new_balance, new_events))
            &&& after.mantle_ledger.channels == execution.channels
            &&& same_but_channels_and_notes(before, &after)
            &&& after.cryptarchia_ledger.utxos == before.cryptarchia_ledger.utxos
            &&& after.mantle_ledger.sdp == before.mantle_ledger.sdp
            &&& after.mantle_ledger.leaders == before.mantle_ledger.leaders
            &&& new_balance == balance
            &&& new_events == events + execution.events@
        },
{
}

/// A deposit in a channel, and a transfer between channels, is accepted if and only if it was
/// executed. The channels and the notes are then as they were left, and nothing else changes.
pub proof fn channel_payments_are_taken_over<U: LeafExtractor<Utxo>>(
    before: &LedgerState<U>,
    config: &Config,
    balance: Balance,
    events: Seq<TxEvent>,
    outcome: Result<ChannelUtxoExecution<U>, OpFailure>,
    op: OpOutcome<U>,
    r: Progress<U>,
)
    requires
        op == OpOutcome::<U>::ChannelDeposit(outcome) || op == OpOutcome::<U>::ChannelTransfer(
            outcome,
        ),
        ops::is_op_result(before, config, balance, events, &op, r),
    ensures
        outcome matches Err(failure) ==> r == Err::<(LedgerState<U>, Balance, Seq<TxEvent>), _>(
            LedgerError::Mantle(mantle::Error::Channel(failure)),
        ),
        outcome matches Ok(execution) ==> {
            &&& r matches Ok((after, new_balance, new_events))
            &&& after.mantle_ledger.channels == execution.channels
            &&& after.cryptarchia_ledger.utxos == execution.utxos
            &&& same_but_channels_and_notes(before, &after)
            &&& after.mantle_ledger.sdp == before.mantle_ledger.sdp
            &&& after.mantle_ledger.leaders == before.mantle_ledger.leaders
            &&& new_balance == balance
            &&& new_events == events + execution.events@
        },
{
}

/// A declaration is accepted if and only if the service is offered and the declaration was
/// executed. The declarations and the locked notes are then as they were left, and nothing else
/// changes.
pub proof fn declarations_are_taken_over<U: LeafExtractor<Utxo>>(
    before: &LedgerState<U>,
    config: &Config,
    balance: Balance,
    events: Seq<TxEvent>,
    service_type: ServiceType,
    outcome: Result<SdpExecution, OpFailure>,
    r: Progress<U>,
)
    requires
        ops::is_op_result(
            before,
            config,
            balance,
            events,
            &OpOutcome::SdpDeclare { service_type, outcome },
            r,
        ),
    ensures
        ({
            let offered = service_type == ServiceType::BlendNetwork
                && before.mantle_ledger.sdp.blend_network is Some;
            &&& r is Ok <==> offered && outcome is Ok
            &&& !offered ==> r == Err::<(LedgerState<U>, Balance, Seq<TxEvent>), _>(
                LedgerError::Mantle(mantle::Error::Sdp(sdp::Error::ServiceNotFound(service_type))),
            )
            &&& offered ==> (outcome matches Err(failure) ==> r == Err::<
                (LedgerState<U>, Balance, Seq<TxEvent>),
                _,
            >(LedgerError::Mantle(mantle::Error::Sdp(sdp::Error::SdpOp(failure)))))
        }),
        r matches Ok((after, new_balance, new_events)) ==> is_sdp_taken_over(
            before,
            outcome->Ok_0,
            &after,
        ) && new_balance == balance && new_events == events + outcome->Ok_0.events@,
{
}

/// Whether `after` has the declarations and the locked notes that were left, and is otherwise
/// `before`.
pub open spec fn is_sdp_taken_over<U: LeafExtractor<Utxo>>(
    before: &LedgerState<U>,
    execution: SdpExecution,
    after: &LedgerState<U>,
) -> bool {
    &&& after.mantle_ledger.sdp.blend_network matches Some(service)
    &&& service.declarations == execution.declarations
    &&& service.rewards == before.mantle_ledger.sdp.blend_network->0.rewards
    &&& after.mantle_ledger.sdp.locked_notes == execution.locked_notes
    &&& after.mantle_ledger.sdp.epoch == before.mantle_ledger.sdp.epoch
    &&& after.mantle_ledger.channels == before.mantle_ledger.channels
    &&& after.mantle_ledger.leaders == before.mantle_ledger.leaders
    &&& after.cryptarchia_ledger == before.cryptarchia_ledger
    &&& after.block_number == before.block_number
}

/// A withdrawal is accepted if and only if there is the declaration, the service has parameters,
/// and the withdrawal was executed.
pub proof fn withdrawals_are_taken_over<U: LeafExtractor<Utxo>>(
    before: &LedgerState<U>,
    config: &Config,
    balance: Balance,
    events: Seq<TxEvent>,
    declaration_id: DeclarationId,
    outcome: Result<SdpExecution, OpFailure>,
    r: Progress<U>,
)
    requires
        ops::is_op_result(
            before,
            config,
            balance,
            events,
            &OpOutcome::SdpWithdraw { declaration_id, outcome },
            r,
        ),
    ensures
        ({
            let known = before.mantle_ledger.sdp.blend_network matches Some(service)
                && service.declarations@.dom().contains(declaration_id);
            let params = config.sdp_config.service_params.blend_network is Some;
            &&& r is Ok <==> known && params && outcome is Ok
            &&& !known ==> r == Err::<(LedgerState<U>, Balance, Seq<TxEvent>), _>(
                LedgerError::Mantle(
                    mantle::Error::Sdp(sdp::Error::DeclarationNotFound(declaration_id)),
                ),
            )
            &&& known && params ==> (outcome matches Err(failure) ==> r == Err::<
                (LedgerState<U>, Balance, Seq<TxEvent>),
                _,
            >(LedgerError::Mantle(mantle::Error::Sdp(sdp::Error::SdpOp(failure)))))
        }),
        r matches Ok((after, new_balance, new_events)) ==> is_sdp_taken_over(
            before,
            outcome->Ok_0,
            &after,
        ) && new_balance == balance && new_events == events + outcome->Ok_0.events@,
{
}

/// An activity message is accepted if and only if there is the declaration, the service has
/// parameters, the message was executed, and the provider has proven its activity in the epoch
/// that it can be proven for, once. Its distance is then kept with its key, and nothing else
/// changes but the declarations.
pub proof fn activity_is_taken_over<U: LeafExtractor<Utxo>>(
    before: &LedgerState<U>,
    config: &Config,
    balance: Balance,
    events: Seq<TxEvent>,
    declaration_id: DeclarationId,
    outcome: Result<ActiveExecution, OpFailure>,
    proof_epoch: Epoch,
    proof_outcome: ProofOutcome,
    r: Progress<U>,
    other: ProviderId,
)
    requires
        ops::is_op_result(
            before,
            config,
            balance,
            events,
            &OpOutcome::SdpActive { declaration_id, outcome, proof_epoch, proof_outcome },
            r,
        ),
    ensures
        ({
            let known = before.mantle_ledger.sdp.blend_network matches Some(service)
                && service.declarations@.dom().contains(declaration_id);
            let rewards = before.mantle_ledger.sdp.blend_network->0.rewards;
            let provider_id = outcome->Ok_0.declarations@[declaration_id].provider_id;
            &&& r is Ok <==> {
                &&& known
                &&& config.sdp_config.service_params.blend_network is Some
                &&& outcome is Ok
                &&& rewards.target() is Some
                &&& proof_epoch == rewards.target()->0.epoch
                &&& rewards.target()->0.providers@.dom().contains(provider_id)
                &&& proof_outcome is Distance
                &&& !rewards.submitted().dom().contains(provider_id)
            }
            &&& r matches Ok((after, new_balance, new_events)) ==> {
                &&& after.mantle_ledger.sdp.blend_network matches Some(service)
                &&& service.declarations == outcome->Ok_0.declarations
                &&& service.rewards.submitted().dom().contains(other) <==> other == provider_id
                    || rewards.submitted().dom().contains(other)
                &&& service.rewards.submitted()[provider_id].0
                    == rewards.target()->0.providers@[provider_id].0
                &&& service.rewards.submitted()[provider_id].1 == proof_outcome->Distance_0
                &&& other != provider_id ==> service.rewards.submitted()[other]
                    == rewards.submitted()[other]
                &&& service.rewards.target() == rewards.target()
                &&& service.rewards.current() == rewards.current()
                &&& service.rewards.income() == rewards.income()
                &&& after.mantle_ledger.sdp.locked_notes == before.mantle_ledger.sdp.locked_notes
                &&& after.mantle_ledger.sdp.epoch == before.mantle_ledger.sdp.epoch
                &&& after.mantle_ledger.channels == before.mantle_ledger.channels
                &&& after.mantle_ledger.leaders == before.mantle_ledger.leaders
                &&& after.cryptarchia_ledger == before.cryptarchia_ledger
                &&& after.block_number == before.block_number
                &&& new_balance == balance
                &&& new_events == events + outcome->Ok_0.events@
            }
        }),
{
}

/// A claim of a leader is accepted if and only if it was executed. The nullifiers, the rewards
/// that can be claimed and the notes are then as they were left, and nothing else changes.
pub proof fn claims_are_taken_over<U: LeafExtractor<Utxo>>(
    before: &LedgerState<U>,
    config: &Config,
    balance: Balance,
    events: Seq<TxEvent>,
    outcome: Result<LeaderClaimExecution<U>, OpFailure>,
    r: Progress<U>,
)
    requires
        ops::is_op_result(
            before,
            config,
            balance,
            events,
            &OpOutcome::LeaderClaim(outcome),
            r,
        ),
    ensures
        outcome matches Err(failure) ==> r == Err::<(LedgerState<U>, Balance, Seq<TxEvent>), _>(
            LedgerError::Mantle(mantle::Error::LeaderClaim(failure)),
        ),
        outcome matches Ok(execution) ==> {
            &&& r matches Ok((after, new_balance, new_events))
            &&& after.mantle_ledger.leaders.nfs == execution.nullifiers
            &&& after.mantle_ledger.leaders.claimable_rewards == execution.claimable_rewards
            &&& after.mantle_ledger.leaders.pending_rewards
                == before.mantle_ledger.leaders.pending_rewards
            &&& after.mantle_ledger.leaders.vouchers_snapshot
                == before.mantle_ledger.leaders.vouchers_snapshot
            &&& after.mantle_ledger.leaders.vouchers == before.mantle_ledger.leaders.vouchers
            &&& after.mantle_ledger.leaders.epoch == before.mantle_ledger.leaders.epoch
            &&& after.cryptarchia_ledger.utxos == execution.utxos
            &&& same_but_channels_and_notes(before, &after)
            &&& after.mantle_ledger.channels == before.mantle_ledger.channels
            &&& after.mantle_ledger.sdp == before.mantle_ledger.sdp
            &&& new_balance == balance
            &&& new_events == events + execution.events@
        },
{
}

/// A transfer is accepted if and only if it was executed and the balance can be counted. What
/// its inputs are worth more than its outputs is added to the balance. The notes are then as they
/// were left, and nothing else changes.
pub proof fn transfers_add_to_the_balance<U: LeafExtractor<Utxo>>(
    before: &LedgerState<U>,
    config: &Config,
    balance: Balance,
    events: Seq<TxEvent>,
    outcome: Result<TransferExecution<U>, OpFailure>,
    r: Progress<U>,
)
    requires
        ops::is_op_result(before, config, balance, events, &OpOutcome::Transfer(outcome), r),
    ensures
        outcome matches Err(failure) ==> r == Err::<(LedgerState<U>, Balance, Seq<TxEvent>), _>(
            LedgerError::Mantle(mantle::Error::Transfer(failure)),
        ),
        outcome matches Ok(execution) ==> {
            &&& r == Err::<(LedgerState<U>, Balance, Seq<TxEvent>), _>(LedgerError::BalanceOverflow)
                <==> balance + execution.balance < i128::MIN || balance + execution.balance
                > i128::MAX
            &&& r is Ok <==> i128::MIN <= balance + execution.balance <= i128::MAX
            &&& r matches Ok((after, new_balance, new_events)) ==> {
                &&& new_balance == balance + execution.balance
                &&& new_events == events + execution.events@
                &&& after.cryptarchia_ledger.utxos == execution.utxos
                &&& same_but_channels_and_notes(before, &after)
                &&& after.mantle_ledger == before.mantle_ledger
            }
        },
{
}

/// An operation that was not verified ends its transaction.
pub proof fn unverified_operations_are_rejected<U: LeafExtractor<Utxo>>(
    before: &LedgerState<U>,
    config: &Config,
    balance: Balance,
    events: Seq<TxEvent>,
    error: VerificationError,
    r: Progress<U>,
)
    requires
        ops::is_next(config, Ok((*before, balance, events)), &OpStep::Rejected(error), r),
    ensures
        r == Err::<(LedgerState<U>, Balance, Seq<TxEvent>), _>(
            LedgerError::VerificationError(error),
        ),
{
}

/// What a step of a transaction pays: only transfers do.
pub open spec fn paid_by<U: LeafExtractor<Utxo>>(step: OpStep<U>) -> int {
    match step {
        OpStep::Verified(OpOutcome::Transfer(Ok(execution))) => execution.balance as int,
        _ => 0,
    }
}

/// A transaction pays what its transfers pay in all.
pub proof fn balances_add_up<U: LeafExtractor<Utxo>>(
    before: &LedgerState<U>,
    config: &Config,
    steps: Seq<OpStep<U>>,
    after: LedgerState<U>,
    balance: Balance,
    events: Seq<TxEvent>,
)
    requires
        ops::is_tx_run(before, config, steps, Ok((after, balance, events))),
    ensures
        balance == steps.fold_left(0int, |total: int, step: OpStep<U>| total + paid_by(step)),
        forall|i: int| 0 <= i < steps.len() ==> #[trigger] steps[i] is Verified,
    decreases steps.len(),
{
    if steps.len() > 0 {
        let r: Progress<U> = Ok((after, balance, events));
        let mid = choose|mid: Progress<U>|
            ops::is_tx_run(before, config, steps.drop_last(), mid) && #[trigger] ops::is_next(
                config,
                mid,
                &steps.last(),
                r,
            );
        let (state, mid_balance, mid_events) = mid->Ok_0;
        balances_add_up(before, config, steps.drop_last(), state, mid_balance, mid_events);
        assert forall|i: int| 0 <= i < steps.len() implies #[trigger] steps[i] is Verified by {
            if i < steps.len() - 1 {
                assert(steps.drop_last()[i] == steps[i]);
            }
        }
    }
}

/// A transaction fails as soon as one of its operations does, with that failure.
pub proof fn first_failure_ends_the_transaction<U: LeafExtractor<Utxo>>(
    before: &LedgerState<U>,
    config: &Config,
    steps: Seq<OpStep<U>>,
    step: OpStep<U>,
    error: LedgerError,
    r: Progress<U>,
)
    requires
        ops::is_tx_run(before, config, steps.push(step), r),
        forall|mid: Progress<U>| #[trigger]
            ops::is_tx_run(before, config, steps, mid) ==> mid == Err::<
                (LedgerState<U>, Balance, Seq<TxEvent>),
                _,
            >(error),
    ensures
        r == Err::<(LedgerState<U>, Balance, Seq<TxEvent>), _>(error),
{
    let all = steps.push(step);
    assert(all.drop_last() =~= steps);
    let mid = choose|mid: Progress<U>|
        ops::is_tx_run(before, config, all.drop_last(), mid) && #[trigger] ops::is_next(
            config,
            mid,
            &all.last(),
            r,
        );
    assert(ops::is_tx_run(before, config, steps, mid));
}

/// Operations on channels and notes always get to work: on the channels, the notes and the slot
/// of the ledger, and on the hash of their transaction.
pub proof fn channel_operations_see_the_ledger<U: LeafExtractor<Utxo>>(
    state: &LedgerState<U>,
    config: &Config,
    tx_hash: TxHash,
)
    ensures
        ({
            let channels = state.mantle_ledger.channels;
            let utxos = state.cryptarchia_ledger.utxos;
            let block_slot = state.cryptarchia_ledger.slot;
            &&& contexts::context_of(state, config, OpRequest::ChannelInscribe) == Ok::<
                _,
                LedgerError,
            >(OpContext::<U>::Channel { channels, block_slot })
            &&& contexts::context_of(state, config, OpRequest::ChannelConfig) == Ok::<
                _,
                LedgerError,
            >(OpContext::<U>::Channel { channels, block_slot })
            &&& contexts::context_of(state, config, OpRequest::ChannelDeposit { tx_hash }) == Ok::<
                _,
                LedgerError,
            >(OpContext::ChannelUtxos { channels, utxos, tx_hash })
            &&& contexts::context_of(state, config, OpRequest::ChannelTransfer { tx_hash })
                == Ok::<_, LedgerError>(OpContext::ChannelUtxos { channels, utxos, tx_hash })
            &&& contexts::context_of(state, config, OpRequest::ChannelWithdraw { tx_hash })
                == Ok::<_, LedgerError>(OpContext::<U>::ChannelWithdraw { channels, tx_hash })
            &&& contexts::context_of(state, config, OpRequest::Transfer) == Ok::<_, LedgerError>(
                OpContext::Transfer { utxos },
            )
        }),
{
}

/// A claim of a leader works on what was claimed, and on an equal share of what can be claimed,
/// rounded down.
pub proof fn claims_see_an_equal_share<U: LeafExtractor<Utxo>>(
    state: &LedgerState<U>,
    config: &Config,
    tx_hash: TxHash,
)
    ensures
        contexts::context_of(state, config, OpRequest::LeaderClaim { tx_hash }) matches Ok(context)
            && {
            &&& context matches OpContext::LeaderClaim {
                nullifiers,
                reward_amount,
                claimable_rewards,
                utxos,
                tx_hash: hash,
            }
            &&& nullifiers == state.mantle_ledger.leaders.nfs
            &&& claimable_rewards == state.mantle_ledger.leaders.claimable_rewards
            &&& utxos == state.cryptarchia_ledger.utxos
            &&& hash == tx_hash
            &&& {
                let left = state.mantle_ledger.leaders.vouchers_snapshot.count
                    - state.mantle_ledger.leaders.nfs@.len();
                &&& left > 0 ==> reward_amount * left <= claimable_rewards < (reward_amount + 1)
                    * left
                &&& left <= 0 ==> reward_amount == 0
            }
        },
{
    let leaders = state.mantle_ledger.leaders;
    mantle::leader_laws::rewards_are_equal_shares(leaders);
    let left = leaders.vouchers_snapshot.count - leaders.nfs@.len();
    let reward = leaders.reward();
    if left > 0 {
        assert(reward <= reward * left) by (nonlinear_arith)
            requires
                reward >= 0,
                left > 0,
        ;
    }
}

/// Operations on declarations work on the declarations, the locked notes and the epoch of the
/// ledger. A new one works on the notes too, and on the least stake. They get to work if and only
/// if the service is offered, and for a message if there is the declaration and the service has
/// parameters.
pub proof fn declarations_see_the_ledger<U: LeafExtractor<Utxo>>(
    state: &LedgerState<U>,
    config: &Config,
    service_type: ServiceType,
    declaration_id: DeclarationId,
)
    ensures
        ({
            let sdp = state.mantle_ledger.sdp;
            let known = sdp.blend_network matches Some(service)
                && service.declarations@.dom().contains(declaration_id);
            let params = config.sdp_config.service_params.blend_network is Some;
            let declarations = sdp.blend_network->0.declarations;
            &&& contexts::context_of(state, config, OpRequest::SdpDeclare { service_type }) == if (
            service_type == ServiceType::BlendNetwork && sdp.blend_network is Some) {
                Ok(
                    OpContext::SdpDeclare {
                        utxos: state.cryptarchia_ledger.utxos,
                        epoch: sdp.epoch,
                        declarations,
                        locked_notes: sdp.locked_notes,
                        min_stake: config.sdp_config.min_stake,
                    },
                )
            } else {
                Err(
                    LedgerError::Mantle(
                        mantle::Error::Sdp(sdp::Error::ServiceNotFound(service_type)),
                    ),
                )
            }
            &&& known && params ==> {
                &&& contexts::context_of(state, config, OpRequest::SdpActive { declaration_id })
                    == Ok::<_, LedgerError>(
                    OpContext::<U>::SdpActive { epoch: sdp.epoch, declarations },
                )
                &&& contexts::context_of(state, config, OpRequest::SdpWithdraw { declaration_id })
                    == Ok::<_, LedgerError>(
                    OpContext::<U>::SdpWithdraw {
                        declarations,
                        locked_notes: sdp.locked_notes,
                        epoch: sdp.epoch,
                    },
                )
            }
            &&& !(known && params) ==> {
                &&& contexts::context_of(state, config, OpRequest::SdpActive { declaration_id })
                    is Err
                &&& contexts::context_of(state, config, OpRequest::SdpWithdraw { declaration_id })
                    is Err
            }
        }),
{
}

} // verus!
