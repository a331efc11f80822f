//! Laws of blocks.
use vstd::prelude::*;

use crate::merkle::tree::LeafExtractor;
use crate::session::config::Config;
use crate::session::cryptarchia;
use crate::session::error::LedgerError;
use crate::session::laws;
use crate::session::leader_proof::LeaderProof;
use crate::session::ledger;
use crate::session::ledger::{Block, Ledger, LedgerState, TxInput};
use crate::session::mantle;
use crate::session::mantle::OpContext;
use crate::session::membership::FinalizedDeclarationState;
use crate::session::operation_laws;
use crate::types::{DeclarationId, HeaderId, OpFailure, ServiceType, Utxo};

verus! {

/// The transactions of a block are applied in their order, each to what those before it have
/// left.
pub proof fn transactions_follow_each_other<U: LeafExtractor<Utxo>>(
    before: &LedgerState<U>,
    config: &Config,
    txs: Seq<TxInput>,
    tx: TxInput,
    after: LedgerState<U>,
)
    requires
        ledger::is_block_run(before, config, txs.push(tx), Ok(after)),
    ensures
        exists|mid: LedgerState<U>| #[trigger]
            ledger::is_block_run(before, config, txs, Ok(mid)) && ledger::is_tx_result(
                &mid,
                config,
                tx,
                Ok(after),
            ),
{
    let all = txs.push(tx);
    assert(all.drop_last() =~= txs);
    let r: Result<LedgerState<U>, LedgerError> = Ok(after);
    let mid = choose|mid: Result<LedgerState<U>, LedgerError>|
        ledger::is_block_run(before, config, all.drop_last(), mid) && #[trigger] ledger::is_next(
            config,
            mid,
            all.last(),
            r,
        );
    assert(ledger::is_block_run(before, config, txs, Ok(mid->Ok_0)));
}

/// Through a block the nonce of a declaration only grows, and the declaration stays.
pub proof fn nonces_grow_through_blocks<U: LeafExtractor<Utxo>>(
    before: &LedgerState<U>,
    config: &Config,
    txs: Seq<TxInput>,
    after: LedgerState<U>,
    id: DeclarationId,
)
    requires
        ledger::is_block_run(before, config, txs, Ok(after)),
        before.mantle_ledger.sdp.declarations@.dom().contains(id),
    ensures
        after.mantle_ledger.sdp.declarations@.dom().contains(id),
        after.mantle_ledger.sdp.declarations@[id].nonce
            >= before.mantle_ledger.sdp.declarations@[id].nonce,
        forall|i: int, k: int|
            0 <= i < txs.len() && 0 <= k < txs[i].ops@.len()
                && #[trigger] operation_laws::subject_of(txs[i].ops@[k].0) == Some(id)
                ==> before.mantle_ledger.sdp.declarations@[id].nonce < operation_laws::nonce_of(
                txs[i].ops@[k].0,
            ) <= after.mantle_ledger.sdp.declarations@[id].nonce,
    decreases txs.len(),
{
    if txs.len() > 0 {
        let rest = txs.drop_last();
        let tx = txs.last();
        let r: Result<LedgerState<U>, LedgerError> = Ok(after);
        let mid = choose|mid: Result<LedgerState<U>, LedgerError>|
            ledger::is_block_run(before, config, rest, mid) && #[trigger] ledger::is_next(
                config,
                mid,
                tx,
                r,
            );
        let state = mid->Ok_0;
        nonces_grow_through_blocks(before, config, rest, state, id);
        let (consensus, run) = choose|
            consensus: cryptarchia::LedgerState<U>,
            run: mantle::Progress<U::Hasher>,
        |
            cryptarchia::is_applied(state.cryptarchia_ledger, tx.ledger_tx, consensus)
                && #[trigger] ledger::is_ops_result(
                &state,
                config,
                tx,
                consensus,
                cryptarchia::input_value(
                    state.cryptarchia_ledger.utxos.entries(),
                    tx.ledger_tx.inputs@,
                ) - cryptarchia::output_value(tx.ledger_tx.outputs@),
                run,
                r,
            );
        let (done, balance) = run->Ok_0;
        operation_laws::nonces_only_grow(
            &state.mantle_ledger,
            config,
            consensus.utxos.entries(),
            OpContext { block_number: state.block_number, tx_hash: tx.tx_hash },
            tx.ops@,
            done,
            balance,
            id,
        );
        assert forall|i: int, k: int|
            0 <= i < txs.len() && 0 <= k < txs[i].ops@.len()
                && #[trigger] operation_laws::subject_of(txs[i].ops@[k].0) == Some(
                id,
            ) implies before.mantle_ledger.sdp.declarations@[id].nonce < operation_laws::nonce_of(
            txs[i].ops@[k].0,
        ) <= after.mantle_ledger.sdp.declarations@[id].nonce by {
            if i < rest.len() {
                assert(rest[i] == txs[i]);
                assert(operation_laws::subject_of(rest[i].ops@[k].0) == Some(id));
            } else {
                assert(txs[i] == tx);
                assert(operation_laws::subject_of(tx.ops@[k].0) == Some(id));
            }
        }
    }
}

/// With each block the session of a service that is forming starts if the number of the block
/// has reached it, and the next one forms then. Otherwise the running session goes on.
pub proof fn sessions_start_with_their_blocks<U: LeafExtractor<Utxo>>(
    before: &LedgerState<U>,
    config: &Config,
    txs: Seq<TxInput>,
    outcomes: Map<DeclarationId, Result<FinalizedDeclarationState, OpFailure>>,
    after: LedgerState<U>,
    service: ServiceType,
)
    requires
        before.mantle_ledger.sdp.well_formed(),
        config.service_params.well_formed(),
        ledger::is_contents_result(before, config, txs, outcomes, Ok(after)),
    ensures
        config.service_params.blend_network is Some,
        config.service_params.data_availability is Some,
        ({
            let duration = match service {
                ServiceType::BlendNetwork => config.service_params.blend_network->0.session_duration,
                ServiceType::DataAvailability => {
                    config.service_params.data_availability->0.session_duration
                },
            };
            let forming = operation_laws::session_of(
                before.mantle_ledger.sdp.forming_sessions,
                service,
            );
            let active = operation_laws::session_of(
                before.mantle_ledger.sdp.active_sessions,
                service,
            );
            let new_active = operation_laws::session_of(
                after.mantle_ledger.sdp.active_sessions,
                service,
            );
            let new_forming = operation_laws::session_of(
                after.mantle_ledger.sdp.forming_sessions,
                service,
            );
            &&& forming.session_number * duration <= before.block_number ==> {
                &&& new_active.session_number == forming.session_number
                &&& new_forming.session_number == forming.session_number + 1
                &&& new_active.declarations@ == new_forming.declarations@
            }
            &&& forming.session_number * duration > before.block_number ==> {
                &&& new_active == active
                &&& new_forming.session_number == forming.session_number
            }
        }),
        after.block_number == before.block_number,
        after.cryptarchia_ledger.slot == before.cryptarchia_ledger.slot,
        after.cryptarchia_ledger.nonce == before.cryptarchia_ledger.nonce,
        after.cryptarchia_ledger.epoch_state == before.cryptarchia_ledger.epoch_state,
        after.mantle_ledger.leaders.vouchers == before.mantle_ledger.leaders.vouchers,
{
    let r: Result<LedgerState<U>, LedgerError> = Ok(after);
    let run = choose|run: Result<LedgerState<U>, LedgerError>| #[trigger]
        ledger::is_block_run(before, config, txs, run) && match run {
            Err(error) => r == Err::<LedgerState<U>, _>(error),
            Ok(state) => after == (LedgerState {
                mantle_ledger: mantle::LedgerState {
                    sdp: after.mantle_ledger.sdp,
                    ..state.mantle_ledger
                },
                ..state
            }) && mantle::is_membership_update(
                &state.mantle_ledger.sdp,
                state.block_number,
                config,
                outcomes,
                Ok(after.mantle_ledger.sdp),
            ),
        };
    let state = run->Ok_0;
    laws::lemma_block_run(before, config, txs, state);
    operation_laws::sessions_take_active_declarations(
        &state.mantle_ledger.sdp,
        state.block_number,
        config,
        outcomes,
        after.mantle_ledger.sdp,
        service,
        crate::merkle::hasher::empty_value(),
    );
}

/// A block adds one block and one voucher to the chain, at its slot and with its nonce.
pub proof fn blocks_extend_the_chain<U: LeafExtractor<Utxo>, P: LeaderProof>(
    before: &LedgerState<U>,
    proof: &P,
    config: &Config,
    block: Block,
    after: LedgerState<U>,
)
    requires
        before.mantle_ledger.sdp.well_formed(),
        config.service_params.well_formed(),
        ledger::is_update_result(before, proof, config, block, Ok(after)),
    ensures
        after.block_number == before.block_number + 1,
        after.cryptarchia_ledger.slot == block.slot,
        block.slot > before.cryptarchia_ledger.slot,
        after.cryptarchia_ledger.nonce == block.nonce,
        after.mantle_ledger.leaders.vouchers.leaf_count()
            == before.mantle_ledger.leaders.vouchers.leaf_count() + 1,
        after.mantle_ledger.leaders.vouchers.peaks()
            == before.mantle_ledger.leaders.vouchers.peaks_with(block.voucher),
{
    let r: Result<LedgerState<U>, LedgerError> = Ok(after);
    let header = choose|header: Result<LedgerState<U>, LedgerError>| #[trigger]
        ledger::is_header_result(
            before,
            block.slot,
            proof,
            block.voucher,
            config,
            block.nonce,
            header,
        ) && match header {
            Err(error) => r == Err::<LedgerState<U>, _>(error),
            Ok(state) => ledger::is_contents_result(&state, config, block.txs@, block.outcomes@, r),
        };
    let state = header->Ok_0;
    sessions_start_with_their_blocks(
        &state,
        config,
        block.txs@,
        block.outcomes@,
        after,
        ServiceType::BlendNetwork,
    );
}

/// A block is applied to the state after its parent, or rejected if that is not remembered. The
/// ledger remembers the state after it besides all others.
pub proof fn blocks_extend_their_parent<U: LeafExtractor<Utxo>, P: LeaderProof>(
    before: &Ledger<U>,
    id: HeaderId,
    parent_id: HeaderId,
    proof: &P,
    block: Block,
    r: Result<Ledger<U>, LedgerError>,
    other: HeaderId,
)
    requires
        before.states@.dom().contains(parent_id) ==> {
            &&& before.states@[parent_id].mantle_ledger.sdp.well_formed()
            &&& before.config.service_params.well_formed()
        },
        ledger::is_updated(before, id, parent_id, proof, block, r),
    ensures
        !before.states@.dom().contains(parent_id) ==> r == Err::<Ledger<U>, _>(
            LedgerError::ParentNotFound(parent_id),
        ),
        r matches Ok(after) ==> {
            let parent = before.states@[parent_id];
            &&& before.states@.dom().contains(parent_id)
            &&& after.config == before.config
            &&& after.states@.dom().contains(other) <==> other == id
                || before.states@.dom().contains(other)
            &&& other != id ==> after.states@[other] == before.states@[other]
            &&& after.states@[id].block_number == parent.block_number + 1
            &&& after.states@[id].cryptarchia_ledger.slot == block.slot
            &&& block.slot > parent.cryptarchia_ledger.slot
        },
        before.states@.dom().contains(parent_id) && block.slot
            <= before.states@[parent_id].cryptarchia_ledger.slot ==> r == Err::<Ledger<U>, _>(
            LedgerError::InvalidSlot {
                parent: before.states@[parent_id].cryptarchia_ledger.slot,
                block: block.slot,
            },
        ),
{
    if before.states@.dom().contains(parent_id) {
        let parent = before.states@[parent_id];
        if let Ok(after) = r {
            blocks_extend_the_chain(&parent, proof, &before.config, block, after.states@[id]);
        }
        if block.slot <= parent.cryptarchia_ledger.slot {
            let done: Result<LedgerState<U>, LedgerError> = match r {
                Ok(after) => Ok(after.states@[id]),
                Err(error) => Err(error),
            };
            laws::late_block_is_rejected(&parent, proof, &before.config, block, done);
        }
    }
}

} // verus!
