//! Declarations of service providers.
pub mod declaration_laws;
pub mod laws;
pub mod rewards;

use vstd::prelude::*;

use crate::bytes;
use crate::collections::tree_map::TreeMap;
use crate::collections::trie_map::TrieMap;
use crate::cryptarchia::epoch;
use crate::cryptarchia::epoch::EpochState;
use crate::mantle::locked_notes;
use crate::mantle::locked_notes::{LockedNotes, MinStake};
use crate::mantle::sdp::rewards::blend::current_epoch::CoreNetwork;
use crate::mantle::sdp::rewards::blend::target_epoch::ProofOutcome;
use crate::mantle::sdp::rewards::blend::{Rewards, RewardsParameters};
use crate::merkle::tree::LeafExtractor;
use crate::types::{
    BlockNumber, Declaration, DeclarationId, Epoch, HeaderEvent, Nonce, Note, NoteId, OpFailure,
    OpId, ProviderId, ServiceType, TxEvent, Utxo, Value, ZkPublicKey,
};

verus! {

/// Declarations by their identifiers.
pub type Declarations = TreeMap<Declaration>;

/// Parameters of a service.
#[derive(Clone, Copy, Debug, PartialEq, Eq, Structural)]
pub struct ServiceParameters {
    /// For how many epochs a declaration stays active without activity.
    pub inactivity_period: u32,
    /// The epoch from which the parameters hold.
    pub epoch: Epoch,
}

/// Parameters of the rewards of services.
#[derive(Clone, Copy, Debug, PartialEq, Eq, Structural)]
pub struct ServiceRewardsParameters {
    pub blend: RewardsParameters,
}

/// Parameters of the services that have any.
#[derive(Clone, Copy, Debug, PartialEq, Eq, Structural)]
pub struct ServiceParams {
    pub blend_network: Option<ServiceParameters>,
}

impl ServiceParams {
    /// The parameters of `service_type`.
    pub open spec fn of(&self, service_type: ServiceType) -> Option<ServiceParameters> {
        match service_type {
            ServiceType::BlendNetwork => self.blend_network,
            ServiceType::DataAvailability => None,
        }
    }

    /// The parameters of `service_type`, if it has any.
    pub fn get(&self, service_type: &ServiceType) -> (r: Option<ServiceParameters>)
        ensures
            r == self.of(*service_type),
    {
        match service_type {
            ServiceType::BlendNetwork => self.blend_network,
            ServiceType::DataAvailability => None,
        }
    }
}

/// Parameters of declarations.
#[derive(Clone, Copy, Debug, PartialEq, Eq, Structural)]
pub struct Config {
    pub service_params: ServiceParams,
    pub service_rewards_params: ServiceRewardsParameters,
    pub min_stake: MinStake,
}

/// Failure of an operation on declarations.
#[derive(Clone, Copy, Debug, PartialEq, Eq)]
pub enum Error {
    /// There is no such declaration.
    DeclarationNotFound(DeclarationId),
    /// The declaration cannot be withdrawn yet.
    WithdrawalWhileLocked,
    /// The message does not follow the last one of the declaration.
    InvalidNonce { message_nonce: Nonce, declaration_nonce: Nonce },
    /// There is no such service.
    ServiceNotFound(ServiceType),
    /// There is such a declaration already.
    DuplicateDeclaration(DeclarationId),
    /// The service has no parameters for an epoch.
    EpochParamsNotFound(ServiceType),
    /// The service has no parameters.
    ServiceParamsNotFound(ServiceType),
    /// The block is not the first one.
    NotGenesisBlock,
    /// The block is not a later one.
    TimeTravel { current: BlockNumber, incoming: BlockNumber },
    /// A note could not be locked or unlocked.
    LockingError(locked_notes::Error),
    /// A signature is not valid.
    InvalidSignature,
    /// There is no such note.
    NoteNotFound(NoteId),
    /// A proof is not valid.
    InvalidProof,
    /// An activity message was rejected.
    RewardsError(rewards::Error),
    /// The operation itself failed.
    SdpOp(OpFailure),
}

/// What a declaration or a withdrawal leads to.
pub struct SdpExecution {
    pub locked_notes: LockedNotes,
    pub declarations: Declarations,
    pub events: Vec<TxEvent>,
}

/// What an activity message leads to.
pub struct ActiveExecution {
    pub declarations: Declarations,
    pub events: Vec<TxEvent>,
}

/// What the application of a header leads to.
pub struct HeaderEffect {
    pub reward_utxos: Vec<Utxo>,
    pub events: Vec<HeaderEvent>,
}

/// What the application of a header leads to before rewards are paid.
pub struct PendingHeaderEffect {
    /// What each key is to be paid.
    pub rewards: TrieMap<Value>,
    /// What has happened so far.
    pub events: Vec<HeaderEvent>,
}

/// The event that reports a reward.
pub open spec fn reward_event(utxo: Utxo) -> HeaderEvent {
    HeaderEvent::SdpRewardDistributed { service_type: ServiceType::BlendNetwork, utxo }
}

/// Where the output that pays a reward comes from.
#[derive(Clone, Copy, Debug, PartialEq, Eq)]
pub struct RewardOrigin {
    /// The key that is paid.
    pub pk: ZkPublicKey,
    pub id: NoteId,
    pub op_id: OpId,
    pub output_index: u64,
}

/// Whether `origins` lists each of `keys` once.
pub open spec fn covers(origins: Seq<RewardOrigin>, keys: Set<ZkPublicKey>) -> bool {
    let listed = origins.map_values(|origin: RewardOrigin| origin.pk);
    &&& listed.no_duplicates()
    &&& listed.to_set() == keys
}

/// The output that pays a reward.
pub open spec fn reward_utxo(rewards: Map<ZkPublicKey, Value>, origin: RewardOrigin) -> Utxo {
    Utxo {
        id: origin.id,
        op_id: origin.op_id,
        output_index: origin.output_index,
        note: Note { value: rewards[origin.pk], pk: origin.pk },
    }
}

/// The outputs that pay rewards.
pub open spec fn reward_utxos(
    rewards: Map<ZkPublicKey, Value>,
    origins: Seq<RewardOrigin>,
) -> Seq<Utxo> {
    origins.map_values(|origin: RewardOrigin| reward_utxo(rewards, origin))
}

impl PendingHeaderEffect {
    /// Lists the notes that the rewards are to be paid by, in no particular order.
    pub fn reward_notes(&self) -> (r: Vec<Note>)
        ensures
            r@.map_values(|note: Note| note.pk).no_duplicates(),
            r@.map_values(|note: Note| note.pk).to_set() == self.rewards@.dom(),
            forall|i: int|
                0 <= i < r@.len() ==> self.rewards@[(#[trigger] r@[i]).pk] == r@[i].value,
    {
        let keys: Vec<ZkPublicKey> = self.rewards.keys();
        let mut notes: Vec<Note> = Vec::new();
        let mut i: usize = 0;
        while i < keys.len()
            invariant
                0 <= i <= keys@.len(),
                keys@.to_set() == self.rewards@.dom(),
                notes@.map_values(|note: Note| note.pk) == keys@.take(i as int),
                forall|j: int|
                    0 <= j < notes@.len() ==> self.rewards@[(#[trigger] notes@[j]).pk]
                        == notes@[j].value,
            decreases keys@.len() - i,
        {
            let pk: ZkPublicKey = keys[i];
            assert(keys@.to_set().contains(keys@[i as int]));
            if let Some(value) = self.rewards.get(&pk) {
                let ghost before = notes@;
                notes.push(Note { value: *value, pk });
                assert(notes@.map_values(|note: Note| note.pk) =~= before.map_values(
                    |note: Note| note.pk,
                ).push(pk));
                assert(keys@.take(i + 1) =~= keys@.take(i as int).push(pk));
            }
            i += 1;
        }
        assert(keys@.take(i as int) =~= keys@);
        notes
    }

    /// Pays the rewards by outputs that come from `origins`, and reports them, after
    /// everything else.
    pub fn distributed(self, origins: &Vec<RewardOrigin>) -> (r: HeaderEffect)
        requires
            covers(origins@, self.rewards@.dom()),
        ensures
            r.reward_utxos@ == reward_utxos(self.rewards@, origins@),
            r.events@ == self.events@ + r.reward_utxos@.map_values(
                |utxo: Utxo| reward_event(utxo),
            ),
    {
        let ghost rewards = self.rewards@;
        let ghost reported = self.events@;
        let mut events: Vec<HeaderEvent> = self.events;
        let mut paid: Vec<Utxo> = Vec::new();
        let mut i: usize = 0;
        while i < origins.len()
            invariant
                0 <= i <= origins@.len(),
                rewards == self.rewards@,
                covers(origins@, rewards.dom()),
                paid@ == reward_utxos(rewards, origins@.take(i as int)),
                events@ == reported + paid@.map_values(|utxo: Utxo| reward_event(utxo)),
            decreases origins@.len() - i,
        {
            let origin: RewardOrigin = origins[i];
            proof {
                let listed = origins@.map_values(|origin: RewardOrigin| origin.pk);
                assert(listed[i as int] == origin.pk);
                assert(listed.to_set().contains(origin.pk));
            }
            if let Some(value) = self.rewards.get(&origin.pk) {
                let utxo: Utxo = Utxo {
                    id: origin.id,
                    op_id: origin.op_id,
                    output_index: origin.output_index,
                    note: Note { value: *value, pk: origin.pk },
                };
                let ghost before = paid@;
                paid.push(utxo);
                events.push(
                    HeaderEvent::SdpRewardDistributed {
                        service_type: ServiceType::BlendNetwork,
                        utxo,
                    },
                );
                assert(origins@.take(i + 1) =~= origins@.take(i as int).push(origin));
                assert(paid@ =~= reward_utxos(rewards, origins@.take(i + 1)));
                assert(paid@.map_values(|utxo: Utxo| reward_event(utxo)) =~= before.map_values(
                    |utxo: Utxo| reward_event(utxo),
                ).push(reward_event(utxo)));
            }
            i += 1;
        }
        assert(origins@.take(i as int) =~= origins@);
        HeaderEffect { reward_utxos: paid, events }
    }
}

/// Whether `declaration` was withdrawn with effect from `epoch` or an epoch before.
pub open spec fn is_withdrawn(declaration: Declaration, epoch: Epoch) -> bool {
    declaration.withdraw_at matches Some(withdraw_at) && withdraw_at <= epoch
}

/// Whether `declaration` counts in `epoch`: an activity message was accepted not too long
/// ago, and it was not withdrawn.
pub open spec fn is_active_at(
    declaration: Declaration,
    epoch: Epoch,
    params: ServiceParameters,
) -> bool {
    declaration.active + params.inactivity_period >= epoch && !is_withdrawn(declaration, epoch)
}

/// Whether `declaration` counts in `current_epoch`.
pub fn is_active(
    declaration: &Declaration,
    current_epoch: Epoch,
    config: ServiceParameters,
) -> (r: bool)
    ensures
        r == is_active_at(*declaration, current_epoch, config),
{
    let last: u64 = declaration.active as u64 + config.inactivity_period as u64;
    last >= current_epoch as u64 && (match declaration.withdraw_at {
        Some(withdraw_at) => withdraw_at > current_epoch,
        None => true,
    })
}

/// The declarations but for those that are withdrawn in `epoch`.
pub open spec fn standing(
    declarations: Map<DeclarationId, Declaration>,
    epoch: Epoch,
) -> Map<DeclarationId, Declaration> {
    declarations.restrict(
        Set::new(
            |id: DeclarationId|
                declarations.dom().contains(id) && !is_withdrawn(declarations[id], epoch),
        ),
    )
}

/// The declarations that count in `epoch`.
pub open spec fn active_entries(
    declarations: Map<DeclarationId, Declaration>,
    epoch: Epoch,
    params: ServiceParameters,
) -> Map<DeclarationId, Declaration> {
    declarations.restrict(
        Set::new(
            |id: DeclarationId|
                declarations.dom().contains(id) && is_active_at(declarations[id], epoch, params),
        ),
    )
}

/// Whether the end of `declaration` unlocks its note.
pub open spec fn unlocks(
    locked: Map<NoteId, locked_notes::Services>,
    declaration: Declaration,
    epoch: Epoch,
) -> bool {
    is_withdrawn(declaration, epoch) && locked_notes::is_locked_for(
        locked,
        declaration.locked_note_id,
        declaration.service_type,
    )
}

/// What is locked after those of the declarations `ids` that are withdrawn in `epoch` have
/// come to their end, one after the other.
pub open spec fn locked_after(
    locked: Map<NoteId, locked_notes::Services>,
    declarations: Map<DeclarationId, Declaration>,
    ids: Seq<DeclarationId>,
    epoch: Epoch,
) -> Map<NoteId, locked_notes::Services>
    decreases ids.len(),
{
    if ids.len() == 0 {
        locked
    } else {
        let before = locked_after(locked, declarations, ids.drop_last(), epoch);
        let declaration = declarations[ids.last()];
        if unlocks(before, declaration, epoch) {
            locked_notes::after_unlock(
                before,
                declaration.locked_note_id,
                declaration.service_type,
            )
        } else {
            before
        }
    }
}

/// What is reported when those of the declarations `ids` that are withdrawn in `epoch` come
/// to their end, one after the other: each note that is unlocked.
pub open spec fn unlock_events(
    locked: Map<NoteId, locked_notes::Services>,
    declarations: Map<DeclarationId, Declaration>,
    ids: Seq<DeclarationId>,
    epoch: Epoch,
) -> Seq<HeaderEvent>
    decreases ids.len(),
{
    if ids.len() == 0 {
        Seq::empty()
    } else {
        let before = locked_after(locked, declarations, ids.drop_last(), epoch);
        let events = unlock_events(locked, declarations, ids.drop_last(), epoch);
        let declaration = declarations[ids.last()];
        if unlocks(before, declaration, epoch) {
            events.push(
                HeaderEvent::SdpNoteUnlocked {
                    note_id: declaration.locked_note_id,
                    service_type: declaration.service_type,
                    declaration_id: ids.last(),
                },
            )
        } else {
            events
        }
    }
}

/// The state of a service.
pub struct ServiceState {
    pub service_type: ServiceType,
    /// The declarations up to the current block.
    pub declarations: Declarations,
    /// The rewards of the service.
    pub rewards: Rewards,
}

impl ServiceState {
    /// Moves on from `last_epoch_state` to `epoch_state`. At the start of an epoch those
    /// declarations come to their end that are withdrawn by then, and rewards are paid.
    fn try_apply_header<U: LeafExtractor<Utxo>>(
        self,
        last_epoch_state: &EpochState<U>,
        epoch_state: &EpochState<U>,
        locked_notes: LockedNotes,
        rewards_params: &RewardsParameters,
        core: CoreNetwork,
    ) -> (r: (Self, LockedNotes, PendingHeaderEffect))
        requires
            self.rewards.well_formed(),
            locked_notes.well_formed(),
            last_epoch_state.epoch < epoch_state.epoch ==> {
                &&& self.rewards.current().epoch == last_epoch_state.epoch
                &&& epoch_state.utxos.well_formed()
                &&& rewards_params.message_quota() <= u64::MAX
            },
        ensures
            r.1.well_formed(),
            is_service_step(
                &self,
                locked_notes@,
                last_epoch_state,
                epoch_state,
                *rewards_params,
                core,
                &r.0,
                r.1@,
                &r.2,
            ),
    {
        if last_epoch_state.epoch() < epoch_state.epoch() {
            let (declarations, locked_notes, events) = unlock_and_remove_withdrawn_declarations(
                self.declarations,
                locked_notes,
                epoch_state.epoch(),
            );
            let (rewards, paid): (Rewards, TrieMap<Value>) = self.rewards.update_epoch(
                last_epoch_state,
                epoch_state,
                rewards_params,
                core,
            );
            (
                ServiceState { service_type: self.service_type, declarations, rewards },
                locked_notes,
                PendingHeaderEffect { rewards: paid, events },
            )
        } else {
            (self, locked_notes, PendingHeaderEffect { rewards: TrieMap::new(), events: Vec::new() })
        }
    }

    /// Adds to the income of the current epoch.
    fn add_income(&mut self, income: Value)
        requires
            old(self).rewards.well_formed(),
            old(self).rewards.income() + income <= u64::MAX,
        ensures
            final(self).service_type == old(self).service_type,
            final(self).declarations == old(self).declarations,
            is_income_added(&old(self).rewards, &final(self).rewards, income),
    {
        self.rewards = self.rewards.add_income(income);
    }

    /// Whether there is such a declaration.
    fn contains(&self, declaration_id: &DeclarationId) -> (r: bool)
        ensures
            r == self.declarations@.dom().contains(*declaration_id),
    {
        self.declarations.contains_key(declaration_id)
    }
}

impl Clone for ServiceState {
    fn clone(&self) -> (r: Self)
        ensures
            r == *self,
    {
        ServiceState {
            service_type: self.service_type,
            declarations: self.declarations.clone(),
            rewards: self.rewards.clone(),
        }
    }
}

/// Whether `after` is `before` with more income.
pub open spec fn is_income_added(before: &Rewards, after: &Rewards, income: Value) -> bool {
    &&& after.well_formed()
    &&& after.same_target(before)
    &&& after.submitted() == before.submitted()
    &&& after.income() == before.income() + income
}

/// Whether `after` is what `before` becomes at the start of the epoch of `next`, and `paid`
/// is what is paid then.
pub open spec fn is_epoch_update<U: LeafExtractor<Utxo>>(
    before: &Rewards,
    last: &EpochState<U>,
    next: &EpochState<U>,
    params: RewardsParameters,
    core: CoreNetwork,
    after: &Rewards,
    paid: Map<[u8; 32], Value>,
) -> bool {
    &&& after.well_formed()
    &&& after.current() == rewards::blend::current_epoch::current_state(next, &params)
    &&& after.income() == 0
    &&& after.submitted().dom().is_empty()
    &&& after.target() is Some <==> rewards::blend::current_epoch::sets_target(
        last,
        next,
        &params,
    )
    &&& after.target() matches Some(target) ==> rewards::blend::current_epoch::is_target(
        &target,
        last,
        before.current().leader_input,
        before.income(),
        &params,
        core,
    )
    &&& match before.target() {
        Some(target) => rewards::blend::target_epoch::is_payout(
            before.submitted(),
            target.epoch_income,
            paid,
        ),
        None => paid.dom().is_empty(),
    }
}

/// Whether `after` is what the service `before` becomes when a header is applied.
pub open spec fn is_service_step<U: LeafExtractor<Utxo>>(
    before: &ServiceState,
    locked: Map<NoteId, locked_notes::Services>,
    last: &EpochState<U>,
    next: &EpochState<U>,
    params: RewardsParameters,
    core: CoreNetwork,
    after: &ServiceState,
    locked_after: Map<NoteId, locked_notes::Services>,
    effect: &PendingHeaderEffect,
) -> bool {
    if last.epoch < next.epoch {
        let ids = bytes::listing(before.declarations@.dom());
        &&& after.service_type == before.service_type
        &&& after.declarations@ == standing(before.declarations@, next.epoch)
        &&& locked_after == self::locked_after(locked, before.declarations@, ids, next.epoch)
        &&& effect.events@ == unlock_events(locked, before.declarations@, ids, next.epoch)
        &&& is_epoch_update(
            &before.rewards,
            last,
            next,
            params,
            core,
            &after.rewards,
            effect.rewards@,
        )
    } else {
        &&& after == before
        &&& locked_after == locked
        &&& effect.rewards@.dom().is_empty()
        &&& effect.events@ == Seq::<HeaderEvent>::empty()
    }
}

/// Drops each declaration that is withdrawn in `epoch`, and unlocks its note where that is
/// still locked.
fn unlock_and_remove_withdrawn_declarations(
    declarations: Declarations,
    locked_notes: LockedNotes,
    epoch: Epoch,
) -> (r: (Declarations, LockedNotes, Vec<HeaderEvent>))
    requires
        locked_notes.well_formed(),
    ensures
        r.1.well_formed(),
        r.0@ == standing(declarations@, epoch),
        r.1@ == locked_after(
            locked_notes@,
            declarations@,
            bytes::listing(declarations@.dom()),
            epoch,
        ),
        r.2@ == unlock_events(
            locked_notes@,
            declarations@,
            bytes::listing(declarations@.dom()),
            epoch,
        ),
{
    let ids: Vec<DeclarationId> = declarations.keys();
    let mut kept: Declarations = declarations.clone();
    let mut locked: LockedNotes = locked_notes.clone();
    let mut events: Vec<HeaderEvent> = Vec::new();
    proof {
        bytes::lemma_listing(ids@);
        bytes::lemma_ascending_no_duplicates(ids@);
    }
    let mut i: usize = 0;
    while i < ids.len()
        invariant
            0 <= i <= ids@.len(),
            ids@.no_duplicates(),
            ids@.to_set() == declarations@.dom(),
            locked.well_formed(),
            locked@ == locked_after(locked_notes@, declarations@, ids@.take(i as int), epoch),
            events@ == unlock_events(locked_notes@, declarations@, ids@.take(i as int), epoch),
            forall|id: DeclarationId| #[trigger]
                kept@.dom().contains(id) <==> declarations@.dom().contains(id) && (ids@.take(
                    i as int,
                ).contains(id) ==> !is_withdrawn(declarations@[id], epoch)),
            forall|id: DeclarationId| #[trigger]
                kept@.dom().contains(id) ==> kept@[id] == declarations@[id],
        decreases ids@.len() - i,
    {
        let id: DeclarationId = ids[i];
        let ghost done = ids@.take(i as int);
        proof {
            assert(ids@.take(i + 1) =~= done.push(id));
            assert(done.push(id).drop_last() =~= done);
            assert(ids@.to_set().contains(ids@[i as int]));
            assert forall|other: DeclarationId| ids@.take(i + 1).contains(other) == (done.contains(
                other,
            ) || other == id) by {
                if done.contains(other) {
                    let k = choose|k: int| 0 <= k < done.len() && done[k] == other;
                    assert(done.push(id)[k] == other);
                }
                assert(done.push(id)[i as int] == id);
            }
        }
        if let Some(declaration) = declarations.get(&id) {
            let withdrawn: bool = match declaration.withdraw_at {
                Some(withdraw_at) => withdraw_at <= epoch,
                None => false,
            };
            if withdrawn {
                if locked.is_locked_for_service(
                    &declaration.locked_note_id,
                    &declaration.service_type,
                ) {
                    if let Ok(unlocked) = locked.clone().unlock(
                        declaration.service_type,
                        &declaration.locked_note_id,
                    ) {
                        locked = unlocked;
                    }
                    events.push(
                        HeaderEvent::SdpNoteUnlocked {
                            note_id: declaration.locked_note_id,
                            service_type: declaration.service_type,
                            declaration_id: id,
                        },
                    );
                }
                kept.remove_mut(&id);
            }
        }
        i += 1;
    }
    proof {
        assert(ids@.take(i as int) =~= ids@);
        assert forall|id: DeclarationId| declarations@.dom().contains(id) == ids@.contains(id) by {
            assert(ids@.to_set().contains(id) == declarations@.dom().contains(id));
        }
        assert(kept@ =~= standing(declarations@, epoch));
    }
    (kept, locked, events)
}

/// The declarations of service providers, and the notes that back them.
pub struct SdpLedger {
    /// The Blend network, where it is offered.
    pub blend_network: Option<ServiceState>,
    /// The notes that back declarations.
    pub locked_notes: LockedNotes,
    /// The current epoch.
    pub epoch: Epoch,
}

impl SdpLedger {
    /// The state of a service.
    pub open spec fn service(&self, service_type: ServiceType) -> Option<ServiceState> {
        match service_type {
            ServiceType::BlendNetwork => self.blend_network,
            ServiceType::DataAvailability => None,
        }
    }

    /// The declarations for the Blend network.
    pub open spec fn blend_declarations(&self) -> Map<DeclarationId, Declaration> {
        match self.blend_network {
            Some(state) => state.declarations@,
            None => Map::empty(),
        }
    }

    /// Whether the parts are well formed.
    pub open spec fn well_formed(&self) -> bool {
        &&& self.locked_notes.well_formed()
        &&& self.blend_network matches Some(state) ==> state.rewards.well_formed()
            && state.service_type == ServiceType::BlendNetwork
    }

    /// Whether the rewards are those of the current epoch.
    pub open spec fn in_step(&self) -> bool {
        self.blend_network matches Some(state) ==> state.rewards.current().epoch == self.epoch
    }

    /// What is collected for the Blend network.
    pub open spec fn blend_income(&self) -> int {
        match self.blend_network {
            Some(state) => state.rewards.income() as int,
            None => 0,
        }
    }

    /// Makes a ledger without services.
    pub fn new(epoch: Epoch) -> (r: Self)
        ensures
            r.well_formed(),
            r.in_step(),
            r.blend_network is None,
            r.locked_notes@ == Map::<NoteId, locked_notes::Services>::empty(),
            r.epoch == epoch,
    {
        SdpLedger { blend_network: None, locked_notes: LockedNotes::new(), epoch }
    }

    /// Adds the Blend network, without declarations.
    pub fn with_blend_service<U: LeafExtractor<Utxo>>(
        self,
        rewards_settings: &RewardsParameters,
        epoch_state: &EpochState<U>,
    ) -> (r: Self)
        requires
            self.well_formed(),
            epoch_state.epoch == self.epoch,
            epoch_state.utxos.well_formed(),
            rewards_settings.message_quota() <= u64::MAX,
        ensures
            r.well_formed(),
            r.in_step(),
            r.locked_notes == self.locked_notes,
            r.epoch == self.epoch,
            r.blend_network matches Some(state) && {
                &&& state.declarations@ == Map::<DeclarationId, Declaration>::empty()
                &&& state.rewards.target() is None
                &&& state.rewards.current() == rewards::blend::current_epoch::current_state(
                    epoch_state,
                    rewards_settings,
                )
                &&& state.rewards.income() == 0
            },
    {
        SdpLedger {
            blend_network: Some(
                ServiceState {
                    service_type: ServiceType::BlendNetwork,
                    declarations: TreeMap::new(),
                    rewards: Rewards::new(rewards_settings, epoch_state),
                },
            ),
            locked_notes: self.locked_notes,
            epoch: self.epoch,
        }
    }

    /// Makes the ledger at genesis: each declaration is applied in turn, given what it leads
    /// to.
    pub fn from_genesis<U: LeafExtractor<Utxo>>(
        config: &Config,
        epoch_state: &EpochState<U>,
        ops: Vec<(ServiceType, Result<SdpExecution, OpFailure>)>,
    ) -> (r: Result<(Self, Vec<TxEvent>), Error>)
        requires
            epoch_state.utxos.well_formed(),
            config.service_rewards_params.blend.message_quota() <= u64::MAX,
            forall|i: int|
                0 <= i < ops@.len() ==> ((#[trigger] ops@[i]).1 matches Ok(execution)
                    ==> execution.locked_notes.well_formed()),
        ensures
            match first_failure(ops@) {
                Some(error) => r == Err::<(Self, Vec<TxEvent>), _>(error),
                None => {
                    &&& r matches Ok((sdp, events))
                    &&& sdp.well_formed()
                    &&& sdp.in_step()
                    &&& sdp.epoch == epoch_state.epoch
                    &&& events@ == genesis_events(ops@)
                    &&& sdp.blend_network matches Some(state)
                    &&& state.rewards.target() is None
                    &&& state.rewards.income() == 0
                    &&& state.rewards.current() == rewards::blend::current_epoch::current_state(
                        epoch_state,
                        &config.service_rewards_params.blend,
                    )
                    &&& if ops@.len() == 0 {
                        &&& state.declarations@ == Map::<DeclarationId, Declaration>::empty()
                        &&& sdp.locked_notes@ == Map::<NoteId, locked_notes::Services>::empty()
                    } else {
                        &&& state.declarations == ops@.last().1->Ok_0.declarations
                        &&& sdp.locked_notes == ops@.last().1->Ok_0.locked_notes
                    }
                },
            },
    {
        let mut sdp: SdpLedger = SdpLedger::new(epoch_state.epoch()).with_blend_service(
            &config.service_rewards_params.blend,
            epoch_state,
        );
        let mut all_events: Vec<TxEvent> = Vec::new();
        let ghost all = ops@;
        let ghost rewards = sdp.blend_network->0.rewards;
        assert(all.take(0) =~= Seq::empty());
        for op in it: ops
            invariant
                it.seq() == all,
                forall|i: int|
                    0 <= i < all.len() ==> ((#[trigger] all[i]).1 matches Ok(execution)
                        ==> execution.locked_notes.well_formed()),
                first_failure(all.take(it.index() as int)) is None,
                sdp.well_formed(),
                sdp.epoch == epoch_state.epoch,
                sdp.blend_network matches Some(state) && state.rewards == rewards,
                rewards.current().epoch == epoch_state.epoch,
                all_events@ == genesis_events(all.take(it.index() as int)),
                if it.index() == 0 {
                    &&& sdp.blend_network->0.declarations@ == Map::<
                        DeclarationId,
                        Declaration,
                    >::empty()
                    &&& sdp.locked_notes@ == Map::<NoteId, locked_notes::Services>::empty()
                } else {
                    let last = all[it.index() - 1].1->Ok_0;
                    &&& sdp.blend_network->0.declarations == last.declarations
                    &&& sdp.locked_notes == last.locked_notes
                },
        {
            let ghost i = it.index() as int;
            proof {
                assert(all[i] == op);
                assert(all.take(i + 1).drop_last() =~= all.take(i));
                lemma_first_failure(all, i + 1);
            }
            match sdp.try_apply_genesis_sdp_declaration(op.0, op.1) {
                Ok((result, events)) => {
                    sdp = result;
                    let mut more: Vec<TxEvent> = events;
                    all_events.append(&mut more);
                },
                Err(error) => {
                    return Err(error);
                },
            }
        }
        assert(all.take(all.len() as int) =~= all);
        Ok((sdp, all_events))
    }

    /// Moves on from `last_epoch_state` to `epoch_state`. The rewards that fall due are
    /// still to be paid.
    pub fn try_apply_header<U: LeafExtractor<Utxo>>(
        &self,
        config: &Config,
        last_epoch_state: &EpochState<U>,
        epoch_state: &EpochState<U>,
        core: CoreNetwork,
    ) -> (r: Result<(Self, PendingHeaderEffect), Error>)
        requires
            self.well_formed(),
            self.blend_network is Some && last_epoch_state.epoch < epoch_state.epoch ==> {
                &&& self.blend_network->0.rewards.current().epoch == last_epoch_state.epoch
                &&& epoch_state.utxos.well_formed()
                &&& config.service_rewards_params.blend.message_quota() <= u64::MAX
            },
        ensures
            r is Err <==> self.blend_network is Some && config.service_params.blend_network is None,
            r is Err ==> r->Err_0 == Error::EpochParamsNotFound(ServiceType::BlendNetwork),
            r matches Ok((sdp, effect)) ==> sdp.well_formed() && is_header_step(
                self,
                last_epoch_state,
                epoch_state,
                config.service_rewards_params.blend,
                core,
                &sdp,
                &effect,
            ),
    {
        match &self.blend_network {
            Some(state) => {
                if config.service_params.get(&ServiceType::BlendNetwork).is_none() {
                    return Err(Error::EpochParamsNotFound(ServiceType::BlendNetwork));
                }
                let (new_state, locked_notes, effect): (
                    ServiceState,
                    LockedNotes,
                    PendingHeaderEffect,
                ) = state.clone().try_apply_header(
                    last_epoch_state,
                    epoch_state,
                    self.locked_notes.clone(),
                    &config.service_rewards_params.blend,
                    core,
                );
                Ok(
                    (
                        SdpLedger {
                            blend_network: Some(new_state),
                            locked_notes,
                            epoch: epoch_state.epoch(),
                        },
                        effect,
                    ),
                )
            },
            None => Ok(
                (
                    SdpLedger {
                        blend_network: None,
                        locked_notes: self.locked_notes.clone(),
                        epoch: epoch_state.epoch(),
                    },
                    PendingHeaderEffect { rewards: TrieMap::new(), events: Vec::new() },
                ),
            ),
        }
    }

    /// Applies a declaration of the genesis block, given what it leads to.
    pub fn try_apply_genesis_sdp_declaration(
        self,
        service_type: ServiceType,
        outcome: Result<SdpExecution, OpFailure>,
    ) -> (r: Result<(Self, Vec<TxEvent>), Error>)
        requires
            self.well_formed(),
            outcome matches Ok(execution) ==> execution.locked_notes.well_formed(),
        ensures
            is_executed(&self, service_type, outcome, r),
            r matches Ok((sdp, _)) ==> sdp.well_formed(),
    {
        self.try_apply_sdp_declaration(service_type, outcome)
    }

    /// Applies a declaration, given what it leads to.
    pub fn try_apply_sdp_declaration(
        self,
        service_type: ServiceType,
        outcome: Result<SdpExecution, OpFailure>,
    ) -> (r: Result<(Self, Vec<TxEvent>), Error>)
        requires
            self.well_formed(),
            outcome matches Ok(execution) ==> execution.locked_notes.well_formed(),
        ensures
            is_executed(&self, service_type, outcome, r),
            r matches Ok((sdp, _)) ==> sdp.well_formed(),
    {
        let state: ServiceState = match service_type {
            ServiceType::BlendNetwork => match self.blend_network {
                Some(state) => state,
                None => return Err(Error::ServiceNotFound(service_type)),
            },
            ServiceType::DataAvailability => return Err(Error::ServiceNotFound(service_type)),
        };
        match outcome {
            Ok(execution) => Ok(
                (
                    SdpLedger {
                        blend_network: Some(
                            ServiceState {
                                service_type: state.service_type,
                                declarations: execution.declarations,
                                rewards: state.rewards,
                            },
                        ),
                        locked_notes: execution.locked_notes,
                        epoch: self.epoch,
                    },
                    execution.events,
                ),
            ),
            Err(failure) => Err(Error::SdpOp(failure)),
        }
    }

    /// Applies an activity message, given what it leads to and what the verification of its
    /// proof found out.
    pub fn apply_active_msg(
        self,
        declaration_id: &DeclarationId,
        config: &Config,
        outcome: Result<ActiveExecution, OpFailure>,
        proof_epoch: Epoch,
        proof_outcome: ProofOutcome,
    ) -> (r: Result<(Self, Vec<TxEvent>), Error>)
        requires
            self.well_formed(),
            outcome matches Ok(execution) ==> execution.declarations@.dom().contains(
                *declaration_id,
            ),
        ensures
            match active_failure(
                &self,
                *declaration_id,
                config,
                outcome,
                proof_epoch,
                proof_outcome,
            ) {
                Some(error) => r == Err::<(Self, Vec<TxEvent>), _>(error),
                None => {
                    let provider_id = outcome->Ok_0.declarations@[*declaration_id].provider_id;
                    let before = self.blend_network->0;
                    &&& r matches Ok((sdp, events))
                    &&& sdp.well_formed()
                    &&& events == outcome->Ok_0.events
                    &&& sdp.locked_notes == self.locked_notes
                    &&& sdp.epoch == self.epoch
                    &&& sdp.blend_network matches Some(state)
                    &&& state.declarations == outcome->Ok_0.declarations
                    &&& state.rewards.same_target(&before.rewards)
                    &&& state.rewards.income() == before.rewards.income()
                    &&& state.rewards.submitted() == before.rewards.submitted().insert(
                        provider_id,
                        (
                            before.rewards.target()->0.providers@[provider_id].0,
                            proof_outcome->Distance_0,
                        ),
                    )
                },
            },
    {
        match self.get_service(declaration_id, config) {
            Ok(_) => {},
            Err(error) => return Err(error),
        }
        let execution: ActiveExecution = match outcome {
            Ok(execution) => execution,
            Err(failure) => return Err(Error::SdpOp(failure)),
        };
        match (self.blend_network, execution.declarations.get(declaration_id)) {
            (Some(state), Some(declaration)) => {
                let provider_id: ProviderId = declaration.provider_id;
                match state.rewards.update_active(provider_id, proof_epoch, proof_outcome) {
                    Ok(rewards) => Ok(
                        (
                            SdpLedger {
                                blend_network: Some(
                                    ServiceState {
                                        service_type: state.service_type,
                                        declarations: execution.declarations,
                                        rewards,
                                    },
                                ),
                                locked_notes: self.locked_notes,
                                epoch: self.epoch,
                            },
                            execution.events,
                        ),
                    ),
                    Err(error) => Err(Error::RewardsError(error)),
                }
            },
            _ => Err(Error::DeclarationNotFound(*declaration_id)),
        }
    }

    /// Applies a withdrawal, given what it leads to.
    pub fn apply_withdrawn_msg(
        self,
        declaration_id: &DeclarationId,
        config: &Config,
        outcome: Result<SdpExecution, OpFailure>,
    ) -> (r: Result<(Self, Vec<TxEvent>), Error>)
        requires
            self.well_formed(),
            outcome matches Ok(execution) ==> execution.locked_notes.well_formed(),
        ensures
            match service_failure(&self, *declaration_id, config) {
                Some(error) => r == Err::<(Self, Vec<TxEvent>), _>(error),
                None => is_executed(&self, ServiceType::BlendNetwork, outcome, r),
            },
            r matches Ok((sdp, _)) ==> sdp.well_formed(),
    {
        match self.get_service(declaration_id, config) {
            Ok((service, _)) => self.try_apply_sdp_declaration(service, outcome),
            Err(error) => Err(error),
        }
    }

    /// Adds to the income of the Blend network, where it is offered.
    pub fn add_blend_income(&mut self, income: Value)
        requires
            old(self).well_formed(),
            old(self).blend_network is Some ==> old(self).blend_income() + income <= u64::MAX,
        ensures
            final(self).well_formed(),
            final(self).locked_notes == old(self).locked_notes,
            final(self).epoch == old(self).epoch,
            match old(self).blend_network {
                Some(before) => {
                    &&& final(self).blend_network matches Some(after)
                    &&& after.declarations == before.declarations
                    &&& is_income_added(&before.rewards, &after.rewards, income)
                },
                None => final(self).blend_network is None,
            },
    {
        if let Some(state) = &mut self.blend_network {
            state.add_income(income);
        }
    }

    /// The notes that back declarations.
    pub fn locked_notes(&self) -> (r: &LockedNotes)
        ensures
            *r == self.locked_notes,
    {
        &self.locked_notes
    }

    /// The declarations of all services, whether they are active or not.
    pub fn declarations(&self) -> (r: epoch::Declarations)
        ensures
            match self.blend_network {
                Some(state) => r.blend_network == Some(state.declarations),
                None => r.blend_network is None,
            },
    {
        match &self.blend_network {
            Some(state) => epoch::Declarations { blend_network: Some(state.declarations.clone()) },
            None => epoch::Declarations::empty(),
        }
    }

    /// The declarations that are active in `epoch`. A service that has none, or has no
    /// parameters, is left out.
    pub fn active_declarations(
        &self,
        epoch: Epoch,
        service_params: &ServiceParams,
    ) -> (r: epoch::Declarations)
        ensures
            is_active_set(self, epoch, service_params, &r),
    {
        match (&self.blend_network, service_params.get(&ServiceType::BlendNetwork)) {
            (Some(state), Some(params)) => {
                let entries: Declarations = filter_active(&state.declarations, epoch, params);
                if entries.size() == 0 {
                    assert(entries@ =~= Map::empty());
                    epoch::Declarations::empty()
                } else {
                    assert(entries@ != Map::<DeclarationId, Declaration>::empty());
                    epoch::Declarations { blend_network: Some(entries) }
                }
            },
            (None, Some(params)) => {
                assert(active_entries(self.blend_declarations(), epoch, params) =~= Map::empty());
                epoch::Declarations::empty()
            },
            (_, None) => epoch::Declarations::empty(),
        }
    }

    /// The declaration with this identifier, if there is one.
    pub fn get_declaration(&self, declaration_id: &DeclarationId) -> (r: Option<&Declaration>)
        ensures
            r == (if self.blend_declarations().dom().contains(*declaration_id) {
                Some(&self.blend_declarations()[*declaration_id])
            } else {
                None
            }),
    {
        match &self.blend_network {
            Some(state) => state.declarations.get(declaration_id),
            None => None,
        }
    }

    /// The declarations for a service, where it is offered.
    pub fn get_declarations_by_service(&self, service_type: ServiceType) -> (r: Option<
        &Declarations,
    >)
        ensures
            match self.service(service_type) {
                Some(state) => r == Some(&state.declarations),
                None => r is None,
            },
    {
        match service_type {
            ServiceType::BlendNetwork => match &self.blend_network {
                Some(state) => Some(&state.declarations),
                None => None,
            },
            ServiceType::DataAvailability => None,
        }
    }

    /// The declarations for the service that the declaration with this identifier is for, if
    /// there is one.
    pub fn get_declarations_by_id(&self, declaration_id: &DeclarationId) -> (r: Option<
        &Declarations,
    >)
        ensures
            r == (if self.blend_declarations().dom().contains(*declaration_id) {
                Some(&self.blend_network->0.declarations)
            } else {
                None
            }),
    {
        match &self.blend_network {
            Some(state) => if state.contains(declaration_id) {
                Some(&state.declarations)
            } else {
                None
            },
            None => None,
        }
    }

    /// The declarations for the service that a declaration is for, which a message about it
    /// works on.
    pub fn declarations_with(&self, declaration_id: &DeclarationId, config: &Config) -> (r: Result<
        &Declarations,
        Error,
    >)
        ensures
            match service_failure(self, *declaration_id, config) {
                Some(error) => r == Err::<&Declarations, _>(error),
                None => r == Ok::<_, Error>(&self.blend_network->0.declarations),
            },
    {
        match self.get_service(declaration_id, config) {
            Ok((service, _)) => match self.get_declarations_by_service(service) {
                Some(declarations) => Ok(declarations),
                None => Err(Error::ServiceNotFound(service)),
            },
            Err(error) => Err(error),
        }
    }

    /// The service that the declaration with this identifier is for, and its parameters.
    fn get_service(&self, declaration_id: &DeclarationId, config: &Config) -> (r: Result<
        (ServiceType, ServiceParameters),
        Error,
    >)
        ensures
            match service_failure(self, *declaration_id, config) {
                Some(error) => r == Err::<(ServiceType, ServiceParameters), _>(error),
                None => r == Ok::<_, Error>(
                    (ServiceType::BlendNetwork, config.service_params.blend_network->0),
                ),
            },
    {
        match &self.blend_network {
            Some(state) => {
                if !state.contains(declaration_id) {
                    return Err(Error::DeclarationNotFound(*declaration_id));
                }
            },
            None => return Err(Error::DeclarationNotFound(*declaration_id)),
        }
        match config.service_params.get(&ServiceType::BlendNetwork) {
            Some(params) => Ok((ServiceType::BlendNetwork, params)),
            None => Err(Error::ServiceParamsNotFound(ServiceType::BlendNetwork)),
        }
    }
}

impl Clone for SdpLedger {
    fn clone(&self) -> (r: Self)
        ensures
            r == *self,
    {
        SdpLedger {
            blend_network: match &self.blend_network {
                Some(state) => Some(state.clone()),
                None => None,
            },
            locked_notes: self.locked_notes.clone(),
            epoch: self.epoch,
        }
    }
}

/// Keeps the declarations that are active in `epoch`.
fn filter_active(declarations: &Declarations, epoch: Epoch, params: ServiceParameters) -> (r:
    Declarations)
    ensures
        r@ == active_entries(declarations@, epoch, params),
        r@.dom().finite(),
{
    let ids: Vec<DeclarationId> = declarations.keys();
    let mut entries: Declarations = TreeMap::new();
    let mut i: usize = 0;
    while i < ids.len()
        invariant
            0 <= i <= ids@.len(),
            ids@.to_set() == declarations@.dom(),
            entries@.dom().finite(),
            forall|id: DeclarationId| #[trigger]
                entries@.dom().contains(id) <==> ids@.take(i as int).contains(id)
                    && is_active_at(declarations@[id], epoch, params),
            forall|id: DeclarationId| #[trigger]
                entries@.dom().contains(id) ==> entries@[id] == declarations@[id],
        decreases ids@.len() - i,
    {
        let id: DeclarationId = ids[i];
        let ghost done = ids@.take(i as int);
        proof {
            assert(ids@.take(i + 1) =~= done.push(id));
            assert(ids@.to_set().contains(ids@[i as int]));
            assert forall|other: DeclarationId| ids@.take(i + 1).contains(other) == (done.contains(
                other,
            ) || other == id) by {
                if done.contains(other) {
                    let k = choose|k: int| 0 <= k < done.len() && done[k] == other;
                    assert(done.push(id)[k] == other);
                }
                assert(done.push(id)[i as int] == id);
            }
        }
        let ghost before = entries@;
        if let Some(declaration) = declarations.get(&id) {
            if is_active(declaration, epoch, params) {
                entries.insert_mut(id, *declaration);
            }
        }
        assert forall|other: DeclarationId| #[trigger]
            entries@.dom().contains(other) == (ids@.take(i + 1).contains(other) && is_active_at(
                declarations@[other],
                epoch,
                params,
            )) by {
            assert(before.dom().contains(other) == (done.contains(other) && is_active_at(
                declarations@[other],
                epoch,
                params,
            )));
            assert(ids@.take(i + 1).contains(other) == (done.contains(other) || other == id));
        }
        i += 1;
    }
    proof {
        assert(ids@.take(i as int) =~= ids@);
        assert forall|id: DeclarationId| declarations@.dom().contains(id) == ids@.contains(id) by {
            assert(ids@.to_set().contains(id) == declarations@.dom().contains(id));
        }
        assert(entries@ =~= active_entries(declarations@, epoch, params));
    }
    entries
}

/// Whether `active` holds the declarations of `sdp` that are active in `epoch`.
pub open spec fn is_active_set(
    sdp: &SdpLedger,
    epoch: Epoch,
    service_params: &ServiceParams,
    active: &epoch::Declarations,
) -> bool {
    match service_params.blend_network {
        Some(params) => {
            let entries = active_entries(sdp.blend_declarations(), epoch, params);
            &&& active.blend_network is Some <==> entries != Map::<
                DeclarationId,
                Declaration,
            >::empty()
            &&& active.blend() == entries
        },
        None => active.blend_network is None,
    }
}

/// Why the service of a declaration cannot be told, if it cannot.
pub open spec fn service_failure(
    sdp: &SdpLedger,
    declaration_id: DeclarationId,
    config: &Config,
) -> Option<Error> {
    if !sdp.blend_declarations().dom().contains(declaration_id) {
        Some(Error::DeclarationNotFound(declaration_id))
    } else if config.service_params.blend_network is None {
        Some(Error::ServiceParamsNotFound(ServiceType::BlendNetwork))
    } else {
        None
    }
}

/// Why an activity message is rejected, if it is.
pub open spec fn active_failure(
    sdp: &SdpLedger,
    declaration_id: DeclarationId,
    config: &Config,
    outcome: Result<ActiveExecution, OpFailure>,
    proof_epoch: Epoch,
    proof_outcome: ProofOutcome,
) -> Option<Error> {
    match service_failure(sdp, declaration_id, config) {
        Some(error) => Some(error),
        None => match outcome {
            Err(failure) => Some(Error::SdpOp(failure)),
            Ok(execution) => match rewards::blend::activity_failure(
                &sdp.blend_network->0.rewards,
                execution.declarations@[declaration_id].provider_id,
                proof_epoch,
                proof_outcome,
            ) {
                Some(error) => Some(Error::RewardsError(error)),
                None => None,
            },
        },
    }
}

/// Whether `r` is what `before` becomes by an operation on `service_type` with this outcome.
pub open spec fn is_executed(
    before: &SdpLedger,
    service_type: ServiceType,
    outcome: Result<SdpExecution, OpFailure>,
    r: Result<(SdpLedger, Vec<TxEvent>), Error>,
) -> bool {
    match before.service(service_type) {
        None => r == Err::<(SdpLedger, Vec<TxEvent>), _>(Error::ServiceNotFound(service_type)),
        Some(state) => match outcome {
            Err(failure) => r == Err::<(SdpLedger, Vec<TxEvent>), _>(Error::SdpOp(failure)),
            Ok(execution) => r == Ok::<_, Error>(
                (
                    SdpLedger {
                        blend_network: Some(
                            ServiceState { declarations: execution.declarations, ..state },
                        ),
                        locked_notes: execution.locked_notes,
                        epoch: before.epoch,
                    },
                    execution.events,
                ),
            ),
        },
    }
}

/// Whether `after` is what `before` becomes when a header is applied.
pub open spec fn is_header_step<U: LeafExtractor<Utxo>>(
    before: &SdpLedger,
    last: &EpochState<U>,
    next: &EpochState<U>,
    params: RewardsParameters,
    core: CoreNetwork,
    after: &SdpLedger,
    effect: &PendingHeaderEffect,
) -> bool {
    &&& after.epoch == next.epoch
    &&& match before.blend_network {
        Some(state) => {
            &&& after.blend_network matches Some(new_state)
            &&& is_service_step(
                &state,
                before.locked_notes@,
                last,
                next,
                params,
                core,
                &new_state,
                after.locked_notes@,
                effect,
            )
        },
        None => {
            &&& after.blend_network is None
            &&& after.locked_notes == before.locked_notes
            &&& effect.rewards@.dom().is_empty()
            &&& effect.events@ == Seq::<HeaderEvent>::empty()
        },
    }
}

/// Why the declarations of the genesis block are rejected, if one of them is.
pub open spec fn first_failure(ops: Seq<(ServiceType, Result<SdpExecution, OpFailure>)>) -> Option<
    Error,
>
    decreases ops.len(),
{
    if ops.len() == 0 {
        None
    } else {
        match first_failure(ops.drop_last()) {
            Some(error) => Some(error),
            None => if ops.last().0 != ServiceType::BlendNetwork {
                Some(Error::ServiceNotFound(ops.last().0))
            } else {
                match ops.last().1 {
                    Ok(_) => None,
                    Err(failure) => Some(Error::SdpOp(failure)),
                }
            },
        }
    }
}

/// What the declarations of the genesis block report.
pub open spec fn genesis_events(
    ops: Seq<(ServiceType, Result<SdpExecution, OpFailure>)>,
) -> Seq<TxEvent>
    decreases ops.len(),
{
    if ops.len() == 0 {
        Seq::empty()
    } else {
        genesis_events(ops.drop_last()) + ops.last().1->Ok_0.events@
    }
}

/// A failure is not undone by what follows it.
proof fn lemma_first_failure(ops: Seq<(ServiceType, Result<SdpExecution, OpFailure>)>, n: int)
    requires
        0 <= n <= ops.len(),
    ensures
        first_failure(ops.take(n)) is Some ==> first_failure(ops) == first_failure(ops.take(n)),
    decreases ops.len() - n,
{
    if n == ops.len() {
        assert(ops.take(n) =~= ops);
    } else {
        lemma_first_failure(ops, n + 1);
        assert(ops.take(n + 1).drop_last() =~= ops.take(n));
    }
}

} // verus!
