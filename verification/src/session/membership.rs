//! Providers by session: who takes part in a session is settled while it forms.
use std::sync::Arc;

use vstd::prelude::*;

use crate::collections::trie_map::TrieMap;
use crate::collections::trie_set::TrieSet;
use crate::types::{
    BlockNumber, DeclarationId, Nonce, NoteId, OpFailure, ProviderId, ServiceType, ZkPublicKey,
};

verus! {

/// The number of a session.
pub type SessionNumber = u64;

/// Parameters of a service.
#[derive(Clone, Copy, Debug, PartialEq, Eq, Structural)]
pub struct ServiceParameters {
    /// For how many blocks a declaration cannot be withdrawn.
    pub lock_period: u64,
    /// For how many blocks a declaration stays active without activity.
    pub inactivity_period: u64,
    /// For how many blocks a declaration is kept without activity.
    pub retention_period: u64,
    /// The block from which the parameters hold.
    pub timestamp: BlockNumber,
    /// The number of blocks of a session.
    pub session_duration: u64,
}

/// Parameters of the services that have any.
#[derive(Clone, Copy, Debug, PartialEq, Eq, Structural)]
pub struct ServiceParams {
    pub blend_network: Option<ServiceParameters>,
    pub data_availability: Option<ServiceParameters>,
}

impl ServiceParams {
    /// The parameters of `service_type`.
    pub open spec fn of(&self, service_type: ServiceType) -> Option<ServiceParameters> {
        match service_type {
            ServiceType::BlendNetwork => self.blend_network,
            ServiceType::DataAvailability => self.data_availability,
        }
    }

    /// Whether no session is empty.
    pub open spec fn well_formed(&self) -> bool {
        &&& self.blend_network matches Some(params) ==> params.session_duration > 0
        &&& self.data_availability matches Some(params) ==> params.session_duration > 0
    }

    /// The parameters of `service_type`, if it has any.
    pub fn get(&self, service_type: &ServiceType) -> (r: Option<ServiceParameters>)
        ensures
            r == self.of(*service_type),
    {
        match service_type {
            ServiceType::BlendNetwork => self.blend_network,
            ServiceType::DataAvailability => self.data_availability,
        }
    }
}

/// Failure of an operation on declarations.
#[derive(Clone, Copy, Debug, PartialEq, Eq)]
pub enum SdpLedgerError {
    /// The declaration is not in a state that allows the operation.
    SdpStateError(OpFailure),
    /// There is no such declaration.
    SdpDeclarationNotFound(DeclarationId),
    /// The message does not follow the last one of the declaration.
    SdpInvalidNonce(Nonce),
    /// There is such a declaration already.
    SdpDuplicateDeclaration(DeclarationId),
    /// The service has no active session.
    ActiveSessionNotFound(ServiceType),
    /// The service has no session that is forming.
    FormingSessionNotFound(ServiceType),
    /// The service has no parameters for sessions.
    SessionParamsNotFound(ServiceType),
    /// The service has no parameters.
    ServiceParamsNotFound(ServiceType),
    /// The block is not the first one.
    NotGenesisBlock,
}

/// Addresses that a provider can be reached at, as they are encoded.
pub type Locators = Arc<Vec<Vec<u8>>>;

/// What a provider declares.
#[derive(Debug, PartialEq, Eq)]
pub struct DeclareOp {
    pub declaration_id: DeclarationId,
    pub service_type: ServiceType,
    pub locked_note_id: NoteId,
    pub provider_id: ProviderId,
    pub zk_id: ZkPublicKey,
    pub locators: Locators,
}

impl Clone for DeclareOp {
    fn clone(&self) -> (r: Self)
        ensures
            r == *self,
    {
        DeclareOp {
            declaration_id: self.declaration_id,
            service_type: self.service_type,
            locked_note_id: self.locked_note_id,
            provider_id: self.provider_id,
            zk_id: self.zk_id,
            locators: self.locators.clone(),
        }
    }
}

/// A message of a provider about its declaration.
#[derive(Clone, Copy, Debug, PartialEq, Eq)]
pub struct DeclarationMsg {
    pub declaration_id: DeclarationId,
    pub nonce: Nonce,
}

/// The state of a declaration.
#[derive(Debug, PartialEq, Eq)]
pub struct DeclarationState {
    pub service_type: ServiceType,
    pub locked_note_id: NoteId,
    pub provider_id: ProviderId,
    pub zk_id: ZkPublicKey,
    pub locators: Locators,
    /// The block of the declaration.
    pub created: BlockNumber,
    /// The block of the last activity, or of the declaration.
    pub active: BlockNumber,
    /// The block of the withdrawal.
    pub withdrawn: Option<BlockNumber>,
    /// The nonce of the last message.
    pub nonce: Nonce,
}

impl Clone for DeclarationState {
    fn clone(&self) -> (r: Self)
        ensures
            r == *self,
    {
        DeclarationState {
            service_type: self.service_type,
            locked_note_id: self.locked_note_id,
            provider_id: self.provider_id,
            zk_id: self.zk_id,
            locators: self.locators.clone(),
            created: self.created,
            active: self.active,
            withdrawn: self.withdrawn,
            nonce: self.nonce,
        }
    }
}

/// What the state of a declaration amounts to at some block.
#[derive(Clone, Copy, Debug, PartialEq, Eq, Structural)]
pub enum FinalizedDeclarationState {
    Active,
    Inactive,
    Withdrawn,
}

/// The state of a new declaration.
pub open spec fn declared(block_number: BlockNumber, op: DeclareOp) -> DeclarationState {
    DeclarationState {
        service_type: op.service_type,
        locked_note_id: op.locked_note_id,
        provider_id: op.provider_id,
        zk_id: op.zk_id,
        locators: op.locators,
        created: block_number,
        active: block_number,
        withdrawn: None,
        nonce: 0,
    }
}

/// A session: the declarations that take part in it.
pub struct Session {
    pub session_number: SessionNumber,
    pub declarations: TrieSet,
}

impl Session {
    /// Makes a session without declarations.
    pub fn new(session_number: SessionNumber) -> (r: Self)
        ensures
            r.session_number == session_number,
            r.declarations@ == Set::<DeclarationId>::empty(),
    {
        Session { session_number, declarations: TrieSet::new() }
    }

    /// Lets a declaration take part if it is active, and otherwise not.
    pub fn update(&mut self, declaration_id: DeclarationId, state: &FinalizedDeclarationState)
        ensures
            final(self).session_number == old(self).session_number,
            final(self).declarations@ == (match *state {
                FinalizedDeclarationState::Active => old(self).declarations@.insert(
                    declaration_id,
                ),
                _ => old(self).declarations@.remove(declaration_id),
            }),
    {
        match state {
            FinalizedDeclarationState::Active => {
                self.declarations.insert_mut(declaration_id);
            },
            _ => {
                self.declarations.remove_mut(&declaration_id);
            },
        }
    }
}

impl Clone for Session {
    fn clone(&self) -> (r: Self)
        ensures
            r == *self,
    {
        Session { session_number: self.session_number, declarations: self.declarations.clone() }
    }
}

/// A session for each service.
pub struct Sessions {
    pub blend_network: Session,
    pub data_availability: Session,
}

impl Sessions {
    /// The session of `service_type`.
    pub open spec fn of(&self, service_type: ServiceType) -> Session {
        match service_type {
            ServiceType::BlendNetwork => self.blend_network,
            ServiceType::DataAvailability => self.data_availability,
        }
    }

    /// Makes sessions without declarations.
    fn new(session_number: SessionNumber) -> (r: Self)
        ensures
            forall|service: ServiceType| #[trigger]
                r.of(service).session_number == session_number && r.of(service).declarations@
                    == Set::<DeclarationId>::empty(),
    {
        Sessions {
            blend_network: Session::new(session_number),
            data_availability: Session::new(session_number),
        }
    }

    /// The session of `service_type`.
    pub fn get(&self, service_type: &ServiceType) -> (r: &Session)
        ensures
            *r == self.of(*service_type),
    {
        match service_type {
            ServiceType::BlendNetwork => &self.blend_network,
            ServiceType::DataAvailability => &self.data_availability,
        }
    }

    /// Lets a declaration take part in the session of `service_type` if it is active, and
    /// otherwise not.
    fn update(
        &mut self,
        service_type: ServiceType,
        declaration_id: DeclarationId,
        state: &FinalizedDeclarationState,
    )
        ensures
            forall|service: ServiceType| #[trigger]
                final(self).of(service).session_number == old(self).of(service).session_number,
            forall|service: ServiceType|
                (#[trigger] final(self).of(service)).declarations@ == (if service
                    != service_type {
                    old(self).of(service).declarations@
                } else if *state == FinalizedDeclarationState::Active {
                    old(self).of(service).declarations@.insert(declaration_id)
                } else {
                    old(self).of(service).declarations@.remove(declaration_id)
                }),
    {
        match service_type {
            ServiceType::BlendNetwork => {
                self.blend_network.update(declaration_id, state);
            },
            ServiceType::DataAvailability => {
                self.data_availability.update(declaration_id, state);
            },
        }
    }
}

impl Clone for Sessions {
    fn clone(&self) -> (r: Self)
        ensures
            r == *self,
    {
        Sessions {
            blend_network: self.blend_network.clone(),
            data_availability: self.data_availability.clone(),
        }
    }
}

/// Declarations, and the sessions that they take part in.
pub struct SdpLedger {
    pub declarations: TrieMap<DeclarationState>,
    /// The sessions that are running.
    pub active_sessions: Sessions,
    /// The sessions that are forming.
    pub forming_sessions: Sessions,
}

/// Whether the session of `service` is due to start at `block_number`.
pub open spec fn is_due(
    forming: Session,
    block_number: BlockNumber,
    params: ServiceParameters,
) -> bool {
    forming.session_number <= block_number / params.session_duration
}

/// Why a message about a declaration is rejected, if it is.
pub open spec fn msg_failure(
    declarations: Map<DeclarationId, DeclarationState>,
    op: DeclarationMsg,
    transition: Result<DeclarationState, OpFailure>,
) -> Option<SdpLedgerError> {
    if !declarations.dom().contains(op.declaration_id) {
        Some(SdpLedgerError::SdpDeclarationNotFound(op.declaration_id))
    } else if op.nonce <= declarations[op.declaration_id].nonce {
        Some(SdpLedgerError::SdpInvalidNonce(op.nonce))
    } else {
        match transition {
            Err(failure) => Some(SdpLedgerError::SdpStateError(failure)),
            Ok(_) => None,
        }
    }
}

/// Whether a declaration can be counted for a session.
pub open spec fn is_counted(
    state: DeclarationState,
    params: &ServiceParams,
    outcome: Result<FinalizedDeclarationState, OpFailure>,
) -> bool {
    params.of(state.service_type) is Some && outcome is Ok
}

/// Why a declaration cannot be counted for a session.
pub open spec fn count_failure(
    state: DeclarationState,
    params: &ServiceParams,
    outcome: Result<FinalizedDeclarationState, OpFailure>,
) -> SdpLedgerError {
    if params.of(state.service_type) is None {
        SdpLedgerError::ServiceParamsNotFound(state.service_type)
    } else {
        SdpLedgerError::SdpStateError(outcome->Err_0)
    }
}

/// Whether the declaration takes part in the session that is forming for `service`.
pub open spec fn takes_part(
    before: Set<DeclarationId>,
    declarations: Map<DeclarationId, DeclarationState>,
    outcomes: Map<DeclarationId, Result<FinalizedDeclarationState, OpFailure>>,
    service: ServiceType,
    id: DeclarationId,
) -> bool {
    if declarations.dom().contains(id) && declarations[id].service_type == service {
        outcomes[id]->Ok_0 == FinalizedDeclarationState::Active
    } else {
        before.contains(id)
    }
}

/// The declarations that take part in the session that is forming for `service`.
pub open spec fn formed(
    before: Set<DeclarationId>,
    declarations: Map<DeclarationId, DeclarationState>,
    outcomes: Map<DeclarationId, Result<FinalizedDeclarationState, OpFailure>>,
    service: ServiceType,
) -> Set<DeclarationId> {
    Set::new(
        |id: DeclarationId| takes_part(before, declarations, outcomes, service, id),
    )
}

/// Whether `after` is `before` when the sessions that are due have started.
pub open spec fn is_promoted(
    before: &SdpLedger,
    block_number: BlockNumber,
    params: &ServiceParams,
    after: &SdpLedger,
) -> bool {
    &&& after.declarations == before.declarations
    &&& forall|service: ServiceType| #[trigger]
        is_service_promoted(before, block_number, params, after, service)
}

/// Whether the sessions of `service` in `after` are those in `before` when the one that is
/// forming has started, if it is due.
pub open spec fn is_service_promoted(
    before: &SdpLedger,
    block_number: BlockNumber,
    params: &ServiceParams,
    after: &SdpLedger,
    service: ServiceType,
) -> bool {
    let forming = before.forming_sessions.of(service);
    if is_due(forming, block_number, params.of(service)->0) {
        &&& after.active_sessions.of(service) == forming
        &&& after.forming_sessions.of(service) == (Session {
            session_number: (forming.session_number + 1) as u64,
            ..forming
        })
    } else {
        &&& after.active_sessions.of(service) == before.active_sessions.of(service)
        &&& after.forming_sessions.of(service) == forming
    }
}

/// The first service that has no parameters.
pub open spec fn missing_params(params: &ServiceParams) -> Option<ServiceType> {
    if params.blend_network is None {
        Some(ServiceType::BlendNetwork)
    } else if params.data_availability is None {
        Some(ServiceType::DataAvailability)
    } else {
        None
    }
}

impl SdpLedger {
    /// Whether the next sessions can be counted.
    pub open spec fn well_formed(&self) -> bool {
        &&& self.forming_sessions.blend_network.session_number < u64::MAX
        &&& self.forming_sessions.data_availability.session_number < u64::MAX
    }

    /// Makes a ledger without declarations, in which the first session is running.
    pub fn new() -> (r: Self)
        ensures
            r.well_formed(),
            r.declarations@ == Map::<DeclarationId, DeclarationState>::empty(),
            forall|service: ServiceType| #[trigger]
                r.active_sessions.of(service).session_number == 0
                    && r.active_sessions.of(service).declarations@ == Set::<
                    DeclarationId,
                >::empty(),
            forall|service: ServiceType| #[trigger]
                r.forming_sessions.of(service).session_number == 1
                    && r.forming_sessions.of(service).declarations@ == Set::<
                    DeclarationId,
                >::empty(),
    {
        let forming_sessions: Sessions = Sessions::new(1);
        assert(forming_sessions.of(ServiceType::BlendNetwork).session_number == 1);
        assert(forming_sessions.of(ServiceType::DataAvailability).session_number == 1);
        SdpLedger {
            declarations: TrieMap::new(),
            active_sessions: Sessions::new(0),
            forming_sessions,
        }
    }

    /// Adds a declaration.
    pub fn apply_declare_msg(self, block_number: BlockNumber, op: &DeclareOp) -> (r: Result<
        Self,
        SdpLedgerError,
    >)
        ensures
            if self.declarations@.dom().contains(op.declaration_id) {
                r == Err::<Self, _>(SdpLedgerError::SdpDuplicateDeclaration(op.declaration_id))
            } else {
                r matches Ok(sdp) && sdp == (SdpLedger { declarations: sdp.declarations, ..self })
                    && sdp.declarations@ == self.declarations@.insert(
                    op.declaration_id,
                    declared(block_number, *op),
                )
            },
    {
        if self.declarations.contains_key(&op.declaration_id) {
            return Err(SdpLedgerError::SdpDuplicateDeclaration(op.declaration_id));
        }
        let mut declarations: TrieMap<DeclarationState> = self.declarations.clone();
        declarations.insert_mut(
            op.declaration_id,
            DeclarationState {
                service_type: op.service_type,
                locked_note_id: op.locked_note_id,
                provider_id: op.provider_id,
                zk_id: op.zk_id,
                locators: op.locators.clone(),
                created: block_number,
                active: block_number,
                withdrawn: None,
                nonce: 0,
            },
        );
        Ok(
            SdpLedger {
                declarations,
                active_sessions: self.active_sessions,
                forming_sessions: self.forming_sessions,
            },
        )
    }

    /// Applies a message about a declaration, which brings it into the state `transition` if
    /// it can.
    fn apply_msg(self, op: &DeclarationMsg, transition: Result<DeclarationState, OpFailure>) -> (r:
        Result<Self, SdpLedgerError>)
        ensures
            match msg_failure(self.declarations@, *op, transition) {
                Some(error) => r == Err::<Self, _>(error),
                None => r matches Ok(sdp) && sdp == (SdpLedger {
                    declarations: sdp.declarations,
                    ..self
                }) && sdp.declarations@ == self.declarations@.insert(
                    op.declaration_id,
                    DeclarationState { nonce: op.nonce, ..transition->Ok_0 },
                ),
            },
    {
        match self.declarations.get(&op.declaration_id) {
            Some(current_state) => {
                if op.nonce <= current_state.nonce {
                    return Err(SdpLedgerError::SdpInvalidNonce(op.nonce));
                }
            },
            None => return Err(SdpLedgerError::SdpDeclarationNotFound(op.declaration_id)),
        }
        match transition {
            Ok(state) => {
                let mut declarations: TrieMap<DeclarationState> = self.declarations.clone();
                declarations.insert_mut(
                    op.declaration_id,
                    DeclarationState { nonce: op.nonce, ..state },
                );
                Ok(
                    SdpLedger {
                        declarations,
                        active_sessions: self.active_sessions,
                        forming_sessions: self.forming_sessions,
                    },
                )
            },
            Err(failure) => Err(SdpLedgerError::SdpStateError(failure)),
        }
    }

    /// Applies an activity message. The state that the activity brings the declaration into,
    /// if it can, is `transition`.
    pub fn apply_active_msg(
        self,
        op: &DeclarationMsg,
        transition: Result<DeclarationState, OpFailure>,
    ) -> (r: Result<Self, SdpLedgerError>)
        ensures
            match msg_failure(self.declarations@, *op, transition) {
                Some(error) => r == Err::<Self, _>(error),
                None => r matches Ok(sdp) && sdp == (SdpLedger {
                    declarations: sdp.declarations,
                    ..self
                }) && sdp.declarations@ == self.declarations@.insert(
                    op.declaration_id,
                    DeclarationState { nonce: op.nonce, ..transition->Ok_0 },
                ),
            },
    {
        self.apply_msg(op, transition)
    }

    /// Applies a withdrawal. The state that the withdrawal brings the declaration into, if it
    /// can, is `transition`.
    pub fn apply_withdrawn_msg(
        self,
        op: &DeclarationMsg,
        transition: Result<DeclarationState, OpFailure>,
    ) -> (r: Result<Self, SdpLedgerError>)
        ensures
            match msg_failure(self.declarations@, *op, transition) {
                Some(error) => r == Err::<Self, _>(error),
                None => r matches Ok(sdp) && sdp == (SdpLedger {
                    declarations: sdp.declarations,
                    ..self
                }) && sdp.declarations@ == self.declarations@.insert(
                    op.declaration_id,
                    DeclarationState { nonce: op.nonce, ..transition->Ok_0 },
                ),
            },
    {
        self.apply_msg(op, transition)
    }

    /// The declaration with this identifier.
    pub fn get_declaration(&self, id: &DeclarationId) -> (r: Result<
        &DeclarationState,
        SdpLedgerError,
    >)
        ensures
            r == (if self.declarations@.dom().contains(*id) {
                Ok(&self.declarations@[*id])
            } else {
                Err(SdpLedgerError::SdpDeclarationNotFound(*id))
            }),
    {
        match self.declarations.get(id) {
            Some(state) => Ok(state),
            None => Err(SdpLedgerError::SdpDeclarationNotFound(*id)),
        }
    }

    /// Brings the sessions that are forming up to date with all declarations, and starts those
    /// that are due. What the state of each declaration amounts to is in `outcomes`.
    pub fn try_update_session(
        self,
        block_number: BlockNumber,
        service_params: &ServiceParams,
        outcomes: &TrieMap<Result<FinalizedDeclarationState, OpFailure>>,
    ) -> (r: Result<Self, SdpLedgerError>)
        requires
            self.well_formed(),
            service_params.well_formed(),
            self.declarations@.dom().subset_of(outcomes@.dom()),
        ensures
            ({
                let all_counted = forall|id: DeclarationId| #[trigger]
                    self.declarations@.dom().contains(id) ==> is_counted(
                        self.declarations@[id],
                        service_params,
                        outcomes@[id],
                    );
                match r {
                    Ok(sdp) => {
                        &&& all_counted
                        &&& missing_params(service_params) is None
                        &&& exists|formed: SdpLedger|
                            is_formed(&self, outcomes@, &formed) && #[trigger] is_promoted(
                                &formed,
                                block_number,
                                service_params,
                                &sdp,
                            )
                    },
                    Err(error) => if all_counted {
                        missing_params(service_params) matches Some(service) && error
                            == SdpLedgerError::SessionParamsNotFound(service)
                    } else {
                        exists|id: DeclarationId| #[trigger]
                            self.declarations@.dom().contains(id) && !is_counted(
                                self.declarations@[id],
                                service_params,
                                outcomes@[id],
                            ) && error == count_failure(
                                self.declarations@[id],
                                service_params,
                                outcomes@[id],
                            )
                    },
                }
            }),
            r matches Ok(sdp) ==> block_number < u64::MAX - 1 ==> sdp.well_formed(),
    {
        let ids: Vec<DeclarationId> = self.declarations.keys();
        let mut forming: Sessions = self.forming_sessions.clone();
        let mut i: usize = 0;
        proof {
            assert(ids@.take(0) =~= Seq::empty());
        }
        while i < ids.len()
            invariant
                0 <= i <= ids@.len(),
                ids@.no_duplicates(),
                ids@.to_set() == self.declarations@.dom(),
                self.declarations@.dom().subset_of(outcomes@.dom()),
                forall|j: int|
                    0 <= j < i ==> is_counted(
                        self.declarations@[#[trigger] ids@[j]],
                        service_params,
                        outcomes@[ids@[j]],
                    ),
                forall|service: ServiceType| #[trigger]
                    forming.of(service).session_number == self.forming_sessions.of(
                        service,
                    ).session_number,
                forall|service: ServiceType, id: DeclarationId| #[trigger]
                    forming.of(service).declarations@.contains(id) == (if ids@.take(
                        i as int,
                    ).contains(id) {
                        takes_part(
                            self.forming_sessions.of(service).declarations@,
                            self.declarations@,
                            outcomes@,
                            service,
                            id,
                        )
                    } else {
                        self.forming_sessions.of(service).declarations@.contains(id)
                    }),
            decreases ids@.len() - i,
        {
            let id: DeclarationId = ids[i];
            let ghost done = ids@.take(i as int);
            let ghost before = forming;
            proof {
                assert(ids@.to_set().contains(ids@[i as int]));
                assert(ids@.take(i + 1) =~= done.push(id));
                assert forall|other: DeclarationId| ids@.take(i + 1).contains(other) == (
                done.contains(other) || other == id) by {
                    if done.contains(other) {
                        let k = choose|k: int| 0 <= k < done.len() && done[k] == other;
                        assert(done.push(id)[k] == other);
                    }
                    assert(done.push(id)[i as int] == id);
                }
                if done.contains(id) {
                    let k = choose|k: int| 0 <= k < done.len() && done[k] == id;
                    assert(ids@[k] == ids@[i as int]);
                }
            }
            if let (Some(state), Some(outcome)) = (self.declarations.get(&id), outcomes.get(&id)) {
                if service_params.get(&state.service_type).is_none() {
                    return Err(SdpLedgerError::ServiceParamsNotFound(state.service_type));
                }
                match outcome {
                    Ok(finalized) => {
                        forming.update(state.service_type, id, finalized);
                    },
                    Err(failure) => return Err(SdpLedgerError::SdpStateError(*failure)),
                }
                assert forall|service: ServiceType, other: DeclarationId| #[trigger]
                    forming.of(service).declarations@.contains(other) == (if ids@.take(
                        i + 1,
                    ).contains(other) {
                        takes_part(
                            self.forming_sessions.of(service).declarations@,
                            self.declarations@,
                            outcomes@,
                            service,
                            other,
                        )
                    } else {
                        self.forming_sessions.of(service).declarations@.contains(other)
                    }) by {
                    assert(before.of(service).declarations@.contains(other) == (if done.contains(
                        other,
                    ) {
                        takes_part(
                            self.forming_sessions.of(service).declarations@,
                            self.declarations@,
                            outcomes@,
                            service,
                            other,
                        )
                    } else {
                        self.forming_sessions.of(service).declarations@.contains(other)
                    }));
                }
            }
            i += 1;
        }
        proof {
            assert(ids@.take(i as int) =~= ids@);
            assert forall|id: DeclarationId| #[trigger]
                self.declarations@.dom().contains(id) implies is_counted(
                self.declarations@[id],
                service_params,
                outcomes@[id],
            ) by {
                assert(ids@.to_set().contains(id));
                let k = choose|k: int| 0 <= k < ids@.len() && ids@[k] == id;
                assert(ids@[k] == id);
            }
            assert forall|service: ServiceType| #[trigger] forming.of(service).declarations@
                == self::formed(
                self.forming_sessions.of(service).declarations@,
                self.declarations@,
                outcomes@,
                service,
            ) by {
                assert forall|id: DeclarationId| forming.of(service).declarations@.contains(id)
                    == takes_part(
                    self.forming_sessions.of(service).declarations@,
                    self.declarations@,
                    outcomes@,
                    service,
                    id,
                ) by {
                    assert(ids@.to_set().contains(id) == self.declarations@.dom().contains(id));
                }
                assert(forming.of(service).declarations@ =~= self::formed(
                    self.forming_sessions.of(service).declarations@,
                    self.declarations@,
                    outcomes@,
                    service,
                ));
            }
            assert(forming.of(ServiceType::BlendNetwork).session_number
                == self.forming_sessions.blend_network.session_number);
            assert(forming.of(ServiceType::DataAvailability).session_number
                == self.forming_sessions.data_availability.session_number);
        }
        let formed: SdpLedger = SdpLedger {
            declarations: self.declarations.clone(),
            active_sessions: self.active_sessions.clone(),
            forming_sessions: forming,
        };
        assert(is_formed(&self, outcomes@, &formed));
        formed.try_promote(block_number, service_params)
    }

    /// Lets a declaration of the genesis block take part in the first session.
    pub fn try_update_session_from_genesis(
        self,
        block_number: BlockNumber,
        service_type: &ServiceType,
        declaration_id: DeclarationId,
    ) -> (r: Result<Self, SdpLedgerError>)
        ensures
            if block_number != 0 {
                r == Err::<Self, _>(SdpLedgerError::NotGenesisBlock)
            } else {
                &&& r matches Ok(sdp)
                &&& sdp == (SdpLedger { active_sessions: sdp.active_sessions, ..self })
                &&& forall|service: ServiceType| #[trigger]
                    sdp.active_sessions.of(service).session_number == self.active_sessions.of(
                        service,
                    ).session_number
                &&& forall|service: ServiceType|
                    (#[trigger] sdp.active_sessions.of(service)).declarations@ == (if service
                        == *service_type {
                        self.active_sessions.of(service).declarations@.insert(declaration_id)
                    } else {
                        self.active_sessions.of(service).declarations@
                    })
            },
    {
        if block_number != 0 {
            return Err(SdpLedgerError::NotGenesisBlock);
        }
        let mut active_sessions: Sessions = self.active_sessions;
        active_sessions.update(*service_type, declaration_id, &FinalizedDeclarationState::Active);
        Ok(
            SdpLedger {
                declarations: self.declarations,
                active_sessions,
                forming_sessions: self.forming_sessions,
            },
        )
    }

    /// Starts the sessions that are due. The next ones form from the same declarations.
    pub fn try_promote(self, block_number: BlockNumber, service_params: &ServiceParams) -> (r:
        Result<Self, SdpLedgerError>)
        requires
            self.well_formed(),
            service_params.well_formed(),
        ensures
            match missing_params(service_params) {
                Some(service) => r == Err::<Self, _>(
                    SdpLedgerError::SessionParamsNotFound(service),
                ),
                None => r matches Ok(sdp) && is_promoted(
                    &self,
                    block_number,
                    service_params,
                    &sdp,
                ),
            },
            r matches Ok(sdp) ==> block_number < u64::MAX - 1 ==> sdp.well_formed(),
    {
        let blend_params: ServiceParameters = match service_params.blend_network {
            Some(params) => params,
            None => return Err(SdpLedgerError::SessionParamsNotFound(ServiceType::BlendNetwork)),
        };
        let da_params: ServiceParameters = match service_params.data_availability {
            Some(params) => params,
            None => return Err(
                SdpLedgerError::SessionParamsNotFound(ServiceType::DataAvailability),
            ),
        };
        let (blend_active, blend_forming): (Session, Session) = promote(
            self.active_sessions.blend_network,
            self.forming_sessions.blend_network,
            block_number,
            blend_params,
        );
        let (da_active, da_forming): (Session, Session) = promote(
            self.active_sessions.data_availability,
            self.forming_sessions.data_availability,
            block_number,
            da_params,
        );
        let sdp = SdpLedger {
            declarations: self.declarations,
            active_sessions: Sessions {
                blend_network: blend_active,
                data_availability: da_active,
            },
            forming_sessions: Sessions {
                blend_network: blend_forming,
                data_availability: da_forming,
            },
        };
        Ok(sdp)
    }
}

impl Default for SdpLedger {
    fn default() -> (r: Self)
        ensures
            r.well_formed(),
            r.declarations@ == Map::<DeclarationId, DeclarationState>::empty(),
            forall|service: ServiceType| #[trigger]
                r.active_sessions.of(service).session_number == 0
                    && r.active_sessions.of(service).declarations@ == Set::<
                    DeclarationId,
                >::empty(),
            forall|service: ServiceType| #[trigger]
                r.forming_sessions.of(service).session_number == 1
                    && r.forming_sessions.of(service).declarations@ == Set::<
                    DeclarationId,
                >::empty(),
    {
        let r = Self::new();
        assert(r.active_sessions.of(ServiceType::BlendNetwork).session_number == 0);
        assert(r.active_sessions.of(ServiceType::DataAvailability).session_number == 0);
        assert(r.forming_sessions.of(ServiceType::BlendNetwork).session_number == 1);
        assert(r.forming_sessions.of(ServiceType::DataAvailability).session_number == 1);
        r
    }
}

impl Clone for SdpLedger {
    fn clone(&self) -> (r: Self)
        ensures
            r == *self,
    {
        SdpLedger {
            declarations: self.declarations.clone(),
            active_sessions: self.active_sessions.clone(),
            forming_sessions: self.forming_sessions.clone(),
        }
    }
}

/// Whether `after` is `before` with the sessions that are forming brought up to date.
pub open spec fn is_formed(
    before: &SdpLedger,
    outcomes: Map<DeclarationId, Result<FinalizedDeclarationState, OpFailure>>,
    after: &SdpLedger,
) -> bool {
    &&& after.declarations == before.declarations
    &&& after.active_sessions == before.active_sessions
    &&& forall|service: ServiceType| #[trigger]
        after.forming_sessions.of(service).session_number == before.forming_sessions.of(
            service,
        ).session_number
    &&& forall|service: ServiceType|
        (#[trigger] after.forming_sessions.of(service)).declarations@ == formed(
            before.forming_sessions.of(service).declarations@,
            before.declarations@,
            outcomes,
            service,
        )
}

/// Starts a session if it is due.
fn promote(
    active: Session,
    forming: Session,
    block_number: BlockNumber,
    params: ServiceParameters,
) -> (r: (Session, Session))
    requires
        params.session_duration > 0,
        forming.session_number < u64::MAX,
    ensures
        r == (if is_due(forming, block_number, params) {
            (
                forming,
                Session { session_number: (forming.session_number + 1) as u64, ..forming },
            )
        } else {
            (active, forming)
        }),
{
    let expected_active_session_num: u64 = block_number / params.session_duration;
    if forming.session_number <= expected_active_session_num {
        let next: Session = Session {
            session_number: forming.session_number + 1,
            declarations: forming.declarations.clone(),
        };
        (forming, next)
    } else {
        (active, forming)
    }
}

/// A session that starts has the declarations that took part while it was forming, and so has
/// the next one at first.
pub proof fn started_session_keeps_its_declarations(
    before: &SdpLedger,
    block_number: BlockNumber,
    params: &ServiceParams,
    after: &SdpLedger,
    service: ServiceType,
)
    requires
        is_promoted(before, block_number, params, after),
        is_due(before.forming_sessions.of(service), block_number, params.of(service)->0),
    ensures
        after.active_sessions.of(service).declarations == before.forming_sessions.of(
            service,
        ).declarations,
        after.forming_sessions.of(service).declarations == before.forming_sessions.of(
            service,
        ).declarations,
{
    assert(is_service_promoted(before, block_number, params, after, service));
}

/// The session that is forming follows the one that is running.
pub proof fn sessions_follow_each_other(
    before: &SdpLedger,
    block_number: BlockNumber,
    params: &ServiceParams,
    after: &SdpLedger,
    service: ServiceType,
)
    requires
        before.well_formed(),
        before.forming_sessions.of(service).session_number == before.active_sessions.of(
            service,
        ).session_number + 1,
        is_promoted(before, block_number, params, after),
    ensures
        after.forming_sessions.of(service).session_number == after.active_sessions.of(
            service,
        ).session_number + 1,
{
    assert(is_service_promoted(before, block_number, params, after, service));
}

} // verus!
