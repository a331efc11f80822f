//! Services whose sessions are taken from the declarations at their boundaries.
use vstd::prelude::*;

use crate::collections::trie_map::TrieMap;
use crate::mantle::locked_notes as locks;
use crate::mantle::locked_notes::MinStake;
use crate::session::locked_notes::LockedNotes;
use crate::session::membership::{
    DeclarationMsg, DeclareOp, Locators, ServiceParameters, ServiceParams, SessionNumber,
};
use crate::signature;
use crate::types::{
    BlockNumber, DeclarationId, Fr, Nonce, Note, NoteId, ProviderId, ServiceType, TxHash,
    ZkPublicKey,
};

verus! {

/// A declaration of a service provider.
#[derive(Debug, PartialEq, Eq)]
pub struct Declaration {
    pub service_type: ServiceType,
    pub provider_id: ProviderId,
    pub locked_note_id: NoteId,
    pub zk_id: ZkPublicKey,
    pub locators: Locators,
    /// The block of the declaration.
    pub created: BlockNumber,
    /// The block of the last activity, or of the declaration.
    pub active: BlockNumber,
    /// The nonce of the declaration.
    pub nonce: Nonce,
}

impl Clone for Declaration {
    fn clone(&self) -> (r: Self)
        ensures
            r == *self,
    {
        Declaration {
            service_type: self.service_type,
            provider_id: self.provider_id,
            locked_note_id: self.locked_note_id,
            zk_id: self.zk_id,
            locators: self.locators.clone(),
            created: self.created,
            active: self.active,
            nonce: self.nonce,
        }
    }
}

/// Declarations by their identifiers.
pub type Declarations = TrieMap<Declaration>;

/// Parameters of declarations.
#[derive(Clone, Copy, Debug, PartialEq, Eq, Structural)]
pub struct Config {
    pub service_params: ServiceParams,
    pub min_stake: MinStake,
}

/// Failure of an operation on declarations.
#[derive(Clone, Copy, Debug, PartialEq, Eq)]
pub enum Error {
    /// There is no such declaration.
    DeclarationNotFound(DeclarationId),
    /// The declaration cannot be withdrawn yet.
    WithdrawalWhileLocked,
    /// The message does not follow the last one of the declaration.
    InvalidNonce(Nonce),
    /// There is no such service.
    ServiceNotFound(ServiceType),
    /// There is such a declaration already.
    DuplicateDeclaration(DeclarationId),
    /// The service has no active session.
    ActiveSessionNotFound(ServiceType),
    /// The service has no session that is forming.
    FormingSessionNotFound(ServiceType),
    /// The service has no parameters for sessions.
    SessionParamsNotFound(ServiceType),
    /// The service has no parameters.
    ServiceParamsNotFound(ServiceType),
    /// The block is not the first one.
    NotGenesisBlock,
    /// The block is not a later one.
    TimeTravel { current: BlockNumber, incoming: BlockNumber },
    /// A note could not be locked or unlocked.
    LockingError(locks::Error),
    /// A signature is not valid.
    InvalidSignature,
}

/// The declarations at the start of a session.
pub struct SessionState {
    pub declarations: Declarations,
    pub session_n: SessionNumber,
}

impl SessionState {
    /// Whether the session has not reached its first block.
    pub open spec fn is_ahead(&self, block_number: BlockNumber, params: ServiceParameters) -> bool {
        (if self.session_n == 0 {
            0
        } else {
            self.session_n - 1
        }) * params.session_duration > block_number
    }

    /// Takes the declarations as they are, as long as the session has not reached its first
    /// block.
    fn update(
        &self,
        declarations: &Declarations,
        block_number: BlockNumber,
        config: &ServiceParameters,
    ) -> (r: Self)
        requires
            (if self.session_n == 0 {
                0
            } else {
                self.session_n - 1
            }) * config.session_duration <= u64::MAX,
        ensures
            r == (if self.is_ahead(block_number, *config) {
                SessionState { declarations: *declarations, session_n: self.session_n }
            } else {
                *self
            }),
    {
        if self.session_n.saturating_sub(1) * config.session_duration > block_number {
            return SessionState { session_n: self.session_n, declarations: declarations.clone() };
        }
        self.clone()
    }
}

impl Clone for SessionState {
    fn clone(&self) -> (r: Self)
        ensures
            r == *self,
    {
        SessionState { declarations: self.declarations.clone(), session_n: self.session_n }
    }
}

/// The state of a service.
pub struct ServiceState {
    /// The declarations up to the current block.
    pub declarations: Declarations,
    /// The session that is running.
    pub active: SessionState,
    /// The session before it.
    pub past_session: SessionState,
    /// The session that is forming.
    pub forming: SessionState,
}

/// Why an activity message is rejected, if it is.
pub open spec fn active_failure(
    declarations: Map<DeclarationId, Declaration>,
    locked: &LockedNotes,
    msg: DeclarationMsg,
    sig_valid: bool,
) -> Option<Error> {
    if !declarations.dom().contains(msg.declaration_id) {
        Some(Error::DeclarationNotFound(msg.declaration_id))
    } else {
        let declaration = declarations[msg.declaration_id];
        if msg.nonce <= declaration.nonce {
            Some(Error::InvalidNonce(msg.nonce))
        } else if !locked.notes@.dom().contains(declaration.locked_note_id) {
            Some(Error::LockingError(locks::Error::NoteNotLocked(declaration.locked_note_id)))
        } else if !sig_valid {
            Some(Error::InvalidSignature)
        } else {
            None
        }
    }
}

/// Why a withdrawal is rejected, if it is.
pub open spec fn withdraw_failure(
    declarations: Map<DeclarationId, Declaration>,
    locked: &LockedNotes,
    msg: DeclarationMsg,
    block_number: BlockNumber,
    params: ServiceParameters,
    sig_valid: bool,
) -> Option<Error> {
    if !declarations.dom().contains(msg.declaration_id) {
        Some(Error::DeclarationNotFound(msg.declaration_id))
    } else {
        let declaration = declarations[msg.declaration_id];
        if msg.nonce <= declaration.nonce {
            Some(Error::InvalidNonce(msg.nonce))
        } else if declaration.created + params.lock_period >= block_number {
            Some(Error::WithdrawalWhileLocked)
        } else {
            match locks::unlock_failure(
                locked.services(),
                declaration.service_type,
                declaration.locked_note_id,
            ) {
                Some(error) => Some(Error::LockingError(error)),
                None => if sig_valid {
                    None
                } else {
                    Some(Error::InvalidSignature)
                },
            }
        }
    }
}

impl ServiceState {
    /// The state after the header of block `block_number`. At the first block of a session all
    /// sessions move on, and the next one forms from the declarations as they are.
    pub open spec fn after_header(self, block_number: BlockNumber, params: ServiceParameters) -> Self {
        if block_number / params.session_duration == self.active.session_n + 1 {
            ServiceState {
                declarations: self.declarations,
                active: self.forming,
                past_session: self.active,
                forming: SessionState {
                    declarations: self.declarations,
                    session_n: (self.forming.session_n + 1) as u64,
                },
            }
        } else if self.forming.is_ahead(block_number, params) {
            ServiceState {
                forming: SessionState { declarations: self.declarations, ..self.forming },
                ..self
            }
        } else {
            self
        }
    }

    /// Whether sessions can be counted.
    pub open spec fn can_move_on(&self, params: ServiceParameters) -> bool {
        &&& params.session_duration > 0
        &&& self.active.session_n < u64::MAX
        &&& self.forming.session_n < u64::MAX
        &&& (if self.forming.session_n == 0 {
            0
        } else {
            self.forming.session_n - 1
        }) * params.session_duration <= u64::MAX
    }

    /// Makes a service without declarations, in which the first session is running.
    pub fn new() -> (r: Self)
        ensures
            r.declarations@ == Map::<DeclarationId, Declaration>::empty(),
            r.active.session_n == 0,
            r.active.declarations@ == Map::<DeclarationId, Declaration>::empty(),
            r.past_session.session_n == 0,
            r.past_session.declarations@ == Map::<DeclarationId, Declaration>::empty(),
            r.forming.session_n == 1,
            r.forming.declarations@ == Map::<DeclarationId, Declaration>::empty(),
    {
        ServiceState {
            declarations: TrieMap::new(),
            active: SessionState { declarations: TrieMap::new(), session_n: 0 },
            past_session: SessionState { declarations: TrieMap::new(), session_n: 0 },
            forming: SessionState { declarations: TrieMap::new(), session_n: 1 },
        }
    }

    /// Applies the header of block `block_number`.
    fn try_apply_header(self, block_number: BlockNumber, config: &ServiceParameters) -> (r: Self)
        requires
            self.can_move_on(*config),
        ensures
            r == self.after_header(block_number, *config),
    {
        let current_session: u64 = block_number / config.session_duration;
        if current_session == self.active.session_n + 1 {
            let forming: SessionState = SessionState {
                declarations: self.declarations.clone(),
                session_n: self.forming.session_n + 1,
            };
            ServiceState {
                declarations: self.declarations,
                past_session: self.active,
                active: self.forming,
                forming,
            }
        } else {
            let forming: SessionState = self.forming.update(
                &self.declarations,
                block_number,
                config,
            );
            ServiceState {
                declarations: self.declarations,
                active: self.active,
                past_session: self.past_session,
                forming,
            }
        }
    }

    /// Adds a declaration.
    fn declare(&mut self, id: DeclarationId, declaration: Declaration) -> (r: Result<(), Error>)
        ensures
            if old(self).declarations@.dom().contains(id) {
                &&& r == Err::<(), _>(Error::DuplicateDeclaration(id))
                &&& *final(self) == *old(self)
            } else {
                &&& r == Ok::<_, Error>(())
                &&& *final(self) == (ServiceState {
                    declarations: final(self).declarations,
                    ..*old(self)
                })
                &&& final(self).declarations@ == old(self).declarations@.insert(id, declaration)
            },
    {
        if self.declarations.contains_key(&id) {
            return Err(Error::DuplicateDeclaration(id));
        }
        self.declarations.insert_mut(id, declaration);
        Ok(())
    }

    /// Takes in an activity message. Whether its signature is valid is `sig_valid`.
    fn active(
        self,
        msg: &DeclarationMsg,
        block_number: BlockNumber,
        locked_notes: &LockedNotes,
        sig_valid: bool,
    ) -> (r: Result<Self, Error>)
        ensures
            match active_failure(self.declarations@, locked_notes, *msg, sig_valid) {
                Some(error) => r == Err::<Self, _>(error),
                None => {
                    &&& r matches Ok(state)
                    &&& state == (ServiceState { declarations: state.declarations, ..self })
                    &&& state.declarations@ == self.declarations@.insert(
                        msg.declaration_id,
                        Declaration {
                            active: block_number,
                            ..self.declarations@[msg.declaration_id]
                        },
                    )
                },
            },
    {
        let declaration: Declaration = match self.declarations.get(&msg.declaration_id) {
            Some(declaration) => declaration.clone(),
            None => return Err(Error::DeclarationNotFound(msg.declaration_id)),
        };
        if msg.nonce <= declaration.nonce {
            return Err(Error::InvalidNonce(msg.nonce));
        }
        if locked_notes.get(&declaration.locked_note_id).is_none() {
            return Err(
                Error::LockingError(locks::Error::NoteNotLocked(declaration.locked_note_id)),
            );
        }
        if !sig_valid {
            return Err(Error::InvalidSignature);
        }
        let mut declarations: Declarations = self.declarations;
        declarations.insert_mut(
            msg.declaration_id,
            Declaration { active: block_number, ..declaration },
        );
        Ok(ServiceState { declarations, ..self })
    }

    /// Takes in a withdrawal. Whether its signature is valid is `sig_valid`.
    fn withdraw(
        self,
        msg: &DeclarationMsg,
        block_number: BlockNumber,
        locked_notes: LockedNotes,
        config: &ServiceParameters,
        sig_valid: bool,
    ) -> (r: Result<(Self, LockedNotes), Error>)
        requires
            locked_notes.well_formed(),
            self.declarations@.dom().contains(msg.declaration_id)
                ==> self.declarations@[msg.declaration_id].created + config.lock_period <= u64::MAX,
        ensures
            match withdraw_failure(
                self.declarations@,
                &locked_notes,
                *msg,
                block_number,
                *config,
                sig_valid,
            ) {
                Some(error) => r == Err::<(Self, LockedNotes), _>(error),
                None => {
                    let declaration = self.declarations@[msg.declaration_id];
                    &&& r matches Ok((state, locked))
                    &&& state == (ServiceState { declarations: state.declarations, ..self })
                    &&& state.declarations@ == self.declarations@.remove(msg.declaration_id)
                    &&& is_unlocked(&locked_notes, declaration, &locked)
                },
            },
    {
        let declaration: Declaration = match self.declarations.get(&msg.declaration_id) {
            Some(declaration) => declaration.clone(),
            None => return Err(Error::DeclarationNotFound(msg.declaration_id)),
        };
        if msg.nonce <= declaration.nonce {
            return Err(Error::InvalidNonce(msg.nonce));
        }
        if declaration.created + config.lock_period >= block_number {
            return Err(Error::WithdrawalWhileLocked);
        }
        let locked: LockedNotes = match locked_notes.unlock(
            declaration.service_type,
            &declaration.locked_note_id,
        ) {
            Ok((locked, _)) => locked,
            Err(error) => return Err(Error::LockingError(error)),
        };
        if !sig_valid {
            return Err(Error::InvalidSignature);
        }
        let mut declarations: Declarations = self.declarations;
        declarations.remove_mut(&msg.declaration_id);
        Ok((ServiceState { declarations, ..self }, locked))
    }

    /// Whether there is such a declaration.
    fn contains(&self, declaration_id: &DeclarationId) -> (r: bool)
        ensures
            r == self.declarations@.dom().contains(*declaration_id),
    {
        self.declarations.contains_key(declaration_id)
    }
}

/// Whether `after` is `before` with the note of `declaration` unlocked.
pub open spec fn is_unlocked(
    before: &LockedNotes,
    declaration: Declaration,
    after: &LockedNotes,
) -> bool {
    &&& after.well_formed()
    &&& after.services() == locks::after_unlock(
        before.services(),
        declaration.locked_note_id,
        declaration.service_type,
    )
    &&& after.notes@ == before.notes@.restrict(after.services().dom())
}

impl Clone for ServiceState {
    fn clone(&self) -> (r: Self)
        ensures
            r == *self,
    {
        ServiceState {
            declarations: self.declarations.clone(),
            active: self.active.clone(),
            past_session: self.past_session.clone(),
            forming: self.forming.clone(),
        }
    }
}

/// What a provider is known by.
#[derive(Debug, PartialEq, Eq)]
pub struct ProviderInfo {
    pub zk_id: ZkPublicKey,
    pub locators: Locators,
}

/// The declarations of service providers, and the notes that back them.
pub struct SdpLedger {
    pub blend_network: Option<ServiceState>,
    pub data_availability: Option<ServiceState>,
    pub locked_notes: LockedNotes,
    pub block_number: BlockNumber,
}

/// Why a declaration is rejected, if it is.
pub open spec fn declare_failure(
    sdp: &SdpLedger,
    op: DeclareOp,
    note: Note,
    zk_sig_valid: bool,
    ed25519_sig: Seq<u8>,
    tx_hash: TxHash,
    config: &Config,
) -> Option<Error> {
    if !zk_sig_valid || !signature::ed25519_signed(op.provider_id@, tx_hash@, ed25519_sig) {
        Some(Error::InvalidSignature)
    } else {
        match sdp.service(op.service_type) {
            None => Some(Error::ServiceNotFound(op.service_type)),
            Some(state) => if state.declarations@.dom().contains(op.declaration_id) {
                Some(Error::DuplicateDeclaration(op.declaration_id))
            } else {
                match locks::lock_failure(
                    sdp.locked_notes.services(),
                    Some(note.value),
                    config.min_stake,
                    op.service_type,
                    op.locked_note_id,
                ) {
                    Some(error) => Some(Error::LockingError(error)),
                    None => None,
                }
            },
        }
    }
}

/// The service that a declaration is for, if there is such a declaration.
pub open spec fn service_of(sdp: &SdpLedger, declaration_id: DeclarationId) -> Option<ServiceType> {
    if sdp.declarations(ServiceType::BlendNetwork).dom().contains(declaration_id) {
        Some(ServiceType::BlendNetwork)
    } else if sdp.declarations(ServiceType::DataAvailability).dom().contains(declaration_id) {
        Some(ServiceType::DataAvailability)
    } else {
        None
    }
}

/// Why the service of a declaration cannot be told, if it cannot.
pub open spec fn service_failure(
    sdp: &SdpLedger,
    declaration_id: DeclarationId,
    config: &Config,
) -> Option<Error> {
    match service_of(sdp, declaration_id) {
        None => Some(Error::DeclarationNotFound(declaration_id)),
        Some(service) => match config.service_params.of(service) {
            None => Some(Error::ServiceParamsNotFound(service)),
            Some(_) => None,
        },
    }
}

/// Whether `r` is what comes of a declaration.
pub open spec fn is_declare_result(
    before: &SdpLedger,
    op: DeclareOp,
    note: Note,
    zk_sig_valid: bool,
    ed25519_sig: Seq<u8>,
    tx_hash: TxHash,
    config: &Config,
    r: Result<SdpLedger, Error>,
) -> bool {
    match declare_failure(
        before,
        op,
        note,
        zk_sig_valid,
        ed25519_sig,
        tx_hash,
        config,
    ) {
        Some(error) => r == Err::<SdpLedger, _>(error),
        None => {
            &&& r matches Ok(sdp)
            &&& sdp.service(op.service_type) matches Some(state)
            &&& sdp == (SdpLedger {
                locked_notes: sdp.locked_notes,
                ..before.with_state(op.service_type, state)
            })
            &&& state == (ServiceState {
                declarations: state.declarations,
                ..before.service(op.service_type)->0
            })
            &&& state.declarations@ == before.declarations(op.service_type).insert(
                op.declaration_id,
                Declaration {
                    service_type: op.service_type,
                    provider_id: op.provider_id,
                    locked_note_id: op.locked_note_id,
                    zk_id: op.zk_id,
                    locators: op.locators,
                    created: before.block_number,
                    active: before.block_number,
                    nonce: 0,
                },
            )
            &&& sdp.locked_notes.well_formed()
            &&& sdp.locked_notes.services() == locks::after_lock(
                before.locked_notes.services(),
                op.locked_note_id,
                op.service_type,
            )
            &&& sdp.locked_notes.notes@ == before.locked_notes.notes@.insert(
                op.locked_note_id,
                note,
            )
        },
    }
}

/// Whether `r` is what comes of an activity message.
pub open spec fn is_active_result(
    before: &SdpLedger,
    op: DeclarationMsg,
    sig_valid: bool,
    config: &Config,
    r: Result<SdpLedger, Error>,
) -> bool {
    match service_failure(before, op.declaration_id, config) {
        Some(error) => r == Err::<SdpLedger, _>(error),
        None => {
            let service = service_of(before, op.declaration_id)->0;
            match active_failure(
                before.declarations(service),
                &before.locked_notes,
                op,
                sig_valid,
            ) {
                Some(error) => r == Err::<SdpLedger, _>(error),
                None => {
                    &&& r matches Ok(sdp)
                    &&& sdp.service(service) matches Some(state)
                    &&& sdp == before.with_state(service, state)
                    &&& state == (ServiceState {
                        declarations: state.declarations,
                        ..before.service(service)->0
                    })
                    &&& state.declarations@ == before.declarations(service).insert(
                        op.declaration_id,
                        Declaration {
                            active: before.block_number,
                            ..before.declarations(service)[op.declaration_id]
                        },
                    )
                },
            }
        },
    }
}

/// Whether `r` is what comes of a withdrawal.
pub open spec fn is_withdrawal_result(
    before: &SdpLedger,
    op: DeclarationMsg,
    sig_valid: bool,
    config: &Config,
    r: Result<SdpLedger, Error>,
) -> bool {
    match service_failure(before, op.declaration_id, config) {
        Some(error) => r == Err::<SdpLedger, _>(error),
        None => {
            let service = service_of(before, op.declaration_id)->0;
            match withdraw_failure(
                before.declarations(service),
                &before.locked_notes,
                op,
                before.block_number,
                config.service_params.of(service)->0,
                sig_valid,
            ) {
                Some(error) => r == Err::<SdpLedger, _>(error),
                None => {
                    &&& r matches Ok(sdp)
                    &&& sdp.service(service) matches Some(state)
                    &&& sdp == (SdpLedger {
                        locked_notes: sdp.locked_notes,
                        ..before.with_state(service, state)
                    })
                    &&& state == (ServiceState {
                        declarations: state.declarations,
                        ..before.service(service)->0
                    })
                    &&& state.declarations@ == before.declarations(service).remove(
                        op.declaration_id,
                    )
                    &&& is_unlocked(
                        &before.locked_notes,
                        before.declarations(service)[op.declaration_id],
                        &sdp.locked_notes,
                    )
                },
            }
        },
    }
}

/// The keys that a declaration has to be signed with.
pub open spec fn signers_of_declaration(op: DeclareOp, note: Note) -> Seq<Fr> {
    seq![note.pk, op.zk_id]
}

/// The keys that a message about a declaration has to be signed with, if there is the
/// declaration and its note is locked.
pub open spec fn signers_of_message(sdp: &SdpLedger, declaration_id: DeclarationId) -> Option<
    Seq<Fr>,
> {
    match service_of(sdp, declaration_id) {
        None => None,
        Some(service) => {
            let declaration = sdp.declarations(service)[declaration_id];
            if sdp.locked_notes.notes@.dom().contains(declaration.locked_note_id) {
                Some(
                    seq![
                        sdp.locked_notes.notes@[declaration.locked_note_id].pk,
                        declaration.zk_id,
                    ],
                )
            } else {
                None
            }
        },
    }
}

/// The first service that is offered and has no parameters.
pub open spec fn missing_params(sdp: &SdpLedger, params: &ServiceParams) -> Option<ServiceType> {
    if sdp.blend_network is Some && params.blend_network is None {
        Some(ServiceType::BlendNetwork)
    } else if sdp.data_availability is Some && params.data_availability is None {
        Some(ServiceType::DataAvailability)
    } else {
        None
    }
}

/// What comes of the header of the next block.
pub open spec fn header_result(before: &SdpLedger, config: &Config) -> Result<SdpLedger, Error> {
    let block_number = (before.block_number + 1) as u64;
    match missing_params(before, &config.service_params) {
        Some(service) => Err(Error::SessionParamsNotFound(service)),
        None => Ok(
            SdpLedger {
                blend_network: match before.blend_network {
                    Some(state) => Some(
                        state.after_header(block_number, config.service_params.blend_network->0),
                    ),
                    None => None,
                },
                data_availability: match before.data_availability {
                    Some(state) => Some(
                        state.after_header(
                            block_number,
                            config.service_params.data_availability->0,
                        ),
                    ),
                    None => None,
                },
                locked_notes: before.locked_notes,
                block_number,
            },
        ),
    }
}

impl SdpLedger {
    /// The state of a service, where it is offered.
    pub open spec fn service(&self, service_type: ServiceType) -> Option<ServiceState> {
        match service_type {
            ServiceType::BlendNetwork => self.blend_network,
            ServiceType::DataAvailability => self.data_availability,
        }
    }

    /// The ledger with this state for one of the services.
    pub open spec fn with_state(self, service_type: ServiceType, state: ServiceState) -> Self {
        match service_type {
            ServiceType::BlendNetwork => SdpLedger { blend_network: Some(state), ..self },
            ServiceType::DataAvailability => SdpLedger { data_availability: Some(state), ..self },
        }
    }

    /// The declarations for a service.
    pub open spec fn declarations(&self, service_type: ServiceType) -> Map<
        DeclarationId,
        Declaration,
    > {
        match self.service(service_type) {
            Some(state) => state.declarations@,
            None => Map::empty(),
        }
    }

    /// Makes a ledger without services.
    pub fn new() -> (r: Self)
        ensures
            r.blend_network is None,
            r.data_availability is None,
            r.locked_notes.well_formed(),
            r.locked_notes.services() == Map::<NoteId, locks::Services>::empty(),
            r.block_number == 0,
    {
        SdpLedger {
            blend_network: None,
            data_availability: None,
            locked_notes: LockedNotes::new(),
            block_number: 0,
        }
    }

    /// Adds a service without declarations.
    pub fn with_service(self, service_type: ServiceType) -> (r: Self)
        ensures
            r.service(service_type) matches Some(state) && {
                &&& r == self.with_state(service_type, state)
                &&& state.declarations@ == Map::<DeclarationId, Declaration>::empty()
                &&& state.active.session_n == 0
                &&& state.active.declarations@ == Map::<DeclarationId, Declaration>::empty()
                &&& state.past_session.session_n == 0
                &&& state.past_session.declarations@ == Map::<DeclarationId, Declaration>::empty()
                &&& state.forming.session_n == 1
                &&& state.forming.declarations@ == Map::<DeclarationId, Declaration>::empty()
            },
    {
        self.replace(service_type, ServiceState::new())
    }

    /// The ledger with this state for one of the services.
    fn replace(self, service_type: ServiceType, state: ServiceState) -> (r: Self)
        ensures
            r == self.with_state(service_type, state),
    {
        match service_type {
            ServiceType::BlendNetwork => SdpLedger { blend_network: Some(state), ..self },
            ServiceType::DataAvailability => SdpLedger { data_availability: Some(state), ..self },
        }
    }

    /// The state of a service, where it is offered.
    fn get(&self, service_type: ServiceType) -> (r: Option<&ServiceState>)
        ensures
            match self.service(service_type) {
                Some(state) => r == Some(&state),
                None => r is None,
            },
    {
        match service_type {
            ServiceType::BlendNetwork => self.blend_network.as_ref(),
            ServiceType::DataAvailability => self.data_availability.as_ref(),
        }
    }

    /// Applies the header of the next block.
    pub fn try_apply_header(&self, config: &Config) -> (r: Result<Self, Error>)
        requires
            self.block_number < u64::MAX,
            self.blend_network is Some && config.service_params.blend_network is Some
                ==> self.blend_network->0.can_move_on(config.service_params.blend_network->0),
            self.data_availability is Some && config.service_params.data_availability is Some
                ==> self.data_availability->0.can_move_on(
                config.service_params.data_availability->0,
            ),
        ensures
            r == header_result(self, config),
    {
        let block_number: u64 = self.block_number + 1;
        let blend_network: Option<ServiceState> = match &self.blend_network {
            Some(state) => match config.service_params.blend_network {
                Some(params) => Some(state.clone().try_apply_header(block_number, &params)),
                None => return Err(Error::SessionParamsNotFound(ServiceType::BlendNetwork)),
            },
            None => None,
        };
        let data_availability: Option<ServiceState> = match &self.data_availability {
            Some(state) => match config.service_params.data_availability {
                Some(params) => Some(state.clone().try_apply_header(block_number, &params)),
                None => return Err(Error::SessionParamsNotFound(ServiceType::DataAvailability)),
            },
            None => None,
        };
        Ok(
            SdpLedger {
                blend_network,
                data_availability,
                locked_notes: self.locked_notes.clone(),
                block_number,
            },
        )
    }

    /// The keys that a declaration has to be signed with: that of the note that backs it, and
    /// the one that it is made for.
    pub fn declaration_signers(op: &DeclareOp, note: &Note) -> (r: [Fr; 2])
        ensures
            r@ == signers_of_declaration(*op, *note),
    {
        [note.pk, op.zk_id]
    }

    /// Applies a declaration that is backed by `note`. Whether it is signed with the
    /// [`Self::declaration_signers`] is `zk_sig_valid`.
    pub fn apply_declare_msg(
        self,
        op: &DeclareOp,
        note: Note,
        zk_sig_valid: bool,
        ed25519_sig: &[u8; 64],
        tx_hash: TxHash,
        config: &Config,
    ) -> (r: Result<Self, Error>)
        requires
            self.locked_notes.well_formed(),
        ensures
            is_declare_result(
                &self,
                *op,
                note,
                zk_sig_valid,
                ed25519_sig@,
                tx_hash,
                config,
                r,
            ),
    {
        if !zk_sig_valid {
            return Err(Error::InvalidSignature);
        }
        if !signature::is_signed(&op.provider_id, &tx_hash, ed25519_sig) {
            return Err(Error::InvalidSignature);
        }
        let declaration: Declaration = Declaration {
            service_type: op.service_type,
            provider_id: op.provider_id,
            locked_note_id: op.locked_note_id,
            zk_id: op.zk_id,
            locators: op.locators.clone(),
            created: self.block_number,
            active: self.block_number,
            nonce: 0,
        };
        let mut state: ServiceState = match self.get(op.service_type) {
            Some(state) => state.clone(),
            None => return Err(Error::ServiceNotFound(op.service_type)),
        };
        match state.declare(op.declaration_id, declaration) {
            Ok(()) => {},
            Err(error) => return Err(error),
        }
        let locked_notes: LockedNotes = match self.locked_notes.clone().lock(
            &config.min_stake,
            op.service_type,
            note,
            &op.locked_note_id,
        ) {
            Ok(locked_notes) => locked_notes,
            Err(error) => return Err(Error::LockingError(error)),
        };
        let mut sdp: Self = self.replace(op.service_type, state);
        sdp.locked_notes = locked_notes;
        Ok(sdp)
    }

    /// The keys that a message about a declaration has to be signed with: that of the note
    /// that backs it, and the one that it was made for.
    pub fn message_signers(&self, declaration_id: &DeclarationId) -> (r: Option<[Fr; 2]>)
        ensures
            match signers_of_message(self, *declaration_id) {
                Some(keys) => r matches Some(signers) && signers@ == keys,
                None => r is None,
            },
    {
        let service: ServiceType = match self.find_service(declaration_id) {
            Some(service) => service,
            None => return None,
        };
        match self.get(service) {
            Some(state) => match state.declarations.get(declaration_id) {
                Some(declaration) => match self.locked_notes.get(&declaration.locked_note_id) {
                    Some(note) => Some([note.pk, declaration.zk_id]),
                    None => None,
                },
                None => None,
            },
            None => None,
        }
    }

    /// Applies an activity message. Whether it is signed with the [`Self::message_signers`] is
    /// `sig_valid`.
    pub fn apply_active_msg(self, op: &DeclarationMsg, sig_valid: bool, config: &Config) -> (r:
        Result<Self, Error>)
        ensures
            is_active_result(&self, *op, sig_valid, config, r),
    {
        let (service, _): (ServiceType, ServiceParameters) = match self.get_service(
            &op.declaration_id,
            config,
        ) {
            Ok(found) => found,
            Err(error) => return Err(error),
        };
        let state: ServiceState = match self.get(service) {
            Some(state) => state.clone(),
            None => return Err(Error::DeclarationNotFound(op.declaration_id)),
        };
        match state.active(op, self.block_number, &self.locked_notes, sig_valid) {
            Ok(state) => Ok(self.replace(service, state)),
            Err(error) => Err(error),
        }
    }

    /// Applies a withdrawal. Whether it is signed with the [`Self::message_signers`] is
    /// `sig_valid`.
    pub fn apply_withdrawn_msg(self, op: &DeclarationMsg, sig_valid: bool, config: &Config) -> (r:
        Result<Self, Error>)
        requires
            self.locked_notes.well_formed(),
            service_failure(&self, op.declaration_id, config) is None ==> {
                let service = service_of(&self, op.declaration_id)->0;
                self.declarations(service)[op.declaration_id].created + config.service_params.of(
                    service,
                )->0.lock_period <= u64::MAX
            },
        ensures
            is_withdrawal_result(&self, *op, sig_valid, config, r),
    {
        let (service, params): (ServiceType, ServiceParameters) = match self.get_service(
            &op.declaration_id,
            config,
        ) {
            Ok(found) => found,
            Err(error) => return Err(error),
        };
        let state: ServiceState = match self.get(service) {
            Some(state) => state.clone(),
            None => return Err(Error::DeclarationNotFound(op.declaration_id)),
        };
        match state.withdraw(
            op,
            self.block_number,
            self.locked_notes.clone(),
            &params,
            sig_valid,
        ) {
            Ok((state, locked_notes)) => {
                let mut sdp: Self = self.replace(service, state);
                sdp.locked_notes = locked_notes;
                Ok(sdp)
            },
            Err(error) => Err(error),
        }
    }

    /// The notes that back declarations.
    pub fn locked_notes(&self) -> (r: &LockedNotes)
        ensures
            *r == self.locked_notes,
    {
        &self.locked_notes
    }

    /// The providers that take part in the running session of a service and are still active.
    pub fn active_session_providers(&self, service_type: ServiceType, config: &Config) -> (r:
        Option<TrieMap<ProviderInfo>>)
        ensures
            match (self.service(service_type), config.service_params.of(service_type)) {
                (Some(state), Some(params)) => r matches Some(providers) && is_provider_map(
                    state.active.declarations@,
                    self.block_number,
                    params,
                    providers@,
                ),
                _ => r is None,
            },
    {
        let (state, params): (&ServiceState, ServiceParameters) = match (
            self.get(service_type),
            config.service_params.get(&service_type),
        ) {
            (Some(state), Some(params)) => (state, params),
            _ => return None,
        };
        Some(collect_providers(&state.active.declarations, self.block_number, params))
    }

    /// The number of the running session of each service.
    pub fn active_sessions(&self) -> (r: (Option<SessionNumber>, Option<SessionNumber>))
        ensures
            r.0 == (match self.blend_network {
                Some(state) => Some(state.active.session_n),
                None => None,
            }),
            r.1 == (match self.data_availability {
                Some(state) => Some(state.active.session_n),
                None => None,
            }),
    {
        (
            match &self.blend_network {
                Some(state) => Some(state.active.session_n),
                None => None,
            },
            match &self.data_availability {
                Some(state) => Some(state.active.session_n),
                None => None,
            },
        )
    }

    /// The service that a declaration is for.
    fn find_service(&self, declaration_id: &DeclarationId) -> (r: Option<ServiceType>)
        ensures
            r == service_of(self, *declaration_id),
    {
        if let Some(state) = &self.blend_network {
            if state.contains(declaration_id) {
                return Some(ServiceType::BlendNetwork);
            }
        }
        if let Some(state) = &self.data_availability {
            if state.contains(declaration_id) {
                return Some(ServiceType::DataAvailability);
            }
        }
        None
    }

    /// The service that a declaration is for, and its parameters.
    fn get_service(&self, declaration_id: &DeclarationId, config: &Config) -> (r: Result<
        (ServiceType, ServiceParameters),
        Error,
    >)
        ensures
            match service_failure(self, *declaration_id, config) {
                Some(error) => r == Err::<(ServiceType, ServiceParameters), _>(error),
                None => {
                    let service = service_of(self, *declaration_id)->0;
                    r == Ok::<_, Error>((service, config.service_params.of(service)->0))
                },
            },
    {
        let service: ServiceType = match self.find_service(declaration_id) {
            Some(service) => service,
            None => return Err(Error::DeclarationNotFound(*declaration_id)),
        };
        match config.service_params.get(&service) {
            Some(params) => Ok((service, params)),
            None => Err(Error::ServiceParamsNotFound(service)),
        }
    }

    /// The session of a service that is forming, where it is offered.
    pub fn get_forming_session(&self, service_type: ServiceType) -> (r: Option<&SessionState>)
        ensures
            match self.service(service_type) {
                Some(state) => r == Some(&state.forming),
                None => r is None,
            },
    {
        match self.get(service_type) {
            Some(state) => Some(&state.forming),
            None => None,
        }
    }

    /// The session of a service that is running, where it is offered.
    pub fn get_active_session(&self, service_type: ServiceType) -> (r: Option<&SessionState>)
        ensures
            match self.service(service_type) {
                Some(state) => r == Some(&state.active),
                None => r is None,
            },
    {
        match self.get(service_type) {
            Some(state) => Some(&state.active),
            None => None,
        }
    }

    /// The declarations for a service, where it is offered.
    pub fn get_declarations(&self, service_type: ServiceType) -> (r: Option<&Declarations>)
        ensures
            match self.service(service_type) {
                Some(state) => r == Some(&state.declarations),
                None => r is None,
            },
    {
        match self.get(service_type) {
            Some(state) => Some(&state.declarations),
            None => None,
        }
    }
}

impl Default for SdpLedger {
    fn default() -> (r: Self)
        ensures
            r.blend_network is None,
            r.data_availability is None,
            r.locked_notes.well_formed(),
            r.locked_notes.services() == Map::<NoteId, locks::Services>::empty(),
            r.block_number == 0,
    {
        Self::new()
    }
}

impl Clone for SdpLedger {
    fn clone(&self) -> (r: Self)
        ensures
            r == *self,
    {
        SdpLedger {
            blend_network: match &self.blend_network {
                Some(state) => Some(state.clone()),
                None => None,
            },
            data_availability: match &self.data_availability {
                Some(state) => Some(state.clone()),
                None => None,
            },
            locked_notes: self.locked_notes.clone(),
            block_number: self.block_number,
        }
    }
}

/// Whether a provider was active not too long before `block_number`.
pub open spec fn is_still_active(
    declaration: Declaration,
    block_number: BlockNumber,
    params: ServiceParameters,
) -> bool {
    declaration.active + params.inactivity_period >= block_number
}

/// Whether `providers` holds the providers of the declarations that are still active. A
/// provider of several ones is known by one of them.
pub open spec fn is_provider_map(
    declarations: Map<DeclarationId, Declaration>,
    block_number: BlockNumber,
    params: ServiceParameters,
    providers: Map<ProviderId, ProviderInfo>,
) -> bool {
    &&& forall|id: DeclarationId| #[trigger]
        declarations.dom().contains(id) && is_still_active(declarations[id], block_number, params)
            ==> providers.dom().contains(declarations[id].provider_id)
    &&& forall|provider: ProviderId| #[trigger]
        providers.dom().contains(provider) ==> is_provider(
            declarations,
            block_number,
            params,
            provider,
            providers[provider],
        )
}

/// Whether `provider` has a declaration that is still active, and is known by it.
pub open spec fn is_provider(
    declarations: Map<DeclarationId, Declaration>,
    block_number: BlockNumber,
    params: ServiceParameters,
    provider: ProviderId,
    info: ProviderInfo,
) -> bool {
    exists|id: DeclarationId| #[trigger]
        declarations.dom().contains(id) && is_still_active(declarations[id], block_number, params)
            && declarations[id].provider_id == provider && info == (ProviderInfo {
            zk_id: declarations[id].zk_id,
            locators: declarations[id].locators,
        })
}

/// Collects the providers of the declarations that are still active.
fn collect_providers(
    declarations: &Declarations,
    block_number: BlockNumber,
    params: ServiceParameters,
) -> (r: TrieMap<ProviderInfo>)
    ensures
        is_provider_map(declarations@, block_number, params, r@),
{
    let ids: Vec<DeclarationId> = declarations.keys();
    let mut providers: TrieMap<ProviderInfo> = TrieMap::new();
    let mut i: usize = 0;
    while i < ids.len()
        invariant
            0 <= i <= ids@.len(),
            ids@.to_set() == declarations@.dom(),
            forall|j: int|
                0 <= j < i && is_still_active(
                    declarations@[#[trigger] ids@[j]],
                    block_number,
                    params,
                ) ==> providers@.dom().contains(declarations@[ids@[j]].provider_id),
            forall|provider: ProviderId| #[trigger]
                providers@.dom().contains(provider) ==> is_provider(
                    declarations@,
                    block_number,
                    params,
                    provider,
                    providers@[provider],
                ),
        decreases ids@.len() - i,
    {
        let id: DeclarationId = ids[i];
        assert(ids@.to_set().contains(ids@[i as int]));
        let ghost before = providers@;
        if let Some(declaration) = declarations.get(&id) {
            let last: u128 = declaration.active as u128 + params.inactivity_period as u128;
            if last >= block_number as u128 {
                providers.insert_mut(
                    declaration.provider_id,
                    ProviderInfo {
                        zk_id: declaration.zk_id,
                        locators: declaration.locators.clone(),
                    },
                );
                assert(is_provider(
                    declarations@,
                    block_number,
                    params,
                    declaration.provider_id,
                    providers@[declaration.provider_id],
                ));
                assert forall|provider: ProviderId| #[trigger]
                    providers@.dom().contains(provider) implies is_provider(
                    declarations@,
                    block_number,
                    params,
                    provider,
                    providers@[provider],
                ) by {
                    if provider != declaration.provider_id {
                        assert(before.dom().contains(provider));
                    }
                }
            }
        }
        i += 1;
    }
    assert forall|id: DeclarationId| #[trigger]
        declarations@.dom().contains(id) && is_still_active(
            declarations@[id],
            block_number,
            params,
        ) implies providers@.dom().contains(declarations@[id].provider_id) by {
        assert(ids@.to_set().contains(id));
        let k = choose|k: int| 0 <= k < ids@.len() && ids@[k] == id;
        assert(ids@[k] == id);
    }
    providers
}

/// A declaration that is there at the first block of a session takes part in the session
/// after it.
pub proof fn declarations_take_part_after_a_session(
    state: ServiceState,
    block_number: BlockNumber,
    later: BlockNumber,
    params: ServiceParameters,
)
    requires
        state.can_move_on(params),
        block_number / params.session_duration == state.active.session_n + 1,
        later / params.session_duration == state.active.session_n + 2,
        state.forming.session_n == state.active.session_n + 1,
    ensures
        state.after_header(block_number, params).after_header(later, params).active.declarations
            == state.declarations,
        state.after_header(block_number, params).after_header(later, params).active.session_n
            == state.active.session_n + 2,
{
}

/// Sessions follow each other.
pub proof fn sessions_follow_each_other(
    state: ServiceState,
    block_number: BlockNumber,
    params: ServiceParameters,
)
    requires
        state.can_move_on(params),
        state.forming.session_n == state.active.session_n + 1,
    ensures
        state.after_header(block_number, params).forming.session_n == state.after_header(
            block_number,
            params,
        ).active.session_n + 1,
{
}

/// When sessions are counted by blocks, each header keeps them so.
pub proof fn sessions_keep_up_with_blocks(
    state: ServiceState,
    block_number: BlockNumber,
    params: ServiceParameters,
)
    requires
        state.can_move_on(params),
        block_number < u64::MAX,
        state.active.session_n == block_number / params.session_duration,
        state.forming.session_n == state.active.session_n + 1,
    ensures
        state.after_header((block_number + 1) as u64, params).active.session_n == (block_number
            + 1) / (params.session_duration as int),
{
    let d = params.session_duration as int;
    let b = block_number as int;
    vstd::arithmetic::div_mod::lemma_fundamental_div_mod(b, d);
    vstd::arithmetic::div_mod::lemma_mod_bound(b, d);
    let q = b / d;
    assert((b + 1) / d == q || (b + 1) / d == q + 1) by (nonlinear_arith)
        requires
            b == d * q + b % d,
            0 <= b % d < d,
            d > 0,
    ;
}

} // verus!
