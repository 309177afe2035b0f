//! The authentication service: registration, login and authentication over
//! the key registry, the challenge store, the confirmation broker and the
//! session issuer, each operation with explicit time and nonce.

use crate::challenge::challenge_result_view;
use crate::challenge::Challenge;
use crate::challenge::ChallengeStore;
use crate::challenge::ChallengeStoreView;
use crate::challenge::ChallengeView;
use crate::confirmation::BrokerView;
use crate::confirmation::ConfirmationBroker;
use crate::confirmation::ConfirmationRequest;
use crate::confirmation::ConfirmationStatus;
use crate::confirmation::PendingConfirmation;
use crate::confirmation::PendingConfirmationView;
use crate::error::AuthError;
use crate::registry::bind_result_view;
use crate::registry::device_views;
use crate::registry::DeviceKey;
use crate::registry::DeviceKeyView;
use crate::registry::KeyRegistry;
use crate::registry::RegistryView;
use crate::session::identifier_result_view;
use crate::session::session_result_view;
use crate::session::IssuerView;
use crate::session::Session;
use crate::session::SessionIssuer;
use crate::session::SessionView;
use crate::signature::is_well_formed_key;
use crate::signature::is_well_formed_signature;
use crate::signature::key_well_formed;
use crate::signature::signature_well_formed;
use vstd::prelude::*;

verus! {

/// How a registration ended.
#[derive(Debug)]
pub enum Registration {
    /// The key was bound at once: the account had no device.
    Bound(DeviceKey),
    /// The account has devices, and one of them must approve the new one.
    PendingConfirmation(PendingConfirmation),
}

/// What a [`Registration`] holds.
pub ghost enum RegistrationView {
    Bound(DeviceKeyView),
    PendingConfirmation(PendingConfirmationView),
}

impl View for Registration {
    type V = RegistrationView;

    open spec fn view(&self) -> RegistrationView {
        match self {
            Registration::Bound(device) => RegistrationView::Bound(device@),
            Registration::PendingConfirmation(pending) => RegistrationView::PendingConfirmation(
                pending@,
            ),
        }
    }
}

/// What registering answered, as a value.
pub open spec fn registration_result_view(
    result: Result<Registration, AuthError>,
) -> Result<RegistrationView, AuthError> {
    match result {
        Ok(registration) => Ok(registration@),
        Err(error) => Err(error),
    }
}

/// The service as a value.
pub ghost struct AuthView {
    pub registry: RegistryView,
    pub challenges: ChallengeStoreView,
    pub broker: BrokerView,
    pub issuer: IssuerView,
}

impl AuthView {
    /// Well-formedness: that of the registry, of the challenge store and of
    /// the broker.
    pub open spec fn wf(self) -> bool {
        &&& self.registry.wf()
        &&& self.challenges.wf()
        &&& self.broker.wf()
    }

    /// The service with the account `identifier` added.
    pub open spec fn provision(self, identifier: Seq<char>) -> AuthView {
        AuthView { registry: self.registry.provision(identifier), ..self }
    }

    /// What registering a device answers.
    ///
    /// A key that is not well formed is refused first. The account must
    /// exist. Its first device is bound at once; any later one gets a pending
    /// confirmation, unless its key is bound already.
    pub open spec fn register_outcome(
        self,
        identifier: Seq<char>,
        public_key: Seq<u8>,
        device_name: Seq<char>,
        now: u64,
    ) -> Result<RegistrationView, AuthError> {
        if !key_well_formed(public_key) {
            Err(AuthError::Malformed)
        } else if !self.registry.account_exists(identifier) {
            Err(AuthError::UnknownAccount)
        } else if !self.registry.is_bound(identifier) {
            Ok(
                RegistrationView::Bound(
                    DeviceKeyView {
                        identifier: identifier,
                        public_key: public_key,
                        device_name: device_name,
                        bound_at: now,
                    },
                ),
            )
        } else {
            match self.broker.request_outcome(
                self.registry,
                identifier,
                public_key,
                device_name,
                now,
            ) {
                Ok(request) => Ok(
                    RegistrationView::PendingConfirmation(
                        PendingConfirmationView {
                            request: request,
                            notify: self.registry.devices_of(identifier),
                        },
                    ),
                ),
                Err(error) => Err(error),
            }
        }
    }

    /// The service after registering a device: the registry gains the key
    /// where it is bound at once, the broker gains the request where one is
    /// made, and nothing else changes.
    pub open spec fn register(
        self,
        identifier: Seq<char>,
        public_key: Seq<u8>,
        device_name: Seq<char>,
        now: u64,
    ) -> AuthView {
        match self.register_outcome(identifier, public_key, device_name, now) {
            Ok(RegistrationView::Bound(device)) => AuthView {
                registry: self.registry.with_device(device),
                ..self
            },
            Ok(RegistrationView::PendingConfirmation(pending)) => AuthView {
                broker: BrokerView {
                    requests: self.broker.requests.push(pending.request),
                    ..self.broker
                },
                ..self
            },
            Err(_) => self,
        }
    }

    /// What a login answers: a challenge, for an account that exists and has
    /// a device.
    pub open spec fn login_outcome(
        self,
        identifier: Seq<char>,
        nonce: Seq<u8>,
        now: u64,
    ) -> Result<ChallengeView, AuthError> {
        if !self.registry.account_exists(identifier) {
            Err(AuthError::UnknownAccount)
        } else if !self.registry.is_bound(identifier) {
            Err(AuthError::UnboundAccount)
        } else {
            self.challenges.issue_outcome(self.registry, identifier, nonce, now)
        }
    }

    /// The service after a login: the challenge store holds the new
    /// challenge in place of any earlier one of the account.
    pub open spec fn login(self, identifier: Seq<char>, nonce: Seq<u8>, now: u64) -> AuthView {
        match self.login_outcome(identifier, nonce, now) {
            Ok(challenge) => AuthView {
                challenges: ChallengeStoreView {
                    active: self.challenges.active.insert(identifier, challenge),
                    ..self.challenges
                },
                ..self
            },
            Err(_) => self,
        }
    }

    /// What an authentication answers.
    ///
    /// A signature that is not well formed is refused first. The account's
    /// pending challenge is consumed: there must be one, and it must not have
    /// run out. The signature must be one over its nonce by a device of the
    /// account. Then a session is issued.
    pub open spec fn authenticate_outcome(
        self,
        identifier: Seq<char>,
        signature: Seq<u8>,
        now: u64,
    ) -> Result<SessionView, AuthError> {
        if !signature_well_formed(signature) {
            Err(AuthError::Malformed)
        } else {
            match self.challenges.pending(identifier) {
                None => Err(AuthError::NotFound),
                Some(challenge) => if now > challenge.expires_at {
                    Err(AuthError::Expired)
                } else if !self.registry.signed_by_device(identifier, challenge.nonce, signature) {
                    Err(AuthError::Unauthorized)
                } else {
                    self.issuer.issue(identifier, now)
                },
            }
        }
    }

    /// The service after an authentication: whenever a well-formed signature
    /// was handed in, the account has no pending challenge any more, whether
    /// or not the signature was accepted.
    pub open spec fn authenticate(
        self,
        identifier: Seq<char>,
        signature: Seq<u8>,
        now: u64,
    ) -> AuthView {
        if signature_well_formed(signature) {
            AuthView {
                challenges: ChallengeStoreView {
                    active: self.challenges.active.remove(identifier),
                    ..self.challenges
                },
                ..self
            }
        } else {
            self
        }
    }

    /// The service after a sweep at the moment `now`: the challenges that
    /// have run out are gone, and the requests that have run out are recorded
    /// as expired.
    pub open spec fn sweep(self, now: u64) -> AuthView {
        AuthView {
            challenges: self.challenges.purge(now),
            broker: self.broker.expire_overdue(now),
            ..self
        }
    }

    /// What an approval answers: a key or a proof that is not well formed
    /// is refused first; then the broker decides.
    pub open spec fn approve_outcome(
        self,
        request_id: u64,
        approver: Seq<u8>,
        proof: Seq<u8>,
        now: u64,
    ) -> Result<DeviceKeyView, AuthError> {
        if !key_well_formed(approver) || !signature_well_formed(proof) {
            Err(AuthError::Malformed)
        } else {
            self.broker.approve_outcome(self.registry, request_id, approver, proof, now)
        }
    }

    /// The service after an approval was tried.
    pub open spec fn approve(
        self,
        request_id: u64,
        approver: Seq<u8>,
        proof: Seq<u8>,
        now: u64,
    ) -> AuthView {
        if !key_well_formed(approver) || !signature_well_formed(proof) {
            self
        } else {
            AuthView {
                broker: self.broker.approve(self.registry, request_id, approver, proof, now),
                registry: self.broker.approve_registry(
                    self.registry,
                    request_id,
                    approver,
                    proof,
                    now,
                ),
                ..self
            }
        }
    }

    /// What a rejection answers: a key or a proof that is not well formed is
    /// refused first; then the broker decides.
    pub open spec fn reject_outcome(
        self,
        request_id: u64,
        approver: Seq<u8>,
        proof: Seq<u8>,
        now: u64,
    ) -> Result<(), AuthError> {
        if !key_well_formed(approver) || !signature_well_formed(proof) {
            Err(AuthError::Malformed)
        } else {
            self.broker.may_decide(self.registry, request_id, approver, proof, now)
        }
    }

    /// The service after a rejection was tried.
    pub open spec fn reject(
        self,
        request_id: u64,
        approver: Seq<u8>,
        proof: Seq<u8>,
        now: u64,
    ) -> AuthView {
        if !key_well_formed(approver) || !signature_well_formed(proof) {
            self
        } else {
            AuthView {
                broker: self.broker.reject(self.registry, request_id, approver, proof, now),
                ..self
            }
        }
    }
}

/// The authentication service. One value of it holds all that the
/// operations share.
pub struct AuthService {
    registry: KeyRegistry,
    challenges: ChallengeStore,
    broker: ConfirmationBroker,
    issuer: SessionIssuer,
}

impl View for AuthService {
    type V = AuthView;

    closed spec fn view(&self) -> AuthView {
        AuthView {
            registry: self.registry@,
            challenges: self.challenges@,
            broker: self.broker@,
            issuer: self.issuer@,
        }
    }
}

impl AuthService {
    /// Well-formedness: that of each part.
    pub closed spec fn wf(&self) -> bool {
        &&& self.registry.wf()
        &&& self.challenges.wf()
        &&& self.broker.wf()
        &&& self.issuer.wf()
    }

    /// A well-formed service stands for a well-formed value.
    pub proof fn view_is_wf(&self)
        requires
            self.wf(),
        ensures
            self@.wf(),
    {
        self.challenges.view_is_wf();
    }

    /// A service without accounts that signs its sessions with the key that
    /// `signing_seed` stands for. Challenges can be answered for
    /// `challenge_ttl` seconds, confirmations decided for
    /// `confirmation_timeout` seconds, and sessions hold for `session_ttl`
    /// seconds.
    pub fn new(
        signing_seed: Vec<u8>,
        challenge_ttl: u64,
        confirmation_timeout: u64,
        session_ttl: u64,
    ) -> (service: AuthService)
        ensures
            service.wf(),
            service@.registry == RegistryView::empty(),
            service@.challenges == ChallengeStoreView::empty(challenge_ttl),
            service@.broker == BrokerView::empty(confirmation_timeout),
            service@.issuer == (IssuerView { seed: signing_seed@, ttl: session_ttl }),
    {
        AuthService {
            registry: KeyRegistry::new(),
            challenges: ChallengeStore::new(challenge_ttl),
            broker: ConfirmationBroker::new(confirmation_timeout),
            issuer: SessionIssuer::new(signing_seed, session_ttl),
        }
    }

    /// A service over a registry that exists already, as after a restart:
    /// the accounts and their keys are the registry's, and no challenge and no
    /// request is pending.
    pub fn with_registry(
        registry: KeyRegistry,
        signing_seed: Vec<u8>,
        challenge_ttl: u64,
        confirmation_timeout: u64,
        session_ttl: u64,
    ) -> (service: AuthService)
        requires
            registry.wf(),
        ensures
            service.wf(),
            service@.registry == registry@,
            service@.challenges == ChallengeStoreView::empty(challenge_ttl),
            service@.broker == BrokerView::empty(confirmation_timeout),
            service@.issuer == (IssuerView { seed: signing_seed@, ttl: session_ttl }),
    {
        AuthService {
            registry: registry,
            challenges: ChallengeStore::new(challenge_ttl),
            broker: ConfirmationBroker::new(confirmation_timeout),
            issuer: SessionIssuer::new(signing_seed, session_ttl),
        }
    }

    /// Adds the account `identifier`; says whether it was new.
    pub fn provision_account(&mut self, identifier: &str) -> (created: bool)
        requires
            old(self).wf(),
        ensures
            final(self).wf(),
            final(self)@ == old(self)@.provision(identifier@),
            created == !old(self)@.registry.account_exists(identifier@),
    {
        self.registry.create_account(identifier)
    }

    /// Whether an account named `identifier` exists.
    pub fn account_exists(&self, identifier: &str) -> (found: bool)
        ensures
            found == self@.registry.account_exists(identifier@),
    {
        self.registry.account_exists(identifier)
    }

    /// Whether at least one device is bound to `identifier`.
    pub fn is_bound(&self, identifier: &str) -> (bound: bool)
        ensures
            bound == self@.registry.is_bound(identifier@),
    {
        self.registry.is_bound(identifier)
    }

    /// The devices bound to `identifier`, oldest binding first.
    pub fn list_devices(&self, identifier: &str) -> (devices: Vec<DeviceKey>)
        ensures
            device_views(devices@) == self@.registry.devices_of(identifier@),
    {
        self.registry.list_devices(identifier)
    }

    /// Registers the device that holds `public_key` with the account
    /// `identifier`, as of the moment `now`.
    ///
    /// Fails with `Malformed` where the key is not a well-formed key, with
    /// `UnknownAccount` where there is no such account, and with
    /// `AlreadyBound` where the account has devices and this key is one of
    /// theirs. The first device of an account is bound at once. For any later
    /// one a confirmation request is stored and returned with the devices that
    /// are to be told of it; the key is not bound.
    pub fn register(
        &mut self,
        identifier: &str,
        public_key: &[u8],
        device_name: &str,
        now: u64,
    ) -> (result: Result<Registration, AuthError>)
        requires
            old(self).wf(),
        ensures
            final(self).wf(),
            final(self)@ == old(self)@.register(identifier@, public_key@, device_name@, now),
            registration_result_view(result) == old(self)@.register_outcome(
                identifier@,
                public_key@,
                device_name@,
                now,
            ),
    {
        if !is_well_formed_key(public_key) {
            return Err(AuthError::Malformed);
        }
        if !self.registry.account_exists(identifier) {
            return Err(AuthError::UnknownAccount);
        }
        if !self.registry.is_bound(identifier) {
            match self.registry.bind_device(identifier, public_key, device_name, now) {
                Ok(device) => Ok(Registration::Bound(device)),
                Err(error) => Err(error),
            }
        } else {
            match self.broker.request(&self.registry, identifier, public_key, device_name, now) {
                Ok(pending) => Ok(Registration::PendingConfirmation(pending)),
                Err(error) => Err(error),
            }
        }
    }

    /// Issues a challenge to the account `identifier`, with `nonce` as its
    /// nonce, as of the moment `now`.
    ///
    /// Fails with `UnknownAccount` where there is no such account and with
    /// `UnboundAccount` where it has no device. Otherwise the challenge is
    /// stored in place of any earlier one of the account, and returned.
    pub fn login(
        &mut self,
        identifier: &str,
        nonce: [u8; 32],
        now: u64,
    ) -> (result: Result<Challenge, AuthError>)
        requires
            old(self).wf(),
        ensures
            final(self).wf(),
            final(self)@ == old(self)@.login(identifier@, nonce@, now),
            challenge_result_view(result) == old(self)@.login_outcome(identifier@, nonce@, now),
    {
        if !self.registry.account_exists(identifier) {
            return Err(AuthError::UnknownAccount);
        }
        if !self.registry.is_bound(identifier) {
            return Err(AuthError::UnboundAccount);
        }
        self.challenges.issue(&self.registry, identifier, nonce, now)
    }

    /// Exchanges a signature over the pending challenge of `identifier` for
    /// a session, as of the moment `now`.
    ///
    /// Fails with `Malformed` where `signature` has not the form of a
    /// signature; nothing is touched then. Otherwise the pending challenge is
    /// consumed, in this step and whatever follows: with `NotFound` where
    /// there is none, with `Expired` where it has run out, with `Unauthorized`
    /// where no device of the account made the signature over its nonce, and
    /// with `InternalError` where no session can be signed.
    pub fn authenticate(
        &mut self,
        identifier: &str,
        signature: &[u8],
        now: u64,
    ) -> (result: Result<Session, AuthError>)
        requires
            old(self).wf(),
        ensures
            final(self).wf(),
            final(self)@ == old(self)@.authenticate(identifier@, signature@, now),
            session_result_view(result) == old(self)@.authenticate_outcome(
                identifier@,
                signature@,
                now,
            ),
    {
        if !is_well_formed_signature(signature) {
            return Err(AuthError::Malformed);
        }
        proof {
            old(self).challenges.view_is_wf();
        }
        let pending = self.challenges.pending(identifier);
        match pending {
            None => {
                assert(self@.challenges.active =~= self@.challenges.active.remove(identifier@));
                Err(AuthError::NotFound)
            },
            Some(challenge) => {
                match self.challenges.consume(identifier, challenge.nonce.as_slice(), now) {
                    Err(error) => Err(error),
                    Ok(consumed) => {
                        if !self.registry.signed_by_device(
                            identifier,
                            consumed.nonce.as_slice(),
                            signature,
                        ) {
                            return Err(AuthError::Unauthorized);
                        }
                        self.issuer.issue(identifier, now)
                    },
                }
            },
        }
    }

    /// Approves a confirmation request in the name of the device that holds
    /// `approver_key`, as of the moment `now`.
    ///
    /// Fails with `Malformed` where the key or the proof is not well formed;
    /// nothing is touched then. Otherwise the broker decides, as
    /// [`ConfirmationBroker::approve`] says.
    pub fn approve(
        &mut self,
        request_id: u64,
        approver_key: &[u8],
        proof: &[u8],
        now: u64,
    ) -> (result: Result<DeviceKey, AuthError>)
        requires
            old(self).wf(),
        ensures
            final(self).wf(),
            final(self)@ == old(self)@.approve(request_id, approver_key@, proof@, now),
            bind_result_view(result) == old(self)@.approve_outcome(
                request_id,
                approver_key@,
                proof@,
                now,
            ),
    {
        if !is_well_formed_key(approver_key) || !is_well_formed_signature(proof) {
            return Err(AuthError::Malformed);
        }
        self.broker.approve(&mut self.registry, request_id, approver_key, proof, now)
    }

    /// Rejects a confirmation request in the name of the device that holds
    /// `approver_key`, as of the moment `now`.
    ///
    /// Fails with `Malformed` where the key or the proof is not well formed;
    /// nothing is touched then. Otherwise the broker decides, as
    /// [`ConfirmationBroker::reject`] says.
    pub fn reject(
        &mut self,
        request_id: u64,
        approver_key: &[u8],
        proof: &[u8],
        now: u64,
    ) -> (result: Result<(), AuthError>)
        requires
            old(self).wf(),
        ensures
            final(self).wf(),
            final(self)@ == old(self)@.reject(request_id, approver_key@, proof@, now),
            result == old(self)@.reject_outcome(request_id, approver_key@, proof@, now),
    {
        if !is_well_formed_key(approver_key) || !is_well_formed_signature(proof) {
            return Err(AuthError::Malformed);
        }
        self.broker.reject(&self.registry, request_id, approver_key, proof, now)
    }

    /// Clears away what has run out at the moment `now`: expired challenges
    /// are taken out, and overdue requests are recorded as expired. To be
    /// called now and then, so that what nobody answers does not pile up.
    pub fn sweep(&mut self, now: u64)
        requires
            old(self).wf(),
        ensures
            final(self).wf(),
            final(self)@ == old(self)@.sweep(now),
    {
        self.challenges.purge_expired(now);
        self.broker.expire_overdue(now);
    }

    /// The stored confirmation request with this id, if there is one, as it
    /// was last recorded.
    pub fn confirmation_request(&self, request_id: u64) -> (found: Option<ConfirmationRequest>)
        ensures
            found is Some == self@.broker.knows(request_id),
            found is Some ==> found->0@ == self@.broker.requests[request_id as int],
    {
        self.broker.get(request_id)
    }

    /// Where a confirmation request stands at the moment `now`. Fails with
    /// `NotFound` where no request has this id.
    pub fn confirmation_status(
        &self,
        request_id: u64,
        now: u64,
    ) -> (result: Result<ConfirmationStatus, AuthError>)
        ensures
            result == self@.broker.status(request_id, now),
    {
        self.broker.status(request_id, now)
    }

    /// Checks a session at the moment `now` and returns the identifier that
    /// it was issued for; see [`SessionIssuer::verify`].
    pub fn verify_session(&self, session: &Session, now: u64) -> (result: Result<String, AuthError>)
        requires
            self.wf(),
        ensures
            identifier_result_view(result) == self@.issuer.verify(session@, now),
    {
        self.issuer.verify(session, now)
    }
}

} // verus!
