//! The entry points: what a device sends, decoded from its transport form
//! and handed to the authentication service at the present moment.
//!
//! Each entry point comes twice: once with the moment (and, for a login, the
//! nonce) given, which says exactly what happens, and once reading the clock
//! and drawing the nonce itself.

use crate::bytes::copy_text;
use crate::challenge::NONCE_LENGTH;
use crate::clock::now;
use crate::codec::base64_text;
use crate::codec::decode;
use crate::codec::decoded;
use crate::codec::encode_nonce;
use crate::confirmation::ConfirmationStatus;
use crate::entropy::random_nonce;
use crate::error::AuthError;
use crate::registry::DeviceKey;
use crate::registry::DeviceKeyView;
use crate::service::registration_result_view;
use crate::service::AuthService;
use crate::service::AuthView;
use crate::service::Registration;
use crate::service::RegistrationView;
use crate::session::session_result_view;
use crate::session::Session;
use crate::session::SessionView;
use vstd::prelude::*;

verus! {

/// What a device sends to be registered. The key is in its transport form,
/// base64.
#[derive(Debug)]
pub struct RegisterRequest {
    pub identifier: String,
    pub public_key: String,
    pub device_name: String,
}

/// What a [`RegisterRequest`] holds.
pub ghost struct RegisterRequestView {
    pub identifier: Seq<char>,
    pub public_key: Seq<char>,
    pub device_name: Seq<char>,
}

impl View for RegisterRequest {
    type V = RegisterRequestView;

    open spec fn view(&self) -> RegisterRequestView {
        RegisterRequestView {
            identifier: self.identifier@,
            public_key: self.public_key@,
            device_name: self.device_name@,
        }
    }
}

impl Clone for RegisterRequest {
    fn clone(&self) -> (copy: RegisterRequest)
        ensures
            copy@ == self@,
    {
        RegisterRequest {
            identifier: copy_text(self.identifier.as_str()),
            public_key: copy_text(self.public_key.as_str()),
            device_name: copy_text(self.device_name.as_str()),
        }
    }
}

/// What a device sends to ask for a challenge.
#[derive(Debug)]
pub struct LoginRequest {
    pub identifier: String,
}

/// What a [`LoginRequest`] holds.
pub ghost struct LoginRequestView {
    pub identifier: Seq<char>,
}

impl View for LoginRequest {
    type V = LoginRequestView;

    open spec fn view(&self) -> LoginRequestView {
        LoginRequestView { identifier: self.identifier@ }
    }
}

impl Clone for LoginRequest {
    fn clone(&self) -> (copy: LoginRequest)
        ensures
            copy@ == self@,
    {
        LoginRequest { identifier: copy_text(self.identifier.as_str()) }
    }
}

/// What a device sends to answer its challenge. The signature over the nonce
/// is in its transport form, base64.
#[derive(Debug)]
pub struct AuthenticateRequest {
    pub identifier: String,
    pub signed_challenge: String,
}

/// What an [`AuthenticateRequest`] holds.
pub ghost struct AuthenticateRequestView {
    pub identifier: Seq<char>,
    pub signed_challenge: Seq<char>,
}

impl View for AuthenticateRequest {
    type V = AuthenticateRequestView;

    open spec fn view(&self) -> AuthenticateRequestView {
        AuthenticateRequestView {
            identifier: self.identifier@,
            signed_challenge: self.signed_challenge@,
        }
    }
}

impl Clone for AuthenticateRequest {
    fn clone(&self) -> (copy: AuthenticateRequest)
        ensures
            copy@ == self@,
    {
        AuthenticateRequest {
            identifier: copy_text(self.identifier.as_str()),
            signed_challenge: copy_text(self.signed_challenge.as_str()),
        }
    }
}

/// What a bound device decides of a confirmation request.
#[derive(Clone, Copy, Debug, PartialEq, Eq, Structural)]
pub enum Decision {
    Approve,
    Reject,
}

/// What a bound device sends to decide a confirmation request. Its key and
/// its proof, a signature over the request's id, are in their transport form,
/// base64.
#[derive(Debug)]
pub struct ConfirmRequest {
    pub approver_device_key: String,
    pub proof: String,
    pub decision: Decision,
}

/// What a [`ConfirmRequest`] holds.
pub ghost struct ConfirmRequestView {
    pub approver_device_key: Seq<char>,
    pub proof: Seq<char>,
    pub decision: Decision,
}

impl View for ConfirmRequest {
    type V = ConfirmRequestView;

    open spec fn view(&self) -> ConfirmRequestView {
        ConfirmRequestView {
            approver_device_key: self.approver_device_key@,
            proof: self.proof@,
            decision: self.decision,
        }
    }
}

impl Clone for ConfirmRequest {
    fn clone(&self) -> (copy: ConfirmRequest)
        ensures
            copy@ == self@,
    {
        ConfirmRequest {
            approver_device_key: copy_text(self.approver_device_key.as_str()),
            proof: copy_text(self.proof.as_str()),
            decision: self.decision,
        }
    }
}

/// Where a confirmation request stands after a device's decision, and the
/// key that the decision has bound, if it has bound one.
#[derive(Debug)]
pub struct Confirmation {
    pub status: ConfirmationStatus,
    pub device: Option<DeviceKey>,
}

/// What a [`Confirmation`] holds.
pub ghost struct ConfirmationView {
    pub status: ConfirmationStatus,
    pub device: Option<DeviceKeyView>,
}

impl View for Confirmation {
    type V = ConfirmationView;

    open spec fn view(&self) -> ConfirmationView {
        ConfirmationView {
            status: self.status,
            device: match self.device {
                Some(device) => Some(device@),
                None => None,
            },
        }
    }
}

/// What a decision answered, as a value.
pub open spec fn confirmation_result_view(
    result: Result<Confirmation, AuthError>,
) -> Result<ConfirmationView, AuthError> {
    match result {
        Ok(confirmation) => Ok(confirmation@),
        Err(error) => Err(error),
    }
}

/// What a login answered, as a value.
pub open spec fn text_result_view(
    result: Result<String, AuthError>,
) -> Result<Seq<char>, AuthError> {
    match result {
        Ok(text) => Ok(text@),
        Err(error) => Err(error),
    }
}

/// What a registration request answers at the moment `now`: a key that does
/// not decode is malformed; any other is registered.
pub open spec fn register_outcome(
    state: AuthView,
    request: RegisterRequestView,
    now: u64,
) -> Result<RegistrationView, AuthError> {
    match decoded(request.public_key) {
        Ok(key) => state.register_outcome(request.identifier, key, request.device_name, now),
        Err(error) => Err(error),
    }
}

/// The service after a registration request.
pub open spec fn register_step(
    state: AuthView,
    request: RegisterRequestView,
    now: u64,
) -> AuthView {
    match decoded(request.public_key) {
        Ok(key) => state.register(request.identifier, key, request.device_name, now),
        Err(_) => state,
    }
}

/// What a login request answers at the moment `now`, with `nonce` drawn for
/// it: the transport form of the nonce.
pub open spec fn login_outcome(
    state: AuthView,
    request: LoginRequestView,
    nonce: Seq<u8>,
    now: u64,
) -> Result<Seq<char>, AuthError> {
    match state.login_outcome(request.identifier, nonce, now) {
        Ok(challenge) => Ok(base64_text(challenge.nonce)),
        Err(error) => Err(error),
    }
}

/// The service after a login request.
pub open spec fn login_step(
    state: AuthView,
    request: LoginRequestView,
    nonce: Seq<u8>,
    now: u64,
) -> AuthView {
    state.login(request.identifier, nonce, now)
}

/// What an authentication request answers at the moment `now`: a signature
/// that does not decode is malformed; any other is checked.
pub open spec fn authenticate_outcome(
    state: AuthView,
    request: AuthenticateRequestView,
    now: u64,
) -> Result<SessionView, AuthError> {
    match decoded(request.signed_challenge) {
        Ok(signature) => state.authenticate_outcome(request.identifier, signature, now),
        Err(error) => Err(error),
    }
}

/// The service after an authentication request.
pub open spec fn authenticate_step(
    state: AuthView,
    request: AuthenticateRequestView,
    now: u64,
) -> AuthView {
    match decoded(request.signed_challenge) {
        Ok(signature) => state.authenticate(request.identifier, signature, now),
        Err(_) => state,
    }
}

/// What a device's decision answers at the moment `now`: where the request
/// stands afterwards, and with an approval the record of the candidate's key.
/// A key or a proof that does not decode is malformed. A request that was
/// decided before is no failure to the device: it learns how it was decided,
/// and nothing is bound for it.
pub open spec fn confirm_outcome(
    state: AuthView,
    request_id: u64,
    request: ConfirmRequestView,
    now: u64,
) -> Result<ConfirmationView, AuthError> {
    match (decoded(request.approver_device_key), decoded(request.proof)) {
        (Ok(approver), Ok(proof)) => {
            let decided: Result<ConfirmationView, AuthError> = match request.decision {
                Decision::Approve => match state.approve_outcome(request_id, approver, proof, now) {
                    Ok(device) => Ok(
                        ConfirmationView {
                            status: ConfirmationStatus::Approved,
                            device: Some(device),
                        },
                    ),
                    Err(error) => Err(error),
                },
                Decision::Reject => match state.reject_outcome(request_id, approver, proof, now) {
                    Ok(_) => Ok(
                        ConfirmationView { status: ConfirmationStatus::Rejected, device: None },
                    ),
                    Err(error) => Err(error),
                },
            };
            if decided == Err::<ConfirmationView, AuthError>(AuthError::AlreadyTerminal) {
                Ok(
                    ConfirmationView {
                        status: state.broker.requests[request_id as int].status,
                        device: None,
                    },
                )
            } else {
                decided
            }
        },
        _ => Err(AuthError::Malformed),
    }
}

/// The service after a device's decision.
pub open spec fn confirm_step(
    state: AuthView,
    request_id: u64,
    request: ConfirmRequestView,
    now: u64,
) -> AuthView {
    match (decoded(request.approver_device_key), decoded(request.proof)) {
        (Ok(approver), Ok(proof)) => match request.decision {
            Decision::Approve => state.approve(request_id, approver, proof, now),
            Decision::Reject => state.reject(request_id, approver, proof, now),
        },
        _ => state,
    }
}

/// Handles a registration request as of the moment `now`.
///
/// Fails with `Malformed` where the key is not base64; nothing is touched
/// then. Otherwise the decoded key is registered, as
/// [`AuthService::register`] says.
pub fn register_at(
    request: &RegisterRequest,
    service: &mut AuthService,
    now: u64,
) -> (result: Result<Registration, AuthError>)
    requires
        old(service).wf(),
    ensures
        final(service).wf(),
        final(service)@ == register_step(old(service)@, request@, now),
        registration_result_view(result) == register_outcome(old(service)@, request@, now),
{
    match decode(request.public_key.as_str()) {
        Ok(key) => service.register(
            request.identifier.as_str(),
            key.as_slice(),
            request.device_name.as_str(),
            now,
        ),
        Err(error) => Err(error),
    }
}

/// Handles a registration request at the present moment, read from the
/// system clock: what [`register_at`] does at that moment.
pub fn register(
    request: &RegisterRequest,
    service: &mut AuthService,
) -> (result: Result<Registration, AuthError>)
    requires
        old(service).wf(),
    ensures
        final(service).wf(),
        exists|now: u64|
            final(service)@ == #[trigger] register_step(old(service)@, request@, now)
                && registration_result_view(result) == register_outcome(
                old(service)@,
                request@,
                now,
            ),
{
    let moment = now();
    register_at(request, service, moment)
}

/// Handles a login request as of the moment `now`, with `nonce` as the
/// nonce of the challenge, and returns the nonce in its transport form.
///
/// Fails as [`AuthService::login`] does.
pub fn login_with(
    request: &LoginRequest,
    service: &mut AuthService,
    nonce: [u8; 32],
    now: u64,
) -> (result: Result<String, AuthError>)
    requires
        old(service).wf(),
    ensures
        final(service).wf(),
        final(service)@ == login_step(old(service)@, request@, nonce@, now),
        text_result_view(result) == login_outcome(old(service)@, request@, nonce@, now),
{
    match service.login(request.identifier.as_str(), nonce, now) {
        Ok(challenge) => Ok(encode_nonce(&challenge.nonce)),
        Err(error) => Err(error),
    }
}

/// Handles a login request at the present moment, with a nonce drawn from
/// the system's generator: what [`login_with`] does with that nonce at that
/// moment.
pub fn login(
    request: &LoginRequest,
    service: &mut AuthService,
) -> (result: Result<String, AuthError>)
    requires
        old(service).wf(),
    ensures
        final(service).wf(),
        exists|nonce: Seq<u8>, now: u64|
            nonce.len() == NONCE_LENGTH && final(service)@ == #[trigger] login_step(
                old(service)@,
                request@,
                nonce,
                now,
            ) && text_result_view(result) == login_outcome(old(service)@, request@, nonce, now),
{
    let nonce = random_nonce();
    let moment = now();
    login_with(request, service, nonce, moment)
}

/// Handles an authentication request as of the moment `now`.
///
/// Fails with `Malformed` where the signature is not base64; nothing is
/// touched then. Otherwise the decoded signature is checked, as
/// [`AuthService::authenticate`] says.
pub fn authenticate_at(
    request: &AuthenticateRequest,
    service: &mut AuthService,
    now: u64,
) -> (result: Result<Session, AuthError>)
    requires
        old(service).wf(),
    ensures
        final(service).wf(),
        final(service)@ == authenticate_step(old(service)@, request@, now),
        session_result_view(result) == authenticate_outcome(old(service)@, request@, now),
{
    match decode(request.signed_challenge.as_str()) {
        Ok(signature) => service.authenticate(
            request.identifier.as_str(),
            signature.as_slice(),
            now,
        ),
        Err(error) => Err(error),
    }
}

/// Handles an authentication request at the present moment, read from the
/// system clock: what [`authenticate_at`] does at that moment.
pub fn authenticate(
    request: &AuthenticateRequest,
    service: &mut AuthService,
) -> (result: Result<Session, AuthError>)
    requires
        old(service).wf(),
    ensures
        final(service).wf(),
        exists|now: u64|
            final(service)@ == #[trigger] authenticate_step(old(service)@, request@, now)
                && session_result_view(result) == authenticate_outcome(
                old(service)@,
                request@,
                now,
            ),
{
    let moment = now();
    authenticate_at(request, service, moment)
}

/// Handles the decision of a bound device on a confirmation request, as of
/// the moment `now`, and returns where the request stands afterwards.
///
/// Fails with `Malformed` where the key or the proof is not base64 or not
/// well formed; nothing is touched then. Fails with `NotFound`, `Expired`
/// and `UnauthorizedApprover` as [`ConfirmationBroker::approve`] does. A
/// request that was approved or rejected before is no failure: the state in
/// which it stands is returned. An approval that succeeds returns the record
/// of the candidate's key as well.
pub fn confirm_at(
    request_id: u64,
    request: &ConfirmRequest,
    service: &mut AuthService,
    now: u64,
) -> (result: Result<Confirmation, AuthError>)
    requires
        old(service).wf(),
    ensures
        final(service).wf(),
        final(service)@ == confirm_step(old(service)@, request_id, request@, now),
        confirmation_result_view(result) == confirm_outcome(
            old(service)@,
            request_id,
            request@,
            now,
        ),
{
    let approver = match decode(request.approver_device_key.as_str()) {
        Ok(bytes) => bytes,
        Err(_) => {
            return Err(AuthError::Malformed);
        },
    };
    let proof = match decode(request.proof.as_str()) {
        Ok(bytes) => bytes,
        Err(_) => {
            return Err(AuthError::Malformed);
        },
    };
    let decided: Result<Confirmation, AuthError> = match request.decision {
        Decision::Approve => match service.approve(
            request_id,
            approver.as_slice(),
            proof.as_slice(),
            now,
        ) {
            Ok(device) => Ok(
                Confirmation { status: ConfirmationStatus::Approved, device: Some(device) },
            ),
            Err(error) => Err(error),
        },
        Decision::Reject => match service.reject(
            request_id,
            approver.as_slice(),
            proof.as_slice(),
            now,
        ) {
            Ok(_) => Ok(Confirmation { status: ConfirmationStatus::Rejected, device: None }),
            Err(error) => Err(error),
        },
    };
    match decided {
        Err(AuthError::AlreadyTerminal) => {
            match service.confirmation_request(request_id) {
                Some(stored) => Ok(Confirmation { status: stored.status, device: None }),
                None => Err(AuthError::NotFound),
            }
        },
        other => other,
    }
}

/// Handles the decision of a bound device at the present moment, read from
/// the system clock: what [`confirm_at`] does at that moment.
pub fn confirm(
    request_id: u64,
    request: &ConfirmRequest,
    service: &mut AuthService,
) -> (result: Result<Confirmation, AuthError>)
    requires
        old(service).wf(),
    ensures
        final(service).wf(),
        exists|now: u64|
            final(service)@ == #[trigger] confirm_step(old(service)@, request_id, request@, now)
                && confirmation_result_view(result) == confirm_outcome(
                old(service)@,
                request_id,
                request@,
                now,
            ),
{
    let moment = now();
    confirm_at(request_id, request, service, moment)
}

} // verus!
