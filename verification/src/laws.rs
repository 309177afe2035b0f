//! What holds of the service whatever is asked of it, and in whatever order.
//!
//! Every operation of the service is one step from a state to the next.
//! Calls that arrive together still happen one after the other, each on the
//! state that the one before it left; so what is proved here of every step,
//! and of every two steps in a row, holds of every interleaving.

use crate::service::AuthView;
use crate::service::RegistrationView;
use crate::challenge::NONCE_LENGTH;
use crate::confirmation::BrokerView;
use crate::confirmation::ConfirmationStatus;
use crate::error::AuthError;
use crate::registry::slot;
use crate::registry::slot_divides;
use crate::registry::with_device_keeps_wf;
use crate::registry::DeviceKeyView;
use crate::registry::RegistryView;
use crate::session::SessionView;
use crate::signature::key_well_formed;
use crate::signature::signature_well_formed;
use vstd::prelude::*;

verus! {

/// One call of the service, with all that it is handed.
pub ghost enum Operation {
    Provision { identifier: Seq<char> },
    Register { identifier: Seq<char>, public_key: Seq<u8>, device_name: Seq<char>, now: u64 },
    Login { identifier: Seq<char>, nonce: Seq<u8>, now: u64 },
    Authenticate { identifier: Seq<char>, signature: Seq<u8>, now: u64 },
    Approve { request_id: u64, approver: Seq<u8>, proof: Seq<u8>, now: u64 },
    Reject { request_id: u64, approver: Seq<u8>, proof: Seq<u8>, now: u64 },
    Sweep { now: u64 },
}

impl Operation {
    /// What the types of the service's functions ask of their arguments: a
    /// nonce has its full length.
    pub open spec fn well_typed(self) -> bool {
        match self {
            Operation::Login { nonce, .. } => nonce.len() == NONCE_LENGTH,
            _ => true,
        }
    }
}

/// The state that an operation leaves.
pub open spec fn step(state: AuthView, operation: Operation) -> AuthView {
    match operation {
        Operation::Provision { identifier } => state.provision(identifier),
        Operation::Register { identifier, public_key, device_name, now } => state.register(
            identifier,
            public_key,
            device_name,
            now,
        ),
        Operation::Login { identifier, nonce, now } => state.login(identifier, nonce, now),
        Operation::Authenticate { identifier, signature, now } => state.authenticate(
            identifier,
            signature,
            now,
        ),
        Operation::Approve { request_id, approver, proof, now } => state.approve(
            request_id,
            approver,
            proof,
            now,
        ),
        Operation::Reject { request_id, approver, proof, now } => state.reject(
            request_id,
            approver,
            proof,
            now,
        ),
        Operation::Sweep { now } => state.sweep(now),
    }
}

/// A key is bound after a device was entered exactly if it was bound before
/// or is the key of that device.
pub proof fn keys_after_binding(
    registry: RegistryView,
    device: DeviceKeyView,
    identifier: Seq<char>,
    key: Seq<u8>,
)
    requires
        registry.wf(),
    ensures
        registry.with_device(device).has_key(identifier, key) <==> registry.has_key(identifier, key)
            || (device.identifier == identifier && device.public_key == key),
{
    let before = registry.devices;
    let p = slot(before, device.bound_at);
    slot_divides(before, device.bound_at);
    let after = registry.with_device(device).devices;
    assert(after.len() == before.len() + 1);
    if registry.with_device(device).has_key(identifier, key) {
        let i = choose|i: int|
            0 <= i < after.len() && (#[trigger] after[i]).identifier == identifier
                && after[i].public_key == key;
        if i < p {
            assert(after[i] == before[i]);
        } else if i > p {
            assert(after[i] == before[i - 1]);
        } else {
            assert(after[i] == device);
        }
    }
    if registry.has_key(identifier, key) {
        let i = choose|i: int|
            0 <= i < before.len() && (#[trigger] before[i]).identifier == identifier
                && before[i].public_key == key;
        if i < p {
            assert(after[i] == before[i]);
        } else {
            assert(after[i + 1] == before[i]);
        }
    }
    if device.identifier == identifier && device.public_key == key {
        assert(after[p] == device);
    }
}

/// Every operation leaves a well-formed service well formed: each bound key
/// belongs to an existing account, no account holds a key twice, each account
/// has at most one pending challenge, and each request stands under its id.
pub proof fn every_step_keeps_the_service_well_formed(state: AuthView, operation: Operation)
    requires
        state.wf(),
        operation.well_typed(),
    ensures
        step(state, operation).wf(),
{
    match operation {
        Operation::Provision { identifier } => {
            crate::registry::provision_keeps_wf(state.registry, identifier);
        },
        Operation::Register { identifier, public_key, device_name, now } => {
            match state.register_outcome(identifier, public_key, device_name, now) {
                Ok(RegistrationView::Bound(device)) => {
                    with_device_keeps_wf(state.registry, device);
                },
                Ok(RegistrationView::PendingConfirmation(pending)) => {
                    crate::confirmation::request_keeps_wf(
                        state.broker,
                        state.registry,
                        identifier,
                        public_key,
                        device_name,
                        now,
                    );
                },
                Err(_) => {},
            }
        },
        Operation::Login { identifier, nonce, now } => {},
        Operation::Authenticate { identifier, signature, now } => {},
        Operation::Approve { request_id, approver, proof, now } => {
            if key_well_formed(approver) && signature_well_formed(proof) {
                crate::confirmation::decision_keeps_wf(
                    state.broker,
                    state.registry,
                    request_id,
                    approver,
                    proof,
                    now,
                    ConfirmationStatus::Approved,
                );
                if state.broker.may_decide(state.registry, request_id, approver, proof, now) is Ok {
                    let request = state.broker.requests[request_id as int];
                    if !state.registry.has_key(request.identifier, request.candidate_public_key) {
                        // The approver is bound to the account, so the account exists.
                        let i = choose|i: int|
                            0 <= i < state.registry.devices.len() && (
                            #[trigger] state.registry.devices[i]).identifier == request.identifier
                                && state.registry.devices[i].public_key == approver;
                        assert(state.registry.account_exists(state.registry.devices[i].identifier));
                        with_device_keeps_wf(
                            state.registry,
                            DeviceKeyView {
                                identifier: request.identifier,
                                public_key: request.candidate_public_key,
                                device_name: request.candidate_device_name,
                                bound_at: now,
                            },
                        );
                    }
                }
            }
        },
        Operation::Reject { request_id, approver, proof, now } => {
            if key_well_formed(approver) && signature_well_formed(proof) {
                crate::confirmation::decision_keeps_wf(
                    state.broker,
                    state.registry,
                    request_id,
                    approver,
                    proof,
                    now,
                    ConfirmationStatus::Rejected,
                );
            }
        },
        Operation::Sweep { now } => {
            crate::confirmation::expiring_keeps_wf(state.broker, now);
        },
    }
}

/// The first device of an account is bound by the registration itself: no
/// confirmation is asked for, and the key is bound when the call returns.
pub proof fn first_device_is_bound_at_once(
    state: AuthView,
    identifier: Seq<char>,
    public_key: Seq<u8>,
    device_name: Seq<char>,
    now: u64,
)
    requires
        state.wf(),
        key_well_formed(public_key),
        state.registry.account_exists(identifier),
        !state.registry.is_bound(identifier),
    ensures
        state.register_outcome(identifier, public_key, device_name, now) == Ok::<
            RegistrationView,
            AuthError,
        >(
            RegistrationView::Bound(
                DeviceKeyView {
                    identifier: identifier,
                    public_key: public_key,
                    device_name: device_name,
                    bound_at: now,
                },
            ),
        ),
        state.register(identifier, public_key, device_name, now).registry.has_key(
            identifier,
            public_key,
        ),
        state.register(identifier, public_key, device_name, now).broker == state.broker,
{
    let device = DeviceKeyView {
        identifier: identifier,
        public_key: public_key,
        device_name: device_name,
        bound_at: now,
    };
    keys_after_binding(state.registry, device, identifier, public_key);
}

/// A registration for an account that has a device binds nothing: the
/// registry is as it was, whatever the registration answers.
pub proof fn registering_a_later_device_binds_nothing(
    state: AuthView,
    identifier: Seq<char>,
    public_key: Seq<u8>,
    device_name: Seq<char>,
    now: u64,
)
    requires
        state.registry.is_bound(identifier),
    ensures
        state.register(identifier, public_key, device_name, now).registry == state.registry,
        !(state.register_outcome(identifier, public_key, device_name, now) matches Ok(
            RegistrationView::Bound(_),
        )),
{
}

/// Once an account has a device, a further key comes to be bound to it by
/// one thing only: an approval, by a device of that account, of a request
/// for that very key, which succeeds.
pub proof fn later_device_is_bound_only_by_an_approval(
    state: AuthView,
    operation: Operation,
    identifier: Seq<char>,
    key: Seq<u8>,
)
    requires
        state.wf(),
        state.registry.is_bound(identifier),
        !state.registry.has_key(identifier, key),
        step(state, operation).registry.has_key(identifier, key),
    ensures
        operation is Approve,
        state.approve_outcome(
            operation->Approve_request_id,
            operation->Approve_approver,
            operation->Approve_proof,
            operation->Approve_now,
        ) is Ok,
        state.broker.requests[operation->Approve_request_id as int].identifier == identifier,
        state.broker.requests[operation->Approve_request_id as int].candidate_public_key == key,
        state.registry.has_key(identifier, operation->Approve_approver),
{
    match operation {
        Operation::Approve { request_id, approver, proof, now } => {
            if key_well_formed(approver) && signature_well_formed(proof) && state.broker.may_decide(
                state.registry,
                request_id,
                approver,
                proof,
                now,
            ) is Ok {
                let request = state.broker.requests[request_id as int];
                if !state.registry.has_key(request.identifier, request.candidate_public_key) {
                    keys_after_binding(
                        state.registry,
                        DeviceKeyView {
                            identifier: request.identifier,
                            public_key: request.candidate_public_key,
                            device_name: request.candidate_device_name,
                            bound_at: now,
                        },
                        identifier,
                        key,
                    );
                }
            }
        },
        Operation::Register { identifier: account, public_key, device_name, now } => {
            match state.register_outcome(account, public_key, device_name, now) {
                Ok(RegistrationView::Bound(device)) => {
                    keys_after_binding(state.registry, device, identifier, key);
                },
                _ => {},
            }
        },
        _ => {},
    }
}

/// A session is issued only in exchange for a pending challenge that has not
/// run out and a signature over its nonce by a device of the account; and the
/// challenge is gone when the session is handed out.
pub proof fn session_needs_an_answered_challenge(
    state: AuthView,
    identifier: Seq<char>,
    signature: Seq<u8>,
    now: u64,
)
    requires
        state.authenticate_outcome(identifier, signature, now) is Ok,
    ensures
        state.challenges.pending(identifier) is Some,
        now <= state.challenges.pending(identifier)->0.expires_at,
        state.registry.signed_by_device(
            identifier,
            state.challenges.pending(identifier)->0.nonce,
            signature,
        ),
        state.authenticate_outcome(identifier, signature, now)->Ok_0.identifier == identifier,
        state.authenticate(identifier, signature, now).challenges.pending(identifier) is None,
{
}

/// A challenge is answered once. After an authentication that succeeded, a
/// further one for the same account, with the same signature or any other
/// and at any moment, finds no challenge, until a new login issues one.
pub proof fn consumed_challenge_cannot_be_answered_again(
    state: AuthView,
    identifier: Seq<char>,
    first_signature: Seq<u8>,
    first_now: u64,
    second_signature: Seq<u8>,
    second_now: u64,
)
    requires
        state.authenticate_outcome(identifier, first_signature, first_now) is Ok,
    ensures
        ({
            let after = state.authenticate(identifier, first_signature, first_now);
            let second = after.authenticate_outcome(identifier, second_signature, second_now);
            &&& second is Err
            &&& signature_well_formed(second_signature) ==> second == Err::<SessionView, AuthError>(
                AuthError::NotFound,
            )
            &&& second_signature == first_signature ==> second == Err::<SessionView, AuthError>(
                AuthError::NotFound,
            )
        }),
{
}

/// Of two authentications against one issued challenge, at most one
/// succeeds, whichever of them comes first: the one that comes second finds
/// the state that the first has left.
pub proof fn of_two_answers_to_one_challenge_at_most_one_succeeds(
    state: AuthView,
    identifier: Seq<char>,
    one_signature: Seq<u8>,
    one_now: u64,
    other_signature: Seq<u8>,
    other_now: u64,
)
    ensures
        !(state.authenticate_outcome(identifier, one_signature, one_now) is Ok
            && state.authenticate(identifier, one_signature, one_now).authenticate_outcome(
            identifier,
            other_signature,
            other_now,
        ) is Ok),
        !(state.authenticate_outcome(identifier, other_signature, other_now) is Ok
            && state.authenticate(identifier, other_signature, other_now).authenticate_outcome(
            identifier,
            one_signature,
            one_now,
        ) is Ok),
{
}

/// A login puts its challenge in the place of whatever the account had
/// pending: the earlier challenge can no longer be answered.
pub proof fn login_replaces_the_pending_challenge(
    state: AuthView,
    identifier: Seq<char>,
    nonce: Seq<u8>,
    now: u64,
)
    requires
        state.login_outcome(identifier, nonce, now) is Ok,
    ensures
        state.login(identifier, nonce, now).challenges.pending(identifier) == Some(
            state.login_outcome(identifier, nonce, now)->Ok_0,
        ),
        state.login_outcome(identifier, nonce, now)->Ok_0.nonce == nonce,
        !state.login_outcome(identifier, nonce, now)->Ok_0.consumed,
{
}

/// Once a request was approved, a further approval, by whichever device and
/// at whatever moment, is answered with `AlreadyTerminal`; it changes neither
/// the request nor the registry, so no second key is bound.
pub proof fn second_approval_finds_the_request_decided(
    broker: BrokerView,
    registry: RegistryView,
    request_id: u64,
    first_approver: Seq<u8>,
    first_proof: Seq<u8>,
    first_now: u64,
    second_approver: Seq<u8>,
    second_proof: Seq<u8>,
    second_now: u64,
)
    requires
        broker.wf(),
        broker.approve_outcome(registry, request_id, first_approver, first_proof, first_now) is Ok,
    ensures
        ({
            let broker_after = broker.approve(
                registry,
                request_id,
                first_approver,
                first_proof,
                first_now,
            );
            let registry_after = broker.approve_registry(
                registry,
                request_id,
                first_approver,
                first_proof,
                first_now,
            );
            &&& broker_after.requests[request_id as int].status == ConfirmationStatus::Approved
            &&& broker_after.approve_outcome(
                registry_after,
                request_id,
                second_approver,
                second_proof,
                second_now,
            ) == Err::<DeviceKeyView, AuthError>(AuthError::AlreadyTerminal)
            &&& broker_after.approve(
                registry_after,
                request_id,
                second_approver,
                second_proof,
                second_now,
            ) == broker_after
            &&& broker_after.approve_registry(
                registry_after,
                request_id,
                second_approver,
                second_proof,
                second_now,
            ) == registry_after
        }),
{
}

/// A request that has reached a terminal state is never changed again, by
/// any operation; and no operation takes a request away.
pub proof fn decided_request_never_changes(state: AuthView, operation: Operation, request_id: u64)
    requires
        state.wf(),
        state.broker.knows(request_id),
        state.broker.requests[request_id as int].status.spec_is_terminal(),
    ensures
        step(state, operation).broker.knows(request_id),
        step(state, operation).broker.requests[request_id as int]
            == state.broker.requests[request_id as int],
{
    match operation {
        Operation::Approve { request_id: decided, approver, proof, now } => {
            crate::confirmation::decision_keeps_wf(
                state.broker,
                state.registry,
                decided,
                approver,
                proof,
                now,
                ConfirmationStatus::Approved,
            );
        },
        Operation::Reject { request_id: decided, approver, proof, now } => {
            crate::confirmation::decision_keeps_wf(
                state.broker,
                state.registry,
                decided,
                approver,
                proof,
                now,
                ConfirmationStatus::Rejected,
            );
        },
        Operation::Sweep { now } => {
            crate::confirmation::expiring_keeps_wf(state.broker, now);
        },
        _ => {},
    }
}

/// A pending request leaves its state in one step at most, and only to a
/// terminal one: by an approval or a rejection of that request, by one of
/// them finding that it has run out, or by a sweep finding the same.
pub proof fn pending_request_is_decided_once(state: AuthView, operation: Operation, request_id: u64)
    requires
        state.wf(),
        state.broker.knows(request_id),
        state.broker.requests[request_id as int].status == ConfirmationStatus::Pending,
        step(state, operation).broker.requests[request_id as int].status
            != ConfirmationStatus::Pending,
    ensures
        ({
            ||| operation is Approve && operation->Approve_request_id == request_id
            ||| operation is Reject && operation->Reject_request_id == request_id
            ||| operation is Sweep
        }),
        step(state, operation).broker.requests[request_id as int].status.spec_is_terminal(),
{
}

/// A sweep changes no answer but one: whoever answers a challenge after it
/// has run out, and after a sweep has taken it away, is told that there is
/// none where they would have been told that it has expired.
pub proof fn sweep_turns_expiry_into_absence(
    state: AuthView,
    now: u64,
    identifier: Seq<char>,
    signature: Seq<u8>,
    later: u64,
)
    requires
        now <= later,
    ensures
        ({
            let without = state.authenticate_outcome(identifier, signature, later);
            let with = state.sweep(now).authenticate_outcome(identifier, signature, later);
            ||| with == without
            ||| without == Err::<SessionView, AuthError>(AuthError::Expired) && with == Err::<
                SessionView,
                AuthError,
            >(AuthError::NotFound)
        }),
        forall|request_id: u64|
            state.sweep(now).broker.status(request_id, later) == #[trigger] state.broker.status(
                request_id,
                later,
            ),
{
}

/// No operation takes a bound key away or an account: what is bound stays
/// bound.
pub proof fn bound_key_stays_bound(
    state: AuthView,
    operation: Operation,
    identifier: Seq<char>,
    key: Seq<u8>,
)
    requires
        state.wf(),
        state.registry.has_key(identifier, key),
    ensures
        step(state, operation).registry.has_key(identifier, key),
{
    match operation {
        Operation::Register { identifier: account, public_key, device_name, now } => {
            match state.register_outcome(account, public_key, device_name, now) {
                Ok(RegistrationView::Bound(device)) => {
                    keys_after_binding(state.registry, device, identifier, key);
                },
                _ => {
                    assert(step(state, operation).registry == state.registry);
                },
            }
        },
        Operation::Approve { request_id, approver, proof, now } => {
            if key_well_formed(approver) && signature_well_formed(proof) && state.broker.may_decide(
                state.registry,
                request_id,
                approver,
                proof,
                now,
            ) is Ok {
                let request = state.broker.requests[request_id as int];
                if !state.registry.has_key(request.identifier, request.candidate_public_key) {
                    keys_after_binding(
                        state.registry,
                        DeviceKeyView {
                            identifier: request.identifier,
                            public_key: request.candidate_public_key,
                            device_name: request.candidate_device_name,
                            bound_at: now,
                        },
                        identifier,
                        key,
                    );
                }
            } else {
                assert(step(state, operation).registry == state.registry);
            }
        },
        Operation::Provision { identifier: account } => {
            let i = choose|i: int|
                0 <= i < state.registry.devices.len() && (
                #[trigger] state.registry.devices[i]).identifier == identifier
                    && state.registry.devices[i].public_key == key;
            assert(step(state, operation).registry.devices[i] == state.registry.devices[i]);
        },
        _ => {
            assert(step(state, operation).registry == state.registry);
        },
    }
}

} // verus!
