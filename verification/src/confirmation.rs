//! The confirmation broker: a new device of an account that already has
//! devices is bound only after one of them has approved it.
//!
//! Each request runs through `Pending` to exactly one of `Approved`,
//! `Rejected` and `Expired`, and never leaves that state again.

use crate::bytes::be_bytes;
use crate::bytes::be_bytes_injective;
use crate::bytes::copy_bytes;
use crate::bytes::copy_text;
use crate::bytes::push_be_bytes;
use crate::clock::deadline;
use crate::clock::deadline_after;
use crate::error::AuthError;
use crate::registry::bind_result_view;
use crate::registry::device_views;
use crate::registry::DeviceKey;
use crate::registry::DeviceKeyView;
use crate::registry::KeyRegistry;
use crate::registry::RegistryView;
use crate::signature::signature_valid;
use crate::signature::verify;
use vstd::prelude::*;

verus! {

/// The seconds for which a request can be decided, unless the broker is made
/// with another span.
pub const CONFIRMATION_TIMEOUT: u64 = 600;

/// Where a confirmation request stands.
#[derive(Clone, Copy, Debug, PartialEq, Eq, Structural)]
pub enum ConfirmationStatus {
    Pending,
    Approved,
    Rejected,
    Expired,
}

impl ConfirmationStatus {
    /// Whether the request has been decided or has run out.
    pub open spec fn spec_is_terminal(self) -> bool {
        self != ConfirmationStatus::Pending
    }

    #[verifier::when_used_as_spec(spec_is_terminal)]
    pub fn is_terminal(self) -> (terminal: bool)
        ensures
            terminal == self.spec_is_terminal(),
    {
        match self {
            ConfirmationStatus::Pending => false,
            _ => true,
        }
    }
}

/// The request of a candidate device to be bound to an account.
#[derive(Debug)]
pub struct ConfirmationRequest {
    pub id: u64,
    pub identifier: String,
    pub candidate_public_key: Vec<u8>,
    pub candidate_device_name: String,
    pub requested_at: u64,
    pub approvals: Vec<Vec<u8>>,
    pub status: ConfirmationStatus,
}

/// What a [`ConfirmationRequest`] holds. The approvals are a set: the keys of
/// the devices that approved.
pub ghost struct ConfirmationRequestView {
    pub id: u64,
    pub identifier: Seq<char>,
    pub candidate_public_key: Seq<u8>,
    pub candidate_device_name: Seq<char>,
    pub requested_at: u64,
    pub approvals: Set<Seq<u8>>,
    pub status: ConfirmationStatus,
}

/// The keys that a list of keys holds, as a set.
pub open spec fn key_set(keys: Seq<Vec<u8>>) -> Set<Seq<u8>> {
    Set::new(|key: Seq<u8>| exists|i: int| 0 <= i < keys.len() && (#[trigger] keys[i])@ == key)
}

impl View for ConfirmationRequest {
    type V = ConfirmationRequestView;

    open spec fn view(&self) -> ConfirmationRequestView {
        ConfirmationRequestView {
            id: self.id,
            identifier: self.identifier@,
            candidate_public_key: self.candidate_public_key@,
            candidate_device_name: self.candidate_device_name@,
            requested_at: self.requested_at,
            approvals: key_set(self.approvals@),
            status: self.status,
        }
    }
}

impl ConfirmationRequestView {
    /// Where the request stands at the moment `now`: a pending request that
    /// is past its deadline has expired, whether or not anybody has looked.
    pub open spec fn status_at(self, timeout: u64, now: u64) -> ConfirmationStatus {
        if self.status == ConfirmationStatus::Pending && now > deadline(
            self.requested_at,
            timeout,
        ) {
            ConfirmationStatus::Expired
        } else {
            self.status
        }
    }

    /// The request, decided as `status`.
    pub open spec fn decided(self, status: ConfirmationStatus) -> ConfirmationRequestView {
        ConfirmationRequestView { status: status, ..self }
    }

    /// The request, approved by the device that holds `approver`.
    pub open spec fn approved_by(self, approver: Seq<u8>) -> ConfirmationRequestView {
        ConfirmationRequestView {
            status: ConfirmationStatus::Approved,
            approvals: self.approvals.insert(approver),
            ..self
        }
    }
}

/// The bytes that an approving device signs: the eight bytes of the request's
/// id, most significant first.
pub open spec fn proof_message(request_id: u64) -> Seq<u8> {
    be_bytes(request_id)
}

/// The proof for one request is no proof for another: requests with the same
/// signed bytes are the same request.
pub proof fn proof_message_is_unambiguous(request_id: u64, other_id: u64)
    requires
        proof_message(request_id) == proof_message(other_id),
    ensures
        request_id == other_id,
{
    be_bytes_injective(request_id, other_id);
}

/// The broker as a value: every request ever made, each at the place of its
/// id, and the span within which a request can be decided.
pub ghost struct BrokerView {
    pub requests: Seq<ConfirmationRequestView>,
    pub timeout: u64,
}

impl BrokerView {
    /// A broker without requests.
    pub open spec fn empty(timeout: u64) -> BrokerView {
        BrokerView { requests: Seq::empty(), timeout: timeout }
    }

    /// Each request stands at the place of its id, and only an approved
    /// request holds an approval.
    pub open spec fn wf(self) -> bool {
        forall|i: int|
            0 <= i < self.requests.len() ==> {
                &&& (#[trigger] self.requests[i]).id == i
                &&& (self.requests[i].status != ConfirmationStatus::Approved
                    ==> self.requests[i].approvals == Set::<Seq<u8>>::empty())
            }
    }

    /// Whether a request with this id was ever made.
    pub open spec fn knows(self, request_id: u64) -> bool {
        request_id < self.requests.len()
    }

    /// What asking for a confirmation answers: the new request, unless the
    /// candidate key is bound to the account already or the ids have run out.
    pub open spec fn request_outcome(
        self,
        registry: RegistryView,
        identifier: Seq<char>,
        candidate_public_key: Seq<u8>,
        candidate_device_name: Seq<char>,
        now: u64,
    ) -> Result<ConfirmationRequestView, AuthError> {
        if registry.has_key(identifier, candidate_public_key) {
            Err(AuthError::AlreadyBound)
        } else if self.requests.len() > u64::MAX {
            Err(AuthError::InternalError)
        } else {
            Ok(
                ConfirmationRequestView {
                    id: self.requests.len() as u64,
                    identifier: identifier,
                    candidate_public_key: candidate_public_key,
                    candidate_device_name: candidate_device_name,
                    requested_at: now,
                    approvals: Set::empty(),
                    status: ConfirmationStatus::Pending,
                },
            )
        }
    }

    /// The broker after it was asked: the new request is its last.
    pub open spec fn request(
        self,
        registry: RegistryView,
        identifier: Seq<char>,
        candidate_public_key: Seq<u8>,
        candidate_device_name: Seq<char>,
        now: u64,
    ) -> BrokerView {
        match self.request_outcome(
            registry,
            identifier,
            candidate_public_key,
            candidate_device_name,
            now,
        ) {
            Ok(request) => BrokerView { requests: self.requests.push(request), ..self },
            Err(_) => self,
        }
    }

    /// The broker with every request that has run out at the moment `now`
    /// recorded as expired.
    pub open spec fn expire_overdue(self, now: u64) -> BrokerView {
        BrokerView {
            requests: Seq::new(
                self.requests.len(),
                |i: int| self.requests[i].decided(self.requests[i].status_at(self.timeout, now)),
            ),
            ..self
        }
    }

    /// Where a request stands at the moment `now`.
    pub open spec fn status(
        self,
        request_id: u64,
        now: u64,
    ) -> Result<ConfirmationStatus, AuthError> {
        if !self.knows(request_id) {
            Err(AuthError::NotFound)
        } else {
            Ok(self.requests[request_id as int].status_at(self.timeout, now))
        }
    }

    /// Whether a device may decide a request at the moment `now`, and if not,
    /// why. The request must exist, must not have run out, must not be
    /// decided, and the device must be bound to the account and prove it by
    /// its signature over the request's id.
    pub open spec fn may_decide(
        self,
        registry: RegistryView,
        request_id: u64,
        approver: Seq<u8>,
        proof: Seq<u8>,
        now: u64,
    ) -> Result<(), AuthError> {
        if !self.knows(request_id) {
            Err(AuthError::NotFound)
        } else {
            let request = self.requests[request_id as int];
            match request.status_at(self.timeout, now) {
                ConfirmationStatus::Expired => Err(AuthError::Expired),
                ConfirmationStatus::Approved | ConfirmationStatus::Rejected => Err(
                    AuthError::AlreadyTerminal,
                ),
                ConfirmationStatus::Pending => if registry.has_key(request.identifier, approver)
                    && signature_valid(approver, proof_message(request_id), proof) {
                    Ok(())
                } else {
                    Err(AuthError::UnauthorizedApprover)
                },
            }
        }
    }

    /// The broker after a device tried to decide a request as `decision`: the
    /// request is decided where the device may decide it, and recorded as
    /// expired where it was found to have run out.
    pub open spec fn decide(
        self,
        registry: RegistryView,
        request_id: u64,
        approver: Seq<u8>,
        proof: Seq<u8>,
        now: u64,
        decision: ConfirmationStatus,
    ) -> BrokerView {
        match self.may_decide(registry, request_id, approver, proof, now) {
            Ok(_) => {
                let request = self.requests[request_id as int];
                let decided = if decision == ConfirmationStatus::Approved {
                    request.approved_by(approver)
                } else {
                    request.decided(decision)
                };
                BrokerView { requests: self.requests.update(request_id as int, decided), ..self }
            },
            Err(AuthError::Expired) => BrokerView {
                requests: self.requests.update(
                    request_id as int,
                    self.requests[request_id as int].decided(ConfirmationStatus::Expired),
                ),
                ..self
            },
            Err(_) => self,
        }
    }

    /// What approving answers: the record of the candidate's key, which is
    /// bound by the approval or was bound before it.
    pub open spec fn approve_outcome(
        self,
        registry: RegistryView,
        request_id: u64,
        approver: Seq<u8>,
        proof: Seq<u8>,
        now: u64,
    ) -> Result<DeviceKeyView, AuthError> {
        match self.may_decide(registry, request_id, approver, proof, now) {
            Ok(_) => {
                let request = self.requests[request_id as int];
                if registry.has_key(request.identifier, request.candidate_public_key) {
                    Ok(registry.device(request.identifier, request.candidate_public_key))
                } else {
                    Ok(
                        DeviceKeyView {
                            identifier: request.identifier,
                            public_key: request.candidate_public_key,
                            device_name: request.candidate_device_name,
                            bound_at: now,
                        },
                    )
                }
            },
            Err(error) => Err(error),
        }
    }

    /// The broker after an approval was tried.
    pub open spec fn approve(
        self,
        registry: RegistryView,
        request_id: u64,
        approver: Seq<u8>,
        proof: Seq<u8>,
        now: u64,
    ) -> BrokerView {
        self.decide(registry, request_id, approver, proof, now, ConfirmationStatus::Approved)
    }

    /// The registry after an approval was tried: the candidate's key is bound
    /// where the approval succeeds, and nothing else changes.
    pub open spec fn approve_registry(
        self,
        registry: RegistryView,
        request_id: u64,
        approver: Seq<u8>,
        proof: Seq<u8>,
        now: u64,
    ) -> RegistryView {
        match self.may_decide(registry, request_id, approver, proof, now) {
            Ok(_) => {
                let request = self.requests[request_id as int];
                registry.bind(
                    request.identifier,
                    request.candidate_public_key,
                    request.candidate_device_name,
                    now,
                )
            },
            Err(_) => registry,
        }
    }

    /// The broker after a rejection was tried.
    pub open spec fn reject(
        self,
        registry: RegistryView,
        request_id: u64,
        approver: Seq<u8>,
        proof: Seq<u8>,
        now: u64,
    ) -> BrokerView {
        self.decide(registry, request_id, approver, proof, now, ConfirmationStatus::Rejected)
    }
}

/// Asking for a confirmation keeps a broker well formed and changes no
/// request made before.
pub proof fn request_keeps_wf(
    broker: BrokerView,
    registry: RegistryView,
    identifier: Seq<char>,
    candidate_public_key: Seq<u8>,
    candidate_device_name: Seq<char>,
    now: u64,
)
    requires
        broker.wf(),
    ensures
        broker.request(registry, identifier, candidate_public_key, candidate_device_name, now).wf(),
        forall|i: int|
            0 <= i < broker.requests.len() ==> (#[trigger] broker.request(
                registry,
                identifier,
                candidate_public_key,
                candidate_device_name,
                now,
            ).requests[i]) == broker.requests[i],
{
}

/// Recording what has run out keeps a broker well formed and changes no
/// request that had reached a terminal state, nor one that still runs.
pub proof fn expiring_keeps_wf(broker: BrokerView, now: u64)
    requires
        broker.wf(),
    ensures
        broker.expire_overdue(now).wf(),
        broker.expire_overdue(now).requests.len() == broker.requests.len(),
        forall|i: int|
            0 <= i < broker.requests.len() && broker.requests[i].status_at(broker.timeout, now)
                == broker.requests[i].status ==> (#[trigger] broker.expire_overdue(
                now,
            ).requests[i]) == broker.requests[i],
{
}

/// Whoever asks, at the moment of the record or later, where a request
/// stands is told the same with the record as without it.
pub proof fn recording_expiry_changes_no_answer(
    broker: BrokerView,
    now: u64,
    request_id: u64,
    later: u64,
)
    requires
        now <= later,
    ensures
        broker.expire_overdue(now).status(request_id, later) == broker.status(request_id, later),
{
}

/// A decision keeps a broker well formed, and it changes no request but, at
/// most, the one it names; a request that had reached a terminal state is
/// never changed again.
pub proof fn decision_keeps_wf(
    broker: BrokerView,
    registry: RegistryView,
    request_id: u64,
    approver: Seq<u8>,
    proof: Seq<u8>,
    now: u64,
    decision: ConfirmationStatus,
)
    requires
        broker.wf(),
        decision == ConfirmationStatus::Approved || decision == ConfirmationStatus::Rejected,
    ensures
        broker.decide(registry, request_id, approver, proof, now, decision).wf(),
        broker.decide(registry, request_id, approver, proof, now, decision).requests.len()
            == broker.requests.len(),
        forall|i: int|
            0 <= i < broker.requests.len() && (i != request_id || broker.requests[i].status
                != ConfirmationStatus::Pending) ==> (#[trigger] broker.decide(
                registry,
                request_id,
                approver,
                proof,
                now,
                decision,
            ).requests[i]) == broker.requests[i],
{
}

impl Clone for ConfirmationRequest {
    /// A copy that holds the same values.
    fn clone(&self) -> (copy: ConfirmationRequest)
        ensures
            copy@ == self@,
    {
        let mut approvals: Vec<Vec<u8>> = Vec::new();
        let mut i: usize = 0;
        while i < self.approvals.len()
            invariant
                i <= self.approvals@.len(),
                approvals@.len() == i,
                forall|k: int| 0 <= k < i ==> (#[trigger] approvals@[k])@ == self.approvals@[k]@,
            decreases self.approvals@.len() - i,
        {
            approvals.push(copy_bytes(self.approvals[i].as_slice()));
            i += 1;
        }
        proof {
            assert forall|key: Seq<u8>|
                key_set(approvals@).contains(key) == key_set(self.approvals@).contains(key) by {
                if key_set(approvals@).contains(key) {
                    let k = choose|k: int|
                        0 <= k < approvals@.len() && (#[trigger] approvals@[k])@ == key;
                    assert(self.approvals@[k]@ == key);
                }
                if key_set(self.approvals@).contains(key) {
                    let k = choose|k: int|
                        0 <= k < self.approvals@.len() && (#[trigger] self.approvals@[k])@ == key;
                    assert(approvals@[k]@ == key);
                }
            }
            assert(key_set(approvals@) =~= key_set(self.approvals@));
        }
        ConfirmationRequest {
            id: self.id,
            identifier: copy_text(self.identifier.as_str()),
            candidate_public_key: copy_bytes(self.candidate_public_key.as_slice()),
            candidate_device_name: copy_text(self.candidate_device_name.as_str()),
            requested_at: self.requested_at,
            approvals: approvals,
            status: self.status,
        }
    }
}

/// A request that awaits the decision of the devices it was announced to.
#[derive(Debug)]
pub struct PendingConfirmation {
    /// The request as it was stored.
    pub request: ConfirmationRequest,
    /// The bound devices of the account, oldest binding first. Each of them
    /// is to be told of the request; telling them is the caller's to do.
    pub notify: Vec<DeviceKey>,
}

/// What a [`PendingConfirmation`] holds.
pub ghost struct PendingConfirmationView {
    pub request: ConfirmationRequestView,
    pub notify: Seq<DeviceKeyView>,
}

impl View for PendingConfirmation {
    type V = PendingConfirmationView;

    open spec fn view(&self) -> PendingConfirmationView {
        PendingConfirmationView { request: self.request@, notify: device_views(self.notify@) }
    }
}

/// What asking for a confirmation answered, as a value.
pub open spec fn request_result_view(
    result: Result<PendingConfirmation, AuthError>,
) -> Result<ConfirmationRequestView, AuthError> {
    match result {
        Ok(pending) => Ok(pending@.request),
        Err(error) => Err(error),
    }
}

/// What a sequence of requests holds, in order.
pub open spec fn request_views(requests: Seq<ConfirmationRequest>) -> Seq<ConfirmationRequestView> {
    Seq::new(requests.len(), |i: int| requests[i]@)
}

/// The confirmation broker.
pub struct ConfirmationBroker {
    requests: Vec<ConfirmationRequest>,
    timeout: u64,
}

impl View for ConfirmationBroker {
    type V = BrokerView;

    closed spec fn view(&self) -> BrokerView {
        BrokerView { requests: request_views(self.requests@), timeout: self.timeout }
    }
}

impl ConfirmationBroker {
    /// Well-formedness: that of the value it stands for.
    pub open spec fn wf(&self) -> bool {
        self@.wf()
    }

    /// A broker without requests, which lets each request be decided within
    /// `timeout` seconds.
    pub fn new(timeout: u64) -> (broker: ConfirmationBroker)
        ensures
            broker.wf(),
            broker@ == BrokerView::empty(timeout),
    {
        let broker = ConfirmationBroker { requests: Vec::new(), timeout };
        assert(broker@.requests =~= Seq::<ConfirmationRequestView>::empty());
        broker
    }

    /// The seconds within which a request can be decided.
    pub fn timeout(&self) -> (timeout: u64)
        ensures
            timeout == self@.timeout,
    {
        self.timeout
    }

    /// Asks the devices of `identifier` to confirm a candidate device, as of
    /// the moment `now`.
    ///
    /// Fails with `AlreadyBound` where the candidate's key is bound to the
    /// account already. Otherwise the request is stored as pending and
    /// returned together with the devices that are to be told of it.
    pub fn request(
        &mut self,
        registry: &KeyRegistry,
        identifier: &str,
        candidate_public_key: &[u8],
        candidate_device_name: &str,
        now: u64,
    ) -> (result: Result<PendingConfirmation, AuthError>)
        requires
            old(self).wf(),
        ensures
            final(self).wf(),
            final(self)@ == old(self)@.request(
                registry@,
                identifier@,
                candidate_public_key@,
                candidate_device_name@,
                now,
            ),
            request_result_view(result) == old(self)@.request_outcome(
                registry@,
                identifier@,
                candidate_public_key@,
                candidate_device_name@,
                now,
            ),
            result is Ok ==> result->Ok_0@.notify == registry@.devices_of(identifier@),
    {
        if registry.has_key(identifier, candidate_public_key) {
            return Err(AuthError::AlreadyBound);
        }
        let request = ConfirmationRequest {
            id: self.requests.len() as u64,
            identifier: copy_text(identifier),
            candidate_public_key: copy_bytes(candidate_public_key),
            candidate_device_name: copy_text(candidate_device_name),
            requested_at: now,
            approvals: Vec::new(),
            status: ConfirmationStatus::Pending,
        };
        assert(key_set(request.approvals@) =~= Set::<Seq<u8>>::empty());
        let stored = request.clone();
        let notify = registry.list_devices(identifier);
        self.requests.push(request);
        proof {
            assert(self@.requests =~= old(self)@.requests.push(stored@));
            request_keeps_wf(
                old(self)@,
                registry@,
                identifier@,
                candidate_public_key@,
                candidate_device_name@,
                now,
            );
        }
        Ok(PendingConfirmation { request: stored, notify: notify })
    }

    /// The stored request with this id, if there is one, as it was last
    /// recorded.
    pub fn get(&self, request_id: u64) -> (found: Option<ConfirmationRequest>)
        ensures
            found is Some == self@.knows(request_id),
            found is Some ==> found->0@ == self@.requests[request_id as int],
    {
        if request_id >= self.requests.len() as u64 {
            return None;
        }
        Some(self.requests[request_id as usize].clone())
    }

    /// Where the stored request at place `i` stands at the moment `now`.
    fn status_of(&self, i: usize, now: u64) -> (status: ConfirmationStatus)
        requires
            i < self.requests@.len(),
        ensures
            status == self@.requests[i as int].status_at(self@.timeout, now),
    {
        let request = &self.requests[i];
        match request.status {
            ConfirmationStatus::Pending => {
                if now > deadline_after(request.requested_at, self.timeout) {
                    ConfirmationStatus::Expired
                } else {
                    ConfirmationStatus::Pending
                }
            },
            ConfirmationStatus::Approved => ConfirmationStatus::Approved,
            ConfirmationStatus::Rejected => ConfirmationStatus::Rejected,
            ConfirmationStatus::Expired => ConfirmationStatus::Expired,
        }
    }

    /// Where a request stands at the moment `now`. Fails with `NotFound`
    /// where no request has this id. The broker is left as it is.
    pub fn status(
        &self,
        request_id: u64,
        now: u64,
    ) -> (result: Result<ConfirmationStatus, AuthError>)
        ensures
            result == self@.status(request_id, now),
    {
        if request_id >= self.requests.len() as u64 {
            return Err(AuthError::NotFound);
        }
        Ok(self.status_of(request_id as usize, now))
    }

    /// The bytes that an approving device signs for this request.
    fn proof_bytes(request_id: u64) -> (message: Vec<u8>)
        ensures
            message@ == proof_message(request_id),
    {
        let mut message: Vec<u8> = Vec::new();
        push_be_bytes(&mut message, request_id);
        message
    }

    /// Whether a device may decide a request at the moment `now`.
    fn may_decide(
        &self,
        registry: &KeyRegistry,
        request_id: u64,
        approver_key: &[u8],
        proof: &[u8],
        now: u64,
    ) -> (result: Result<(), AuthError>)
        ensures
            result == self@.may_decide(registry@, request_id, approver_key@, proof@, now),
    {
        if request_id >= self.requests.len() as u64 {
            return Err(AuthError::NotFound);
        }
        let i: usize = request_id as usize;
        match self.status_of(i, now) {
            ConfirmationStatus::Expired => Err(AuthError::Expired),
            ConfirmationStatus::Approved => Err(AuthError::AlreadyTerminal),
            ConfirmationStatus::Rejected => Err(AuthError::AlreadyTerminal),
            ConfirmationStatus::Pending => {
                let message = Self::proof_bytes(request_id);
                if registry.has_key(self.requests[i].identifier.as_str(), approver_key) && verify(
                    approver_key,
                    message.as_slice(),
                    proof,
                ) {
                    Ok(())
                } else {
                    Err(AuthError::UnauthorizedApprover)
                }
            },
        }
    }

    /// Writes the state `status` into the pending request at place `i`, and
    /// `approver` among its approvals where there is one.
    fn record(&mut self, i: usize, status: ConfirmationStatus, approver: Option<&[u8]>)
        requires
            old(self).wf(),
            i < old(self)@.requests.len(),
            old(self)@.requests[i as int].status == ConfirmationStatus::Pending,
            status != ConfirmationStatus::Pending,
            approver is Some <==> status == ConfirmationStatus::Approved,
        ensures
            final(self)@.timeout == old(self)@.timeout,
            final(self)@.requests == old(self)@.requests.update(
                i as int,
                match approver {
                    Some(key) => old(self)@.requests[i as int].approved_by(key@),
                    None => old(self)@.requests[i as int].decided(status),
                },
            ),
    {
        let ghost before = self.requests@[i as int];
        proof {
            assert(self@.requests[i as int] == before@);
            // A pending request holds no approval.
            if before.approvals@.len() > 0 {
                assert(key_set(before.approvals@).contains(before.approvals@[0]@));
            }
        }
        self.requests[i].status = status;
        match approver {
            Some(key) => {
                self.requests[i].approvals.push(copy_bytes(key));
                assert(self.requests@[i as int].approvals@[0]@ == key@);
                assert(key_set(self.requests@[i as int].approvals@) =~= before@.approvals.insert(
                    key@,
                ));
            },
            None => {},
        }
        let ghost expected = self.requests@[i as int]@;
        assert(self@.requests =~= old(self)@.requests.update(i as int, expected));
    }

    /// Records every request that has run out at the moment `now` as expired.
    /// Nothing else changes, and whoever asks from that moment on where a
    /// request stands is told what they would have been told without the
    /// record; it only makes the end of the request final.
    pub fn expire_overdue(&mut self, now: u64)
        requires
            old(self).wf(),
        ensures
            final(self).wf(),
            final(self)@ == old(self)@.expire_overdue(now),
    {
        proof {
            expiring_keeps_wf(old(self)@, now);
        }
        let mut i: usize = 0;
        while i < self.requests.len()
            invariant
                i <= self.requests@.len(),
                self.wf(),
                self@.timeout == old(self)@.timeout,
                self@.requests.len() == old(self)@.requests.len(),
                forall|k: int|
                    0 <= k < i ==> (#[trigger] self@.requests[k]) == old(self)@.expire_overdue(
                        now,
                    ).requests[k],
                forall|k: int|
                    i <= k < self@.requests.len() ==> (#[trigger] self@.requests[k]) == old(
                        self,
                    )@.requests[k],
            decreases self.requests@.len() - i,
        {
            let ghost before = self@.requests;
            assert(before[i as int] == self.requests@[i as int]@);
            let overdue = match self.requests[i].status {
                ConfirmationStatus::Pending => now > deadline_after(
                    self.requests[i].requested_at,
                    self.timeout,
                ),
                _ => false,
            };
            if overdue {
                self.record(i, ConfirmationStatus::Expired, None);
            }
            proof {
                assert(self@.requests.len() == before.len());
                assert(self@.requests.len() == self.requests@.len());
                let request = before[i as int];
                if !overdue {
                    assert(request.decided(request.status_at(self@.timeout, now)) == request);
                }
                assert forall|k: int| 0 <= k < self@.requests.len() implies {
                    &&& (#[trigger] self@.requests[k]).id == k
                    &&& (self@.requests[k].status != ConfirmationStatus::Approved
                        ==> self@.requests[k].approvals == Set::<Seq<u8>>::empty())
                } by {
                    if k != i {
                        assert(self@.requests[k] == before[k]);
                    }
                }
            }
            i += 1;
        }
        assert(self@.requests =~= old(self)@.expire_overdue(now).requests);
    }

    /// Approves a request in the name of the device that holds
    /// `approver_key`, as of the moment `now`.
    ///
    /// Fails with `NotFound` where no request has this id, with `Expired`
    /// where it has run out, with `AlreadyTerminal` where it was approved or
    /// rejected before, and with `UnauthorizedApprover` where the key is not
    /// bound to the request's account or `proof` is not its signature over the
    /// request's id. Otherwise the request becomes approved, the candidate's
    /// key is bound, and its record is returned; where the key was bound in
    /// the meantime, the record is the one that exists.
    pub fn approve(
        &mut self,
        registry: &mut KeyRegistry,
        request_id: u64,
        approver_key: &[u8],
        proof: &[u8],
        now: u64,
    ) -> (result: Result<DeviceKey, AuthError>)
        requires
            old(self).wf(),
            old(registry).wf(),
        ensures
            final(self).wf(),
            final(registry).wf(),
            final(self)@ == old(self)@.approve(
                old(registry)@,
                request_id,
                approver_key@,
                proof@,
                now,
            ),
            final(registry)@ == old(self)@.approve_registry(
                old(registry)@,
                request_id,
                approver_key@,
                proof@,
                now,
            ),
            bind_result_view(result) == old(self)@.approve_outcome(
                old(registry)@,
                request_id,
                approver_key@,
                proof@,
                now,
            ),
    {
        proof {
            decision_keeps_wf(
                old(self)@,
                old(registry)@,
                request_id,
                approver_key@,
                proof@,
                now,
                ConfirmationStatus::Approved,
            );
        }
        if request_id >= self.requests.len() as u64 {
            return Err(AuthError::NotFound);
        }
        let i: usize = request_id as usize;
        assert(self@.requests[i as int] == self.requests@[i as int]@);
        match self.may_decide(registry, request_id, approver_key, proof, now) {
            Err(AuthError::Expired) => {
                match self.requests[i].status {
                    ConfirmationStatus::Pending => {
                        self.record(i, ConfirmationStatus::Expired, None);
                    },
                    _ => {
                        let ghost request = self@.requests[i as int];
                        assert(request.status == ConfirmationStatus::Expired);
                        assert(request.decided(ConfirmationStatus::Expired) == request);
                        assert(self@.requests =~= self@.requests.update(i as int, request));
                    },
                }
                Err(AuthError::Expired)
            },
            Err(error) => Err(error),
            Ok(_) => {
                self.record(i, ConfirmationStatus::Approved, Some(approver_key));
                assert(self@.requests[i as int] == self.requests@[i as int]@);
                let request = &self.requests[i];
                let bound = registry.bind_device(
                    request.identifier.as_str(),
                    request.candidate_public_key.as_slice(),
                    request.candidate_device_name.as_str(),
                    now,
                );
                match bound {
                    Ok(device) => Ok(device),
                    Err(_) => {
                        // The approver is bound to the account, so the account
                        // exists: the key was bound before.
                        match registry.find_device(
                            request.identifier.as_str(),
                            request.candidate_public_key.as_slice(),
                        ) {
                            Some(device) => Ok(device),
                            None => Err(AuthError::InternalError),
                        }
                    },
                }
            },
        }
    }

    /// Rejects a request in the name of the device that holds
    /// `approver_key`, as of the moment `now`.
    ///
    /// The same is asked of the device as for an approval, and the same
    /// failures are reported. Otherwise the request becomes rejected; no key
    /// is bound.
    pub fn reject(
        &mut self,
        registry: &KeyRegistry,
        request_id: u64,
        approver_key: &[u8],
        proof: &[u8],
        now: u64,
    ) -> (result: Result<(), AuthError>)
        requires
            old(self).wf(),
        ensures
            final(self).wf(),
            final(self)@ == old(self)@.reject(registry@, request_id, approver_key@, proof@, now),
            result == old(self)@.may_decide(registry@, request_id, approver_key@, proof@, now),
    {
        proof {
            decision_keeps_wf(
                old(self)@,
                registry@,
                request_id,
                approver_key@,
                proof@,
                now,
                ConfirmationStatus::Rejected,
            );
        }
        if request_id >= self.requests.len() as u64 {
            return Err(AuthError::NotFound);
        }
        let i: usize = request_id as usize;
        assert(self@.requests[i as int] == self.requests@[i as int]@);
        match self.may_decide(registry, request_id, approver_key, proof, now) {
            Err(AuthError::Expired) => {
                match self.requests[i].status {
                    ConfirmationStatus::Pending => {
                        self.record(i, ConfirmationStatus::Expired, None);
                    },
                    _ => {
                        let ghost request = self@.requests[i as int];
                        assert(request.status == ConfirmationStatus::Expired);
                        assert(request.decided(ConfirmationStatus::Expired) == request);
                        assert(self@.requests =~= self@.requests.update(i as int, request));
                    },
                }
                Err(AuthError::Expired)
            },
            Err(error) => Err(error),
            Ok(_) => {
                self.record(i, ConfirmationStatus::Rejected, None);
                Ok(())
            },
        }
    }
}

} // verus!
