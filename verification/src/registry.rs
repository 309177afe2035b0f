//! The key registry: which accounts exist, and which device keys are bound to
//! each of them.

use crate::bytes::copy_bytes;
use crate::bytes::copy_text;
use crate::bytes::same_bytes;
use crate::bytes::same_text;
use crate::error::AuthError;
use crate::signature::signature_valid;
use crate::signature::verify;
use vstd::prelude::*;

verus! {

/// A device's public key, bound to an account.
#[derive(Debug)]
pub struct DeviceKey {
    pub identifier: String,
    pub public_key: Vec<u8>,
    pub device_name: String,
    pub bound_at: u64,
}

/// What a [`DeviceKey`] holds.
pub ghost struct DeviceKeyView {
    pub identifier: Seq<char>,
    pub public_key: Seq<u8>,
    pub device_name: Seq<char>,
    pub bound_at: u64,
}

impl View for DeviceKey {
    type V = DeviceKeyView;

    open spec fn view(&self) -> DeviceKeyView {
        DeviceKeyView {
            identifier: self.identifier@,
            public_key: self.public_key@,
            device_name: self.device_name@,
            bound_at: self.bound_at,
        }
    }
}

impl Clone for DeviceKey {
    /// A copy that holds the same values.
    fn clone(&self) -> (copy: DeviceKey)
        ensures
            copy@ == self@,
    {
        DeviceKey {
            identifier: copy_text(self.identifier.as_str()),
            public_key: copy_bytes(self.public_key.as_slice()),
            device_name: copy_text(self.device_name.as_str()),
            bound_at: self.bound_at,
        }
    }
}

/// What a sequence of device keys holds, in order.
pub open spec fn device_views(devices: Seq<DeviceKey>) -> Seq<DeviceKeyView> {
    Seq::new(devices.len(), |i: int| devices[i]@)
}

/// The place at which a key bound at time `at` enters `devices`: behind the
/// last one bound no later than `at`.
pub open spec fn slot(devices: Seq<DeviceKeyView>, at: u64) -> int
    decreases devices.len(),
{
    if devices.len() == 0 {
        0
    } else if devices.last().bound_at <= at {
        devices.len() as int
    } else {
        slot(devices.drop_last(), at)
    }
}

/// Whether `devices` is in the order of binding times.
pub open spec fn in_binding_order(devices: Seq<DeviceKeyView>) -> bool {
    forall|i: int, j: int|
        0 <= i <= j < devices.len() ==> (#[trigger] devices[i]).bound_at <= (
        #[trigger] devices[j]).bound_at
}

/// The test that picks the keys of one account.
pub open spec fn bound_to(identifier: Seq<char>) -> spec_fn(DeviceKeyView) -> bool {
    |d: DeviceKeyView| d.identifier == identifier
}

/// What binding a key answered, as a value.
pub open spec fn bind_result_view(
    result: Result<DeviceKey, AuthError>,
) -> Result<DeviceKeyView, AuthError> {
    match result {
        Ok(device) => Ok(device@),
        Err(error) => Err(error),
    }
}

/// The registry as a value: the set of accounts and the bound keys, oldest
/// binding first.
pub ghost struct RegistryView {
    pub accounts: Set<Seq<char>>,
    pub devices: Seq<DeviceKeyView>,
}

impl RegistryView {
    /// A registry without accounts.
    pub open spec fn empty() -> RegistryView {
        RegistryView { accounts: Set::empty(), devices: Seq::empty() }
    }

    /// Every key belongs to an existing account, no account holds a key twice,
    /// and the keys stand in the order in which they were bound.
    pub open spec fn wf(self) -> bool {
        &&& forall|i: int|
            0 <= i < self.devices.len() ==> self.accounts.contains(
                (#[trigger] self.devices[i]).identifier,
            )
        &&& forall|i: int, j: int|
            0 <= i < j < self.devices.len() && (#[trigger] self.devices[i]).identifier == (
            #[trigger] self.devices[j]).identifier ==> self.devices[i].public_key
                != self.devices[j].public_key
        &&& in_binding_order(self.devices)
    }

    /// Whether an account named `identifier` exists.
    pub open spec fn account_exists(self, identifier: Seq<char>) -> bool {
        self.accounts.contains(identifier)
    }

    /// Whether `key` is bound to `identifier`.
    pub open spec fn has_key(self, identifier: Seq<char>, key: Seq<u8>) -> bool {
        exists|i: int|
            0 <= i < self.devices.len() && (#[trigger] self.devices[i]).identifier == identifier
                && self.devices[i].public_key == key
    }

    /// Whether at least one key is bound to `identifier`.
    pub open spec fn is_bound(self, identifier: Seq<char>) -> bool {
        exists|i: int|
            0 <= i < self.devices.len() && (#[trigger] self.devices[i]).identifier == identifier
    }

    /// Whether `signature` is a valid signature over `message` by a key that
    /// is bound to `identifier`.
    pub open spec fn signed_by_device(
        self,
        identifier: Seq<char>,
        message: Seq<u8>,
        signature: Seq<u8>,
    ) -> bool {
        exists|i: int|
            0 <= i < self.devices.len() && (#[trigger] self.devices[i]).identifier == identifier
                && signature_valid(self.devices[i].public_key, message, signature)
    }

    /// The record of `key` under `identifier`, where it is bound.
    pub open spec fn device(self, identifier: Seq<char>, key: Seq<u8>) -> DeviceKeyView {
        let i = choose|i: int|
            0 <= i < self.devices.len() && (#[trigger] self.devices[i]).identifier == identifier
                && self.devices[i].public_key == key;
        self.devices[i]
    }

    /// The keys bound to `identifier`, oldest binding first.
    pub open spec fn devices_of(self, identifier: Seq<char>) -> Seq<DeviceKeyView> {
        self.devices.filter(bound_to(identifier))
    }

    /// The registry with the account `identifier` added.
    pub open spec fn provision(self, identifier: Seq<char>) -> RegistryView {
        RegistryView { accounts: self.accounts.insert(identifier), devices: self.devices }
    }

    /// The registry with `device` entered at its place in the binding order.
    pub open spec fn with_device(self, device: DeviceKeyView) -> RegistryView {
        RegistryView {
            accounts: self.accounts,
            devices: self.devices.insert(slot(self.devices, device.bound_at), device),
        }
    }

    /// What binding a key answers: the new record, or why there is none.
    pub open spec fn bind_outcome(
        self,
        identifier: Seq<char>,
        key: Seq<u8>,
        device_name: Seq<char>,
        at: u64,
    ) -> Result<DeviceKeyView, AuthError> {
        if !self.account_exists(identifier) {
            Err(AuthError::UnknownAccount)
        } else if self.has_key(identifier, key) {
            Err(AuthError::DuplicateKey)
        } else {
            Ok(
                DeviceKeyView {
                    identifier: identifier,
                    public_key: key,
                    device_name: device_name,
                    bound_at: at,
                },
            )
        }
    }

    /// The registry after binding a key: changed only where the binding
    /// succeeds.
    pub open spec fn bind(
        self,
        identifier: Seq<char>,
        key: Seq<u8>,
        device_name: Seq<char>,
        at: u64,
    ) -> RegistryView {
        match self.bind_outcome(identifier, key, device_name, at) {
            Ok(device) => self.with_device(device),
            Err(_) => self,
        }
    }
}

/// The slot lies within the sequence, everything before it was bound no later
/// than `at`, and everything from it on was bound later.
pub proof fn slot_divides(devices: Seq<DeviceKeyView>, at: u64)
    requires
        in_binding_order(devices),
    ensures
        0 <= slot(devices, at) <= devices.len(),
        forall|i: int| 0 <= i < slot(devices, at) ==> (#[trigger] devices[i]).bound_at <= at,
        forall|i: int|
            slot(devices, at) <= i < devices.len() ==> (#[trigger] devices[i]).bound_at > at,
    decreases devices.len(),
{
    if devices.len() == 0 {
    } else if devices.last().bound_at <= at {
        assert forall|i: int| 0 <= i < devices.len() implies (#[trigger] devices[i]).bound_at
            <= at by {
            assert(devices[i].bound_at <= devices[devices.len() - 1].bound_at);
        }
    } else {
        let front = devices.drop_last();
        assert forall|i: int, j: int| 0 <= i <= j < front.len() implies (
        #[trigger] front[i]).bound_at <= (#[trigger] front[j]).bound_at by {
            assert(front[i] == devices[i] && front[j] == devices[j]);
        }
        slot_divides(front, at);
        assert forall|i: int| 0 <= i < slot(devices, at) implies (#[trigger] devices[i]).bound_at
            <= at by {
            assert(front[i] == devices[i]);
        }
        assert forall|i: int| slot(devices, at) <= i < devices.len() implies (
        #[trigger] devices[i]).bound_at > at by {
            if i < front.len() {
                assert(front[i] == devices[i]);
            }
        }
    }
}

/// The keys listed for an account are exactly the keys bound to it, each
/// once, in the order in which they were bound.
pub proof fn devices_of_an_account(registry: RegistryView, identifier: Seq<char>)
    requires
        registry.wf(),
    ensures
        in_binding_order(registry.devices_of(identifier)),
        forall|i: int|
            0 <= i < registry.devices_of(identifier).len() ==> (
            #[trigger] registry.devices_of(identifier)[i]).identifier == identifier,
        forall|key: Seq<u8>|
            registry.has_key(identifier, key) <==> exists|i: int|
                0 <= i < registry.devices_of(identifier).len() && (
                #[trigger] registry.devices_of(identifier)[i]).public_key == key,
        registry.is_bound(identifier) <==> registry.devices_of(identifier).len() > 0,
        forall|i: int, j: int|
            0 <= i < j < registry.devices_of(identifier).len() ==> (
            #[trigger] registry.devices_of(identifier)[i]).public_key != (
            #[trigger] registry.devices_of(identifier)[j]).public_key,
{
    listed_devices(registry.devices, identifier);
    let listed = registry.devices_of(identifier);
    assert forall|key: Seq<u8>|
        registry.has_key(identifier, key) <==> exists|i: int|
            0 <= i < listed.len() && (#[trigger] listed[i]).public_key == key by {
        if registry.has_key(identifier, key) {
            let k = choose|k: int|
                0 <= k < registry.devices.len() && (#[trigger] registry.devices[k]).identifier
                    == identifier && registry.devices[k].public_key == key;
            assert(listed.contains(registry.devices[k]));
            let i = choose|i: int| 0 <= i < listed.len() && listed[i] == registry.devices[k];
            assert(listed[i].public_key == key);
        }
        if exists|i: int| 0 <= i < listed.len() && (#[trigger] listed[i]).public_key == key {
            let i = choose|i: int|
                0 <= i < listed.len() && (#[trigger] listed[i]).public_key == key;
            assert(registry.devices.contains(listed[i]));
            let k = choose|k: int|
                0 <= k < registry.devices.len() && registry.devices[k] == listed[i];
            assert(registry.devices[k].identifier == identifier);
        }
    }
    if registry.is_bound(identifier) {
        let k = choose|k: int|
            0 <= k < registry.devices.len() && (#[trigger] registry.devices[k]).identifier
                == identifier;
        assert(listed.contains(registry.devices[k]));
    }
    if listed.len() > 0 {
        assert(registry.devices.contains(listed[0]));
        let k = choose|k: int| 0 <= k < registry.devices.len() && registry.devices[k] == listed[0];
        assert(registry.devices[k].identifier == identifier);
    }
}

/// What picking the keys of one account out of a sequence keeps: their
/// order, and every key of the account and no other, none of them twice.
proof fn listed_devices(devices: Seq<DeviceKeyView>, identifier: Seq<char>)
    requires
        in_binding_order(devices),
        forall|i: int, j: int|
            0 <= i < j < devices.len() && (#[trigger] devices[i]).identifier == (
            #[trigger] devices[j]).identifier ==> devices[i].public_key != devices[j].public_key,
    ensures
        forall|i: int, j: int|
            0 <= i < j < devices.filter(bound_to(identifier)).len() ==> (
            #[trigger] devices.filter(bound_to(identifier))[i]).public_key != (
            #[trigger] devices.filter(bound_to(identifier))[j]).public_key,
        in_binding_order(devices.filter(bound_to(identifier))),
        forall|i: int|
            0 <= i < devices.filter(bound_to(identifier)).len() ==> (
            #[trigger] devices.filter(bound_to(identifier))[i]).identifier == identifier
                && devices.contains(devices.filter(bound_to(identifier))[i]),
        forall|k: int|
            0 <= k < devices.len() && (#[trigger] devices[k]).identifier == identifier
                ==> devices.filter(bound_to(identifier)).contains(devices[k]),
        forall|i: int|
            0 <= i < devices.filter(bound_to(identifier)).len() && devices.len() > 0 ==> (
            #[trigger] devices.filter(bound_to(identifier))[i]).bound_at
                <= devices.last().bound_at,
    decreases devices.len(),
{
    reveal(Seq::filter);
    let listed = devices.filter(bound_to(identifier));
    if devices.len() > 0 {
        let front = devices.drop_last();
        let last = devices.last();
        assert forall|i: int, j: int| 0 <= i <= j < front.len() implies (
        #[trigger] front[i]).bound_at <= (#[trigger] front[j]).bound_at by {
            assert(front[i] == devices[i] && front[j] == devices[j]);
        }
        assert forall|i: int, j: int|
            0 <= i < j < front.len() && (#[trigger] front[i]).identifier == (
            #[trigger] front[j]).identifier implies front[i].public_key
            != front[j].public_key by {
            assert(front[i] == devices[i] && front[j] == devices[j]);
        }
        listed_devices(front, identifier);
        let before = front.filter(bound_to(identifier));
        assert forall|i: int| 0 <= i < before.len() implies (#[trigger] before[i]).bound_at
            <= last.bound_at && devices.contains(before[i]) by {
            assert(front.contains(before[i]));
            let k = choose|k: int| 0 <= k < front.len() && front[k] == before[i];
            assert(devices[k] == front[k]);
            assert(devices[k].bound_at <= devices[devices.len() - 1].bound_at);
        }
        if bound_to(identifier)(last) {
            assert(listed == before.push(last));
            assert(listed[before.len() as int] == last);
            assert(devices[devices.len() - 1] == last);
            assert forall|i: int| 0 <= i < listed.len() implies (#[trigger] listed[i]).identifier
                == identifier && devices.contains(listed[i]) && listed[i].bound_at
                <= last.bound_at by {
                if i < before.len() {
                    assert(listed[i] == before[i]);
                }
            }
            assert forall|i: int, j: int| 0 <= i <= j < listed.len() implies (
            #[trigger] listed[i]).bound_at <= (#[trigger] listed[j]).bound_at by {
                if j < before.len() {
                    assert(listed[i] == before[i] && listed[j] == before[j]);
                } else if i < before.len() {
                    assert(listed[i] == before[i]);
                }
            }
            assert forall|i: int, j: int| 0 <= i < j < listed.len() implies (
            #[trigger] listed[i]).public_key != (#[trigger] listed[j]).public_key by {
                assert(listed[i] == before[i]);
                if j < before.len() {
                    assert(listed[j] == before[j]);
                } else {
                    // The last key differs from every earlier key of the account.
                    assert(front.contains(before[i]));
                    let k = choose|k: int| 0 <= k < front.len() && front[k] == before[i];
                    assert(devices[k] == front[k]);
                    assert(devices[k].identifier == devices[devices.len() - 1].identifier);
                }
            }
        } else {
            assert(listed == before);
        }
        assert forall|k: int|
            0 <= k < devices.len() && (#[trigger] devices[k]).identifier
                == identifier implies listed.contains(devices[k]) by {
            if k < front.len() {
                assert(front[k] == devices[k]);
                assert(before.contains(front[k]));
                let i = choose|i: int| 0 <= i < before.len() && before[i] == front[k];
                assert(listed[i] == devices[k]);
            } else {
                assert(listed[before.len() as int] == devices[k]);
            }
        }
    }
}

/// Adding an account keeps a registry well formed.
pub proof fn provision_keeps_wf(registry: RegistryView, identifier: Seq<char>)
    requires
        registry.wf(),
    ensures
        registry.provision(identifier).wf(),
        registry.provision(identifier).account_exists(identifier),
{
}

/// Entering a key that its account does not hold yet keeps a registry well
/// formed, and the key is bound afterwards.
pub proof fn with_device_keeps_wf(registry: RegistryView, device: DeviceKeyView)
    requires
        registry.wf(),
        registry.account_exists(device.identifier),
        !registry.has_key(device.identifier, device.public_key),
    ensures
        registry.with_device(device).wf(),
        registry.with_device(device).has_key(device.identifier, device.public_key),
        registry.with_device(device).is_bound(device.identifier),
{
    let old_devices = registry.devices;
    let at = device.bound_at;
    let p = slot(old_devices, at);
    slot_divides(old_devices, at);
    let after = registry.with_device(device);
    let new_devices = after.devices;
    assert(new_devices.len() == old_devices.len() + 1);
    assert(new_devices[p] == device);
    assert forall|i: int| 0 <= i < new_devices.len() implies after.accounts.contains(
        (#[trigger] new_devices[i]).identifier,
    ) by {
        if i < p {
            assert(new_devices[i] == old_devices[i]);
        } else if i > p {
            assert(new_devices[i] == old_devices[i - 1]);
        }
    }
    assert forall|i: int, j: int|
        0 <= i < j < new_devices.len() && (#[trigger] new_devices[i]).identifier == (
        #[trigger] new_devices[j]).identifier implies new_devices[i].public_key
        != new_devices[j].public_key by {
        let a = if i < p {
            i
        } else {
            i - 1
        };
        let b = if j < p {
            j
        } else {
            j - 1
        };
        if i != p && j != p {
            assert(new_devices[i] == old_devices[a]);
            assert(new_devices[j] == old_devices[b]);
        } else if i == p {
            assert(new_devices[j] == old_devices[b]);
        } else {
            assert(new_devices[i] == old_devices[a]);
        }
    }
    assert forall|i: int, j: int| 0 <= i <= j < new_devices.len() implies (
    #[trigger] new_devices[i]).bound_at <= (#[trigger] new_devices[j]).bound_at by {
        let a = if i < p {
            i
        } else {
            i - 1
        };
        let b = if j < p {
            j
        } else {
            j - 1
        };
        if i != p {
            assert(new_devices[i] == old_devices[a]);
        }
        if j != p {
            assert(new_devices[j] == old_devices[b]);
        }
    }
}

/// The key registry. One value of it is shared by everything that binds or
/// looks up device keys.
pub struct KeyRegistry {
    accounts: Vec<String>,
    devices: Vec<DeviceKey>,
}

impl View for KeyRegistry {
    type V = RegistryView;

    closed spec fn view(&self) -> RegistryView {
        RegistryView {
            accounts: Set::new(
                |identifier: Seq<char>|
                    exists|i: int|
                        0 <= i < self.accounts@.len() && (#[trigger] self.accounts@[i])@
                            == identifier,
            ),
            devices: device_views(self.devices@),
        }
    }
}

impl KeyRegistry {
    /// Well-formedness: that of the value it stands for.
    pub open spec fn wf(&self) -> bool {
        self@.wf()
    }

    /// A registry without accounts.
    pub fn new() -> (registry: KeyRegistry)
        ensures
            registry.wf(),
            registry@ == RegistryView::empty(),
    {
        let registry = KeyRegistry { accounts: Vec::new(), devices: Vec::new() };
        assert(registry@.accounts =~= Set::<Seq<char>>::empty());
        assert(registry@.devices =~= Seq::<DeviceKeyView>::empty());
        registry
    }

    /// Whether an account named `identifier` exists.
    pub fn account_exists(&self, identifier: &str) -> (found: bool)
        ensures
            found == self@.account_exists(identifier@),
    {
        let mut i: usize = 0;
        while i < self.accounts.len()
            invariant
                i <= self.accounts@.len(),
                forall|k: int| 0 <= k < i ==> (#[trigger] self.accounts@[k])@ != identifier@,
            decreases self.accounts@.len() - i,
        {
            if same_text(self.accounts[i].as_str(), identifier) {
                return true;
            }
            i += 1;
        }
        false
    }

    /// Adds the account `identifier`; says whether it was new. Accounts are
    /// provisioned by an administrator, never by the devices themselves.
    pub fn create_account(&mut self, identifier: &str) -> (created: bool)
        requires
            old(self).wf(),
        ensures
            final(self).wf(),
            final(self)@ == old(self)@.provision(identifier@),
            created == !old(self)@.account_exists(identifier@),
    {
        if self.account_exists(identifier) {
            assert(self@.accounts =~= old(self)@.accounts.insert(identifier@));
            return false;
        }
        self.accounts.push(copy_text(identifier));
        proof {
            let before = old(self).accounts@;
            let after = self.accounts@;
            assert(after[before.len() as int]@ == identifier@);
            assert forall|id: Seq<char>|
                self@.accounts.contains(id) == old(self)@.accounts.insert(identifier@).contains(
                    id,
                ) by {
                if old(self)@.accounts.contains(id) {
                    let k = choose|k: int|
                        0 <= k < before.len() && (#[trigger] before[k])@ == id;
                    assert(after[k]@ == id);
                }
                if self@.accounts.contains(id) && id != identifier@ {
                    let k = choose|k: int| 0 <= k < after.len() && (#[trigger] after[k])@ == id;
                    assert(before[k]@ == id);
                }
            }
            assert(self@.accounts =~= old(self)@.accounts.insert(identifier@));
            provision_keeps_wf(old(self)@, identifier@);
        }
        true
    }

    /// The place of `key` under `identifier` among the bound keys.
    fn position(&self, identifier: &str, key: &[u8]) -> (place: Option<usize>)
        ensures
            match place {
                Some(i) => i < self.devices@.len() && self.devices@[i as int]@.identifier
                    == identifier@ && self.devices@[i as int]@.public_key == key@,
                None => forall|k: int|
                    0 <= k < self.devices@.len() ==> !((#[trigger] self.devices@[k])@.identifier
                        == identifier@ && self.devices@[k]@.public_key == key@),
            },
    {
        let mut i: usize = 0;
        while i < self.devices.len()
            invariant
                i <= self.devices@.len(),
                forall|k: int|
                    0 <= k < i ==> !((#[trigger] self.devices@[k])@.identifier == identifier@
                        && self.devices@[k]@.public_key == key@),
            decreases self.devices@.len() - i,
        {
            if same_text(self.devices[i].identifier.as_str(), identifier) && same_bytes(
                self.devices[i].public_key.as_slice(),
                key,
            ) {
                return Some(i);
            }
            i += 1;
        }
        None
    }

    /// Whether `key` is bound to `identifier`.
    pub fn has_key(&self, identifier: &str, key: &[u8]) -> (found: bool)
        ensures
            found == self@.has_key(identifier@, key@),
    {
        match self.position(identifier, key) {
            Some(i) => {
                assert(self@.devices[i as int] == self.devices@[i as int]@);
                true
            },
            None => {
                assert forall|k: int| 0 <= k < self@.devices.len() implies !((
                #[trigger] self@.devices[k]).identifier == identifier@
                    && self@.devices[k].public_key == key@) by {
                    assert(self@.devices[k] == self.devices@[k]@);
                }
                false
            },
        }
    }

    /// The record of `key` under `identifier`, if it is bound.
    pub fn find_device(&self, identifier: &str, key: &[u8]) -> (found: Option<DeviceKey>)
        requires
            self.wf(),
        ensures
            found is Some == self@.has_key(identifier@, key@),
            found is Some ==> found->0@ == self@.device(identifier@, key@),
    {
        match self.position(identifier, key) {
            Some(i) => {
                proof {
                    let view = self@;
                    assert(view.devices[i as int] == self.devices@[i as int]@);
                    let j = choose|j: int|
                        0 <= j < view.devices.len() && (#[trigger] view.devices[j]).identifier
                            == identifier@ && view.devices[j].public_key == key@;
                    // An account holds no key twice, so the record is this one.
                    assert(j == i as int);
                }
                Some(self.devices[i].clone())
            },
            None => {
                assert forall|k: int| 0 <= k < self@.devices.len() implies !((
                #[trigger] self@.devices[k]).identifier == identifier@
                    && self@.devices[k].public_key == key@) by {
                    assert(self@.devices[k] == self.devices@[k]@);
                }
                None
            },
        }
    }

    /// Whether at least one key is bound to `identifier`.
    pub fn is_bound(&self, identifier: &str) -> (bound: bool)
        ensures
            bound == self@.is_bound(identifier@),
    {
        let mut i: usize = 0;
        while i < self.devices.len()
            invariant
                i <= self.devices@.len(),
                forall|k: int|
                    0 <= k < i ==> (#[trigger] self.devices@[k])@.identifier != identifier@,
            decreases self.devices@.len() - i,
        {
            if same_text(self.devices[i].identifier.as_str(), identifier) {
                assert(self@.devices[i as int] == self.devices@[i as int]@);
                return true;
            }
            i += 1;
        }
        assert forall|k: int| 0 <= k < self@.devices.len() implies (
        #[trigger] self@.devices[k]).identifier != identifier@ by {
            assert(self@.devices[k] == self.devices@[k]@);
        }
        false
    }

    /// Whether `signature` is a valid signature over `message` by one of the
    /// devices of `identifier`. The keys are tried in the order of binding and
    /// the first that fits decides.
    pub fn signed_by_device(
        &self,
        identifier: &str,
        message: &[u8],
        signature: &[u8],
    ) -> (signed: bool)
        ensures
            signed == self@.signed_by_device(identifier@, message@, signature@),
    {
        let mut i: usize = 0;
        while i < self.devices.len()
            invariant
                i <= self.devices@.len(),
                forall|k: int|
                    0 <= k < i ==> !((#[trigger] self.devices@[k])@.identifier == identifier@
                        && signature_valid(self.devices@[k]@.public_key, message@, signature@)),
            decreases self.devices@.len() - i,
        {
            if same_text(self.devices[i].identifier.as_str(), identifier) && verify(
                self.devices[i].public_key.as_slice(),
                message,
                signature,
            ) {
                assert(self@.devices[i as int] == self.devices@[i as int]@);
                return true;
            }
            i += 1;
        }
        assert forall|k: int| 0 <= k < self@.devices.len() implies !((
        #[trigger] self@.devices[k]).identifier == identifier@ && signature_valid(
            self@.devices[k].public_key,
            message@,
            signature@,
        )) by {
            assert(self@.devices[k] == self.devices@[k]@);
        }
        false
    }

    /// The place at which a key bound at time `at` enters.
    fn slot_for(&self, at: u64) -> (place: usize)
        ensures
            place as int == slot(self@.devices, at),
            place <= self.devices@.len(),
    {
        let mut place: usize = self.devices.len();
        assert(self@.devices.take(place as int) =~= self@.devices);
        while place > 0 && self.devices[place - 1].bound_at > at
            invariant
                place <= self.devices@.len(),
                slot(self@.devices, at) == slot(self@.devices.take(place as int), at),
            decreases place,
        {
            proof {
                let front = self@.devices.take(place as int);
                assert(front.last() == self.devices@[place - 1]@);
                assert(front.drop_last() =~= self@.devices.take(place - 1));
            }
            place -= 1;
        }
        proof {
            let front = self@.devices.take(place as int);
            if place > 0 {
                assert(front.last() == self.devices@[place - 1]@);
            }
        }
        place
    }

    /// Binds `key` to the account `identifier` as of the time `at`.
    ///
    /// Fails with `UnknownAccount` where there is no such account, and with
    /// `DuplicateKey` where the account holds the key already; the registry is
    /// then unchanged. Otherwise the new record enters at its place in the
    /// binding order and is returned.
    pub fn bind_device(
        &mut self,
        identifier: &str,
        key: &[u8],
        device_name: &str,
        at: u64,
    ) -> (result: Result<DeviceKey, AuthError>)
        requires
            old(self).wf(),
        ensures
            final(self).wf(),
            final(self)@ == old(self)@.bind(identifier@, key@, device_name@, at),
            bind_result_view(result) == old(self)@.bind_outcome(
                identifier@,
                key@,
                device_name@,
                at,
            ),
    {
        if !self.account_exists(identifier) {
            return Err(AuthError::UnknownAccount);
        }
        if self.has_key(identifier, key) {
            return Err(AuthError::DuplicateKey);
        }
        let device = DeviceKey {
            identifier: copy_text(identifier),
            public_key: copy_bytes(key),
            device_name: copy_text(device_name),
            bound_at: at,
        };
        let record = device.clone();
        let place = self.slot_for(at);
        self.devices.insert(place, device);
        proof {
            with_device_keeps_wf(old(self)@, record@);
            assert(self@.devices =~= old(self)@.devices.insert(place as int, record@));
            assert(self@.accounts =~= old(self)@.accounts);
        }
        Ok(record)
    }

    /// The keys bound to `identifier`, oldest binding first.
    pub fn list_devices(&self, identifier: &str) -> (devices: Vec<DeviceKey>)
        ensures
            device_views(devices@) == self@.devices_of(identifier@),
    {
        let mut devices: Vec<DeviceKey> = Vec::new();
        let mut i: usize = 0;
        proof {
            reveal(Seq::filter);
            assert(self@.devices.take(0).len() == 0);
            assert(device_views(devices@) =~= self@.devices.take(0).filter(bound_to(identifier@)));
        }
        while i < self.devices.len()
            invariant
                i <= self.devices@.len(),
                device_views(devices@) == self@.devices.take(i as int).filter(
                    bound_to(identifier@),
                ),
            decreases self.devices@.len() - i,
        {
            let ghost before = devices@;
            proof {
                reveal(Seq::filter);
                let front = self@.devices.take(i + 1);
                assert(front.drop_last() =~= self@.devices.take(i as int));
                assert(front.last() == self.devices@[i as int]@);
            }
            if same_text(self.devices[i].identifier.as_str(), identifier) {
                devices.push(self.devices[i].clone());
                assert(device_views(devices@) =~= device_views(before).push(
                    self.devices@[i as int]@,
                ));
            }
            i += 1;
        }
        assert(self@.devices.take(i as int) =~= self@.devices);
        devices
    }
}

} // verus!
