//! The challenge store: single-use, time-bounded nonces, at most one per
//! account.

use crate::bytes::copy_text;
use crate::bytes::same_bytes;
use crate::bytes::same_text;
use crate::clock::deadline;
use crate::clock::deadline_after;
use crate::error::AuthError;
use crate::registry::KeyRegistry;
use crate::registry::RegistryView;
use vstd::prelude::*;

verus! {

/// The length of a nonce, in bytes.
pub const NONCE_LENGTH: usize = 32;

/// The seconds for which a challenge can be answered, unless the store is
/// made with another span.
pub const CHALLENGE_TTL: u64 = 120;

/// A nonce that a claimant must sign to prove that it holds a bound key.
#[derive(Debug)]
pub struct Challenge {
    pub identifier: String,
    pub nonce: [u8; 32],
    pub issued_at: u64,
    pub expires_at: u64,
    pub consumed: bool,
}

/// What a [`Challenge`] holds.
pub ghost struct ChallengeView {
    pub identifier: Seq<char>,
    pub nonce: Seq<u8>,
    pub issued_at: u64,
    pub expires_at: u64,
    pub consumed: bool,
}

impl View for Challenge {
    type V = ChallengeView;

    open spec fn view(&self) -> ChallengeView {
        ChallengeView {
            identifier: self.identifier@,
            nonce: self.nonce@,
            issued_at: self.issued_at,
            expires_at: self.expires_at,
            consumed: self.consumed,
        }
    }
}

impl ChallengeView {
    /// The same challenge, marked as used.
    pub open spec fn used(self) -> ChallengeView {
        ChallengeView { consumed: true, ..self }
    }
}

impl Clone for Challenge {
    /// A copy that holds the same values.
    fn clone(&self) -> (copy: Challenge)
        ensures
            copy@ == self@,
    {
        Challenge {
            identifier: copy_text(self.identifier.as_str()),
            nonce: self.nonce,
            issued_at: self.issued_at,
            expires_at: self.expires_at,
            consumed: self.consumed,
        }
    }
}

/// What a store answered, as a value.
pub open spec fn challenge_result_view(
    result: Result<Challenge, AuthError>,
) -> Result<ChallengeView, AuthError> {
    match result {
        Ok(challenge) => Ok(challenge@),
        Err(error) => Err(error),
    }
}

/// What a look into the store answered, as a value.
pub open spec fn challenge_option_view(found: Option<Challenge>) -> Option<ChallengeView> {
    match found {
        Some(challenge) => Some(challenge@),
        None => None,
    }
}

/// The store as a value: the challenge that awaits its answer, by account,
/// and the span for which each can be answered.
pub ghost struct ChallengeStoreView {
    pub active: Map<Seq<char>, ChallengeView>,
    pub ttl: u64,
}

impl ChallengeStoreView {
    /// A store that holds no challenge.
    pub open spec fn empty(ttl: u64) -> ChallengeStoreView {
        ChallengeStoreView { active: Map::empty(), ttl: ttl }
    }

    /// Each stored challenge stands under its own account, is unused, holds a
    /// full nonce and ends a span after it was issued.
    pub open spec fn wf(self) -> bool {
        forall|identifier: Seq<char>| #[trigger]
            self.active.contains_key(identifier) ==> {
                &&& self.active[identifier].identifier == identifier
                &&& !self.active[identifier].consumed
                &&& self.active[identifier].nonce.len() == NONCE_LENGTH
                &&& self.active[identifier].expires_at == deadline(
                    self.active[identifier].issued_at,
                    self.ttl,
                )
            }
    }

    /// The challenge that awaits an answer from `identifier`, if any.
    pub open spec fn pending(self, identifier: Seq<char>) -> Option<ChallengeView> {
        if self.active.contains_key(identifier) {
            Some(self.active[identifier])
        } else {
            None
        }
    }

    /// What issuing a challenge answers: an account that nobody can answer
    /// for gets none.
    pub open spec fn issue_outcome(
        self,
        registry: RegistryView,
        identifier: Seq<char>,
        nonce: Seq<u8>,
        now: u64,
    ) -> Result<ChallengeView, AuthError> {
        if !registry.is_bound(identifier) {
            Err(AuthError::UnknownAccount)
        } else {
            Ok(
                ChallengeView {
                    identifier: identifier,
                    nonce: nonce,
                    issued_at: now,
                    expires_at: deadline(now, self.ttl),
                    consumed: false,
                },
            )
        }
    }

    /// The store after issuing: the new challenge takes the place of any
    /// earlier one of the same account.
    pub open spec fn issue(
        self,
        registry: RegistryView,
        identifier: Seq<char>,
        nonce: Seq<u8>,
        now: u64,
    ) -> ChallengeStoreView {
        match self.issue_outcome(registry, identifier, nonce, now) {
            Ok(challenge) => ChallengeStoreView {
                active: self.active.insert(identifier, challenge),
                ..self
            },
            Err(_) => self,
        }
    }

    /// What consuming answers: the stored challenge, marked as used, where
    /// one is stored, still runs and holds the expected nonce.
    pub open spec fn consume_outcome(
        self,
        identifier: Seq<char>,
        expected_nonce: Seq<u8>,
        now: u64,
    ) -> Result<ChallengeView, AuthError> {
        if !self.active.contains_key(identifier) {
            Err(AuthError::NotFound)
        } else if now > self.active[identifier].expires_at {
            Err(AuthError::Expired)
        } else if self.active[identifier].nonce != expected_nonce {
            Err(AuthError::Mismatch)
        } else {
            Ok(self.active[identifier].used())
        }
    }

    /// The store without the challenges that have run out at the moment
    /// `now`.
    pub open spec fn purge(self, now: u64) -> ChallengeStoreView {
        ChallengeStoreView {
            active: Map::new(
                |identifier: Seq<char>|
                    self.active.contains_key(identifier) && now
                        <= self.active[identifier].expires_at,
                |identifier: Seq<char>| self.active[identifier],
            ),
            ..self
        }
    }

    /// The store after consuming: a challenge leaves it when it is consumed
    /// and when it is found expired; a wrong nonce leaves it in place.
    pub open spec fn consume(
        self,
        identifier: Seq<char>,
        expected_nonce: Seq<u8>,
        now: u64,
    ) -> ChallengeStoreView {
        match self.consume_outcome(identifier, expected_nonce, now) {
            Ok(_) | Err(AuthError::Expired) => ChallengeStoreView {
                active: self.active.remove(identifier),
                ..self
            },
            Err(_) => self,
        }
    }
}

/// What a sequence of challenges holds, in order.
pub open spec fn challenge_views(entries: Seq<Challenge>) -> Seq<ChallengeView> {
    Seq::new(entries.len(), |i: int| entries[i]@)
}

/// No two entries stand for the same account.
pub open spec fn one_per_account(entries: Seq<ChallengeView>) -> bool {
    forall|i: int, j: int|
        0 <= i < j < entries.len() ==> (#[trigger] entries[i]).identifier != (
        #[trigger] entries[j]).identifier
}

/// Whether an entry stands for `identifier`.
pub open spec fn stored_for(entries: Seq<ChallengeView>, identifier: Seq<char>) -> bool {
    exists|i: int| 0 <= i < entries.len() && (#[trigger] entries[i]).identifier == identifier
}

/// The entries as a map from account to challenge.
pub open spec fn by_account(entries: Seq<ChallengeView>) -> Map<Seq<char>, ChallengeView> {
    Map::new(
        |identifier: Seq<char>| stored_for(entries, identifier),
        |identifier: Seq<char>|
            entries[choose|i: int|
                0 <= i < entries.len() && (#[trigger] entries[i]).identifier == identifier],
    )
}

/// Each entry is what the map holds under its account.
pub proof fn by_account_at(entries: Seq<ChallengeView>, i: int)
    requires
        one_per_account(entries),
        0 <= i < entries.len(),
    ensures
        by_account(entries).contains_key(entries[i].identifier),
        by_account(entries)[entries[i].identifier] == entries[i],
{
    let identifier = entries[i].identifier;
    assert(stored_for(entries, identifier));
    let j = choose|j: int|
        0 <= j < entries.len() && (#[trigger] entries[j]).identifier == identifier;
    assert(j == i);
}

/// Writing over the entry of an account is inserting into the map.
pub proof fn by_account_update(entries: Seq<ChallengeView>, i: int, challenge: ChallengeView)
    requires
        one_per_account(entries),
        0 <= i < entries.len(),
        challenge.identifier == entries[i].identifier,
    ensures
        one_per_account(entries.update(i, challenge)),
        by_account(entries.update(i, challenge)) == by_account(entries).insert(
            challenge.identifier,
            challenge,
        ),
{
    let after = entries.update(i, challenge);
    assert forall|a: int, b: int| 0 <= a < b < after.len() implies (#[trigger] after[a]).identifier
        != (#[trigger] after[b]).identifier by {
        assert(after[a].identifier == entries[a].identifier);
        assert(after[b].identifier == entries[b].identifier);
    }
    let expected = by_account(entries).insert(challenge.identifier, challenge);
    assert forall|identifier: Seq<char>|
        by_account(after).contains_key(identifier) == expected.contains_key(identifier) by {
        if stored_for(after, identifier) {
            let k = choose|k: int|
                0 <= k < after.len() && (#[trigger] after[k]).identifier == identifier;
            assert(entries[k].identifier == identifier);
        }
        if stored_for(entries, identifier) {
            let k = choose|k: int|
                0 <= k < entries.len() && (#[trigger] entries[k]).identifier == identifier;
            assert(after[k].identifier == identifier);
        }
        if identifier == challenge.identifier {
            assert(after[i].identifier == identifier);
        }
    }
    assert forall|identifier: Seq<char>| by_account(after).contains_key(identifier) implies (
    #[trigger] by_account(after)[identifier]) == expected[identifier] by {
        let k = choose|k: int|
            0 <= k < after.len() && (#[trigger] after[k]).identifier == identifier;
        by_account_at(after, k);
        if k == i {
        } else {
            assert(entries[k] == after[k]);
            by_account_at(entries, k);
        }
    }
    assert(by_account(after) =~= expected);
}

/// Appending the entry of an account that has none is inserting into the map.
pub proof fn by_account_push(entries: Seq<ChallengeView>, challenge: ChallengeView)
    requires
        one_per_account(entries),
        !stored_for(entries, challenge.identifier),
    ensures
        one_per_account(entries.push(challenge)),
        by_account(entries.push(challenge)) == by_account(entries).insert(
            challenge.identifier,
            challenge,
        ),
{
    let after = entries.push(challenge);
    assert forall|a: int, b: int| 0 <= a < b < after.len() implies (#[trigger] after[a]).identifier
        != (#[trigger] after[b]).identifier by {
        assert(after[a] == entries[a]);
        if b < entries.len() {
            assert(after[b] == entries[b]);
        }
    }
    let expected = by_account(entries).insert(challenge.identifier, challenge);
    assert forall|identifier: Seq<char>|
        by_account(after).contains_key(identifier) == expected.contains_key(identifier) by {
        if stored_for(after, identifier) {
            let k = choose|k: int|
                0 <= k < after.len() && (#[trigger] after[k]).identifier == identifier;
            if k < entries.len() {
                assert(entries[k].identifier == identifier);
            }
        }
        if stored_for(entries, identifier) {
            let k = choose|k: int|
                0 <= k < entries.len() && (#[trigger] entries[k]).identifier == identifier;
            assert(after[k].identifier == identifier);
        }
        if identifier == challenge.identifier {
            assert(after[entries.len() as int].identifier == identifier);
        }
    }
    assert forall|identifier: Seq<char>| by_account(after).contains_key(identifier) implies (
    #[trigger] by_account(after)[identifier]) == expected[identifier] by {
        let k = choose|k: int|
            0 <= k < after.len() && (#[trigger] after[k]).identifier == identifier;
        by_account_at(after, k);
        if k < entries.len() {
            assert(entries[k] == after[k]);
            by_account_at(entries, k);
        }
    }
    assert(by_account(after) =~= expected);
}

/// Taking an entry out is removing its account from the map.
pub proof fn by_account_remove(entries: Seq<ChallengeView>, i: int)
    requires
        one_per_account(entries),
        0 <= i < entries.len(),
    ensures
        one_per_account(entries.remove(i)),
        by_account(entries.remove(i)) == by_account(entries).remove(entries[i].identifier),
{
    let after = entries.remove(i);
    let gone = entries[i].identifier;
    assert forall|a: int, b: int| 0 <= a < b < after.len() implies (#[trigger] after[a]).identifier
        != (#[trigger] after[b]).identifier by {
        let x = if a < i {
            a
        } else {
            a + 1
        };
        let y = if b < i {
            b
        } else {
            b + 1
        };
        assert(after[a] == entries[x]);
        assert(after[b] == entries[y]);
    }
    let expected = by_account(entries).remove(gone);
    assert forall|identifier: Seq<char>|
        by_account(after).contains_key(identifier) == expected.contains_key(identifier) by {
        if stored_for(after, identifier) {
            let k = choose|k: int|
                0 <= k < after.len() && (#[trigger] after[k]).identifier == identifier;
            let x = if k < i {
                k
            } else {
                k + 1
            };
            assert(after[k] == entries[x]);
            assert(entries[x].identifier == identifier);
            assert(x != i);
            if x < i {
                assert(entries[x].identifier != entries[i].identifier);
            } else {
                assert(entries[i].identifier != entries[x].identifier);
            }
        }
        if stored_for(entries, identifier) && identifier != gone {
            let k = choose|k: int|
                0 <= k < entries.len() && (#[trigger] entries[k]).identifier == identifier;
            let x = if k < i {
                k
            } else {
                k - 1
            };
            assert(after[x] == entries[k]);
        }
    }
    assert forall|identifier: Seq<char>| by_account(after).contains_key(identifier) implies (
    #[trigger] by_account(after)[identifier]) == expected[identifier] by {
        let k = choose|k: int|
            0 <= k < after.len() && (#[trigger] after[k]).identifier == identifier;
        by_account_at(after, k);
        let x = if k < i {
            k
        } else {
            k + 1
        };
        assert(after[k] == entries[x]);
        by_account_at(entries, x);
    }
    assert(by_account(after) =~= expected);
}

/// The challenge store. It holds, for each account, at most the one challenge
/// that still awaits its answer.
pub struct ChallengeStore {
    entries: Vec<Challenge>,
    ttl: u64,
}

impl View for ChallengeStore {
    type V = ChallengeStoreView;

    closed spec fn view(&self) -> ChallengeStoreView {
        ChallengeStoreView { active: by_account(challenge_views(self.entries@)), ttl: self.ttl }
    }
}

impl ChallengeStore {
    /// Well-formedness: no account has two entries, and the value that the
    /// store stands for is well formed.
    pub closed spec fn wf(&self) -> bool {
        &&& one_per_account(challenge_views(self.entries@))
        &&& self@.wf()
    }

    /// A well-formed store stands for a well-formed value.
    pub proof fn view_is_wf(&self)
        requires
            self.wf(),
        ensures
            self@.wf(),
    {
    }

    /// A store that holds no challenge and lets each run for `ttl` seconds.
    pub fn new(ttl: u64) -> (store: ChallengeStore)
        ensures
            store.wf(),
            store@ == ChallengeStoreView::empty(ttl),
    {
        let store = ChallengeStore { entries: Vec::new(), ttl };
        assert(store@.active =~= Map::<Seq<char>, ChallengeView>::empty());
        store
    }

    /// The seconds for which a challenge can be answered.
    pub fn ttl(&self) -> (ttl: u64)
        ensures
            ttl == self@.ttl,
    {
        self.ttl
    }

    /// The place of the entry of `identifier`.
    fn position(&self, identifier: &str) -> (place: Option<usize>)
        ensures
            match place {
                Some(i) => i < self.entries@.len() && self.entries@[i as int]@.identifier
                    == identifier@,
                None => !stored_for(challenge_views(self.entries@), identifier@),
            },
    {
        let mut i: usize = 0;
        while i < self.entries.len()
            invariant
                i <= self.entries@.len(),
                forall|k: int|
                    0 <= k < i ==> (#[trigger] challenge_views(self.entries@)[k]).identifier
                        != identifier@,
            decreases self.entries@.len() - i,
        {
            if same_text(self.entries[i].identifier.as_str(), identifier) {
                return Some(i);
            }
            assert(challenge_views(self.entries@)[i as int] == self.entries@[i as int]@);
            i += 1;
        }
        None
    }

    /// The challenge that awaits an answer from `identifier`, if any. The
    /// store is left as it is.
    pub fn pending(&self, identifier: &str) -> (found: Option<Challenge>)
        requires
            self.wf(),
        ensures
            challenge_option_view(found) == self@.pending(identifier@),
    {
        match self.position(identifier) {
            Some(i) => {
                proof {
                    let views = challenge_views(self.entries@);
                    assert(views[i as int] == self.entries@[i as int]@);
                    by_account_at(views, i as int);
                }
                Some(self.entries[i].clone())
            },
            None => None,
        }
    }

    /// Issues a challenge to `identifier`, with `nonce` as its nonce, as of
    /// the moment `now`.
    ///
    /// Fails with `UnknownAccount` where no device is bound to the
    /// identifier: nobody could answer. Otherwise the new challenge replaces
    /// whatever the account had pending, and is returned. The nonce is the
    /// caller's to draw, from a source that cannot be predicted.
    pub fn issue(
        &mut self,
        registry: &KeyRegistry,
        identifier: &str,
        nonce: [u8; 32],
        now: u64,
    ) -> (result: Result<Challenge, AuthError>)
        requires
            old(self).wf(),
        ensures
            final(self).wf(),
            final(self)@ == old(self)@.issue(registry@, identifier@, nonce@, now),
            challenge_result_view(result) == old(self)@.issue_outcome(
                registry@,
                identifier@,
                nonce@,
                now,
            ),
    {
        if !registry.is_bound(identifier) {
            return Err(AuthError::UnknownAccount);
        }
        let challenge = Challenge {
            identifier: copy_text(identifier),
            nonce: nonce,
            issued_at: now,
            expires_at: deadline_after(now, self.ttl),
            consumed: false,
        };
        let issued = challenge.clone();
        let ghost before = challenge_views(self.entries@);
        match self.position(identifier) {
            Some(i) => {
                self.entries.set(i, challenge);
                proof {
                    assert(before[i as int] == old(self).entries@[i as int]@);
                    by_account_update(before, i as int, issued@);
                    assert(challenge_views(self.entries@) =~= before.update(i as int, issued@));
                }
            },
            None => {
                self.entries.push(challenge);
                proof {
                    by_account_push(before, issued@);
                    assert(challenge_views(self.entries@) =~= before.push(issued@));
                }
            },
        }
        Ok(issued)
    }

    /// Takes out every challenge that has run out at the moment `now`, so
    /// that challenges nobody answers do not pile up. What still runs is left
    /// as it is.
    pub fn purge_expired(&mut self, now: u64)
        requires
            old(self).wf(),
        ensures
            final(self).wf(),
            final(self)@ == old(self)@.purge(now),
    {
        let ghost before = old(self)@.active;
        let mut i: usize = 0;
        while i < self.entries.len()
            invariant
                i <= self.entries@.len(),
                self.ttl == old(self).ttl,
                before == old(self)@.active,
                old(self)@.wf(),
                one_per_account(challenge_views(self.entries@)),
                forall|identifier: Seq<char>| #[trigger]
                    self@.active.contains_key(identifier) ==> before.contains_key(identifier)
                        && self@.active[identifier] == before[identifier],
                forall|identifier: Seq<char>| #[trigger]
                    before.contains_key(identifier) && now <= before[identifier].expires_at
                        ==> self@.active.contains_key(identifier),
                forall|k: int|
                    0 <= k < i ==> now <= (#[trigger] challenge_views(self.entries@)[k]).expires_at,
            decreases self.entries@.len() - i,
        {
            let ghost views = challenge_views(self.entries@);
            proof {
                assert(views[i as int] == self.entries@[i as int]@);
                by_account_at(views, i as int);
            }
            let ghost current = self@.active;
            if now > self.entries[i].expires_at {
                self.entries.remove(i);
                proof {
                    by_account_remove(views, i as int);
                    let after = challenge_views(self.entries@);
                    assert(after =~= views.remove(i as int));
                    assert(self@.active == current.remove(views[i as int].identifier));
                    assert forall|k: int| 0 <= k < i implies now <= (
                    #[trigger] after[k]).expires_at by {
                        assert(after[k] == views[k]);
                    }
                }
            } else {
                i += 1;
            }
        }
        proof {
            let views = challenge_views(self.entries@);
            assert forall|identifier: Seq<char>|
                self@.active.contains_key(identifier) implies now
                <= before[identifier].expires_at by {
                let k = choose|k: int|
                    0 <= k < views.len() && (#[trigger] views[k]).identifier == identifier;
                by_account_at(views, k);
            }
            assert(self@.active =~= old(self)@.purge(now).active);
        }
    }

    /// Consumes the challenge of `identifier`, as of the moment `now`.
    ///
    /// Fails with `NotFound` where none is stored, with `Expired` where the
    /// stored one is past its deadline, and with `Mismatch` where its nonce is
    /// not `expected_nonce`. On success the challenge leaves the store in the
    /// same step and is returned, marked as used: a second call finds nothing.
    /// An expired challenge leaves the store too; a wrong nonce leaves the
    /// challenge in place.
    pub fn consume(
        &mut self,
        identifier: &str,
        expected_nonce: &[u8],
        now: u64,
    ) -> (result: Result<Challenge, AuthError>)
        requires
            old(self).wf(),
        ensures
            final(self).wf(),
            final(self)@ == old(self)@.consume(identifier@, expected_nonce@, now),
            challenge_result_view(result) == old(self)@.consume_outcome(
                identifier@,
                expected_nonce@,
                now,
            ),
    {
        let ghost before = challenge_views(self.entries@);
        let place = self.position(identifier);
        match place {
            None => Err(AuthError::NotFound),
            Some(i) => {
                proof {
                    assert(before[i as int] == self.entries@[i as int]@);
                    by_account_at(before, i as int);
                }
                if now > self.entries[i].expires_at {
                    self.entries.remove(i);
                    proof {
                        by_account_remove(before, i as int);
                        assert(challenge_views(self.entries@) =~= before.remove(i as int));
                    }
                    return Err(AuthError::Expired);
                }
                if !same_bytes(self.entries[i].nonce.as_slice(), expected_nonce) {
                    return Err(AuthError::Mismatch);
                }
                let mut taken = self.entries.remove(i);
                proof {
                    by_account_remove(before, i as int);
                    assert(challenge_views(self.entries@) =~= before.remove(i as int));
                }
                taken.consumed = true;
                Ok(taken)
            },
        }
    }
}

} // verus!
