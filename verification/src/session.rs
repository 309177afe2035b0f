//! The session issuer: signed, time-bounded credentials that are checked
//! without any stored state.

use crate::bytes::be_bytes;
use crate::bytes::be_bytes_injective;
use crate::bytes::be_bytes_round_trip;
use crate::bytes::copy_bytes;
use crate::bytes::copy_text;
use crate::bytes::push_be_bytes;
use crate::bytes::push_bytes;
use crate::bytes::text_bytes;
use crate::bytes::text_bytes_injective;
use crate::clock::deadline;
use crate::clock::deadline_after;
use crate::error::AuthError;
use crate::signature::ed25519_derive_public;
use crate::signature::ed25519_sign;
use crate::signature::public_half;
use crate::signature::signature_valid;
use crate::signature::signed;
use crate::signature::verify;
use vstd::prelude::*;

verus! {

/// The seconds for which a session holds, unless the issuer is made with
/// another span.
pub const SESSION_TTL: u64 = 900;

/// A credential that proves a successful authentication. It carries all that
/// is needed to check it.
#[derive(Debug)]
pub struct Session {
    pub identifier: String,
    pub issued_at: u64,
    pub expires_at: u64,
    pub signature: Vec<u8>,
}

/// What a [`Session`] holds.
pub ghost struct SessionView {
    pub identifier: Seq<char>,
    pub issued_at: u64,
    pub expires_at: u64,
    pub signature: Seq<u8>,
}

impl View for Session {
    type V = SessionView;

    open spec fn view(&self) -> SessionView {
        SessionView {
            identifier: self.identifier@,
            issued_at: self.issued_at,
            expires_at: self.expires_at,
            signature: self.signature@,
        }
    }
}

impl Clone for Session {
    /// A copy that holds the same values.
    fn clone(&self) -> (copy: Session)
        ensures
            copy@ == self@,
    {
        Session {
            identifier: copy_text(self.identifier.as_str()),
            issued_at: self.issued_at,
            expires_at: self.expires_at,
            signature: copy_bytes(self.signature.as_slice()),
        }
    }
}

/// What issuing answered, as a value.
pub open spec fn session_result_view(
    result: Result<Session, AuthError>,
) -> Result<SessionView, AuthError> {
    match result {
        Ok(session) => Ok(session@),
        Err(error) => Err(error),
    }
}

/// What checking a session answered, as a value.
pub open spec fn identifier_result_view(
    result: Result<String, AuthError>,
) -> Result<Seq<char>, AuthError> {
    match result {
        Ok(identifier) => Ok(identifier@),
        Err(error) => Err(error),
    }
}

/// The bytes that a session's signature covers: both moments, eight bytes
/// each, then the identifier.
pub open spec fn session_message(
    identifier: Seq<char>,
    issued_at: u64,
    expires_at: u64,
) -> Seq<u8> {
    be_bytes(issued_at) + be_bytes(expires_at) + text_bytes(identifier)
}

/// The signed bytes say one thing only: two sessions with the same signed
/// bytes name the same account and run from and to the same moments.
pub proof fn session_message_is_unambiguous(
    identifier: Seq<char>,
    issued_at: u64,
    expires_at: u64,
    other_identifier: Seq<char>,
    other_issued_at: u64,
    other_expires_at: u64,
)
    requires
        session_message(identifier, issued_at, expires_at) == session_message(
            other_identifier,
            other_issued_at,
            other_expires_at,
        ),
    ensures
        identifier == other_identifier,
        issued_at == other_issued_at,
        expires_at == other_expires_at,
{
    let one = session_message(identifier, issued_at, expires_at);
    let other = session_message(other_identifier, other_issued_at, other_expires_at);
    be_bytes_round_trip(issued_at);
    be_bytes_round_trip(expires_at);
    be_bytes_round_trip(other_issued_at);
    be_bytes_round_trip(other_expires_at);
    assert(one.subrange(0, 8) =~= be_bytes(issued_at));
    assert(other.subrange(0, 8) =~= be_bytes(other_issued_at));
    assert(one.subrange(8, 16) =~= be_bytes(expires_at));
    assert(other.subrange(8, 16) =~= be_bytes(other_expires_at));
    assert(one.subrange(16, one.len() as int) =~= text_bytes(identifier));
    assert(other.subrange(16, other.len() as int) =~= text_bytes(other_identifier));
    be_bytes_injective(issued_at, other_issued_at);
    be_bytes_injective(expires_at, other_expires_at);
    text_bytes_injective(identifier, other_identifier);
}

/// The issuer as a value: the seed of its signing key and the span for which
/// its sessions hold.
pub ghost struct IssuerView {
    pub seed: Seq<u8>,
    pub ttl: u64,
}

impl IssuerView {
    /// Whether the signature of `session` is this issuer's, over what the
    /// session says.
    pub open spec fn accepts(self, session: SessionView) -> bool {
        match public_half(self.seed) {
            Some(key) => signature_valid(
                key,
                session_message(session.identifier, session.issued_at, session.expires_at),
                session.signature,
            ),
            None => false,
        }
    }

    /// What issuing answers: a session for `identifier` that runs from `now`
    /// for the issuer's span and that the issuer itself accepts. Without a
    /// usable signing key there is none.
    pub open spec fn issue(
        self,
        identifier: Seq<char>,
        now: u64,
    ) -> Result<SessionView, AuthError> {
        let expires_at = deadline(now, self.ttl);
        match signed(self.seed, session_message(identifier, now, expires_at)) {
            Some(signature) => {
                let session = SessionView {
                    identifier: identifier,
                    issued_at: now,
                    expires_at: expires_at,
                    signature: signature,
                };
                if self.accepts(session) {
                    Ok(session)
                } else {
                    Err(AuthError::InternalError)
                }
            },
            None => Err(AuthError::InternalError),
        }
    }

    /// What checking a session answers at the moment `now`: the identifier
    /// that it was issued for, unless the signature is not the issuer's or the
    /// session is past its end.
    pub open spec fn verify(self, session: SessionView, now: u64) -> Result<Seq<char>, AuthError> {
        if !self.accepts(session) {
            Err(AuthError::InvalidSignature)
        } else if now > session.expires_at {
            Err(AuthError::Expired)
        } else {
            Ok(session.identifier)
        }
    }
}

/// A session that was issued for an identifier is accepted, with that
/// identifier, at every moment up to its end, and refused as expired at every
/// moment after it.
pub proof fn issued_session_verifies_until_it_expires(
    issuer: IssuerView,
    identifier: Seq<char>,
    issued_at: u64,
    now: u64,
)
    requires
        issuer.issue(identifier, issued_at) is Ok,
    ensures
        ({
            let session = issuer.issue(identifier, issued_at)->Ok_0;
            &&& session.identifier == identifier
            &&& session.issued_at == issued_at
            &&& session.expires_at == deadline(issued_at, issuer.ttl)
            &&& now <= session.expires_at ==> issuer.verify(session, now) == Ok::<
                Seq<char>,
                AuthError,
            >(identifier)
            &&& now > session.expires_at ==> issuer.verify(session, now) == Err::<
                Seq<char>,
                AuthError,
            >(AuthError::Expired)
        }),
{
}

/// The session issuer. It holds the server's signing key.
pub struct SessionIssuer {
    seed: Vec<u8>,
    public_key: Vec<u8>,
    ttl: u64,
}

impl View for SessionIssuer {
    type V = IssuerView;

    closed spec fn view(&self) -> IssuerView {
        IssuerView { seed: self.seed@, ttl: self.ttl }
    }
}

impl SessionIssuer {
    /// Well-formedness: the public key held is the one that belongs to the
    /// seed.
    pub closed spec fn wf(&self) -> bool {
        match public_half(self.seed@) {
            Some(key) => self.public_key@ == key,
            None => true,
        }
    }

    /// An issuer that signs with the key that `seed` stands for and lets each
    /// session hold for `ttl` seconds. A seed of the wrong length is taken as
    /// it is: the issuer then has no usable key and issues nothing.
    pub fn new(seed: Vec<u8>, ttl: u64) -> (issuer: SessionIssuer)
        ensures
            issuer.wf(),
            issuer@ == (IssuerView { seed: seed@, ttl: ttl }),
    {
        let public_key = match ed25519_derive_public(seed.as_slice()) {
            Some(key) => key,
            None => Vec::new(),
        };
        SessionIssuer { seed, public_key, ttl }
    }

    /// The bytes that the signature of a session covers.
    fn message(identifier: &str, issued_at: u64, expires_at: u64) -> (message: Vec<u8>)
        ensures
            message@ == session_message(identifier@, issued_at, expires_at),
    {
        let mut message: Vec<u8> = Vec::new();
        push_be_bytes(&mut message, issued_at);
        push_be_bytes(&mut message, expires_at);
        push_bytes(&mut message, identifier.as_bytes());
        assert(message@ =~= session_message(identifier@, issued_at, expires_at));
        message
    }

    /// Whether the signature of `session` is this issuer's.
    fn accepts(&self, session: &Session) -> (ok: bool)
        requires
            self.wf(),
        ensures
            ok == self@.accepts(session@),
    {
        if self.seed.len() != 32 {
            return false;
        }
        let message = Self::message(
            session.identifier.as_str(),
            session.issued_at,
            session.expires_at,
        );
        verify(self.public_key.as_slice(), message.as_slice(), session.signature.as_slice())
    }

    /// Issues a session for `identifier` as of the moment `now`.
    ///
    /// The session is signed with the issuer's key and checked against its
    /// public half before it is handed out. Fails with `InternalError` where
    /// the key is unusable.
    pub fn issue(&self, identifier: &str, now: u64) -> (result: Result<Session, AuthError>)
        requires
            self.wf(),
        ensures
            session_result_view(result) == self@.issue(identifier@, now),
    {
        let expires_at = deadline_after(now, self.ttl);
        let message = Self::message(identifier, now, expires_at);
        match ed25519_sign(self.seed.as_slice(), message.as_slice()) {
            Some(signature) => {
                let session = Session {
                    identifier: copy_text(identifier),
                    issued_at: now,
                    expires_at: expires_at,
                    signature: signature,
                };
                if self.accepts(&session) {
                    Ok(session)
                } else {
                    Err(AuthError::InternalError)
                }
            },
            None => Err(AuthError::InternalError),
        }
    }

    /// Checks `session` at the moment `now` and returns the identifier that
    /// it was issued for.
    ///
    /// Fails with `InvalidSignature` where the signature is not the issuer's
    /// over what the session says, and with `Expired` where the session is
    /// past its end.
    pub fn verify(&self, session: &Session, now: u64) -> (result: Result<String, AuthError>)
        requires
            self.wf(),
        ensures
            identifier_result_view(result) == self@.verify(session@, now),
    {
        if !self.accepts(session) {
            return Err(AuthError::InvalidSignature);
        }
        if now > session.expires_at {
            return Err(AuthError::Expired);
        }
        Ok(copy_text(session.identifier.as_str()))
    }
}

} // verus!
