//! The failures that the authentication operations report.

use vstd::prelude::*;
use vstd::string::StringExecFns;

verus! {

/// Why an operation was refused. Each variant is reported as itself and never
/// folded into another: callers react differently to each.
#[derive(Clone, Copy, Debug, PartialEq, Eq, Structural)]
pub enum AuthError {
    /// The identifier names no account.
    UnknownAccount,
    /// The account exists but no device is bound to it yet.
    UnboundAccount,
    /// The candidate key is already bound to the identifier.
    AlreadyBound,
    /// The key registry already holds this key under this identifier.
    DuplicateKey,
    /// No challenge, or no confirmation request, is stored under that name.
    NotFound,
    /// The challenge, confirmation request or session is past its deadline.
    Expired,
    /// The nonce handed in is not the one that was issued.
    Mismatch,
    /// No bound device signed the challenge.
    Unauthorized,
    /// The approver is not a bound device of the account, or its proof fails.
    UnauthorizedApprover,
    /// The confirmation request was already approved or rejected.
    AlreadyTerminal,
    /// The session's signature is not the issuer's.
    InvalidSignature,
    /// A key or a signature is not of the expected form.
    Malformed,
    /// The signing key is unusable or storage is exhausted.
    InternalError,
}

impl AuthError {
    /// The HTTP status under which the failure is reported.
    pub open spec fn spec_status_code(self) -> u16 {
        match self {
            AuthError::UnknownAccount => 404,
            AuthError::UnboundAccount => 409,
            AuthError::AlreadyBound => 409,
            AuthError::DuplicateKey => 409,
            AuthError::NotFound => 404,
            AuthError::Expired => 410,
            AuthError::Mismatch => 401,
            AuthError::Unauthorized => 401,
            AuthError::UnauthorizedApprover => 403,
            AuthError::AlreadyTerminal => 409,
            AuthError::InvalidSignature => 401,
            AuthError::Malformed => 400,
            AuthError::InternalError => 500,
        }
    }

    /// Whether a caller may try the same request again: only an internal
    /// failure is transient, every other refusal is final for the request.
    pub open spec fn spec_is_retryable(self) -> bool {
        self == AuthError::InternalError
    }

    /// The name under which the failure is reported.
    pub open spec fn spec_name(self) -> Seq<char> {
        match self {
            AuthError::UnknownAccount => "UnknownAccount"@,
            AuthError::UnboundAccount => "UnboundAccount"@,
            AuthError::AlreadyBound => "AlreadyBound"@,
            AuthError::DuplicateKey => "DuplicateKey"@,
            AuthError::NotFound => "NotFound"@,
            AuthError::Expired => "Expired"@,
            AuthError::Mismatch => "Mismatch"@,
            AuthError::Unauthorized => "Unauthorized"@,
            AuthError::UnauthorizedApprover => "UnauthorizedApprover"@,
            AuthError::AlreadyTerminal => "AlreadyTerminal"@,
            AuthError::InvalidSignature => "InvalidSignature"@,
            AuthError::Malformed => "Malformed"@,
            AuthError::InternalError => "InternalError"@,
        }
    }

    /// The name under which the failure is reported.
    pub fn name(self) -> (name: String)
        ensures
            name@ == self.spec_name(),
    {
        let text = match self {
            AuthError::UnknownAccount => "UnknownAccount",
            AuthError::UnboundAccount => "UnboundAccount",
            AuthError::AlreadyBound => "AlreadyBound",
            AuthError::DuplicateKey => "DuplicateKey",
            AuthError::NotFound => "NotFound",
            AuthError::Expired => "Expired",
            AuthError::Mismatch => "Mismatch",
            AuthError::Unauthorized => "Unauthorized",
            AuthError::UnauthorizedApprover => "UnauthorizedApprover",
            AuthError::AlreadyTerminal => "AlreadyTerminal",
            AuthError::InvalidSignature => "InvalidSignature",
            AuthError::Malformed => "Malformed",
            AuthError::InternalError => "InternalError",
        };
        String::from_str(text)
    }

    #[verifier::when_used_as_spec(spec_status_code)]
    pub fn status_code(self) -> (code: u16)
        ensures
            code == self.spec_status_code(),
    {
        match self {
            AuthError::UnknownAccount => 404,
            AuthError::UnboundAccount => 409,
            AuthError::AlreadyBound => 409,
            AuthError::DuplicateKey => 409,
            AuthError::NotFound => 404,
            AuthError::Expired => 410,
            AuthError::Mismatch => 401,
            AuthError::Unauthorized => 401,
            AuthError::UnauthorizedApprover => 403,
            AuthError::AlreadyTerminal => 409,
            AuthError::InvalidSignature => 401,
            AuthError::Malformed => 400,
            AuthError::InternalError => 500,
        }
    }

    #[verifier::when_used_as_spec(spec_is_retryable)]
    pub fn is_retryable(self) -> (retry: bool)
        ensures
            retry == self.spec_is_retryable(),
    {
        match self {
            AuthError::InternalError => true,
            _ => false,
        }
    }
}

} // verus!
