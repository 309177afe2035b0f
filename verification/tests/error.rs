use dothtml_backend::error::AuthError;

#[test]
fn each_failure_has_its_status() {
    assert_eq!(AuthError::UnknownAccount.status_code(), 404);
    assert_eq!(AuthError::UnboundAccount.status_code(), 409);
    assert_eq!(AuthError::AlreadyBound.status_code(), 409);
    assert_eq!(AuthError::DuplicateKey.status_code(), 409);
    assert_eq!(AuthError::NotFound.status_code(), 404);
    assert_eq!(AuthError::Expired.status_code(), 410);
    assert_eq!(AuthError::Mismatch.status_code(), 401);
    assert_eq!(AuthError::Unauthorized.status_code(), 401);
    assert_eq!(AuthError::UnauthorizedApprover.status_code(), 403);
    assert_eq!(AuthError::AlreadyTerminal.status_code(), 409);
    assert_eq!(AuthError::InvalidSignature.status_code(), 401);
    assert_eq!(AuthError::Malformed.status_code(), 400);
    assert_eq!(AuthError::InternalError.status_code(), 500);
}

#[test]
fn only_an_internal_error_is_worth_a_retry() {
    assert!(AuthError::InternalError.is_retryable());
    for error in [
        AuthError::UnknownAccount,
        AuthError::UnboundAccount,
        AuthError::AlreadyBound,
        AuthError::DuplicateKey,
        AuthError::NotFound,
        AuthError::Expired,
        AuthError::Mismatch,
        AuthError::Unauthorized,
        AuthError::UnauthorizedApprover,
        AuthError::AlreadyTerminal,
        AuthError::InvalidSignature,
        AuthError::Malformed,
    ] {
        assert!(!error.is_retryable());
    }
}

#[test]
fn each_failure_is_reported_under_its_own_name() {
    let all = [
        (AuthError::UnknownAccount, "UnknownAccount"),
        (AuthError::UnboundAccount, "UnboundAccount"),
        (AuthError::AlreadyBound, "AlreadyBound"),
        (AuthError::DuplicateKey, "DuplicateKey"),
        (AuthError::NotFound, "NotFound"),
        (AuthError::Expired, "Expired"),
        (AuthError::Mismatch, "Mismatch"),
        (AuthError::Unauthorized, "Unauthorized"),
        (AuthError::UnauthorizedApprover, "UnauthorizedApprover"),
        (AuthError::AlreadyTerminal, "AlreadyTerminal"),
        (AuthError::InvalidSignature, "InvalidSignature"),
        (AuthError::Malformed, "Malformed"),
        (AuthError::InternalError, "InternalError"),
    ];
    for (error, name) in all {
        assert_eq!(error.name(), name);
    }
    for (i, (_, one)) in all.iter().enumerate() {
        for (_, other) in all.iter().skip(i + 1) {
            assert_ne!(one, other);
        }
    }
}
