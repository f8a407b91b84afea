use assetlab::auth::{require_admin_bearer, AuthRejection};
use assetlab::error::AppError;

#[test]
fn admin_token_passes() {
    assert!(require_admin_bearer("s3cret", Some(b"Bearer s3cret")).is_ok());
    assert!(require_admin_bearer("s3cret", Some(b"Bearer   s3cret \t")).is_ok());
}

#[test]
fn unconfigured_server_rejects_everything() {
    assert!(require_admin_bearer("", Some(b"Bearer ")) == Err(AuthRejection::NotConfigured));
    assert!(require_admin_bearer("", None) == Err(AuthRejection::NotConfigured));
}

#[test]
fn missing_or_malformed_header() {
    assert!(require_admin_bearer("t", None) == Err(AuthRejection::MissingHeader));
    assert!(require_admin_bearer("t", Some(b"Basic t")) == Err(AuthRejection::MissingHeader));
    assert!(require_admin_bearer("t", Some(b"bearer t")) == Err(AuthRejection::MissingHeader));
    assert!(require_admin_bearer("t", Some(b"Bearer")) == Err(AuthRejection::MissingHeader));
    // Bytes that are not visible ASCII make the header unreadable.
    assert!(require_admin_bearer("t", Some(b"Bearer t\x80")) == Err(AuthRejection::MissingHeader));
}

#[test]
fn wrong_token() {
    assert!(require_admin_bearer("t", Some(b"Bearer u")) == Err(AuthRejection::InvalidToken));
    assert!(require_admin_bearer("t", Some(b"Bearer ")) == Err(AuthRejection::InvalidToken));
    assert!(require_admin_bearer("t", Some(b"Bearer tt")) == Err(AuthRejection::InvalidToken));
}

#[test]
fn rejection_answers() {
    let r = AuthRejection::NotConfigured.into_response();
    assert_eq!((r.status, r.message.as_str()), (500, "Server auth not configured"));
    let r = AuthRejection::MissingHeader.into_response();
    assert_eq!((r.status, r.message.as_str()), (401, "Missing or invalid Authorization header"));
    let r = AuthRejection::InvalidToken.into_response();
    assert_eq!((r.status, r.message.as_str()), (401, "Invalid token"));
}

#[test]
fn error_answers() {
    let r = AppError::MissingFile.into_response();
    assert_eq!((r.status, r.message.as_str()), (400, "Missing file field"));
    let r = AppError::NotFound.into_response();
    assert_eq!((r.status, r.message.as_str()), (404, "not found"));
    let r = AppError::S3("timeout".to_string()).into_response();
    assert_eq!((r.status, r.message.as_str()), (502, "S3 upload failed: timeout"));
}
