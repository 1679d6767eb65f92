//! Tests of the session endpoints and of the request guard, following the
//! externally visible protocol: create a session, inspect it, end it, and
//! hold a protected operation behind the guard.

use drive_pi::middleware::auth::{guard_request, header_token, token_header_name, GuardDecision};
use drive_pi::models::auth::AuthRequest;
use drive_pi::models::errors::{AuthError, GenericError};
use drive_pi::routes::auth::{auth, check_auth, delete_token};
use drive_pi::stores::auth::AuthStore;

const NOW: u64 = 1_000;

fn default_store() -> AuthStore {
    AuthStore::new(None, None)
}

fn admin_request() -> AuthRequest {
    AuthRequest { username: String::from("admin"), password: String::from("admin") }
}

#[test]
fn token_header_is_x_token() {
    assert_eq!(token_header_name(), "X-Token");
}

#[test]
fn create_session_with_default_credentials() {
    let mut store = default_store();
    let resp = auth(&mut store, &admin_request(), NOW).unwrap();
    assert_eq!(resp.token.chars().count(), 48);
    assert_eq!(resp.expiry_time, (NOW + 18_000_000) as u128);
}

#[test]
fn create_session_with_wrong_password() {
    let mut store = default_store();
    let body = AuthRequest { username: String::from("admin"), password: String::from("wrong") };
    let err = auth(&mut store, &body, NOW).unwrap_err();
    assert_eq!(err, AuthError::InvalidCredentials);
    assert_eq!(err.status_code(), 401);
}

#[test]
fn check_session_without_header() {
    let store = default_store();
    let err = check_auth(&store, None).unwrap_err();
    assert_eq!(err, AuthError::MissingToken);
    assert_eq!(err.status_code(), 400);
}

#[test]
fn check_session_with_issued_token() {
    let mut store = default_store();
    let resp = auth(&mut store, &admin_request(), NOW).unwrap();
    let check = check_auth(&store, Some(resp.token.as_bytes())).unwrap();
    assert!(check.valid);
    assert_eq!(check.expiry_time, Some(resp.expiry_time));
}

#[test]
fn check_session_after_revocation() {
    let mut store = default_store();
    let resp = auth(&mut store, &admin_request(), NOW).unwrap();
    delete_token(&mut store, Some(resp.token.as_bytes())).unwrap();
    let check = check_auth(&store, Some(resp.token.as_bytes())).unwrap();
    assert!(!check.valid);
    assert_eq!(check.expiry_time, None);
}

#[test]
fn revoked_token_rejected_by_guard_as_unauthorized() {
    let mut store = default_store();
    let resp = auth(&mut store, &admin_request(), NOW).unwrap();
    delete_token(&mut store, Some(resp.token.as_bytes())).unwrap();
    let decision = guard_request(&mut store, Some(resp.token.as_bytes()), NOW);
    assert_eq!(decision, GuardDecision::Reject(AuthError::InvalidToken));
    assert_eq!(AuthError::InvalidToken.status_code(), 401);
    assert_ne!(AuthError::InvalidToken.status_code(), 400);
}

#[test]
fn delete_session_without_header() {
    let mut store = default_store();
    let err = delete_token(&mut store, None).unwrap_err();
    assert_eq!(err, AuthError::MissingToken);
}

#[test]
fn delete_session_with_unknown_token() {
    let mut store = default_store();
    delete_token(&mut store, Some(b"unknown-token".as_slice())).unwrap();
}

#[test]
fn guard_forwards_live_token() {
    let mut store = default_store();
    let resp = auth(&mut store, &admin_request(), NOW).unwrap();
    let decision = guard_request(&mut store, Some(resp.token.as_bytes()), NOW);
    assert_eq!(decision, GuardDecision::Forward);
}

#[test]
fn guard_rejects_missing_header() {
    let mut store = default_store();
    let decision = guard_request(&mut store, None, NOW);
    assert_eq!(decision, GuardDecision::Reject(AuthError::MissingToken));
    assert_eq!(AuthError::MissingToken.status_code(), 400);
}

#[test]
fn guard_rejects_expired_token_and_evicts_it() {
    let mut store = default_store();
    let resp = auth(&mut store, &admin_request(), NOW).unwrap();
    let later = resp.expiry_time as u64;
    let decision = guard_request(&mut store, Some(resp.token.as_bytes()), later);
    assert_eq!(decision, GuardDecision::Reject(AuthError::InvalidToken));
    assert_eq!(store.get_token_expiry(&resp.token), None);
}

#[test]
fn guard_rejects_unreadable_header_as_fault() {
    let mut store = default_store();
    let raw = [0x58, 0xff, 0x01];
    let decision = guard_request(&mut store, Some(raw.as_slice()), NOW);
    assert_eq!(
        decision,
        GuardDecision::Reject(AuthError::GenericError(GenericError::ServerError))
    );
    assert_eq!(GenericError::ServerError.status_code(), 500);
}

#[test]
fn check_session_with_unreadable_header() {
    let store = default_store();
    let err = check_auth(&store, Some([0x09u8].as_slice())).unwrap_err();
    assert_eq!(err, AuthError::GenericError(GenericError::ServerError));
    assert_eq!(err.status_code(), 500);
}

#[test]
fn header_token_reads_visible_ascii() {
    let token = header_token(b"abc-XYZ-019".as_slice()).unwrap();
    assert_eq!(token, "abc-XYZ-019");
}

#[test]
fn header_token_rejects_control_bytes() {
    let err = header_token(b"abc\ndef".as_slice()).unwrap_err();
    assert_eq!(err, GenericError::ServerError);
}
