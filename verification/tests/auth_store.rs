//! Tests of the authentication store: credential checking, issuance,
//! expiry, lazy eviction and revocation, all against an injected clock.

use drive_pi::stores::auth::{AuthStore, TOKEN_EXPIRY_MILLIS, TOKEN_LENGTH};
use drive_pi::utils::create_character_set;

const NOW: u64 = 1_000;

fn default_store() -> AuthStore {
    AuthStore::new(None, None)
}

#[test]
fn default_credentials_accepted() {
    let store = default_store();
    assert!(store.is_credentials(&String::from("admin"), &String::from("admin")));
}

#[test]
fn other_credentials_rejected() {
    let store = default_store();
    assert!(!store.is_credentials(&String::from("admin"), &String::from("wrong")));
    assert!(!store.is_credentials(&String::from("root"), &String::from("admin")));
    assert!(!store.is_credentials(&String::from(""), &String::from("")));
}

#[test]
fn configured_credentials_override_defaults() {
    let store = AuthStore::new(Some(String::from("user")), Some(String::from("secret")));
    assert!(store.is_credentials(&String::from("user"), &String::from("secret")));
    assert!(!store.is_credentials(&String::from("admin"), &String::from("admin")));
}

#[test]
fn issued_token_has_expected_shape() {
    let mut store = default_store();
    let data = store.create_token(NOW);
    assert_eq!(data.expiry_time, NOW + TOKEN_EXPIRY_MILLIS);
    assert_eq!(data.expiry_time, NOW + 18_000_000);
    assert_eq!(data.token.chars().count(), TOKEN_LENGTH);
    let charset = create_character_set();
    for c in data.token.chars() {
        assert!(charset.contains(&c));
    }
}

#[test]
fn successive_tokens_are_distinct() {
    let mut store = default_store();
    let first = store.create_token(NOW);
    let second = store.create_token(NOW);
    let third = store.create_token(NOW + 5);
    assert_ne!(first.token, second.token);
    assert_ne!(first.token, third.token);
    assert_ne!(second.token, third.token);
}

#[test]
fn many_tokens_all_distinct() {
    let mut store = default_store();
    let mut tokens: Vec<String> = Vec::new();
    for _ in 0..32 {
        tokens.push(store.create_token(NOW).token);
    }
    for i in 0..tokens.len() {
        for j in 0..i {
            assert_ne!(tokens[i], tokens[j]);
        }
    }
}

#[test]
fn token_valid_before_expiry_invalid_after() {
    let mut store = default_store();
    let data = store.create_token(NOW);
    assert!(store.check_token(&data.token, NOW));
    assert!(store.check_token(&data.token, data.expiry_time - 1));
    assert!(!store.check_token(&data.token, data.expiry_time));
}

#[test]
fn token_invalid_past_expiry() {
    let mut store = default_store();
    let data = store.create_token(NOW);
    assert!(!store.check_token(&data.token, data.expiry_time + 1));
}

#[test]
fn expired_check_evicts_record() {
    let mut store = default_store();
    let data = store.create_token(NOW);
    assert_eq!(store.get_token_expiry(&data.token), Some(data.expiry_time));
    assert!(!store.check_token(&data.token, data.expiry_time));
    assert_eq!(store.get_token_expiry(&data.token), None);
}

#[test]
fn peek_does_not_evict() {
    let mut store = default_store();
    let data = store.create_token(NOW);
    assert_eq!(store.get_token_expiry(&data.token), Some(data.expiry_time));
    assert_eq!(store.get_token_expiry(&data.token), Some(data.expiry_time));
}

#[test]
fn unknown_token_reports_invalid() {
    let mut store = default_store();
    assert!(!store.check_token("no-such-token", NOW));
    assert_eq!(store.get_token_expiry("no-such-token"), None);
}

#[test]
fn revoke_removes_token() {
    let mut store = default_store();
    let data = store.create_token(NOW);
    store.remove_token(&data.token);
    assert_eq!(store.get_token_expiry(&data.token), None);
    assert!(!store.check_token(&data.token, NOW));
}

#[test]
fn revoke_absent_token_is_noop() {
    let mut store = default_store();
    let kept = store.create_token(NOW);
    store.remove_token("never-issued");
    assert_eq!(store.get_token_expiry(&kept.token), Some(kept.expiry_time));
    assert!(store.check_token(&kept.token, NOW));
}

#[test]
fn revoke_leaves_other_tokens() {
    let mut store = default_store();
    let first = store.create_token(NOW);
    let second = store.create_token(NOW + 7);
    store.remove_token(&first.token);
    assert_eq!(store.get_token_expiry(&first.token), None);
    assert_eq!(store.get_token_expiry(&second.token), Some(second.expiry_time));
}
