//! The three session endpoints: create, inspect and end a session.
//!
//! Each endpoint is a decision function over plain values: the parsed
//! request body or token header comes in, the response body or error comes
//! out, and the store is the only state touched. Inspection deliberately
//! differs from the guard: an invalid or expired token is reported as a
//! normal result with `valid: false`, not rejected.

use crate::middleware::auth::{header_chars, header_text_ok, header_token, raw_view};
use crate::models::auth::{AuthRequest, CheckResponse, TokenDataResponse};
use crate::models::errors::{AuthError, GenericError};
use crate::stores::auth::{issue_step, AuthStore, TOKEN_EXPIRY_MILLIS, TOKEN_LENGTH};
use crate::utils::spec_token_charset;
use vstd::prelude::*;

verus! {

/// Creates a session: with the configured credentials a fresh token is
/// issued, expiring five hours from `now`; with any other pair the
/// request is rejected as `InvalidCredentials` and the store is left
/// untouched.
pub fn auth(store: &mut AuthStore, body: &AuthRequest, now: u64) -> (result: Result<
    TokenDataResponse,
    AuthError,
>)
    requires
        old(store).wf(),
        now + TOKEN_EXPIRY_MILLIS <= u64::MAX,
    ensures
        final(store).wf(),
        final(store).same_credentials(old(store)),
        result matches Ok(resp) ==> {
            &&& body.username@ == old(store).spec_username()
            &&& body.password@ == old(store).spec_password()
            &&& resp.expiry_time == (now + TOKEN_EXPIRY_MILLIS) as u128
            &&& resp.token@.len() == TOKEN_LENGTH
            &&& forall|i: int|
                0 <= i < resp.token@.len() ==> spec_token_charset().contains(
                    #[trigger] resp.token@[i],
                )
            &&& issue_step(old(store).token_map(), final(store).token_map(), resp.token@, now)
        },
        result matches Err(e) ==> {
            &&& e == AuthError::InvalidCredentials
            &&& !(body.username@ == old(store).spec_username() && body.password@ == old(
                store,
            ).spec_password())
            &&& final(store).token_map() == old(store).token_map()
        },
{
    let is_credentials = store.is_credentials(&body.username, &body.password);
    if is_credentials {
        let token_data = store.create_token(now);
        Ok(
            TokenDataResponse {
                token: token_data.token,
                expiry_time: token_data.expiry_time as u128,
            },
        )
    } else {
        Err(AuthError::InvalidCredentials)
    }
}

/// Inspects a session: reports whether the token is live and, for a live
/// token, its expiry instant. A missing header is rejected; an unreadable
/// header is an opaque fault; an absent token is an ordinary result with
/// `valid: false`, never a rejection. The store is not changed, so an
/// expired-but-unevicted token is still reported live here.
pub fn check_auth(store: &AuthStore, raw_token: Option<&[u8]>) -> (result: Result<
    CheckResponse,
    AuthError,
>)
    requires
        store.wf(),
    ensures
        raw_token is None ==> result == Err::<CheckResponse, AuthError>(AuthError::MissingToken),
        raw_view(raw_token) matches Some(bytes) ==> if header_text_ok(bytes) {
            result matches Ok(resp) && {
                let token = header_chars(bytes);
                &&& resp.valid == store.token_map().contains_key(token)
                &&& resp.expiry_time == if store.token_map().contains_key(token) {
                    Some(store.token_map()[token] as u128)
                } else {
                    None::<u128>
                }
            }
        } else {
            result == Err::<CheckResponse, AuthError>(
                AuthError::GenericError(GenericError::ServerError),
            )
        },
{
    match raw_token {
        None => Err(AuthError::MissingToken),
        Some(raw) => match header_token(raw) {
            Err(fault) => Err(AuthError::GenericError(fault)),
            Ok(token) => match store.get_token_expiry(token.as_str()) {
                Some(expiry_time) => Ok(
                    CheckResponse { valid: true, expiry_time: Some(expiry_time as u128) },
                ),
                None => Ok(CheckResponse { valid: false, expiry_time: None }),
            },
        },
    }
}

/// Ends a session: the token, if present in the store, is removed; ending
/// a session with an unknown token succeeds all the same. A missing
/// header is rejected and an unreadable header is an opaque fault, both
/// leaving the store untouched.
pub fn delete_token(store: &mut AuthStore, raw_token: Option<&[u8]>) -> (result: Result<
    (),
    AuthError,
>)
    requires
        old(store).wf(),
    ensures
        final(store).wf(),
        final(store).same_credentials(old(store)),
        raw_token is None ==> result == Err::<(), AuthError>(AuthError::MissingToken)
            && final(store).token_map() == old(store).token_map(),
        raw_view(raw_token) matches Some(bytes) ==> if header_text_ok(bytes) {
            result == Ok::<(), AuthError>(()) && final(store).token_map() == old(
                store,
            ).token_map().remove(header_chars(bytes))
        } else {
            result == Err::<(), AuthError>(AuthError::GenericError(GenericError::ServerError))
                && final(store).token_map() == old(store).token_map()
        },
{
    match raw_token {
        None => Err(AuthError::MissingToken),
        Some(raw) => match header_token(raw) {
            Err(fault) => Err(AuthError::GenericError(fault)),
            Ok(token) => {
                store.remove_token(token.as_str());
                Ok(())
            },
        },
    }
}

} // verus!
