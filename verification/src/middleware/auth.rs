//! The request guard in front of protected operations.
//!
//! Per request the guard runs a three-step decision: extract the token
//! header (missing: reject with `MissingToken`, without touching the
//! store); read it as text (unreadable: reject with an opaque server
//! fault); check the token against the store (invalid or expired: reject
//! with `InvalidToken`, otherwise forward). The guard keeps no state of its
//! own between requests; everything it consults lives in the store.

use crate::models::errors::{AuthError, GenericError};
use crate::stores::auth::{check_post, token_valid, AuthStore};
use vstd::prelude::*;

verus! {

/// Name of the request header that carries the session token.
pub fn token_header_name() -> (name: &'static str)
    ensures
        name@ == "X-Token"@,
{
    "X-Token"
}

/// A header byte the guard accepts: visible ASCII.
pub open spec fn header_byte_ok(b: u8) -> bool {
    32 <= b < 127
}

/// A header value the guard can read as text: every byte visible ASCII.
pub open spec fn header_text_ok(raw: Seq<u8>) -> bool {
    forall|i: int| 0 <= i < raw.len() ==> header_byte_ok(#[trigger] raw[i])
}

/// The token a readable header value denotes.
pub open spec fn header_chars(raw: Seq<u8>) -> Seq<char> {
    raw.map_values(|b: u8| b as char)
}

/// The bytes an optional header value holds.
pub open spec fn raw_view(raw: Option<&[u8]>) -> Option<Seq<u8>> {
    match raw {
        Some(bytes) => Some(bytes@),
        None => None,
    }
}

/// Relies on `String::from_utf8`: bytes below 128 are valid UTF-8 and
/// decode to the characters of the same scalar values.
#[verifier::external_body]
fn ascii_to_string(bytes: Vec<u8>) -> (text: String)
    requires
        forall|i: int| 0 <= i < bytes@.len() ==> bytes@[i] < 128,
    ensures
        text@ == bytes@.map_values(|b: u8| b as char),
{
    match String::from_utf8(bytes) {
        Ok(text) => text,
        Err(_) => String::new(),
    }
}

/// Reads the token out of a header value. Every byte must be visible
/// ASCII; anything else is an unreadable header, reported as the opaque
/// server fault.
pub fn header_token(raw: &[u8]) -> (result: Result<String, GenericError>)
    ensures
        match result {
            Ok(token) => header_text_ok(raw@) && token@ == header_chars(raw@),
            Err(fault) => !header_text_ok(raw@) && fault == GenericError::ServerError,
        },
{
    let len = raw.len();
    let mut bytes: Vec<u8> = Vec::new();
    for i in 0..len
        invariant
            len == raw@.len(),
            bytes@ == raw@.subrange(0, i as int),
            forall|j: int| 0 <= j < i ==> header_byte_ok(#[trigger] raw@[j]),
    {
        let b = raw[i];
        if b < 32 || b >= 127 {
            return Err(GenericError::ServerError);
        }
        bytes.push(b);
        proof {
            assert(bytes@ =~= raw@.subrange(0, i + 1));
        }
    }
    proof {
        assert(bytes@ =~= raw@);
    }
    Ok(ascii_to_string(bytes))
}

/// What the guard decides for a request.
#[derive(Debug, Clone, Copy, PartialEq, Eq, Structural)]
pub enum GuardDecision {
    /// The request proceeds, unmodified, to the wrapped operation.
    Forward,
    /// The request is rejected with the given error.
    Reject(AuthError),
}

/// The decision the guard owes for a given store, header value and
/// instant.
pub open spec fn guard_decision(
    m: Map<Seq<char>, u64>,
    raw: Option<Seq<u8>>,
    now: u64,
) -> GuardDecision {
    match raw {
        None => GuardDecision::Reject(AuthError::MissingToken),
        Some(bytes) => if !header_text_ok(bytes) {
            GuardDecision::Reject(AuthError::GenericError(GenericError::ServerError))
        } else if token_valid(m, header_chars(bytes), now) {
            GuardDecision::Forward
        } else {
            GuardDecision::Reject(AuthError::InvalidToken)
        },
    }
}

/// The store the guard leaves behind: only a readable token reaches the
/// store, where an expired entry is evicted by the check.
pub open spec fn guard_post(m: Map<Seq<char>, u64>, raw: Option<Seq<u8>>, now: u64) -> Map<
    Seq<char>,
    u64,
> {
    match raw {
        None => m,
        Some(bytes) => if header_text_ok(bytes) {
            check_post(m, header_chars(bytes), now)
        } else {
            m
        },
    }
}

/// Decides one request against the store: the token header's bytes (or
/// `None` when the header is absent) and the current instant come in, the
/// forwarding decision comes out.
pub fn guard_request(store: &mut AuthStore, raw_token: Option<&[u8]>, now: u64) -> (decision:
    GuardDecision)
    requires
        old(store).wf(),
    ensures
        final(store).wf(),
        decision == guard_decision(old(store).token_map(), raw_view(raw_token), now),
        final(store).token_map() == guard_post(old(store).token_map(), raw_view(raw_token), now),
        final(store).same_credentials(old(store)),
{
    match raw_token {
        None => GuardDecision::Reject(AuthError::MissingToken),
        Some(raw) => match header_token(raw) {
            Err(fault) => GuardDecision::Reject(AuthError::GenericError(fault)),
            Ok(token) => {
                if store.check_token(token.as_str(), now) {
                    GuardDecision::Forward
                } else {
                    GuardDecision::Reject(AuthError::InvalidToken)
                }
            },
        },
    }
}

} // verus!
