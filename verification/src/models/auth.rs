//! Request and response bodies of the session endpoints.

use vstd::prelude::*;

verus! {

/// Body of a request to create a session.
pub struct AuthRequest {
    /// Username credential.
    pub username: String,
    /// Password credential.
    pub password: String,
}

/// Body of the response to a successful session creation.
#[derive(Debug)]
pub struct TokenDataResponse {
    /// The token string to send in the token header.
    pub token: String,
    /// The instant the token expires, in milliseconds since the epoch.
    pub expiry_time: u128,
}

/// Body of the response to a session inspection.
#[derive(Debug)]
pub struct CheckResponse {
    /// Whether the token is live.
    pub valid: bool,
    /// The expiry instant of a live token, in milliseconds since the
    /// epoch; absent for a token that is not live.
    pub expiry_time: Option<u128>,
}

} // verus!
