//! Authentication core and request-decision logic for a small
//! drive-mounting appliance controller.
//!
//! The heart of the crate is the token store in [`stores::auth`]: credential
//! checking, token issuance with a freshness guarantee, lazy expiry eviction,
//! and revocation, all specified over a map from token strings to expiry
//! instants. The session endpoints in [`routes::auth`] and the request guard in
//! [`middleware::auth`] are decision functions over plain values; the
//! surrounding HTTP server, clock and process plumbing live outside the
//! library and hand values in.

pub mod middleware;
pub mod models;
pub mod routes;
pub mod stores;
pub mod utils;
