//! The decision core of hotspot provisioning: the configured defaults,
//! the password length rule, and the reading of the activation command's
//! output. Running the network-manager commands is the caller's work.

use crate::utils::text::{spec_contains, str_contains};
use vstd::prelude::*;

verus! {

/// The fewest characters a hotspot password may have.
pub const MIN_HOTSPOT_PASSWORD_CHARS: usize = 8;

/// Marker for a provisioned hotspot; dropping it is the caller's cue to
/// take the hotspot down again.
pub struct Hotspot;

/// The wireless interface used when none is configured.
pub fn default_hotspot_interface() -> (interface: &'static str)
    ensures
        interface@ == "wlan0"@,
{
    "wlan0"
}

/// The network name used when none is configured.
pub fn default_hotspot_ssid() -> (ssid: &'static str)
    ensures
        ssid@ == "Drive-PI"@,
{
    "Drive-PI"
}

/// The password used when none is configured.
pub fn default_hotspot_password() -> (password: &'static str)
    ensures
        password@ == "Drive-PI"@,
{
    "Drive-PI"
}

/// Whether a configured hotspot password is long enough to use.
pub fn hotspot_password_ok(password: &str) -> (ok: bool)
    ensures
        ok == (password@.len() >= MIN_HOTSPOT_PASSWORD_CHARS),
{
    password.unicode_len() >= MIN_HOTSPOT_PASSWORD_CHARS
}

/// Whether the activation command's output reports a running hotspot.
pub fn hotspot_activated(output: &str) -> (activated: bool)
    ensures
        activated == spec_contains(output@, "successfully activated"@),
{
    str_contains(output, "successfully activated")
}

} // verus!
