//! The decision core of the local DNS redirection setup: the fixed
//! configuration texts, and the idempotent edit of the hosts file.
//! Writing the files and restarting the service is the caller's work.

use crate::utils::text::{spec_contains, str_contains};
use vstd::prelude::*;

verus! {

/// The dnsmasq configuration line that addresses the local domain to
/// this machine.
pub fn config_contents() -> (contents: &'static str)
    ensures
        contents@ == "address=/.local/10.42.0.1"@,
{
    "address=/.local/10.42.0.1"
}

/// The hosts-file line that points the appliance's name at this machine.
pub fn hosts_entry() -> (entry: &'static str)
    ensures
        entry@ == "127.0.0.1 drivepi.local"@,
{
    "127.0.0.1 drivepi.local"
}

/// Adds the hosts-file entry to the given contents, once: contents that
/// already hold the entry come back unchanged, anything else gains the
/// entry on a line of its own.
pub fn hosts_with_entry(contents: String) -> (updated: String)
    ensures
        spec_contains(contents@, "127.0.0.1 drivepi.local"@) ==> updated@ == contents@,
        !spec_contains(contents@, "127.0.0.1 drivepi.local"@) ==> updated@ == contents@ + "\n"@
            + "127.0.0.1 drivepi.local"@ + "\n"@,
{
    let entry = hosts_entry();
    if str_contains(contents.as_str(), entry) {
        contents
    } else {
        let mut updated = contents;
        updated.append("\n");
        updated.append(entry);
        updated.append("\n");
        updated
    }
}

} // verus!
