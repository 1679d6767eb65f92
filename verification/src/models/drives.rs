//! Bodies of the drive listing and mounting endpoints.

use vstd::prelude::*;

verus! {

/// A block device partition as reported by the system's device listing.
pub struct Drive {
    /// Filesystem UUID.
    pub uuid: String,
    /// Device name, such as `sda1`.
    pub name: String,
    /// Filesystem label.
    pub label: String,
    /// Path to the device node, such as `/dev/sda1`.
    pub path: String,
    /// Mounted file system path; absent when the drive is not mounted.
    pub mount: Option<String>,
    /// Filesystem capacity; absent when the drive is not mounted.
    pub size: Option<String>,
    /// Filesystem used size; absent when the drive is not mounted.
    pub used: Option<String>,
    /// Filesystem mount mode string.
    pub mode: String,
}

/// The response to a drive listing: the drives and the directory under
/// which they are mounted.
pub struct DrivesResponse {
    /// The drives kept by the listing.
    pub drives: Vec<Drive>,
    /// The mount root on the file system.
    pub mount_root: String,
}

/// Body of a request to mount or unmount a drive.
pub struct MountRequest {
    /// The drive path, such as `/dev/sda1`.
    pub path: String,
    /// The name of the folder to mount the drive to.
    pub name: String,
}

} // verus!
