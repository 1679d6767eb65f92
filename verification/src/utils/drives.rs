//! The decision core of the drive listing and of mount error handling.
//!
//! The system's block-device listing comes in already parsed, as plain
//! values; what is verified here is which devices and partitions the
//! listing keeps: loopback devices are dropped, and so are partitions
//! mounted at the root of the system or under its boot directory.

use crate::models::drives::{Drive, DrivesResponse};
use crate::models::errors::DrivesError;
use crate::utils::text::{spec_contains, str_contains, str_eq, str_starts_with};
use vstd::prelude::*;

verus! {

/// The directory, relative to the working directory, under which drives
/// are mounted.
pub fn mount_dir_name() -> (name: &'static str)
    ensures
        name@ == "mount"@,
{
    "mount"
}

/// A top-level block device with the partitions listed under it.
pub struct BlockDevice {
    /// Device name, such as `sda`.
    pub name: String,
    /// The partitions of the device, when it has any.
    pub children: Option<Vec<Drive>>,
}

/// The parsed output of the system's block-device listing.
pub struct LSBLKOutput {
    /// The listed block devices.
    pub devices: Vec<BlockDevice>,
}

/// A device the listing keeps: anything but a loopback device.
pub open spec fn device_kept(device: BlockDevice) -> bool {
    !"loop"@.is_prefix_of(device.name@)
}

/// A partition the listing keeps: one not mounted at the system root or
/// under the boot directory.
pub open spec fn drive_kept(drive: Drive) -> bool {
    match drive.mount {
        Some(mount) => !(mount@ == "/"@ || "/boot"@.is_prefix_of(mount@)),
        None => true,
    }
}

/// The partitions of one sequence that the listing keeps, in order.
pub open spec fn kept_children(drives: Seq<Drive>) -> Seq<Drive>
    decreases drives.len(),
{
    if drives.len() == 0 {
        Seq::empty()
    } else {
        kept_children(drives.drop_last()) + if drive_kept(drives.last()) {
            seq![drives.last()]
        } else {
            Seq::empty()
        }
    }
}

/// What one device contributes to the listing.
pub open spec fn device_contribution(device: BlockDevice) -> Seq<Drive> {
    if device_kept(device) {
        match device.children {
            Some(children) => kept_children(children@),
            None => Seq::empty(),
        }
    } else {
        Seq::empty()
    }
}

/// The drives a sequence of devices contributes, in order.
pub open spec fn kept_drives(devices: Seq<BlockDevice>) -> Seq<Drive>
    decreases devices.len(),
{
    if devices.len() == 0 {
        Seq::empty()
    } else {
        kept_drives(devices.drop_last()) + device_contribution(devices.last())
    }
}

/// Whether the listing keeps this partition.
fn drive_is_kept(drive: &Drive) -> (kept: bool)
    ensures
        kept == drive_kept(*drive),
{
    match &drive.mount {
        Some(mount) => {
            let at_root = str_eq(mount.as_str(), "/");
            let under_boot = str_starts_with(mount.as_str(), "/boot");
            !(at_root || under_boot)
        },
        None => true,
    }
}

/// Builds the drive listing from the parsed device listing: loopback
/// devices are dropped, system partitions are dropped, everything else is
/// kept in order, together with the mount root.
pub fn get_drive_list(parsed: LSBLKOutput, mount_root: String) -> (response: DrivesResponse)
    ensures
        response.drives@ == kept_drives(parsed.devices@),
        response.mount_root == mount_root,
{
    let ghost all = parsed.devices@;
    let mut remaining = parsed.devices;
    let mut drives: Vec<Drive> = Vec::new();
    while remaining.len() > 0
        invariant
            remaining@.len() <= all.len(),
            remaining@ == all.subrange(all.len() - remaining@.len(), all.len() as int),
            drives@ == kept_drives(all.subrange(0, all.len() - remaining@.len())),
        decreases remaining@.len(),
    {
        let ghost done = all.len() - remaining@.len();
        let device = remaining.remove(0);
        proof {
            assert(device == all[done]);
            assert(remaining@ =~= all.subrange(done + 1, all.len() as int));
            let prefix = all.subrange(0, done + 1);
            assert(prefix.drop_last() =~= all.subrange(0, done));
            assert(prefix.last() == all[done]);
        }
        let is_loop = str_starts_with(device.name.as_str(), "loop");
        if !is_loop {
            match device.children {
                Some(children) => {
                    let ghost all_children = children@;
                    let mut child_remaining = children;
                    while child_remaining.len() > 0
                        invariant
                            child_remaining@.len() <= all_children.len(),
                            child_remaining@ == all_children.subrange(
                                all_children.len() - child_remaining@.len(),
                                all_children.len() as int,
                            ),
                            drives@ == kept_drives(all.subrange(0, done)) + kept_children(
                                all_children.subrange(
                                    0,
                                    all_children.len() - child_remaining@.len(),
                                ),
                            ),
                        decreases child_remaining@.len(),
                    {
                        let ghost child_done = all_children.len() - child_remaining@.len();
                        let drive = child_remaining.remove(0);
                        proof {
                            assert(drive == all_children[child_done]);
                            assert(child_remaining@ =~= all_children.subrange(
                                child_done + 1,
                                all_children.len() as int,
                            ));
                            let child_prefix = all_children.subrange(0, child_done + 1);
                            assert(child_prefix.drop_last() =~= all_children.subrange(
                                0,
                                child_done,
                            ));
                            assert(child_prefix.last() == all_children[child_done]);
                        }
                        if drive_is_kept(&drive) {
                            drives.push(drive);
                            proof {
                                assert(drives@ =~= kept_drives(all.subrange(0, done))
                                    + (kept_children(all_children.subrange(0, child_done))
                                    + seq![all_children[child_done]]));
                            }
                        } else {
                            proof {
                                assert(kept_children(all_children.subrange(0, child_done))
                                    + Seq::<Drive>::empty() =~= kept_children(
                                    all_children.subrange(0, child_done),
                                ));
                            }
                        }
                    }
                    proof {
                        assert(all_children.subrange(0, all_children.len() as int)
                            =~= all_children);
                        assert(device_contribution(all[done]) == kept_children(all_children));
                    }
                },
                None => {
                    proof {
                        assert(device_contribution(all[done]) =~= Seq::<Drive>::empty());
                    }
                },
            }
        } else {
            proof {
                assert(device_contribution(all[done]) =~= Seq::<Drive>::empty());
            }
        }
        proof {
            assert(drives@ =~= kept_drives(all.subrange(0, done)) + device_contribution(
                all[done],
            ));
            assert(drives@ == kept_drives(all.subrange(0, done + 1)));
        }
    }
    proof {
        assert(all.subrange(0, all.len() as int) =~= all);
    }
    DrivesResponse { drives, mount_root }
}

/// Wraps a mount path in double quotes for the mount command's argument.
pub fn quote_path(path: &str) -> (quoted: String)
    ensures
        quoted@ == "\""@ + path@ + "\""@,
{
    let mut quoted = String::from_str("\"");
    quoted.append(path);
    quoted.append("\"");
    quoted
}

/// Classifies the error text of a failed unmount: a busy mount point is
/// its own error kind, anything else is a plain unmount failure.
pub fn classify_unmount_error(stderr: &str) -> (err: DrivesError)
    ensures
        err == if spec_contains(stderr@, "target is busy"@) {
            DrivesError::TargetBusy
        } else {
            DrivesError::UnmountError
        },
{
    if str_contains(stderr, "target is busy") {
        DrivesError::TargetBusy
    } else {
        DrivesError::UnmountError
    }
}

} // verus!
