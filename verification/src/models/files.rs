//! Bodies of the file listing endpoint.

use vstd::prelude::*;

verus! {

/// Body of a request for the files on a mounted drive.
pub struct ListRequest {
    /// The mounted drive path.
    pub path: String,
    /// The directory, relative to the mount path.
    pub drive_path: String,
}

/// A file stored on a mounted drive.
#[derive(Debug)]
pub struct DriveFile {
    /// The file's name.
    pub name: String,
    /// The file's size in bytes.
    pub size: u64,
    /// The file's unix permission bits.
    pub permissions: u32,
}

/// A folder stored on a mounted drive.
#[derive(Debug)]
pub struct DriveFolder {
    /// The folder's name.
    pub name: String,
    /// The folder's unix permission bits.
    pub permissions: u32,
}

/// The response to a file listing: the folders and files of one
/// directory.
#[derive(Debug)]
pub struct DriveList {
    /// The folders of the directory.
    pub folders: Vec<DriveFolder>,
    /// The files of the directory.
    pub files: Vec<DriveFile>,
}

} // verus!
