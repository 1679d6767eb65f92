//! The decision core of the file listing: the containment rule keeping
//! listings inside the mount root, and the partition of directory entries
//! into folders and files. Reading the directory itself is the caller's
//! work; the entries come in as plain values.

use crate::models::errors::FilesError;
use crate::models::files::{DriveFile, DriveFolder, DriveList};
use crate::utils::text::str_starts_with;
use vstd::prelude::*;

verus! {

/// One directory entry, as read by the caller: its name, size,
/// permission bits, and whether it is itself a directory.
pub struct FsEntry {
    /// The entry's name.
    pub name: String,
    /// The entry's size in bytes.
    pub size: u64,
    /// The entry's unix permission bits.
    pub permissions: u32,
    /// Whether the entry is a directory.
    pub is_dir: bool,
}

/// A path lies within a root when the root is an initial segment of it
/// that ends at a component boundary: the two are equal, the path goes on
/// with a separator, or the root itself ends in one.
pub open spec fn spec_path_within(path: Seq<char>, root: Seq<char>) -> bool {
    &&& root.is_prefix_of(path)
    &&& {
        ||| path.len() == root.len()
        ||| path[root.len() as int] == '/'
        ||| (root.len() > 0 && root[root.len() - 1] == '/')
    }
}

/// Whether `path` lies within `root`.
pub fn path_within(path: &str, root: &str) -> (result: bool)
    ensures
        result == spec_path_within(path@, root@),
{
    if !str_starts_with(path, root) {
        return false;
    }
    let path_len = path.unicode_len();
    let root_len = root.unicode_len();
    if path_len == root_len {
        true
    } else if root_len > 0 && root.get_char(root_len - 1) == '/' {
        true
    } else {
        path.get_char(root_len) == '/'
    }
}

/// The folder an entry becomes in a listing.
pub open spec fn folder_of(entry: FsEntry) -> DriveFolder {
    DriveFolder { name: entry.name, permissions: entry.permissions }
}

/// The file an entry becomes in a listing.
pub open spec fn file_of(entry: FsEntry) -> DriveFile {
    DriveFile { name: entry.name, size: entry.size, permissions: entry.permissions }
}

/// The folders of a sequence of entries, in order.
pub open spec fn folders_of(entries: Seq<FsEntry>) -> Seq<DriveFolder>
    decreases entries.len(),
{
    if entries.len() == 0 {
        Seq::empty()
    } else {
        folders_of(entries.drop_last()) + if entries.last().is_dir {
            seq![folder_of(entries.last())]
        } else {
            Seq::empty()
        }
    }
}

/// The files of a sequence of entries, in order.
pub open spec fn files_of(entries: Seq<FsEntry>) -> Seq<DriveFile>
    decreases entries.len(),
{
    if entries.len() == 0 {
        Seq::empty()
    } else {
        files_of(entries.drop_last()) + if entries.last().is_dir {
            Seq::empty()
        } else {
            seq![file_of(entries.last())]
        }
    }
}

/// Builds the listing of one directory. The directory's resolved path
/// must lie within the mount root and must actually be a directory; the
/// entries the caller read there are then split into folders and files,
/// keeping their order.
pub fn get_files_at(full_path: &str, mount_root: &str, path_is_dir: bool, entries: Vec<
    FsEntry,
>) -> (result: Result<DriveList, FilesError>)
    ensures
        !spec_path_within(full_path@, mount_root@) ==> result == Err::<DriveList, FilesError>(
            FilesError::OutsideMountRoot,
        ),
        spec_path_within(full_path@, mount_root@) && !path_is_dir ==> result == Err::<
            DriveList,
            FilesError,
        >(FilesError::NotDirectory),
        spec_path_within(full_path@, mount_root@) && path_is_dir ==> (result matches Ok(list)
            && list.folders@ == folders_of(entries@) && list.files@ == files_of(entries@)),
{
    if !path_within(full_path, mount_root) {
        return Err(FilesError::OutsideMountRoot);
    }
    if !path_is_dir {
        return Err(FilesError::NotDirectory);
    }
    let ghost all = entries@;
    let mut remaining = entries;
    let mut folders: Vec<DriveFolder> = Vec::new();
    let mut files: Vec<DriveFile> = Vec::new();
    while remaining.len() > 0
        invariant
            remaining@.len() <= all.len(),
            remaining@ == all.subrange(
                all.len() - remaining@.len(),
                all.len() as int,
            ),
            folders@ == folders_of(all.subrange(0, all.len() - remaining@.len())),
            files@ == files_of(all.subrange(0, all.len() - remaining@.len())),
        decreases remaining@.len(),
    {
        let ghost done = all.len() - remaining@.len();
        let entry = remaining.remove(0);
        proof {
            assert(entry == all[done]);
            assert(remaining@ =~= all.subrange(done + 1, all.len() as int));
            let prefix = all.subrange(0, done + 1);
            assert(prefix.drop_last() =~= all.subrange(0, done));
            assert(prefix.last() == all[done]);
        }
        if entry.is_dir {
            folders.push(DriveFolder { name: entry.name, permissions: entry.permissions });
            proof {
                assert(folders@ =~= folders_of(all.subrange(0, done)) + seq![folder_of(all[done])]);
                assert(files@ + Seq::<DriveFile>::empty() =~= files@);
            }
        } else {
            files.push(
                DriveFile { name: entry.name, size: entry.size, permissions: entry.permissions },
            );
            proof {
                assert(files@ =~= files_of(all.subrange(0, done)) + seq![file_of(all[done])]);
                assert(folders@ + Seq::<DriveFolder>::empty() =~= folders@);
            }
        }
    }
    proof {
        assert(all.subrange(0, all.len() as int) =~= all);
    }
    Ok(DriveList { folders, files })
}

} // verus!
