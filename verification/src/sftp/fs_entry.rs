//! Remote filesystem entry model.
use vstd::prelude::*;

use crate::text::{chars_of, find_last, lemma_find_last, position_last, slice_chars, string_of};

verus! {

/// What a remote path names.
#[derive(Debug, Clone, Copy, PartialEq, Eq, Structural)]
pub enum FsEntryKind {
    File,
    Directory,
    Symlink,
    Other,
}

/// One remote filesystem entry.
#[derive(Debug, PartialEq, Eq)]
pub struct FsEntry {
    pub path: String,
    pub name: String,
    pub kind: FsEntryKind,
    pub size_bytes: u64,
    pub permissions: u32,
}

/// Model of an entry, its texts as character sequences.
pub struct FsEntryView {
    pub path: Seq<char>,
    pub name: Seq<char>,
    pub kind: FsEntryKind,
    pub size_bytes: u64,
    pub permissions: u32,
}

impl View for FsEntry {
    type V = FsEntryView;

    open spec fn view(&self) -> FsEntryView {
        FsEntryView {
            path: self.path@,
            name: self.name@,
            kind: self.kind,
            size_bytes: self.size_bytes,
            permissions: self.permissions,
        }
    }
}

/// Permission bits given to new files (`rw-r--r--`).
pub const DEFAULT_FILE_PERMISSIONS: u32 = 0o644;

/// Permission bits given to new directories (`rwxr-xr-x`).
pub const DEFAULT_DIRECTORY_PERMISSIONS: u32 = 0o755;

/// The last component of a path: what follows its last `/` (the whole path
/// when it has none).
pub open spec fn base_name(path: Seq<char>) -> Seq<char> {
    match find_last(path, '/') {
        Some(i) => path.skip(i + 1int),
        None => path,
    }
}

/// The last component of `path`.
pub fn base_name_of(path: &str) -> (name: String)
    ensures
        name@ == base_name(path@),
{
    let chars = chars_of(path);
    proof {
        lemma_find_last(chars@, '/');
    }
    assert(chars@.subrange(0, chars@.len() as int) =~= chars@);
    match position_last(&chars, 0, chars.len(), '/') {
        Some(i) => {
            let rest = slice_chars(&chars, i + 1, chars.len());
            assert(rest@ =~= chars@.skip(i + 1));
            string_of(&rest)
        },
        None => path.to_owned(),
    }
}

impl FsEntry {
    /// A regular file of `size_bytes` bytes with default permissions.
    pub fn file(path: &str, size_bytes: u64) -> (e: FsEntry)
        ensures
            e@ == (FsEntryView {
                path: path@,
                name: base_name(path@),
                kind: FsEntryKind::File,
                size_bytes,
                permissions: DEFAULT_FILE_PERMISSIONS,
            }),
    {
        FsEntry {
            path: path.to_owned(),
            name: base_name_of(path),
            kind: FsEntryKind::File,
            size_bytes,
            permissions: DEFAULT_FILE_PERMISSIONS,
        }
    }

    /// An empty directory with default permissions.
    pub fn directory(path: &str) -> (e: FsEntry)
        ensures
            e@ == (FsEntryView {
                path: path@,
                name: base_name(path@),
                kind: FsEntryKind::Directory,
                size_bytes: 0,
                permissions: DEFAULT_DIRECTORY_PERMISSIONS,
            }),
    {
        FsEntry {
            path: path.to_owned(),
            name: base_name_of(path),
            kind: FsEntryKind::Directory,
            size_bytes: 0,
            permissions: DEFAULT_DIRECTORY_PERMISSIONS,
        }
    }
}

impl Clone for FsEntry {
    fn clone(&self) -> (c: FsEntry)
        ensures
            c@ == self@,
    {
        FsEntry {
            path: self.path.clone(),
            name: self.name.clone(),
            kind: self.kind,
            size_bytes: self.size_bytes,
            permissions: self.permissions,
        }
    }
}

/// The entries directly inside one directory.
#[derive(Debug, PartialEq, Eq)]
pub struct DirectoryListing {
    pub path: String,
    pub entries: Vec<FsEntry>,
}

} // verus!
