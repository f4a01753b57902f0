//! A directory tree as read from disk: each directory's entries, in the order they were read.

use vstd::prelude::*;
use crate::chars::str_equal;
use crate::paths::{extension, extension_of, file_name, file_name_of};

verus! {

/// What an entry of a directory is: a directory (the index of its listing in the tree) or a
/// file.
#[derive(Clone, Copy, Debug, PartialEq, Eq, Structural)]
pub enum EntryKind {
    Directory(usize),
    File,
}

/// One entry of a directory: its path, its name, and its kind.
#[derive(Debug)]
pub struct ListingEntry {
    pub path: String,
    pub name: String,
    pub kind: EntryKind,
}

/// One directory: its path and its entries (`None` where it could not be read).
#[derive(Debug)]
pub struct DirectoryListing {
    pub path: String,
    pub entries: Option<Vec<ListingEntry>>,
}

/// The directories under a root, the root first. A directory entry of a listing points to a
/// later listing.
#[derive(Debug)]
pub struct DirectoryTree {
    pub listings: Vec<DirectoryListing>,
}

/// Every directory entry points to a later listing of the tree.
pub open spec fn tree_ok(t: Seq<DirectoryListing>) -> bool {
    forall|i: int| 0 <= i < t.len() ==> match (#[trigger] t[i]).entries {
        Some(es) => forall|j: int| 0 <= j < es@.len() ==> match (#[trigger] es@[j]).kind {
            EntryKind::Directory(k) => i < k < t.len(),
            EntryKind::File => true,
        },
        None => true,
    }
}

/// The entries of listing `i` (none where it could not be read).
pub open spec fn entries_of(t: Seq<DirectoryListing>, i: int) -> Seq<ListingEntry> {
    if 0 <= i < t.len() {
        match t[i].entries {
            Some(es) => es@,
            None => Seq::empty(),
        }
    } else {
        Seq::empty()
    }
}

/// A TypeScript source file, by name: its extension is `ts` or `tsx`.
pub open spec fn is_source_name(name: Seq<char>) -> bool {
    extension(name) == Some("ts"@) || extension(name) == Some("tsx"@)
}

/// Whether the file at `path` is a TypeScript source file.
pub fn is_source_file(path: &str) -> (r: bool)
    ensures
        r == is_source_name(file_name(path@)),
{
    let name = file_name_of(path);
    match extension_of(name.as_str()) {
        Some(e) => str_equal(e.as_str(), "ts") || str_equal(e.as_str(), "tsx"),
        None => false,
    }
}

} // verus!
