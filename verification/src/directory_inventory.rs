//! The directories of a project as the directory rules see them.

use vstd::prelude::*;
use crate::chars::str_equal;
use crate::paths::{file_name, file_name_of};

verus! {

/// A barrel file of a directory, and whether it is empty.
#[derive(Debug)]
pub struct BarrelFile {
    pub path: String,
    pub is_empty: bool,
}

/// One directory: its path, its depth below the root, its source files, its child
/// directories, and which of its source files are barrels.
#[derive(Debug)]
pub struct DirectoryFacts {
    pub path: String,
    pub depth: usize,
    pub source_files: Vec<String>,
    pub subdirectories: Vec<String>,
    pub barrel_files: Vec<BarrelFile>,
}

/// The directories of a project.
#[derive(Debug)]
pub struct DirectoryInventory {
    pub directories: Vec<DirectoryFacts>,
}

/// The directory names that the directory rules always skip: dependency, tool and build
/// output directories.
pub open spec fn is_default_ignored(name: Seq<char>) -> bool {
    ||| name == "node_modules"@
    ||| name == ".git"@
    ||| name == ".vscode"@
    ||| name == ".idea"@
    ||| name == "dist"@
    ||| name == "build"@
    ||| name == "out"@
    ||| name == ".next"@
    ||| name == ".svelte-kit"@
    ||| name == "target"@
}

/// Whether `name` is one of the directory names that the directory rules always skip.
pub fn is_default_ignored_directory(name: &str) -> (r: bool)
    ensures
        r == is_default_ignored(name@),
{
    str_equal(name, "node_modules") || str_equal(name, ".git") || str_equal(name, ".vscode")
        || str_equal(name, ".idea") || str_equal(name, "dist") || str_equal(name, "build")
        || str_equal(name, "out") || str_equal(name, ".next") || str_equal(name, ".svelte-kit")
        || str_equal(name, "target")
}

/// `name` is skipped: it is listed in `extra` or always skipped.
pub open spec fn is_ignored_name(name: Seq<char>, extra: Seq<String>) -> bool {
    is_default_ignored(name) || exists|k: int| 0 <= k < extra.len() && (#[trigger] extra[k])@ == name
}

/// The directory at `path` is skipped, by its final name.
pub open spec fn is_ignored_dir(path: Seq<char>, extra: Seq<String>) -> bool {
    is_ignored_name(file_name(path), extra)
}

/// Whether the final name of the directory at `path` is skipped.
pub fn directory_is_ignored(path: &str, extra: &Vec<String>) -> (r: bool)
    ensures
        r == is_ignored_dir(path@, extra@),
{
    let name = file_name_of(path);
    if is_default_ignored_directory(name.as_str()) {
        return true;
    }
    let n = extra.len();
    let mut k: usize = 0;
    while k < n
        invariant
            n == extra@.len(),
            0 <= k <= n,
            name@ == file_name(path@),
            forall|t: int| 0 <= t < k ==> (#[trigger] extra@[t])@ != name@,
        decreases n - k,
    {
        if str_equal(extra[k].as_str(), name.as_str()) {
            return true;
        }
        k += 1;
    }
    false
}

/// How many of `dirs` satisfy `p`.
pub open spec fn count_where(dirs: Seq<DirectoryFacts>, p: spec_fn(DirectoryFacts) -> bool) -> nat
    decreases dirs.len(),
{
    if dirs.len() == 0 {
        0
    } else {
        count_where(dirs.drop_last(), p) + if p(dirs.last()) { 1nat } else { 0nat }
    }
}

} // verus!
