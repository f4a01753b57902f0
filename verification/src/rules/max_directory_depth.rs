//! `max-directory-depth` over a directory tree read from disk: no directory or source file lies
//! deeper below the root than a configured limit.

use vstd::prelude::*;
use crate::config::MaxDirectoryDepthRuleConfig;
use crate::directory_inventory::{is_default_ignored_directory, is_ignored_name};
use crate::directory_tree::{entries_of, is_source_file, is_source_name, tree_ok, DirectoryListing, DirectoryTree, EntryKind, ListingEntry};
use crate::import_graph::{same_file, same_path};
use crate::paths::file_name;
use crate::rules::files::max_directory_depth::{depth_finding, depth_violation};
use crate::rules::{views, Violation, ViolationView};

verus! {

/// `path` is one of the excluded directories.
pub open spec fn is_excluded(path: Seq<char>, exclude: Seq<String>) -> bool {
    exists|k: int| 0 <= k < exclude.len() && same_file((#[trigger] exclude[k])@, path)
}

/// The findings for the entries of a directory at `depth`: each child directory that is
/// neither skipped nor excluded, and each source file, that lies deeper than `max_depth`.
pub open spec fn entries_too_deep(entries: Seq<ListingEntry>, depth: nat, max_depth: nat, ignore: Seq<String>, exclude: Seq<String>) -> Seq<ViolationView>
    decreases entries.len(),
{
    if entries.len() == 0 {
        Seq::empty()
    } else {
        let e = entries.last();
        let rest = entries_too_deep(entries.drop_last(), depth, max_depth, ignore, exclude);
        let counts = match e.kind {
            EntryKind::Directory(_) => !is_ignored_name(e.name@, ignore) && !is_excluded(e.path@, exclude),
            EntryKind::File => is_source_name(file_name(e.path@)),
        };
        if counts && depth + 1 > max_depth { rest.push(depth_finding(e.path@, depth + 1, max_depth)) } else { rest }
    }
}

/// The findings of the walk from listing `i` at `depth`: its entries', then those of the walks
/// of its child directories that are neither skipped nor excluded, in order.
pub open spec fn depth_walk(t: Seq<DirectoryListing>, i: int, depth: nat, max_depth: nat, ignore: Seq<String>, exclude: Seq<String>) -> Seq<ViolationView>
    decreases t.len() - i, entries_of(t, i).len() + 1,
{
    if i < 0 || i >= t.len() || t[i].entries is None || is_excluded(t[i].path@, exclude) {
        Seq::empty()
    } else {
        entries_too_deep(entries_of(t, i), depth, max_depth, ignore, exclude)
            + depth_subwalks(t, i, 0, depth, max_depth, ignore, exclude)
    }
}

/// The findings of the walks of the child directories of listing `i` from entry `j` on.
pub open spec fn depth_subwalks(t: Seq<DirectoryListing>, i: int, j: int, depth: nat, max_depth: nat, ignore: Seq<String>, exclude: Seq<String>) -> Seq<ViolationView>
    decreases t.len() - i, entries_of(t, i).len() - j,
{
    let es = entries_of(t, i);
    if j < 0 || j >= es.len() {
        Seq::empty()
    } else {
        let e = es[j];
        match e.kind {
            EntryKind::Directory(k) => if !is_ignored_name(e.name@, ignore) && !is_excluded(e.path@, exclude) && i < k < t.len() && i >= 0 {
                depth_walk(t, k as int, depth + 1, max_depth, ignore, exclude) + depth_subwalks(t, i, j + 1, depth, max_depth, ignore, exclude)
            } else {
                depth_subwalks(t, i, j + 1, depth, max_depth, ignore, exclude)
            },
            EntryKind::File => depth_subwalks(t, i, j + 1, depth, max_depth, ignore, exclude),
        }
    }
}

fn name_is_ignored(name: &str, ignore: &Vec<String>) -> (r: bool)
    ensures
        r == is_ignored_name(name@, ignore@),
{
    if is_default_ignored_directory(name) {
        return true;
    }
    let n = ignore.len();
    let mut k: usize = 0;
    while k < n
        invariant
            n == ignore@.len(),
            0 <= k <= n,
            forall|t: int| 0 <= t < k ==> (#[trigger] ignore@[t])@ != name@,
        decreases n - k,
    {
        if crate::chars::str_equal(ignore[k].as_str(), name) {
            return true;
        }
        k += 1;
    }
    false
}

fn excluded(path: &str, exclude: &[String]) -> (r: bool)
    ensures
        r == is_excluded(path@, exclude@),
{
    let n = exclude.len();
    let mut k: usize = 0;
    while k < n
        invariant
            n == exclude@.len(),
            0 <= k <= n,
            forall|t: int| 0 <= t < k ==> !same_file((#[trigger] exclude@[t])@, path@),
        decreases n - k,
    {
        if same_path(exclude[k].as_str(), path) {
            return true;
        }
        k += 1;
    }
    false
}

fn push_entries_too_deep(out: &mut Vec<Violation>, entries: &Vec<ListingEntry>, depth: usize, max_depth: usize, ignore: &Vec<String>, exclude: &[String])
    requires
        depth < usize::MAX,
    ensures
        views(final(out)@) == views(old(out)@) + entries_too_deep(entries@, depth as nat, max_depth as nat, ignore@, exclude@),
{
    let ghost start = views(out@);
    let n = entries.len();
    let mut k: usize = 0;
    while k < n
        invariant
            n == entries@.len(),
            0 <= k <= n,
            depth < usize::MAX,
            views(out@) == start + entries_too_deep(entries@.take(k as int), depth as nat, max_depth as nat, ignore@, exclude@),
        decreases n - k,
    {
        proof {
            assert(entries@.take(k as int + 1).drop_last() =~= entries@.take(k as int));
        }
        let e = &entries[k];
        let counts = match e.kind {
            EntryKind::Directory(_) => !name_is_ignored(e.name.as_str(), ignore) && !excluded(e.path.as_str(), exclude),
            EntryKind::File => is_source_file(e.path.as_str()),
        };
        if counts && depth + 1 > max_depth {
            let v = depth_violation(e.path.as_str(), depth + 1, max_depth);
            let ghost before = out@;
            out.push(v);
            proof {
                assert(views(out@) =~= views(before).push(v@));
            }
        }
        k += 1;
    }
    proof {
        assert(entries@.take(n as int) =~= entries@);
    }
}

fn walk_directories(tree: &DirectoryTree, i: usize, ignore: &Vec<String>, exclude: &[String], max_depth: usize, depth: usize, violations: &mut Vec<Violation>)
    requires
        tree_ok(tree.listings@),
        i < tree.listings@.len(),
        depth <= i,
    ensures
        views(final(violations)@) == views(old(violations)@)
            + depth_walk(tree.listings@, i as int, depth as nat, max_depth as nat, ignore@, exclude@),
    decreases tree.listings@.len() - i, entries_of(tree.listings@, i as int).len() + 1,
{
    let ghost t = tree.listings@;
    let ghost start = views(violations@);
    let listing = &tree.listings[i];
    if excluded(listing.path.as_str(), exclude) {
        proof {
            assert(views(violations@) =~= start + depth_walk(t, i as int, depth as nat, max_depth as nat, ignore@, exclude@));
        }
        return;
    }
    let entries = match &listing.entries {
        Some(es) => es,
        None => {
            proof {
                assert(views(violations@) =~= start + depth_walk(t, i as int, depth as nat, max_depth as nat, ignore@, exclude@));
            }
            return;
        },
    };
    let listing_count = tree.listings.len();
    assert(depth < listing_count);
    push_entries_too_deep(violations, entries, depth, max_depth, ignore, exclude);
    let ghost mid = views(violations@);
    proof {
        assert(entries@ == entries_of(t, i as int));
    }
    let n = entries.len();
    let mut j: usize = 0;
    while j < n
        invariant
            t == tree.listings@,
            tree_ok(t),
            i < t.len(),
            depth <= i,
            n == entries@.len(),
            entries@ == entries_of(t, i as int),
            t[i as int].entries == Some(*entries),
            0 <= j <= n,
            views(violations@) + depth_subwalks(t, i as int, j as int, depth as nat, max_depth as nat, ignore@, exclude@)
                == mid + depth_subwalks(t, i as int, 0, depth as nat, max_depth as nat, ignore@, exclude@),
        decreases n - j,
    {
        let e = &entries[j];
        match e.kind {
            EntryKind::Directory(k) => {
                proof {
                    assert(entries@[j as int] == *e);
                }
                if !name_is_ignored(e.name.as_str(), ignore) && !excluded(e.path.as_str(), exclude) {
                    let ghost before = views(violations@);
                    walk_directories(tree, k, ignore, exclude, max_depth, depth + 1, violations);
                    proof {
                        assert(views(violations@) + depth_subwalks(t, i as int, j as int + 1, depth as nat, max_depth as nat, ignore@, exclude@)
                            =~= before + depth_subwalks(t, i as int, j as int, depth as nat, max_depth as nat, ignore@, exclude@));
                    }
                }
            },
            EntryKind::File => {},
        }
        j += 1;
    }
    proof {
        assert(views(violations@) =~= start + depth_walk(t, i as int, depth as nat, max_depth as nat, ignore@, exclude@));
    }
}

/// The findings of a directory tree: one for each directory and source file, from the root
/// down (skipped and excluded directories and what lies below them aside), that lies deeper
/// than `config.max_depth`; all at severity `Warn`, in walk order.
pub fn check_directories(tree: &DirectoryTree, config: &MaxDirectoryDepthRuleConfig, exclude_dirs: &[String]) -> (r: Vec<Violation>)
    requires
        tree_ok(tree.listings@),
    ensures
        views(r@) == if tree.listings@.len() > 0 {
            depth_walk(tree.listings@, 0, 0, config.max_depth as nat, config.ignore_dirs@, exclude_dirs@)
        } else {
            Seq::empty()
        },
{
    let mut violations: Vec<Violation> = Vec::new();
    if tree.listings.len() > 0 {
        walk_directories(tree, 0, &config.ignore_dirs, exclude_dirs, config.max_depth, 0, &mut violations);
    }
    proof {
        assert(views(violations@) =~= if tree.listings@.len() > 0 {
            depth_walk(tree.listings@, 0, 0, config.max_depth as nat, config.ignore_dirs@, exclude_dirs@)
        } else {
            Seq::empty()
        });
    }
    violations
}

} // verus!
