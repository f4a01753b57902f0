//! `max-items-per-directory` over a directory tree read from disk: every directory below the
//! root, skipped directories aside, holds at most a configured number of items.

use vstd::prelude::*;
use crate::config::{MaxItemsPerDirectoryRuleConfig, Severity};
use crate::directory_inventory::{is_default_ignored_directory, is_ignored_name};
use crate::directory_tree::{entries_of, is_source_file, is_source_name, tree_ok, DirectoryTree, EntryKind, ListingEntry};
use crate::paths::file_name;
use crate::rules::files::max_items_per_directory::items_finding;
use crate::rules::{views, Violation, ViolationView};

pub use crate::rules::files::max_items_per_directory::directory_violation;

verus! {

/// The items among `entries`: source files, and (where they count) child directories that are
/// not skipped.
pub open spec fn listed_items(entries: Seq<ListingEntry>, ignore: Seq<String>, count_folders: bool) -> nat
    decreases entries.len(),
{
    if entries.len() == 0 {
        0
    } else {
        let e = entries.last();
        let rest = listed_items(entries.drop_last(), ignore, count_folders);
        match e.kind {
            EntryKind::Directory(_) => if !is_ignored_name(e.name@, ignore) && count_folders { rest + 1 } else { rest },
            EntryKind::File => if is_source_name(file_name(e.path@)) { rest + 1 } else { rest },
        }
    }
}

/// The measure of the walk of listing `i`.
pub open spec fn walk_measure(t: Seq<crate::directory_tree::DirectoryListing>, i: int) -> nat {
    entries_of(t, i).len() + 1
}

/// The findings of the walk from listing `i`: the directory's own, then those of its child
/// directories that are not skipped, in order.
pub open spec fn items_walk(t: Seq<crate::directory_tree::DirectoryListing>, i: int, ignore: Seq<String>, max_items: nat, count_folders: bool) -> Seq<ViolationView>
    decreases t.len() - i, walk_measure(t, i),
{
    if i < 0 || i >= t.len() || t[i].entries is None {
        Seq::empty()
    } else {
        let count = listed_items(entries_of(t, i), ignore, count_folders);
        let own = if count > max_items {
            seq![items_finding(t[i].path@, Severity::Warn, count, max_items, count_folders)]
        } else {
            Seq::empty()
        };
        own + items_subwalks(t, i, 0, ignore, max_items, count_folders)
    }
}

/// The findings of the walks of the child directories of listing `i` from entry `j` on.
pub open spec fn items_subwalks(t: Seq<crate::directory_tree::DirectoryListing>, i: int, j: int, ignore: Seq<String>, max_items: nat, count_folders: bool) -> Seq<ViolationView>
    decreases t.len() - i, entries_of(t, i).len() - j,
{
    let es = entries_of(t, i);
    if j < 0 || j >= es.len() {
        Seq::empty()
    } else {
        let e = es[j];
        match e.kind {
            EntryKind::Directory(k) => if !is_ignored_name(e.name@, ignore) && i < k < t.len() && i >= 0 {
                items_walk(t, k as int, ignore, max_items, count_folders) + items_subwalks(t, i, j + 1, ignore, max_items, count_folders)
            } else {
                items_subwalks(t, i, j + 1, ignore, max_items, count_folders)
            },
            EntryKind::File => items_subwalks(t, i, j + 1, ignore, max_items, count_folders),
        }
    }
}

fn name_is_ignored(name: &str, ignore: &Vec<String>) -> (r: bool)
    ensures
        r == is_ignored_name(name@, ignore@),
{
    if is_default_ignored_directory(name) {
        return true;
    }
    let n = ignore.len();
    let mut k: usize = 0;
    while k < n
        invariant
            n == ignore@.len(),
            0 <= k <= n,
            forall|t: int| 0 <= t < k ==> (#[trigger] ignore@[t])@ != name@,
        decreases n - k,
    {
        if crate::chars::str_equal(ignore[k].as_str(), name) {
            return true;
        }
        k += 1;
    }
    false
}

fn count_items(entries: &Vec<ListingEntry>, ignore: &Vec<String>, count_folders: bool) -> (r: usize)
    ensures
        r == listed_items(entries@, ignore@, count_folders),
{
    let n = entries.len();
    let mut count: usize = 0;
    let mut k: usize = 0;
    while k < n
        invariant
            n == entries@.len(),
            0 <= k <= n,
            count == listed_items(entries@.take(k as int), ignore@, count_folders),
            count <= k,
        decreases n - k,
    {
        proof {
            assert(entries@.take(k as int + 1).drop_last() =~= entries@.take(k as int));
        }
        let e = &entries[k];
        match e.kind {
            EntryKind::Directory(_) => {
                if !name_is_ignored(e.name.as_str(), ignore) && count_folders {
                    count += 1;
                }
            },
            EntryKind::File => {
                if is_source_file(e.path.as_str()) {
                    count += 1;
                }
            },
        }
        k += 1;
    }
    proof {
        assert(entries@.take(n as int) =~= entries@);
    }
    count
}

fn walk_directories(tree: &DirectoryTree, i: usize, ignore: &Vec<String>, max_items: usize, count_folders: bool, violations: &mut Vec<Violation>)
    requires
        tree_ok(tree.listings@),
        i < tree.listings@.len(),
    ensures
        views(final(violations)@) == views(old(violations)@) + items_walk(tree.listings@, i as int, ignore@, max_items as nat, count_folders),
    decreases tree.listings@.len() - i, walk_measure(tree.listings@, i as int),
{
    let ghost t = tree.listings@;
    let ghost start = views(violations@);
    let listing = &tree.listings[i];
    let entries = match &listing.entries {
        Some(es) => es,
        None => {
            proof {
                assert(views(violations@) =~= start + items_walk(t, i as int, ignore@, max_items as nat, count_folders));
            }
            return;
        },
    };
    let item_count = count_items(entries, ignore, count_folders);
    if item_count > max_items {
        let v = directory_violation(listing.path.as_str(), Severity::Warn, item_count, max_items, count_folders);
        let ghost before = violations@;
        violations.push(v);
        proof {
            assert(views(violations@) =~= views(before).push(v@));
        }
    }
    let ghost mid = views(violations@);
    proof {
        assert(entries@ == entries_of(t, i as int));
        assert(mid =~= start + (if item_count > max_items {
            seq![items_finding(t[i as int].path@, Severity::Warn, item_count as nat, max_items as nat, count_folders)]
        } else {
            Seq::empty()
        }));
    }
    let n = entries.len();
    let mut j: usize = 0;
    while j < n
        invariant
            t == tree.listings@,
            tree_ok(t),
            i < t.len(),
            n == entries@.len(),
            entries@ == entries_of(t, i as int),
            t[i as int].entries == Some(*entries),
            0 <= j <= n,
            views(violations@) + items_subwalks(t, i as int, j as int, ignore@, max_items as nat, count_folders)
                == mid + items_subwalks(t, i as int, 0, ignore@, max_items as nat, count_folders),
        decreases n - j,
    {
        let e = &entries[j];
        match e.kind {
            EntryKind::Directory(k) => {
                proof {
                    assert(t[i as int].entries == Some(*entries));
                    assert(entries@[j as int] == *e);
                }
                if !name_is_ignored(e.name.as_str(), ignore) {
                    let ghost before = views(violations@);
                    walk_directories(tree, k, ignore, max_items, count_folders, violations);
                    proof {
                        assert(views(violations@) + items_subwalks(t, i as int, j as int + 1, ignore@, max_items as nat, count_folders)
                            =~= before + items_subwalks(t, i as int, j as int, ignore@, max_items as nat, count_folders));
                    }
                }
            },
            EntryKind::File => {},
        }
        j += 1;
    }
    proof {
        assert(views(violations@) =~= start + items_walk(t, i as int, ignore@, max_items as nat, count_folders));
    }
}

/// The findings of a directory tree: one for each directory, from the root down (skipped
/// directories and what lies below them aside), that holds more items than
/// `config.max_items`; all at severity `Warn`, in walk order.
pub fn check_directories(tree: &DirectoryTree, config: &MaxItemsPerDirectoryRuleConfig) -> (r: Vec<Violation>)
    requires
        tree_ok(tree.listings@),
    ensures
        views(r@) == if tree.listings@.len() > 0 {
            items_walk(tree.listings@, 0, config.ignore_dirs@, config.max_items as nat, config.count_folders)
        } else {
            Seq::empty()
        },
{
    let mut violations: Vec<Violation> = Vec::new();
    if tree.listings.len() > 0 {
        walk_directories(tree, 0, &config.ignore_dirs, config.max_items, config.count_folders, &mut violations);
    }
    proof {
        assert(views(violations@) =~= if tree.listings@.len() > 0 {
            items_walk(tree.listings@, 0, config.ignore_dirs@, config.max_items as nat, config.count_folders)
        } else {
            Seq::empty()
        });
    }
    violations
}

} // verus!
