//! `max-items-per-directory` over a directory inventory: a directory holds at most a
//! configured number of source files (and, where configured, child directories).

use vstd::prelude::*;
use crate::chars::{decimal, push_decimal, push_str};
use crate::config::{MaxItemsPerDirectoryRuleConfig, Severity};
use crate::directory_inventory::{count_where, directory_is_ignored, is_ignored_dir, DirectoryFacts, DirectoryInventory};
use crate::rules::{views, Violation, ViolationView, MAX_ITEMS_PER_DIRECTORY_RULE_ID};

verus! {

pub const MAX_ITEMS_PER_DIRECTORY_MESSAGE: &'static str = "Directory exceeds the maximum number of items. Consider sub-grouping.";

/// `Contains n TypeScript files (limit: m).`, or `items` where folders count.
pub open spec fn items_detail(item_count: nat, max_items: nat, count_folders: bool) -> Seq<char> {
    "Contains "@ + decimal(item_count) + " TypeScript "@ + (if count_folders { "items"@ } else { "files"@ })
        + " (limit: "@ + decimal(max_items) + ")."@
}

/// The finding for a directory at `dir` with too many items.
pub open spec fn items_finding(dir: Seq<char>, severity: Severity, item_count: nat, max_items: nat, count_folders: bool) -> ViolationView {
    ViolationView {
        file: dir,
        span: None,
        line: None,
        column: None,
        rule: MAX_ITEMS_PER_DIRECTORY_RULE_ID@,
        message: MAX_ITEMS_PER_DIRECTORY_MESSAGE@,
        severity,
        detail: Some(items_detail(item_count, max_items, count_folders)),
        subject: None,
    }
}

/// The finding for a directory at `dir` holding `item_count` items, beyond `max_items`.
pub fn directory_violation(dir: &str, severity: Severity, item_count: usize, max_items: usize, count_folders: bool) -> (r: Violation)
    ensures
        r@ == items_finding(dir@, severity, item_count as nat, max_items as nat, count_folders),
{
    let mut detail = String::new();
    push_str(&mut detail, "Contains ");
    push_decimal(&mut detail, item_count);
    push_str(&mut detail, " TypeScript ");
    if count_folders {
        push_str(&mut detail, "items");
    } else {
        push_str(&mut detail, "files");
    }
    push_str(&mut detail, " (limit: ");
    push_decimal(&mut detail, max_items);
    push_str(&mut detail, ").");
    proof {
        assert(detail@ =~= items_detail(item_count as nat, max_items as nat, count_folders));
    }
    Violation::located(dir, None, None, MAX_ITEMS_PER_DIRECTORY_RULE_ID, MAX_ITEMS_PER_DIRECTORY_MESSAGE, severity,
        Some(detail), None)
}

/// The items of a directory: its source files, and its child directories where they count.
pub open spec fn item_count(f: DirectoryFacts, count_folders: bool) -> nat {
    if count_folders { f.source_files@.len() + f.subdirectories@.len() } else { f.source_files@.len() }
}

/// The findings for `dirs`, in order.
pub open spec fn items_findings(dirs: Seq<DirectoryFacts>, ignore: Seq<String>, max_items: nat, count_folders: bool) -> Seq<ViolationView>
    decreases dirs.len(),
{
    if dirs.len() == 0 {
        Seq::empty()
    } else {
        let f = dirs.last();
        let rest = items_findings(dirs.drop_last(), ignore, max_items, count_folders);
        if !is_ignored_dir(f.path@, ignore) && item_count(f, count_folders) > max_items {
            rest.push(items_finding(f.path@, Severity::Warn, item_count(f, count_folders), max_items, count_folders))
        } else {
            rest
        }
    }
}

/// One finding for each directory of `inventory` (skipped directories aside) with more items
/// than `config.max_items`; all at severity `Warn`.
pub fn check_inventory(inventory: &DirectoryInventory, config: &MaxItemsPerDirectoryRuleConfig) -> (r: Vec<Violation>)
    requires
        forall|k: int| 0 <= k < inventory.directories@.len() ==>
            (#[trigger] inventory.directories@[k]).source_files@.len() + inventory.directories@[k].subdirectories@.len() <= usize::MAX,
    ensures
        views(r@) == items_findings(inventory.directories@, config.ignore_dirs@, config.max_items as nat, config.count_folders),
{
    let dirs = &inventory.directories;
    let n = dirs.len();
    let mut violations: Vec<Violation> = Vec::new();
    let mut i: usize = 0;
    while i < n
        invariant
            n == dirs@.len(),
            0 <= i <= n,
            forall|k: int| 0 <= k < dirs@.len() ==>
                (#[trigger] dirs@[k]).source_files@.len() + dirs@[k].subdirectories@.len() <= usize::MAX,
            views(violations@) == items_findings(dirs@.take(i as int), config.ignore_dirs@, config.max_items as nat, config.count_folders),
        decreases n - i,
    {
        proof {
            assert(dirs@.take(i as int + 1).drop_last() =~= dirs@.take(i as int));
        }
        let facts = &dirs[i];
        if !directory_is_ignored(facts.path.as_str(), &config.ignore_dirs) {
            let file_count = facts.source_files.len();
            let folder_count = facts.subdirectories.len();
            let item_count = if config.count_folders { file_count + folder_count } else { file_count };
            if item_count > config.max_items {
                let v = directory_violation(facts.path.as_str(), Severity::Warn, item_count, config.max_items, config.count_folders);
                let ghost before = violations@;
                violations.push(v);
                proof {
                    assert(views(violations@) =~= views(before).push(v@));
                }
            }
        }
        i += 1;
    }
    proof {
        assert(dirs@.take(n as int) =~= dirs@);
    }
    violations
}

/// `max-items-per-directory` reports exactly the directories, skipped ones aside, whose items
/// (source files, plus child directories where folders count) exceed `max_items`: one finding
/// each, naming the directory, at severity `Warn`, with the item count and the limit in its
/// detail.
pub proof fn lemma_items_law(dirs: Seq<DirectoryFacts>, ignore: Seq<String>, max_items: nat, count_folders: bool)
    ensures
        items_findings(dirs, ignore, max_items, count_folders).len() == count_where(dirs, |f: DirectoryFacts| !is_ignored_dir(f.path@, ignore) && f.source_files@.len() + (if count_folders { f.subdirectories@.len() } else { 0nat }) > max_items),
        forall|i: int| #![trigger dirs[i]] 0 <= i < dirs.len() && !is_ignored_dir(dirs[i].path@, ignore) && dirs[i].source_files@.len() + (if count_folders { dirs[i].subdirectories@.len() } else { 0nat }) > max_items
            ==> exists|k: int| 0 <= k < items_findings(dirs, ignore, max_items, count_folders).len() && items_findings(dirs, ignore, max_items, count_folders)[k].file == dirs[i].path@ && items_findings(dirs, ignore, max_items, count_folders)[k].severity == Severity::Warn && items_findings(dirs, ignore, max_items, count_folders)[k].detail == Some("Contains "@ + decimal(dirs[i].source_files@.len() + (if count_folders { dirs[i].subdirectories@.len() } else { 0nat })) + " TypeScript "@ + (if count_folders { "items"@ } else { "files"@ }) + " (limit: "@ + decimal(max_items) + ")."@),
        forall|k: int| #![trigger items_findings(dirs, ignore, max_items, count_folders)[k]] 0 <= k < items_findings(dirs, ignore, max_items, count_folders).len() ==> exists|i: int| #![trigger dirs[i]] 0 <= i < dirs.len() && !is_ignored_dir(dirs[i].path@, ignore) && dirs[i].source_files@.len() + (if count_folders { dirs[i].subdirectories@.len() } else { 0nat }) > max_items
            && items_findings(dirs, ignore, max_items, count_folders)[k].file == dirs[i].path@,
    decreases dirs.len(),
{
    if dirs.len() > 0 {
        let p = dirs.drop_last();
        lemma_items_law(p, ignore, max_items, count_folders);
        let ff = items_findings(dirs, ignore, max_items, count_folders);
        let pp = items_findings(p, ignore, max_items, count_folders);
        let n = dirs.len() - 1;
        assert forall|i: int| #![trigger dirs[i]] 0 <= i < dirs.len() && !is_ignored_dir(dirs[i].path@, ignore) && dirs[i].source_files@.len() + (if count_folders { dirs[i].subdirectories@.len() } else { 0nat }) > max_items
            implies exists|k: int| 0 <= k < ff.len() && ff[k].file == dirs[i].path@ && ff[k].severity == Severity::Warn && ff[k].detail == Some("Contains "@ + decimal(dirs[i].source_files@.len() + (if count_folders { dirs[i].subdirectories@.len() } else { 0nat })) + " TypeScript "@ + (if count_folders { "items"@ } else { "files"@ }) + " (limit: "@ + decimal(max_items) + ")."@) by {
            if i < n {
                assert(p[i] == dirs[i]);
                let k = choose|k: int| 0 <= k < pp.len() && pp[k].file == p[i].path@ && pp[k].severity == Severity::Warn && pp[k].detail == Some("Contains "@ + decimal(p[i].source_files@.len() + (if count_folders { p[i].subdirectories@.len() } else { 0nat })) + " TypeScript "@ + (if count_folders { "items"@ } else { "files"@ }) + " (limit: "@ + decimal(max_items) + ")."@);
                assert(ff[k] == pp[k]);
            } else {
                let k = pp.len() as int;
                assert(ff[k].file == dirs[i].path@ && ff[k].severity == Severity::Warn && ff[k].detail == Some("Contains "@ + decimal(dirs[i].source_files@.len() + (if count_folders { dirs[i].subdirectories@.len() } else { 0nat })) + " TypeScript "@ + (if count_folders { "items"@ } else { "files"@ }) + " (limit: "@ + decimal(max_items) + ")."@));
            }
        }
        assert forall|k: int| #![trigger ff[k]] 0 <= k < ff.len() implies exists|i: int| #![trigger dirs[i]] 0 <= i < dirs.len() && !is_ignored_dir(dirs[i].path@, ignore) && dirs[i].source_files@.len() + (if count_folders { dirs[i].subdirectories@.len() } else { 0nat }) > max_items
            && ff[k].file == dirs[i].path@ by {
            if k < pp.len() {
                assert(ff[k] == pp[k]);
                let i = choose|i: int| #![trigger p[i]] 0 <= i < p.len() && !is_ignored_dir(p[i].path@, ignore) && p[i].source_files@.len() + (if count_folders { p[i].subdirectories@.len() } else { 0nat }) > max_items
                    && pp[k].file == p[i].path@;
                assert(p[i] == dirs[i]);
            } else {
                assert(ff[k].file == dirs[n].path@);
            }
        }
    }
}

} // verus!
