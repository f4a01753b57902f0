//! `directory-must-have-barrel`: a directory with child directories exposes an `index.ts`.

use vstd::prelude::*;
use crate::chars::{str_equal, string_of};
use crate::config::{RuleConfig, Severity};
use crate::directory_inventory::{is_default_ignored, is_default_ignored_directory, DirectoryFacts, DirectoryInventory};
use crate::paths::{file_name, file_name_of};
use crate::rules::{views, Violation, ViolationView, DIRECTORY_MUST_HAVE_BARREL_RULE_ID};

verus! {

pub const DIRECTORY_MUST_HAVE_BARREL_MESSAGE: &'static str = "Non-leaf directories must expose an index.ts barrel.";
pub const DIRECTORY_MUST_HAVE_BARREL_DETAIL: &'static str = "Directory contains child folders but no index.ts.";

/// Some source file is named `index.ts`.
pub open spec fn has_index_ts(files: Seq<String>) -> bool {
    exists|k: int| 0 <= k < files.len() && file_name((#[trigger] files[k])@) == "index.ts"@
}

/// A directory that lacks its barrel: it has child directories, is not skipped, and has no
/// `index.ts`.
pub open spec fn lacks_barrel(f: DirectoryFacts) -> bool {
    &&& f.subdirectories@.len() > 0
    &&& !is_default_ignored(file_name(f.path@))
    &&& !has_index_ts(f.source_files@)
}

/// The finding for a directory that lacks its barrel.
pub open spec fn barrel_finding(dir: Seq<char>, severity: Severity) -> ViolationView {
    ViolationView {
        file: dir,
        span: None,
        line: None,
        column: None,
        rule: DIRECTORY_MUST_HAVE_BARREL_RULE_ID@,
        message: DIRECTORY_MUST_HAVE_BARREL_MESSAGE@,
        severity,
        detail: Some(DIRECTORY_MUST_HAVE_BARREL_DETAIL@),
        subject: None,
    }
}

/// The findings for `dirs`, in order.
pub open spec fn barrel_findings(dirs: Seq<DirectoryFacts>, severity: Severity) -> Seq<ViolationView>
    decreases dirs.len(),
{
    if dirs.len() == 0 {
        Seq::empty()
    } else if lacks_barrel(dirs.last()) {
        barrel_findings(dirs.drop_last(), severity).push(barrel_finding(dirs.last().path@, severity))
    } else {
        barrel_findings(dirs.drop_last(), severity)
    }
}

fn has_index_ts_file(files: &Vec<String>) -> (r: bool)
    ensures
        r == has_index_ts(files@),
{
    let n = files.len();
    let mut k: usize = 0;
    while k < n
        invariant
            n == files@.len(),
            0 <= k <= n,
            forall|t: int| 0 <= t < k ==> file_name((#[trigger] files@[t])@) != "index.ts"@,
        decreases n - k,
    {
        let name = file_name_of(files[k].as_str());
        if str_equal(name.as_str(), "index.ts") {
            return true;
        }
        k += 1;
    }
    false
}

/// One finding for each directory of `inventory` that has child directories but no `index.ts`
/// (skipped directories aside), in inventory order.
pub fn check_inventory(inventory: &DirectoryInventory, config: &RuleConfig) -> (r: Vec<Violation>)
    ensures
        views(r@) == barrel_findings(inventory.directories@, config.severity),
{
    let dirs = &inventory.directories;
    let n = dirs.len();
    let mut violations: Vec<Violation> = Vec::new();
    let mut i: usize = 0;
    while i < n
        invariant
            n == dirs@.len(),
            0 <= i <= n,
            views(violations@) == barrel_findings(dirs@.take(i as int), config.severity),
        decreases n - i,
    {
        proof {
            assert(dirs@.take(i as int + 1).drop_last() =~= dirs@.take(i as int));
        }
        let facts = &dirs[i];
        let dir_name = file_name_of(facts.path.as_str());
        if facts.subdirectories.len() > 0 && !is_default_ignored_directory(dir_name.as_str())
            && !has_index_ts_file(&facts.source_files) {
            let v = Violation::located(facts.path.as_str(), None, None, DIRECTORY_MUST_HAVE_BARREL_RULE_ID,
                DIRECTORY_MUST_HAVE_BARREL_MESSAGE, config.severity, Some(string_of(DIRECTORY_MUST_HAVE_BARREL_DETAIL)),
                None);
            let ghost before = violations@;
            violations.push(v);
            proof {
                assert(views(violations@) =~= views(before).push(v@));
            }
        }
        i += 1;
    }
    proof {
        assert(dirs@.take(n as int) =~= dirs@);
    }
    violations
}

} // verus!
