//! `no-empty-directories`: a directory holds some source file or child directory, and not only
//! empty barrels.

use vstd::prelude::*;
use crate::config::{NoEmptyDirectoriesRuleConfig, Severity};
use crate::directory_inventory::{count_where, directory_is_ignored, is_ignored_dir, BarrelFile, DirectoryFacts, DirectoryInventory};
use crate::rules::{views, Violation, ViolationView, NO_EMPTY_DIRECTORIES_RULE_ID};

verus! {

pub const NO_EMPTY_DIRECTORIES_MESSAGE: &'static str = "Remove directories with no source files or only empty barrel files.";

/// Every barrel is empty.
pub open spec fn all_barrels_empty(barrels: Seq<BarrelFile>) -> bool {
    forall|k: int| 0 <= k < barrels.len() ==> (#[trigger] barrels[k]).is_empty
}

/// A directory that is empty: nothing in it, or no child directory and only source files that
/// are all empty barrels.
pub open spec fn is_empty_directory(f: DirectoryFacts) -> bool {
    let files = f.source_files@.len();
    let subdirs = f.subdirectories@.len();
    let barrels = f.barrel_files@.len();
    ||| (files == 0 && subdirs == 0)
    ||| (files > 0 && subdirs == 0 && files == barrels && barrels > 0 && all_barrels_empty(f.barrel_files@))
}

/// The finding for an empty directory.
pub open spec fn empty_finding(dir: Seq<char>) -> ViolationView {
    ViolationView {
        file: dir,
        span: None,
        line: None,
        column: None,
        rule: NO_EMPTY_DIRECTORIES_RULE_ID@,
        message: NO_EMPTY_DIRECTORIES_MESSAGE@,
        severity: Severity::Warn,
        detail: None,
        subject: None,
    }
}

/// The findings for `dirs`, in order.
pub open spec fn empty_findings(dirs: Seq<DirectoryFacts>, ignore: Seq<String>) -> Seq<ViolationView>
    decreases dirs.len(),
{
    if dirs.len() == 0 {
        Seq::empty()
    } else {
        let f = dirs.last();
        let rest = empty_findings(dirs.drop_last(), ignore);
        if !is_ignored_dir(f.path@, ignore) && is_empty_directory(f) { rest.push(empty_finding(f.path@)) } else { rest }
    }
}

fn barrels_all_empty(barrels: &Vec<BarrelFile>) -> (r: bool)
    ensures
        r == all_barrels_empty(barrels@),
{
    let n = barrels.len();
    let mut k: usize = 0;
    while k < n
        invariant
            n == barrels@.len(),
            0 <= k <= n,
            forall|t: int| 0 <= t < k ==> (#[trigger] barrels@[t]).is_empty,
        decreases n - k,
    {
        if !barrels[k].is_empty {
            return false;
        }
        k += 1;
    }
    true
}

/// One finding for each empty directory of `inventory` (skipped directories aside); all at
/// severity `Warn`.
pub fn check_inventory(inventory: &DirectoryInventory, config: &NoEmptyDirectoriesRuleConfig) -> (r: Vec<Violation>)
    requires
        forall|k: int| 0 <= k < inventory.directories@.len() ==>
            (#[trigger] inventory.directories@[k]).barrel_files@.len() <= inventory.directories@[k].source_files@.len(),
    ensures
        views(r@) == empty_findings(inventory.directories@, config.ignore_dirs@),
{
    let dirs = &inventory.directories;
    let n = dirs.len();
    let mut violations: Vec<Violation> = Vec::new();
    let mut i: usize = 0;
    while i < n
        invariant
            n == dirs@.len(),
            0 <= i <= n,
            forall|k: int| 0 <= k < dirs@.len() ==>
                (#[trigger] dirs@[k]).barrel_files@.len() <= dirs@[k].source_files@.len(),
            views(violations@) == empty_findings(dirs@.take(i as int), config.ignore_dirs@),
        decreases n - i,
    {
        proof {
            assert(dirs@.take(i as int + 1).drop_last() =~= dirs@.take(i as int));
        }
        let facts = &dirs[i];
        if !directory_is_ignored(facts.path.as_str(), &config.ignore_dirs) {
            let has_source_file = facts.source_files.len() > 0;
            let has_subdirs = facts.subdirectories.len() > 0;
            let is_empty_dir = !has_source_file && !has_subdirs;
            let is_empty_barrel_dir = if has_source_file && !has_subdirs {
                let barrel_count = facts.barrel_files.len();
                let non_barrel_count = facts.source_files.len() - barrel_count;
                if non_barrel_count == 0 && barrel_count > 0 {
                    barrels_all_empty(&facts.barrel_files)
                } else {
                    false
                }
            } else {
                false
            };
            if is_empty_dir || is_empty_barrel_dir {
                let v = Violation::located(facts.path.as_str(), None, None, NO_EMPTY_DIRECTORIES_RULE_ID,
                    NO_EMPTY_DIRECTORIES_MESSAGE, Severity::Warn, None, None);
                let ghost before = violations@;
                violations.push(v);
                proof {
                    assert(views(violations@) =~= views(before).push(v@));
                }
            }
        }
        i += 1;
    }
    proof {
        assert(dirs@.take(n as int) =~= dirs@);
    }
    violations
}

/// `no-empty-directories` reports exactly the directories, skipped ones aside, that have no
/// child directory and either no source file or only source files that are all barrels, every
/// one empty: one finding each, naming the directory, at severity `Warn`, with no detail.
pub proof fn lemma_empty_law(dirs: Seq<DirectoryFacts>, ignore: Seq<String>)
    ensures
        empty_findings(dirs, ignore).len() == count_where(dirs, |f: DirectoryFacts| !is_ignored_dir(f.path@, ignore) && f.subdirectories@.len() == 0 && (f.source_files@.len() == 0 || (f.barrel_files@.len() == f.source_files@.len() && forall|b: int| 0 <= b < f.barrel_files@.len() ==> (#[trigger] f.barrel_files@[b]).is_empty))),
        forall|i: int| #![trigger dirs[i]] 0 <= i < dirs.len() && !is_ignored_dir(dirs[i].path@, ignore) && dirs[i].subdirectories@.len() == 0 && (dirs[i].source_files@.len() == 0 || (dirs[i].barrel_files@.len() == dirs[i].source_files@.len() && forall|b: int| 0 <= b < dirs[i].barrel_files@.len() ==> (#[trigger] dirs[i].barrel_files@[b]).is_empty))
            ==> exists|k: int| 0 <= k < empty_findings(dirs, ignore).len() && empty_findings(dirs, ignore)[k].file == dirs[i].path@ && empty_findings(dirs, ignore)[k].severity == Severity::Warn && empty_findings(dirs, ignore)[k].detail is None,
        forall|k: int| #![trigger empty_findings(dirs, ignore)[k]] 0 <= k < empty_findings(dirs, ignore).len() ==> exists|i: int| #![trigger dirs[i]] 0 <= i < dirs.len() && !is_ignored_dir(dirs[i].path@, ignore) && dirs[i].subdirectories@.len() == 0 && (dirs[i].source_files@.len() == 0 || (dirs[i].barrel_files@.len() == dirs[i].source_files@.len() && forall|b: int| 0 <= b < dirs[i].barrel_files@.len() ==> (#[trigger] dirs[i].barrel_files@[b]).is_empty))
            && empty_findings(dirs, ignore)[k].file == dirs[i].path@,
    decreases dirs.len(),
{
    if dirs.len() > 0 {
        let p = dirs.drop_last();
        lemma_empty_law(p, ignore);
        let ff = empty_findings(dirs, ignore);
        let pp = empty_findings(p, ignore);
        let n = dirs.len() - 1;
        assert forall|i: int| #![trigger dirs[i]] 0 <= i < dirs.len() && !is_ignored_dir(dirs[i].path@, ignore) && dirs[i].subdirectories@.len() == 0 && (dirs[i].source_files@.len() == 0 || (dirs[i].barrel_files@.len() == dirs[i].source_files@.len() && forall|b: int| 0 <= b < dirs[i].barrel_files@.len() ==> (#[trigger] dirs[i].barrel_files@[b]).is_empty))
            implies exists|k: int| 0 <= k < ff.len() && ff[k].file == dirs[i].path@ && ff[k].severity == Severity::Warn && ff[k].detail is None by {
            if i < n {
                assert(p[i] == dirs[i]);
                let k = choose|k: int| 0 <= k < pp.len() && pp[k].file == p[i].path@ && pp[k].severity == Severity::Warn && pp[k].detail is None;
                assert(ff[k] == pp[k]);
            } else {
                let k = pp.len() as int;
                assert(ff[k].file == dirs[i].path@ && ff[k].severity == Severity::Warn && ff[k].detail is None);
            }
        }
        assert forall|k: int| #![trigger ff[k]] 0 <= k < ff.len() implies exists|i: int| #![trigger dirs[i]] 0 <= i < dirs.len() && !is_ignored_dir(dirs[i].path@, ignore) && dirs[i].subdirectories@.len() == 0 && (dirs[i].source_files@.len() == 0 || (dirs[i].barrel_files@.len() == dirs[i].source_files@.len() && forall|b: int| 0 <= b < dirs[i].barrel_files@.len() ==> (#[trigger] dirs[i].barrel_files@[b]).is_empty))
            && ff[k].file == dirs[i].path@ by {
            if k < pp.len() {
                assert(ff[k] == pp[k]);
                let i = choose|i: int| #![trigger p[i]] 0 <= i < p.len() && !is_ignored_dir(p[i].path@, ignore) && p[i].subdirectories@.len() == 0 && (p[i].source_files@.len() == 0 || (p[i].barrel_files@.len() == p[i].source_files@.len() && forall|b: int| 0 <= b < p[i].barrel_files@.len() ==> (#[trigger] p[i].barrel_files@[b]).is_empty))
                    && pp[k].file == p[i].path@;
                assert(p[i] == dirs[i]);
            } else {
                assert(ff[k].file == dirs[n].path@);
            }
        }
    }
}

} // verus!
