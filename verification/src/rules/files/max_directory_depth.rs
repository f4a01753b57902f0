//! `max-directory-depth` over a directory inventory: entries may lie at most a configured
//! depth below the root.

use vstd::prelude::*;
use crate::chars::{decimal, push_decimal, push_str};
use crate::config::{MaxDirectoryDepthRuleConfig, Severity};
use crate::directory_inventory::{count_where, directory_is_ignored, is_ignored_dir, DirectoryFacts, DirectoryInventory};
use crate::rules::{views, Violation, ViolationView, MAX_DIRECTORY_DEPTH_RULE_ID};

verus! {

pub const MAX_DIRECTORY_DEPTH_MESSAGE: &'static str = "Directory nesting depth exceeds the configured limit.";

/// `Depth d exceeds maximum of m.`
pub open spec fn depth_detail(depth: nat, max_depth: nat) -> Seq<char> {
    "Depth "@ + decimal(depth) + " exceeds maximum of "@ + decimal(max_depth) + "."@
}

/// The finding for an entry at `path` that lies too deep.
pub open spec fn depth_finding(path: Seq<char>, depth: nat, max_depth: nat) -> ViolationView {
    ViolationView {
        file: path,
        span: None,
        line: None,
        column: None,
        rule: MAX_DIRECTORY_DEPTH_RULE_ID@,
        message: MAX_DIRECTORY_DEPTH_MESSAGE@,
        severity: Severity::Warn,
        detail: Some(depth_detail(depth, max_depth)),
        subject: None,
    }
}

/// The findings for entries at `paths`, all at `depth`: one each where `depth` exceeds the
/// limit.
pub open spec fn entries_too_deep(paths: Seq<String>, depth: nat, max_depth: nat) -> Seq<ViolationView> {
    if depth > max_depth {
        paths.map_values(|p: String| depth_finding(p@, depth, max_depth))
    } else {
        Seq::empty()
    }
}

/// The findings for one directory: its child directories, then its source files.
pub open spec fn directory_depth_findings(f: DirectoryFacts, ignore: Seq<String>, max_depth: nat) -> Seq<ViolationView> {
    if is_ignored_dir(f.path@, ignore) {
        Seq::empty()
    } else {
        entries_too_deep(f.subdirectories@, (f.depth + 1) as nat, max_depth) + entries_too_deep(f.source_files@, (f.depth + 1) as nat, max_depth)
    }
}

/// The findings for `dirs`, in order.
pub open spec fn depth_findings(dirs: Seq<DirectoryFacts>, ignore: Seq<String>, max_depth: nat) -> Seq<ViolationView>
    decreases dirs.len(),
{
    if dirs.len() == 0 {
        Seq::empty()
    } else {
        depth_findings(dirs.drop_last(), ignore, max_depth) + directory_depth_findings(dirs.last(), ignore, max_depth)
    }
}

/// The finding for an entry at `path` that lies `depth` levels deep, beyond `max_depth`.
pub fn depth_violation(path: &str, depth: usize, max_depth: usize) -> (r: Violation)
    ensures
        r@ == depth_finding(path@, depth as nat, max_depth as nat),
{
    let mut detail = String::new();
    push_str(&mut detail, "Depth ");
    push_decimal(&mut detail, depth);
    push_str(&mut detail, " exceeds maximum of ");
    push_decimal(&mut detail, max_depth);
    push_str(&mut detail, ".");
    proof {
        assert(detail@ =~= depth_detail(depth as nat, max_depth as nat));
    }
    Violation::located(path, None, None, MAX_DIRECTORY_DEPTH_RULE_ID, MAX_DIRECTORY_DEPTH_MESSAGE, Severity::Warn,
        Some(detail), None)
}

fn push_too_deep(out: &mut Vec<Violation>, paths: &Vec<String>, depth: usize, max_depth: usize)
    ensures
        views(final(out)@) == views(old(out)@) + entries_too_deep(paths@, depth as nat, max_depth as nat),
{
    let ghost start = views(out@);
    if depth <= max_depth {
        proof {
            assert(views(out@) =~= start + entries_too_deep(paths@, depth as nat, max_depth as nat));
        }
        return;
    }
    let n = paths.len();
    let mut k: usize = 0;
    while k < n
        invariant
            n == paths@.len(),
            0 <= k <= n,
            depth > max_depth,
            views(out@) == start + entries_too_deep(paths@.take(k as int), depth as nat, max_depth as nat),
        decreases n - k,
    {
        let v = depth_violation(paths[k].as_str(), depth, max_depth);
        let ghost before = out@;
        out.push(v);
        proof {
            assert(paths@.take(k as int + 1) =~= paths@.take(k as int).push(paths@[k as int]));
            assert(views(out@) =~= views(before).push(v@));
            assert(entries_too_deep(paths@.take(k as int + 1), depth as nat, max_depth as nat)
                =~= entries_too_deep(paths@.take(k as int), depth as nat, max_depth as nat).push(v@));
        }
        k += 1;
    }
    proof {
        assert(paths@.take(n as int) =~= paths@);
    }
}

/// One finding for each child directory and source file of a directory of `inventory` (skipped
/// directories aside) that lies deeper than `config.max_depth`; all at severity `Warn`.
pub fn check_inventory(inventory: &DirectoryInventory, config: &MaxDirectoryDepthRuleConfig) -> (r: Vec<Violation>)
    requires
        forall|k: int| 0 <= k < inventory.directories@.len() ==> (#[trigger] inventory.directories@[k]).depth < usize::MAX,
    ensures
        views(r@) == depth_findings(inventory.directories@, config.ignore_dirs@, config.max_depth as nat),
{
    let dirs = &inventory.directories;
    let n = dirs.len();
    let mut violations: Vec<Violation> = Vec::new();
    let mut i: usize = 0;
    while i < n
        invariant
            n == dirs@.len(),
            0 <= i <= n,
            forall|k: int| 0 <= k < dirs@.len() ==> (#[trigger] dirs@[k]).depth < usize::MAX,
            views(violations@) == depth_findings(dirs@.take(i as int), config.ignore_dirs@, config.max_depth as nat),
        decreases n - i,
    {
        proof {
            assert(dirs@.take(i as int + 1).drop_last() =~= dirs@.take(i as int));
        }
        let facts = &dirs[i];
        let ghost before = views(violations@);
        if !directory_is_ignored(facts.path.as_str(), &config.ignore_dirs) {
            let child_depth = facts.depth + 1;
            push_too_deep(&mut violations, &facts.subdirectories, child_depth, config.max_depth);
            push_too_deep(&mut violations, &facts.source_files, child_depth, config.max_depth);
        }
        proof {
            assert(views(violations@) =~= before + directory_depth_findings(dirs@[i as int], config.ignore_dirs@, config.max_depth as nat));
        }
        i += 1;
    }
    proof {
        assert(dirs@.take(n as int) =~= dirs@);
    }
    violations
}

/// The number of child directories and source files of the directories of `dirs`, skipped ones
/// aside, that lie deeper than `max_depth`.
pub open spec fn deep_entry_count(dirs: Seq<DirectoryFacts>, ignore: Seq<String>, max_depth: nat) -> nat
    decreases dirs.len(),
{
    if dirs.len() == 0 {
        0
    } else {
        let f = dirs.last();
        deep_entry_count(dirs.drop_last(), ignore, max_depth)
            + if !is_ignored_dir(f.path@, ignore) && f.depth + 1 > max_depth { f.subdirectories@.len() + f.source_files@.len() } else { 0nat }
    }
}

/// `p` is the path of a child directory or a source file of `f`.
pub open spec fn holds_entry(f: DirectoryFacts, p: Seq<char>) -> bool {
    ||| exists|j: int| 0 <= j < f.subdirectories@.len() && (#[trigger] f.subdirectories@[j])@ == p
    ||| exists|j: int| 0 <= j < f.source_files@.len() && (#[trigger] f.source_files@[j])@ == p
}

/// The finding `v` reports an entry at `path` lying `depth` levels deep, beyond `max_depth`.
pub open spec fn reports_depth(v: ViolationView, path: Seq<char>, depth: nat, max_depth: nat) -> bool {
    &&& v.file == path
    &&& v.severity == Severity::Warn
    &&& v.detail == Some("Depth "@ + decimal(depth) + " exceeds maximum of "@ + decimal(max_depth) + "."@)
}

/// Some finding of `vs` reports an entry at `path` lying `depth` levels deep, beyond
/// `max_depth`.
pub open spec fn depth_reported(vs: Seq<ViolationView>, path: Seq<char>, depth: nat, max_depth: nat) -> bool {
    exists|k: int| 0 <= k < vs.len() && reports_depth(#[trigger] vs[k], path, depth, max_depth)
}

/// `max-directory-depth` reports exactly the child directories and the source files of the
/// directories, skipped ones aside, whose entries lie deeper than `max_depth` (one level below
/// their directory): one finding each, naming the entry, at severity `Warn`, with its depth and
/// the limit in its detail.
pub proof fn lemma_depth_law(dirs: Seq<DirectoryFacts>, ignore: Seq<String>, max_depth: nat)
    ensures
        depth_findings(dirs, ignore, max_depth).len() == deep_entry_count(dirs, ignore, max_depth),
        forall|i: int, j: int| #![trigger dirs[i].source_files@[j]]
            0 <= i < dirs.len() && !is_ignored_dir(dirs[i].path@, ignore) && dirs[i].depth + 1 > max_depth
            && 0 <= j < dirs[i].source_files@.len()
            ==> depth_reported(depth_findings(dirs, ignore, max_depth), dirs[i].source_files@[j]@, (dirs[i].depth + 1) as nat, max_depth),
        forall|i: int, j: int| #![trigger dirs[i].subdirectories@[j]]
            0 <= i < dirs.len() && !is_ignored_dir(dirs[i].path@, ignore) && dirs[i].depth + 1 > max_depth
            && 0 <= j < dirs[i].subdirectories@.len()
            ==> depth_reported(depth_findings(dirs, ignore, max_depth), dirs[i].subdirectories@[j]@, (dirs[i].depth + 1) as nat, max_depth),
        forall|k: int| #![trigger depth_findings(dirs, ignore, max_depth)[k]] 0 <= k < depth_findings(dirs, ignore, max_depth).len()
            ==> exists|i: int| #![trigger dirs[i]] 0 <= i < dirs.len() && !is_ignored_dir(dirs[i].path@, ignore) && dirs[i].depth + 1 > max_depth
                && holds_entry(dirs[i], depth_findings(dirs, ignore, max_depth)[k].file),
    decreases dirs.len(),
{
    if dirs.len() > 0 {
        let p = dirs.drop_last();
        lemma_depth_law(p, ignore, max_depth);
        let n = dirs.len() - 1;
        let f = dirs[n];
        let ff = depth_findings(dirs, ignore, max_depth);
        let pp = depth_findings(p, ignore, max_depth);
        let d = (f.depth + 1) as nat;
        let es = entries_too_deep(f.subdirectories@, d, max_depth);
        let ef = entries_too_deep(f.source_files@, d, max_depth);
        let dd = directory_depth_findings(f, ignore, max_depth);
        assert(ff == pp + dd);
        assert forall|k: int| 0 <= k < pp.len() implies ff[k] == pp[k] by {}
        if !is_ignored_dir(f.path@, ignore) {
            assert(dd == es + ef);
        }
        assert forall|i: int, j: int| #![trigger dirs[i].source_files@[j]]
            0 <= i < dirs.len() && !is_ignored_dir(dirs[i].path@, ignore) && dirs[i].depth + 1 > max_depth
            && 0 <= j < dirs[i].source_files@.len()
            implies depth_reported(ff, dirs[i].source_files@[j]@, (dirs[i].depth + 1) as nat, max_depth) by {
            if i < n {
                assert(p[i] == dirs[i]);
                assert(p[i].source_files@[j] == dirs[i].source_files@[j]);
                let k = choose|k: int| 0 <= k < pp.len()
                    && reports_depth(#[trigger] pp[k], p[i].source_files@[j]@, (p[i].depth + 1) as nat, max_depth);
                assert(ff[k] == pp[k]);
            } else {
                let k = pp.len() + es.len() + j;
                assert(ff[k] == dd[es.len() + j]);
                assert(dd[es.len() + j] == ef[j]);
                assert(reports_depth(ff[k], dirs[i].source_files@[j]@, (dirs[i].depth + 1) as nat, max_depth));
            }
        }
        assert forall|i: int, j: int| #![trigger dirs[i].subdirectories@[j]]
            0 <= i < dirs.len() && !is_ignored_dir(dirs[i].path@, ignore) && dirs[i].depth + 1 > max_depth
            && 0 <= j < dirs[i].subdirectories@.len()
            implies depth_reported(ff, dirs[i].subdirectories@[j]@, (dirs[i].depth + 1) as nat, max_depth) by {
            if i < n {
                assert(p[i] == dirs[i]);
                assert(p[i].subdirectories@[j] == dirs[i].subdirectories@[j]);
                let k = choose|k: int| 0 <= k < pp.len()
                    && reports_depth(#[trigger] pp[k], p[i].subdirectories@[j]@, (p[i].depth + 1) as nat, max_depth);
                assert(ff[k] == pp[k]);
            } else {
                let k = pp.len() + j;
                assert(ff[k] == dd[j]);
                assert(dd[j] == es[j]);
                assert(reports_depth(ff[k], dirs[i].subdirectories@[j]@, (dirs[i].depth + 1) as nat, max_depth));
            }
        }
        assert forall|k: int| #![trigger ff[k]] 0 <= k < ff.len()
            implies exists|i: int| #![trigger dirs[i]] 0 <= i < dirs.len() && !is_ignored_dir(dirs[i].path@, ignore) && dirs[i].depth + 1 > max_depth
                && holds_entry(dirs[i], ff[k].file) by {
            if k < pp.len() {
                let i = choose|i: int| #![trigger p[i]] 0 <= i < p.len() && !is_ignored_dir(p[i].path@, ignore) && p[i].depth + 1 > max_depth
                    && holds_entry(p[i], pp[k].file);
                assert(p[i] == dirs[i]);
            } else {
                let t = k - pp.len();
                assert(ff[k] == dd[t]);
                assert(!is_ignored_dir(f.path@, ignore) && d > max_depth);
                if t < es.len() {
                    assert(dd[t] == es[t]);
                    assert(f.subdirectories@[t]@ == ff[k].file);
                } else {
                    assert(dd[t] == ef[t - es.len()]);
                    assert(f.source_files@[t - es.len()]@ == ff[k].file);
                }
                assert(holds_entry(dirs[n], ff[k].file));
            }
        }
    }
}

} // verus!
