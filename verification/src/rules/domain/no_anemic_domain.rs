//! `no-anemic-domain`: a directory holds more than a configured number of source files.

use vstd::prelude::*;
use crate::chars::{decimal, push_decimal, push_str};
use crate::config::{NoAnemicDomainRuleConfig, Severity};
use crate::directory_inventory::{count_where, directory_is_ignored, is_ignored_dir, DirectoryFacts, DirectoryInventory};
use crate::rules::{views, Violation, ViolationView, NO_ANEMIC_DOMAIN_RULE_ID};

verus! {

pub const NO_ANEMIC_DOMAIN_MESSAGE: &'static str = "Domain has too few files. Consider flattening into a parent or sibling directory.";

/// `Contains n TypeScript file(s) (threshold: m).`
pub open spec fn anemic_detail(file_count: nat, max_files: nat) -> Seq<char> {
    "Contains "@ + decimal(file_count) + " TypeScript file"@ + (if file_count == 1 { Seq::empty() } else { "s"@ })
        + " (threshold: "@ + decimal(max_files) + ")."@
}

/// The finding for a directory at `dir` with too few files.
pub open spec fn anemic_finding(dir: Seq<char>, file_count: nat, max_files: nat) -> ViolationView {
    ViolationView {
        file: dir,
        span: None,
        line: None,
        column: None,
        rule: NO_ANEMIC_DOMAIN_RULE_ID@,
        message: NO_ANEMIC_DOMAIN_MESSAGE@,
        severity: Severity::Warn,
        detail: Some(anemic_detail(file_count, max_files)),
        subject: None,
    }
}

/// The findings for `dirs`, in order: directories (skipped ones aside) with at least one and at
/// most `max_files` source files.
pub open spec fn anemic_findings(dirs: Seq<DirectoryFacts>, ignore: Seq<String>, max_files: nat) -> Seq<ViolationView>
    decreases dirs.len(),
{
    if dirs.len() == 0 {
        Seq::empty()
    } else {
        let f = dirs.last();
        let count = f.source_files@.len();
        let rest = anemic_findings(dirs.drop_last(), ignore, max_files);
        if !is_ignored_dir(f.path@, ignore) && count > 0 && count <= max_files {
            rest.push(anemic_finding(f.path@, count, max_files))
        } else {
            rest
        }
    }
}

fn anemic_violation(dir: &str, file_count: usize, max_files: usize) -> (r: Violation)
    ensures
        r@ == anemic_finding(dir@, file_count as nat, max_files as nat),
{
    let mut detail = String::new();
    push_str(&mut detail, "Contains ");
    push_decimal(&mut detail, file_count);
    push_str(&mut detail, " TypeScript file");
    if file_count != 1 {
        push_str(&mut detail, "s");
    }
    push_str(&mut detail, " (threshold: ");
    push_decimal(&mut detail, max_files);
    push_str(&mut detail, ").");
    proof {
        assert(detail@ =~= anemic_detail(file_count as nat, max_files as nat));
    }
    Violation::located(dir, None, None, NO_ANEMIC_DOMAIN_RULE_ID, NO_ANEMIC_DOMAIN_MESSAGE, Severity::Warn,
        Some(detail), None)
}

/// One finding for each directory of `inventory` (skipped directories aside) that holds at
/// least one and at most `config.max_files` source files; all at severity `Warn`.
pub fn check_inventory(inventory: &DirectoryInventory, config: &NoAnemicDomainRuleConfig) -> (r: Vec<Violation>)
    ensures
        views(r@) == anemic_findings(inventory.directories@, config.ignore_dirs@, config.max_files as nat),
{
    let dirs = &inventory.directories;
    let n = dirs.len();
    let mut violations: Vec<Violation> = Vec::new();
    let mut i: usize = 0;
    while i < n
        invariant
            n == dirs@.len(),
            0 <= i <= n,
            views(violations@) == anemic_findings(dirs@.take(i as int), config.ignore_dirs@, config.max_files as nat),
        decreases n - i,
    {
        proof {
            assert(dirs@.take(i as int + 1).drop_last() =~= dirs@.take(i as int));
        }
        let facts = &dirs[i];
        if !directory_is_ignored(facts.path.as_str(), &config.ignore_dirs) {
            let file_count = facts.source_files.len();
            if file_count > 0 && file_count <= config.max_files {
                let v = anemic_violation(facts.path.as_str(), file_count, config.max_files);
                let ghost before = violations@;
                violations.push(v);
                proof {
                    assert(views(violations@) =~= views(before).push(v@));
                }
            }
        }
        i += 1;
    }
    proof {
        assert(dirs@.take(n as int) =~= dirs@);
    }
    violations
}

/// `no-anemic-domain` reports exactly the directories, skipped ones aside, that hold at least
/// one and at most `max_files` source files: one finding each, naming the directory, at
/// severity `Warn`, with the file count and the threshold in its detail.
pub proof fn lemma_anemic_law(dirs: Seq<DirectoryFacts>, ignore: Seq<String>, max_files: nat)
    ensures
        anemic_findings(dirs, ignore, max_files).len() == count_where(dirs, |f: DirectoryFacts| !is_ignored_dir(f.path@, ignore) && 0 < f.source_files@.len() <= max_files),
        forall|i: int| #![trigger dirs[i]] 0 <= i < dirs.len() && !is_ignored_dir(dirs[i].path@, ignore) && 0 < dirs[i].source_files@.len() <= max_files
            ==> exists|k: int| 0 <= k < anemic_findings(dirs, ignore, max_files).len() && anemic_findings(dirs, ignore, max_files)[k].file == dirs[i].path@ && anemic_findings(dirs, ignore, max_files)[k].severity == Severity::Warn && anemic_findings(dirs, ignore, max_files)[k].detail == Some("Contains "@ + decimal(dirs[i].source_files@.len()) + " TypeScript file"@ + (if dirs[i].source_files@.len() == 1 { Seq::<char>::empty() } else { "s"@ }) + " (threshold: "@ + decimal(max_files) + ")."@),
        forall|k: int| #![trigger anemic_findings(dirs, ignore, max_files)[k]] 0 <= k < anemic_findings(dirs, ignore, max_files).len() ==> exists|i: int| #![trigger dirs[i]] 0 <= i < dirs.len() && !is_ignored_dir(dirs[i].path@, ignore) && 0 < dirs[i].source_files@.len() <= max_files
            && anemic_findings(dirs, ignore, max_files)[k].file == dirs[i].path@,
    decreases dirs.len(),
{
    if dirs.len() > 0 {
        let p = dirs.drop_last();
        lemma_anemic_law(p, ignore, max_files);
        let ff = anemic_findings(dirs, ignore, max_files);
        let pp = anemic_findings(p, ignore, max_files);
        let n = dirs.len() - 1;
        assert forall|i: int| #![trigger dirs[i]] 0 <= i < dirs.len() && !is_ignored_dir(dirs[i].path@, ignore) && 0 < dirs[i].source_files@.len() <= max_files
            implies exists|k: int| 0 <= k < ff.len() && ff[k].file == dirs[i].path@ && ff[k].severity == Severity::Warn && ff[k].detail == Some("Contains "@ + decimal(dirs[i].source_files@.len()) + " TypeScript file"@ + (if dirs[i].source_files@.len() == 1 { Seq::<char>::empty() } else { "s"@ }) + " (threshold: "@ + decimal(max_files) + ")."@) by {
            if i < n {
                assert(p[i] == dirs[i]);
                let k = choose|k: int| 0 <= k < pp.len() && pp[k].file == p[i].path@ && pp[k].severity == Severity::Warn && pp[k].detail == Some("Contains "@ + decimal(p[i].source_files@.len()) + " TypeScript file"@ + (if p[i].source_files@.len() == 1 { Seq::<char>::empty() } else { "s"@ }) + " (threshold: "@ + decimal(max_files) + ")."@);
                assert(ff[k] == pp[k]);
            } else {
                let k = pp.len() as int;
                assert(ff[k].file == dirs[i].path@ && ff[k].severity == Severity::Warn && ff[k].detail == Some("Contains "@ + decimal(dirs[i].source_files@.len()) + " TypeScript file"@ + (if dirs[i].source_files@.len() == 1 { Seq::<char>::empty() } else { "s"@ }) + " (threshold: "@ + decimal(max_files) + ")."@));
            }
        }
        assert forall|k: int| #![trigger ff[k]] 0 <= k < ff.len() implies exists|i: int| #![trigger dirs[i]] 0 <= i < dirs.len() && !is_ignored_dir(dirs[i].path@, ignore) && 0 < dirs[i].source_files@.len() <= max_files
            && ff[k].file == dirs[i].path@ by {
            if k < pp.len() {
                assert(ff[k] == pp[k]);
                let i = choose|i: int| #![trigger p[i]] 0 <= i < p.len() && !is_ignored_dir(p[i].path@, ignore) && 0 < p[i].source_files@.len() <= max_files
                    && pp[k].file == p[i].path@;
                assert(p[i] == dirs[i]);
            } else {
                assert(ff[k].file == dirs[n].path@);
            }
        }
    }
}

} // verus!
