//! `no-private-package-import`: a package imports only the public entry points of other
//! packages.

use vstd::prelude::*;
use crate::chars::{push_str, string_of};
use crate::config::{RuleConfig, Severity};
use crate::import_graph::{same_file, same_path, ImportEdge, ImportGraph};
use crate::rules::{views, Violation, ViolationView, NO_PRIVATE_PACKAGE_IMPORT_RULE_ID};
use crate::syntax::{span_position, LineIndex};
use crate::workspace::{is_entrypoint, package_of, Package, Workspace};

verus! {

pub const NO_PRIVATE_PACKAGE_IMPORT_MESSAGE: &'static str = "Import from another package's internal file is not allowed.";

/// ``imports from `<package>` package internal``
pub open spec fn private_detail(package: Seq<char>) -> Seq<char> {
    "imports from `"@ + package + "` package internal"@
}

/// The package whose internal file `e` imports, where it imports one of another package than
/// `source`.
pub open spec fn private_target(w: Workspace, source: Package, e: ImportEdge) -> Option<Package> {
    match e.resolved_target {
        Some(t) => match package_of(w, t@) {
            Some(p) => if !same_file(source.directory@, p.directory@) && !is_entrypoint(p, t@) { Some(p) } else { None },
            None => None,
        },
        None => None,
    }
}

/// The findings for the edges of `file` among `edges` that import another package's internal
/// file, in order.
pub open spec fn private_findings(w: Workspace, source: Package, edges: Seq<ImportEdge>, file: Seq<char>, index: LineIndex, severity: Severity) -> Seq<ViolationView>
    decreases edges.len(),
{
    if edges.len() == 0 {
        Seq::empty()
    } else {
        let e = edges.last();
        let rest = private_findings(w, source, edges.drop_last(), file, index, severity);
        match private_target(w, source, e) {
            Some(p) => if same_file(e.from@, file) {
                let pos = span_position(index, e.span);
                rest.push(ViolationView {
                    file,
                    span: Some(e.span),
                    line: Some(pos.line),
                    column: Some(pos.column),
                    rule: NO_PRIVATE_PACKAGE_IMPORT_RULE_ID@,
                    message: NO_PRIVATE_PACKAGE_IMPORT_MESSAGE@,
                    severity,
                    detail: Some(private_detail(p.name@)),
                    subject: Some(e.specifier@),
                })
            } else {
                rest
            },
            None => rest,
        }
    }
}

/// The findings of `file`.
pub open spec fn private_report(g: ImportGraph, file: Seq<char>, index: LineIndex, workspace: Option<Workspace>, severity: Severity) -> Seq<ViolationView> {
    if severity == Severity::Off {
        Seq::empty()
    } else {
        match workspace {
            Some(w) => match package_of(w, file) {
                Some(source) => private_findings(w, source, g.edges@, file, index, severity),
                None => Seq::empty(),
            },
            None => Seq::empty(),
        }
    }
}

/// The findings of `file`: one for each of its imports of a file of another package that is
/// not one of that package's public entry points, in order. None where the rule is off, where
/// there is no workspace, or where `file` lies in no package.
pub fn check_file(file: &str, line_index: &LineIndex, import_graph: &ImportGraph, workspace: Option<&Workspace>, config: &RuleConfig) -> (r: Vec<Violation>)
    ensures
        views(r@) == private_report(*import_graph, file@, *line_index,
            match workspace { Some(w) => Some(*w), None => None }, config.severity),
{
    let mut violations: Vec<Violation> = Vec::new();
    if !config.severity.is_enabled() {
        return violations;
    }
    let workspace = match workspace {
        Some(w) => w,
        None => {
            return violations;
        },
    };
    let source_package = match workspace.package_for(file) {
        Some(p) => p,
        None => {
            return violations;
        },
    };
    let edges = &import_graph.edges;
    let n = edges.len();
    let mut i: usize = 0;
    while i < n
        invariant
            n == edges@.len(),
            edges@ == import_graph.edges@,
            0 <= i <= n,
            package_of(*workspace, file@) == Some(*source_package),
            views(violations@) == private_findings(*workspace, *source_package, edges@.take(i as int), file@, *line_index,
                config.severity),
        decreases n - i,
    {
        proof {
            assert(edges@.take(i as int + 1).drop_last() =~= edges@.take(i as int));
        }
        let edge = &edges[i];
        match &edge.resolved_target {
            Some(target) => {
                match workspace.package_for(target.as_str()) {
                    Some(target_package) => {
                        if !same_path(source_package.directory.as_str(), target_package.directory.as_str())
                            && !target_package.exposes(target.as_str()) && same_path(edge.from.as_str(), file) {
                            let pos = line_index.position_for(edge.span);
                            let mut detail = String::new();
                            push_str(&mut detail, "imports from `");
                            push_str(&mut detail, target_package.name.as_str());
                            push_str(&mut detail, "` package internal");
                            proof {
                                assert(detail@ =~= private_detail(target_package.name@));
                            }
                            let v = Violation::spanned(file, edge.span, pos.line, pos.column, NO_PRIVATE_PACKAGE_IMPORT_RULE_ID,
                                NO_PRIVATE_PACKAGE_IMPORT_MESSAGE, config.severity, Some(detail),
                                Some(string_of(edge.specifier.as_str())));
                            let ghost before = violations@;
                            violations.push(v);
                            proof {
                                assert(views(violations@) =~= views(before).push(v@));
                            }
                        }
                    },
                    None => {},
                }
            },
            None => {},
        }
        i += 1;
    }
    proof {
        assert(edges@.take(n as int) =~= edges@);
    }
    violations
}

} // verus!
