//! `no-barrel-chain`: a barrel file does not re-export from another barrel file.

use vstd::prelude::*;
use crate::chars::{push_str, string_of};
use crate::config::{RuleConfig, Severity};
use crate::import_graph::{node_of, same_file, same_path, ImportEdge, ImportGraph, ImportKind};
use crate::rules::{views, Violation, ViolationView, NO_BARREL_CHAIN_RULE_ID};
use crate::syntax::{span_position, LineIndex};

verus! {

pub const NO_BARREL_CHAIN_MESSAGE: &'static str = "Barrel files cannot re-export from other barrel files.";

/// `Re-export target '<specifier>' resolves to another index.ts barrel.`
pub open spec fn chain_detail(specifier: Seq<char>) -> Seq<char> {
    "Re-export target '"@ + specifier + "' resolves to another index.ts barrel."@
}

/// `e` re-exports a file that is itself a barrel.
pub open spec fn chains_to_barrel(g: ImportGraph, e: ImportEdge) -> bool {
    &&& e.kind == ImportKind::ReExport
    &&& e.resolved_target matches Some(t)
    &&& node_of(g.files@, t@) matches Some(n)
    &&& n.is_barrel
}

/// The finding for the edge `e` of `file`.
pub open spec fn chain_finding(file: Seq<char>, index: LineIndex, e: ImportEdge, severity: Severity) -> ViolationView {
    let pos = span_position(index, e.span);
    ViolationView {
        file,
        span: Some(e.span),
        line: Some(pos.line),
        column: Some(pos.column),
        rule: NO_BARREL_CHAIN_RULE_ID@,
        message: NO_BARREL_CHAIN_MESSAGE@,
        severity,
        detail: Some(chain_detail(e.specifier@)),
        subject: Some(e.specifier@),
    }
}

/// The findings for the edges of `file` among `edges` that re-export a barrel, in order.
pub open spec fn chain_findings(g: ImportGraph, edges: Seq<ImportEdge>, file: Seq<char>, index: LineIndex, severity: Severity) -> Seq<ViolationView>
    decreases edges.len(),
{
    if edges.len() == 0 {
        Seq::empty()
    } else {
        let e = edges.last();
        let rest = chain_findings(g, edges.drop_last(), file, index, severity);
        if same_file(e.from@, file) && chains_to_barrel(g, e) {
            rest.push(chain_finding(file, index, e, severity))
        } else {
            rest
        }
    }
}

/// The findings of a barrel file: one for each of its re-exports whose target is a barrel,
/// in order; none where `file` is no barrel of the graph.
pub fn check_file(file: &str, line_index: &LineIndex, import_graph: &ImportGraph, config: &RuleConfig) -> (r: Vec<Violation>)
    ensures
        views(r@) == if node_of(import_graph.files@, file@) matches Some(n) && n.is_barrel {
            chain_findings(*import_graph, import_graph.edges@, file@, *line_index, config.severity)
        } else {
            Seq::empty()
        },
{
    let mut violations: Vec<Violation> = Vec::new();
    match import_graph.file_node(file) {
        Some(node) => {
            if !node.is_barrel {
                return violations;
            }
        },
        None => {
            return violations;
        },
    }
    let edges = &import_graph.edges;
    let n = edges.len();
    let mut i: usize = 0;
    while i < n
        invariant
            n == edges@.len(),
            edges == &import_graph.edges,
            0 <= i <= n,
            views(violations@) == chain_findings(*import_graph, edges@.take(i as int), file@, *line_index, config.severity),
        decreases n - i,
    {
        proof {
            assert(edges@.take(i as int + 1).drop_last() =~= edges@.take(i as int));
        }
        let edge = &edges[i];
        if same_path(edge.from.as_str(), file) && edge.kind == ImportKind::ReExport {
            match &edge.resolved_target {
                Some(target) => {
                    match import_graph.file_node(target.as_str()) {
                        Some(target_node) => {
                            if target_node.is_barrel {
                                let pos = line_index.position_for(edge.span);
                                let mut detail = String::new();
                                push_str(&mut detail, "Re-export target '");
                                push_str(&mut detail, edge.specifier.as_str());
                                push_str(&mut detail, "' resolves to another index.ts barrel.");
                                proof {
                                    assert(detail@ =~= chain_detail(edge.specifier@));
                                }
                                let v = Violation::spanned(file, edge.span, pos.line, pos.column, NO_BARREL_CHAIN_RULE_ID,
                                    NO_BARREL_CHAIN_MESSAGE, config.severity, Some(detail), Some(string_of(edge.specifier.as_str())));
                                let ghost before = violations@;
                                violations.push(v);
                                proof {
                                    assert(views(violations@) =~= views(before).push(v@));
                                }
                            }
                        },
                        None => {},
                    }
                },
                None => {},
            }
        }
        i += 1;
    }
    proof {
        assert(edges@.take(n as int) =~= edges@);
    }
    violations
}

} // verus!
