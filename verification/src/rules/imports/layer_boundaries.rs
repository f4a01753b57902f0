//! `layer-boundaries`: a layer imports only the layers at or after its own position in the
//! configured order.

use vstd::prelude::*;
use crate::chars::{decimal, push_decimal, push_str};
use crate::config::{index_of, layer_of, position_in, LayerBoundaryConfig, RuleConfig, Severity};
use crate::import_graph::{same_file, same_path, ImportEdge, ImportGraph};
use crate::rules::{views, Violation, ViolationView, LAYER_BOUNDARIES_RULE_ID};
use crate::syntax::{span_position, LineIndex, Span};

verus! {

pub const LAYER_BOUNDARIES_MESSAGE: &'static str = "Import crosses a layer boundary against the defined layer order.";

/// `<source> cannot import <target>. Allowed direction is <target> (index ti) -> <source> (index si).`
pub open spec fn layer_detail(source: Seq<char>, target: Seq<char>, target_index: nat, source_index: nat) -> Seq<char> {
    source + " cannot import "@ + target + ". Allowed direction is "@ + target + " (index "@ + decimal(target_index)
        + ") -> "@ + source + " (index "@ + decimal(source_index) + ")."@
}

/// The layer and position of the target of `e`, where it has both.
pub open spec fn target_layer(layers: LayerBoundaryConfig, e: ImportEdge) -> Option<(Seq<char>, int)> {
    match e.resolved_target {
        Some(t) => match layer_of(layers, t@) {
            Some(l) => match position_in(layers.order@, l) {
                Some(k) => Some((l, k)),
                None => None,
            },
            None => None,
        },
        None => None,
    }
}

/// The findings for the edges of `file` among `edges` whose target layer comes before the
/// source layer `source` (at position `si`), in order.
pub open spec fn layer_findings(layers: LayerBoundaryConfig, edges: Seq<ImportEdge>, file: Seq<char>, source: Seq<char>, si: int, index: LineIndex, severity: Severity) -> Seq<ViolationView>
    decreases edges.len(),
{
    if edges.len() == 0 {
        Seq::empty()
    } else {
        let e = edges.last();
        let rest = layer_findings(layers, edges.drop_last(), file, source, si, index, severity);
        match target_layer(layers, e) {
            Some((target, ti)) => if same_file(e.from@, file) && ti < si {
                let pos = span_position(index, e.span);
                rest.push(ViolationView {
                    file,
                    span: Some(e.span),
                    line: Some(pos.line),
                    column: Some(pos.column),
                    rule: LAYER_BOUNDARIES_RULE_ID@,
                    message: LAYER_BOUNDARIES_MESSAGE@,
                    severity,
                    detail: Some(layer_detail(source, target, ti as nat, si as nat)),
                    subject: None,
                })
            } else {
                rest
            },
            None => rest,
        }
    }
}

/// The findings of `file` under the layer order.
pub open spec fn layer_report(layers: LayerBoundaryConfig, g: ImportGraph, file: Seq<char>, index: LineIndex, severity: Severity) -> Seq<ViolationView> {
    if layers.order@.len() == 0 {
        Seq::empty()
    } else {
        match layer_of(layers, file) {
            Some(source) => match position_in(layers.order@, source) {
                Some(si) => layer_findings(layers, g.edges@, file, source, si, index, severity),
                None => Seq::empty(),
            },
            None => Seq::empty(),
        }
    }
}

fn layer_violation(file: &str, span: Span, line: usize, column: usize, source: &String, target: &String, ti: usize, si: usize, severity: Severity) -> (r: Violation)
    ensures
        r@ == (ViolationView {
            file: file@,
            span: Some(span),
            line: Some(line),
            column: Some(column),
            rule: LAYER_BOUNDARIES_RULE_ID@,
            message: LAYER_BOUNDARIES_MESSAGE@,
            severity,
            detail: Some(layer_detail(source@, target@, ti as nat, si as nat)),
            subject: None,
        }),
{
    let mut detail = String::new();
    push_str(&mut detail, source.as_str());
    push_str(&mut detail, " cannot import ");
    push_str(&mut detail, target.as_str());
    push_str(&mut detail, ". Allowed direction is ");
    push_str(&mut detail, target.as_str());
    push_str(&mut detail, " (index ");
    push_decimal(&mut detail, ti);
    push_str(&mut detail, ") -> ");
    push_str(&mut detail, source.as_str());
    push_str(&mut detail, " (index ");
    push_decimal(&mut detail, si);
    push_str(&mut detail, ").");
    proof {
        assert(detail@ =~= layer_detail(source@, target@, ti as nat, si as nat));
    }
    Violation::spanned(file, span, line, column, LAYER_BOUNDARIES_RULE_ID, LAYER_BOUNDARIES_MESSAGE, severity,
        Some(detail), None)
}

/// The findings of `file`: one for each of its imports whose target lies in a layer that comes
/// before the file's own layer in the order, in order. None where no layer is ordered, or
/// where the file is in no ordered layer.
pub fn check_file(file: &str, line_index: &LineIndex, import_graph: &ImportGraph, config: &RuleConfig, layers: &LayerBoundaryConfig) -> (r: Vec<Violation>)
    ensures
        views(r@) == layer_report(*layers, *import_graph, file@, *line_index, config.severity),
{
    let mut violations: Vec<Violation> = Vec::new();
    if !layers.is_configured() {
        return violations;
    }
    let source_layer = match layers.layer_for_file(file) {
        Some(layer) => layer,
        None => {
            return violations;
        },
    };
    let source_index = match index_of(&layers.order, source_layer.as_str()) {
        Some(index) => index,
        None => {
            return violations;
        },
    };
    let edges = &import_graph.edges;
    let n = edges.len();
    let mut i: usize = 0;
    while i < n
        invariant
            n == edges@.len(),
            edges@ == import_graph.edges@,
            0 <= i <= n,
            layer_of(*layers, file@) == Some(source_layer@),
            position_in(layers.order@, source_layer@) == Some(source_index as int),
            views(violations@) == layer_findings(*layers, edges@.take(i as int), file@, source_layer@, source_index as int,
                *line_index, config.severity),
        decreases n - i,
    {
        proof {
            assert(edges@.take(i as int + 1).drop_last() =~= edges@.take(i as int));
        }
        let edge = &edges[i];
        match &edge.resolved_target {
            Some(target) => {
                match layers.layer_for_file(target.as_str()) {
                    Some(target_layer) => {
                        match index_of(&layers.order, target_layer.as_str()) {
                            Some(target_index) => {
                                if same_path(edge.from.as_str(), file) && target_index < source_index {
                                    let pos = line_index.position_for(edge.span);
                                    let v = layer_violation(file, edge.span, pos.line, pos.column, source_layer, target_layer,
                                        target_index, source_index, config.severity);
                                    let ghost before = violations@;
                                    violations.push(v);
                                    proof {
                                        assert(views(violations@) =~= views(before).push(v@));
                                    }
                                }
                            },
                            None => {},
                        }
                    },
                    None => {},
                }
            },
            None => {},
        }
        i += 1;
    }
    proof {
        assert(edges@.take(n as int) =~= edges@);
    }
    violations
}

} // verus!
