//! `no-circular-import`: no file lies on an import cycle.
//!
//! Each cycle is reported once, at the file it is filed under, on that file's first import of
//! the next file of the cycle.

use vstd::prelude::*;
use crate::chars::{push_str, string_of};
use crate::config::{RuleConfig, Severity};
use crate::ignore::join;
use crate::import_graph::topology::{cycles_sound, is_import_cycle, CircularImportContext};
use crate::import_graph::{same_file, same_path, ImportEdge, ImportGraph};
use crate::paths::{file_name, file_name_of};
use crate::rules::{views, Violation, ViolationView, NO_CIRCULAR_IMPORT_RULE_ID};
use crate::syntax::{span_position, LineIndex};

verus! {

pub const NO_CIRCULAR_IMPORT_MESSAGE: &'static str = "Circular import chain detected.";

/// The cycle filed under `file`: the first whose file is `file`.
pub open spec fn cycle_for(cycles: Seq<(String, Vec<String>)>, file: Seq<char>) -> Option<Seq<Seq<char>>>
    decreases cycles.len(),
{
    if cycles.len() == 0 {
        None
    } else if same_file(cycles[0].0@, file) {
        Some(cycles[0].1@.map_values(|p: String| p@))
    } else {
        cycle_for(cycles.drop_first(), file)
    }
}

/// The name a path is shown by: its final segment, `?` where it has none.
pub open spec fn display_name(p: Seq<char>) -> Seq<char> {
    if file_name(p).len() > 0 { file_name(p) } else { "?"@ }
}

/// A cycle as text: the names of its files joined by ` -> `.
pub open spec fn cycle_text(c: Seq<Seq<char>>) -> Seq<char> {
    join(c.map_values(|p: Seq<char>| display_name(p)), " -> "@)
}

/// The edge `e` leads from `file` to `target`.
pub open spec fn edge_targets(e: ImportEdge, file: Seq<char>, target: Seq<char>) -> bool {
    &&& same_file(e.from@, file)
    &&& e.resolved_target matches Some(t)
    &&& same_file(t@, target)
}

/// The first edge of `edges` from `file` that resolves to `target`.
pub open spec fn first_edge_to(edges: Seq<ImportEdge>, file: Seq<char>, target: Seq<char>) -> Option<ImportEdge>
    decreases edges.len(),
{
    if edges.len() == 0 {
        None
    } else if edge_targets(edges[0], file, target) {
        Some(edges[0])
    } else {
        first_edge_to(edges.drop_first(), file, target)
    }
}

/// The findings of `file`: where a cycle is filed under it, one at its first import of the
/// cycle's next file; else none.
pub open spec fn cycle_report(g: ImportGraph, ctx: CircularImportContext, file: Seq<char>, index: LineIndex, severity: Severity) -> Seq<ViolationView> {
    match cycle_for(ctx.cycles_by_file@, file) {
        Some(c) => if c.len() >= 2 {
            match first_edge_to(g.edges@, file, c[1]) {
                Some(e) => {
                    let pos = span_position(index, e.span);
                    seq![ViolationView {
                        file,
                        span: Some(e.span),
                        line: Some(pos.line),
                        column: Some(pos.column),
                        rule: NO_CIRCULAR_IMPORT_RULE_ID@,
                        message: NO_CIRCULAR_IMPORT_MESSAGE@,
                        severity,
                        detail: Some(cycle_text(c)),
                        subject: Some(e.specifier@),
                    }]
                },
                None => Seq::empty(),
            }
        } else {
            Seq::empty()
        },
        None => Seq::empty(),
    }
}

/// A cycle as text: the names of its files joined by ` -> `.
pub fn format_cycle(cycle: &Vec<String>) -> (r: String)
    ensures
        r@ == cycle_text(cycle@.map_values(|p: String| p@)),
{
    let ghost names = cycle@.map_values(|p: String| p@).map_values(|p: Seq<char>| display_name(p));
    let mut out = String::new();
    let n = cycle.len();
    let mut i: usize = 0;
    while i < n
        invariant
            n == cycle@.len(),
            0 <= i <= n,
            names == cycle@.map_values(|p: String| p@).map_values(|p: Seq<char>| display_name(p)),
            out@ == join(names.take(i as int), " -> "@),
        decreases n - i,
    {
        proof {
            assert(names.take(i as int + 1).drop_last() =~= names.take(i as int));
            assert(names[i as int] == display_name(cycle@[i as int]@));
        }
        if i > 0 {
            push_str(&mut out, " -> ");
        }
        let name = file_name_of(cycle[i].as_str());
        if !is_empty_name(&name) {
            push_str(&mut out, name.as_str());
        } else {
            push_str(&mut out, "?");
        }
        proof {
            if i == 0 {
                assert(names.take(1) =~= seq![names[0]]);
            }
            assert(out@ =~= join(names.take(i as int + 1), " -> "@));
        }
        i += 1;
    }
    proof {
        assert(names.take(n as int) =~= names);
    }
    out
}

fn is_empty_name(s: &String) -> (r: bool)
    ensures
        r == (s@.len() == 0),
{
    crate::chars::chars_of(s.as_str()).len() == 0
}

fn lookup_cycle(context: &CircularImportContext, file: &str) -> (r: Option<usize>)
    ensures
        match r {
            Some(c) => c < context.cycles_by_file@.len()
                && cycle_for(context.cycles_by_file@, file@) == Some(context.cycles_by_file@[c as int].1@.map_values(|p: String| p@)),
            None => cycle_for(context.cycles_by_file@, file@) is None,
        },
{
    let cycles = &context.cycles_by_file;
    let nc = cycles.len();
    let mut c: usize = 0;
    proof {
        assert(cycles@.skip(0) =~= cycles@);
    }
    while c < nc
        invariant
            nc == cycles@.len(),
            cycles@ == context.cycles_by_file@,
            0 <= c <= nc,
            cycle_for(cycles@.skip(c as int), file@) == cycle_for(cycles@, file@),
        decreases nc - c,
    {
        proof {
            assert(cycles@.skip(c as int)[0] == cycles@[c as int]);
            assert(cycles@.skip(c as int).drop_first() =~= cycles@.skip(c as int + 1));
        }
        if same_path(cycles[c].0.as_str(), file) {
            return Some(c);
        }
        c += 1;
    }
    proof {
        assert(cycles@.skip(nc as int) =~= Seq::<(String, Vec<String>)>::empty());
    }
    None
}

/// The findings of `file`: where `context` files a cycle under `file`, one finding at the
/// first import of `file` that resolves to the cycle's next file, with the cycle as detail and
/// the import's specifier as subject; else none.
pub fn check_file(file: &str, line_index: &LineIndex, import_graph: &ImportGraph, context: &CircularImportContext, config: &RuleConfig) -> (r: Vec<Violation>)
    ensures
        views(r@) == cycle_report(*import_graph, *context, file@, *line_index, config.severity),
{
    let mut violations: Vec<Violation> = Vec::new();
    let c = match lookup_cycle(context, file) {
        Some(c) => c,
        None => {
            return violations;
        },
    };
    let cycle = &context.cycles_by_file[c].1;
    if cycle.len() < 2 {
        return violations;
    }
    let ghost cv = cycle@.map_values(|p: String| p@);
    let target = &cycle[1];
    let edges = &import_graph.edges;
    let n = edges.len();
    let mut i: usize = 0;
    proof {
        assert(edges@.skip(0) =~= edges@);
    }
    while i < n
        invariant
            n == edges@.len(),
            edges@ == import_graph.edges@,
            0 <= i <= n,
            first_edge_to(edges@.skip(i as int), file@, target@) == first_edge_to(edges@, file@, target@),
            violations@.len() == 0,
            cycle_for(context.cycles_by_file@, file@) == Some(cv),
            cv == cycle@.map_values(|p: String| p@),
            cv.len() >= 2,
            target@ == cv[1],
        decreases n - i,
    {
        proof {
            assert(edges@.skip(i as int)[0] == edges@[i as int]);
            assert(edges@.skip(i as int).drop_first() =~= edges@.skip(i as int + 1));
        }
        let edge = &edges[i];
        if same_path(edge.from.as_str(), file) {
            match &edge.resolved_target {
                Some(t) => {
                    if same_path(t.as_str(), target.as_str()) {
                        let pos = line_index.position_for(edge.span);
                        let detail = format_cycle(cycle);
                        let v = Violation::spanned(file, edge.span, pos.line, pos.column, NO_CIRCULAR_IMPORT_RULE_ID,
                            NO_CIRCULAR_IMPORT_MESSAGE, config.severity, Some(detail), Some(string_of(edge.specifier.as_str())));
                        violations.push(v);
                        proof {
                            assert(views(violations@) =~= seq![v@]);
                        }
                        return violations;
                    }
                },
                None => {},
            }
        }
        i += 1;
    }
    proof {
        assert(edges@.skip(n as int) =~= Seq::<ImportEdge>::empty());
    }
    violations
}

proof fn lemma_cycle_for_entry(cycles: Seq<(String, Vec<String>)>, file: Seq<char>)
    ensures
        cycle_for(cycles, file) matches Some(c) ==> exists|k: int| 0 <= k < cycles.len()
            && same_file((#[trigger] cycles[k]).0@, file) && c == cycles[k].1@.map_values(|p: String| p@),
    decreases cycles.len(),
{
    if cycles.len() > 0 && !same_file(cycles[0].0@, file) {
        lemma_cycle_for_entry(cycles.drop_first(), file);
        if cycle_for(cycles, file) is Some {
            let c = cycle_for(cycles, file)->0;
            let k = choose|k: int| 0 <= k < cycles.drop_first().len()
                && same_file((#[trigger] cycles.drop_first()[k]).0@, file) && c == cycles.drop_first()[k].1@.map_values(|p: String| p@);
            assert(cycles[k + 1] == cycles.drop_first()[k]);
        }
    } else if cycles.len() > 0 {
        assert(same_file(cycles[0].0@, file));
    }
}

/// A file gets at most one cycle finding, and only where it lies on an import cycle of the
/// graph: the cycle filed under it starts at a path naming the file and follows imports back
/// to it.
pub proof fn lemma_cycle_report_sound(g: ImportGraph, ctx: CircularImportContext, file: Seq<char>, index: LineIndex, severity: Severity)
    requires
        cycles_sound(g, ctx.cycles_by_file@),
    ensures
        cycle_report(g, ctx, file, index, severity).len() <= 1,
        cycle_report(g, ctx, file, index, severity).len() == 1 ==> exists|key: Seq<char>, c: Seq<Seq<char>>|
            same_file(key, file) && is_import_cycle(g, key, c),
{
    lemma_cycle_for_entry(ctx.cycles_by_file@, file);
    if cycle_report(g, ctx, file, index, severity).len() == 1 {
        let c = cycle_for(ctx.cycles_by_file@, file)->0;
        let k = choose|k: int| 0 <= k < ctx.cycles_by_file@.len()
            && same_file((#[trigger] ctx.cycles_by_file@[k]).0@, file) && c == ctx.cycles_by_file@[k].1@.map_values(|p: String| p@);
        assert(is_import_cycle(g, ctx.cycles_by_file@[k].0@, c));
    }
}

} // verus!
