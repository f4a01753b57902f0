//! `no-logic-in-barrel`: a barrel file (`index.ts`) holds re-exports only.

use vstd::prelude::*;
use crate::chars::str_equal;
use crate::config::RuleConfig;
use crate::paths::{file_name, file_name_of};
use crate::program::{ExportKind, ModuleItem, ModuleSyntax};
use crate::rules::{views, Violation, ViolationView, NO_LOGIC_IN_BARREL_RULE_ID};
use crate::syntax::{span_position, LineIndex, Span};

verus! {

pub const NO_LOGIC_IN_BARREL_MESSAGE: &'static str = "Keep barrel files limited to re-exports.";

/// A statement is a re-export: `export * from` or `export { ... } from`.
pub open spec fn is_re_export(item: ModuleItem) -> bool {
    match item {
        ModuleItem::Export(e) => match e.kind {
            ExportKind::All { .. } => true,
            ExportKind::Named { source, .. } => source is Some,
            ExportKind::Default => false,
        },
        _ => false,
    }
}

/// The span of a statement.
pub open spec fn item_span(item: ModuleItem) -> Span {
    match item {
        ModuleItem::Import(d) => d.span,
        ModuleItem::Export(e) => e.span,
        ModuleItem::Other(s) => s,
    }
}

/// The position of the first statement that is no re-export, if any.
pub open spec fn first_logic(body: Seq<ModuleItem>) -> Option<int> {
    if exists|i: int| 0 <= i < body.len() && !is_re_export(#[trigger] body[i]) {
        Some(choose|i: int| 0 <= i < body.len() && !is_re_export(#[trigger] body[i]) && forall|j: int| 0 <= j < i ==> is_re_export(#[trigger] body[j]))
    } else {
        None
    }
}

/// The findings of a module: where its file is named `index.ts` and some statement is no
/// re-export, one finding at the first such statement; else none.
pub open spec fn barrel_logic_findings(file: Seq<char>, index: LineIndex, config: RuleConfig, body: Seq<ModuleItem>) -> Seq<ViolationView> {
    if file_name(file) == "index.ts"@ {
        match first_logic(body) {
            Some(i) => {
                let span = item_span(body[i]);
                let pos = span_position(index, span);
                seq![ViolationView {
                    file,
                    span: Some(span),
                    line: Some(pos.line),
                    column: Some(pos.column),
                    rule: NO_LOGIC_IN_BARREL_RULE_ID@,
                    message: NO_LOGIC_IN_BARREL_MESSAGE@,
                    severity: config.severity,
                    detail: None,
                    subject: None,
                }]
            },
            None => Seq::empty(),
        }
    } else {
        Seq::empty()
    }
}

pub(crate) fn re_export(item: &ModuleItem) -> (r: bool)
    ensures
        r == is_re_export(*item),
{
    match item {
        ModuleItem::Export(e) => match &e.kind {
            ExportKind::All { .. } => true,
            ExportKind::Named { source, .. } => source.is_some(),
            ExportKind::Default => false,
        },
        _ => false,
    }
}

fn span_of_item(item: &ModuleItem) -> (r: Span)
    ensures
        r == item_span(*item),
{
    match item {
        ModuleItem::Import(d) => d.span,
        ModuleItem::Export(e) => e.span,
        ModuleItem::Other(s) => *s,
    }
}

/// The findings of `no-logic-in-barrel` on one module (see `barrel_logic_findings`).
pub fn check_file(file: &str, program: &ModuleSyntax, line_index: &LineIndex, config: &RuleConfig) -> (r: Vec<Violation>)
    ensures
        views(r@) == barrel_logic_findings(file@, *line_index, *config, program.body@),
{
    let mut out: Vec<Violation> = Vec::new();
    let name = file_name_of(file);
    if !str_equal(name.as_str(), "index.ts") {
        proof {
            assert(views(out@) =~= barrel_logic_findings(file@, *line_index, *config, program.body@));
        }
        return out;
    }
    let body = &program.body;
    let n = body.len();
    let mut i: usize = 0;
    while i < n
        invariant
            n == body@.len(),
            body@ == program.body@,
            0 <= i <= n,
            out@.len() == 0,
            file_name(file@) == "index.ts"@,
            forall|j: int| 0 <= j < i ==> is_re_export(#[trigger] body@[j]),
        decreases n - i,
    {
        if !re_export(&body[i]) {
            let span = span_of_item(&body[i]);
            let pos = line_index.position_for(span);
            let v = Violation::spanned(file, span, pos.line, pos.column, NO_LOGIC_IN_BARREL_RULE_ID, NO_LOGIC_IN_BARREL_MESSAGE, config.severity, None, None);
            out.push(v);
            proof {
                assert(!is_re_export(body@[i as int]));
                let c = choose|k: int| 0 <= k < body@.len() && !is_re_export(#[trigger] body@[k]) && forall|j: int| 0 <= j < k ==> is_re_export(#[trigger] body@[j]);
                assert(c == i) by {
                    if c < i {
                        assert(is_re_export(body@[c]));
                    }
                    if c > i {
                        assert(is_re_export(body@[i as int]));
                    }
                }
                assert(views(out@) =~= barrel_logic_findings(file@, *line_index, *config, program.body@));
            }
            return out;
        }
        i += 1;
    }
    proof {
        assert(views(out@) =~= barrel_logic_findings(file@, *line_index, *config, program.body@));
    }
    out
}

} // verus!
