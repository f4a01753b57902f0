//! `no-side-effect-imports`: every import declaration imports some binding or type; a bare
//! `import "<module>"` is reported.

use vstd::prelude::*;
use crate::chars::{copy_string, push_str, string_of};
use crate::config::RuleConfig;
use crate::rules::{views, Violation, ViolationView, NO_SIDE_EFFECT_IMPORTS_RULE_ID};
use crate::syntax::{span_position, LineIndex, Span};

verus! {

pub const NO_SIDE_EFFECT_IMPORTS_MESSAGE: &'static str = "Avoid side-effect imports; import named bindings or types instead.";

/// An import declaration, in the order the walk of a module reaches them: its span, its module
/// specifier, and whether it has an import clause (`import {} from` has an empty one; a bare
/// `import "<module>"` has none).
#[derive(Debug)]
pub struct ImportStatement {
    pub span: Span,
    pub source: String,
    pub has_clause: bool,
}

/// `"<source>" is imported only for side effects`.
pub open spec fn side_effect_detail(source: Seq<char>) -> Seq<char> {
    "\""@ + source + "\" is imported only for side effects"@
}

/// The finding at a bare import.
pub open spec fn side_effect_finding(file: Seq<char>, index: LineIndex, config: RuleConfig, d: ImportStatement) -> ViolationView {
    let pos = span_position(index, d.span);
    ViolationView {
        file,
        span: Some(d.span),
        line: Some(pos.line),
        column: Some(pos.column),
        rule: NO_SIDE_EFFECT_IMPORTS_RULE_ID@,
        message: NO_SIDE_EFFECT_IMPORTS_MESSAGE@,
        severity: config.severity,
        detail: Some(side_effect_detail(d.source@)),
        subject: Some(d.source@),
    }
}

/// The findings for the first `k` import declarations: one per bare import.
pub open spec fn side_effect_findings(file: Seq<char>, index: LineIndex, config: RuleConfig, imports: Seq<ImportStatement>, k: int) -> Seq<ViolationView>
    decreases k,
{
    if k <= 0 {
        Seq::empty()
    } else {
        let before = side_effect_findings(file, index, config, imports, k - 1);
        if imports[k - 1].has_clause {
            before
        } else {
            before.push(side_effect_finding(file, index, config, imports[k - 1]))
        }
    }
}

/// The findings of `no-side-effect-imports` on the import declarations of one module (see
/// `side_effect_findings`).
pub fn check_file(file: &str, imports: &Vec<ImportStatement>, line_index: &LineIndex, config: &RuleConfig) -> (r: Vec<Violation>)
    ensures
        views(r@) == side_effect_findings(file@, *line_index, *config, imports@, imports@.len() as int),
{
    let mut out: Vec<Violation> = Vec::new();
    let n = imports.len();
    let mut k: usize = 0;
    while k < n
        invariant
            n == imports@.len(),
            0 <= k <= n,
            views(out@) == side_effect_findings(file@, *line_index, *config, imports@, k as int),
        decreases n - k,
    {
        let d = &imports[k];
        if !d.has_clause {
            let ghost before = out@;
            let mut detail = string_of("\"");
            push_str(&mut detail, d.source.as_str());
            push_str(&mut detail, "\" is imported only for side effects");
            proof {
                assert(detail@ =~= side_effect_detail(d.source@));
            }
            let pos = line_index.position_for(d.span);
            let v = Violation::spanned(file, d.span, pos.line, pos.column, NO_SIDE_EFFECT_IMPORTS_RULE_ID, NO_SIDE_EFFECT_IMPORTS_MESSAGE, config.severity, Some(detail), Some(copy_string(&d.source)));
            out.push(v);
            proof {
                assert(views(out@) =~= views(before).push(v@));
            }
        }
        k += 1;
    }
    out
}

} // verus!
