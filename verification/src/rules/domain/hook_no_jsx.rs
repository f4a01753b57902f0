//! `hook-no-jsx`, read from the JSX of a module: a file of the hooks domain holds no JSX
//! element or fragment; the first one is reported.

use vstd::prelude::*;
use crate::config::{DomainConfig, RuleConfig};
use crate::rules::hook_no_jsx::HOOK_NO_JSX_MESSAGE;
use crate::rules::{domain_matches_file, matches_domain, views, Violation, ViolationView, HOOK_NO_JSX_RULE_ID};
use crate::syntax::{span_position, LineIndex, Span};

verus! {

/// The findings of a module whose JSX elements and fragments, in walk order, span `jsx`: one at
/// the first of them in a file of the hooks domain, else none.
pub open spec fn hook_jsx_findings(file: Seq<char>, index: LineIndex, config: RuleConfig, hooks: DomainConfig, jsx: Seq<Span>) -> Seq<ViolationView> {
    if matches_domain(file, hooks) && jsx.len() > 0 {
        let span = jsx[0];
        let pos = span_position(index, span);
        seq![ViolationView {
            file,
            span: Some(span),
            line: Some(pos.line),
            column: Some(pos.column),
            rule: HOOK_NO_JSX_RULE_ID@,
            message: HOOK_NO_JSX_MESSAGE@,
            severity: config.severity,
            detail: None,
            subject: None,
        }]
    } else {
        Seq::empty()
    }
}

/// The findings of `hook-no-jsx` on the JSX elements and fragments of one module (see
/// `hook_jsx_findings`).
pub fn check_file(file: &str, jsx: &Vec<Span>, line_index: &LineIndex, config: &RuleConfig, hooks: &DomainConfig) -> (r: Vec<Violation>)
    ensures
        views(r@) == hook_jsx_findings(file@, *line_index, *config, *hooks, jsx@),
{
    let mut out: Vec<Violation> = Vec::new();
    if domain_matches_file(file, hooks) && jsx.len() > 0 {
        let span = jsx[0];
        let pos = line_index.position_for(span);
        let v = Violation::spanned(file, span, pos.line, pos.column, HOOK_NO_JSX_RULE_ID, HOOK_NO_JSX_MESSAGE, config.severity, None, None);
        out.push(v);
    }
    proof {
        assert(views(out@) =~= hook_jsx_findings(file@, *line_index, *config, *hooks, jsx@));
    }
    out
}

} // verus!
