//! `explicit-return-type`, in its plain form: every exported function has a return type.

use vstd::prelude::*;
use crate::chars::copy_opt_string;
use crate::config::RuleConfig;
use crate::rules::{opt_chars, views, Violation, ViolationView, EXPLICIT_RETURN_TYPE_RULE_ID};
use crate::syntax::{span_position, LineIndex, Span};

verus! {

pub const PLAIN_EXPLICIT_RETURN_TYPE_MESSAGE: &'static str = "Exported functions must have an explicit return type.";

/// An exported function, in the order the walk of a module reaches them: `export function`,
/// an `export const` declarator initialised with an arrow or a function expression,
/// `export default function` or a default-exported arrow; with the span of the function, its
/// name where it has one (a declarator's where it binds a plain identifier), and whether it
/// declares a return type.
#[derive(Debug)]
pub struct ExportedSignature {
    pub span: Span,
    pub name: Option<String>,
    pub has_return_type: bool,
}

/// The finding for an exported function without a return type.
pub open spec fn signature_finding(file: Seq<char>, index: LineIndex, config: RuleConfig, f: ExportedSignature) -> ViolationView {
    let pos = span_position(index, f.span);
    ViolationView {
        file,
        span: None,
        line: Some(pos.line),
        column: Some(pos.column),
        rule: EXPLICIT_RETURN_TYPE_RULE_ID@,
        message: PLAIN_EXPLICIT_RETURN_TYPE_MESSAGE@,
        severity: config.severity,
        detail: None,
        subject: opt_chars(f.name),
    }
}

/// The findings for the first `k` exported functions: one per function without a return type.
pub open spec fn signature_findings(file: Seq<char>, index: LineIndex, config: RuleConfig, fs: Seq<ExportedSignature>, k: int) -> Seq<ViolationView>
    decreases k,
{
    if k <= 0 {
        Seq::empty()
    } else {
        let before = signature_findings(file, index, config, fs, k - 1);
        if fs[k - 1].has_return_type {
            before
        } else {
            before.push(signature_finding(file, index, config, fs[k - 1]))
        }
    }
}

/// The findings of `explicit-return-type` on the exported functions of one module, in walk
/// order: one per function without a return type, at the function, named after it.
pub fn check_file(file: &str, functions: &Vec<ExportedSignature>, line_index: &LineIndex, config: &RuleConfig) -> (r: Vec<Violation>)
    ensures
        views(r@) == signature_findings(file@, *line_index, *config, functions@, functions@.len() as int),
{
    let mut out: Vec<Violation> = Vec::new();
    let n = functions.len();
    let mut k: usize = 0;
    while k < n
        invariant
            n == functions@.len(),
            0 <= k <= n,
            views(out@) == signature_findings(file@, *line_index, *config, functions@, k as int),
        decreases n - k,
    {
        let f = &functions[k];
        if !f.has_return_type {
            let ghost before = out@;
            let pos = line_index.position_for(f.span);
            let v = Violation::located(file, Some(pos.line), Some(pos.column), EXPLICIT_RETURN_TYPE_RULE_ID, PLAIN_EXPLICIT_RETURN_TYPE_MESSAGE, config.severity, None, copy_opt_string(&f.name));
            out.push(v);
            proof {
                assert(views(out@) =~= views(before).push(v@));
            }
        }
        k += 1;
    }
    out
}

} // verus!
