//! `no-eval`: no call of `eval` and no `new Function(...)`.

use vstd::prelude::*;
use crate::chars::str_equal;
use crate::config::RuleConfig;
use crate::rules::{views, Violation, ViolationView, NO_EVAL_RULE_ID};
use crate::syntax::{span_position, LineIndex, Span};

verus! {

pub const NO_EVAL_MESSAGE: &'static str = "Disallow eval() and new Function() as they execute arbitrary code.";

/// A call or a `new` expression whose callee is a plain identifier, in the order the walk of a
/// module reaches them: whether it is a `new` expression, and the span and name of the callee.
#[derive(Debug)]
pub struct IdentifierCallee {
    pub is_new: bool,
    pub span: Span,
    pub name: String,
}

/// A callee is reported: `eval` called, or `Function` constructed.
pub open spec fn is_eval_like(c: IdentifierCallee) -> bool {
    if c.is_new { c.name@ == "Function"@ } else { c.name@ == "eval"@ }
}

/// The finding at a reported callee.
pub open spec fn eval_finding(file: Seq<char>, index: LineIndex, config: RuleConfig, span: Span) -> ViolationView {
    let pos = span_position(index, span);
    ViolationView {
        file,
        span: None,
        line: Some(pos.line),
        column: Some(pos.column),
        rule: NO_EVAL_RULE_ID@,
        message: NO_EVAL_MESSAGE@,
        severity: config.severity,
        detail: None,
        subject: None,
    }
}

/// The findings for the first `k` callees.
pub open spec fn eval_findings(file: Seq<char>, index: LineIndex, config: RuleConfig, callees: Seq<IdentifierCallee>, k: int) -> Seq<ViolationView>
    decreases k,
{
    if k <= 0 {
        Seq::empty()
    } else {
        let before = eval_findings(file, index, config, callees, k - 1);
        if is_eval_like(callees[k - 1]) {
            before.push(eval_finding(file, index, config, callees[k - 1].span))
        } else {
            before
        }
    }
}

/// The findings of `no-eval` on the identifier callees of one module (see `eval_findings`).
pub fn check_file(file: &str, callees: &Vec<IdentifierCallee>, line_index: &LineIndex, config: &RuleConfig) -> (r: Vec<Violation>)
    ensures
        views(r@) == eval_findings(file@, *line_index, *config, callees@, callees@.len() as int),
{
    let mut out: Vec<Violation> = Vec::new();
    let n = callees.len();
    let mut k: usize = 0;
    while k < n
        invariant
            n == callees@.len(),
            0 <= k <= n,
            views(out@) == eval_findings(file@, *line_index, *config, callees@, k as int),
        decreases n - k,
    {
        let c = &callees[k];
        let hit = if c.is_new { str_equal(c.name.as_str(), "Function") } else { str_equal(c.name.as_str(), "eval") };
        if hit {
            let ghost before = out@;
            let pos = line_index.position_for(c.span);
            let v = Violation::located(file, Some(pos.line), Some(pos.column), NO_EVAL_RULE_ID, NO_EVAL_MESSAGE, config.severity, None, None);
            out.push(v);
            proof {
                assert(views(out@) =~= views(before).push(v@));
            }
        }
        k += 1;
    }
    out
}

} // verus!
