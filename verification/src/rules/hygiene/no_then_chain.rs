//! `no-then-chain`: `.then(...)` calls are reported, all of them, or, where a single one is
//! allowed, those that are part of a chain of `.then`, `.catch` and `.finally` calls.

use vstd::prelude::*;
use crate::chars::str_equal;
use crate::config::NoThenChainRuleConfig;
use crate::rules::{views, Violation, ViolationView, NO_THEN_CHAIN_RULE_ID};
use crate::syntax::{span_position, LineIndex, Span};

verus! {

pub const NO_THEN_CHAIN_MESSAGE: &'static str = "Prefer async/await over .then() chains.";

/// The call a member access is made on: its span, and the name of the member its callee
/// accesses where the callee is a static member access.
#[derive(Debug)]
pub struct InnerCall {
    pub span: Span,
    pub method: Option<String>,
}

/// A call whose callee is a static member access (`<object>.<method>(...)`), in the order the
/// walk of a module reaches them: its span, the member's name, and the call the object is,
/// where it is one.
#[derive(Debug)]
pub struct MemberCall {
    pub span: Span,
    pub method: String,
    pub object: Option<InnerCall>,
}

/// `then`, `catch` or `finally`.
pub open spec fn is_chain_name(n: Seq<char>) -> bool {
    n == "then"@ || n == "catch"@ || n == "finally"@
}

/// `c` continues a chain from the call at `s`: both call chain methods, and `c` is made on it.
pub open spec fn continues_from(c: MemberCall, s: Span) -> bool {
    is_chain_name(c.method@) && match c.object {
        Some(inner) => inner.span == s && match inner.method {
            Some(m) => is_chain_name(m@),
            None => false,
        },
        None => false,
    }
}

/// Some call continues a chain from the call at `s`.
pub open spec fn has_chain_after(calls: Seq<MemberCall>, s: Span) -> bool {
    exists|i: int| 0 <= i < calls.len() && continues_from(#[trigger] calls[i], s)
}

/// `c` is a `.then` call made on a `.then` call.
pub open spec fn is_then_after_then(c: MemberCall) -> bool {
    c.method@ == "then"@ && match c.object {
        Some(inner) => match inner.method {
            Some(m) => m@ == "then"@,
            None => false,
        },
        None => false,
    }
}

/// Some `.then` call at `s` is made on a `.then` call.
pub open spec fn follows_then(calls: Seq<MemberCall>, s: Span) -> bool {
    exists|i: int| 0 <= i < calls.len() && #[trigger] calls[i].span == s && is_then_after_then(calls[i])
}

/// The `.then` call at `s` is reported: single calls are not allowed, or it is chained.
pub open spec fn is_reported(config: NoThenChainRuleConfig, calls: Seq<MemberCall>, s: Span) -> bool {
    !config.allow_single || has_chain_after(calls, s) || follows_then(calls, s)
}

/// The finding at `span`.
pub open spec fn then_finding(file: Seq<char>, index: LineIndex, config: NoThenChainRuleConfig, span: Span) -> ViolationView {
    let pos = span_position(index, span);
    ViolationView {
        file,
        span: Some(span),
        line: Some(pos.line),
        column: Some(pos.column),
        rule: NO_THEN_CHAIN_RULE_ID@,
        message: NO_THEN_CHAIN_MESSAGE@,
        severity: config.severity,
        detail: None,
        subject: None,
    }
}

/// The findings for the `.then` calls among the first `k` calls, in walk order.
pub open spec fn then_findings(file: Seq<char>, index: LineIndex, config: NoThenChainRuleConfig, calls: Seq<MemberCall>, k: int) -> Seq<ViolationView>
    decreases k,
{
    if k <= 0 {
        Seq::empty()
    } else {
        let before = then_findings(file, index, config, calls, k - 1);
        let c = calls[k - 1];
        if c.method@ == "then"@ && is_reported(config, calls, c.span) {
            before.push(then_finding(file, index, config, c.span))
        } else {
            before
        }
    }
}

fn chain_name(n: &str) -> (r: bool)
    ensures
        r == is_chain_name(n@),
{
    str_equal(n, "then") || str_equal(n, "catch") || str_equal(n, "finally")
}

fn continues(c: &MemberCall, s: Span) -> (r: bool)
    ensures
        r == continues_from(*c, s),
{
    if !chain_name(c.method.as_str()) {
        return false;
    }
    match &c.object {
        Some(inner) => inner.span == s && match &inner.method {
            Some(m) => chain_name(m.as_str()),
            None => false,
        },
        None => false,
    }
}

fn then_after_then(c: &MemberCall) -> (r: bool)
    ensures
        r == is_then_after_then(*c),
{
    if !str_equal(c.method.as_str(), "then") {
        return false;
    }
    match &c.object {
        Some(inner) => match &inner.method {
            Some(m) => str_equal(m.as_str(), "then"),
            None => false,
        },
        None => false,
    }
}

fn chained(calls: &Vec<MemberCall>, s: Span) -> (r: bool)
    ensures
        r == (has_chain_after(calls@, s) || follows_then(calls@, s)),
{
    let n = calls.len();
    let mut i: usize = 0;
    while i < n
        invariant
            n == calls@.len(),
            0 <= i <= n,
            forall|j: int| 0 <= j < i ==> !continues_from(#[trigger] calls@[j], s),
            forall|j: int| 0 <= j < i ==> !(#[trigger] calls@[j].span == s && is_then_after_then(calls@[j])),
        decreases n - i,
    {
        if continues(&calls[i], s) {
            return true;
        }
        if calls[i].span == s && then_after_then(&calls[i]) {
            return true;
        }
        i += 1;
    }
    false
}

/// The findings of `no-then-chain` on the member calls of one module: one per `.then` call
/// that is reported (see `is_reported`), in walk order.
pub fn check_file(file: &str, calls: &Vec<MemberCall>, line_index: &LineIndex, config: &NoThenChainRuleConfig) -> (r: Vec<Violation>)
    ensures
        views(r@) == then_findings(file@, *line_index, *config, calls@, calls@.len() as int),
{
    let mut out: Vec<Violation> = Vec::new();
    let n = calls.len();
    let mut k: usize = 0;
    while k < n
        invariant
            n == calls@.len(),
            0 <= k <= n,
            views(out@) == then_findings(file@, *line_index, *config, calls@, k as int),
        decreases n - k,
    {
        let c = &calls[k];
        if str_equal(c.method.as_str(), "then") && (!config.allow_single || chained(calls, c.span)) {
            let ghost before = out@;
            let pos = line_index.position_for(c.span);
            let v = Violation::spanned(file, c.span, pos.line, pos.column, NO_THEN_CHAIN_RULE_ID, NO_THEN_CHAIN_MESSAGE, config.severity, None, None);
            out.push(v);
            proof {
                assert(views(out@) =~= views(before).push(v@));
            }
        }
        k += 1;
    }
    out
}

} // verus!
