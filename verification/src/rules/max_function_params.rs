//! `max-function-params`: no function, arrow function or method takes more parameters than
//! configured (a rest parameter not counted).

use vstd::prelude::*;
use crate::chars::{copy_opt_string, decimal, push_decimal, push_str};
use crate::config::MaxFunctionParamsRuleConfig;
use crate::rules::boolean_prefix::BoundName;
use crate::rules::{views, opt_chars, Violation, ViolationView, MAX_FUNCTION_PARAMS_RULE_ID};
use crate::syntax::{span_position, LineIndex, Span};

verus! {

pub const MAX_FUNCTION_PARAMS_MESSAGE: &'static str = "Function has too many parameters. Consider using an object parameter instead.";

/// A function-like construct that the walk of a module reaches, in order, with the number of
/// its parameters (the rest parameter not counted): a function (a declaration or an
/// expression) with its span and its name, if any; an arrow function with its span; a method
/// with the span of its key and its name where the key is a plain identifier.
#[derive(Debug)]
pub enum ParamsOwner {
    Function { span: Span, id: Option<BoundName>, params: usize },
    Arrow { span: Span, params: usize },
    Method { key_span: Span, name: Option<String>, params: usize },
}

/// Where a construct is reported, under which name, and how many parameters it takes: a
/// function at its name where it has one, else at itself.
pub open spec fn owner_parts(o: ParamsOwner) -> (Span, Option<Seq<char>>, usize) {
    match o {
        ParamsOwner::Function { span, id, params } => match id {
            Some(b) => (b.span, Some(b.name@), params),
            None => (span, None, params),
        },
        ParamsOwner::Arrow { span, params } => (span, None, params),
        ParamsOwner::Method { key_span, name, params } => (key_span, opt_chars(name), params),
    }
}

/// `<count> parameters exceeds max-params <max>`.
pub open spec fn params_detail(count: usize, max: usize) -> Seq<char> {
    decimal(count as nat) + " parameters exceeds max-params "@ + decimal(max as nat)
}

/// The finding for a construct, where it takes more parameters than allowed.
pub open spec fn params_finding(file: Seq<char>, index: LineIndex, config: MaxFunctionParamsRuleConfig, o: ParamsOwner) -> Option<ViolationView> {
    let (span, name, count) = owner_parts(o);
    if count > config.max_params {
        let pos = span_position(index, span);
        Some(ViolationView {
            file,
            span: None,
            line: Some(pos.line),
            column: Some(pos.column),
            rule: MAX_FUNCTION_PARAMS_RULE_ID@,
            message: MAX_FUNCTION_PARAMS_MESSAGE@,
            severity: config.severity,
            detail: Some(params_detail(count, config.max_params)),
            subject: name,
        })
    } else {
        None
    }
}

/// The findings for the first `k` constructs.
pub open spec fn params_findings(file: Seq<char>, index: LineIndex, config: MaxFunctionParamsRuleConfig, owners: Seq<ParamsOwner>, k: int) -> Seq<ViolationView>
    decreases k,
{
    if k <= 0 {
        Seq::empty()
    } else {
        let before = params_findings(file, index, config, owners, k - 1);
        match params_finding(file, index, config, owners[k - 1]) {
            Some(v) => before.push(v),
            None => before,
        }
    }
}

fn parts_of(o: &ParamsOwner) -> (r: (Span, Option<String>, usize))
    ensures
        (r.0, opt_chars(r.1), r.2) == owner_parts(*o),
{
    match o {
        ParamsOwner::Function { span, id, params } => match id {
            Some(b) => (b.span, Some(crate::chars::copy_string(&b.name)), *params),
            None => (*span, None, *params),
        },
        ParamsOwner::Arrow { span, params } => (*span, None, *params),
        ParamsOwner::Method { key_span, name, params } => (*key_span, copy_opt_string(name), *params),
    }
}

/// The findings of `max-function-params` on the function-like constructs of one module, in
/// walk order: one per construct with more parameters than `max-params`.
pub fn check_file(file: &str, owners: &Vec<ParamsOwner>, line_index: &LineIndex, config: &MaxFunctionParamsRuleConfig) -> (r: Vec<Violation>)
    ensures
        views(r@) == params_findings(file@, *line_index, *config, owners@, owners@.len() as int),
{
    let mut out: Vec<Violation> = Vec::new();
    let n = owners.len();
    let mut k: usize = 0;
    while k < n
        invariant
            n == owners@.len(),
            0 <= k <= n,
            views(out@) == params_findings(file@, *line_index, *config, owners@, k as int),
        decreases n - k,
    {
        let (span, name, count) = parts_of(&owners[k]);
        if count > config.max_params {
            let ghost before = out@;
            let pos = line_index.position_for(span);
            let mut detail = String::new();
            push_decimal(&mut detail, count);
            push_str(&mut detail, " parameters exceeds max-params ");
            push_decimal(&mut detail, config.max_params);
            proof {
                assert(detail@ =~= params_detail(count, config.max_params));
            }
            let v = Violation::located(file, Some(pos.line), Some(pos.column), MAX_FUNCTION_PARAMS_RULE_ID, MAX_FUNCTION_PARAMS_MESSAGE, config.severity, Some(detail), name);
            out.push(v);
            proof {
                assert(views(out@) =~= views(before).push(v@));
            }
        }
        k += 1;
    }
    out
}

} // verus!
