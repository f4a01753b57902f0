//! `prefer-readonly`: an array parameter of an exported function is typed `readonly`; the fix
//! inserts `readonly ` before each mutable array type.

use vstd::prelude::*;
use crate::chars::{copy_string, push_str, str_equal, string_of};
use crate::config::{RuleConfig, Severity};
use crate::rules::{fix_views, views, Fix, FixView, TextEdit, TextEditView, Violation, ViolationView, PREFER_READONLY_RULE_ID};
use crate::syntax::{span_position, LineIndex, Span};

verus! {

pub const PREFER_READONLY_MESSAGE: &'static str = "Array parameter in exported function should use `readonly` to prevent accidental mutation.";

/// The text the fix inserts before a mutable array type.
pub const READONLY_PREFIX: &'static str = "readonly ";

/// The shape of a parameter's type, as far as the rule reads it: an array type `T[]`, a
/// reference to a type by a plain name (`Array<T>`, `ReadonlyArray<T>`, ...), a type operator
/// (`readonly`, `keyof`, `unique`) applied to a type, a parenthesized type, or any other type.
#[derive(Debug)]
pub enum ParamType {
    Array,
    Reference(String),
    Operator { readonly: bool, inner: Box<ParamType> },
    Parenthesized(Box<ParamType>),
    Other,
}

/// A type annotation: the offset where the type starts, and its shape.
#[derive(Debug)]
pub struct TypeAnnotation {
    pub start: usize,
    pub shape: ParamType,
}

/// A parameter (a rest parameter included): its span, its name where it binds a plain
/// identifier, and its type annotation, if any.
#[derive(Debug)]
pub struct Parameter {
    pub span: Span,
    pub name: Option<String>,
    pub annotation: Option<TypeAnnotation>,
}

/// An exported function, in source order: `export function`, an `export const` declarator
/// initialised with an arrow or a function expression, `export default function` or an
/// exported default arrow; with its name where it has one, and its parameters, the rest
/// parameter last.
#[derive(Debug)]
pub struct ExportedFunction {
    pub name: Option<String>,
    pub params: Vec<Parameter>,
}

/// A type is a mutable array: an array type or a reference to `Array`, possibly parenthesized
/// or under a type operator other than `readonly`.
pub open spec fn is_mutable_array(t: ParamType) -> bool
    decreases t,
{
    match t {
        ParamType::Array => true,
        ParamType::Reference(name) => name@ == "Array"@,
        ParamType::Operator { readonly, inner } => !readonly && is_mutable_array(*inner),
        ParamType::Parenthesized(inner) => is_mutable_array(*inner),
        ParamType::Other => false,
    }
}

/// A parameter is reported: it has a type annotation whose type is a mutable array.
pub open spec fn is_reported(p: Parameter) -> bool {
    p.annotation matches Some(a) && is_mutable_array(a.shape)
}

/// `<function>.<parameter>`, or whichever of the two names there is.
pub open spec fn readonly_subject(function: Option<Seq<char>>, parameter: Option<Seq<char>>) -> Option<Seq<char>> {
    match (function, parameter) {
        (Some(f), Some(p)) => Some(f + "."@ + p),
        (Some(f), None) => Some(f),
        (None, Some(p)) => Some(p),
        (None, None) => None,
    }
}

/// The characters of an optional name.
pub open spec fn opt_name(n: Option<String>) -> Option<Seq<char>> {
    match n {
        Some(s) => Some(s@),
        None => None,
    }
}

/// The finding for a reported parameter of a function named `function`.
pub open spec fn readonly_finding(file: Seq<char>, index: LineIndex, config: RuleConfig, function: Option<Seq<char>>, p: Parameter) -> ViolationView {
    let pos = span_position(index, p.span);
    ViolationView {
        file,
        span: Some(p.span),
        line: Some(pos.line),
        column: Some(pos.column),
        rule: PREFER_READONLY_RULE_ID@,
        message: PREFER_READONLY_MESSAGE@,
        severity: config.severity,
        detail: None,
        subject: readonly_subject(function, opt_name(p.name)),
    }
}

/// The findings for the first `k` parameters of `f`.
pub open spec fn param_findings(file: Seq<char>, index: LineIndex, config: RuleConfig, f: ExportedFunction, k: int) -> Seq<ViolationView>
    decreases k,
{
    if k <= 0 {
        Seq::empty()
    } else {
        let before = param_findings(file, index, config, f, k - 1);
        let p = f.params@[k - 1];
        if is_reported(p) {
            before.push(readonly_finding(file, index, config, opt_name(f.name), p))
        } else {
            before
        }
    }
}

/// The findings for the first `k` exported functions.
pub open spec fn readonly_findings(file: Seq<char>, index: LineIndex, config: RuleConfig, functions: Seq<ExportedFunction>, k: int) -> Seq<ViolationView>
    decreases k,
{
    if k <= 0 {
        Seq::empty()
    } else {
        readonly_findings(file, index, config, functions, k - 1)
            + param_findings(file, index, config, functions[k - 1], functions[k - 1].params@.len() as int)
    }
}

/// Where the fix inserts `readonly ` for the first `k` parameters of `f`: the start of each
/// reported parameter's type.
pub open spec fn param_positions(f: ExportedFunction, k: int) -> Seq<usize>
    decreases k,
{
    if k <= 0 {
        Seq::empty()
    } else {
        let before = param_positions(f, k - 1);
        let p = f.params@[k - 1];
        match p.annotation {
            Some(a) => if is_mutable_array(a.shape) { before.push(a.start) } else { before },
            None => before,
        }
    }
}

/// The insert positions for the first `k` exported functions.
pub open spec fn insert_positions(functions: Seq<ExportedFunction>, k: int) -> Seq<usize>
    decreases k,
{
    if k <= 0 {
        Seq::empty()
    } else {
        insert_positions(functions, k - 1) + param_positions(functions[k - 1], functions[k - 1].params@.len() as int)
    }
}

/// The edit that inserts `readonly ` at `p`.
pub open spec fn readonly_edit(p: usize) -> TextEditView {
    TextEditView { start: p, end: p, replacement: READONLY_PREFIX@ }
}

/// The edits that insert `readonly ` at each position.
pub open spec fn readonly_edits(ps: Seq<usize>) -> Seq<TextEditView> {
    ps.map_values(|p: usize| readonly_edit(p))
}

/// The fixes of a module: none where the rule is off or nothing is reported; else one fix
/// with an insertion at each mutable array type, in source order.
pub open spec fn readonly_fixes(file: Seq<char>, config: RuleConfig, functions: Seq<ExportedFunction>) -> Seq<FixView> {
    let ps = insert_positions(functions, functions.len() as int);
    if config.severity == Severity::Off || ps.len() == 0 {
        Seq::empty()
    } else {
        seq![FixView { file, rule: PREFER_READONLY_RULE_ID@, edits: readonly_edits(ps) }]
    }
}

/// Whether a type is a mutable array (see `is_mutable_array`).
pub fn mutable_array(t: &ParamType) -> (r: bool)
    ensures
        r == is_mutable_array(*t),
    decreases t,
{
    match t {
        ParamType::Array => true,
        ParamType::Reference(name) => str_equal(name.as_str(), "Array"),
        ParamType::Operator { readonly, inner } => !*readonly && mutable_array(inner),
        ParamType::Parenthesized(inner) => mutable_array(inner),
        ParamType::Other => false,
    }
}

fn reported(p: &Parameter) -> (r: bool)
    ensures
        r == is_reported(*p),
{
    match &p.annotation {
        Some(a) => mutable_array(&a.shape),
        None => false,
    }
}

fn subject_of(function: &Option<String>, parameter: &Option<String>) -> (r: Option<String>)
    ensures
        opt_name(r) == readonly_subject(opt_name(*function), opt_name(*parameter)),
{
    match (function, parameter) {
        (Some(f), Some(p)) => {
            let mut s = copy_string(f);
            push_str(&mut s, ".");
            push_str(&mut s, p.as_str());
            proof {
                assert(s@ =~= f@ + "."@ + p@);
            }
            Some(s)
        },
        (Some(f), None) => Some(copy_string(f)),
        (None, Some(p)) => Some(copy_string(p)),
        (None, None) => None,
    }
}

fn finding_for(file: &str, line_index: &LineIndex, config: &RuleConfig, function: &Option<String>, p: &Parameter) -> (r: Violation)
    ensures
        r@ == readonly_finding(file@, *line_index, *config, opt_name(*function), *p),
{
    let pos = line_index.position_for(p.span);
    let subject = subject_of(function, &p.name);
    let r = Violation::spanned(file, p.span, pos.line, pos.column, PREFER_READONLY_RULE_ID, PREFER_READONLY_MESSAGE, config.severity, None, subject);
    proof {
        assert(crate::rules::opt_chars(subject) == opt_name(subject));
    }
    r
}

/// The findings of `prefer-readonly` on the exported functions of one module: one per
/// parameter whose type is a mutable array, in source order.
pub fn check_file(file: &str, functions: &Vec<ExportedFunction>, line_index: &LineIndex, config: &RuleConfig) -> (r: Vec<Violation>)
    ensures
        views(r@) == readonly_findings(file@, *line_index, *config, functions@, functions@.len() as int),
{
    let mut out: Vec<Violation> = Vec::new();
    let n = functions.len();
    let mut k: usize = 0;
    while k < n
        invariant
            n == functions@.len(),
            0 <= k <= n,
            views(out@) == readonly_findings(file@, *line_index, *config, functions@, k as int),
        decreases n - k,
    {
        let f = &functions[k];
        let ghost start = views(out@);
        let m = f.params.len();
        let mut i: usize = 0;
        while i < m
            invariant
                n == functions@.len(),
                0 <= k < n,
                *f == functions@[k as int],
                m == f.params@.len(),
                0 <= i <= m,
                views(out@) == start + param_findings(file@, *line_index, *config, *f, i as int),
            decreases m - i,
        {
            let p = &f.params[i];
            if reported(p) {
                let ghost before = out@;
                let v = finding_for(file, line_index, config, &f.name, p);
                out.push(v);
                proof {
                    assert(views(out@) =~= views(before).push(v@));
                }
            }
            proof {
                assert(views(out@) =~= start + param_findings(file@, *line_index, *config, *f, i as int + 1));
            }
            i += 1;
        }
        k += 1;
    }
    out
}

/// The fix of `prefer-readonly` for one module (see `readonly_fixes`).
pub fn fix_file(file: &str, functions: &Vec<ExportedFunction>, config: &RuleConfig) -> (r: Vec<Fix>)
    ensures
        fix_views(r@) == readonly_fixes(file@, *config, functions@),
{
    let mut fixes: Vec<Fix> = Vec::new();
    if !config.severity.is_enabled() {
        proof {
            assert(fix_views(fixes@) =~= readonly_fixes(file@, *config, functions@));
        }
        return fixes;
    }
    let mut edits: Vec<TextEdit> = Vec::new();
    let ghost mut ps: Seq<usize> = Seq::empty();
    let n = functions.len();
    let mut k: usize = 0;
    while k < n
        invariant
            n == functions@.len(),
            0 <= k <= n,
            ps == insert_positions(functions@, k as int),
            edits@.map_values(|e: TextEdit| e@) == readonly_edits(ps),
        decreases n - k,
    {
        let f = &functions[k];
        let ghost start = ps;
        let m = f.params.len();
        let mut i: usize = 0;
        while i < m
            invariant
                n == functions@.len(),
                0 <= k < n,
                *f == functions@[k as int],
                m == f.params@.len(),
                0 <= i <= m,
                ps == start + param_positions(*f, i as int),
                edits@.map_values(|e: TextEdit| e@) == readonly_edits(ps),
            decreases m - i,
        {
            let p = &f.params[i];
            match &p.annotation {
                Some(a) => {
                    if mutable_array(&a.shape) {
                        let ghost before = edits@;
                        let e = TextEdit { start: a.start, end: a.start, replacement: string_of(READONLY_PREFIX) };
                        edits.push(e);
                        proof {
                            ps = ps.push(a.start);
                            assert(edits@.map_values(|e: TextEdit| e@) =~= before.map_values(|e: TextEdit| e@).push(e@));
                            assert(readonly_edits(ps) =~= readonly_edits(ps.drop_last()).push(readonly_edit(a.start)));
                            assert(ps.drop_last() == start + param_positions(*f, i as int));
                        }
                    }
                },
                None => {},
            }
            proof {
                assert(ps =~= start + param_positions(*f, i as int + 1));
            }
            i += 1;
        }
        k += 1;
    }
    if edits.len() == 0 {
        proof {
            assert(fix_views(fixes@) =~= readonly_fixes(file@, *config, functions@));
        }
        return fixes;
    }
    let fix = Fix { file: string_of(file), rule: string_of(PREFER_READONLY_RULE_ID), edits };
    fixes.push(fix);
    proof {
        assert(fix_views(fixes@) =~= readonly_fixes(file@, *config, functions@));
    }
    fixes
}

proof fn lemma_param_counts(file: Seq<char>, index: LineIndex, config: RuleConfig, f: ExportedFunction, k: int)
    requires
        0 <= k <= f.params@.len(),
    ensures
        param_positions(f, k).len() == param_findings(file, index, config, f, k).len(),
    decreases k,
{
    if k > 0 {
        lemma_param_counts(file, index, config, f, k - 1);
    }
}

proof fn lemma_function_counts(file: Seq<char>, index: LineIndex, config: RuleConfig, functions: Seq<ExportedFunction>, k: int)
    requires
        0 <= k <= functions.len(),
    ensures
        insert_positions(functions, k).len() == readonly_findings(file, index, config, functions, k).len(),
    decreases k,
{
    if k > 0 {
        lemma_function_counts(file, index, config, functions, k - 1);
        lemma_param_counts(file, index, config, functions[k - 1], functions[k - 1].params@.len() as int);
    }
}

/// The fix answers the findings one for one: where the rule is on, there is a fix exactly where
/// there are findings, and it holds one insertion per finding.
pub proof fn fix_matches_findings(file: Seq<char>, index: LineIndex, config: RuleConfig, functions: Seq<ExportedFunction>)
    requires
        config.severity != Severity::Off,
    ensures
        ({
            let found = readonly_findings(file, index, config, functions, functions.len() as int);
            let fixes = readonly_fixes(file, config, functions);
            &&& (fixes.len() == 0) == (found.len() == 0)
            &&& fixes.len() > 0 ==> fixes.len() == 1 && fixes[0].edits.len() == found.len()
        }),
{
    lemma_function_counts(file, index, config, functions, functions.len() as int);
}

} // verus!
