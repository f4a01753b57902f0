//! `no-logic-in-domain`: type files declare no functions, classes or variables; constant files
//! declare no functions or classes, and only `const` variables that no function initialises.

use vstd::prelude::*;
use crate::config::{DomainConfig, RuleConfig};
use crate::rules::{domain_matches_file, matches_domain, views, Violation, ViolationView, NO_LOGIC_IN_DOMAIN_RULE_ID};
use crate::syntax::{span_position, LineIndex, Span};

verus! {

pub const NO_LOGIC_IN_DOMAIN_MESSAGE: &'static str = "Keep domain files free of logic. Move implementation to feature or service files.";

/// Which domain a file belongs to, types taking precedence.
#[derive(Clone, Copy, Debug, PartialEq, Eq, Structural)]
pub enum DomainKind {
    Types,
    Constants,
}

/// A top-level statement of a module, `export <declaration>` read as its declaration: a
/// function or a class declaration with its span; a variable declaration with its span,
/// whether it is `const`, and whether some declarator is initialised with an arrow or a
/// function expression; anything else.
#[derive(Debug)]
pub enum DomainStatement {
    Function(Span),
    Class(Span),
    Variables { span: Span, is_const: bool, function_init: bool },
    Other,
}

/// The domain of `file`: types where it matches the types domain, else constants where it
/// matches that one.
pub open spec fn domain_kind(file: Seq<char>, types: DomainConfig, constants: DomainConfig) -> Option<DomainKind> {
    if matches_domain(file, types) {
        Some(DomainKind::Types)
    } else if matches_domain(file, constants) {
        Some(DomainKind::Constants)
    } else {
        None
    }
}

/// Where a statement is reported in a file of the given domain: functions and classes always;
/// variables always in type files, and in constant files where they are not `const` or a
/// function initialises one of them.
pub open spec fn logic_span(kind: DomainKind, s: DomainStatement) -> Option<Span> {
    match s {
        DomainStatement::Function(span) => Some(span),
        DomainStatement::Class(span) => Some(span),
        DomainStatement::Variables { span, is_const, function_init } => match kind {
            DomainKind::Types => Some(span),
            DomainKind::Constants => if !is_const || function_init { Some(span) } else { None },
        },
        DomainStatement::Other => None,
    }
}

/// The finding at `span`.
pub open spec fn logic_finding(file: Seq<char>, index: LineIndex, config: RuleConfig, span: Span) -> ViolationView {
    let pos = span_position(index, span);
    ViolationView {
        file,
        span: Some(span),
        line: Some(pos.line),
        column: Some(pos.column),
        rule: NO_LOGIC_IN_DOMAIN_RULE_ID@,
        message: NO_LOGIC_IN_DOMAIN_MESSAGE@,
        severity: config.severity,
        detail: None,
        subject: None,
    }
}

/// The findings for the first `k` statements of a file of the given domain.
pub open spec fn logic_findings(file: Seq<char>, index: LineIndex, config: RuleConfig, kind: DomainKind, statements: Seq<DomainStatement>, k: int) -> Seq<ViolationView>
    decreases k,
{
    if k <= 0 {
        Seq::empty()
    } else {
        let before = logic_findings(file, index, config, kind, statements, k - 1);
        match logic_span(kind, statements[k - 1]) {
            Some(span) => before.push(logic_finding(file, index, config, span)),
            None => before,
        }
    }
}

/// The domain of `file` (see `domain_kind`).
pub fn classify_domain_file(file: &str, types: &DomainConfig, constants: &DomainConfig) -> (r: Option<DomainKind>)
    ensures
        r == domain_kind(file@, *types, *constants),
{
    if domain_matches_file(file, types) {
        Some(DomainKind::Types)
    } else if domain_matches_file(file, constants) {
        Some(DomainKind::Constants)
    } else {
        None
    }
}

fn span_of_logic(kind: DomainKind, s: &DomainStatement) -> (r: Option<Span>)
    ensures
        r == logic_span(kind, *s),
{
    match s {
        DomainStatement::Function(span) => Some(*span),
        DomainStatement::Class(span) => Some(*span),
        DomainStatement::Variables { span, is_const, function_init } => match kind {
            DomainKind::Types => Some(*span),
            DomainKind::Constants => if !*is_const || *function_init { Some(*span) } else { None },
        },
        DomainStatement::Other => None,
    }
}

/// The findings of `no-logic-in-domain` on the top-level statements of one module: none
/// outside the types and constants domains; within them, one per statement that holds logic
/// (see `logic_span`), in source order.
pub fn check_file(file: &str, statements: &Vec<DomainStatement>, line_index: &LineIndex, config: &RuleConfig, types: &DomainConfig, constants: &DomainConfig) -> (r: Vec<Violation>)
    ensures
        views(r@) == match domain_kind(file@, *types, *constants) {
            Some(kind) => logic_findings(file@, *line_index, *config, kind, statements@, statements@.len() as int),
            None => Seq::empty(),
        },
{
    let mut out: Vec<Violation> = Vec::new();
    let kind = match classify_domain_file(file, types, constants) {
        Some(k) => k,
        None => {
            proof {
                assert(views(out@) =~= Seq::<ViolationView>::empty());
            }
            return out;
        },
    };
    let n = statements.len();
    let mut k: usize = 0;
    proof {
        assert(views(out@) =~= logic_findings(file@, *line_index, *config, kind, statements@, 0));
    }
    while k < n
        invariant
            n == statements@.len(),
            0 <= k <= n,
            views(out@) == logic_findings(file@, *line_index, *config, kind, statements@, k as int),
        decreases n - k,
    {
        match span_of_logic(kind, &statements[k]) {
            Some(span) => {
                let ghost before = out@;
                let pos = line_index.position_for(span);
                let v = Violation::spanned(file, span, pos.line, pos.column, NO_LOGIC_IN_DOMAIN_RULE_ID, NO_LOGIC_IN_DOMAIN_MESSAGE, config.severity, None, None);
                out.push(v);
                proof {
                    assert(views(out@) =~= views(before).push(v@));
                }
            },
            None => {},
        }
        k += 1;
    }
    out
}

} // verus!
