//! `boolean-prefix`: a `let` or `const` variable that holds a boolean (by its annotation or by
//! a boolean literal initialiser) is named with a configured prefix followed by a capital.

use vstd::prelude::*;
use crate::chars::{copy_string, push_str, starts_with, str_starts_with, string_of};
use crate::config::BooleanPrefixRuleConfig;
use crate::rule_documentation::summary::string_views;
use crate::rules::{views, Violation, ViolationView, BOOLEAN_PREFIX_RULE_ID};
use crate::syntax::{span_position, LineIndex, Span};

verus! {

pub const BOOLEAN_PREFIX_MESSAGE: &'static str = "Boolean should start with one of the configured prefixes.";

/// The keyword of a variable declaration.
#[derive(Clone, Copy, Debug, PartialEq, Eq, Structural)]
pub enum VariableKind {
    Var,
    Let,
    Const,
    Using,
}

/// The type annotation of a declarator, as far as the rule reads it: the keyword `boolean`, a
/// reference to a type by a plain name, or any other type.
#[derive(Debug)]
pub enum AnnotatedType {
    BooleanKeyword,
    Reference(String),
    Other,
}

/// The name a declarator binds, where it binds a plain identifier, and where.
#[derive(Debug)]
pub struct BoundName {
    pub span: Span,
    pub name: String,
}

/// One declarator: its binding (`None` for a destructuring pattern), its type annotation, if
/// any, and whether it is initialised with a boolean literal.
#[derive(Debug)]
pub struct Declarator {
    pub binding: Option<BoundName>,
    pub annotation: Option<AnnotatedType>,
    pub boolean_literal_init: bool,
}

/// A variable declaration, in the order the walk of a module reaches them.
#[derive(Debug)]
pub struct VariableDeclaration {
    pub kind: VariableKind,
    pub declarators: Vec<Declarator>,
}

/// The prefixes looked for: the configured ones, or `is`, `has` and `can` where none is
/// configured.
pub open spec fn prefix_list(config: BooleanPrefixRuleConfig) -> Seq<Seq<char>> {
    if config.prefixes@.len() == 0 {
        seq!["is"@, "has"@, "can"@]
    } else {
        string_views(config.prefixes@)
    }
}

/// `name` starts with `prefix` and the character that follows it is an ASCII capital.
pub open spec fn has_prefix(name: Seq<char>, prefix: Seq<char>) -> bool {
    starts_with(name, prefix) && name.len() > prefix.len() && 'A' <= name[prefix.len() as int] && name[prefix.len() as int] <= 'Z'
}

/// `name` carries one of the prefixes.
pub open spec fn has_valid_prefix(name: Seq<char>, prefixes: Seq<Seq<char>>) -> bool {
    exists|i: int| 0 <= i < prefixes.len() && has_prefix(name, #[trigger] prefixes[i])
}

/// The declarator holds a boolean: it is annotated `boolean` or `Boolean`, or initialised with
/// a boolean literal.
pub open spec fn is_boolean(d: Declarator) -> bool {
    match d.annotation {
        Some(AnnotatedType::BooleanKeyword) => true,
        Some(AnnotatedType::Reference(n)) => n@ == "Boolean"@ || d.boolean_literal_init,
        _ => d.boolean_literal_init,
    }
}

/// The first `k` prefixes, separated by `, `.
pub open spec fn joined(ps: Seq<Seq<char>>, k: int) -> Seq<char>
    decreases k,
{
    if k <= 0 {
        Seq::empty()
    } else if k == 1 {
        ps[0]
    } else {
        joined(ps, k - 1) + ", "@ + ps[k - 1]
    }
}

/// `'<name>' does not start with any prefix: <prefixes>`.
pub open spec fn prefix_detail(name: Seq<char>, prefixes: Seq<Seq<char>>) -> Seq<char> {
    "'"@ + name + "' does not start with any prefix: "@ + joined(prefixes, prefixes.len() as int)
}

/// The declarations whose declarators are checked: `let`, `using`, and `const` unless
/// constants are ignored.
pub open spec fn is_checked_kind(config: BooleanPrefixRuleConfig, kind: VariableKind) -> bool {
    kind != VariableKind::Var && !(config.ignore_constants && kind == VariableKind::Const)
}

/// The finding for a declarator, where there is one.
pub open spec fn declarator_finding(file: Seq<char>, index: LineIndex, config: BooleanPrefixRuleConfig, d: Declarator) -> Option<ViolationView> {
    match d.binding {
        Some(b) => if is_boolean(d) && !has_valid_prefix(b.name@, prefix_list(config)) {
            let pos = span_position(index, b.span);
            Some(ViolationView {
                file,
                span: None,
                line: Some(pos.line),
                column: Some(pos.column),
                rule: BOOLEAN_PREFIX_RULE_ID@,
                message: BOOLEAN_PREFIX_MESSAGE@,
                severity: config.severity,
                detail: Some(prefix_detail(b.name@, prefix_list(config))),
                subject: Some(b.name@),
            })
        } else {
            None
        },
        None => None,
    }
}

/// The findings for the first `k` declarators of a declaration.
pub open spec fn declarator_findings(file: Seq<char>, index: LineIndex, config: BooleanPrefixRuleConfig, ds: Seq<Declarator>, k: int) -> Seq<ViolationView>
    decreases k,
{
    if k <= 0 {
        Seq::empty()
    } else {
        let before = declarator_findings(file, index, config, ds, k - 1);
        match declarator_finding(file, index, config, ds[k - 1]) {
            Some(v) => before.push(v),
            None => before,
        }
    }
}

/// The findings for the first `k` declarations.
pub open spec fn prefix_findings(file: Seq<char>, index: LineIndex, config: BooleanPrefixRuleConfig, decls: Seq<VariableDeclaration>, k: int) -> Seq<ViolationView>
    decreases k,
{
    if k <= 0 {
        Seq::empty()
    } else {
        let before = prefix_findings(file, index, config, decls, k - 1);
        let d = decls[k - 1];
        if is_checked_kind(config, d.kind) {
            before + declarator_findings(file, index, config, d.declarators@, d.declarators@.len() as int)
        } else {
            before
        }
    }
}

/// The prefixes looked for under `config` (see `prefix_list`).
pub fn prefixes_of(config: &BooleanPrefixRuleConfig) -> (r: Vec<String>)
    ensures
        string_views(r@) == prefix_list(*config),
{
    if config.prefixes.len() == 0 {
        let mut v: Vec<String> = Vec::new();
        v.push(string_of("is"));
        v.push(string_of("has"));
        v.push(string_of("can"));
        proof {
            assert(string_views(v@) =~= prefix_list(*config));
        }
        v
    } else {
        let v = crate::chars::copy_strings(&config.prefixes);
        proof {
            assert(string_views(v@) =~= prefix_list(*config));
        }
        v
    }
}

fn prefixed(name: &str, prefix: &str) -> (r: bool)
    ensures
        r == has_prefix(name@, prefix@),
{
    if !str_starts_with(name, prefix) {
        return false;
    }
    let v = crate::chars::chars_of(name);
    let p = crate::chars::chars_of(prefix);
    p.len() < v.len() && 'A' <= v[p.len()] && v[p.len()] <= 'Z'
}

pub(crate) fn valid_prefix(name: &str, prefixes: &Vec<String>) -> (r: bool)
    ensures
        r == has_valid_prefix(name@, string_views(prefixes@)),
{
    let n = prefixes.len();
    let mut i: usize = 0;
    while i < n
        invariant
            n == prefixes@.len(),
            0 <= i <= n,
            forall|j: int| 0 <= j < i ==> !has_prefix(name@, #[trigger] string_views(prefixes@)[j]),
        decreases n - i,
    {
        if prefixed(name, prefixes[i].as_str()) {
            proof {
                assert(string_views(prefixes@)[i as int] == prefixes@[i as int]@);
            }
            return true;
        }
        proof {
            assert(string_views(prefixes@)[i as int] == prefixes@[i as int]@);
        }
        i += 1;
    }
    false
}

fn boolean_declarator(d: &Declarator) -> (r: bool)
    ensures
        r == is_boolean(*d),
{
    match &d.annotation {
        Some(AnnotatedType::BooleanKeyword) => true,
        Some(AnnotatedType::Reference(n)) => crate::chars::str_equal(n.as_str(), "Boolean") || d.boolean_literal_init,
        _ => d.boolean_literal_init,
    }
}

pub(crate) fn detail_of(name: &String, prefixes: &Vec<String>) -> (r: String)
    ensures
        r@ == prefix_detail(name@, string_views(prefixes@)),
{
    let mut d = string_of("'");
    push_str(&mut d, name.as_str());
    push_str(&mut d, "' does not start with any prefix: ");
    let ghost head = d@;
    let n = prefixes.len();
    let mut i: usize = 0;
    while i < n
        invariant
            n == prefixes@.len(),
            0 <= i <= n,
            d@ == head + joined(string_views(prefixes@), i as int),
        decreases n - i,
    {
        if i > 0 {
            push_str(&mut d, ", ");
        }
        push_str(&mut d, prefixes[i].as_str());
        proof {
            assert(string_views(prefixes@)[i as int] == prefixes@[i as int]@);
            if i == 0 {
                assert(joined(string_views(prefixes@), 1) == string_views(prefixes@)[0]);
            }
            assert(d@ =~= head + joined(string_views(prefixes@), i as int + 1));
        }
        i += 1;
    }
    proof {
        assert(string_views(prefixes@).len() == n);
        assert(d@ =~= prefix_detail(name@, string_views(prefixes@)));
    }
    d
}

fn check_declarator(file: &str, line_index: &LineIndex, config: &BooleanPrefixRuleConfig, prefixes: &Vec<String>, d: &Declarator) -> (r: Option<Violation>)
    requires
        string_views(prefixes@) == prefix_list(*config),
    ensures
        match declarator_finding(file@, *line_index, *config, *d) {
            Some(v) => r is Some && r->0@ == v,
            None => r is None,
        },
{
    match &d.binding {
        Some(b) => {
            if boolean_declarator(d) && !valid_prefix(b.name.as_str(), prefixes) {
                let pos = line_index.position_for(b.span);
                let detail = detail_of(&b.name, prefixes);
                Some(Violation::located(file, Some(pos.line), Some(pos.column), BOOLEAN_PREFIX_RULE_ID, BOOLEAN_PREFIX_MESSAGE, config.severity, Some(detail), Some(copy_string(&b.name))))
            } else {
                None
            }
        },
        None => None,
    }
}

/// The findings of `boolean-prefix` on the variable declarations of one module: one per
/// boolean `let` or `const` (or `using`) variable bound to a plain name without a valid prefix,
/// in the order the walk reaches them; `var` declarations are not checked, nor `const` ones
/// where constants are ignored.
pub fn check_file(file: &str, declarations: &Vec<VariableDeclaration>, line_index: &LineIndex, config: &BooleanPrefixRuleConfig) -> (r: Vec<Violation>)
    ensures
        views(r@) == prefix_findings(file@, *line_index, *config, declarations@, declarations@.len() as int),
{
    let prefixes = prefixes_of(config);
    let mut out: Vec<Violation> = Vec::new();
    let n = declarations.len();
    let mut k: usize = 0;
    while k < n
        invariant
            n == declarations@.len(),
            0 <= k <= n,
            string_views(prefixes@) == prefix_list(*config),
            views(out@) == prefix_findings(file@, *line_index, *config, declarations@, k as int),
        decreases n - k,
    {
        let decl = &declarations[k];
        let kind = decl.kind;
        let checked = match kind {
            VariableKind::Var => false,
            VariableKind::Const => !config.ignore_constants,
            _ => true,
        };
        if checked {
            let ghost start = views(out@);
            let m = decl.declarators.len();
            let mut i: usize = 0;
            while i < m
                invariant
                    n == declarations@.len(),
                    0 <= k < n,
                    *decl == declarations@[k as int],
                    m == decl.declarators@.len(),
                    0 <= i <= m,
                    string_views(prefixes@) == prefix_list(*config),
                    views(out@) == start + declarator_findings(file@, *line_index, *config, decl.declarators@, i as int),
                decreases m - i,
            {
                let ghost before = out@;
                match check_declarator(file, line_index, config, &prefixes, &decl.declarators[i]) {
                    Some(v) => {
                        out.push(v);
                        proof {
                            assert(views(out@) =~= views(before).push(v@));
                        }
                    },
                    None => {},
                }
                proof {
                    assert(views(out@) =~= start + declarator_findings(file@, *line_index, *config, decl.declarators@, i as int + 1));
                }
                i += 1;
            }
        }
        k += 1;
    }
    out
}

} // verus!
