//! `component-file-only-components`: a `.tsx` file of the components domain exports components
//! only, that is names in PascalCase; types, interfaces, enums and namespaces are reported
//! whatever their names.

use vstd::prelude::*;
use crate::chars::{copy_string, string_of};
use crate::config::{DomainConfig, RuleConfig};
use crate::paths::{extension, extension_of, file_name, file_name_of};
use crate::rules::{domain_matches_file, matches_domain, views, Violation, ViolationView, COMPONENT_FILE_ONLY_COMPONENTS_RULE_ID};
use crate::syntax::{span_position, LineIndex, Span};

verus! {

pub const COMPONENT_FILE_ONLY_COMPONENTS_MESSAGE: &'static str = "Component files must only export components. Move utilities, types, and hooks to separate files.";

/// A name that a declaration binds, and where.
#[derive(Debug)]
pub struct DeclaredName {
    pub span: Span,
    pub name: String,
}

/// The declaration of `export <declaration>`: a function or a class with its name, if it has
/// one; variables, with the name of each declarator that binds a plain identifier (`None` for a
/// destructuring pattern); a type alias, an interface, an enum or a namespace with the span of
/// the whole declaration and its name; anything else.
#[derive(Debug)]
pub enum ExportedDeclaration {
    Function(Option<DeclaredName>),
    Class(Option<DeclaredName>),
    Variables(Vec<Option<DeclaredName>>),
    TypeAlias { span: Span, name: String },
    Interface { span: Span, name: String },
    Enum { span: Span, name: String },
    Namespace { span: Span, name: String },
    Other,
}

/// What `export default` exports: a function or a class declaration with its name, if it has
/// one; an interface; anything else (an expression).
#[derive(Debug)]
pub enum DefaultExport {
    Function(Option<String>),
    Class(Option<String>),
    Interface,
    Other,
}

/// An export declaration that the walk of a module reaches, in source order: `export
/// <declaration>` and `export { ... }` (with the local name and span of each specifier), or
/// `export default` (with the span of the whole declaration).
#[derive(Debug)]
pub enum ComponentExport {
    Named { declaration: Option<ExportedDeclaration>, specifiers: Vec<DeclaredName> },
    Default { span: Span, declaration: DefaultExport },
}

/// A name in PascalCase: its first character is an ASCII capital.
pub open spec fn is_pascal_case(name: Seq<char>) -> bool {
    name.len() > 0 && 'A' <= name[0] && name[0] <= 'Z'
}

/// The file belongs to the components domain and has the extension `tsx`.
pub open spec fn is_checked_component_file(file: Seq<char>, components: DomainConfig) -> bool {
    matches_domain(file, components) && extension(file_name(file)) == Some("tsx"@)
}

/// A finding at `span` for `subject`.
pub open spec fn component_finding(file: Seq<char>, index: LineIndex, config: RuleConfig, span: Span, subject: Seq<char>) -> ViolationView {
    let pos = span_position(index, span);
    ViolationView {
        file,
        span: None,
        line: Some(pos.line),
        column: Some(pos.column),
        rule: COMPONENT_FILE_ONLY_COMPONENTS_RULE_ID@,
        message: COMPONENT_FILE_ONLY_COMPONENTS_MESSAGE@,
        severity: config.severity,
        detail: None,
        subject: Some(subject),
    }
}

/// The finding for a declared name that is not in PascalCase, if it is not.
pub open spec fn name_findings(file: Seq<char>, index: LineIndex, config: RuleConfig, id: Option<DeclaredName>) -> Seq<ViolationView> {
    match id {
        Some(d) => if is_pascal_case(d.name@) {
            Seq::empty()
        } else {
            seq![component_finding(file, index, config, d.span, d.name@)]
        },
        None => Seq::empty(),
    }
}

/// The findings for the first `k` declarators of an exported variable declaration.
pub open spec fn declarator_findings(file: Seq<char>, index: LineIndex, config: RuleConfig, ids: Seq<Option<DeclaredName>>, k: int) -> Seq<ViolationView>
    decreases k,
{
    if k <= 0 {
        Seq::empty()
    } else {
        declarator_findings(file, index, config, ids, k - 1) + name_findings(file, index, config, ids[k - 1])
    }
}

/// The findings for an exported declaration.
pub open spec fn declaration_findings(file: Seq<char>, index: LineIndex, config: RuleConfig, d: ExportedDeclaration) -> Seq<ViolationView> {
    match d {
        ExportedDeclaration::Function(id) => name_findings(file, index, config, id),
        ExportedDeclaration::Class(id) => name_findings(file, index, config, id),
        ExportedDeclaration::Variables(ids) => declarator_findings(file, index, config, ids@, ids@.len() as int),
        ExportedDeclaration::TypeAlias { span, name } => seq![component_finding(file, index, config, span, name@)],
        ExportedDeclaration::Interface { span, name } => seq![component_finding(file, index, config, span, name@)],
        ExportedDeclaration::Enum { span, name } => seq![component_finding(file, index, config, span, name@)],
        ExportedDeclaration::Namespace { span, name } => seq![component_finding(file, index, config, span, name@)],
        ExportedDeclaration::Other => Seq::empty(),
    }
}

/// The findings for the first `k` specifiers of `export { ... }`.
pub open spec fn specifier_findings(file: Seq<char>, index: LineIndex, config: RuleConfig, specifiers: Seq<DeclaredName>, k: int) -> Seq<ViolationView>
    decreases k,
{
    if k <= 0 {
        Seq::empty()
    } else {
        specifier_findings(file, index, config, specifiers, k - 1) + name_findings(file, index, config, Some(specifiers[k - 1]))
    }
}

/// A default export is a component: a function or class declaration named in PascalCase, or
/// any export that is neither a declaration nor an interface.
pub open spec fn is_default_component(d: DefaultExport) -> bool {
    match d {
        DefaultExport::Function(id) => id matches Some(n) && is_pascal_case(n@),
        DefaultExport::Class(id) => id matches Some(n) && is_pascal_case(n@),
        DefaultExport::Interface => false,
        DefaultExport::Other => true,
    }
}

/// The findings for one export declaration: its declaration's, then its specifiers'; a default
/// export that is no component is reported as `default` at the whole declaration.
pub open spec fn export_findings(file: Seq<char>, index: LineIndex, config: RuleConfig, e: ComponentExport) -> Seq<ViolationView> {
    match e {
        ComponentExport::Named { declaration, specifiers } => {
            let own = match declaration {
                Some(d) => declaration_findings(file, index, config, d),
                None => Seq::empty(),
            };
            own + specifier_findings(file, index, config, specifiers@, specifiers@.len() as int)
        },
        ComponentExport::Default { span, declaration } => if is_default_component(declaration) {
            Seq::empty()
        } else {
            seq![component_finding(file, index, config, span, "default"@)]
        },
    }
}

/// The findings for the first `k` export declarations.
pub open spec fn component_findings(file: Seq<char>, index: LineIndex, config: RuleConfig, exports: Seq<ComponentExport>, k: int) -> Seq<ViolationView>
    decreases k,
{
    if k <= 0 {
        Seq::empty()
    } else {
        component_findings(file, index, config, exports, k - 1) + export_findings(file, index, config, exports[k - 1])
    }
}

fn pascal_case(name: &String) -> (r: bool)
    ensures
        r == is_pascal_case(name@),
{
    let v = crate::chars::chars_of(name.as_str());
    v.len() > 0 && 'A' <= v[0] && v[0] <= 'Z'
}

fn finding_at(file: &str, line_index: &LineIndex, config: &RuleConfig, span: Span, subject: String) -> (r: Violation)
    ensures
        r@ == component_finding(file@, *line_index, *config, span, subject@),
{
    let pos = line_index.position_for(span);
    Violation::located(file, Some(pos.line), Some(pos.column), COMPONENT_FILE_ONLY_COMPONENTS_RULE_ID, COMPONENT_FILE_ONLY_COMPONENTS_MESSAGE, config.severity, None, Some(subject))
}

fn push_finding(out: &mut Vec<Violation>, v: Violation)
    ensures
        views(final(out)@) == views(old(out)@) + seq![v@],
{
    let ghost before = out@;
    out.push(v);
    proof {
        assert(views(out@) =~= views(before) + seq![v@]);
    }
}

fn push_name_findings(out: &mut Vec<Violation>, file: &str, line_index: &LineIndex, config: &RuleConfig, id: &Option<DeclaredName>)
    ensures
        views(final(out)@) == views(old(out)@) + name_findings(file@, *line_index, *config, *id),
{
    match id {
        Some(d) => {
            if !pascal_case(&d.name) {
                push_finding(out, finding_at(file, line_index, config, d.span, copy_string(&d.name)));
            } else {
                proof {
                    assert(views(out@) + name_findings(file@, *line_index, *config, *id) =~= views(out@));
                }
            }
        },
        None => {
            proof {
                assert(views(out@) + name_findings(file@, *line_index, *config, *id) =~= views(out@));
            }
        },
    }
}

fn push_declarator_findings(out: &mut Vec<Violation>, file: &str, line_index: &LineIndex, config: &RuleConfig, ids: &Vec<Option<DeclaredName>>)
    ensures
        views(final(out)@) == views(old(out)@) + declarator_findings(file@, *line_index, *config, ids@, ids@.len() as int),
{
    let ghost start = views(out@);
    let n = ids.len();
    let mut i: usize = 0;
    proof {
        assert(start + declarator_findings(file@, *line_index, *config, ids@, 0) =~= start);
    }
    while i < n
        invariant
            n == ids@.len(),
            0 <= i <= n,
            views(out@) == start + declarator_findings(file@, *line_index, *config, ids@, i as int),
        decreases n - i,
    {
        push_name_findings(out, file, line_index, config, &ids[i]);
        proof {
            assert(views(out@) =~= start + declarator_findings(file@, *line_index, *config, ids@, i as int + 1));
        }
        i += 1;
    }
}

fn push_declaration_findings(out: &mut Vec<Violation>, file: &str, line_index: &LineIndex, config: &RuleConfig, d: &ExportedDeclaration)
    ensures
        views(final(out)@) == views(old(out)@) + declaration_findings(file@, *line_index, *config, *d),
{
    match d {
        ExportedDeclaration::Function(id) => push_name_findings(out, file, line_index, config, id),
        ExportedDeclaration::Class(id) => push_name_findings(out, file, line_index, config, id),
        ExportedDeclaration::Variables(ids) => push_declarator_findings(out, file, line_index, config, ids),
        ExportedDeclaration::TypeAlias { span, name } => push_finding(out, finding_at(file, line_index, config, *span, copy_string(name))),
        ExportedDeclaration::Interface { span, name } => push_finding(out, finding_at(file, line_index, config, *span, copy_string(name))),
        ExportedDeclaration::Enum { span, name } => push_finding(out, finding_at(file, line_index, config, *span, copy_string(name))),
        ExportedDeclaration::Namespace { span, name } => push_finding(out, finding_at(file, line_index, config, *span, copy_string(name))),
        ExportedDeclaration::Other => {
            proof {
                assert(views(out@) + declaration_findings(file@, *line_index, *config, *d) =~= views(out@));
            }
        },
    }
}

fn push_specifier_findings(out: &mut Vec<Violation>, file: &str, line_index: &LineIndex, config: &RuleConfig, specifiers: &Vec<DeclaredName>)
    ensures
        views(final(out)@) == views(old(out)@) + specifier_findings(file@, *line_index, *config, specifiers@, specifiers@.len() as int),
{
    let ghost start = views(out@);
    let n = specifiers.len();
    let mut i: usize = 0;
    proof {
        assert(start + specifier_findings(file@, *line_index, *config, specifiers@, 0) =~= start);
    }
    while i < n
        invariant
            n == specifiers@.len(),
            0 <= i <= n,
            views(out@) == start + specifier_findings(file@, *line_index, *config, specifiers@, i as int),
        decreases n - i,
    {
        let s = &specifiers[i];
        if !pascal_case(&s.name) {
            push_finding(out, finding_at(file, line_index, config, s.span, copy_string(&s.name)));
        }
        proof {
            assert(views(out@) =~= start + specifier_findings(file@, *line_index, *config, specifiers@, i as int + 1));
        }
        i += 1;
    }
}

fn default_component(d: &DefaultExport) -> (r: bool)
    ensures
        r == is_default_component(*d),
{
    match d {
        DefaultExport::Function(id) => match id {
            Some(n) => pascal_case(n),
            None => false,
        },
        DefaultExport::Class(id) => match id {
            Some(n) => pascal_case(n),
            None => false,
        },
        DefaultExport::Interface => false,
        DefaultExport::Other => true,
    }
}

fn push_export_findings(out: &mut Vec<Violation>, file: &str, line_index: &LineIndex, config: &RuleConfig, e: &ComponentExport)
    ensures
        views(final(out)@) == views(old(out)@) + export_findings(file@, *line_index, *config, *e),
{
    let ghost start = views(out@);
    match e {
        ComponentExport::Named { declaration, specifiers } => {
            match declaration {
                Some(d) => push_declaration_findings(out, file, line_index, config, d),
                None => {},
            }
            push_specifier_findings(out, file, line_index, config, specifiers);
            proof {
                assert(views(out@) =~= start + export_findings(file@, *line_index, *config, *e));
            }
        },
        ComponentExport::Default { span, declaration } => {
            if !default_component(declaration) {
                push_finding(out, finding_at(file, line_index, config, *span, string_of("default")));
            } else {
                proof {
                    assert(views(out@) + export_findings(file@, *line_index, *config, *e) =~= views(out@));
                }
            }
        },
    }
}

/// Whether `file` is a `.tsx` file of the components domain.
pub fn is_checked_file(file: &str, components: &DomainConfig) -> (r: bool)
    ensures
        r == is_checked_component_file(file@, *components),
{
    if !domain_matches_file(file, components) {
        return false;
    }
    let name = file_name_of(file);
    match extension_of(name.as_str()) {
        Some(e) => crate::chars::str_equal(e.as_str(), "tsx"),
        None => false,
    }
}

/// The findings of `component-file-only-components` on the export declarations of one module:
/// none outside `.tsx` files of the components domain; within them, each exported name that is
/// not in PascalCase, each exported type, interface, enum and namespace, and each default
/// export that is no component, in source order.
pub fn check_file(file: &str, exports: &Vec<ComponentExport>, line_index: &LineIndex, config: &RuleConfig, components: &DomainConfig) -> (r: Vec<Violation>)
    ensures
        views(r@) == if is_checked_component_file(file@, *components) {
            component_findings(file@, *line_index, *config, exports@, exports@.len() as int)
        } else {
            Seq::empty()
        },
{
    let mut out: Vec<Violation> = Vec::new();
    if !is_checked_file(file, components) {
        proof {
            assert(views(out@) =~= Seq::<ViolationView>::empty());
        }
        return out;
    }
    let n = exports.len();
    let mut k: usize = 0;
    proof {
        assert(views(out@) =~= component_findings(file@, *line_index, *config, exports@, 0));
    }
    while k < n
        invariant
            n == exports@.len(),
            0 <= k <= n,
            views(out@) == component_findings(file@, *line_index, *config, exports@, k as int),
        decreases n - k,
    {
        push_export_findings(&mut out, file, line_index, config, &exports[k]);
        k += 1;
    }
    out
}

} // verus!
