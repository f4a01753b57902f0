//! `explicit-return-type`: exported functions (and, by option, arrow functions, class methods
//! and functions that are not exported) declare their return type.

use vstd::prelude::*;
use crate::config::{ExplicitReturnTypeRuleConfig, Severity};
use crate::rules::{views, Violation, ViolationView, EXPLICIT_RETURN_TYPE_RULE_ID};
use crate::syntax::{span_position, LineIndex, Span};

verus! {

pub const EXPLICIT_RETURN_TYPE_MESSAGE: &'static str = "Exported functions must have an explicit return type.";

/// A function-like construct: its span, its name (if it has one), and whether it declares its
/// return type.
#[derive(Debug)]
pub struct FunctionSignature {
    pub span: Span,
    pub name: Option<String>,
    pub has_return_type: bool,
}

/// The value a variable is initialized with, as far as the rule reads it.
#[derive(Debug)]
pub enum DeclaratorInit {
    Arrow(FunctionSignature),
    Function(FunctionSignature),
    Other,
}

/// One declarator of an exported variable declaration: the name it binds (where it binds a
/// plain name), whether it has a type annotation, and its initializer.
#[derive(Debug)]
pub struct ExportedDeclarator {
    pub name: Option<String>,
    pub typed: bool,
    pub init: Option<DeclaratorInit>,
}

/// What an `export` declaration declares.
#[derive(Debug)]
pub enum ExportedItem {
    Function(FunctionSignature),
    Variables(Vec<ExportedDeclarator>),
    Arrow(FunctionSignature),
    Class,
    Other,
}

/// One step of the walk through a module, in source order: entering a named or a default
/// export (with what it declares), entering a function, a class method definition, an arrow
/// function, and leaving the export or function entered last.
#[derive(Debug)]
pub enum ReturnTypeEvent {
    EnterExportNamed(ExportedItem),
    EnterExportDefault(ExportedItem),
    EnterFunction(FunctionSignature),
    Method(FunctionSignature),
    Arrow(FunctionSignature),
    Exit,
}

/// What leaving an export or a function restores.
#[derive(Clone, Copy, Debug, PartialEq, Eq, Structural)]
pub enum ReturnTypeFrame {
    Export(bool),
    Function(bool),
}

/// Where the walk stands: inside a method, inside an exported class, and what leaving each
/// open export or function restores.
pub struct ReturnTypeState {
    pub inside_method: bool,
    pub inside_exported_class: bool,
    pub frames: Seq<ReturnTypeFrame>,
}

/// The characters of an optional name.
pub open spec fn name_view(name: Option<String>) -> Option<Seq<char>> {
    match name {
        Some(n) => Some(n@),
        None => None,
    }
}

/// A finding at `span`, naming `subject`.
pub open spec fn return_type_finding(file: Seq<char>, index: LineIndex, severity: Severity, span: Span, subject: Option<Seq<char>>) -> ViolationView {
    let pos = span_position(index, span);
    ViolationView {
        file,
        span: Some(span),
        line: Some(pos.line),
        column: Some(pos.column),
        rule: EXPLICIT_RETURN_TYPE_RULE_ID@,
        message: EXPLICIT_RETURN_TYPE_MESSAGE@,
        severity,
        detail: None,
        subject,
    }
}

/// The finding of the first `k` declarators of an exported variable declaration: one for
/// each initialized by a function expression, or by an arrow function where arrows are
/// checked, without a return type; a typed declarator is skipped where inferred types are
/// accepted.
pub open spec fn declarator_findings(file: Seq<char>, index: LineIndex, config: ExplicitReturnTypeRuleConfig, decls: Seq<ExportedDeclarator>, k: int) -> Seq<ViolationView>
    decreases k,
{
    if k <= 0 {
        Seq::empty()
    } else {
        let prev = declarator_findings(file, index, config, decls, k - 1);
        let d = decls[k - 1];
        if d.init is None || (config.ignore_when_inferred && d.typed) {
            prev
        } else {
            match d.init->Some_0 {
                DeclaratorInit::Arrow(f) => if config.include_arrow_functions && !f.has_return_type {
                    prev.push(return_type_finding(file, index, config.severity, f.span, name_view(d.name)))
                } else {
                    prev
                },
                DeclaratorInit::Function(f) => if !f.has_return_type {
                    prev.push(return_type_finding(file, index, config.severity, f.span, name_view(d.name)))
                } else {
                    prev
                },
                DeclaratorInit::Other => prev,
            }
        }
    }
}

/// The findings of entering an export: an exported function without a return type, the
/// unchecked declarators of an exported variable declaration, and a default-exported arrow
/// without a return type where arrows are checked.
pub open spec fn export_findings(file: Seq<char>, index: LineIndex, config: ExplicitReturnTypeRuleConfig, item: ExportedItem, default: bool) -> Seq<ViolationView> {
    match item {
        ExportedItem::Function(f) => if !f.has_return_type {
            seq![return_type_finding(file, index, config.severity, f.span, name_view(f.name))]
        } else {
            Seq::empty()
        },
        ExportedItem::Variables(ds) => if default { Seq::empty() } else {
            declarator_findings(file, index, config, ds@, ds@.len() as int)
        },
        ExportedItem::Arrow(f) => if default && config.include_arrow_functions && !f.has_return_type {
            seq![return_type_finding(file, index, config.severity, f.span, None)]
        } else {
            Seq::empty()
        },
        _ => Seq::empty(),
    }
}

/// The findings of the first `k` steps of the walk, and the state after them. Exports are
/// checked as they are entered, and an exported class marks what it holds; a function is
/// checked where functions that are not exported are, outside methods; a class method where
/// class methods are checked, inside an exported class or where private ones are; an arrow
/// where arrows and private functions are.
pub open spec fn return_type_walk(file: Seq<char>, index: LineIndex, config: ExplicitReturnTypeRuleConfig, events: Seq<ReturnTypeEvent>, k: int) -> (Seq<ViolationView>, ReturnTypeState)
    decreases k,
{
    if k <= 0 {
        (Seq::empty(), ReturnTypeState { inside_method: false, inside_exported_class: false, frames: Seq::empty() })
    } else {
        let (found, st) = return_type_walk(file, index, config, events, k - 1);
        match events[k - 1] {
            ReturnTypeEvent::EnterExportNamed(item) => {
                let class = item is Class;
                (found + export_findings(file, index, config, item, false), ReturnTypeState {
                    inside_exported_class: if class { true } else { st.inside_exported_class },
                    frames: st.frames.push(ReturnTypeFrame::Export(st.inside_exported_class)),
                    ..st
                })
            },
            ReturnTypeEvent::EnterExportDefault(item) => {
                let class = item is Class;
                (found + export_findings(file, index, config, item, true), ReturnTypeState {
                    inside_exported_class: if class { true } else { st.inside_exported_class },
                    frames: st.frames.push(ReturnTypeFrame::Export(st.inside_exported_class)),
                    ..st
                })
            },
            ReturnTypeEvent::EnterFunction(f) => {
                let next = ReturnTypeState { inside_method: false, frames: st.frames.push(ReturnTypeFrame::Function(st.inside_method)), ..st };
                if config.include_private && !st.inside_method && !f.has_return_type {
                    (found.push(return_type_finding(file, index, config.severity, f.span, name_view(f.name))), next)
                } else {
                    (found, next)
                }
            },
            ReturnTypeEvent::Method(f) => {
                let next = ReturnTypeState { inside_method: true, ..st };
                if config.include_class_methods && (st.inside_exported_class || config.include_private) && !f.has_return_type {
                    (found.push(return_type_finding(file, index, config.severity, f.span, name_view(f.name))), next)
                } else {
                    (found, next)
                }
            },
            ReturnTypeEvent::Arrow(f) => {
                if config.include_private && config.include_arrow_functions && !f.has_return_type {
                    (found.push(return_type_finding(file, index, config.severity, f.span, None)), st)
                } else {
                    (found, st)
                }
            },
            ReturnTypeEvent::Exit => {
                if st.frames.len() == 0 {
                    (found, st)
                } else {
                    let rest = st.frames.drop_last();
                    match st.frames.last() {
                        ReturnTypeFrame::Export(saved) => (found, ReturnTypeState { inside_exported_class: saved, frames: rest, ..st }),
                        ReturnTypeFrame::Function(saved) => (found, ReturnTypeState { inside_method: saved, frames: rest, ..st }),
                    }
                }
            },
        }
    }
}

fn copy_name(name: &Option<String>) -> (r: Option<String>)
    ensures
        name_view(r) == name_view(*name),
{
    match name {
        Some(n) => Some(crate::chars::copy_string(n)),
        None => None,
    }
}

fn report(file: &str, line_index: &LineIndex, severity: Severity, span: Span, name: Option<String>) -> (r: Violation)
    ensures
        r@ == return_type_finding(file@, *line_index, severity, span, name_view(name)),
{
    let pos = line_index.position_for(span);
    Violation::spanned(file, span, pos.line, pos.column, EXPLICIT_RETURN_TYPE_RULE_ID, EXPLICIT_RETURN_TYPE_MESSAGE, severity, None, name)
}

/// The findings of the declarators of an exported variable declaration (see
/// `declarator_findings`).
fn check_exported_declarators(file: &str, line_index: &LineIndex, config: &ExplicitReturnTypeRuleConfig, decls: &Vec<ExportedDeclarator>) -> (r: Vec<Violation>)
    ensures
        views(r@) == declarator_findings(file@, *line_index, *config, decls@, decls@.len() as int),
{
    let n = decls.len();
    let mut out: Vec<Violation> = Vec::new();
    let mut k: usize = 0;
    while k < n
        invariant
            n == decls@.len(),
            0 <= k <= n,
            views(out@) == declarator_findings(file@, *line_index, *config, decls@, k as int),
        decreases n - k,
    {
        let d = &decls[k];
        let ghost before = out@;
        match &d.init {
            Some(init) => {
                if !(config.ignore_when_inferred && d.typed) {
                    match init {
                        DeclaratorInit::Arrow(f) => {
                            if config.include_arrow_functions && !f.has_return_type {
                                let v = report(file, line_index, config.severity, f.span, copy_name(&d.name));
                                out.push(v);
                                proof {
                                    assert(views(out@) =~= views(before).push(v@));
                                }
                            }
                        },
                        DeclaratorInit::Function(f) => {
                            if !f.has_return_type {
                                let v = report(file, line_index, config.severity, f.span, copy_name(&d.name));
                                out.push(v);
                                proof {
                                    assert(views(out@) =~= views(before).push(v@));
                                }
                            }
                        },
                        DeclaratorInit::Other => {},
                    }
                }
            },
            None => {},
        }
        k += 1;
    }
    out
}

/// The findings of entering an export (see `export_findings`).
fn check_export(file: &str, line_index: &LineIndex, config: &ExplicitReturnTypeRuleConfig, item: &ExportedItem, default: bool) -> (r: Vec<Violation>)
    ensures
        views(r@) == export_findings(file@, *line_index, *config, *item, default),
{
    let mut out: Vec<Violation> = Vec::new();
    match item {
        ExportedItem::Function(f) => {
            if !f.has_return_type {
                let v = report(file, line_index, config.severity, f.span, copy_name(&f.name));
                out.push(v);
                proof {
                    assert(views(out@) =~= seq![v@]);
                }
            } else {
                proof {
                    assert(views(out@) =~= Seq::<ViolationView>::empty());
                }
            }
        },
        ExportedItem::Variables(ds) => {
            if !default {
                out = check_exported_declarators(file, line_index, config, ds);
            } else {
                proof {
                    assert(views(out@) =~= Seq::<ViolationView>::empty());
                }
            }
        },
        ExportedItem::Arrow(f) => {
            if default && config.include_arrow_functions && !f.has_return_type {
                let v = report(file, line_index, config.severity, f.span, None);
                out.push(v);
                proof {
                    assert(views(out@) =~= seq![v@]);
                }
            } else {
                proof {
                    assert(views(out@) =~= Seq::<ViolationView>::empty());
                }
            }
        },
        _ => {
            proof {
                assert(views(out@) =~= Seq::<ViolationView>::empty());
            }
        },
    }
    out
}

/// The findings of `explicit-return-type` on the walk `events` of one module (see
/// `return_type_walk`).
pub fn check_file(file: &str, events: &Vec<ReturnTypeEvent>, line_index: &LineIndex, config: &ExplicitReturnTypeRuleConfig) -> (r: Vec<Violation>)
    ensures
        views(r@) == return_type_walk(file@, *line_index, *config, events@, events@.len() as int).0,
{
    let n = events.len();
    let mut violations: Vec<Violation> = Vec::new();
    let mut inside_method = false;
    let mut inside_exported_class = false;
    let mut frames: Vec<ReturnTypeFrame> = Vec::new();
    let mut k: usize = 0;
    while k < n
        invariant
            n == events@.len(),
            0 <= k <= n,
            ({
                let (found, st) = return_type_walk(file@, *line_index, *config, events@, k as int);
                &&& views(violations@) == found
                &&& st == ReturnTypeState { inside_method, inside_exported_class, frames: frames@ }
            }),
        decreases n - k,
    {
        let ghost before = violations@;
        match &events[k] {
            ReturnTypeEvent::EnterExportNamed(item) => {
                let mut found = check_export(file, line_index, config, item, false);
                let ghost part = found@;
                violations.append(&mut found);
                frames.push(ReturnTypeFrame::Export(inside_exported_class));
                if let ExportedItem::Class = item {
                    inside_exported_class = true;
                }
                proof {
                    crate::rules::imports::sort_imports::lemma_views_append(before, part);
                }
            },
            ReturnTypeEvent::EnterExportDefault(item) => {
                let mut found = check_export(file, line_index, config, item, true);
                let ghost part = found@;
                violations.append(&mut found);
                frames.push(ReturnTypeFrame::Export(inside_exported_class));
                if let ExportedItem::Class = item {
                    inside_exported_class = true;
                }
                proof {
                    crate::rules::imports::sort_imports::lemma_views_append(before, part);
                }
            },
            ReturnTypeEvent::EnterFunction(f) => {
                if config.include_private && !inside_method && !f.has_return_type {
                    let v = report(file, line_index, config.severity, f.span, copy_name(&f.name));
                    violations.push(v);
                    proof {
                        assert(views(violations@) =~= views(before).push(v@));
                    }
                }
                frames.push(ReturnTypeFrame::Function(inside_method));
                inside_method = false;
            },
            ReturnTypeEvent::Method(f) => {
                if config.include_class_methods && (inside_exported_class || config.include_private) && !f.has_return_type {
                    let v = report(file, line_index, config.severity, f.span, copy_name(&f.name));
                    violations.push(v);
                    proof {
                        assert(views(violations@) =~= views(before).push(v@));
                    }
                }
                inside_method = true;
            },
            ReturnTypeEvent::Arrow(f) => {
                if config.include_private && config.include_arrow_functions && !f.has_return_type {
                    let v = report(file, line_index, config.severity, f.span, None);
                    violations.push(v);
                    proof {
                        assert(views(violations@) =~= views(before).push(v@));
                    }
                }
            },
            ReturnTypeEvent::Exit => {
                let ghost old_frames = frames@;
                match frames.pop() {
                    Some(ReturnTypeFrame::Export(saved)) => {
                        inside_exported_class = saved;
                    },
                    Some(ReturnTypeFrame::Function(saved)) => {
                        inside_method = saved;
                    },
                    None => {},
                }
                proof {
                    if old_frames.len() > 0 {
                        assert(frames@ =~= old_frames.drop_last());
                    }
                }
            },
        }
        k += 1;
    }
    violations
}

} // verus!
