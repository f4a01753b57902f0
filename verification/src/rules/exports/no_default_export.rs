//! `no-default-export`: a module has no `export default`; where the rule is limited to
//! components, only files of the components domain are checked, with a message of their own.

use vstd::prelude::*;
use crate::config::{DomainConfig, NoDefaultExportRuleConfig};
use crate::program::{ExportKind, ModuleItem, ModuleSyntax};
use crate::rules::{domain_matches_file, matches_domain, views, Violation, ViolationView, NO_DEFAULT_EXPORT_RULE_ID};
use crate::syntax::{span_position, LineIndex, Span};

verus! {

pub const GENERAL_MESSAGE: &'static str = "Use named exports so imports stay explicit and refactorable.";

pub const COMPONENT_MESSAGE: &'static str = "Components must use named exports so imports stay explicit and refactorable.";

/// The message of the rule's findings under `config`.
pub open spec fn default_export_message(config: NoDefaultExportRuleConfig) -> Seq<char> {
    if config.components_only { COMPONENT_MESSAGE@ } else { GENERAL_MESSAGE@ }
}

/// The finding at a default export spanning `span`.
pub open spec fn default_export_finding(file: Seq<char>, index: LineIndex, config: NoDefaultExportRuleConfig, span: Span) -> ViolationView {
    let pos = span_position(index, span);
    ViolationView {
        file,
        span: Some(span),
        line: Some(pos.line),
        column: Some(pos.column),
        rule: NO_DEFAULT_EXPORT_RULE_ID@,
        message: default_export_message(config),
        severity: config.severity,
        detail: None,
        subject: None,
    }
}

/// The findings for the first `k` statements: one per default export.
pub open spec fn default_export_findings(file: Seq<char>, index: LineIndex, config: NoDefaultExportRuleConfig, body: Seq<ModuleItem>, k: int) -> Seq<ViolationView>
    decreases k,
{
    if k <= 0 {
        Seq::empty()
    } else {
        let before = default_export_findings(file, index, config, body, k - 1);
        match body[k - 1] {
            ModuleItem::Export(e) => match e.kind {
                ExportKind::Default => before.push(default_export_finding(file, index, config, e.span)),
                _ => before,
            },
            _ => before,
        }
    }
}

/// The file is checked: the rule is not limited to components, or the file is one.
pub open spec fn is_checked(file: Seq<char>, config: NoDefaultExportRuleConfig, components: DomainConfig) -> bool {
    !config.components_only || matches_domain(file, components)
}

/// The findings of `no-default-export` on one module: one per `export default` declaration, in
/// source order, where the file is checked (see `is_checked`).
pub fn check_file(file: &str, program: &ModuleSyntax, line_index: &LineIndex, config: &NoDefaultExportRuleConfig, components: &DomainConfig) -> (r: Vec<Violation>)
    ensures
        views(r@) == if is_checked(file@, *config, *components) {
            default_export_findings(file@, *line_index, *config, program.body@, program.body@.len() as int)
        } else {
            Seq::empty()
        },
{
    let mut out: Vec<Violation> = Vec::new();
    if config.components_only && !domain_matches_file(file, components) {
        proof {
            assert(views(out@) =~= Seq::<ViolationView>::empty());
        }
        return out;
    }
    let message = if config.components_only { COMPONENT_MESSAGE } else { GENERAL_MESSAGE };
    let body = &program.body;
    let n = body.len();
    let mut k: usize = 0;
    proof {
        assert(views(out@) =~= default_export_findings(file@, *line_index, *config, body@, 0));
    }
    while k < n
        invariant
            n == body@.len(),
            body@ == program.body@,
            0 <= k <= n,
            message@ == default_export_message(*config),
            views(out@) == default_export_findings(file@, *line_index, *config, body@, k as int),
        decreases n - k,
    {
        match &body[k] {
            ModuleItem::Export(e) => match &e.kind {
                ExportKind::Default => {
                    let ghost before = out@;
                    let pos = line_index.position_for(e.span);
                    let v = Violation::spanned(file, e.span, pos.line, pos.column, NO_DEFAULT_EXPORT_RULE_ID, message, config.severity, None, None);
                    out.push(v);
                    proof {
                        assert(views(out@) =~= views(before).push(v@));
                    }
                },
                _ => {},
            },
            _ => {},
        }
        k += 1;
    }
    out
}

} // verus!
