//! `no-barrel-files`: a file named as a barrel re-exports nothing; one that does is reported
//! once, as a whole.

use vstd::prelude::*;
use crate::config::BarrelRuleConfig;
use crate::paths::{file_name, file_name_of};
use crate::program::{ModuleItem, ModuleSyntax};
use crate::rule_documentation::summary::string_views;
use crate::rules::exports::no_logic_in_barrel::is_re_export;
use crate::rules::hygiene::no_abbreviations::holds_string;
use crate::rules::{views, Violation, ViolationView, NO_BARREL_FILES_RULE_ID};
use crate::syntax::LineIndex;

verus! {

pub const NO_BARREL_FILES_MESSAGE: &'static str = "Avoid barrel files; import directly from the source module.";

/// The findings of a module: one finding, without a position, where the file's name is one of
/// the barrel names and some statement is a re-export; else none.
pub open spec fn barrel_findings(file: Seq<char>, config: BarrelRuleConfig, body: Seq<ModuleItem>) -> Seq<ViolationView> {
    if string_views(config.barrel_names@).contains(file_name(file)) && exists|i: int| 0 <= i < body.len() && is_re_export(#[trigger] body[i]) {
        seq![ViolationView {
            file,
            span: None,
            line: None,
            column: None,
            rule: NO_BARREL_FILES_RULE_ID@,
            message: NO_BARREL_FILES_MESSAGE@,
            severity: config.severity,
            detail: None,
            subject: None,
        }]
    } else {
        Seq::empty()
    }
}

fn any_re_export(body: &Vec<ModuleItem>) -> (r: bool)
    ensures
        r == exists|i: int| 0 <= i < body@.len() && is_re_export(#[trigger] body@[i]),
{
    let n = body.len();
    let mut i: usize = 0;
    while i < n
        invariant
            n == body@.len(),
            0 <= i <= n,
            forall|j: int| 0 <= j < i ==> !is_re_export(#[trigger] body@[j]),
        decreases n - i,
    {
        if crate::rules::exports::no_logic_in_barrel::re_export(&body[i]) {
            return true;
        }
        i += 1;
    }
    false
}

/// The findings of `no-barrel-files` on one module (see `barrel_findings`).
pub fn check_file(file: &str, program: &ModuleSyntax, _line_index: &LineIndex, config: &BarrelRuleConfig) -> (r: Vec<Violation>)
    ensures
        views(r@) == barrel_findings(file@, *config, program.body@),
{
    let mut out: Vec<Violation> = Vec::new();
    let name = file_name_of(file);
    if holds_string(&config.barrel_names, name.as_str()) && any_re_export(&program.body) {
        let v = Violation::located(file, None, None, NO_BARREL_FILES_RULE_ID, NO_BARREL_FILES_MESSAGE, config.severity, None, None);
        out.push(v);
    }
    proof {
        assert(views(out@) =~= barrel_findings(file@, *config, program.body@));
    }
    out
}

} // verus!
