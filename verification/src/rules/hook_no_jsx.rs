//! `hook-no-jsx`: files of hooks hold no JSX.

use vstd::prelude::*;
use vstd::string::StringSliceAdditionalSpecFns;
use crate::config::RuleConfig;
use crate::jsx::{first_jsx, first_jsx_location, is_hook_file, is_hook_path};
use crate::rules::{Violation, ViolationView, HOOK_NO_JSX_RULE_ID};
use crate::syntax::position_at;

verus! {

pub const HOOK_NO_JSX_MESSAGE: &'static str = "Hook files should not contain JSX. Extract UI into a separate component.";

/// The finding of a hook file whose source holds JSX: one finding where the first JSX element
/// opens; none for other files or sources without JSX.
pub fn check_file(file: &str, source: &str, config: &RuleConfig) -> (r: Vec<Violation>)
    requires
        source.spec_bytes().len() < usize::MAX,
    ensures
        !is_hook_path(file@) || first_jsx(source.spec_bytes()) is None ==> r@.len() == 0,
        is_hook_path(file@) && first_jsx(source.spec_bytes()) is Some ==> {
            let pos = position_at(source.spec_bytes(), first_jsx(source.spec_bytes())->0 as nat);
            &&& r@.len() == 1
            &&& r@[0]@ == (ViolationView {
                file: file@,
                span: None,
                line: Some(pos.line),
                column: Some(pos.column),
                rule: HOOK_NO_JSX_RULE_ID@,
                message: HOOK_NO_JSX_MESSAGE@,
                severity: config.severity,
                detail: None,
                subject: None,
            })
        },
{
    if !is_hook_file(file) {
        return Vec::new();
    }
    match first_jsx_location(source) {
        Some(cursor) => {
            let mut out: Vec<Violation> = Vec::new();
            out.push(Violation::located(file, Some(cursor.line), Some(cursor.column), HOOK_NO_JSX_RULE_ID,
                HOOK_NO_JSX_MESSAGE, config.severity, None, None));
            out
        },
        None => Vec::new(),
    }
}

} // verus!
