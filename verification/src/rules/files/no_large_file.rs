//! `no-large-file`: a file may have at most a configured number of lines.

use vstd::prelude::*;
use vstd::string::StringSliceAdditionalSpecFns;
use crate::config::FileLengthRuleConfig;
use crate::rules::{Violation, ViolationView, NO_LARGE_FILE_RULE_ID};
use crate::syntax::{lemma_last_line_start_le, line_count, position_at, LineIndex};

verus! {

pub const NO_LARGE_FILE_MESSAGE: &'static str = "Split this file into focused modules.";

/// The finding of a file with more lines than `config` allows (lines counted as `str::lines`
/// counts them): one finding at the end of the file, else none.
pub fn check_file(file: &str, source: &str, config: &FileLengthRuleConfig) -> (r: Vec<Violation>)
    requires
        source.spec_bytes().len() < usize::MAX,
    ensures
        line_count(source.spec_bytes()) <= config.max_lines ==> r@.len() == 0,
        line_count(source.spec_bytes()) > config.max_lines ==> {
            let end = position_at(source.spec_bytes(), source.spec_bytes().len());
            &&& r@.len() == 1
            &&& r@[0]@ == (ViolationView {
                file: file@,
                span: None,
                line: Some(end.line),
                column: Some(end.column),
                rule: NO_LARGE_FILE_RULE_ID@,
                message: NO_LARGE_FILE_MESSAGE@,
                severity: config.severity,
                detail: None,
                subject: None,
            })
        },
{
    let index = LineIndex::new(source);
    let n = source.as_bytes().len();
    let location = index.position_at_offset(n);
    proof {
        let b = source.spec_bytes();
        lemma_last_line_start_le(b.take(b.len() as int));
        assert(b.take(b.len() as int) =~= b);
    }
    let line_count = if location.column > 1 { location.line } else { location.line - 1 };
    if line_count <= config.max_lines {
        return Vec::new();
    }
    let mut out: Vec<Violation> = Vec::new();
    out.push(Violation::located(file, Some(location.line), Some(location.column), NO_LARGE_FILE_RULE_ID,
        NO_LARGE_FILE_MESSAGE, config.severity, None, None));
    out
}

} // verus!
