//! `no-test-code-in-production`: outside test files, no call of a test global (`describe`,
//! `it`, `expect`, ...) and no import of a test library.

use vstd::prelude::*;
use crate::chars::{copy_string, push_str, starts_with, str_equal, str_starts_with, string_of};
use crate::config::{DomainConfig, RuleConfig};
use crate::rules::{domain_matches_file, matches_domain, views, Violation, ViolationView, NO_TEST_CODE_IN_PRODUCTION_RULE_ID};
use crate::syntax::{span_position, LineIndex, Span};

verus! {

pub const NO_TEST_CODE_IN_PRODUCTION_MESSAGE: &'static str = "Disallow test code (describe, it, test, expect, test library imports) outside test files.";

/// What the walk of a module reaches, in order: a call whose callee is a plain identifier (with
/// the identifier's span and name), or an import declaration (with the span and value of its
/// module specifier).
#[derive(Debug)]
pub enum TestCodeEvent {
    Call { span: Span, name: String },
    Import { span: Span, source: String },
}

/// The names of the test globals.
pub open spec fn test_globals() -> Seq<Seq<char>> {
    seq!["describe"@, "it"@, "test"@, "expect"@, "beforeEach"@, "afterEach"@, "beforeAll"@, "afterAll"@]
}

/// The test libraries.
pub open spec fn test_libraries() -> Seq<Seq<char>> {
    seq!["jest"@, "vitest"@, "mocha"@, "@testing-library"@, "@jest"@, "@vitest"@, "chai"@, "sinon"@, "cypress"@, "playwright"@, "@playwright/test"@]
}

/// A module specifier names a test library or a path below one.
pub open spec fn is_test_library(source: Seq<char>) -> bool {
    exists|i: int| 0 <= i < test_libraries().len()
        && (source == #[trigger] test_libraries()[i] || starts_with(source, test_libraries()[i] + "/"@))
}

/// The finding for an event, where there is one.
pub open spec fn test_code_finding(file: Seq<char>, index: LineIndex, config: RuleConfig, e: TestCodeEvent) -> Option<ViolationView> {
    let (span, name, detail, hit) = match e {
        TestCodeEvent::Call { span, name } => (span, name@, "test global `"@ + name@ + "`"@, test_globals().contains(name@)),
        TestCodeEvent::Import { span, source } => (span, source@, "test library import `"@ + source@ + "`"@, is_test_library(source@)),
    };
    if hit {
        let pos = span_position(index, span);
        Some(ViolationView {
            file,
            span: Some(span),
            line: Some(pos.line),
            column: Some(pos.column),
            rule: NO_TEST_CODE_IN_PRODUCTION_RULE_ID@,
            message: NO_TEST_CODE_IN_PRODUCTION_MESSAGE@,
            severity: config.severity,
            detail: Some(detail),
            subject: Some(name),
        })
    } else {
        None
    }
}

/// The findings for the first `k` events.
pub open spec fn test_code_findings(file: Seq<char>, index: LineIndex, config: RuleConfig, events: Seq<TestCodeEvent>, k: int) -> Seq<ViolationView>
    decreases k,
{
    if k <= 0 {
        Seq::empty()
    } else {
        let before = test_code_findings(file, index, config, events, k - 1);
        match test_code_finding(file, index, config, events[k - 1]) {
            Some(v) => before.push(v),
            None => before,
        }
    }
}

fn test_global(name: &str) -> (r: bool)
    ensures
        r == test_globals().contains(name@),
{
    let names: [&str; 8] = ["describe", "it", "test", "expect", "beforeEach", "afterEach", "beforeAll", "afterAll"];
    let mut i: usize = 0;
    while i < 8
        invariant
            0 <= i <= 8,
            forall|j: int| 0 <= j < 8 ==> #[trigger] names@[j]@ == test_globals()[j],
            forall|j: int| 0 <= j < i ==> test_globals()[j] != name@,
        decreases 8 - i,
    {
        if str_equal(name, names[i]) {
            proof {
                assert(test_globals()[i as int] == name@);
            }
            return true;
        }
        i += 1;
    }
    false
}

fn test_library(source: &str) -> (r: bool)
    ensures
        r == is_test_library(source@),
{
    let libs: [&str; 11] = ["jest", "vitest", "mocha", "@testing-library", "@jest", "@vitest", "chai", "sinon", "cypress", "playwright", "@playwright/test"];
    let mut i: usize = 0;
    while i < 11
        invariant
            0 <= i <= 11,
            forall|j: int| 0 <= j < 11 ==> #[trigger] libs@[j]@ == test_libraries()[j],
            forall|j: int| 0 <= j < i ==> !(source@ == #[trigger] test_libraries()[j] || starts_with(source@, test_libraries()[j] + "/"@)),
        decreases 11 - i,
    {
        let mut below = string_of(libs[i]);
        push_str(&mut below, "/");
        if str_equal(source, libs[i]) || str_starts_with(source, below.as_str()) {
            return true;
        }
        i += 1;
    }
    false
}

fn finding_for(file: &str, line_index: &LineIndex, config: &RuleConfig, e: &TestCodeEvent) -> (r: Option<Violation>)
    ensures
        match test_code_finding(file@, *line_index, *config, *e) {
            Some(v) => r is Some && r->0@ == v,
            None => r is None,
        },
{
    match e {
        TestCodeEvent::Call { span, name } => {
            if test_global(name.as_str()) {
                let mut detail = string_of("test global `");
                push_str(&mut detail, name.as_str());
                push_str(&mut detail, "`");
                let pos = line_index.position_for(*span);
                proof {
                    assert(detail@ =~= "test global `"@ + name@ + "`"@);
                }
                Some(Violation::spanned(file, *span, pos.line, pos.column, NO_TEST_CODE_IN_PRODUCTION_RULE_ID, NO_TEST_CODE_IN_PRODUCTION_MESSAGE, config.severity, Some(detail), Some(copy_string(name))))
            } else {
                None
            }
        },
        TestCodeEvent::Import { span, source } => {
            if test_library(source.as_str()) {
                let mut detail = string_of("test library import `");
                push_str(&mut detail, source.as_str());
                push_str(&mut detail, "`");
                let pos = line_index.position_for(*span);
                proof {
                    assert(detail@ =~= "test library import `"@ + source@ + "`"@);
                }
                Some(Violation::spanned(file, *span, pos.line, pos.column, NO_TEST_CODE_IN_PRODUCTION_RULE_ID, NO_TEST_CODE_IN_PRODUCTION_MESSAGE, config.severity, Some(detail), Some(copy_string(source))))
            } else {
                None
            }
        },
    }
}

/// The findings of `no-test-code-in-production` on the walk of one module: none in test files;
/// elsewhere one per call of a test global and per import of a test library, in walk order.
pub fn check_file(file: &str, events: &Vec<TestCodeEvent>, line_index: &LineIndex, config: &RuleConfig, tests_config: &DomainConfig) -> (r: Vec<Violation>)
    ensures
        views(r@) == if matches_domain(file@, *tests_config) {
            Seq::empty()
        } else {
            test_code_findings(file@, *line_index, *config, events@, events@.len() as int)
        },
{
    let mut out: Vec<Violation> = Vec::new();
    if domain_matches_file(file, tests_config) {
        proof {
            assert(views(out@) =~= Seq::<ViolationView>::empty());
        }
        return out;
    }
    let n = events.len();
    let mut k: usize = 0;
    while k < n
        invariant
            n == events@.len(),
            0 <= k <= n,
            views(out@) == test_code_findings(file@, *line_index, *config, events@, k as int),
        decreases n - k,
    {
        let ghost before = out@;
        match finding_for(file, line_index, config, &events[k]) {
            Some(v) => {
                out.push(v);
                proof {
                    assert(views(out@) =~= views(before).push(v@));
                }
            },
            None => {},
        }
        k += 1;
    }
    out
}

} // verus!
