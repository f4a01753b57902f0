use niteo_lint::config::{NoThenChainRuleConfig, Severity};
use niteo_lint::rules::hygiene::no_then_chain::{check_file, InnerCall, MemberCall};
use niteo_lint::rules::Violation;
use niteo_lint::syntax::{LineIndex, Span};

fn span_of(source: &str, text: &str) -> Span {
    let at = source.find(text).unwrap();
    Span { start: at as u32, end: (at + text.len()) as u32 }
}

/// The call written `text` in `source`, calling `method` on `object`.
fn call(source: &str, text: &str, method: &str, object: Option<InnerCall>) -> MemberCall {
    MemberCall { span: span_of(source, text), method: method.to_string(), object }
}

/// The call written `text`, on which a member is accessed; `method` is the member its own
/// callee accesses, if any.
fn on(source: &str, text: &str, method: Option<&str>) -> Option<InnerCall> {
    Some(InnerCall { span: span_of(source, text), method: method.map(|m| m.to_string()) })
}

fn run_check(source: &str, calls: Vec<MemberCall>, allow_single: bool) -> Vec<Violation> {
    let line_index = LineIndex::new(source);
    check_file("lib.ts", &calls, &line_index, &NoThenChainRuleConfig { severity: Severity::Warn, allow_single })
}

fn single_then(source: &str) -> Vec<MemberCall> {
    vec![
        call(source, "fetch('/api').then(res => res.json())", "then", on(source, "fetch('/api')", None)),
        call(source, "res.json()", "json", None),
    ]
}

fn double_then(source: &str) -> Vec<MemberCall> {
    let first = "fetch('/api')\n  .then(res => res.json())";
    vec![
        call(source, "fetch('/api')\n  .then(res => res.json())\n  .then(data => console.log(data))", "then", on(source, first, Some("then"))),
        call(source, first, "then", on(source, "fetch('/api')", None)),
        call(source, "res.json()", "json", None),
        call(source, "console.log(data)", "log", None),
    ]
}

#[test]
fn skips_single_then_when_allow_single() {
    let source = "fetch('/api').then(res => res.json());\n";
    let violations = run_check(source, single_then(source), true);
    assert!(violations.is_empty());
}

#[test]
fn reports_single_then_when_not_allow_single() {
    let source = "fetch('/api').then(res => res.json());\n";
    let violations = run_check(source, single_then(source), false);
    assert_eq!(violations.len(), 1);
    assert_eq!(violations[0].line, Some(1));
}

#[test]
fn reports_chained_then_with_allow_single() {
    let source = "fetch('/api')\n  .then(res => res.json())\n  .then(data => console.log(data));\n";
    let violations = run_check(source, double_then(source), true);
    assert_eq!(violations.len(), 2);
}

#[test]
fn reports_chained_then_without_allow_single() {
    let source = "fetch('/api')\n  .then(res => res.json())\n  .then(data => console.log(data));\n";
    let violations = run_check(source, double_then(source), false);
    assert_eq!(violations.len(), 2);
}

#[test]
fn reports_then_with_catch_allow_single() {
    let source = "fetch('/api').then(res => res.json()).catch(err => console.error(err));\n";
    let then_text = "fetch('/api').then(res => res.json())";
    let calls = vec![
        call(source, "fetch('/api').then(res => res.json()).catch(err => console.error(err))", "catch", on(source, then_text, Some("then"))),
        call(source, then_text, "then", on(source, "fetch('/api')", None)),
        call(source, "res.json()", "json", None),
        call(source, "console.error(err)", "error", None),
    ];
    let violations = run_check(source, calls, true);
    assert_eq!(violations.len(), 1);
}

#[test]
fn reports_then_with_finally_allow_single() {
    let source = "fetch('/api').then(res => res.json()).finally(() => cleanup());\n";
    let then_text = "fetch('/api').then(res => res.json())";
    let calls = vec![
        call(source, "fetch('/api').then(res => res.json()).finally(() => cleanup())", "finally", on(source, then_text, Some("then"))),
        call(source, then_text, "then", on(source, "fetch('/api')", None)),
        call(source, "res.json()", "json", None),
    ];
    let violations = run_check(source, calls, true);
    assert_eq!(violations.len(), 1);
}

#[test]
fn skips_then_after_catch_when_allow_single() {
    let source = "fetch('/api').catch(err => fallback).then(res => res.json());\n";
    let catch_text = "fetch('/api').catch(err => fallback)";
    let calls = vec![
        call(source, "fetch('/api').catch(err => fallback).then(res => res.json())", "then", on(source, catch_text, Some("catch"))),
        call(source, catch_text, "catch", on(source, "fetch('/api')", None)),
        call(source, "res.json()", "json", None),
    ];
    let violations = run_check(source, calls, true);
    assert!(violations.is_empty());
}

#[test]
fn does_not_report_other_member_calls() {
    let source = "[1, 2, 3].map(x => x * 2);\n";
    let violations = run_check(source, vec![call(source, "[1, 2, 3].map(x => x * 2)", "map", None)], true);
    assert!(violations.is_empty());
}

#[test]
fn skips_plain_thenable_when_allow_single() {
    let source = "const obj = { then: () => {} }; obj.then();\n";
    let violations = run_check(source, vec![call(source, "obj.then()", "then", None)], true);
    assert!(violations.is_empty());
}

#[test]
fn reports_plain_thenable_when_not_allow_single() {
    let source = "const obj = { then: () => {} }; obj.then();\n";
    let violations = run_check(source, vec![call(source, "obj.then()", "then", None)], false);
    assert_eq!(violations.len(), 1);
}

#[test]
fn skips_single_then_inside_callback_when_allow_single() {
    let source = "function doWork() { return fetch('/api').then(res => res.json()); }\n";
    let violations = run_check(source, single_then(source), true);
    assert!(violations.is_empty());
}

#[test]
fn reports_then_inside_callback_when_not_allow_single() {
    let source = "function doWork() { return fetch('/api').then(res => res.json()); }\n";
    let violations = run_check(source, single_then(source), false);
    assert_eq!(violations.len(), 1);
}

#[test]
fn reports_triple_then_chain() {
    let source = "fetch('/api').then(a).then(b).then(c);\n";
    let one = "fetch('/api').then(a)";
    let two = "fetch('/api').then(a).then(b)";
    let calls = vec![
        call(source, "fetch('/api').then(a).then(b).then(c)", "then", on(source, two, Some("then"))),
        call(source, two, "then", on(source, one, Some("then"))),
        call(source, one, "then", on(source, "fetch('/api')", None)),
    ];
    let violations = run_check(source, calls, true);
    assert_eq!(violations.len(), 3);
}

#[test]
fn then_chain_finding_has_exact_fields() {
    let source = "x;\nobj.then();\n";
    let violations = run_check(source, vec![call(source, "obj.then()", "then", None)], false);
    assert_eq!(violations.len(), 1);
    let v = &violations[0];
    assert_eq!(v.rule, "no-then-chain");
    assert_eq!(v.message, "Prefer async/await over .then() chains.");
    assert_eq!(v.span, Some(Span { start: 3, end: 13 }));
    assert_eq!(v.line, Some(2));
    assert_eq!(v.column, Some(1));
}

#[test]
fn then_on_a_non_chain_call_is_single() {
    let source = "a.map(f).then(g);\n";
    let calls = vec![call(source, "a.map(f).then(g)", "then", on(source, "a.map(f)", Some("map"))), call(source, "a.map(f)", "map", None)];
    let violations = run_check(source, calls, true);
    assert!(violations.is_empty());
}
