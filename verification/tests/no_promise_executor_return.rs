use niteo_lint::config::{RuleConfig, Severity};
use niteo_lint::rules::hygiene::no_promise_executor_return::{check_file, ExecutorEvent};
use niteo_lint::rules::Violation;
use niteo_lint::syntax::{LineIndex, Span};

fn span_of(source: &str, text: &str) -> Span {
    let at = source.find(text).unwrap();
    Span { start: at as u32, end: (at + text.len()) as u32 }
}

fn new_of(callee: &str) -> ExecutorEvent {
    ExecutorEvent::EnterNew { callee: Some(callee.to_string()) }
}

fn arrow(source: &str, text: &str, expression: bool) -> ExecutorEvent {
    ExecutorEvent::EnterArrow { span: span_of(source, text), expression }
}

fn ret(source: &str, text: &str, has_argument: bool) -> ExecutorEvent {
    ExecutorEvent::Return { span: span_of(source, text), has_argument }
}

fn exit() -> ExecutorEvent {
    ExecutorEvent::Exit
}

fn run_check(source: &str, events: Vec<ExecutorEvent>) -> Vec<Violation> {
    let line_index = LineIndex::new(source);
    check_file("lib.ts", &events, &line_index, &RuleConfig { severity: Severity::Warn })
}

#[test]
fn reports_return_value_in_arrow_executor() {
    let source = "new Promise((resolve, reject) => { return 42; });\n";
    let events = vec![new_of("Promise"), arrow(source, "(resolve, reject) => { return 42; }", false), ret(source, "return 42;", true), exit(), exit()];
    let violations = run_check(source, events);
    assert_eq!(violations.len(), 1);
}

#[test]
fn reports_return_value_in_function_executor() {
    let source = "new Promise(function(resolve, reject) { return 42; });\n";
    let events = vec![new_of("Promise"), ExecutorEvent::EnterFunction, ret(source, "return 42;", true), exit(), exit()];
    let violations = run_check(source, events);
    assert_eq!(violations.len(), 1);
}

#[test]
fn reports_concise_arrow_executor() {
    let source = "new Promise((resolve, reject) => 42);\n";
    let events = vec![new_of("Promise"), arrow(source, "(resolve, reject) => 42", true), exit(), exit()];
    let violations = run_check(source, events);
    assert_eq!(violations.len(), 1);
}

#[test]
fn does_not_report_return_without_value() {
    let source = "new Promise((resolve, reject) => { return; });\n";
    let events = vec![new_of("Promise"), arrow(source, "(resolve, reject) => { return; }", false), ret(source, "return;", false), exit(), exit()];
    let violations = run_check(source, events);
    assert!(violations.is_empty());
}

#[test]
fn does_not_report_return_in_nested_function() {
    let source = "new Promise((resolve, reject) => { setTimeout(() => { return resolve(42); }, 1000); });\n";
    let events = vec![
        new_of("Promise"),
        arrow(source, "(resolve, reject) =>", false),
        arrow(source, "() => { return resolve(42); }", false),
        ret(source, "return resolve(42);", true),
        exit(),
        exit(),
        exit(),
    ];
    let violations = run_check(source, events);
    assert!(violations.is_empty());
}

#[test]
fn does_not_report_outside_executor() {
    let source = "function foo() { return 42; }\n";
    let events = vec![ExecutorEvent::EnterFunction, ret(source, "return 42;", true), exit()];
    let violations = run_check(source, events);
    assert!(violations.is_empty());
}

#[test]
fn does_not_report_non_promise_new() {
    let source = "new Foo((x) => { return 42; });\n";
    let events = vec![new_of("Foo"), arrow(source, "(x) => { return 42; }", false), ret(source, "return 42;", true), exit(), exit()];
    let violations = run_check(source, events);
    assert!(violations.is_empty());
}

#[test]
fn reports_deep_nested_return_at_executor_level() {
    let source = "new Promise((resolve, reject) => { if (true) { return 42; } });\n";
    let events = vec![new_of("Promise"), arrow(source, "(resolve, reject) =>", false), ret(source, "return 42;", true), exit(), exit()];
    let violations = run_check(source, events);
    assert_eq!(violations.len(), 1);
}

#[test]
fn reports_multiple_returns_in_executor() {
    let source = "new Promise((resolve, reject) => { if (a) { return 1; } return 2; });\n";
    let events = vec![
        new_of("Promise"),
        arrow(source, "(resolve, reject) =>", false),
        ret(source, "return 1;", true),
        ret(source, "return 2;", true),
        exit(),
        exit(),
    ];
    let violations = run_check(source, events);
    assert_eq!(violations.len(), 2);
}

#[test]
fn executor_finding_has_exact_fields() {
    let source = "x;\nnew Promise(r => r(1));\n";
    let events = vec![new_of("Promise"), arrow(source, "r => r(1)", true), exit(), exit()];
    let violations = run_check(source, events);
    assert_eq!(violations.len(), 1);
    let v = &violations[0];
    assert_eq!(v.rule, "no-promise-executor-return");
    assert_eq!(v.message, "Return values from Promise executors cannot be handled; use resolve() or reject() instead.");
    assert_eq!(v.span, Some(Span { start: 15, end: 24 }));
    assert_eq!((v.line, v.column), (Some(2), Some(13)));
}

#[test]
fn concise_arrow_below_the_executor_level_is_not_reported() {
    let source = "new Promise((resolve) => { setTimeout(() => resolve(1)); });\n";
    let events = vec![
        new_of("Promise"),
        arrow(source, "(resolve) =>", false),
        arrow(source, "() => resolve(1)", true),
        exit(),
        exit(),
        exit(),
    ];
    assert!(run_check(source, events).is_empty());
}
