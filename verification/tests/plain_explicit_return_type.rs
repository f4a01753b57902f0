use niteo_lint::config::{RuleConfig, Severity};
use niteo_lint::rules::explicit_return_type::{check_file, ExportedSignature};
use niteo_lint::rules::Violation;
use niteo_lint::syntax::{LineIndex, Span};

/// The exported function whose text starts at the first occurrence of `from` in `source` and
/// runs to the end of its line.
fn signature(source: &str, from: &str, name: Option<&str>, has_return_type: bool) -> ExportedSignature {
    let at = source.find(from).unwrap();
    let end = source[at..].find('\n').map(|p| at + p).unwrap_or(source.len());
    ExportedSignature { span: Span { start: at as u32, end: end as u32 }, name: name.map(|n| n.to_string()), has_return_type }
}

fn run_check(source: &str, functions: Vec<ExportedSignature>) -> Vec<Violation> {
    let line_index = LineIndex::new(source);
    check_file("utils.ts", &functions, &line_index, &RuleConfig { severity: Severity::Warn })
}

#[test]
fn plain_return_type_reports_exported_function_without_return_type() {
    let source = "export function add(a: number, b: number) { return a + b; }";
    let violations = run_check(source, vec![signature(source, "function", Some("add"), false)]);
    assert_eq!(violations.len(), 1);
    assert_eq!(violations[0].subject.as_deref(), Some("add"));
}

#[test]
fn plain_return_type_allows_exported_function_with_return_type() {
    let source = "export function add(a: number, b: number): number { return a + b; }";
    let violations = run_check(source, vec![signature(source, "function", Some("add"), true)]);
    assert!(violations.is_empty());
}

#[test]
fn plain_return_type_reports_exported_arrow_without_return_type() {
    let source = "export const add = (a: number, b: number) => a + b;";
    let violations = run_check(source, vec![signature(source, "(a", Some("add"), false)]);
    assert_eq!(violations.len(), 1);
    assert_eq!(violations[0].subject.as_deref(), Some("add"));
}

#[test]
fn plain_return_type_allows_exported_arrow_with_return_type() {
    let source = "export const add = (a: number, b: number): number => a + b;";
    let violations = run_check(source, vec![signature(source, "(a", Some("add"), true)]);
    assert!(violations.is_empty());
}

#[test]
fn plain_return_type_reports_exported_function_expression_without_return_type() {
    let source = "export const add = function(a: number, b: number) { return a + b; };";
    let violations = run_check(source, vec![signature(source, "function", Some("add"), false)]);
    assert_eq!(violations.len(), 1);
    assert_eq!(violations[0].subject.as_deref(), Some("add"));
}

#[test]
fn plain_return_type_allows_exported_function_expression_with_return_type() {
    let source = "export const add = function(a: number, b: number): number { return a + b; };";
    let violations = run_check(source, vec![signature(source, "function", Some("add"), true)]);
    assert!(violations.is_empty());
}

#[test]
fn plain_return_type_reports_default_exported_function_without_return_type() {
    let source = "export default function greet() { return 'hello'; }";
    let violations = run_check(source, vec![signature(source, "function", Some("greet"), false)]);
    assert_eq!(violations.len(), 1);
    assert_eq!(violations[0].subject.as_deref(), Some("greet"));
}

#[test]
fn plain_return_type_allows_default_exported_function_with_return_type() {
    let source = "export default function greet(): string { return 'hello'; }";
    let violations = run_check(source, vec![signature(source, "function", Some("greet"), true)]);
    assert!(violations.is_empty());
}

#[test]
fn plain_return_type_reports_default_exported_anonymous_function() {
    let source = "export default function() { return 'hello'; }";
    let violations = run_check(source, vec![signature(source, "function", None, false)]);
    assert_eq!(violations.len(), 1);
    assert!(violations[0].subject.is_none());
}

#[test]
fn plain_return_type_reports_default_exported_arrow_without_return_type() {
    let source = "export default () => { return 'hello'; };";
    let violations = run_check(source, vec![signature(source, "()", None, false)]);
    assert_eq!(violations.len(), 1);
}

#[test]
fn plain_return_type_allows_default_exported_arrow_with_return_type() {
    let source = "export default (): string => { return 'hello'; };";
    let violations = run_check(source, vec![signature(source, "()", None, true)]);
    assert!(violations.is_empty());
}

#[test]
fn plain_return_type_ignores_non_exported_functions() {
    let violations = run_check("function add(a: number, b: number) { return a + b; }", Vec::new());
    assert!(violations.is_empty());
}

#[test]
fn plain_return_type_ignores_non_function_exports() {
    let violations = run_check("export const value = 42;", Vec::new());
    assert!(violations.is_empty());
}

#[test]
fn plain_return_type_ignores_exported_class() {
    let violations = run_check("export class Foo { bar() { return 1; } }", Vec::new());
    assert!(violations.is_empty());
}

#[test]
fn plain_return_type_reports_multiple_violations() {
    let source = "export function a() { return 1; }\nexport const b = () => 2;";
    let functions = vec![signature(source, "function a", Some("a"), false), signature(source, "() => 2", Some("b"), false)];
    let violations = run_check(source, functions);
    assert_eq!(violations.len(), 2);
}

#[test]
fn plain_return_type_reports_correct_line() {
    let source = "const x = 1;\nexport function foo() { return x; }\n";
    let violations = run_check(source, vec![signature(source, "function foo", Some("foo"), false)]);
    assert_eq!(violations.len(), 1);
    assert_eq!(violations[0].line, Some(2));
}

#[test]
fn plain_return_type_ignores_in_comments() {
    let violations = run_check("// export function foo() { return 1; }", Vec::new());
    assert!(violations.is_empty());
}

#[test]
fn plain_return_type_allows_exported_void_function_with_return_type() {
    let source = "export function log(msg: string): void { console.log(msg); }";
    let violations = run_check(source, vec![signature(source, "function", Some("log"), true)]);
    assert!(violations.is_empty());
}

#[test]
fn plain_return_type_allows_re_export_specifiers() {
    let violations = run_check("export { foo } from './foo';", Vec::new());
    assert!(violations.is_empty());
}

#[test]
fn plain_return_type_finding_has_exact_fields() {
    let source = "let y;\nexport const f = function () {};\n";
    let violations = run_check(source, vec![signature(source, "function", Some("f"), false)]);
    assert_eq!(violations.len(), 1);
    let v = &violations[0];
    assert_eq!(v.rule, "explicit-return-type");
    assert_eq!(v.message, "Exported functions must have an explicit return type.");
    assert_eq!((v.line, v.column, v.span), (Some(2), Some(18), None));
}
