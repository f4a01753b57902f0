use niteo_lint::config::{RuleConfig, Severity};
use niteo_lint::rules::hygiene::prefer_readonly::{check_file, fix_file, ExportedFunction, ParamType, Parameter, TypeAnnotation};
use niteo_lint::rules::{Fix, TextEdit, Violation};
use niteo_lint::syntax::{LineIndex, Span};

fn array() -> ParamType {
    ParamType::Array
}

fn readonly(inner: ParamType) -> ParamType {
    ParamType::Operator { readonly: true, inner: Box::new(inner) }
}

fn reference(name: &str) -> ParamType {
    ParamType::Reference(name.to_string())
}

/// The parameter written `text` in `source`, binding `name`, with its type starting at the
/// first occurrence of `type_text` within it.
fn param(source: &str, text: &str, name: Option<&str>, type_text: &str, shape: ParamType) -> Parameter {
    let at = source.find(text).unwrap();
    let type_at = at + text.find(type_text).unwrap();
    Parameter {
        span: Span { start: at as u32, end: (at + text.len()) as u32 },
        name: name.map(|n| n.to_string()),
        annotation: Some(TypeAnnotation { start: type_at, shape }),
    }
}

fn function(name: Option<&str>, params: Vec<Parameter>) -> ExportedFunction {
    ExportedFunction { name: name.map(|n| n.to_string()), params }
}

fn config() -> RuleConfig {
    RuleConfig { severity: Severity::Warn }
}

fn run_check(source: &str, functions: Vec<ExportedFunction>) -> Vec<Violation> {
    let line_index = LineIndex::new(source);
    check_file("utils.ts", &functions, &line_index, &config())
}

fn run_fix(functions: Vec<ExportedFunction>) -> Vec<Fix> {
    fix_file("utils.ts", &functions, &config())
}

fn apply_fix_edits(source: &str, fixes: &[Fix]) -> String {
    let mut edits: Vec<&TextEdit> = fixes.iter().flat_map(|f| f.edits.iter()).collect();
    edits.sort_by(|a, b| b.start.cmp(&a.start));
    let mut out = source.to_string();
    for edit in edits {
        out.replace_range(edit.start..edit.end, &edit.replacement);
    }
    out
}

fn process_items(source: &str, type_text: &str, shape: ParamType) -> Vec<ExportedFunction> {
    vec![function(Some("process"), vec![param(source, &format!("items: {type_text}"), Some("items"), type_text, shape)])]
}

#[test]
fn reports_array_param_in_exported_function() {
    let source = "export function process(items: string[]) {}";
    let violations = run_check(source, process_items(source, "string[]", array()));
    assert_eq!(violations.len(), 1);
    assert_eq!(violations[0].subject.as_deref(), Some("process.items"));
}

#[test]
fn allows_readonly_array_param() {
    let source = "export function process(items: readonly string[]) {}";
    let violations = run_check(source, process_items(source, "readonly string[]", readonly(array())));
    assert!(violations.is_empty());
}

#[test]
fn reports_array_type_reference_param() {
    let source = "export function process(items: Array<string>) {}";
    let violations = run_check(source, process_items(source, "Array<string>", reference("Array")));
    assert_eq!(violations.len(), 1);
}

#[test]
fn allows_readonly_array_type_reference() {
    let source = "export function process(items: ReadonlyArray<string>) {}";
    let violations = run_check(source, process_items(source, "ReadonlyArray<string>", reference("ReadonlyArray")));
    assert!(violations.is_empty());
}

#[test]
fn reports_array_param_in_exported_arrow() {
    let source = "export const process = (items: number[]) => {};";
    let violations = run_check(source, process_items(source, "number[]", array()));
    assert_eq!(violations.len(), 1);
    assert_eq!(violations[0].subject.as_deref(), Some("process.items"));
}

#[test]
fn reports_array_param_in_exported_function_expression() {
    let source = "export const process = function(items: string[]) {};";
    let violations = run_check(source, process_items(source, "string[]", array()));
    assert_eq!(violations.len(), 1);
}

#[test]
fn reports_array_param_in_default_exported_function() {
    let source = "export default function process(items: string[]) {}";
    let violations = run_check(source, process_items(source, "string[]", array()));
    assert_eq!(violations.len(), 1);
}

#[test]
fn reports_array_param_in_default_exported_arrow() {
    let source = "export default (items: string[]) => {};";
    let functions = vec![function(None, vec![param(source, "items: string[]", Some("items"), "string[]", array())])];
    let violations = run_check(source, functions);
    assert_eq!(violations.len(), 1);
}

#[test]
fn ignores_non_exported_function() {
    let source = "function process(items: string[]) {}";
    let violations = run_check(source, Vec::new());
    assert!(violations.is_empty());
}

#[test]
fn ignores_non_array_params() {
    let source = "export function process(name: string, count: number) {}";
    let functions = vec![function(
        Some("process"),
        vec![
            param(source, "name: string", Some("name"), "string", ParamType::Other),
            param(source, "count: number", Some("count"), "number", ParamType::Other),
        ],
    )];
    let violations = run_check(source, functions);
    assert!(violations.is_empty());
}

#[test]
fn reports_multiple_array_params() {
    let source = "export function merge(a: string[], b: number[]) {}";
    let functions = vec![function(
        Some("merge"),
        vec![param(source, "a: string[]", Some("a"), "string[]", array()), param(source, "b: number[]", Some("b"), "number[]", array())],
    )];
    let violations = run_check(source, functions);
    assert_eq!(violations.len(), 2);
}

#[test]
fn allows_readonly_mixed_with_non_array() {
    let source = "export function process(name: string, items: readonly string[]) {}";
    let functions = vec![function(
        Some("process"),
        vec![
            param(source, "name: string", Some("name"), "string", ParamType::Other),
            param(source, "items: readonly string[]", Some("items"), "readonly string[]", readonly(array())),
        ],
    )];
    let violations = run_check(source, functions);
    assert!(violations.is_empty());
}

#[test]
fn reports_rest_param_with_array_type() {
    let source = "export function process(...items: string[][]) {}";
    let functions = vec![function(Some("process"), vec![param(source, "...items: string[][]", Some("items"), "string[][]", array())])];
    let violations = run_check(source, functions);
    assert_eq!(violations.len(), 1);
}

#[test]
fn allows_readonly_rest_param() {
    let source = "export function process(...items: readonly string[][]) {}";
    let functions = vec![function(
        Some("process"),
        vec![param(source, "...items: readonly string[][]", Some("items"), "readonly string[][]", readonly(array()))],
    )];
    let violations = run_check(source, functions);
    assert!(violations.is_empty());
}

#[test]
fn prefer_readonly_reports_correct_line() {
    let source = "const x = 1;\nexport function foo(items: string[]) {}\n";
    let functions = vec![function(Some("foo"), vec![param(source, "items: string[]", Some("items"), "string[]", array())])];
    let violations = run_check(source, functions);
    assert_eq!(violations.len(), 1);
    assert_eq!(violations[0].line, Some(2));
}

#[test]
fn allows_tuple_param() {
    let source = "export function process(items: [string, number]) {}";
    let violations = run_check(source, process_items(source, "[string, number]", ParamType::Other));
    assert!(violations.is_empty());
}

#[test]
fn fix_adds_readonly_to_array_param() {
    let source = "export function process(items: string[]) {}";
    let fixes = run_fix(process_items(source, "string[]", array()));
    let fixed = apply_fix_edits(source, &fixes);
    assert_eq!(fixed, "export function process(items: readonly string[]) {}");
}

#[test]
fn fix_adds_readonly_to_array_type_ref_param() {
    let source = "export function process(items: Array<string>) {}";
    let fixes = run_fix(process_items(source, "Array<string>", reference("Array")));
    let fixed = apply_fix_edits(source, &fixes);
    assert_eq!(fixed, "export function process(items: readonly Array<string>) {}");
}

#[test]
fn fix_adds_readonly_in_arrow_function() {
    let source = "export const process = (items: number[]) => {};";
    let fixes = run_fix(process_items(source, "number[]", array()));
    let fixed = apply_fix_edits(source, &fixes);
    assert_eq!(fixed, "export const process = (items: readonly number[]) => {};");
}

#[test]
fn fix_adds_readonly_in_default_export() {
    let source = "export default function process(items: string[]) {}";
    let fixes = run_fix(process_items(source, "string[]", array()));
    let fixed = apply_fix_edits(source, &fixes);
    assert_eq!(fixed, "export default function process(items: readonly string[]) {}");
}

#[test]
fn fix_adds_readonly_to_multiple_params() {
    let source = "export function merge(a: string[], b: number[]) {}";
    let functions = vec![function(
        Some("merge"),
        vec![param(source, "a: string[]", Some("a"), "string[]", array()), param(source, "b: number[]", Some("b"), "number[]", array())],
    )];
    let fixes = run_fix(functions);
    let fixed = apply_fix_edits(source, &fixes);
    assert_eq!(fixed, "export function merge(a: readonly string[], b: readonly number[]) {}");
}

#[test]
fn fix_does_not_modify_readonly_array() {
    let source = "export function process(items: readonly string[]) {}";
    let fixes = run_fix(process_items(source, "readonly string[]", readonly(array())));
    assert!(fixes.is_empty());
}

#[test]
fn fix_does_not_modify_readonly_array_type_ref() {
    let source = "export function process(items: ReadonlyArray<string>) {}";
    let fixes = run_fix(process_items(source, "ReadonlyArray<string>", reference("ReadonlyArray")));
    assert!(fixes.is_empty());
}

#[test]
fn fix_skips_non_exported_function() {
    let fixes = run_fix(Vec::new());
    assert!(fixes.is_empty());
}

#[test]
fn fix_disabled_returns_empty() {
    let source = "export function process(items: string[]) {}";
    let config = RuleConfig { severity: Severity::Off };
    let fixes = fix_file("utils.ts", &process_items(source, "string[]", array()), &config);
    assert!(fixes.is_empty());
}

#[test]
fn nested_operators_and_parentheses_are_read_through() {
    let source = "export function f(a: keyof (string[]), b: readonly (Array<string>)) {}";
    let keyof = ParamType::Operator { readonly: false, inner: Box::new(ParamType::Parenthesized(Box::new(array()))) };
    let ro = readonly(ParamType::Parenthesized(Box::new(reference("Array"))));
    let functions = vec![function(
        Some("f"),
        vec![param(source, "a: keyof (string[])", Some("a"), "keyof", keyof), param(source, "b: readonly", Some("b"), "readonly", ro)],
    )];
    let violations = run_check(source, functions);
    assert_eq!(violations.len(), 1);
    assert_eq!(violations[0].subject.as_deref(), Some("f.a"));
}

#[test]
fn finding_and_fix_have_exact_fields() {
    let source = "export default ({ a }: string[]) => {};";
    let p = Parameter {
        span: Span { start: 16, end: 31 },
        name: None,
        annotation: Some(TypeAnnotation { start: 23, shape: array() }),
    };
    let violations = run_check(source, vec![function(None, vec![p])]);
    assert_eq!(violations.len(), 1);
    let v = &violations[0];
    assert_eq!(v.rule, "prefer-readonly");
    assert_eq!(v.message, "Array parameter in exported function should use `readonly` to prevent accidental mutation.");
    assert_eq!(v.subject, None);
    assert_eq!(v.span, Some(Span { start: 16, end: 31 }));
    assert_eq!(v.column, Some(17));
    let p = Parameter {
        span: Span { start: 16, end: 31 },
        name: None,
        annotation: Some(TypeAnnotation { start: 23, shape: array() }),
    };
    let fixes = run_fix(vec![function(Some("g"), vec![p])]);
    assert_eq!(fixes.len(), 1);
    assert_eq!(fixes[0].rule, "prefer-readonly");
    assert_eq!(fixes[0].file, "utils.ts");
    assert_eq!(fixes[0].edits.len(), 1);
    assert_eq!(fixes[0].edits[0].start, 23);
    assert_eq!(fixes[0].edits[0].end, 23);
    assert_eq!(fixes[0].edits[0].replacement, "readonly ");
}
