use niteo_lint::config::{ExplicitReturnTypeRuleConfig, Severity};
use niteo_lint::rules::hygiene::explicit_return_type::{
    check_file, DeclaratorInit, ExportedDeclarator, ExportedItem, FunctionSignature, ReturnTypeEvent,
};
use niteo_lint::rules::Violation;
use niteo_lint::syntax::{LineIndex, Span};

/// The signature of the construct that starts at the first `needle` of `source`.
fn sig(source: &str, needle: &str, name: Option<&str>, has_return_type: bool) -> FunctionSignature {
    let at = source.find(needle).unwrap();
    FunctionSignature {
        span: Span { start: at as u32, end: source.len() as u32 },
        name: name.map(|n| n.to_string()),
        has_return_type,
    }
}

fn declarator(name: &str, typed: bool, init: Option<DeclaratorInit>) -> ExportedDeclarator {
    ExportedDeclarator { name: Some(name.to_string()), typed, init }
}

/// `export function <name>(...) ...`: the export's check, then the function itself.
fn exported_function(source: &str, name: &str, has_return_type: bool) -> Vec<ReturnTypeEvent> {
    let needle = format!("function {name}");
    vec![
        ReturnTypeEvent::EnterExportNamed(ExportedItem::Function(sig(source, &needle, Some(name), has_return_type))),
        ReturnTypeEvent::EnterFunction(sig(source, &needle, Some(name), has_return_type)),
        ReturnTypeEvent::Exit,
        ReturnTypeEvent::Exit,
    ]
}

/// `export const <name> = (...) => ...`: the export's check, then the arrow itself.
fn exported_arrow(source: &str, name: &str, typed: bool, has_return_type: bool) -> Vec<ReturnTypeEvent> {
    let arrow = sig(source, "(a", None, has_return_type);
    vec![
        ReturnTypeEvent::EnterExportNamed(ExportedItem::Variables(vec![declarator(
            name,
            typed,
            Some(DeclaratorInit::Arrow(sig(source, "(a", None, has_return_type))),
        )])),
        ReturnTypeEvent::Arrow(arrow),
        ReturnTypeEvent::Exit,
    ]
}

/// `class Foo { bar() { ... } }`, exported or not.
fn class_with_method(source: &str, exported: bool, has_return_type: bool) -> Vec<ReturnTypeEvent> {
    let mut events = Vec::new();
    if exported {
        events.push(ReturnTypeEvent::EnterExportNamed(ExportedItem::Class));
    }
    events.push(ReturnTypeEvent::Method(sig(source, "bar", Some("bar"), has_return_type)));
    events.push(ReturnTypeEvent::EnterFunction(sig(source, "()", None, has_return_type)));
    events.push(ReturnTypeEvent::Exit);
    if exported {
        events.push(ReturnTypeEvent::Exit);
    }
    events
}

fn run_check(source: &str, events: Vec<ReturnTypeEvent>) -> Vec<Violation> {
    run_check_with_config(source, events, test_config())
}

fn run_check_with_config(source: &str, events: Vec<ReturnTypeEvent>, config: ExplicitReturnTypeRuleConfig) -> Vec<Violation> {
    let line_index = LineIndex::new(source);
    check_file("utils.ts", &events, &line_index, &config)
}

fn test_config() -> ExplicitReturnTypeRuleConfig {
    ExplicitReturnTypeRuleConfig {
        severity: Severity::Warn,
        include_arrow_functions: true,
        include_class_methods: false,
        include_private: false,
        ignore_when_inferred: false,
    }
}

#[test]
fn explicit_return_type_reports_exported_function_without_return_type() {
    let source = "export function add(a: number, b: number) { return a + b; }";
    let violations = run_check(source, exported_function(source, "add", false));
    assert_eq!(violations.len(), 1);
    assert_eq!(violations[0].subject.as_deref(), Some("add"));
}

#[test]
fn explicit_return_type_allows_exported_function_with_return_type() {
    let source = "export function add(a: number, b: number): number { return a + b; }";
    let violations = run_check(source, exported_function(source, "add", true));
    assert!(violations.is_empty());
}

#[test]
fn explicit_return_type_reports_exported_arrow_without_return_type() {
    let source = "export const add = (a: number, b: number) => a + b;";
    let violations = run_check(source, exported_arrow(source, "add", false, false));
    assert_eq!(violations.len(), 1);
    assert_eq!(violations[0].subject.as_deref(), Some("add"));
}

#[test]
fn explicit_return_type_allows_exported_arrow_with_return_type() {
    let source = "export const add = (a: number, b: number): number => a + b;";
    let violations = run_check(source, exported_arrow(source, "add", false, true));
    assert!(violations.is_empty());
}

fn exported_function_expression(source: &str, has_return_type: bool) -> Vec<ReturnTypeEvent> {
    vec![
        ReturnTypeEvent::EnterExportNamed(ExportedItem::Variables(vec![declarator(
            "add",
            false,
            Some(DeclaratorInit::Function(sig(source, "function(", None, has_return_type))),
        )])),
        ReturnTypeEvent::EnterFunction(sig(source, "function(", None, has_return_type)),
        ReturnTypeEvent::Exit,
        ReturnTypeEvent::Exit,
    ]
}

#[test]
fn explicit_return_type_reports_exported_function_expression_without_return_type() {
    let source = "export const add = function(a: number, b: number) { return a + b; };";
    let violations = run_check(source, exported_function_expression(source, false));
    assert_eq!(violations.len(), 1);
    assert_eq!(violations[0].subject.as_deref(), Some("add"));
}

#[test]
fn explicit_return_type_allows_exported_function_expression_with_return_type() {
    let source = "export const add = function(a: number, b: number): number { return a + b; };";
    let violations = run_check(source, exported_function_expression(source, true));
    assert!(violations.is_empty());
}

fn default_function(source: &str, name: Option<&str>, has_return_type: bool) -> Vec<ReturnTypeEvent> {
    vec![
        ReturnTypeEvent::EnterExportDefault(ExportedItem::Function(sig(source, "function", name, has_return_type))),
        ReturnTypeEvent::EnterFunction(sig(source, "function", name, has_return_type)),
        ReturnTypeEvent::Exit,
        ReturnTypeEvent::Exit,
    ]
}

#[test]
fn explicit_return_type_reports_default_exported_function_without_return_type() {
    let source = "export default function greet() { return 'hello'; }";
    let violations = run_check(source, default_function(source, Some("greet"), false));
    assert_eq!(violations.len(), 1);
    assert_eq!(violations[0].subject.as_deref(), Some("greet"));
}

#[test]
fn explicit_return_type_allows_default_exported_function_with_return_type() {
    let source = "export default function greet(): string { return 'hello'; }";
    let violations = run_check(source, default_function(source, Some("greet"), true));
    assert!(violations.is_empty());
}

#[test]
fn explicit_return_type_reports_default_exported_anonymous_function() {
    let source = "export default function() { return 'hello'; }";
    let violations = run_check(source, default_function(source, None, false));
    assert_eq!(violations.len(), 1);
    assert!(violations[0].subject.is_none());
}

fn default_arrow(source: &str, has_return_type: bool) -> Vec<ReturnTypeEvent> {
    vec![
        ReturnTypeEvent::EnterExportDefault(ExportedItem::Arrow(sig(source, "(", None, has_return_type))),
        ReturnTypeEvent::Arrow(sig(source, "(", None, has_return_type)),
        ReturnTypeEvent::Exit,
    ]
}

#[test]
fn explicit_return_type_reports_default_exported_arrow_without_return_type() {
    let source = "export default () => { return 'hello'; };";
    let violations = run_check(source, default_arrow(source, false));
    assert_eq!(violations.len(), 1);
}

#[test]
fn explicit_return_type_allows_default_exported_arrow_with_return_type() {
    let source = "export default (): string => { return 'hello'; };";
    let violations = run_check(source, default_arrow(source, true));
    assert!(violations.is_empty());
}

#[test]
fn explicit_return_type_ignores_non_exported_functions() {
    let source = "function add(a: number, b: number) { return a + b; }";
    let events = vec![ReturnTypeEvent::EnterFunction(sig(source, "function", Some("add"), false)), ReturnTypeEvent::Exit];
    let violations = run_check(source, events);
    assert!(violations.is_empty());
}

#[test]
fn explicit_return_type_ignores_non_function_exports() {
    let source = "export const value = 42;";
    let events = vec![
        ReturnTypeEvent::EnterExportNamed(ExportedItem::Variables(vec![declarator("value", false, Some(DeclaratorInit::Other))])),
        ReturnTypeEvent::Exit,
    ];
    let violations = run_check(source, events);
    assert!(violations.is_empty());
}

#[test]
fn explicit_return_type_ignores_exported_class() {
    let source = "export class Foo { bar() { return 1; } }";
    let violations = run_check(source, class_with_method(source, true, false));
    assert!(violations.is_empty());
}

#[test]
fn explicit_return_type_reports_multiple_violations() {
    let source = "export function a() { return 1; }\nexport const b = () => 2;";
    let mut events = exported_function(source, "a", false);
    events.push(ReturnTypeEvent::EnterExportNamed(ExportedItem::Variables(vec![declarator(
        "b",
        false,
        Some(DeclaratorInit::Arrow(sig(source, "() =>", None, false))),
    )])));
    events.push(ReturnTypeEvent::Arrow(sig(source, "() =>", None, false)));
    events.push(ReturnTypeEvent::Exit);
    let violations = run_check(source, events);
    assert_eq!(violations.len(), 2);
}

#[test]
fn explicit_return_type_reports_correct_line() {
    let source = "const x = 1;\nexport function foo() { return x; }\n";
    let violations = run_check(source, exported_function(source, "foo", false));
    assert_eq!(violations.len(), 1);
    assert_eq!(violations[0].line, Some(2));
}

#[test]
fn explicit_return_type_ignores_in_comments() {
    let source = "// export function foo() { return 1; }";
    let violations = run_check(source, Vec::new());
    assert!(violations.is_empty());
}

#[test]
fn explicit_return_type_allows_exported_void_function_with_return_type() {
    let source = "export function log(msg: string): void { console.log(msg); }";
    let violations = run_check(source, exported_function(source, "log", true));
    assert!(violations.is_empty());
}

#[test]
fn explicit_return_type_allows_re_export_specifiers() {
    let source = "export { foo } from './foo';";
    let events = vec![ReturnTypeEvent::EnterExportNamed(ExportedItem::Other), ReturnTypeEvent::Exit];
    let violations = run_check(source, events);
    assert!(violations.is_empty());
}

#[test]
fn skips_arrow_when_include_arrow_functions_false() {
    let config = ExplicitReturnTypeRuleConfig { include_arrow_functions: false, ..test_config() };
    let source = "export const add = (a: number, b: number) => a + b;";
    let violations = run_check_with_config(source, exported_arrow(source, "add", false, false), config);
    assert!(violations.is_empty());
}

#[test]
fn skips_default_arrow_when_include_arrow_functions_false() {
    let config = ExplicitReturnTypeRuleConfig { include_arrow_functions: false, ..test_config() };
    let source = "export default () => { return 'hello'; };";
    let violations = run_check_with_config(source, default_arrow(source, false), config);
    assert!(violations.is_empty());
}

#[test]
fn reports_non_exported_function_when_include_private() {
    let config = ExplicitReturnTypeRuleConfig { include_private: true, ..test_config() };
    let source = "function add(a: number, b: number) { return a + b; }";
    let events = vec![ReturnTypeEvent::EnterFunction(sig(source, "function", Some("add"), false)), ReturnTypeEvent::Exit];
    let violations = run_check_with_config(source, events, config);
    assert_eq!(violations.len(), 1);
    assert_eq!(violations[0].subject.as_deref(), Some("add"));
}

#[test]
fn reports_non_exported_arrow_when_include_private() {
    let config = ExplicitReturnTypeRuleConfig { include_private: true, ..test_config() };
    let source = "const add = (a: number, b: number) => a + b;";
    let events = vec![ReturnTypeEvent::Arrow(sig(source, "(a", None, false))];
    let violations = run_check_with_config(source, events, config);
    assert_eq!(violations.len(), 1);
}

#[test]
fn reports_exported_class_methods_when_enabled() {
    let config = ExplicitReturnTypeRuleConfig { include_class_methods: true, ..test_config() };
    let source = "export class Foo { bar() { return 1; } }";
    let violations = run_check_with_config(source, class_with_method(source, true, false), config);
    assert_eq!(violations.len(), 1);
    assert_eq!(violations[0].subject.as_deref(), Some("bar"));
}

#[test]
fn allows_exported_class_methods_with_return_type() {
    let config = ExplicitReturnTypeRuleConfig { include_class_methods: true, ..test_config() };
    let source = "export class Foo { bar(): number { return 1; } }";
    let violations = run_check_with_config(source, class_with_method(source, true, true), config);
    assert!(violations.is_empty());
}

#[test]
fn ignores_non_exported_class_methods_without_include_private() {
    let config = ExplicitReturnTypeRuleConfig { include_class_methods: true, include_private: false, ..test_config() };
    let source = "class Foo { bar() { return 1; } }";
    let violations = run_check_with_config(source, class_with_method(source, false, false), config);
    assert!(violations.is_empty());
}

#[test]
fn reports_non_exported_class_methods_with_include_private() {
    let config = ExplicitReturnTypeRuleConfig { include_class_methods: true, include_private: true, ..test_config() };
    let source = "class Foo { bar() { return 1; } }";
    let violations = run_check_with_config(source, class_with_method(source, false, false), config);
    assert_eq!(violations.len(), 1);
    assert_eq!(violations[0].subject.as_deref(), Some("bar"));
}

#[test]
fn skips_typed_variable_when_ignore_when_inferred() {
    let config = ExplicitReturnTypeRuleConfig { ignore_when_inferred: true, ..test_config() };
    let source = "export const add: Adder = (a: number, b: number) => a + b;";
    let violations = run_check_with_config(source, exported_arrow(source, "add", true, false), config);
    assert!(violations.is_empty());
}

#[test]
fn still_reports_untyped_variable_when_ignore_when_inferred() {
    let config = ExplicitReturnTypeRuleConfig { ignore_when_inferred: true, ..test_config() };
    let source = "export const add = (a: number, b: number) => a + b;";
    let violations = run_check_with_config(source, exported_arrow(source, "add", false, false), config);
    assert_eq!(violations.len(), 1);
}

#[test]
fn ignore_when_inferred_does_not_affect_function_declarations() {
    let config = ExplicitReturnTypeRuleConfig { ignore_when_inferred: true, ..test_config() };
    let source = "export function add(a: number, b: number) { return a + b; }";
    let violations = run_check_with_config(source, exported_function(source, "add", false), config);
    assert_eq!(violations.len(), 1);
}

#[test]
fn explicit_return_type_method_flag_outlives_the_method() {
    let config = ExplicitReturnTypeRuleConfig { include_private: true, ..test_config() };
    let source = "class Foo { bar() { return 1; } }\nfunction later() { return 2; }";
    let mut events = class_with_method(source, false, true);
    events.push(ReturnTypeEvent::EnterFunction(sig(source, "function later", Some("later"), false)));
    events.push(ReturnTypeEvent::Exit);
    let violations = run_check_with_config(source, events, config);
    assert!(violations.is_empty());
}
