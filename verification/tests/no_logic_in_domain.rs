use niteo_lint::config::{DomainConfig, RuleConfig, Severity};
use niteo_lint::rules::domain::no_logic_in_domain::{check_file, classify_domain_file, DomainKind, DomainStatement};
use niteo_lint::rules::Violation;
use niteo_lint::syntax::{LineIndex, Span};

fn domain(folders: &[&str], suffixes: &[&str]) -> DomainConfig {
    DomainConfig {
        folders: folders.iter().map(|s| s.to_string()).collect(),
        file_suffixes: suffixes.iter().map(|s| s.to_string()).collect(),
    }
}

fn default_types() -> DomainConfig {
    domain(&["types"], &[".type.ts", ".types.ts"])
}

fn default_constants() -> DomainConfig {
    domain(&["constants"], &[".constant.ts", ".constants.ts"])
}

/// The span of the first line of `source`, without its line break.
fn line_span(source: &str) -> Span {
    Span { start: 0, end: source.find('\n').unwrap_or(source.len()) as u32 }
}

fn function(source: &str) -> DomainStatement {
    DomainStatement::Function(line_span(source))
}

fn variables(source: &str, is_const: bool, function_init: bool) -> DomainStatement {
    DomainStatement::Variables { span: line_span(source), is_const, function_init }
}

fn run_check_with_config(file_name: &str, source: &str, statements: Vec<DomainStatement>, types: &DomainConfig, constants: &DomainConfig) -> Vec<Violation> {
    let line_index = LineIndex::new(source);
    check_file(file_name, &statements, &line_index, &RuleConfig { severity: Severity::Warn }, types, constants)
}

fn run_check(file_name: &str, source: &str, statements: Vec<DomainStatement>) -> Vec<Violation> {
    run_check_with_config(file_name, source, statements, &default_types(), &default_constants())
}

#[test]
fn reports_function_in_types_folder() {
    let source = "function handleClick() {}\n";
    let violations = run_check("types/Button.ts", source, vec![function(source)]);
    assert_eq!(violations.len(), 1);
    assert_eq!(violations[0].line, Some(1));
}

#[test]
fn allows_const_in_constants_folder() {
    let source = "export const ROUTES = { HOME: '/' };\n";
    let violations = run_check("constants/routes.ts", source, vec![variables(source, true, false)]);
    assert!(violations.is_empty());
}

#[test]
fn reports_function_in_constants_folder() {
    let source = "function getRoute() { return '/'; }\n";
    let violations = run_check("constants/routes.ts", source, vec![function(source)]);
    assert_eq!(violations.len(), 1);
}

#[test]
fn reports_const_arrow_function_in_constants_folder() {
    let source = "const getRoute = () => '/';\n";
    let violations = run_check("constants/routes.ts", source, vec![variables(source, true, true)]);
    assert_eq!(violations.len(), 1);
}

#[test]
fn reports_function_in_type_file() {
    let source = "export function handleClick() {}\n";
    let violations = run_check("Button.type.ts", source, vec![function(source)]);
    assert_eq!(violations.len(), 1);
}

#[test]
fn reports_class_in_constant_file() {
    let source = "export class ApiClient {}\n";
    let violations = run_check("api.constants.ts", source, vec![DomainStatement::Class(line_span(source))]);
    assert_eq!(violations.len(), 1);
}

#[test]
fn allows_type_declaration_in_type_file() {
    let source = "export type ButtonProps = { label: string };\n";
    let violations = run_check("Button.type.ts", source, vec![DomainStatement::Other]);
    assert!(violations.is_empty());
}

#[test]
fn reports_const_in_type_file() {
    let source = "const VALUE = 1;\n";
    let violations = run_check("Button.type.ts", source, vec![variables(source, true, false)]);
    assert_eq!(violations.len(), 1);
}

#[test]
fn reports_let_declaration() {
    let source = "let count = 0;\n";
    let violations = run_check("types/state.ts", source, vec![variables(source, false, false)]);
    assert_eq!(violations.len(), 1);
}

#[test]
fn reports_async_function() {
    let source = "async function fetchData() {}\n";
    let violations = run_check("types/api.ts", source, vec![function(source)]);
    assert_eq!(violations.len(), 1);
}

#[test]
fn ignores_logic_in_comments() {
    let source = "// function handleClick() {}\n/* const value = 1; */\n";
    let violations = run_check("types/test.ts", source, Vec::new());
    assert!(violations.is_empty());
}

#[test]
fn ignores_logic_in_strings() {
    let source = r#"const text = "function handleClick() {}";"#;
    let violations = run_check("constants/test.ts", source, vec![variables(source, true, false)]);
    assert!(violations.is_empty());
}

#[test]
fn ignores_keywords_in_regex() {
    let source = r#"export const PATTERN = /\b(function|const|local|export)\b/g;"#;
    let violations = run_check("constants/test.ts", source, vec![variables(source, true, false)]);
    assert!(violations.is_empty());
}

#[test]
fn ignores_keywords_in_object_literals() {
    let source = r#"export const DOCS = {
    function: "Define a function body.",
    local: "Declare a local variable.",
    typeof: "Capture the inferred type.",
};"#;
    let statement = DomainStatement::Variables { span: Span { start: 7, end: source.len() as u32 }, is_const: true, function_init: false };
    let violations = run_check("constants/test.ts", source, vec![statement]);
    assert!(violations.is_empty());
}

#[test]
fn respects_custom_type_folder() {
    let types = domain(&["typings"], &[".type.ts", ".types.ts"]);
    let source = "function getStatus() {}\n";
    let violations = run_check_with_config("typings/status.ts", source, vec![function(source)], &types, &default_constants());
    assert_eq!(violations.len(), 1);
}

#[test]
fn respects_custom_type_suffix() {
    let types = domain(&["types"], &[".model.ts"]);
    let source = "class User {}\n";
    let violations = run_check_with_config("User.model.ts", source, vec![DomainStatement::Class(line_span(source))], &types, &default_constants());
    assert_eq!(violations.len(), 1);
}

#[test]
fn respects_custom_constants_folder() {
    let constants = domain(&["config"], &[".constant.ts", ".constants.ts"]);
    let source = "function getRoute() {}\n";
    let violations = run_check_with_config("config/routes.ts", source, vec![function(source)], &default_types(), &constants);
    assert_eq!(violations.len(), 1);
}

#[test]
fn ignores_non_domain_files() {
    let source = "function handleClick() {}\n";
    let violations = run_check("Button.tsx", source, vec![function(source)]);
    assert!(violations.is_empty());
}

#[test]
fn reports_exported_arrow_function_in_constants() {
    let source = "export const formatName = (name: string) => name.trim();\n";
    let violations = run_check("constants/helpers.ts", source, vec![variables(source, true, true)]);
    assert_eq!(violations.len(), 1);
}

#[test]
fn reports_exported_function_expression_in_constants() {
    let source = "export const formatName = function(name: string) { return name.trim(); };\n";
    let violations = run_check("constants/helpers.ts", source, vec![variables(source, true, true)]);
    assert_eq!(violations.len(), 1);
}

#[test]
fn types_take_precedence_over_constants() {
    assert_eq!(classify_domain_file("types/routes.constants.ts", &default_types(), &default_constants()), Some(DomainKind::Types));
    assert_eq!(classify_domain_file("constants/routes.ts", &default_types(), &default_constants()), Some(DomainKind::Constants));
    assert_eq!(classify_domain_file("src/routes.ts", &default_types(), &default_constants()), None);
}

#[test]
fn no_logic_in_domain_finding_has_exact_fields() {
    let source = "const A = 1;\nlet b = 2;\n";
    let statements = vec![
        DomainStatement::Variables { span: Span { start: 0, end: 12 }, is_const: true, function_init: false },
        DomainStatement::Variables { span: Span { start: 13, end: 23 }, is_const: false, function_init: false },
    ];
    let violations = run_check("constants/a.ts", source, statements);
    assert_eq!(violations.len(), 1);
    let v = &violations[0];
    assert_eq!(v.rule, "no-logic-in-domain");
    assert_eq!(v.message, "Keep domain files free of logic. Move implementation to feature or service files.");
    assert_eq!(v.span, Some(Span { start: 13, end: 23 }));
    assert_eq!(v.line, Some(2));
    assert_eq!(v.column, Some(1));
    assert_eq!(v.subject, None);
}
