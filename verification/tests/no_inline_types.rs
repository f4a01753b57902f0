use niteo_lint::config::{DomainConfig, RuleConfig, Severity};
use niteo_lint::rules::domain::no_inline_types::check_file;
use niteo_lint::rules::{TypeLocationStyle, Violation};
use niteo_lint::syntax::{LineIndex, Span};

fn test_config() -> RuleConfig {
    RuleConfig { severity: Severity::Warn }
}

fn default_types() -> DomainConfig {
    DomainConfig { folders: vec!["types".to_string()], file_suffixes: vec![".type.ts".to_string(), ".types.ts".to_string()] }
}

fn style(files: &[&str], types: &DomainConfig) -> TypeLocationStyle {
    let files: Vec<String> = files.iter().map(|f| f.to_string()).collect();
    TypeLocationStyle::detect(&files, types)
}

/// The spans of the `type ... =` and `interface` declarations that start a line of `source`
/// (after an optional `export`).
fn declarations(source: &str) -> Vec<Span> {
    let mut spans = Vec::new();
    let mut offset = 0;
    for line in source.split_inclusive('\n') {
        let text = line.trim_end();
        let body = text.strip_prefix("export ").unwrap_or(text);
        let is_alias = body.starts_with("type ") && body.contains('=') && !body.contains(" from ");
        if is_alias || body.starts_with("interface ") {
            let start = offset + (text.len() - body.len());
            spans.push(Span { start: start as u32, end: (offset + text.len()) as u32 });
        }
        offset += line.len();
    }
    spans
}

fn run_check(source: &str, file_path: &str, style: TypeLocationStyle) -> Vec<Violation> {
    let line_index = LineIndex::new(source);
    check_file(file_path, &declarations(source), &line_index, &test_config(), style, &default_types())
}

#[test]
fn reports_type_aliases_outside_type_files() {
    let violations = run_check("type ButtonProps = { label: string };\n", "Button.tsx", style(&["Button.type.ts"], &default_types()));
    assert_eq!(violations.len(), 1);
    assert_eq!(violations[0].line, Some(1));
}

#[test]
fn reports_interfaces_outside_type_files() {
    let source = r#"export interface ButtonProps {
  label: string;
}
"#;
    let violations = run_check(source, "Button.tsx", style(&["Button.type.ts"], &default_types()));
    assert_eq!(violations.len(), 1);
}

#[test]
fn allows_type_declarations_in_type_files() {
    let violations = run_check("export type ButtonProps = { label: string };\n", "Button.type.ts", style(&["Button.type.ts"], &default_types()));
    assert!(violations.is_empty());
}

#[test]
fn allows_type_declarations_in_detected_types_directories() {
    let violations = run_check("export interface ButtonProps {}\n", "types/Button.ts", style(&["types/Button.ts"], &default_types()));
    assert!(violations.is_empty());
}

#[test]
fn reports_outside_detected_types_directories() {
    let violations = run_check("interface ButtonProps {}\n", "Button.ts", style(&["types/Button.ts"], &default_types()));
    assert_eq!(violations.len(), 1);
}

#[test]
fn defaults_to_type_file_style_when_no_structure_exists() {
    let violations = run_check("type ButtonProps = { label: string };\n", "Button.ts", style(&["Button.ts"], &default_types()));
    assert_eq!(violations.len(), 1);
}

#[test]
fn ignores_imports_re_exports_comments_and_strings() {
    let source = r#"import type { ButtonProps } from "./Button.type";
export type { ButtonProps } from "./Button.type";
const text = "type ButtonProps = {}";
// interface ButtonProps {}
/* type ButtonProps = {} */
"#;
    let violations = run_check(source, "Button.ts", style(&["Button.type.ts"], &default_types()));
    assert!(violations.is_empty());
}

#[test]
fn allows_declaration_files() {
    let violations = run_check("interface Window { appVersion: string }\n", "global.d.ts", style(&["Button.type.ts"], &default_types()));
    assert!(violations.is_empty());
}

#[test]
fn custom_type_folder() {
    let types = DomainConfig { folders: vec!["typings".to_string()], file_suffixes: vec![".type.ts".to_string()] };
    let source = "export type Foo = string;\n";
    let line_index = LineIndex::new(source);
    let violations = check_file("typings/Foo.ts", &declarations(source), &line_index, &test_config(), style(&["typings/Foo.ts"], &types), &types);
    assert!(violations.is_empty());
}

#[test]
fn custom_type_suffix() {
    let types = DomainConfig { folders: vec!["types".to_string()], file_suffixes: vec![".types.ts".to_string()] };
    let source = "export type Foo = string;\n";
    let line_index = LineIndex::new(source);
    let violations = check_file("Foo.types.ts", &declarations(source), &line_index, &test_config(), style(&["Foo.types.ts"], &types), &types);
    assert!(violations.is_empty());
}

#[test]
fn inline_type_finding_has_exact_fields() {
    let source = "const a = 1;\nexport type T = number;\n";
    let violations = run_check(source, "src/a.ts", style(&["a.type.ts"], &default_types()));
    assert_eq!(violations.len(), 1);
    let v = &violations[0];
    assert_eq!(v.rule, "no-inline-types");
    assert_eq!(v.message, "Move exported contracts to a colocated type file or accepted types folder.");
    assert_eq!((v.line, v.column, v.span), (Some(2), Some(8), None));
}
