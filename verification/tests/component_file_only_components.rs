use niteo_lint::config::{DomainConfig, RuleConfig, Severity};
use niteo_lint::rules::domain::component_file_only_components::{
    check_file, is_checked_file, ComponentExport, DeclaredName, DefaultExport, ExportedDeclaration,
};
use niteo_lint::rules::Violation;
use niteo_lint::syntax::{LineIndex, Span};

fn components() -> DomainConfig {
    DomainConfig { folders: vec!["components".to_string()], file_suffixes: vec![".component.tsx".to_string()] }
}

/// The name `name` at its first occurrence after `from` in `source`.
fn name_at(source: &str, name: &str, from: usize) -> DeclaredName {
    let at = from + source[from..].find(name).unwrap();
    DeclaredName { span: Span { start: at as u32, end: (at + name.len()) as u32 } , name: name.to_string() }
}

/// The whole first line of `source`, without its line break.
fn first_statement(source: &str) -> Span {
    Span { start: 0, end: source.find('\n').unwrap_or(source.len()) as u32 }
}

fn named(declaration: ExportedDeclaration) -> ComponentExport {
    ComponentExport::Named { declaration: Some(declaration), specifiers: Vec::new() }
}

fn run_check(source: &str, file_path: &str, exports: Vec<ComponentExport>) -> Vec<Violation> {
    let line_index = LineIndex::new(source);
    check_file(file_path, &exports, &line_index, &RuleConfig { severity: Severity::Warn }, &components())
}

fn function(source: &str, name: &str) -> ComponentExport {
    named(ExportedDeclaration::Function(Some(name_at(source, name, 0))))
}

fn variable(source: &str, name: &str) -> ComponentExport {
    named(ExportedDeclaration::Variables(vec![Some(name_at(source, name, 0))]))
}

#[test]
fn allows_pascal_case_function_in_components_folder() {
    let source = "export function Button() { return null; }\n";
    let violations = run_check(source, "src/components/Button.tsx", vec![function(source, "Button")]);
    assert!(violations.is_empty());
}

#[test]
fn allows_pascal_case_arrow_in_components_folder() {
    let source = "export const Modal = () => { return null; };\n";
    let violations = run_check(source, "src/components/Modal.tsx", vec![variable(source, "Modal")]);
    assert!(violations.is_empty());
}

#[test]
fn allows_pascal_case_class_in_components_folder() {
    let source = "export class Card extends Component {}\n";
    let exports = vec![named(ExportedDeclaration::Class(Some(name_at(source, "Card", 0))))];
    let violations = run_check(source, "src/components/Card.tsx", exports);
    assert!(violations.is_empty());
}

#[test]
fn reports_camel_case_function_in_components_folder() {
    let source = "export function formatDate() { return ''; }\n";
    let violations = run_check(source, "src/components/formatDate.tsx", vec![function(source, "formatDate")]);
    assert_eq!(violations.len(), 1);
    assert_eq!(violations[0].subject.as_deref(), Some("formatDate"));
}

#[test]
fn reports_camel_case_arrow_in_components_folder() {
    let source = "export const getData = () => { return {}; };\n";
    let violations = run_check(source, "src/components/getData.tsx", vec![variable(source, "getData")]);
    assert_eq!(violations.len(), 1);
    assert_eq!(violations[0].subject.as_deref(), Some("getData"));
}

#[test]
fn reports_type_alias_in_components_folder() {
    let source = "export type User = { id: string; };\n";
    let exports = vec![named(ExportedDeclaration::TypeAlias { span: Span { start: 7, end: 35 }, name: "User".to_string() })];
    let violations = run_check(source, "src/components/User.tsx", exports);
    assert_eq!(violations.len(), 1);
    assert_eq!(violations[0].subject.as_deref(), Some("User"));
}

#[test]
fn reports_interface_in_components_folder() {
    let source = "export interface Props { name: string; }\n";
    let exports = vec![named(ExportedDeclaration::Interface { span: Span { start: 7, end: 40 }, name: "Props".to_string() })];
    let violations = run_check(source, "src/components/Props.tsx", exports);
    assert_eq!(violations.len(), 1);
    assert_eq!(violations[0].subject.as_deref(), Some("Props"));
}

#[test]
fn reports_enum_in_components_folder() {
    let source = "export enum Size { Small, Large }\n";
    let exports = vec![named(ExportedDeclaration::Enum { span: Span { start: 7, end: 33 }, name: "Size".to_string() })];
    let violations = run_check(source, "src/components/Size.tsx", exports);
    assert_eq!(violations.len(), 1);
}

#[test]
fn reports_namespace_in_components_folder() {
    let source = "export namespace Utils { export function go() {} }\n";
    let exports = vec![named(ExportedDeclaration::Namespace { span: Span { start: 7, end: 50 }, name: "Utils".to_string() })];
    let violations = run_check(source, "src/components/Utils.tsx", exports);
    assert_eq!(violations.len(), 1);
}

#[test]
fn reports_default_export_interface_in_components_folder() {
    let source = "export default interface Config { url: string; }\n";
    let exports = vec![ComponentExport::Default { span: first_statement(source), declaration: DefaultExport::Interface }];
    let violations = run_check(source, "src/components/Config.tsx", exports);
    assert_eq!(violations.len(), 1);
}

#[test]
fn allows_default_export_pascal_case_function() {
    let source = "export default function App() { return null; }\n";
    let exports = vec![ComponentExport::Default { span: first_statement(source), declaration: DefaultExport::Function(Some("App".to_string())) }];
    let violations = run_check(source, "src/components/App.tsx", exports);
    assert!(violations.is_empty());
}

#[test]
fn allows_default_export_expression() {
    let source = "export default memo(() => { return null; });\n";
    let exports = vec![ComponentExport::Default { span: first_statement(source), declaration: DefaultExport::Other }];
    let violations = run_check(source, "src/components/App.tsx", exports);
    assert!(violations.is_empty());
}

#[test]
fn reports_export_specifier_with_camel_case_name() {
    let source = "const helper = () => {};\nexport { helper };\n";
    let exports = vec![ComponentExport::Named { declaration: None, specifiers: vec![name_at(source, "helper", 25)] }];
    let violations = run_check(source, "src/components/Button.tsx", exports);
    assert_eq!(violations.len(), 1);
}

#[test]
fn allows_export_specifier_with_pascal_case_name() {
    let source = "const Icon = () => null;\nexport { Icon };\n";
    let exports = vec![ComponentExport::Named { declaration: None, specifiers: vec![name_at(source, "Icon", 25)] }];
    let violations = run_check(source, "src/components/Button.tsx", exports);
    assert!(violations.is_empty());
}

#[test]
fn ignores_non_component_files() {
    let source = "export function formatDate() { return ''; }\n";
    let violations = run_check(source, "src/utils/format.ts", vec![function(source, "formatDate")]);
    assert!(violations.is_empty());
}

#[test]
fn allows_in_dot_component_file() {
    let source = "export function Button() { return null; }\n";
    let violations = run_check(source, "Button.component.tsx", vec![function(source, "Button")]);
    assert!(violations.is_empty());
}

#[test]
fn reports_in_dot_component_file() {
    let source = "export function helper() { return null; }\n";
    let violations = run_check(source, "Button.component.tsx", vec![function(source, "helper")]);
    assert_eq!(violations.len(), 1);
}

#[test]
fn ignores_destructured_exports() {
    let source = "export const { format } = someModule;\n";
    let violations = run_check(source, "src/components/Button.tsx", vec![named(ExportedDeclaration::Variables(vec![None]))]);
    assert!(violations.is_empty());
}

#[test]
fn allows_screaming_snake_case_constants() {
    let source = "export const API_URL = 'https://example.com';\n";
    let violations = run_check(source, "src/components/Button.tsx", vec![variable(source, "API_URL")]);
    assert!(violations.is_empty());
}

#[test]
fn reports_camel_case_non_function_variable() {
    let source = "export const pageSize = 10;\n";
    let violations = run_check(source, "src/components/Button.tsx", vec![variable(source, "pageSize")]);
    assert_eq!(violations.len(), 1);
}

#[test]
fn ignores_type_file_in_components_folder() {
    let source = "export type Account = { id: string; };\n";
    let exports = vec![named(ExportedDeclaration::TypeAlias { span: Span { start: 7, end: 38 }, name: "Account".to_string() })];
    let violations = run_check(source, "src/components/account.type.ts", exports);
    assert!(violations.is_empty());
}

#[test]
fn ignores_types_file_in_components_folder() {
    let source = "export type Account = { id: string; };\nexport type User = { name: string; };\n";
    let exports = vec![
        named(ExportedDeclaration::TypeAlias { span: Span { start: 7, end: 38 }, name: "Account".to_string() }),
        named(ExportedDeclaration::TypeAlias { span: Span { start: 46, end: 77 }, name: "User".to_string() }),
    ];
    let violations = run_check(source, "src/components/account.types.ts", exports);
    assert!(violations.is_empty());
}

#[test]
fn ignores_constant_file_in_components_folder() {
    let source = "export const SIZES = { small: 10, large: 20 };\n";
    let violations = run_check(source, "src/components/sizes.constant.ts", vec![variable(source, "SIZES")]);
    assert!(violations.is_empty());
}

#[test]
fn ignores_constants_file_in_components_folder() {
    let source = "export const SIZES = { small: 10, large: 20 };\n";
    let violations = run_check(source, "src/components/sizes.constants.ts", vec![variable(source, "SIZES")]);
    assert!(violations.is_empty());
}

#[test]
fn ignores_hook_file_in_components_folder() {
    let source = "export function useButton() { return { ref: null }; }\n";
    let violations = run_check(source, "src/components/useButton.hook.ts", vec![function(source, "useButton")]);
    assert!(violations.is_empty());
}

#[test]
fn ignores_ts_files_in_components_folder() {
    let source = "export const helper = () => {};\nexport type Props = { id: string };\n";
    let exports = vec![
        variable(source, "helper"),
        named(ExportedDeclaration::TypeAlias { span: Span { start: 39, end: 67 }, name: "Props".to_string() }),
    ];
    let violations = run_check(source, "src/components/utils.ts", exports);
    assert!(violations.is_empty());
}

#[test]
fn component_file_only_components_finding_has_exact_fields() {
    let source = "export const Ok = 1, badName = 2;\n";
    let exports = vec![named(ExportedDeclaration::Variables(vec![Some(name_at(source, "Ok", 0)), None, Some(name_at(source, "badName", 0))]))];
    let violations = run_check(source, "src/components/Button.tsx", exports);
    assert_eq!(violations.len(), 1);
    let v = &violations[0];
    assert_eq!(v.rule, "component-file-only-components");
    assert_eq!(v.message, "Component files must only export components. Move utilities, types, and hooks to separate files.");
    assert_eq!(v.subject.as_deref(), Some("badName"));
    assert_eq!(v.line, Some(1));
    assert_eq!(v.column, Some(22));
    assert_eq!(v.span, None);
    assert_eq!(v.detail, None);
}

#[test]
fn default_export_is_reported_as_default() {
    let source = "const x = 1;\nexport default class helper {}\n";
    let exports = vec![ComponentExport::Default { span: Span { start: 13, end: 43 }, declaration: DefaultExport::Class(Some("helper".to_string())) }];
    let violations = run_check(source, "src/components/Button.tsx", exports);
    assert_eq!(violations.len(), 1);
    assert_eq!(violations[0].subject.as_deref(), Some("default"));
    assert_eq!(violations[0].line, Some(2));
    assert_eq!(violations[0].column, Some(1));
}

#[test]
fn unnamed_default_function_is_no_component() {
    let source = "export default function () {}\n";
    let exports = vec![ComponentExport::Default { span: first_statement(source), declaration: DefaultExport::Function(None) }];
    let violations = run_check(source, "src/components/Button.tsx", exports);
    assert_eq!(violations.len(), 1);
}

#[test]
fn checked_files_are_tsx_files_of_the_domain() {
    assert!(is_checked_file("src/components/Button.tsx", &components()));
    assert!(is_checked_file("Button.component.tsx", &components()));
    assert!(!is_checked_file("src/components/Button.ts", &components()));
    assert!(!is_checked_file("src/pages/Button.tsx", &components()));
    assert!(!is_checked_file("src/components/.tsx", &components()));
}
