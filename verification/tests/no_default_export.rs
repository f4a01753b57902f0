use niteo_lint::config::{DomainConfig, NoDefaultExportRuleConfig, Severity};
use niteo_lint::program::{ExportDeclaration, ExportKind, ModuleItem, ModuleSyntax};
use niteo_lint::rules::exports::no_default_export::check_file;
use niteo_lint::rules::Violation;
use niteo_lint::syntax::{LineIndex, Span};

fn components() -> DomainConfig {
    DomainConfig { folders: vec!["components".to_string()], file_suffixes: vec![".component.tsx".to_string()] }
}

/// The top-level statements of `source`, one per `;`-terminated statement: `export default`
/// ones as default exports, other `export` ones as named exports, the rest as other
/// statements.
fn module_of(source: &str) -> ModuleSyntax {
    let mut body = Vec::new();
    let mut start = 0usize;
    for piece in source.split_inclusive(|c| c == ';' || c == '}') {
        let lead = piece.len() - piece.trim_start().len();
        let text = piece.trim();
        let at = start + lead;
        start += piece.len();
        if text.is_empty() || text.starts_with("//") || text.starts_with("/*") {
            continue;
        }
        let span = Span { start: at as u32, end: (at + text.len()) as u32 };
        let words: Vec<&str> = text.split_whitespace().collect();
        if words.first() == Some(&"export") && words.get(1) == Some(&"default") {
            body.push(ModuleItem::Export(ExportDeclaration { span, kind: ExportKind::Default }));
        } else if words.first() == Some(&"export") {
            body.push(ModuleItem::Export(ExportDeclaration { span, kind: ExportKind::Named { name: String::new(), source: None } }));
        } else {
            body.push(ModuleItem::Other(span));
        }
    }
    ModuleSyntax { body, comments: Vec::new() }
}

fn run_check(source: &str, file_path: &str, components_only: bool) -> Vec<Violation> {
    let line_index = LineIndex::new(source);
    let config = NoDefaultExportRuleConfig { severity: Severity::Warn, components_only };
    check_file(file_path, &module_of(source), &line_index, &config, &components())
}

#[test]
fn reports_default_function_export() {
    let violations = run_check("export default function Component() {}\n", "Component.tsx", false);
    assert_eq!(violations.len(), 1);
    assert_eq!(violations[0].line, Some(1));
    assert_eq!(violations[0].column, Some(1));
}

#[test]
fn reports_default_value_export() {
    let violations = run_check("const value = 1;\nexport default value;\n", "Component.tsx", false);
    assert_eq!(violations.len(), 1);
    assert_eq!(violations[0].line, Some(2));
    assert_eq!(violations[0].column, Some(1));
}

#[test]
fn reports_multiline_default_export() {
    let violations = run_check("export\n  default value;\n", "Component.tsx", false);
    assert_eq!(violations.len(), 1);
    assert_eq!(violations[0].line, Some(1));
    assert_eq!(violations[0].column, Some(1));
}

#[test]
fn allows_named_exports() {
    let violations = run_check("export function Component() {}\nexport { value } from './value';\n", "Component.tsx", false);
    assert!(violations.is_empty());
}

#[test]
fn ignores_export_default_in_comments_and_strings() {
    let source = r#"// export default value;
const text = "export default value";
/* export default value; */
"#;
    let violations = run_check(source, "Component.tsx", false);
    assert!(violations.is_empty());
}

#[test]
fn does_not_match_identifier_fragments() {
    let source = r#"const exportDefault = true;
const value = "before export default after";
"#;
    let violations = run_check(source, "Component.tsx", false);
    assert!(violations.is_empty());
}

#[test]
fn general_mode_also_checks_non_component_files() {
    let violations = run_check("export default function helper() {}\n", "src/utils/helper.ts", false);
    assert_eq!(violations.len(), 1);
}

#[test]
fn components_only_reports_in_component_file() {
    let violations = run_check("export default function Button() {}\n", "src/components/Button.tsx", true);
    assert_eq!(violations.len(), 1);
    assert_eq!(violations[0].line, Some(1));
    assert_eq!(violations[0].column, Some(1));
}

#[test]
fn components_only_reports_default_value_export_in_component_file() {
    let violations = run_check("const Button = () => {};\nexport default Button;\n", "src/components/Button.tsx", true);
    assert_eq!(violations.len(), 1);
}

#[test]
fn components_only_reports_in_dot_component_file() {
    let violations = run_check("export default function Button() {}\n", "Button.component.tsx", true);
    assert_eq!(violations.len(), 1);
}

#[test]
fn components_only_allows_named_exports_in_component_file() {
    let violations = run_check("export function Button() {}\nexport const Modal = () => {};\n", "src/components/Button.tsx", true);
    assert!(violations.is_empty());
}

#[test]
fn components_only_ignores_non_component_files() {
    let violations = run_check("export default function helper() {}\n", "src/utils/helper.ts", true);
    assert!(violations.is_empty());
}

#[test]
fn components_only_ignores_default_export_in_hook_file() {
    let violations = run_check("export default function useAuth() {}\n", "src/hooks/useAuth.ts", true);
    assert!(violations.is_empty());
}

#[test]
fn components_only_reports_multiline_default_export() {
    let violations = run_check("export\n  default Button;\n", "src/components/Button.tsx", true);
    assert_eq!(violations.len(), 1);
}

#[test]
fn messages_follow_the_mode() {
    let general = run_check("export default 1;\n", "src/components/A.tsx", false);
    assert_eq!(general[0].message, "Use named exports so imports stay explicit and refactorable.");
    assert_eq!(general[0].rule, "no-default-export");
    assert_eq!(general[0].span, Some(Span { start: 0, end: 17 }));
    let components_only = run_check("export default 1;\n", "src/components/A.tsx", true);
    assert_eq!(components_only[0].message, "Components must use named exports so imports stay explicit and refactorable.");
}
