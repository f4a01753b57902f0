use niteo_lint::config::{BarrelRuleConfig, Severity};
use niteo_lint::program::{ExportDeclaration, ExportKind, ModuleItem, ModuleSyntax};
use niteo_lint::rules::exports::no_barrel_files::check_file;
use niteo_lint::rules::Violation;
use niteo_lint::syntax::{LineIndex, Span};

/// The statements of `source`, one per line: `export ... from "<m>"` as a re-export of `<m>`,
/// anything else as another statement.
fn module_of(source: &str) -> ModuleSyntax {
    let mut body = Vec::new();
    let mut offset = 0;
    for line in source.split_inclusive('\n') {
        let text = line.trim_end();
        let span = Span { start: offset as u32, end: (offset + text.len()) as u32 };
        if !text.is_empty() {
            let from = text.split(" from ").nth(1).map(|m| m.trim_matches(|c| c == '"' || c == ';').to_string());
            match (text.starts_with("export * "), from) {
                (true, Some(m)) => body.push(ModuleItem::Export(ExportDeclaration { span, kind: ExportKind::All { source: m, exported: None } })),
                (false, Some(m)) if text.starts_with("export") => {
                    body.push(ModuleItem::Export(ExportDeclaration { span, kind: ExportKind::Named { name: String::new(), source: Some(m) } }))
                }
                _ => body.push(ModuleItem::Other(span)),
            }
        }
        offset += line.len();
    }
    ModuleSyntax { body, comments: Vec::new() }
}

fn test_config() -> BarrelRuleConfig {
    BarrelRuleConfig { severity: Severity::Warn, barrel_names: vec!["index.ts".to_string(), "index.tsx".to_string()] }
}

fn run_check(file_name: &str, source: &str) -> Vec<Violation> {
    let line_index = LineIndex::new(source);
    check_file(file_name, &module_of(source), &line_index, &test_config())
}

#[test]
fn reports_barrel_file_with_re_exports() {
    let source = r#"export { Button } from "./Button";
export type { ButtonProps } from "./Button.type";
"#;
    let violations = run_check("index.ts", source);
    assert_eq!(violations.len(), 1);
    assert!(violations[0].line.is_none());
    assert!(violations[0].column.is_none());
}

#[test]
fn reports_barrel_file_with_namespace_re_exports() {
    let source = r#"export * from "./Button";
export * as ButtonParts from "./Button.parts";
"#;
    let violations = run_check("index.ts", source);
    assert_eq!(violations.len(), 1);
}

#[test]
fn no_barrel_files_ignores_non_barrel_files() {
    let source = r#"export { Button } from "./Button";
"#;
    let violations = run_check("Button.ts", source);
    assert!(violations.is_empty());
}

#[test]
fn ignores_index_file_without_re_exports() {
    let source = r#"const value = 1;
"#;
    let violations = run_check("index.ts", source);
    assert!(violations.is_empty());
}

#[test]
fn reports_index_tsx() {
    let source = r#"export { Button } from "./Button";"#;
    let violations = run_check("index.tsx", source);
    assert_eq!(violations.len(), 1);
}

#[test]
fn barrel_finding_has_exact_fields() {
    let violations = run_check("src/ui/index.ts", "const a = 1;\nexport * from \"./a\";\n");
    assert_eq!(violations.len(), 1);
    let v = &violations[0];
    assert_eq!(v.file, "src/ui/index.ts");
    assert_eq!(v.rule, "no-barrel-files");
    assert_eq!(v.message, "Avoid barrel files; import directly from the source module.");
    assert_eq!(v.span, None);
    assert!(run_check("src/ui/index.js", "export * from \"./a\";\n").is_empty());
}
