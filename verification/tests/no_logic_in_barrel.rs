use niteo_lint::config::{RuleConfig, Severity};
use niteo_lint::program::{ExportDeclaration, ExportKind, ImportDeclaration, ModuleItem, ModuleSyntax};
use niteo_lint::rules::exports::no_logic_in_barrel::check_file;
use niteo_lint::rules::Violation;
use niteo_lint::syntax::{LineIndex, Span};

fn span_of(source: &str, text: &str) -> Span {
    let at = source.find(text).unwrap();
    Span { start: at as u32, end: (at + text.len()) as u32 }
}

fn re_export(source: &str, text: &str, from: &str) -> ModuleItem {
    ModuleItem::Export(ExportDeclaration { span: span_of(source, text), kind: ExportKind::Named { name: String::new(), source: Some(from.to_string()) } })
}

fn export_all(source: &str, text: &str, from: &str) -> ModuleItem {
    ModuleItem::Export(ExportDeclaration { span: span_of(source, text), kind: ExportKind::All { source: from.to_string(), exported: None } })
}

fn local_export(source: &str, text: &str) -> ModuleItem {
    ModuleItem::Export(ExportDeclaration { span: span_of(source, text), kind: ExportKind::Named { name: "Button".to_string(), source: None } })
}

fn run_check(file_name: &str, source: &str, body: Vec<ModuleItem>) -> Vec<Violation> {
    let line_index = LineIndex::new(source);
    check_file(file_name, &ModuleSyntax { body, comments: Vec::new() }, &line_index, &RuleConfig { severity: Severity::Warn })
}

#[test]
fn allows_named_re_exports() {
    let source = r#"export { Button } from "./Button";
export type { ButtonProps } from "./Button.type";
"#;
    let body = vec![
        re_export(source, "export { Button } from \"./Button\";", "./Button"),
        re_export(source, "export type { ButtonProps } from \"./Button.type\";", "./Button.type"),
    ];
    assert!(run_check("index.ts", source, body).is_empty());
}

#[test]
fn allows_namespace_re_exports() {
    let source = r#"export * from "./Button";
export * as ButtonParts from "./Button.parts";
"#;
    let body = vec![
        export_all(source, "export * from \"./Button\";", "./Button"),
        ModuleItem::Export(ExportDeclaration {
            span: span_of(source, "export * as ButtonParts from \"./Button.parts\";"),
            kind: ExportKind::All { source: "./Button.parts".to_string(), exported: Some("ButtonParts".to_string()) },
        }),
    ];
    assert!(run_check("index.ts", source, body).is_empty());
}

#[test]
fn allows_multiline_re_exports() {
    let source = r#"export {
  Button,
  type ButtonProps,
} from "./Button";
"#;
    let body = vec![re_export(source, source.trim_end(), "./Button")];
    assert!(run_check("index.ts", source, body).is_empty());
}

#[test]
fn no_logic_in_barrel_ignores_non_barrel_files() {
    let source = r#"const value = 1;"#;
    let body = vec![ModuleItem::Other(span_of(source, source))];
    assert!(run_check("Button.ts", source, body).is_empty());
}

#[test]
fn reports_imports_in_barrels() {
    let source = r#"import { Button } from "./Button";
export { Button };
"#;
    let body = vec![
        ModuleItem::Import(ImportDeclaration { span: span_of(source, "import { Button } from \"./Button\";"), source: "./Button".to_string() }),
        local_export(source, "export { Button };"),
    ];
    let violations = run_check("index.ts", source, body);
    assert_eq!(violations.len(), 1);
    assert_eq!(violations[0].line, Some(1));
    assert_eq!(violations[0].column, Some(1));
}

#[test]
fn reports_local_exports_in_barrels() {
    let source = r#"export { Button };
"#;
    let violations = run_check("index.ts", source, vec![local_export(source, "export { Button };")]);
    assert_eq!(violations.len(), 1);
    assert_eq!(violations[0].line, Some(1));
    assert_eq!(violations[0].column, Some(1));
}

#[test]
fn reports_logic_after_re_exports() {
    let source = r#"export { Button } from "./Button";

const value = 1;
"#;
    let body = vec![re_export(source, "export { Button } from \"./Button\";", "./Button"), ModuleItem::Other(span_of(source, "const value = 1;"))];
    let violations = run_check("index.ts", source, body);
    assert_eq!(violations.len(), 1);
    assert_eq!(violations[0].line, Some(3));
    assert_eq!(violations[0].column, Some(1));
}

#[test]
fn only_the_first_logic_statement_is_reported() {
    let source = "export * from \"./a\";\nexport default 1;\nconst b = 2;\n";
    let body = vec![
        export_all(source, "export * from \"./a\";", "./a"),
        ModuleItem::Export(ExportDeclaration { span: span_of(source, "export default 1;"), kind: ExportKind::Default }),
        ModuleItem::Other(span_of(source, "const b = 2;")),
    ];
    let violations = run_check("src/ui/index.ts", source, body);
    assert_eq!(violations.len(), 1);
    let v = &violations[0];
    assert_eq!(v.rule, "no-logic-in-barrel");
    assert_eq!(v.message, "Keep barrel files limited to re-exports.");
    assert_eq!(v.span, Some(Span { start: 21, end: 38 }));
    assert_eq!(v.line, Some(2));
    assert!(run_check("src/ui/index.tsx", source, Vec::new()).is_empty());
}
