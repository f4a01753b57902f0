use niteo_lint::config::{RuleConfig, Severity};
use niteo_lint::rules::imports::no_side_effect_imports::{check_file, ImportStatement};
use niteo_lint::rules::Violation;
use niteo_lint::syntax::{LineIndex, Span};

/// The import statements of `source`, one per line that starts with `import`: bare where the
/// word after `import` is a quote.
fn imports(source: &str) -> Vec<ImportStatement> {
    let mut out = Vec::new();
    let mut offset = 0;
    for line in source.split_inclusive('\n') {
        let text = line.trim_end();
        if let Some(rest) = text.strip_prefix("import ") {
            let first = rest.trim_start().chars().next();
            let quoted: Vec<&str> = text.split('"').collect();
            out.push(ImportStatement {
                span: Span { start: offset as u32, end: (offset + text.len()) as u32 },
                source: quoted[1].to_string(),
                has_clause: first != Some('"'),
            });
        }
        offset += line.len();
    }
    out
}

fn run_check(source: &str) -> Vec<Violation> {
    let line_index = LineIndex::new(source);
    check_file("Component.tsx", &imports(source), &line_index, &RuleConfig { severity: Severity::Warn })
}

#[test]
fn reports_bare_css_import() {
    let violations = run_check("import \"./styles.css\";\n");
    assert_eq!(violations.len(), 1);
    assert_eq!(violations[0].line, Some(1));
    assert_eq!(violations[0].subject.as_deref(), Some("./styles.css"));
}

#[test]
fn reports_bare_package_import() {
    let violations = run_check("import \"polyfill\";\n");
    assert_eq!(violations.len(), 1);
}

#[test]
fn allows_named_imports() {
    let violations = run_check("import { foo } from \"bar\";\n");
    assert!(violations.is_empty());
}

#[test]
fn allows_default_import() {
    let violations = run_check("import foo from \"bar\";\n");
    assert!(violations.is_empty());
}

#[test]
fn allows_namespace_import() {
    let violations = run_check("import * as foo from \"bar\";\n");
    assert!(violations.is_empty());
}

#[test]
fn allows_empty_named_import_block() {
    let violations = run_check("import {} from \"bar\";\n");
    assert!(violations.is_empty());
}

#[test]
fn reports_multiple_side_effect_imports() {
    let source = "import \"./a.css\";\nimport \"./b.css\";\n";
    let violations = run_check(source);
    assert_eq!(violations.len(), 2);
}

#[test]
fn side_effect_finding_has_exact_fields() {
    let source = "import a from \"a\";\nimport \"./b.css\";\n";
    let violations = run_check(source);
    assert_eq!(violations.len(), 1);
    let v = &violations[0];
    assert_eq!(v.rule, "no-side-effect-imports");
    assert_eq!(v.message, "Avoid side-effect imports; import named bindings or types instead.");
    assert_eq!(v.detail.as_deref(), Some("\"./b.css\" is imported only for side effects"));
    assert_eq!(v.span, Some(Span { start: 19, end: 36 }));
    assert_eq!((v.line, v.column), (Some(2), Some(1)));
}
