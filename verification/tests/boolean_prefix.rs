use niteo_lint::config::{BooleanPrefixRuleConfig, Severity};
use niteo_lint::rules::boolean_prefix::{check_file, AnnotatedType, BoundName, Declarator, VariableDeclaration, VariableKind};
use niteo_lint::rules::Violation;
use niteo_lint::syntax::{LineIndex, Span};

/// A declaration of one declarator binding `name` (found in `source`).
fn decl(source: &str, kind: VariableKind, name: &str, annotation: Option<AnnotatedType>, boolean_literal_init: bool) -> VariableDeclaration {
    let at = source.find(name).unwrap();
    VariableDeclaration {
        kind,
        declarators: vec![Declarator {
            binding: Some(BoundName { span: Span { start: at as u32, end: (at + name.len()) as u32 }, name: name.to_string() }),
            annotation,
            boolean_literal_init,
        }],
    }
}

fn literal(source: &str, kind: VariableKind, name: &str) -> VariableDeclaration {
    decl(source, kind, name, None, true)
}

fn run_check(source: &str, declarations: Vec<VariableDeclaration>, config: &BooleanPrefixRuleConfig) -> Vec<Violation> {
    let line_index = LineIndex::new(source);
    check_file("Component.tsx", &declarations, &line_index, config)
}

fn test_config() -> BooleanPrefixRuleConfig {
    BooleanPrefixRuleConfig { severity: Severity::Warn, prefixes: vec![], ignore_constants: false }
}

fn config_with(prefixes: &[&str], ignore_constants: bool) -> BooleanPrefixRuleConfig {
    BooleanPrefixRuleConfig {
        severity: Severity::Warn,
        prefixes: prefixes.iter().map(|p| p.to_string()).collect(),
        ignore_constants,
    }
}

#[test]
fn allows_default_prefixed_boolean_literals() {
    for (source, name) in [
        ("const isOpen = true;\n", "isOpen"),
        ("const hasPermission = false;\n", "hasPermission"),
        ("const canEdit = true;\n", "canEdit"),
    ] {
        let violations = run_check(source, vec![literal(source, VariableKind::Const, name)], &test_config());
        assert!(violations.is_empty(), "expected no violations for: {source:?}");
    }
}

#[test]
fn reports_unprefixed_boolean_literal() {
    let source = "const open = true;\n";
    let violations = run_check(source, vec![literal(source, VariableKind::Const, "open")], &test_config());
    assert_eq!(violations.len(), 1);
    assert_eq!(violations[0].line, Some(1));
    assert_eq!(violations[0].column, Some(7));
}

#[test]
fn reports_unprefixed_boolean_type() {
    let source = "const open: boolean = fetchData();\n";
    let violations = run_check(source, vec![decl(source, VariableKind::Const, "open", Some(AnnotatedType::BooleanKeyword), false)], &test_config());
    assert_eq!(violations.len(), 1);
    assert_eq!(violations[0].subject.as_deref(), Some("open"));
}

#[test]
fn reports_unprefixed_boolean_capital_type() {
    let source = "const open: Boolean = fetchData();\n";
    let annotation = Some(AnnotatedType::Reference("Boolean".to_string()));
    let violations = run_check(source, vec![decl(source, VariableKind::Const, "open", annotation, false)], &test_config());
    assert_eq!(violations.len(), 1);
}

#[test]
fn allows_prefixed_boolean_type() {
    let source = "const isReady: boolean = check();\n";
    let violations = run_check(source, vec![decl(source, VariableKind::Const, "isReady", Some(AnnotatedType::BooleanKeyword), false)], &test_config());
    assert!(violations.is_empty());
}

#[test]
fn allows_let_with_prefix() {
    let source = "let hasChanged = false;\n";
    let violations = run_check(source, vec![literal(source, VariableKind::Let, "hasChanged")], &test_config());
    assert!(violations.is_empty());
}

#[test]
fn reports_let_without_prefix() {
    let source = "let changed = false;\n";
    let violations = run_check(source, vec![literal(source, VariableKind::Let, "changed")], &test_config());
    assert_eq!(violations.len(), 1);
}

#[test]
fn boolean_prefix_ignores_var_declarations() {
    let source = "var open = true;\n";
    let violations = run_check(source, vec![literal(source, VariableKind::Var, "open")], &test_config());
    assert!(violations.is_empty());
}

#[test]
fn ignores_non_boolean_const() {
    let source = "const count = 1;\nconst name = 'Niteo';\n";
    let declarations = vec![decl(source, VariableKind::Const, "count", None, false), decl(source, VariableKind::Const, "name", None, false)];
    let violations = run_check(source, declarations, &test_config());
    assert!(violations.is_empty());
}

#[test]
fn ignores_non_boolean_type() {
    let source = "const count: number = 1;\nconst name: string = 'Niteo';\n";
    let declarations = vec![
        decl(source, VariableKind::Const, "count", Some(AnnotatedType::Other), false),
        decl(source, VariableKind::Const, "name", Some(AnnotatedType::Other), false),
    ];
    let violations = run_check(source, declarations, &test_config());
    assert!(violations.is_empty());
}

#[test]
fn boolean_prefix_ignores_destructured_variables() {
    let source = "const { open } = props;\n";
    let declarations = vec![VariableDeclaration {
        kind: VariableKind::Const,
        declarators: vec![Declarator { binding: None, annotation: None, boolean_literal_init: false }],
    }];
    let violations = run_check(source, declarations, &test_config());
    assert!(violations.is_empty());
}

#[test]
fn boolean_prefix_respects_custom_prefixes() {
    let source = "const shouldRender = true;\n";
    let violations = run_check(source, vec![literal(source, VariableKind::Const, "shouldRender")], &config_with(&["should", "will"], false));
    assert!(violations.is_empty());
}

#[test]
fn boolean_prefix_flags_unprefixed_with_custom_prefixes() {
    let source = "const isOpen = true;\n";
    let violations = run_check(source, vec![literal(source, VariableKind::Const, "isOpen")], &config_with(&["should"], false));
    assert_eq!(violations.len(), 1);
}

#[test]
fn boolean_prefix_requires_camel_case_after_prefix() {
    let source = "const isopen = true;\n";
    let violations = run_check(source, vec![literal(source, VariableKind::Const, "isopen")], &test_config());
    assert_eq!(violations.len(), 1);
}

#[test]
fn ignores_boolean_literals_in_comments() {
    let source = "// const open = true;\n/* const open = false; */\n";
    let violations = run_check(source, Vec::new(), &test_config());
    assert!(violations.is_empty());
}

#[test]
fn ignores_boolean_literals_in_strings() {
    let source = r#"const text = "const open = true";"#;
    let violations = run_check(source, vec![decl(source, VariableKind::Const, "text", None, false)], &test_config());
    assert!(violations.is_empty());
}

#[test]
fn ignores_const_when_ignore_constants_enabled() {
    let source = "const open = true;\n";
    let violations = run_check(source, vec![literal(source, VariableKind::Const, "open")], &config_with(&[], true));
    assert!(violations.is_empty());
}

#[test]
fn still_reports_let_when_ignore_constants_enabled() {
    let source = "let open = true;\n";
    let violations = run_check(source, vec![literal(source, VariableKind::Let, "open")], &config_with(&[], true));
    assert_eq!(violations.len(), 1);
}

#[test]
fn resolves_ignore_constants_default() {
    let source = "const shouldRender = true;\n";
    let violations = run_check(source, vec![literal(source, VariableKind::Const, "shouldRender")], &config_with(&["should"], false));
    assert!(violations.is_empty());
}

#[test]
fn boolean_prefix_finding_has_exact_fields() {
    let source = "let x = 1;\nconst open = true;\n";
    let violations = run_check(source, vec![literal(source, VariableKind::Const, "open")], &test_config());
    assert_eq!(violations.len(), 1);
    let v = &violations[0];
    assert_eq!(v.rule, "boolean-prefix");
    assert_eq!(v.message, "Boolean should start with one of the configured prefixes.");
    assert_eq!(v.detail.as_deref(), Some("'open' does not start with any prefix: is, has, can"));
    assert_eq!(v.subject.as_deref(), Some("open"));
    assert_eq!(v.line, Some(2));
    assert_eq!(v.column, Some(7));
    assert_eq!(v.span, None);
}

#[test]
fn detail_lists_configured_prefixes() {
    let source = "let done = false;\n";
    let violations = run_check(source, vec![literal(source, VariableKind::Let, "done")], &config_with(&["should", "will"], false));
    assert_eq!(violations[0].detail.as_deref(), Some("'done' does not start with any prefix: should, will"));
}

#[test]
fn prefix_alone_is_no_valid_name() {
    let source = "const is = true;\nconst isX = true;\n";
    let declarations = vec![literal(source, VariableKind::Const, "is"), literal(source, VariableKind::Const, "isX")];
    let violations = run_check(source, declarations, &test_config());
    assert_eq!(violations.len(), 1);
    assert_eq!(violations[0].subject.as_deref(), Some("is"));
}
