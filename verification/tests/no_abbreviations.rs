use niteo_lint::config::{NoAbbreviationsRuleConfig, Severity};
use niteo_lint::rules::hygiene::no_abbreviations::{check_file, invalid_patterns, AbbreviationEvent};
use niteo_lint::rules::Violation;
use niteo_lint::syntax::{LineIndex, Span};

/// The binding of the first occurrence of `name` in `source`.
fn bind(source: &str, name: &str) -> AbbreviationEvent {
    let at = source.find(name).unwrap();
    AbbreviationEvent::Binding {
        span: Span { start: at as u32, end: (at + name.len()) as u32 },
        name: name.to_string(),
    }
}

fn bindings(source: &str, names: &[&str]) -> Vec<AbbreviationEvent> {
    names.iter().map(|name| bind(source, name)).collect()
}

fn check_with(source: &str, events: Vec<AbbreviationEvent>, config: &NoAbbreviationsRuleConfig) -> Vec<Violation> {
    let line_index = LineIndex::new(source);
    check_file("Component.tsx", &events, &line_index, config)
}

fn run_check(source: &str, events: Vec<AbbreviationEvent>) -> Vec<Violation> {
    check_with(source, events, &test_config())
}

fn test_config() -> NoAbbreviationsRuleConfig {
    NoAbbreviationsRuleConfig {
        severity: Severity::Warn,
        extra_abbreviations: vec![],
        allow_abbreviations: vec![],
        abbreviation_patterns: vec![],
        ignore_properties: false,
        ignore_destructured: false,
    }
}

fn config_with(
    extra: &[&str],
    allow: &[&str],
    patterns: &[&str],
    ignore_properties: bool,
    ignore_destructured: bool,
) -> NoAbbreviationsRuleConfig {
    NoAbbreviationsRuleConfig {
        severity: Severity::Warn,
        extra_abbreviations: extra.iter().map(|s| s.to_string()).collect(),
        allow_abbreviations: allow.iter().map(|s| s.to_string()).collect(),
        abbreviation_patterns: patterns.iter().map(|s| s.to_string()).collect(),
        ignore_properties,
        ignore_destructured,
    }
}

#[test]
fn reports_default_abbreviations() {
    for (source, expected_subject) in [
        ("const btn = document.querySelector('button');\n", "btn"),
        ("const ctx = getContext();\n", "ctx"),
        ("const mgr = new Manager();\n", "mgr"),
    ] {
        let violations = run_check(source, bindings(source, &[expected_subject]));
        assert_eq!(violations.len(), 1, "expected 1 violation for: {source:?}");
        assert_eq!(violations[0].subject.as_deref(), Some(expected_subject), "wrong subject for: {source:?}",);
        assert!(
            violations[0].detail.as_deref().is_some_and(|detail| detail.contains(expected_subject)),
            "detail missing abbreviation for: {source:?}",
        );
    }
}

#[test]
fn reports_camelcase_abbreviation() {
    let source = "const btnLabel = 'Click me';\n";
    let violations = run_check(source, bindings(source, &["btnLabel"]));
    assert_eq!(violations.len(), 1);
    assert_eq!(violations[0].subject.as_deref(), Some("btnLabel"));
}

#[test]
fn reports_abbreviation_in_function_name() {
    let source = "function getCtx() { return {}; }\n";
    let violations = run_check(source, bindings(source, &["getCtx"]));
    assert_eq!(violations.len(), 1);
    assert_eq!(violations[0].subject.as_deref(), Some("getCtx"));
}

#[test]
fn reports_abbreviation_in_parameter() {
    let source = "function render(btnElement: HTMLElement) {}\n";
    let violations = run_check(source, bindings(source, &["render", "btnElement"]));
    assert_eq!(violations.len(), 1);
    assert_eq!(violations[0].subject.as_deref(), Some("btnElement"));
}

#[test]
fn reports_abbreviation_in_arrow_function() {
    let source = "const handler = (ctxArg: unknown) => {};\n";
    let violations = run_check(source, bindings(source, &["handler", "ctxArg"]));
    assert_eq!(violations.len(), 1);
    assert_eq!(violations[0].subject.as_deref(), Some("ctxArg"));
}

#[test]
fn reports_abbreviation_in_class_name() {
    let source = "class BtnFactory {}\n";
    let violations = run_check(source, bindings(source, &["BtnFactory"]));
    assert_eq!(violations.len(), 1);
    assert_eq!(violations[0].subject.as_deref(), Some("BtnFactory"));
}

#[test]
fn allows_normal_identifiers() {
    let source = "const button = document.querySelector('button');\nconst context = getContext();\nconst manager = new Manager();\n";
    let violations = run_check(source, bindings(source, &["button", "context", "manager"]));
    assert!(violations.is_empty());
}

#[test]
fn allows_identifiers_without_abbreviations() {
    let source = "const label = 'Click me';\nconst count = 42;\nfunction render() {}\n";
    let violations = run_check(source, bindings(source, &["label", "count", "render"]));
    assert!(violations.is_empty());
}

#[test]
fn reports_multiple_in_same_line() {
    let source = "const btn = document.querySelector('button'), ctx = getContext();\n";
    let violations = run_check(source, bindings(source, &["btn", "ctx"]));
    assert_eq!(violations.len(), 2);
}

#[test]
fn reports_custom_extra_abbreviation() {
    let config = config_with(&["req", "res"], &[], &[], false, false);
    let source = "const req = {};\nconst res = {};\n";
    let violations = check_with(source, bindings(source, &["req", "res"]), &config);
    assert_eq!(violations.len(), 2);
}

#[test]
fn allows_abbreviations_in_allow_list() {
    let config = config_with(&[], &["btn"], &[], false, false);
    let source = "const btn = document.querySelector('button');\nconst ctx = getContext();\n";
    let violations = check_with(source, bindings(source, &["btn", "ctx"]), &config);
    assert_eq!(violations.len(), 1);
    assert_eq!(violations[0].subject.as_deref(), Some("ctx"));
}

#[test]
fn ignores_abbreviations_in_strings() {
    let source = r#"const text = "use btn or ctx";"#;
    let violations = run_check(source, bindings(source, &["text"]));
    assert!(violations.is_empty());
}

#[test]
fn ignores_abbreviations_in_comments() {
    let source = "// const btn = null;\n/* const ctx = null; */\n";
    let violations = run_check(source, Vec::new());
    assert!(violations.is_empty());
}

#[test]
fn ignores_properties_when_ignore_properties_set() {
    let config = config_with(&[], &[], &[], true, false);
    let source = "const { btn, ctxLabel } = obj;\n";
    let events = vec![
        AbbreviationEvent::EnterObjectPattern,
        bind(source, "btn"),
        bind(source, "ctxLabel"),
        AbbreviationEvent::Exit,
    ];
    let violations = check_with(source, events, &config);
    assert!(violations.is_empty());
}

#[test]
fn still_reports_non_property_destructured_when_only_ignore_properties() {
    let config = config_with(&[], &[], &[], true, false);
    let source = "const [ctx] = arr;\n";
    let events = vec![AbbreviationEvent::EnterArrayPattern, bind(source, "ctx"), AbbreviationEvent::Exit];
    let violations = check_with(source, events, &config);
    assert_eq!(violations.len(), 1);
}

#[test]
fn ignores_all_destructured_when_ignore_destructured_set() {
    let config = config_with(&[], &[], &[], false, true);
    let source = "const { btn } = obj;\nconst [ctx] = arr;\n";
    let events = vec![
        AbbreviationEvent::EnterObjectPattern,
        bind(source, "btn"),
        AbbreviationEvent::Exit,
        AbbreviationEvent::EnterArrayPattern,
        bind(source, "ctx"),
        AbbreviationEvent::Exit,
    ];
    let violations = check_with(source, events, &config);
    assert!(violations.is_empty());
}

#[test]
fn ignores_nested_destructured_when_ignore_destructured() {
    let config = config_with(&[], &[], &[], false, true);
    let source = "const { data: { btn } } = obj;\n";
    let events = vec![
        AbbreviationEvent::EnterObjectPattern,
        AbbreviationEvent::EnterObjectPattern,
        bind(source, "btn"),
        AbbreviationEvent::Exit,
        AbbreviationEvent::Exit,
    ];
    let violations = check_with(source, events, &config);
    assert!(violations.is_empty());
}

#[test]
fn reports_via_regex_pattern() {
    let config = config_with(&[], &[], &["\\b[a-z]{1,2}\\b"], false, false);
    let source = "const xy = 42;\nconst okay = 'fine';\n";
    let violations = check_with(source, bindings(source, &["xy", "okay"]), &config);
    assert_eq!(violations.len(), 1);
    assert_eq!(violations[0].subject.as_deref(), Some("xy"));
}

#[test]
fn regex_pattern_does_not_match_full_words() {
    let config = config_with(&[], &[], &["\\b[a-z]{1,2}\\b"], false, false);
    let source = "const button = 'Click me';\nconst context = getContext();\n";
    let violations = check_with(source, bindings(source, &["button", "context"]), &config);
    assert!(violations.is_empty());
}

#[test]
fn regex_and_substring_both_report() {
    let config = config_with(&[], &[], &["^xy$"], false, false);
    let source = "const xy = 42;\nconst btn = document.querySelector('button');\n";
    let violations = check_with(source, bindings(source, &["xy", "btn"]), &config);
    assert_eq!(violations.len(), 2);
}

#[test]
fn abbreviation_finding_has_exact_fields() {
    let source = "const x = 1;\nconst btnLabel = 'Click me';\n";
    let violations = run_check(source, bindings(source, &["btnLabel"]));
    assert_eq!(violations.len(), 1);
    let v = &violations[0];
    assert_eq!(v.rule, "no-abbreviations");
    assert_eq!(v.message, "Avoid abbreviations in identifiers.");
    assert_eq!(v.detail.as_deref(), Some("'btnLabel' contains the abbreviation 'btn'. Spell it out instead."));
    assert_eq!(v.line, Some(2));
    assert_eq!(v.column, Some(7));
    assert_eq!(v.span, Some(Span { start: 19, end: 27 }));
}

#[test]
fn pattern_finding_names_the_pattern_without_flag() {
    let config = config_with(&[], &[], &["^XY$"], false, false);
    let source = "const xy = 42;\n";
    let violations = check_with(source, bindings(source, &["xy"]), &config);
    assert_eq!(violations.len(), 1);
    assert_eq!(violations[0].detail.as_deref(), Some("'xy' matches the abbreviation pattern '^XY$'. Spell it out instead."));
}

#[test]
fn invalid_pattern_is_passed_over() {
    let config = config_with(&[], &[], &["(", "^xy$"], false, false);
    let source = "const xy = 42;\n";
    let violations = check_with(source, bindings(source, &["xy"]), &config);
    assert_eq!(violations.len(), 1);
    assert_eq!(violations[0].detail.as_deref(), Some("'xy' matches the abbreviation pattern '^xy$'. Spell it out instead."));
}

#[test]
fn first_listed_abbreviation_is_named() {
    let source = "const ctxBtn = 1;\n";
    let violations = run_check(source, bindings(source, &["ctxBtn"]));
    assert_eq!(violations.len(), 1);
    assert_eq!(violations[0].detail.as_deref(), Some("'ctxBtn' contains the abbreviation 'btn'. Spell it out instead."));
}

#[test]
fn names_after_a_closed_pattern_are_checked_again() {
    let config = config_with(&[], &[], &[], false, true);
    let source = "const { a } = obj;\nconst btn = 1;\n";
    let events = vec![
        AbbreviationEvent::EnterObjectPattern,
        bind(source, "a"),
        AbbreviationEvent::Exit,
        AbbreviationEvent::Exit,
        bind(source, "btn"),
    ];
    let violations = check_with(source, events, &config);
    assert_eq!(violations.len(), 1);
    assert_eq!(violations[0].subject.as_deref(), Some("btn"));
}

#[test]
fn invalid_patterns_are_listed_in_order() {
    let config = config_with(&[], &[], &["(", "^xy$", "[z"], false, false);
    assert_eq!(invalid_patterns(&config), vec!["(".to_string(), "[z".to_string()]);
    assert!(invalid_patterns(&test_config()).is_empty());
}
