use niteo_lint::config::{NoConsoleRuleConfig, Severity};
use niteo_lint::rules::hygiene::no_console::{check_file, Callee, ConsoleEvent};
use niteo_lint::rules::Violation;
use niteo_lint::syntax::{LineIndex, Span};

/// The call `console.<method>(...)` (or `console[...]`) whose member expression is the text
/// `member` in `source`.
fn console_call(source: &str, member: &str) -> ConsoleEvent {
    let at = source.find(member).unwrap();
    ConsoleEvent::Call(Callee::Member {
        span: Span { start: at as u32, end: (at + member.len()) as u32 },
        object: Some("console".to_string()),
    })
}

/// The call of the plain identifier `name` at its `n`-th occurrence in `source`.
fn identifier_call(source: &str, name: &str, n: usize) -> ConsoleEvent {
    let at = source.match_indices(name).nth(n).unwrap().0;
    ConsoleEvent::Call(Callee::Identifier { span: Span { start: at as u32, end: (at + name.len()) as u32 }, name: name.to_string() })
}

fn destructure(init: &str, names: &[&str]) -> ConsoleEvent {
    ConsoleEvent::Declarator { init: Some(init.to_string()), bound: names.iter().map(|n| n.to_string()).collect() }
}

fn check_at(file: &str, source: &str, events: Vec<ConsoleEvent>, config: &NoConsoleRuleConfig) -> Vec<Violation> {
    let line_index = LineIndex::new(source);
    check_file(file, &events, &line_index, config)
}

fn run_check(source: &str, events: Vec<ConsoleEvent>, config: &NoConsoleRuleConfig) -> Vec<Violation> {
    check_at("Component.tsx", source, events, config)
}

fn test_config() -> NoConsoleRuleConfig {
    NoConsoleRuleConfig { severity: Severity::Warn, allow_patterns: vec![] }
}

fn allowing(pattern: &str) -> NoConsoleRuleConfig {
    NoConsoleRuleConfig { severity: Severity::Warn, allow_patterns: vec![pattern.to_string()] }
}

#[test]
fn reports_console_methods() {
    for (source, member) in [
        ("console.log('hello');\n", "console.log"),
        ("console.warn('warning');\n", "console.warn"),
        ("console.error('error');\n", "console.error"),
    ] {
        let violations = run_check(source, vec![console_call(source, member)], &test_config());
        assert_eq!(violations.len(), 1, "expected 1 violation for: {source:?}");
    }
}

#[test]
fn reports_console_bracket_access() {
    let source = "console['log']('hello');\n";
    let violations = run_check(source, vec![console_call(source, "console['log']")], &test_config());
    assert_eq!(violations.len(), 1);
}

#[test]
fn allows_console_in_service_files() {
    let source = "console.log('hello');\n";
    let violations = check_at("api.service.ts", source, vec![console_call(source, "console.log")], &allowing("**/*.service.ts"));
    assert!(violations.is_empty());
}

#[test]
fn ignores_console_in_comments() {
    let source = "// console.log('hello');\n/* console.warn('test'); */\n";
    let violations = run_check(source, Vec::new(), &test_config());
    assert!(violations.is_empty());
}

#[test]
fn ignores_console_in_strings() {
    let source = r#"const text = "console.log('hello')";"#;
    let violations = run_check(source, vec![destructure_none()], &test_config());
    assert!(violations.is_empty());
}

fn destructure_none() -> ConsoleEvent {
    ConsoleEvent::Declarator { init: None, bound: Vec::new() }
}

#[test]
fn ignores_log_property_on_non_console_object() {
    let source = r#"const logger = { log: console.log }; logger.log('hello');"#;
    let at = source.find("logger.log").unwrap();
    let events = vec![
        destructure_none(),
        ConsoleEvent::Call(Callee::Member { span: Span { start: at as u32, end: at as u32 + 10 }, object: Some("logger".to_string()) }),
    ];
    let violations = run_check(source, events, &test_config());
    assert!(violations.is_empty());
}

#[test]
fn reports_console_with_glob_non_match() {
    let source = "console.log('hello');\n";
    let violations = run_check(source, vec![console_call(source, "console.log")], &allowing("**/*.service.ts"));
    assert_eq!(violations.len(), 1);
}

#[test]
fn allows_console_with_directory_glob() {
    let source = "console.log('hello');\n";
    let violations = check_at("scripts/deploy.ts", source, vec![console_call(source, "console.log")], &allowing("scripts/**"));
    assert!(violations.is_empty());
}

#[test]
fn reports_console_outside_glob_directory() {
    let source = "console.log('hello');\n";
    let violations = run_check(source, vec![console_call(source, "console.log")], &allowing("scripts/**"));
    assert_eq!(violations.len(), 1);
}

#[test]
fn reports_destructured_console_log() {
    let source = "const { log } = console;\nlog('hello');\n";
    let events = vec![destructure("console", &["log"]), identifier_call(source, "log", 1)];
    let violations = run_check(source, events, &test_config());
    assert_eq!(violations.len(), 1);
}

#[test]
fn reports_destructured_console_warn() {
    let source = "const { warn } = console;\nwarn('warning');\n";
    let events = vec![destructure("console", &["warn"]), identifier_call(source, "warn", 1)];
    let violations = run_check(source, events, &test_config());
    assert_eq!(violations.len(), 1);
}

#[test]
fn reports_renamed_destructured_console() {
    let source = "const { log: renamedLog } = console;\nrenamedLog('hello');\n";
    let events = vec![destructure("console", &["renamedLog"]), identifier_call(source, "renamedLog", 1)];
    let violations = run_check(source, events, &test_config());
    assert_eq!(violations.len(), 1);
}

#[test]
fn reports_multiple_destructured_console_methods() {
    let source = "const { log, warn, error } = console;\nlog('a');\nwarn('b');\nerror('c');\n";
    let events = vec![
        destructure("console", &["log", "warn", "error"]),
        identifier_call(source, "log", 1),
        identifier_call(source, "warn", 1),
        identifier_call(source, "error", 1),
    ];
    let violations = run_check(source, events, &test_config());
    assert_eq!(violations.len(), 3);
}

#[test]
fn ignores_non_console_destructuring() {
    let source = r#"const { log } = someLogger;\nlog('hello');\n"#;
    let events = vec![destructure("someLogger", &["log"]), identifier_call(source, "log", 1)];
    let violations = run_check(source, events, &test_config());
    assert!(violations.is_empty());
}

#[test]
fn ignores_destructured_console_when_file_allowed() {
    let source = "const { log } = console;\nlog('hello');\n";
    let events = vec![destructure("console", &["log"]), identifier_call(source, "log", 1)];
    let violations = check_at("api.service.ts", source, events, &allowing("**/*.service.ts"));
    assert!(violations.is_empty());
}

#[test]
fn reports_destructured_and_direct_console() {
    let source = "const { log } = console;\nlog('hello');\nconsole.warn('warn');\n";
    let events = vec![destructure("console", &["log"]), identifier_call(source, "log", 1), console_call(source, "console.warn")];
    let violations = run_check(source, events, &test_config());
    assert_eq!(violations.len(), 2);
}

#[test]
fn no_console_finding_has_exact_fields() {
    let source = "const { log } = console;\nlog('hello');\n";
    let events = vec![destructure("console", &["log"]), identifier_call(source, "log", 1)];
    let violations = run_check(source, events, &test_config());
    assert_eq!(violations.len(), 1);
    let v = &violations[0];
    assert_eq!(v.rule, "no-console");
    assert_eq!(v.message, "Disallow console statements outside allowed file patterns.");
    assert_eq!(v.span, Some(Span { start: 25, end: 28 }));
    assert_eq!(v.line, Some(2));
    assert_eq!(v.column, Some(1));
}

#[test]
fn calls_before_the_destructuring_are_not_reported() {
    let source = "log('early');\nconst { log } = console;\n";
    let events = vec![identifier_call(source, "log", 0), destructure("console", &["log"])];
    let violations = run_check(source, events, &test_config());
    assert!(violations.is_empty());
}

#[test]
fn invalid_allow_pattern_reports_nothing() {
    let source = "console.log('hello');\n";
    let violations = run_check(source, vec![console_call(source, "console.log")], &allowing("a[b"));
    assert!(violations.is_empty());
}
