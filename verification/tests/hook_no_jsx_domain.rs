use niteo_lint::config::{DomainConfig, RuleConfig, Severity};
use niteo_lint::rules::domain::hook_no_jsx::check_file;
use niteo_lint::rules::Violation;
use niteo_lint::syntax::{LineIndex, Span};

fn hooks() -> DomainConfig {
    DomainConfig { folders: vec!["hooks".to_string()], file_suffixes: vec![".hook.ts".to_string(), ".hooks.ts".to_string()] }
}

/// The JSX element written `text` in `source`.
fn element(source: &str, text: &str) -> Span {
    let at = source.find(text).unwrap();
    Span { start: at as u32, end: (at + text.len()) as u32 }
}

fn run_check(source: &str, file_path: &str, jsx: Vec<Span>) -> Vec<Violation> {
    let line_index = LineIndex::new(source);
    check_file(file_path, &jsx, &line_index, &RuleConfig { severity: Severity::Warn }, &hooks())
}

#[test]
fn domain_hook_no_jsx_reports_jsx_in_hook_file() {
    let source = "export function useAuth() {\n  return <div>Loading</div>;\n}\n";
    let violations = run_check(source, "src/hooks/useAuth.ts", vec![element(source, "<div>Loading</div>")]);
    assert_eq!(violations.len(), 1);
    assert_eq!(violations[0].line, Some(2));
}

#[test]
fn domain_hook_no_jsx_reports_jsx_in_dot_hook_file() {
    let source = "export function useAuth() {\n  return <p>Hello</p>;\n}\n";
    let violations = run_check(source, "useAuth.hook.ts", vec![element(source, "<p>Hello</p>")]);
    assert_eq!(violations.len(), 1);
}

#[test]
fn domain_hook_no_jsx_reports_jsx_in_dot_hooks_file() {
    let source = "export function useAuth() {\n  return <span>Hi</span>;\n}\n";
    let violations = run_check(source, "useAuth.hooks.ts", vec![element(source, "<span>Hi</span>")]);
    assert_eq!(violations.len(), 1);
}

#[test]
fn domain_hook_no_jsx_allows_hook_without_jsx() {
    let source = "export function useAuth() {\n  return { user: null };\n}\n";
    let violations = run_check(source, "src/hooks/useAuth.ts", Vec::new());
    assert!(violations.is_empty());
}

#[test]
fn domain_hook_no_jsx_ignores_jsx_in_non_hook_file() {
    let source = "export function Auth() {\n  return <div>Login</div>;\n}\n";
    let violations = run_check(source, "src/components/Auth.tsx", vec![element(source, "<div>Login</div>")]);
    assert!(violations.is_empty());
}

#[test]
fn domain_hook_no_jsx_ignores_jsx_in_comments_and_strings() {
    let source = r#"// return <div>Loading</div>;
const text = "<p>Hello</p>";
"#;
    let violations = run_check(source, "src/hooks/useAuth.ts", Vec::new());
    assert!(violations.is_empty());
}

#[test]
fn domain_hook_no_jsx_reports_the_first_element_only() {
    let source = "export function useA() {\n  const a = <>x</>;\n  return <b>y</b>;\n}\n";
    let violations = run_check(source, "src/hooks/useA.ts", vec![element(source, "<>x</>"), element(source, "<b>y</b>")]);
    assert_eq!(violations.len(), 1);
    let v = &violations[0];
    assert_eq!(v.rule, "hook-no-jsx");
    assert_eq!(v.message, "Hook files should not contain JSX. Extract UI into a separate component.");
    assert_eq!(v.span, Some(Span { start: 37, end: 43 }));
    assert_eq!((v.line, v.column), (Some(2), Some(13)));
}
