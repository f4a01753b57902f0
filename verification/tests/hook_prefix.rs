use niteo_lint::config::{HookPrefixRuleConfig, Severity};
use niteo_lint::rules::boolean_prefix::{BoundName, VariableKind};
use niteo_lint::rules::hook_prefix::{check_file, HookDeclarator, HookItem};
use niteo_lint::rules::Violation;
use niteo_lint::syntax::{LineIndex, Span};

fn bound(source: &str, name: &str) -> BoundName {
    let at = source.find(name).unwrap();
    BoundName { span: Span { start: at as u32, end: (at + name.len()) as u32 }, name: name.to_string() }
}

fn function(source: &str, name: &str) -> HookItem {
    HookItem::Function(Some(bound(source, name)))
}

fn variable(source: &str, kind: VariableKind, name: &str, function_init: bool) -> HookItem {
    HookItem::Variables { kind, declarators: vec![HookDeclarator { binding: Some(bound(source, name)), function_init }] }
}

fn check_with(source: &str, file_path: &str, items: Vec<HookItem>, config: &HookPrefixRuleConfig) -> Vec<Violation> {
    let line_index = LineIndex::new(source);
    check_file(file_path, &items, &line_index, config)
}

fn run_check(source: &str, file_path: &str, items: Vec<HookItem>) -> Vec<Violation> {
    check_with(source, file_path, items, &test_config())
}

fn test_config() -> HookPrefixRuleConfig {
    HookPrefixRuleConfig { severity: Severity::Warn, prefixes: vec![] }
}

#[test]
fn ignores_non_hook_files() {
    let source = "export function authenticate() { return true; }\n";
    let violations = run_check(source, "src/components/Auth.tsx", vec![function(source, "authenticate")]);
    assert!(violations.is_empty());
}

#[test]
fn allows_use_prefixed_function_in_hooks_folder() {
    let source = "export function useAuth() { return { user: null }; }\n";
    let violations = run_check(source, "src/hooks/useAuth.ts", vec![function(source, "useAuth")]);
    assert!(violations.is_empty());
}

#[test]
fn allows_use_prefixed_arrow_in_hooks_folder() {
    let source = "export const useCounter = () => { return { count: 0 }; };\n";
    let violations = run_check(source, "src/hooks/useCounter.ts", vec![variable(source, VariableKind::Const, "useCounter", true)]);
    assert!(violations.is_empty());
}

#[test]
fn reports_unprefixed_function_in_hooks_folder() {
    let source = "export function authenticate() { return true; }\n";
    let violations = run_check(source, "src/hooks/auth.ts", vec![function(source, "authenticate")]);
    assert_eq!(violations.len(), 1);
    assert_eq!(violations[0].line, Some(1));
}

#[test]
fn reports_unprefixed_arrow_in_hooks_folder() {
    let source = "export const getData = () => { return {}; };\n";
    let violations = run_check(source, "src/hooks/getData.ts", vec![variable(source, VariableKind::Const, "getData", true)]);
    assert_eq!(violations.len(), 1);
    assert_eq!(violations[0].subject.as_deref(), Some("getData"));
}

#[test]
fn ignores_non_function_const_in_hooks_folder() {
    let source = "const value = 42;\nconst name = 'Niteo';\n";
    let items = vec![variable(source, VariableKind::Const, "value", false), variable(source, VariableKind::Const, "name", false)];
    let violations = run_check(source, "src/hooks/constants.ts", items);
    assert!(violations.is_empty());
}

#[test]
fn hook_prefix_ignores_var_declarations() {
    let source = "var authenticate = function() { return true; };\n";
    let items = vec![variable(source, VariableKind::Var, "authenticate", true), HookItem::Function(None)];
    let violations = run_check(source, "src/hooks/auth.ts", items);
    assert!(violations.is_empty());
}

#[test]
fn allows_prefixed_let_in_hooks_folder() {
    let source = "let useCounter = () => { return { count: 0 }; };\n";
    let violations = run_check(source, "src/hooks/useCounter.ts", vec![variable(source, VariableKind::Let, "useCounter", true)]);
    assert!(violations.is_empty());
}

#[test]
fn reports_unprefixed_let_function_in_hooks_folder() {
    let source = "let counter = () => { return { count: 0 }; };\n";
    let violations = run_check(source, "src/hooks/counter.ts", vec![variable(source, VariableKind::Let, "counter", true)]);
    assert_eq!(violations.len(), 1);
}

#[test]
fn allows_prefixed_in_dot_hook_file() {
    let source = "export function useToggle() { return [true, () => {}] as const; }\n";
    let violations = run_check(source, "useToggle.hook.ts", vec![function(source, "useToggle")]);
    assert!(violations.is_empty());
}

#[test]
fn reports_unprefixed_in_dot_hook_file() {
    let source = "export function toggle() { return [true, () => {}] as const; }\n";
    let violations = run_check(source, "toggle.hook.ts", vec![function(source, "toggle")]);
    assert_eq!(violations.len(), 1);
}

#[test]
fn allows_prefixed_in_dot_hooks_file() {
    let source = "export function useToggle() { return [true, () => {}] as const; }\n";
    let violations = run_check(source, "useToggle.hooks.ts", vec![function(source, "useToggle")]);
    assert!(violations.is_empty());
}

#[test]
fn hook_prefix_respects_custom_prefixes() {
    let config = HookPrefixRuleConfig { severity: Severity::Warn, prefixes: vec!["should".to_string(), "with".to_string()] };
    let source = "export function shouldRender() { return true; }\n";
    let violations = check_with(source, "src/hooks/render.ts", vec![function(source, "shouldRender")], &config);
    assert!(violations.is_empty());
}

#[test]
fn hook_prefix_flags_unprefixed_with_custom_prefixes() {
    let config = HookPrefixRuleConfig { severity: Severity::Warn, prefixes: vec!["should".to_string()] };
    let source = "export function useRender() { return true; }\n";
    let violations = check_with(source, "src/hooks/render.ts", vec![function(source, "useRender")], &config);
    assert_eq!(violations.len(), 1);
}

#[test]
fn hook_prefix_requires_camel_case_after_prefix() {
    let source = "export function usecounter() { return { count: 0 }; }\n";
    let violations = run_check(source, "src/hooks/useCounter.ts", vec![function(source, "usecounter")]);
    assert_eq!(violations.len(), 1);
}

#[test]
fn hook_prefix_ignores_destructured_variables() {
    let source = "const { useAuth } = someImportedModule;\n";
    let items = vec![HookItem::Variables { kind: VariableKind::Const, declarators: vec![HookDeclarator { binding: None, function_init: false }] }];
    let violations = run_check(source, "src/hooks/auth.ts", items);
    assert!(violations.is_empty());
}

#[test]
fn ignores_non_arrow_non_function_const() {
    let source = "const useAuth = someExistingHook;\n";
    let violations = run_check(source, "src/hooks/auth.ts", vec![variable(source, VariableKind::Const, "useAuth", false)]);
    assert!(violations.is_empty());
}

#[test]
fn hook_prefix_finding_has_exact_fields() {
    let source = "const x = 1;\nconst load = function fetchIt() {};\n";
    let items = vec![variable(source, VariableKind::Const, "load", true), function(source, "fetchIt")];
    let violations = run_check(source, "src/hooks/load.ts", items);
    assert_eq!(violations.len(), 2);
    let v = &violations[0];
    assert_eq!(v.rule, "hook-prefix");
    assert_eq!(v.message, "Hook function name must start with one of the configured prefixes.");
    assert_eq!(v.detail.as_deref(), Some("'load' does not start with any prefix: use"));
    assert_eq!(v.line, Some(2));
    assert_eq!(v.column, Some(7));
    assert_eq!(violations[1].subject.as_deref(), Some("fetchIt"));
}
