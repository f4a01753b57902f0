use niteo_lint::config::{MaxFunctionParamsRuleConfig, Severity};
use niteo_lint::rules::boolean_prefix::BoundName;
use niteo_lint::rules::max_function_params::{check_file, ParamsOwner};
use niteo_lint::rules::Violation;
use niteo_lint::syntax::{LineIndex, Span};

fn span_of(source: &str, text: &str) -> Span {
    let at = source.find(text).unwrap();
    Span { start: at as u32, end: (at + text.len()) as u32 }
}

/// The function declared `function <name>` in `source`, taking `params` parameters.
fn function(source: &str, name: &str, params: usize) -> ParamsOwner {
    let span = span_of(source, &format!("function {name}"));
    ParamsOwner::Function { span, id: Some(BoundName { span: span_of(source, name), name: name.to_string() }), params }
}

/// The unnamed function expression at `function(` in `source`.
fn function_expression(source: &str, params: usize) -> ParamsOwner {
    ParamsOwner::Function { span: span_of(source, "function("), id: None, params }
}

/// The `n`-th arrow function of `source` (counting from 0), starting at its `(`.
fn arrow(source: &str, n: usize, params: usize) -> ParamsOwner {
    let arrow_at = source.match_indices("=>").nth(n).unwrap().0;
    let start = source[..arrow_at].rfind('(').unwrap();
    ParamsOwner::Arrow { span: Span { start: start as u32, end: arrow_at as u32 + 2 }, params }
}

fn method(source: &str, name: &str, params: usize) -> ParamsOwner {
    ParamsOwner::Method { key_span: span_of(source, name), name: Some(name.to_string()), params }
}

fn run_check(source: &str, owners: Vec<ParamsOwner>, max_params: usize) -> Vec<Violation> {
    let line_index = LineIndex::new(source);
    check_file("test.ts", &owners, &line_index, &MaxFunctionParamsRuleConfig { severity: Severity::Warn, max_params })
}

#[test]
fn allows_function_within_limit() {
    let source = "function add(a: number, b: number) { return a + b; }";
    let violations = run_check(source, vec![function(source, "add", 2)], 3);
    assert!(violations.is_empty());
}

#[test]
fn reports_function_exceeding_limit() {
    let source = "function createUser(name: string, age: number, email: string, role: string) {}";
    let violations = run_check(source, vec![function(source, "createUser", 4)], 3);
    assert_eq!(violations.len(), 1);
    assert_eq!(violations[0].subject.as_deref(), Some("createUser"));
}

#[test]
fn allows_arrow_within_limit() {
    let source = "const add = (a: number, b: number) => a + b;";
    let violations = run_check(source, vec![arrow(source, 0, 2)], 3);
    assert!(violations.is_empty());
}

#[test]
fn reports_arrow_exceeding_limit() {
    let source = "const createUser = (name: string, age: number, email: string, role: string) => {};";
    let violations = run_check(source, vec![arrow(source, 0, 4)], 3);
    assert_eq!(violations.len(), 1);
}

#[test]
fn allows_method_within_limit() {
    let source = "class User { greet(name: string, greeting: string) { return `${greeting}, ${name}`; } }";
    let violations = run_check(source, vec![method(source, "greet", 2)], 3);
    assert!(violations.is_empty());
}

#[test]
fn reports_method_exceeding_limit() {
    let source = "class User { create(name: string, age: number, email: string, role: string) {} }";
    let violations = run_check(source, vec![method(source, "create", 4)], 3);
    assert_eq!(violations.len(), 1);
    assert_eq!(violations[0].subject.as_deref(), Some("create"));
}

#[test]
fn allows_function_at_exact_limit() {
    let source = "function foo(a: number, b: number, c: number) {}";
    let violations = run_check(source, vec![function(source, "foo", 3)], 3);
    assert!(violations.is_empty());
}

#[test]
fn max_function_params_reports_multiple_violations() {
    let source = r#"
function foo(a: number, b: number, c: number, d: number) {}
const bar = (x: number, y: number, z: number, w: number) => {};
"#;
    let violations = run_check(source, vec![function(source, "foo", 4), arrow(source, 0, 4)], 3);
    assert_eq!(violations.len(), 2);
}

#[test]
fn max_function_params_reports_correct_line() {
    let source = "const x = 1;\nfunction foo(a: number, b: number, c: number, d: number) {}\n";
    let violations = run_check(source, vec![function(source, "foo", 4)], 3);
    assert_eq!(violations.len(), 1);
    assert_eq!(violations[0].line, Some(2));
}

#[test]
fn allows_function_expression_within_limit() {
    let source = "const add = function(a: number, b: number) { return a + b; };";
    let violations = run_check(source, vec![function_expression(source, 2)], 3);
    assert!(violations.is_empty());
}

#[test]
fn reports_function_expression_exceeding_limit() {
    let source = "const createUser = function(name: string, age: number, email: string, role: string) {};";
    let violations = run_check(source, vec![function_expression(source, 4)], 3);
    assert_eq!(violations.len(), 1);
}

#[test]
fn max_function_params_ignores_in_comments() {
    let source = "// function foo(a: number, b: number, c: number, d: number) {}";
    let violations = run_check(source, Vec::new(), 3);
    assert!(violations.is_empty());
}

#[test]
fn allows_zero_params() {
    let source = "function foo() {}";
    let violations = run_check(source, vec![function(source, "foo", 0)], 0);
    assert!(violations.is_empty());
}

#[test]
fn reports_one_param_when_max_is_zero() {
    let source = "function foo(a: number) {}";
    let violations = run_check(source, vec![function(source, "foo", 1)], 0);
    assert_eq!(violations.len(), 1);
}

#[test]
fn max_params_finding_has_exact_fields() {
    let source = "const x = 1;\nconst f = function(a, b) {};\nclass C { [k](a, b) {} }\n";
    let owners = vec![
        function_expression(source, 2),
        ParamsOwner::Method { key_span: span_of(source, "k"), name: None, params: 2 },
    ];
    let violations = run_check(source, owners, 1);
    assert_eq!(violations.len(), 2);
    let v = &violations[0];
    assert_eq!(v.rule, "max-function-params");
    assert_eq!(v.message, "Function has too many parameters. Consider using an object parameter instead.");
    assert_eq!(v.detail.as_deref(), Some("2 parameters exceeds max-params 1"));
    assert_eq!(v.subject, None);
    assert_eq!(v.line, Some(2));
    assert_eq!(v.column, Some(11));
    assert_eq!(v.span, None);
    assert_eq!(violations[1].line, Some(3));
}
