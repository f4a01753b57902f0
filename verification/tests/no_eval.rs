use niteo_lint::config::{RuleConfig, Severity};
use niteo_lint::rules::hygiene::no_eval::{check_file, IdentifierCallee};
use niteo_lint::rules::Violation;
use niteo_lint::syntax::{LineIndex, Span};

fn callee(source: &str, name: &str, is_new: bool) -> IdentifierCallee {
    let at = source.find(name).unwrap();
    IdentifierCallee { is_new, span: Span { start: at as u32, end: (at + name.len()) as u32 }, name: name.to_string() }
}

fn run_check(source: &str, callees: Vec<IdentifierCallee>) -> Vec<Violation> {
    let line_index = LineIndex::new(source);
    check_file("Component.tsx", &callees, &line_index, &RuleConfig { severity: Severity::Warn })
}

#[test]
fn reports_eval_call() {
    let source = "eval('code');\n";
    let violations = run_check(source, vec![callee(source, "eval", false)]);
    assert_eq!(violations.len(), 1);
    assert_eq!(violations[0].line, Some(1));
    assert_eq!(violations[0].column, Some(1));
}

#[test]
fn reports_new_function() {
    let source = "new Function('return 1');\n";
    let violations = run_check(source, vec![callee(source, "Function", true)]);
    assert_eq!(violations.len(), 1);
}

#[test]
fn reports_new_function_with_space() {
    let source = "new  Function('return 1');\n";
    let violations = run_check(source, vec![callee(source, "Function", true)]);
    assert_eq!(violations.len(), 1);
}

#[test]
fn ignores_eval_in_comments() {
    let source = "// eval('code');\n/* new Function('test'); */\n";
    let violations = run_check(source, Vec::new());
    assert!(violations.is_empty());
}

#[test]
fn ignores_eval_in_strings() {
    let source = r#"const text = "eval('hello')";"#;
    let violations = run_check(source, Vec::new());
    assert!(violations.is_empty());
}

#[test]
fn no_eval_does_not_match_identifier_fragment() {
    let source = "const evaluate = true;\nconst FunctionBuilder = class {};\n";
    let violations = run_check(source, Vec::new());
    assert!(violations.is_empty());
}

#[test]
fn eval_kind_must_match_the_name() {
    let source = "Function('x');\nnew eval('y');\nx;\nnew Function('z');\n";
    let callees = vec![callee(source, "Function", false), callee(source, "eval", true), IdentifierCallee { is_new: true, span: Span { start: 37, end: 45 }, name: "Function".to_string() }];
    let violations = run_check(source, callees);
    assert_eq!(violations.len(), 1);
    let v = &violations[0];
    assert_eq!(v.rule, "no-eval");
    assert_eq!(v.message, "Disallow eval() and new Function() as they execute arbitrary code.");
    assert_eq!((v.line, v.column, v.span), (Some(4), Some(5), None));
}
