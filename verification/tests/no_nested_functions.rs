use niteo_lint::config::{NestingContext, NoNestedFunctionsRuleConfig, Severity};
use niteo_lint::rules::hygiene::no_nested_functions::{check_file, BindingName, NestEvent};
use niteo_lint::rules::Violation;
use niteo_lint::syntax::{LineIndex, Span};

/// Entering the function declared as `function <name>` in `source`.
fn func(source: &str, name: &str) -> NestEvent {
    let at = source.find(&format!("function {name}")).unwrap();
    let name_at = at + "function ".len();
    NestEvent::EnterFunction {
        span: Span { start: at as u32, end: (name_at + name.len()) as u32 },
        id: Some(BindingName {
            span: Span { start: name_at as u32, end: (name_at + name.len()) as u32 },
            name: name.to_string(),
        }),
    }
}

/// Entering an unnamed function (a method's body) at `at`.
fn anonymous(at: usize) -> NestEvent {
    NestEvent::EnterFunction { span: Span { start: at as u32, end: at as u32 + 1 }, id: None }
}

/// Entering the `n`-th arrow function (counting from 0) of `source`.
fn arrow(source: &str, n: usize) -> NestEvent {
    let at = source.match_indices("=>").nth(n).unwrap().0;
    NestEvent::EnterArrow { span: Span { start: at as u32, end: at as u32 + 2 } }
}

fn exit() -> NestEvent {
    NestEvent::Exit
}

fn run_check(source: &str, events: Vec<NestEvent>, max_depth: usize) -> Vec<Violation> {
    run_check_with_contexts(source, events, max_depth, &[])
}

fn run_check_with_contexts(source: &str, events: Vec<NestEvent>, max_depth: usize, contexts: &[NestingContext]) -> Vec<Violation> {
    let line_index = LineIndex::new(source);
    check_file("test.ts", &events, &line_index, &test_config(max_depth, contexts))
}

fn test_config(max_depth: usize, contexts: &[NestingContext]) -> NoNestedFunctionsRuleConfig {
    let contexts = if contexts.is_empty() {
        vec![NestingContext::Function, NestingContext::Arrow, NestingContext::ClassMethod, NestingContext::ObjectMethod]
    } else {
        contexts.to_vec()
    };
    NoNestedFunctionsRuleConfig { severity: Severity::Warn, max_depth, contexts }
}

#[test]
fn allows_top_level_function() {
    let source = "function foo() {}\n";
    let events = vec![func(source, "foo"), exit()];
    let violations = run_check(source, events, 1);
    assert!(violations.is_empty());
}

#[test]
fn allows_one_level_of_nesting_with_max_depth_2() {
    let source = "function outer() { function inner() {} }\n";
    let events = vec![func(source, "outer"), func(source, "inner"), exit(), exit()];
    let violations = run_check(source, events, 2);
    assert!(violations.is_empty());
}

#[test]
fn reports_two_levels_of_nesting_with_max_depth_2() {
    let source = "function outer() { function middle() { function inner() {} } }\n";
    let events = vec![func(source, "outer"), func(source, "middle"), func(source, "inner"), exit(), exit(), exit()];
    let violations = run_check(source, events, 2);
    assert_eq!(violations.len(), 1);
    assert_eq!(violations[0].subject.as_deref(), Some("inner"));
}

#[test]
fn reports_arrow_functions_as_nesting() {
    let source = "function outer() { const inner = () => { const deep = () => {} }; }\n";
    let events = vec![func(source, "outer"), arrow(source, 0), arrow(source, 1), exit(), exit(), exit()];
    let violations = run_check(source, events, 2);
    assert_eq!(violations.len(), 1);
}

#[test]
fn reports_nested_arrows_in_arrow() {
    let source = "const a = () => { const b = () => { const c = () => {} }; };\n";
    let events = vec![arrow(source, 0), arrow(source, 1), arrow(source, 2), exit(), exit(), exit()];
    let violations = run_check(source, events, 2);
    assert_eq!(violations.len(), 1);
}

#[test]
fn allows_flat_callbacks() {
    let source = "function outer() { [1, 2].map(x => x + 1); }\n";
    let events = vec![func(source, "outer"), arrow(source, 0), exit(), exit()];
    let violations = run_check(source, events, 2);
    assert!(violations.is_empty());
}

#[test]
fn no_nested_functions_reports_multiple_violations() {
    let source = "function a() {\n  function b() {\n    function c() {}\n    function d() {}\n  }\n}\n";
    let events = vec![
        func(source, "a"), func(source, "b"), func(source, "c"), exit(), func(source, "d"), exit(), exit(), exit(),
    ];
    let violations = run_check(source, events, 2);
    assert_eq!(violations.len(), 2);
}

#[test]
fn depth_resets_after_function_ends() {
    let source = "function first() {\n  function nested() {}\n}\nfunction second() {\n  function nested() {}\n}\n";
    let second_nested = source.rfind("function nested").unwrap();
    let events = vec![
        func(source, "first"),
        func(source, "nested"),
        exit(),
        exit(),
        func(source, "second"),
        NestEvent::EnterFunction {
            span: Span { start: second_nested as u32, end: second_nested as u32 + 15 },
            id: Some(BindingName { span: Span { start: second_nested as u32 + 9, end: second_nested as u32 + 15 }, name: "nested".to_string() }),
        },
        exit(),
        exit(),
    ];
    let violations = run_check(source, events, 2);
    assert!(violations.is_empty());
}

#[test]
fn max_depth_1_reports_any_nesting() {
    let source = "function outer() { function inner() {} }\n";
    let events = vec![func(source, "outer"), func(source, "inner"), exit(), exit()];
    let violations = run_check(source, events, 1);
    assert_eq!(violations.len(), 1);
    assert_eq!(violations[0].subject.as_deref(), Some("inner"));
}

#[test]
fn mixed_function_and_arrow_nesting() {
    let source = "function outer() { const mid = () => { function deep() {} } }\n";
    let events = vec![func(source, "outer"), arrow(source, 0), func(source, "deep"), exit(), exit(), exit()];
    let violations = run_check(source, events, 2);
    assert_eq!(violations.len(), 1);
    assert_eq!(violations[0].subject.as_deref(), Some("deep"));
}

#[test]
fn context_arrow_excluded_does_not_count_arrows() {
    let source = "function outer() {\n  [1, 2].map(x => {\n    return function inner() {};\n  });\n}\n";
    let events = vec![func(source, "outer"), arrow(source, 0), func(source, "inner"), exit(), exit(), exit()];
    let violations = run_check_with_contexts(
        source,
        events,
        2,
        &[NestingContext::Function, NestingContext::ClassMethod, NestingContext::ObjectMethod],
    );
    assert!(violations.is_empty(), "arrow should not count as nesting level");
}

#[test]
fn context_arrow_excluded_arrow_inside_function_at_depth_2() {
    let source = "function a() {\n  function b() {\n    const x = () => {};\n  }\n}\n";
    let events = vec![func(source, "a"), func(source, "b"), arrow(source, 0), exit(), exit(), exit()];
    let violations = run_check_with_contexts(source, events, 2, &[NestingContext::Function]);
    assert!(violations.is_empty(), "arrow at depth 2 should not trigger when arrow is excluded");
}

#[test]
fn context_only_function_counts_class_methods() {
    let source = "\nfunction outer() {\n  class Foo {\n    bar() {\n      function deeply() {}\n    }\n  }\n}\n";
    let bar = source.find("bar").unwrap();
    let events = vec![
        func(source, "outer"),
        NestEvent::EnterClassMethod,
        anonymous(bar + 3),
        func(source, "deeply"),
        exit(),
        exit(),
        exit(),
        exit(),
    ];
    let violations = run_check_with_contexts(
        source,
        events,
        2,
        &[NestingContext::Function, NestingContext::Arrow, NestingContext::ObjectMethod],
    );
    assert!(violations.is_empty(), "class method should not count when class-method context is excluded");
}

#[test]
fn context_only_function_counts_object_methods() {
    let source = "\nfunction outer() {\n  const obj = {\n    method() {\n      function deeply() {}\n    },\n  };\n}\n";
    let method = source.find("method()").unwrap();
    let events = vec![
        func(source, "outer"),
        NestEvent::EnterObjectProperty { method: true },
        anonymous(method + 6),
        func(source, "deeply"),
        exit(),
        exit(),
        exit(),
        exit(),
    ];
    let violations = run_check_with_contexts(
        source,
        events,
        2,
        &[NestingContext::Function, NestingContext::Arrow, NestingContext::ClassMethod],
    );
    assert!(violations.is_empty(), "object method should not count when object-method context is excluded");
}

#[test]
fn context_class_method_counts_as_nesting() {
    let source = "\nfunction outer() {\n  class Foo {\n    methodA() {\n      class Bar {\n        methodB() {}\n      }\n    }\n  }\n}\n";
    let a = source.find("methodA").unwrap();
    let b = source.find("methodB").unwrap();
    let events = vec![
        func(source, "outer"),
        NestEvent::EnterClassMethod,
        anonymous(a + 7),
        NestEvent::EnterClassMethod,
        anonymous(b + 7),
        exit(),
        exit(),
        exit(),
        exit(),
        exit(),
    ];
    let violations = run_check_with_contexts(
        source,
        events,
        2,
        &[NestingContext::Function, NestingContext::ClassMethod, NestingContext::Arrow, NestingContext::ObjectMethod],
    );
    assert_eq!(violations.len(), 1);
}

#[test]
fn context_object_method_counts_as_nesting() {
    let source = "\nfunction outer() {\n  const obj = {\n    middle() {\n      return function inner() {};\n    },\n  };\n}\n";
    let middle = source.find("middle").unwrap();
    let events = vec![
        func(source, "outer"),
        NestEvent::EnterObjectProperty { method: true },
        anonymous(middle + 6),
        func(source, "inner"),
        exit(),
        exit(),
        exit(),
        exit(),
    ];
    let violations = run_check_with_contexts(
        source,
        events,
        2,
        &[NestingContext::Function, NestingContext::ObjectMethod, NestingContext::Arrow, NestingContext::ClassMethod],
    );
    assert_eq!(violations.len(), 1);
}

#[test]
fn no_nested_functions_reports_depth_detail_and_anonymous_subject() {
    let source = "function outer() { function inner() {} }\n";
    let events = vec![func(source, "outer"), anonymous(19), exit(), exit()];
    let violations = run_check(source, events, 1);
    assert_eq!(violations.len(), 1);
    assert_eq!(violations[0].detail.as_deref(), Some("depth 2 exceeds max-depth 1"));
    assert_eq!(violations[0].subject.as_deref(), Some("<anonymous>"));
    assert_eq!(violations[0].rule, "no-nested-functions");
    assert_eq!(violations[0].column, Some(20));
}

#[test]
fn no_nested_functions_property_that_is_no_method_resets_the_flag() {
    let source = "function outer() { const o = { m() { const p = { q: function () {} }; } }; }\n";
    let events = vec![
        func(source, "outer"),
        NestEvent::EnterObjectProperty { method: true },
        anonymous(32),
        NestEvent::EnterObjectProperty { method: false },
        anonymous(53),
        exit(),
        exit(),
        exit(),
        exit(),
        exit(),
    ];
    let only_functions = run_check_with_contexts(source, events, 1, &[NestingContext::Function]);
    assert_eq!(only_functions.len(), 1);
    assert_eq!(only_functions[0].detail.as_deref(), Some("depth 2 exceeds max-depth 1"));
}
