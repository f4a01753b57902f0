use niteo_lint::config::{DomainConfig, RuleConfig, Severity};
use niteo_lint::rules::imports::no_test_code_in_production::{check_file, TestCodeEvent};
use niteo_lint::rules::Violation;
use niteo_lint::syntax::{LineIndex, Span};

fn span_of(source: &str, text: &str, from: usize) -> Span {
    let at = from + source[from..].find(text).unwrap();
    Span { start: at as u32, end: (at + text.len()) as u32 }
}

fn call(source: &str, name: &str) -> TestCodeEvent {
    TestCodeEvent::Call { span: span_of(source, name, 0), name: name.to_string() }
}

/// The import of `module`, whose specifier is quoted in `source`.
fn import(source: &str, module: &str) -> TestCodeEvent {
    let quoted = format!("'{module}'");
    TestCodeEvent::Import { span: span_of(source, &quoted, 0), source: module.to_string() }
}

fn test_domain() -> DomainConfig {
    DomainConfig { folders: vec!["tests".to_string()], file_suffixes: vec![".test.ts".to_string(), ".tests.ts".to_string()] }
}

fn run_check(source: &str, file_path: &str, events: Vec<TestCodeEvent>) -> Vec<Violation> {
    let line_index = LineIndex::new(source);
    check_file(file_path, &events, &line_index, &RuleConfig { severity: Severity::Warn }, &test_domain())
}

#[test]
fn reports_test_globals() {
    for (source, expected_subject) in [
        ("describe('suite', () => {});", "describe"),
        ("it('works', () => {});", "it"),
        ("test('works', () => {});", "test"),
        ("expect(1).toBe(1);", "expect"),
        ("beforeEach(() => {});", "beforeEach"),
    ] {
        let violations = run_check(source, "src/auth.ts", vec![call(source, expected_subject)]);
        assert_eq!(violations.len(), 1, "expected 1 violation for: {source:?}");
        assert_eq!(violations[0].subject.as_deref(), Some(expected_subject), "wrong subject for: {source:?}",);
    }
}

#[test]
fn reports_jest_import() {
    let source = "import { jest } from 'jest';";
    let violations = run_check(source, "src/auth.ts", vec![import(source, "jest")]);
    assert_eq!(violations.len(), 1);
    assert_eq!(violations[0].subject.as_deref(), Some("jest"));
}

#[test]
fn reports_vitest_import() {
    let source = "import { describe } from 'vitest';";
    let violations = run_check(source, "src/auth.ts", vec![import(source, "vitest")]);
    assert_eq!(violations.len(), 1);
    assert_eq!(violations[0].subject.as_deref(), Some("vitest"));
}

#[test]
fn reports_testing_library_import() {
    let source = "import { render } from '@testing-library/react';";
    let violations = run_check(source, "src/auth.ts", vec![import(source, "@testing-library/react")]);
    assert_eq!(violations.len(), 1);
}

#[test]
fn allows_test_code_in_test_files_by_suffix() {
    let source = "describe('suite', () => { it('works', () => {}); });";
    let events = vec![call(source, "describe"), TestCodeEvent::Call { span: span_of(source, "it(", 0), name: "it".to_string() }];
    let violations = run_check(source, "src/auth.test.ts", events);
    assert!(violations.is_empty());
}

#[test]
fn allows_test_code_in_test_files_by_folder() {
    let source = "describe('suite', () => {});";
    let violations = run_check(source, "tests/auth.ts", vec![call(source, "describe")]);
    assert!(violations.is_empty());
}

#[test]
fn allows_non_test_code_in_production() {
    let source = "export function add(a: number, b: number) { return a + b; }";
    let violations = run_check(source, "src/math.ts", Vec::new());
    assert!(violations.is_empty());
}

#[test]
fn allows_non_test_imports() {
    let source = "import { useState } from 'react';";
    let violations = run_check(source, "src/Component.tsx", vec![import(source, "react")]);
    assert!(violations.is_empty());
}

#[test]
fn does_not_match_partial_identifiers() {
    let source = "const describe_something = true; const expectError = false;";
    let violations = run_check(source, "src/auth.ts", Vec::new());
    assert!(violations.is_empty());
}

#[test]
fn test_code_findings_have_exact_fields() {
    let source = "import x from 'jestx';\nimport y from 'jest/globals';\nafterAll(f);\nfoo(g);\n";
    let events = vec![import(source, "jestx"), import(source, "jest/globals"), call(source, "afterAll"), call(source, "foo")];
    let violations = run_check(source, "src/a.ts", events);
    assert_eq!(violations.len(), 2);
    assert_eq!(violations[0].detail.as_deref(), Some("test library import `jest/globals`"));
    assert_eq!(violations[0].span, Some(Span { start: 37, end: 51 }));
    assert_eq!((violations[0].line, violations[0].column), (Some(2), Some(15)));
    assert_eq!(violations[1].detail.as_deref(), Some("test global `afterAll`"));
    assert_eq!(violations[1].rule, "no-test-code-in-production");
    assert_eq!(violations[1].message, "Disallow test code (describe, it, test, expect, test library imports) outside test files.");
}
