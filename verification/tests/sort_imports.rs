use niteo_lint::config::{ImportGroup, NewlinesBetween, Severity, SortImportsRuleConfig};
use niteo_lint::program::{Comment, CommentPosition, ImportDeclaration, ModuleItem, ModuleSyntax};
use niteo_lint::rules::imports::sort_imports::{check_file, classify_import, fix_file};
use niteo_lint::rule_adapters::{AstContext, AstRule, SortImportsAdapter};
use niteo_lint::rules::{Fix, TextEdit, Violation};
use niteo_lint::syntax::{LineIndex, Span};

/// The statements and comments of a small module written one statement or comment per line.
fn module_of(source: &str) -> ModuleSyntax {
    let mut body = Vec::new();
    let mut comments = Vec::new();
    let mut pending: Vec<(usize, usize)> = Vec::new();
    let mut offset = 0usize;
    for line in source.split_inclusive('\n') {
        let content = line.trim_end_matches(['\n', '\r']);
        let indent = content.len() - content.trim_start().len();
        let text = content.trim();
        let start = offset + indent;
        let end = start + text.len();
        if text.starts_with("//") {
            pending.push((start, end));
        } else if !text.is_empty() {
            for (comment_start, comment_end) in pending.drain(..) {
                comments.push(Comment {
                    span: Span { start: comment_start as u32, end: comment_end as u32 },
                    position: CommentPosition::Leading,
                    attached_to: start as u32,
                });
            }
            let span = Span { start: start as u32, end: end as u32 };
            if text.starts_with("import") {
                let open = text.find('"').unwrap();
                let close = open + 1 + text[open + 1..].find('"').unwrap();
                body.push(ModuleItem::Import(ImportDeclaration {
                    span,
                    source: text[open + 1..close].to_string(),
                }));
            } else {
                body.push(ModuleItem::Other(span));
            }
        }
        offset += line.len();
    }
    ModuleSyntax { body, comments }
}

fn run_check(source: &str) -> Vec<Violation> {
    run_check_with_config(source, test_config())
}

fn run_check_with_config(source: &str, config: SortImportsRuleConfig) -> Vec<Violation> {
    let line_index = LineIndex::new(source);
    let program = module_of(source);
    check_file("Component.tsx", &program, source, &line_index, &config)
}

fn run_fix(source: &str) -> Vec<Fix> {
    run_fix_with_config(source, test_config())
}

fn run_fix_with_config(source: &str, config: SortImportsRuleConfig) -> Vec<Fix> {
    let program = module_of(source);
    fix_file("Component.tsx", &program, source, &config)
}

fn apply_fix(source: &str, fixes: &[Fix]) -> String {
    let mut edits: Vec<&TextEdit> = fixes.iter().flat_map(|f| f.edits.iter()).collect();
    edits.sort_by(|a, b| b.start.cmp(&a.start));
    let mut out = source.to_string();
    for edit in edits {
        out.replace_range(edit.start..edit.end, &edit.replacement);
    }
    out
}

fn test_config() -> SortImportsRuleConfig {
    SortImportsRuleConfig {
        severity: Severity::Warn,
        groups: Vec::new(),
        newlines_between: NewlinesBetween::Ignore,
        internal_patterns: Vec::new(),
    }
}

fn grouped_config(groups: Vec<Vec<ImportGroup>>) -> SortImportsRuleConfig {
    SortImportsRuleConfig {
        severity: Severity::Warn,
        groups,
        newlines_between: NewlinesBetween::Ignore,
        internal_patterns: Vec::new(),
    }
}

#[test]
fn allows_sorted_imports() {
    let source = "import a from \"a\";\nimport b from \"b\";\nimport c from \"c\";\n";
    let violations = run_check(source);
    assert!(violations.is_empty());
}

#[test]
fn reports_unsorted_imports() {
    let source = "import c from \"c\";\nimport a from \"a\";\nimport b from \"b\";\n";
    let violations = run_check(source);
    assert!(!violations.is_empty());
}

#[test]
fn respects_blank_line_groups() {
    let source =
        "import c from \"c\";\nimport a from \"a\";\n\nimport z from \"z\";\nimport y from \"y\";\n";
    let violations = run_check(source);
    assert!(!violations.is_empty());
    let fixes = run_fix(source);
    let fixed = apply_fix(source, &fixes);
    assert!(fixed.contains("\n\n"));
}

#[test]
fn fix_sorts_imports() {
    let source = "import c from \"c\";\nimport a from \"a\";\nimport b from \"b\";\n";
    let fixes = run_fix(source);
    let fixed = apply_fix(source, &fixes);
    assert_eq!(
        fixed,
        "import a from \"a\";\nimport b from \"b\";\nimport c from \"c\";\n"
    );
}

#[test]
fn fix_preserves_blank_line_groups() {
    let source =
        "import z from \"z\";\nimport y from \"y\";\n\nimport b from \"b\";\nimport a from \"a\";\n";
    let fixes = run_fix(source);
    let fixed = apply_fix(source, &fixes);
    assert_eq!(
        fixed,
        "import y from \"y\";\nimport z from \"z\";\n\nimport a from \"a\";\nimport b from \"b\";\n"
    );
}

#[test]
fn sorts_case_insensitive() {
    let source = "import Zebra from \"zebra\";\nimport apple from \"apple\";\n";
    let fixes = run_fix(source);
    let fixed = apply_fix(source, &fixes);
    assert_eq!(
        fixed,
        "import apple from \"apple\";\nimport Zebra from \"zebra\";\n"
    );
}

#[test]
fn handles_side_effect_imports() {
    let source = "import \"./z.css\";\nimport \"./a.css\";\n";
    let fixes = run_fix(source);
    let fixed = apply_fix(source, &fixes);
    assert_eq!(fixed, "import \"./a.css\";\nimport \"./z.css\";\n");
}

#[test]
fn handles_type_imports() {
    let source = "import type { Zebra } from \"./z\";\nimport type { Alpha } from \"./a\";\n";
    let fixes = run_fix(source);
    let fixed = apply_fix(source, &fixes);
    assert_eq!(
        fixed,
        "import type { Alpha } from \"./a\";\nimport type { Zebra } from \"./z\";\n"
    );
}

#[test]
fn handles_mixed_import_kinds() {
    let source = "import c from \"c\";\nimport * as a from \"a\";\nimport { b } from \"b\";\n";
    let fixes = run_fix(source);
    let fixed = apply_fix(source, &fixes);
    assert_eq!(
        fixed,
        "import * as a from \"a\";\nimport { b } from \"b\";\nimport c from \"c\";\n"
    );
}

#[test]
fn no_fix_when_already_sorted() {
    let source = "import a from \"a\";\nimport b from \"b\";\n";
    let fixes = run_fix(source);
    assert!(fixes.is_empty());
}

#[test]
fn single_import_no_violation() {
    let source = "import x from \"x\";\n";
    let violations = run_check(source);
    assert!(violations.is_empty());
}

#[test]
fn preserves_crlf_in_groups() {
    let source = "import c from \"c\";\r\nimport a from \"a\";\r\nimport b from \"b\";\r\n";
    let fixes = run_fix(source);
    let fixed = apply_fix(source, &fixes);
    assert_eq!(
        fixed,
        "import a from \"a\";\r\nimport b from \"b\";\r\nimport c from \"c\";\r\n"
    );
}

#[test]
fn respects_crlf_blank_line_groups() {
    let source =
        "import z from \"z\";\r\nimport y from \"y\";\r\n\r\nimport b from \"b\";\r\nimport a from \"a\";\r\n";
    let fixes = run_fix(source);
    let fixed = apply_fix(source, &fixes);
    assert_eq!(
        fixed,
        "import y from \"y\";\r\nimport z from \"z\";\r\n\r\nimport a from \"a\";\r\nimport b from \"b\";\r\n"
    );
}

#[test]
fn classifies_external_imports() {
    assert_eq!(classify_import("react", &Vec::new()), ImportGroup::External);
    assert_eq!(classify_import("lodash", &Vec::new()), ImportGroup::External);
}

#[test]
fn classifies_builtin_imports() {
    assert_eq!(classify_import("fs", &Vec::new()), ImportGroup::Builtin);
    assert_eq!(classify_import("path", &Vec::new()), ImportGroup::Builtin);
    assert_eq!(classify_import("node:fs", &Vec::new()), ImportGroup::Builtin);
}

#[test]
fn classifies_parent_imports() {
    assert_eq!(classify_import("../foo", &Vec::new()), ImportGroup::Parent);
    assert_eq!(classify_import("../../bar", &Vec::new()), ImportGroup::Parent);
}

#[test]
fn classifies_sibling_imports() {
    assert_eq!(classify_import("./foo", &Vec::new()), ImportGroup::Sibling);
    assert_eq!(classify_import("./bar/baz", &Vec::new()), ImportGroup::Sibling);
}

#[test]
fn classifies_index_imports() {
    assert_eq!(classify_import("./foo/index", &Vec::new()), ImportGroup::Index);
    assert_eq!(classify_import("./foo/foo", &Vec::new()), ImportGroup::Index);
}

#[test]
fn classifies_internal_imports_with_patterns() {
    let patterns = vec!["@scope/**".to_string()];
    assert_eq!(classify_import("@scope/package", &patterns), ImportGroup::Internal);
    assert_eq!(classify_import("@scope/utils/helper", &patterns), ImportGroup::Internal);
}

#[test]
fn group_ordering_moves_imports() {
    let config = grouped_config(vec![vec![ImportGroup::External], vec![ImportGroup::Sibling]]);
    let source = "import \"./local\";\nimport React from \"react\";\nimport \"./other\";\n";
    let fixes = run_fix_with_config(source, config);
    let fixed = apply_fix(source, &fixes);
    assert_eq!(
        fixed,
        "import React from \"react\";\nimport \"./local\";\nimport \"./other\";\n"
    );
}

#[test]
fn nested_groups_merge_builtin_external() {
    let config = grouped_config(vec![
        vec![ImportGroup::Builtin, ImportGroup::External],
        vec![ImportGroup::Sibling],
    ]);
    let source = "import \"./local\";\nimport React from \"react\";\nimport fs from \"fs\";\n";
    let fixes = run_fix_with_config(source, config);
    let fixed = apply_fix(source, &fixes);
    assert_eq!(
        fixed,
        "import fs from \"fs\";\nimport React from \"react\";\nimport \"./local\";\n"
    );
}

#[test]
fn newlines_between_always_adds_blank_lines() {
    let mut config = grouped_config(vec![vec![ImportGroup::External], vec![ImportGroup::Sibling]]);
    config.newlines_between = NewlinesBetween::Always;
    let source = "import \"./local\";\nimport React from \"react\";\nimport \"./other\";\n";
    let fixes = run_fix_with_config(source, config);
    let fixed = apply_fix(source, &fixes);
    assert_eq!(
        fixed,
        "import React from \"react\";\n\nimport \"./local\";\nimport \"./other\";\n"
    );
}

#[test]
fn backward_compat_blind_line_groups_work_with_empty_groups_config() {
    let config = test_config();
    let source =
        "import z from \"z\";\nimport y from \"y\";\n\nimport b from \"b\";\nimport a from \"a\";\n";
    let fixes = run_fix_with_config(source, config);
    let fixed = apply_fix(source, &fixes);
    assert_eq!(
        fixed,
        "import y from \"y\";\nimport z from \"z\";\n\nimport a from \"a\";\nimport b from \"b\";\n"
    );
}

#[test]
fn never_sorts_across_an_executable_statement() {
    let source = "import z from \"z\";\nconst keep = true;\nimport a from \"a\";\n";
    let fixes = run_fix(source);
    assert!(fixes.is_empty());
    assert_eq!(apply_fix(source, &fixes), source);

    let config = grouped_config(vec![vec![ImportGroup::External], vec![ImportGroup::Sibling]]);
    let grouped_fixes = run_fix_with_config(source, config);
    assert!(grouped_fixes.is_empty());
    assert_eq!(apply_fix(source, &grouped_fixes), source);
}

#[test]
fn moves_leading_comments_with_imports() {
    let source = "// Z comment\nimport z from \"z\";\n// A comment\nimport a from \"a\";\n";
    let fixes = run_fix(source);
    let fixed = apply_fix(source, &fixes);
    assert_eq!(
        fixed,
        "// A comment\nimport a from \"a\";\n// Z comment\nimport z from \"z\";\n"
    );
}

#[test]
fn newline_modes_have_matching_import_diagnostics_and_fixes() {
    let groups = vec![vec![ImportGroup::External], vec![ImportGroup::Sibling]];
    let source = "import React from \"react\";\nimport \"./local\";\n";

    let mut always = grouped_config(groups.clone());
    always.newlines_between = NewlinesBetween::Always;
    let always_violations = run_check_with_config(source, always.clone());
    assert!(!always_violations.is_empty());
    let always_fixed = apply_fix(source, &run_fix_with_config(source, always.clone()));
    assert_eq!(always_fixed, "import React from \"react\";\n\nimport \"./local\";\n");
    assert!(run_check_with_config(&always_fixed, always).is_empty());

    let never_source = "import React from \"react\";\n\nimport \"./local\";\n";
    let mut never = grouped_config(groups.clone());
    never.newlines_between = NewlinesBetween::Never;
    assert!(!run_check_with_config(never_source, never.clone()).is_empty());
    let never_fixed = apply_fix(never_source, &run_fix_with_config(never_source, never.clone()));
    assert_eq!(never_fixed, source);
    assert!(run_check_with_config(&never_fixed, never).is_empty());

    let mut ignore = grouped_config(groups);
    ignore.newlines_between = NewlinesBetween::Ignore;
    assert!(run_check_with_config(never_source, ignore.clone()).is_empty());
    assert!(run_fix_with_config(never_source, ignore).is_empty());
}

#[test]
fn preserves_crlf_without_adding_an_eof_newline() {
    let source = "import c from \"c\";\r\nimport a from \"a\";";
    let fixes = run_fix(source);
    let fixed = apply_fix(source, &fixes);
    assert_eq!(fixed, "import a from \"a\";\r\nimport c from \"c\";");
}

#[test]
fn applying_import_sort_fix_twice_is_idempotent() {
    let source = "import c from \"c\";\nimport a from \"a\";\n";
    let once = apply_fix(source, &run_fix(source));
    let second_fixes = run_fix(&once);
    assert!(second_fixes.is_empty());
    assert_eq!(apply_fix(&once, &second_fixes), once);
}

#[test]
fn never_fixes_order_and_blank_lines_in_one_pass() {
    let mut config = grouped_config(vec![vec![ImportGroup::External], vec![ImportGroup::Sibling]]);
    config.newlines_between = NewlinesBetween::Never;
    let source = "import \"./local\";\n\nimport React from \"react\";\n";
    let fixed = apply_fix(source, &run_fix_with_config(source, config.clone()));
    assert_eq!(fixed, "import React from \"react\";\nimport \"./local\";\n");
    assert!(run_check_with_config(&fixed, config.clone()).is_empty());
    assert!(run_fix_with_config(&fixed, config).is_empty());
}

// Findings in detail.

#[test]
fn sort_imports_reports_misplaced_position_and_subject() {
    let source = "import c from \"c\";\nimport a from \"a\";\n";
    let violations = run_check(source);
    assert_eq!(violations.len(), 1);
    let v = &violations[0];
    assert_eq!(v.rule, "sort-imports");
    assert_eq!(v.line, Some(2));
    assert_eq!(v.column, Some(1));
    assert_eq!(v.detail.as_deref(), Some("\"a\" should appear before \"c\""));
    assert_eq!(v.subject.as_deref(), Some("a"));
    assert_eq!(v.span, Some(Span { start: 19, end: 37 }));
}

#[test]
fn sort_imports_grouped_order_names_the_specifier_in_place() {
    let config = grouped_config(vec![vec![ImportGroup::External], vec![ImportGroup::Sibling]]);
    let source = "import \"./local\";\nimport React from \"react\";\n";
    let violations = run_check_with_config(source, config);
    assert_eq!(violations.len(), 2);
    assert_eq!(violations[0].detail.as_deref(), Some("\"react\" should appear in a different position"));
    assert_eq!(violations[0].line, Some(2));
    assert_eq!(violations[1].detail.as_deref(), Some("\"./local\" should appear in a different position"));
    assert_eq!(violations[1].line, Some(1));
}

#[test]
fn sort_imports_never_reports_blank_line_at_end_of_first_import() {
    let mut config = test_config();
    config.newlines_between = NewlinesBetween::Never;
    let source = "import a from \"a\";\n\nimport b from \"b\";\n";
    let violations = run_check_with_config(source, config);
    assert_eq!(violations.len(), 1);
    assert_eq!(violations[0].message, "Import declarations should not be separated by a blank line.");
    assert_eq!(violations[0].span, Some(Span { start: 18, end: 18 }));
    assert_eq!(violations[0].line, Some(1));
    assert_eq!(violations[0].column, Some(19));
}

#[test]
fn sort_imports_is_silent_when_off() {
    let mut config = test_config();
    config.severity = Severity::Off;
    let source = "import c from \"c\";\nimport a from \"a\";\n";
    assert!(run_check_with_config(source, config.clone()).is_empty());
    assert!(run_fix_with_config(source, config).is_empty());
}

#[test]
fn sort_imports_comment_lines_do_not_split_groups() {
    let source = "import b from \"b\";\n// note\nimport a from \"a\";\n";
    assert_eq!(run_check(source).len(), 1);
}

#[test]
fn sort_imports_classifies_index_like_and_invalid_patterns() {
    assert_eq!(classify_import("./a/b/b", &Vec::new()), ImportGroup::Index);
    assert_eq!(classify_import("./a/", &Vec::new()), ImportGroup::Sibling);
    assert_eq!(classify_import("node:crypto", &Vec::new()), ImportGroup::Builtin);
    assert_eq!(classify_import("node:react", &Vec::new()), ImportGroup::External);
    let invalid = vec!["[".to_string()];
    assert_eq!(classify_import("@scope/x", &invalid), ImportGroup::External);
}

#[test]
fn adapter_checks_and_fixes_like_the_rule() {
    let source = "import b from \"b\";\nimport a from \"a\";\n";
    let line_index = LineIndex::new(source);
    let program = module_of(source);
    let ctx = AstContext { file: "Component.tsx", program: &program, source, line_index: &line_index };
    let adapter = SortImportsAdapter { config: test_config() };
    let found = adapter.check(&ctx);
    assert_eq!(found.len(), run_check(source).len());
    assert!(!found.is_empty());
    assert_eq!(apply_fix(source, &adapter.fix(&ctx)), "import a from \"a\";\nimport b from \"b\";\n");
    assert!(matches!(adapter.severity(), Severity::Warn));
}
