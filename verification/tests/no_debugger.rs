use niteo_lint::config::{RuleConfig, Severity};
use niteo_lint::rules::hygiene::no_debugger::{check_file, fix_file, removal_end_of};
use niteo_lint::rules::{Fix, TextEdit, Violation};
use niteo_lint::syntax::{LineIndex, Span};

/// The spans of the `debugger` statements of `source`: each occurrence of the word `debugger`
/// that is not part of a longer word, outside `//` lines, `/* */` comments and quotes.
fn debugger_spans(source: &str) -> Vec<Span> {
    let mut spans = Vec::new();
    for (at, _) in source.match_indices("debugger") {
        let line_start = source[..at].rfind('\n').map(|p| p + 1).unwrap_or(0);
        let line = &source[line_start..at];
        let in_comment = line.contains("//") || line.contains("/*");
        let in_string = line.matches('"').count() % 2 == 1 || line.matches('\'').count() % 2 == 1;
        let next = source[at + 8..].chars().next();
        let word_ends = !next.is_some_and(|c| c.is_alphanumeric() || c == '_');
        if !in_comment && !in_string && word_ends {
            spans.push(Span { start: at as u32, end: (at + 8) as u32 });
        }
    }
    spans
}

fn test_config() -> RuleConfig {
    RuleConfig { severity: Severity::Warn }
}

fn run_check(source: &str) -> Vec<Violation> {
    let line_index = LineIndex::new(source);
    check_file("Component.tsx", &debugger_spans(source), &line_index, &test_config())
}

fn run_fix(source: &str) -> Vec<Fix> {
    fix_file("Component.tsx", &debugger_spans(source), source, &test_config())
}

fn apply_fix_edits(source: &str, fixes: &[Fix]) -> String {
    let mut edits: Vec<&TextEdit> = fixes.iter().flat_map(|f| f.edits.iter()).collect();
    edits.sort_by(|a, b| b.start.cmp(&a.start));
    let mut out = source.to_string();
    for edit in edits {
        out.replace_range(edit.start..edit.end, &edit.replacement);
    }
    out
}

#[test]
fn reports_debugger_statement() {
    let violations = run_check("debugger;\n");
    assert_eq!(violations.len(), 1);
    assert_eq!(violations[0].line, Some(1));
    assert_eq!(violations[0].column, Some(1));
}

#[test]
fn reports_debugger_without_semicolon() {
    let violations = run_check("debugger\n");
    assert_eq!(violations.len(), 1);
}

#[test]
fn ignores_debugger_in_comments() {
    let source = "// debugger;\n/* debugger; */\n";
    let violations = run_check(source);
    assert!(violations.is_empty());
}

#[test]
fn ignores_debugger_in_strings() {
    let source = r#"const text = "debugger";"#;
    let violations = run_check(source);
    assert!(violations.is_empty());
}

#[test]
fn no_debugger_does_not_match_identifier_fragment() {
    let source = "const debuggerHelper = true;\n";
    let violations = run_check(source);
    assert!(violations.is_empty());
}

#[test]
fn fix_removes_debugger_with_semicolon() {
    let edits = run_fix("debugger;\n");
    assert_eq!(edits.len(), 1);
    assert_eq!(edits[0].edits.len(), 1);
}

#[test]
fn fix_removes_debugger_without_semicolon() {
    let edits = run_fix("debugger\n");
    assert_eq!(edits.len(), 1);
    assert_eq!(edits[0].edits.len(), 1);
}

#[test]
fn fix_leaves_after_trivial() {
    let source = "debugger;\n";
    let edits = run_fix(source);
    let fixed = apply_fix_edits(source, &edits);
    assert_eq!(fixed.trim(), "");
}

#[test]
fn fix_removes_trailing_semicolon() {
    let source = "debugger;\n";
    let edits = run_fix(source);
    assert_eq!(edits.len(), 1);
    assert_eq!(edits[0].edits.len(), 1);
    let edit = &edits[0].edits[0];
    let before = &source[..edit.start];
    let before_semicolon = &source[..edit.start + 1];
    assert!(before.is_empty() || before_semicolon.ends_with(';') || !before_semicolon.contains(';'));
}

#[test]
fn fix_preserves_surrounding_code() {
    let source = "const x = 1;\ndebugger;\nconst y = 2;\n";
    let edits = run_fix(source);
    let fixed = apply_fix_edits(source, &edits);
    assert!(fixed.contains("const x = 1;"));
    assert!(fixed.contains("const y = 2;"));
    assert!(!fixed.contains("debugger"));
}

#[test]
fn fix_no_debugger_returns_empty() {
    let source = "const x = 1;\n";
    let edits = run_fix(source);
    assert!(edits.is_empty());
}

#[test]
fn removal_takes_the_semicolon_after_white_space() {
    let source = "debugger  ;  \n\tx;";
    assert_eq!(removal_end_of(source, 8), 15);
    let source = "debugger x;";
    assert_eq!(removal_end_of(source, 8), 9);
    assert_eq!(removal_end_of(source, 100), 100);
}

#[test]
fn removal_counts_wide_white_space_as_one() {
    let source = "debugger\u{a0}x";
    assert_eq!(removal_end_of(source, 8), 9);
    let source = "debugger\u{a0};y";
    assert_eq!(removal_end_of(source, 8), 11);
}

#[test]
fn debugger_finding_and_fix_have_exact_fields() {
    let source = "x;\n  debugger;\n";
    let violations = run_check(source);
    assert_eq!(violations.len(), 1);
    let v = &violations[0];
    assert_eq!(v.rule, "no-debugger");
    assert_eq!(v.message, "Remove debugger statements before committing code.");
    assert_eq!((v.line, v.column, v.span), (Some(2), Some(3), None));
    let fixes = run_fix(source);
    assert_eq!(fixes[0].rule, "no-debugger");
    assert_eq!((fixes[0].edits[0].start, fixes[0].edits[0].end), (5, 15));
    assert_eq!(fixes[0].edits[0].replacement, "");
    let off = fix_file("Component.tsx", &debugger_spans(source), source, &RuleConfig { severity: Severity::Off });
    assert!(off.is_empty());
}
