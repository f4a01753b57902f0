use niteo_lint::config::Severity;
use niteo_lint::diagnostics::{Diagnostic, DiagnosticCategory, ParseFailure};
use niteo_lint::report::model::{FailureThreshold, Report};
use niteo_lint::report::summary::{group_by_file, group_by_rule};
use niteo_lint::rules::Violation;

fn finding(file: &str, line: usize, column: usize, rule: &str, message: &str, severity: Severity, detail: Option<&str>) -> Violation {
    Violation {
        file: file.to_string(),
        span: None,
        line: Some(line),
        column: Some(column),
        rule: rule.to_string(),
        message: message.to_string(),
        severity,
        detail: detail.map(|d| d.to_string()),
        subject: None,
    }
}

fn violation(file: &str, line: usize, rule: &str, message: &str, severity: Severity) -> Violation {
    finding(file, line, 1, rule, message, severity, None)
}

fn make_violation(severity: Severity) -> Violation {
    finding("test.ts", 1, 1, "test-rule", "test message", severity, None)
}

#[test]
fn test_render_markdown_no_violations() {
    let report = Report::new(vec!["src/main.ts".to_string()], vec![]);
    let output = report.render_markdown();
    assert!(output.contains("Niteo Lint Results"));
    assert!(output.contains("Healthy"));
    assert!(output.contains("| Files scanned | 1 |"));
    assert!(output.contains("| Violations | 0 |"));
}

#[test]
fn test_render_markdown_with_violations() {
    let violations = vec![
        finding("src/main.ts", 10, 5, "no-any", "No `any` type", Severity::Error, Some("Use `unknown` instead")),
        finding("src/utils.ts", 42, 12, "max-file-lines", "File has 150 lines", Severity::Warn, None),
    ];
    let report = Report::new(vec!["src/main.ts".to_string(), "src/utils.ts".to_string()], violations);
    let output = report.render_markdown();
    assert!(output.contains("no-any"));
    assert!(output.contains("max-file-lines"));
    assert!(output.contains("Use `unknown` instead"));
    assert!(output.contains("| Violations | 2 |"));
}

#[test]
fn test_render_markdown_with_diagnostics() {
    let report = Report::new(vec![], vec![])
        .with_diagnostics(vec![Diagnostic::new(DiagnosticCategory::Cache, "cache cleared")]);
    let output = report.render_markdown();
    assert!(output.contains("cache"));
    assert!(output.contains("cache cleared"));
}

#[test]
fn test_render_markdown_with_parse_errors() {
    let report = Report::new(vec![], vec![]).with_parse_failures(vec![ParseFailure {
        file: "src/broken.ts".to_string(),
        message: "Expected a semicolon".to_string(),
        span: None,
    }]);
    let output = report.render_markdown();
    assert!(output.contains("Parse Errors"));
    assert!(output.contains("src/broken.ts"));
    assert!(output.contains("Expected a semicolon"));
}

#[test]
fn group_by_rule_groups_by_severity_and_rule() {
    let first = violation("a.ts", 1, "no-any", "message a", Severity::Error);
    let second = violation("b.ts", 2, "no-any", "message a", Severity::Error);
    let third = violation("c.ts", 3, "no-console", "message b", Severity::Warn);
    let fourth = violation("d.ts", 4, "no-any", "message a", Severity::Warn);

    let violations = [first, second, third, fourth];
    let groups = group_by_rule(&violations);

    assert_eq!(groups.len(), 3);
    assert_eq!(groups[0].rule, "no-any");
    assert_eq!(groups[0].severity, Severity::Error);
    assert_eq!(groups[0].violations.len(), 2);
    assert_eq!(groups[1].rule, "no-any");
    assert_eq!(groups[1].severity, Severity::Warn);
    assert_eq!(groups[1].violations.len(), 1);
    assert_eq!(groups[2].rule, "no-console");
    assert_eq!(groups[2].severity, Severity::Warn);
    assert_eq!(groups[2].violations.len(), 1);
}

#[test]
fn group_by_file_groups_by_file_sorted() {
    let first = violation("b.ts", 2, "no-any", "message a", Severity::Error);
    let second = violation("a.ts", 1, "no-any", "message a", Severity::Error);
    let third = violation("b.ts", 3, "no-console", "message b", Severity::Warn);

    let groups = group_by_file(&[&first, &second, &third]);

    assert_eq!(groups.len(), 2);
    assert_eq!(groups[0].file, "a.ts");
    assert_eq!(groups[0].violations.len(), 1);
    assert_eq!(groups[1].file, "b.ts");
    assert_eq!(groups[1].violations.len(), 2);
}

#[test]
fn text_report_renders_diagnostics_section() {
    let report = Report::new(vec![], vec![])
        .with_diagnostics(vec![Diagnostic::new(DiagnosticCategory::Cache, "failed to prepare cache")]);

    let rendered = report.render_text(false);
    assert!(rendered.contains("Diagnostics"));
    assert!(rendered.contains("failed to prepare cache"));
}

#[test]
fn text_report_omits_diagnostics_when_empty() {
    let report = Report::new(vec![], vec![]);
    let rendered = report.render_text(false);
    assert!(!rendered.contains("Diagnostics"));
}

#[test]
fn test_failure_threshold_error() {
    let report = Report::new(vec![], vec![make_violation(Severity::Error)]);
    assert!(report.has_findings_at_or_above(FailureThreshold::Error));

    let report_warn = Report::new(vec![], vec![make_violation(Severity::Warn)]);
    assert!(!report_warn.has_findings_at_or_above(FailureThreshold::Error));

    let report_info = Report::new(vec![], vec![make_violation(Severity::Info)]);
    assert!(!report_info.has_findings_at_or_above(FailureThreshold::Error));
}

#[test]
fn test_failure_threshold_warn() {
    let report_error = Report::new(vec![], vec![make_violation(Severity::Error)]);
    assert!(report_error.has_findings_at_or_above(FailureThreshold::Warn));

    let report_warn = Report::new(vec![], vec![make_violation(Severity::Warn)]);
    assert!(report_warn.has_findings_at_or_above(FailureThreshold::Warn));

    let report_info = Report::new(vec![], vec![make_violation(Severity::Info)]);
    assert!(!report_info.has_findings_at_or_above(FailureThreshold::Warn));
}

#[test]
fn test_failure_threshold_any() {
    let report_error = Report::new(vec![], vec![make_violation(Severity::Error)]);
    assert!(report_error.has_findings_at_or_above(FailureThreshold::Any));

    let report_warn = Report::new(vec![], vec![make_violation(Severity::Warn)]);
    assert!(report_warn.has_findings_at_or_above(FailureThreshold::Any));

    let report_info = Report::new(vec![], vec![make_violation(Severity::Info)]);
    assert!(report_info.has_findings_at_or_above(FailureThreshold::Any));

    let report_off = Report::new(vec![], vec![make_violation(Severity::Off)]);
    assert!(!report_off.has_findings_at_or_above(FailureThreshold::Any));
}
